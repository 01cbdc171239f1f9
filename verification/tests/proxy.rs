use rehyke_core::config::{ProxyConfig, ProxyStrategy, ProxyType};
use rehyke_core::proxy::ProxyPool;

fn make_proxy(url: &str) -> ProxyConfig {
    ProxyConfig {
        url: url.to_string(),
        proxy_type: ProxyType::Http,
        auth: None,
        region: None,
    }
}

#[test]
fn test_round_robin_cycles() {
    let proxies = vec![
        make_proxy("http://proxy1:8080"),
        make_proxy("http://proxy2:8080"),
        make_proxy("http://proxy3:8080"),
    ];
    let mut pool = ProxyPool::new(proxies, ProxyStrategy::RoundRobin);

    assert_eq!(pool.next_proxy().unwrap().url, "http://proxy1:8080");
    assert_eq!(pool.next_proxy().unwrap().url, "http://proxy2:8080");
    assert_eq!(pool.next_proxy().unwrap().url, "http://proxy3:8080");
    // Wraps around.
    assert_eq!(pool.next_proxy().unwrap().url, "http://proxy1:8080");
    assert_eq!(pool.next_proxy().unwrap().url, "http://proxy2:8080");
}

#[test]
fn test_round_robin_single_proxy() {
    let proxies = vec![make_proxy("http://only:8080")];
    let mut pool = ProxyPool::new(proxies, ProxyStrategy::RoundRobin);
    for _ in 0..5 {
        assert_eq!(pool.next_proxy().unwrap().url, "http://only:8080");
    }
}

#[test]
fn test_random_returns_valid_proxy() {
    let urls = vec!["http://proxy1:8080", "http://proxy2:8080", "http://proxy3:8080"];
    let proxies = urls.iter().map(|u| make_proxy(u)).collect();
    let mut pool = ProxyPool::new(proxies, ProxyStrategy::Random);

    for _ in 0..50 {
        let selected = pool.next_proxy().unwrap();
        assert!(
            urls.contains(&selected.url.as_str()),
            "unexpected proxy URL: {}",
            selected.url
        );
    }
}

#[test]
fn test_random_single_proxy() {
    let proxies = vec![make_proxy("http://only:8080")];
    let mut pool = ProxyPool::new(proxies, ProxyStrategy::Random);
    assert_eq!(pool.next_proxy().unwrap().url, "http://only:8080");
}

#[test]
fn test_failover_starts_at_first() {
    let proxies = vec![
        make_proxy("http://primary:8080"),
        make_proxy("http://backup:8080"),
    ];
    let mut pool = ProxyPool::new(proxies, ProxyStrategy::FailoverOnly);

    assert_eq!(pool.next_proxy().unwrap().url, "http://primary:8080");
    assert_eq!(pool.next_proxy().unwrap().url, "http://primary:8080");
}

#[test]
fn test_failover_advance() {
    let proxies = vec![
        make_proxy("http://primary:8080"),
        make_proxy("http://backup1:8080"),
        make_proxy("http://backup2:8080"),
    ];
    let mut pool = ProxyPool::new(proxies, ProxyStrategy::FailoverOnly);

    assert_eq!(pool.next_proxy().unwrap().url, "http://primary:8080");
    pool.advance_failover();
    assert_eq!(pool.next_proxy().unwrap().url, "http://backup1:8080");
    pool.advance_failover();
    assert_eq!(pool.next_proxy().unwrap().url, "http://backup2:8080");
    pool.advance_failover();
    // Wraps around.
    assert_eq!(pool.next_proxy().unwrap().url, "http://primary:8080");
}

#[test]
fn test_least_used_distributes_evenly() {
    let proxies = vec![
        make_proxy("http://proxy1:8080"),
        make_proxy("http://proxy2:8080"),
        make_proxy("http://proxy3:8080"),
    ];
    let mut pool = ProxyPool::new(proxies, ProxyStrategy::LeastUsed);

    // Each call should pick the proxy with the fewest uses.
    // First round: all at 0, picks proxy1 (idx 0).
    let p1 = pool.next_proxy().unwrap().url.clone();
    assert_eq!(p1, "http://proxy1:8080");

    // proxy1 has 1 use, proxy2 and proxy3 have 0.
    let p2 = pool.next_proxy().unwrap().url.clone();
    assert_eq!(p2, "http://proxy2:8080");

    // proxy1=1, proxy2=1, proxy3=0.
    let p3 = pool.next_proxy().unwrap().url.clone();
    assert_eq!(p3, "http://proxy3:8080");

    // All at 1 now, picks proxy1 again (first with min).
    let p4 = pool.next_proxy().unwrap().url.clone();
    assert_eq!(p4, "http://proxy1:8080");
}

#[test]
fn test_least_used_single_proxy() {
    let proxies = vec![make_proxy("http://only:8080")];
    let mut pool = ProxyPool::new(proxies, ProxyStrategy::LeastUsed);

    for i in 0..5 {
        assert_eq!(pool.next_proxy().unwrap().url, "http://only:8080");
        assert_eq!(pool.usage_count(0), i + 1);
    }
}

#[test]
fn test_usage_count_tracking() {
    let proxies = vec![
        make_proxy("http://proxy1:8080"),
        make_proxy("http://proxy2:8080"),
    ];
    let mut pool = ProxyPool::new(proxies, ProxyStrategy::RoundRobin);

    assert_eq!(pool.usage_count(0), 0);
    assert_eq!(pool.usage_count(1), 0);

    pool.next_proxy(); // proxy1
    assert_eq!(pool.usage_count(0), 1);
    assert_eq!(pool.usage_count(1), 0);

    pool.next_proxy(); // proxy2
    assert_eq!(pool.usage_count(0), 1);
    assert_eq!(pool.usage_count(1), 1);
}

#[test]
fn test_empty_pool() {
    let mut pool = ProxyPool::new(Vec::new(), ProxyStrategy::RoundRobin);
    assert!(pool.is_empty());
    assert_eq!(pool.len(), 0);
    assert!(pool.next_proxy().is_none());
}

#[test]
fn test_empty_pool_random() {
    let mut pool = ProxyPool::new(Vec::new(), ProxyStrategy::Random);
    assert!(pool.next_proxy().is_none());
}

#[test]
fn test_empty_pool_failover() {
    let mut pool = ProxyPool::new(Vec::new(), ProxyStrategy::FailoverOnly);
    assert!(pool.next_proxy().is_none());
}

#[test]
fn test_len_and_is_empty() {
    let mut pool = ProxyPool::new(
        vec![make_proxy("http://a:80"), make_proxy("http://b:80")],
        ProxyStrategy::RoundRobin,
    );
    assert!(!pool.is_empty());
    assert_eq!(pool.len(), 2);
}

#[test]
fn test_proxy_config_region() {
    let config = ProxyConfig {
        url: "http://proxy.example.com:8080".to_string(),
        proxy_type: ProxyType::Http,
        auth: None,
        region: Some("us-east-1".to_string()),
    };
    assert_eq!(config.region.as_deref(), Some("us-east-1"));
}
