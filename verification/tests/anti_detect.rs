use std::collections::HashSet;

use rehyke_core::anti_detect::{build_ua_pool, AntiDetect};
use rehyke_core::config::DelayStrategy;

#[test]
fn test_ua_pool_has_at_least_50_entries() {
    let pool = build_ua_pool();
    assert!(
        pool.len() >= 50,
        "UA pool should have at least 50 entries, got {}",
        pool.len()
    );
}

#[test]
fn test_ua_pool_entries_are_unique() {
    let pool = build_ua_pool();
    let unique: HashSet<&str> = pool.iter().map(|s| s.as_str()).collect();
    assert_eq!(pool.len(), unique.len(), "UA pool contains duplicates");
}

#[test]
fn test_ua_pool_includes_chrome() {
    let pool = build_ua_pool();
    let count = pool.iter().filter(|ua| ua.contains("Chrome/")).count();
    assert!(count >= 10, "Expected at least 10 Chrome UAs, got {}", count);
}

#[test]
fn test_ua_pool_includes_firefox() {
    let pool = build_ua_pool();
    let count = pool.iter().filter(|ua| ua.contains("Firefox/")).count();
    assert!(count >= 5, "Expected at least 5 Firefox UAs, got {}", count);
}

#[test]
fn test_ua_pool_includes_safari() {
    let pool = build_ua_pool();
    let count = pool
        .iter()
        .filter(|ua| ua.contains("Version/17") && ua.contains("Safari/"))
        .count();
    assert!(count >= 4, "Expected at least 4 Safari 17+ UAs, got {}", count);
}

#[test]
fn test_ua_pool_includes_edge() {
    let pool = build_ua_pool();
    let count = pool.iter().filter(|ua| ua.contains("Edg/")).count();
    assert!(count >= 5, "Expected at least 5 Edge UAs, got {}", count);
}

#[test]
fn test_ua_pool_includes_windows() {
    let pool = build_ua_pool();
    assert!(pool.iter().any(|ua| ua.contains("Windows NT")));
}

#[test]
fn test_ua_pool_includes_macos() {
    let pool = build_ua_pool();
    assert!(pool.iter().any(|ua| ua.contains("Macintosh")));
}

#[test]
fn test_ua_pool_includes_linux() {
    let pool = build_ua_pool();
    assert!(pool.iter().any(|ua| ua.contains("Linux")));
}

#[test]
fn test_random_ua_returns_nonempty() {
    let ad = AntiDetect::new(DelayStrategy::default());
    let ua = ad.random_ua();
    assert!(!ua.is_empty());
    assert!(ua.contains("Mozilla"));
}

#[test]
fn test_fixed_delay() {
    let ad = AntiDetect::new(DelayStrategy::Fixed { delay_ms: 200 });
    let d = ad.get_delay();
    assert_eq!(d, 200);
}

#[test]
fn test_random_delay_within_bounds() {
    let min: u64 = 100;
    let max: u64 = 500;
    let ad = AntiDetect::new(DelayStrategy::Random { min_ms: min, max_ms: max });
    for _ in 0..100 {
        let d = ad.get_delay();
        assert!(d >= min, "delay {:?} < min {:?}", d, min);
        assert!(d <= max, "delay {:?} > max {:?}", d, max);
    }
}

#[test]
fn test_adaptive_delay_returns_initial() {
    let initial: u64 = 150;
    let ad = AntiDetect::new(DelayStrategy::Adaptive { initial_ms: initial });
    let d = ad.get_delay();
    assert_eq!(d, initial);
}

#[test]
fn test_adaptive_delay_increases_on_429() {
    let initial: u64 = 100;
    let mut ad = AntiDetect::new(DelayStrategy::Adaptive { initial_ms: initial });
    assert_eq!(ad.get_delay(), initial);

    ad.record_response(429, 500);
    let after = ad.get_delay();
    assert!(after > initial, "delay should increase after 429, got {:?}", after);
    assert_eq!(after, 200); // doubled
}

#[test]
fn test_adaptive_delay_increases_on_503() {
    let initial: u64 = 100;
    let mut ad = AntiDetect::new(DelayStrategy::Adaptive { initial_ms: initial });

    ad.record_response(503, 500);
    let after = ad.get_delay();
    assert_eq!(after, 200); // doubled
}

#[test]
fn test_adaptive_delay_increases_on_500() {
    let initial: u64 = 100;
    let mut ad = AntiDetect::new(DelayStrategy::Adaptive { initial_ms: initial });

    ad.record_response(500, 500);
    let after = ad.get_delay();
    assert_eq!(after, 150); // +50%
}

#[test]
fn test_adaptive_delay_decays_on_success() {
    let initial: u64 = 100;
    let mut ad = AntiDetect::new(DelayStrategy::Adaptive { initial_ms: initial });

    // First ramp up.
    ad.record_response(429, 500);
    assert_eq!(ad.get_delay(), 200);

    // Then decay on success.
    ad.record_response(200, 100);
    let after = ad.get_delay();
    assert!(after < 200, "delay should decay on success");
    assert!(after >= initial, "delay should not go below initial");
}

#[test]
fn test_adaptive_delay_capped_at_30s() {
    let initial: u64 = 10_000;
    let mut ad = AntiDetect::new(DelayStrategy::Adaptive { initial_ms: initial });

    // Double to 20s.
    ad.record_response(429, 500);
    assert_eq!(ad.get_delay(), 20_000);

    // Double to 40s, but capped at 30s.
    ad.record_response(429, 500);
    assert_eq!(ad.get_delay(), 30_000);
}

#[test]
fn test_record_response_noop_for_non_adaptive() {
    let mut ad = AntiDetect::new(DelayStrategy::Fixed { delay_ms: 100 });
    // Should not panic or change anything.
    ad.record_response(429, 500);
    assert_eq!(ad.get_delay(), 100);
}

#[test]
fn test_none_delay_returns_zero() {
    let ad = AntiDetect::new(DelayStrategy::NoDelay);
    let d = ad.get_delay();
    assert_eq!(d, 0);
}

#[test]
fn test_browser_headers_include_required_keys() {
    let ad = AntiDetect::new(DelayStrategy::default());
    let headers = ad.browser_headers();
    let keys: Vec<&str> = headers.iter().map(|(k, _)| k.as_str()).collect();
    assert!(keys.contains(&"User-Agent"));
    assert!(keys.contains(&"Accept"));
    assert!(keys.contains(&"Accept-Language"));
    assert!(keys.contains(&"Accept-Encoding"));
    assert!(keys.contains(&"Connection"));
}

#[test]
fn test_browser_headers_user_agent_is_from_pool() {
    let ad = AntiDetect::new(DelayStrategy::default());
    let headers = ad.browser_headers();
    let ua_value = headers
        .iter()
        .find(|(k, _)| k == "User-Agent")
        .map(|(_, v)| v.as_str())
        .unwrap();
    assert!(build_ua_pool().iter().any(|u| u == ua_value));
}

#[test]
fn test_random_delay_min_equals_max() {
    let d: u64 = 250;
    let ad = AntiDetect::new(DelayStrategy::Random { min_ms: d, max_ms: d });
    assert_eq!(ad.get_delay(), d);
}
