use rehyke_core::cli::{build_config, error_page_count, parse_delay, CliOptions};
use rehyke_core::config::{DelayStrategy, FileStructure, OutputMode, ProxyType, ScanMode};

fn options() -> CliOptions {
    CliOptions {
        mode: ScanMode::Full,
        max_depth: None,
        max_pages: None,
        concurrency: None,
        js: false,
        output_dir: None,
        output: None,
        structure: FileStructure::Flat,
        proxies: Vec::new(),
        delay: None,
        exclude_patterns: Vec::new(),
        include_patterns: Vec::new(),
        no_robots: false,
        clean_nav: false,
        clean_footer: false,
        clean_ads: false,
        timeout: None,
        retries: None,
        user_agent: None,
    }
}

#[test]
fn parse_delay_range() {
    assert_eq!(
        parse_delay("500-2000"),
        Ok(DelayStrategy::Random { min_ms: 500, max_ms: 2000 })
    );
    assert_eq!(
        parse_delay(" 100 - 300 "),
        Ok(DelayStrategy::Random { min_ms: 100, max_ms: 300 })
    );
}

#[test]
fn parse_delay_fixed() {
    assert_eq!(parse_delay("750"), Ok(DelayStrategy::Fixed { delay_ms: 750 }));
    assert_eq!(parse_delay("  42 "), Ok(DelayStrategy::Fixed { delay_ms: 42 }));
}

#[test]
fn parse_delay_errors_name_the_part() {
    assert_eq!(parse_delay("abc"), Err("delay is not a valid number".to_string()));
    assert_eq!(parse_delay("x-200"), Err("min delay is not a valid number".to_string()));
    assert_eq!(parse_delay("100-y"), Err("max delay is not a valid number".to_string()));
    assert_eq!(parse_delay(""), Err("delay is not a valid number".to_string()));
}

#[test]
fn build_config_uses_mode_defaults() {
    let c = build_config(&options()).unwrap();
    assert_eq!(c.mode, ScanMode::Full);
    assert_eq!(c.max_depth, 5);
    assert_eq!(c.max_pages, 1000);
    assert_eq!(c.concurrency, 10);
    assert!(matches!(c.output, OutputMode::Memory));
    assert_eq!(c.delay_strategy, DelayStrategy::NoDelay);
    assert!(c.respect_robots_txt);
    assert!(c.clean_navigation && c.clean_footers && c.clean_ads);
    assert_eq!(c.timeout_ms, 30000);
    assert_eq!(c.retry_config.max_retries, 3);
}

#[test]
fn build_config_applies_overrides() {
    let mut o = options();
    o.mode = ScanMode::Deep;
    o.max_depth = Some(7);
    o.max_pages = Some(20);
    o.concurrency = Some(3);
    o.js = true;
    o.no_robots = true;
    o.timeout = Some(12);
    o.retries = Some(9);
    o.user_agent = Some("TestBot/1.0".to_string());
    o.delay = Some("10-20".to_string());
    o.exclude_patterns = vec![r"\.pdf$".to_string()];
    o.include_patterns = vec!["/docs/".to_string()];
    let c = build_config(&o).unwrap();
    assert_eq!(c.mode, ScanMode::Deep);
    assert_eq!(c.max_depth, 7);
    assert_eq!(c.max_pages, 20);
    assert_eq!(c.concurrency, 3);
    assert!(c.enable_js);
    assert!(!c.respect_robots_txt);
    assert_eq!(c.timeout_ms, 12000);
    assert_eq!(c.retry_config.max_retries, 9);
    assert_eq!(c.retry_config.initial_delay_ms, 500);
    assert_eq!(c.retry_config.max_delay_ms, 30000);
    assert_eq!(c.user_agent, "TestBot/1.0");
    assert_eq!(c.delay_strategy, DelayStrategy::Random { min_ms: 10, max_ms: 20 });
    assert_eq!(c.exclude_patterns, vec![r"\.pdf$".to_string()]);
    assert_eq!(c.include_patterns, vec!["/docs/".to_string()]);
}

#[test]
fn build_config_output_dir_wins_over_file() {
    let mut o = options();
    o.output_dir = Some("out".to_string());
    o.output = Some("all.md".to_string());
    o.structure = FileStructure::Mirror;
    let c = build_config(&o).unwrap();
    match c.output {
        OutputMode::Files { output_dir, structure } => {
            assert_eq!(output_dir, "out");
            assert_eq!(structure, FileStructure::Mirror);
        }
        _ => panic!("expected a directory of files"),
    }
    let mut o = options();
    o.output = Some("all.md".to_string());
    match build_config(&o).unwrap().output {
        OutputMode::SingleFile { output_path } => assert_eq!(output_path, "all.md"),
        _ => panic!("expected a single file"),
    }
}

#[test]
fn build_config_proxy_types_follow_the_scheme() {
    let mut o = options();
    o.proxies = vec![
        "socks5://127.0.0.1:1080".to_string(),
        "https://proxy.example.com".to_string(),
        "http://proxy.example.com:3128".to_string(),
    ];
    let c = build_config(&o).unwrap();
    assert_eq!(c.proxies.len(), 3);
    assert_eq!(c.proxies[0].proxy_type, ProxyType::Socks5);
    assert_eq!(c.proxies[1].proxy_type, ProxyType::Https);
    assert_eq!(c.proxies[2].proxy_type, ProxyType::Http);
    assert_eq!(c.proxies[1].url, "https://proxy.example.com");
    assert!(c.proxies[0].auth.is_none());
}

#[test]
fn build_config_bad_delay_is_an_error() {
    let mut o = options();
    o.delay = Some("soon".to_string());
    match build_config(&o) {
        Err((outer, inner)) => {
            assert_eq!(outer, "invalid --delay value: 'soon'");
            assert_eq!(inner, "delay is not a valid number");
        }
        Ok(_) => panic!("expected an error"),
    }
}

#[test]
fn error_pages_are_counted() {
    assert_eq!(error_page_count(&vec![200, 404, 301, 500, 399, 400]), 3);
    assert_eq!(error_page_count(&Vec::new()), 0);
}

#[test]
fn build_config_caps_a_huge_timeout() {
    let mut o = options();
    o.timeout = Some(u64::MAX);
    assert_eq!(build_config(&o).unwrap().timeout_ms, u64::MAX);
}
