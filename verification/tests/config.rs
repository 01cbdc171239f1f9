use rehyke_core::config::{
    parse_duration, CrawlConfig, CrawlConfigBuilder, ScanMode, ScreenshotFormat, Viewport,
    WaitStrategy,
};

#[test]
fn parse_bare_number() {
    assert_eq!(parse_duration("500").unwrap(), 500);
}

#[test]
fn parse_ms() {
    assert_eq!(parse_duration("250ms").unwrap(), 250);
}

#[test]
fn parse_seconds() {
    assert_eq!(parse_duration("30s").unwrap(), 30_000);
}

#[test]
fn parse_compound() {
    assert_eq!(parse_duration("1m30s").unwrap(), 90_000);
}

#[test]
fn parse_hours() {
    assert_eq!(parse_duration("2h").unwrap(), 7_200_000);
}

#[test]
fn parse_duration_errors() {
    assert_eq!(parse_duration("   ").unwrap_err(), "empty duration string");
    assert_eq!(parse_duration("5 parsecs").unwrap_err(), "unknown duration unit: parsecs");
    assert_eq!(parse_duration("5s ms").unwrap_err(), "unknown duration unit: sms");
    assert_eq!(parse_duration("ms").unwrap_err(), "trailing unit without a number: ms");
    assert_eq!(parse_duration("0s").unwrap_err(), "could not parse duration: 0s");
    assert_eq!(parse_duration(" 1h 2m 3s ").unwrap(), 3_723_000);
    assert_eq!(parse_duration("+42").unwrap(), 42);
}

#[test]
fn default_config_uses_full_mode() {
    let cfg = CrawlConfig::default();
    assert_eq!(cfg.mode, ScanMode::Full);
    assert_eq!(cfg.max_depth, 5);
    assert_eq!(cfg.max_pages, 1_000);
    assert_eq!(cfg.concurrency, 10);
}

#[test]
fn builder_overrides() {
    let cfg = CrawlConfigBuilder::new()
        .mode(ScanMode::Lite)
        .max_depth(1)
        .concurrency(2)
        .enable_js(true)
        .header("X-Custom", "value")
        .cookie("session", "abc123")
        .remove_www(false)
        .build();

    assert_eq!(cfg.mode, ScanMode::Lite);
    assert_eq!(cfg.max_depth, 1);
    assert_eq!(cfg.concurrency, 2);
    assert!(cfg.enable_js);
    let header = cfg.custom_headers.iter().find(|(k, _)| k == "X-Custom").unwrap();
    assert_eq!(header.1, "value");
    let cookie = cfg.cookies.iter().find(|(k, _)| k == "session").unwrap();
    assert_eq!(cookie.1, "abc123");
    assert!(!cfg.remove_www);
}

#[test]
fn builder_header_replaces_existing() {
    let cfg = CrawlConfigBuilder::new()
        .header("X-A", "1")
        .header("X-B", "2")
        .header("X-A", "3")
        .build();
    assert_eq!(cfg.custom_headers.len(), 2);
    assert_eq!(cfg.custom_headers[0], ("X-A".to_string(), "3".to_string()));
    assert_eq!(cfg.custom_headers[1], ("X-B".to_string(), "2".to_string()));
}

#[test]
fn builder_mode_sets_defaults() {
    let cfg = CrawlConfigBuilder::new().mode(ScanMode::Deep).build();
    assert_eq!(cfg.max_depth, 50);
    assert_eq!(cfg.max_pages, 50_000);
    assert_eq!(cfg.concurrency, 25);
}

#[test]
fn scan_mode_defaults() {
    assert_eq!(ScanMode::Lite.default_max_depth(), 2);
    assert_eq!(ScanMode::Lite.default_max_pages(), 100);
    assert_eq!(ScanMode::Lite.default_concurrency(), 5);

    assert_eq!(ScanMode::Full.default_max_depth(), 5);
    assert_eq!(ScanMode::Full.default_max_pages(), 1_000);
    assert_eq!(ScanMode::Full.default_concurrency(), 10);

    assert_eq!(ScanMode::Deep.default_max_depth(), 50);
    assert_eq!(ScanMode::Deep.default_max_pages(), 50_000);
    assert_eq!(ScanMode::Deep.default_concurrency(), 25);
}

#[test]
fn default_boolean_flags() {
    let cfg = CrawlConfig::default();
    assert!(cfg.respect_robots_txt);
    assert!(cfg.extract_metadata);
    assert!(cfg.clean_navigation);
    assert!(cfg.clean_footers);
    assert!(cfg.clean_ads);
    assert!(cfg.remove_www);
    assert!(!cfg.enable_js);
}

#[test]
fn viewport_default_is_desktop() {
    assert_eq!(Viewport::default(), Viewport::Desktop);
}

#[test]
fn viewport_dimensions_match_spec() {
    assert_eq!(Viewport::Desktop.dimensions(), (1920, 1080));
    assert_eq!(Viewport::Tablet.dimensions(), (768, 1024));
    assert_eq!(Viewport::Mobile.dimensions(), (390, 844));
}

#[test]
fn viewport_is_mobile_and_has_touch() {
    assert!(!Viewport::Desktop.is_mobile());
    assert!(!Viewport::Desktop.has_touch());

    assert!(Viewport::Tablet.is_mobile());
    assert!(Viewport::Tablet.has_touch());

    assert!(Viewport::Mobile.is_mobile());
    assert!(Viewport::Mobile.has_touch());
}

#[test]
fn screenshot_format_default_is_png() {
    assert_eq!(ScreenshotFormat::default(), ScreenshotFormat::Png);
}

#[test]
fn wait_strategy_default_is_auto() {
    assert!(matches!(WaitStrategy::default(), WaitStrategy::Auto));
}

#[test]
fn wait_strategy_selector_stores_css() {
    let ws = WaitStrategy::Selector {
        selector: "#root".to_string(),
    };
    match ws {
        WaitStrategy::Selector { selector } => assert_eq!(selector, "#root"),
        other => panic!("expected Selector, got {:?}", other),
    }
}

#[test]
fn wait_strategy_duration_stores_value() {
    let ws = WaitStrategy::Duration { duration_ms: 5_000 };
    match ws {
        WaitStrategy::Duration { duration_ms } => assert_eq!(duration_ms, 5_000),
        other => panic!("expected Duration, got {:?}", other),
    }
}

#[test]
fn builder_v020_viewport() {
    let cfg = CrawlConfigBuilder::new().viewport(Viewport::Mobile).build();
    assert_eq!(cfg.viewport, Viewport::Mobile);

    let cfg2 = CrawlConfigBuilder::new().viewport(Viewport::Tablet).build();
    assert_eq!(cfg2.viewport, Viewport::Tablet);
}

#[test]
fn builder_v020_screenshot_fields() {
    let dir = "/tmp/shots";
    let cfg = CrawlConfigBuilder::new()
        .screenshot(true)
        .screenshot_format(ScreenshotFormat::Jpeg)
        .screenshot_output_dir(dir)
        .build();

    assert!(cfg.screenshot);
    assert_eq!(cfg.screenshot_format, ScreenshotFormat::Jpeg);
    assert_eq!(cfg.screenshot_output_dir, Some(dir.to_string()));
}

#[test]
fn builder_v020_js_fields() {
    let timeout_ms = 15_000;
    let cfg = CrawlConfigBuilder::new()
        .enable_js(true)
        .js_wait_strategy(WaitStrategy::NetworkIdle)
        .js_wait_timeout(timeout_ms)
        .js_scroll_count(8)
        .dismiss_popups(true)
        .build();

    assert!(cfg.enable_js);
    assert!(matches!(cfg.js_wait_strategy, WaitStrategy::NetworkIdle));
    assert_eq!(cfg.js_wait_timeout_ms, timeout_ms);
    assert_eq!(cfg.js_scroll_count, 8);
    assert!(cfg.dismiss_popups);
}

#[test]
fn builder_v020_detect_spa_and_fingerprint() {
    let cfg = CrawlConfigBuilder::new()
        .detect_spa(true)
        .randomize_fingerprint(true)
        .build();

    assert!(cfg.detect_spa);
    assert!(cfg.randomize_fingerprint);
}

#[test]
fn builder_v020_selector_wait_strategy() {
    let cfg = CrawlConfigBuilder::new()
        .js_wait_strategy(WaitStrategy::Selector {
            selector: "#app".to_string(),
        })
        .build();

    assert!(matches!(
        cfg.js_wait_strategy,
        WaitStrategy::Selector { ref selector } if selector == "#app"
    ));
}

#[test]
fn default_config_v020_defaults() {
    let cfg = CrawlConfig::default();

    assert!(!cfg.enable_js);
    assert!(!cfg.dismiss_popups);
    assert!(!cfg.screenshot);
    assert!(!cfg.detect_spa);
    assert!(!cfg.randomize_fingerprint);

    assert_eq!(cfg.js_scroll_count, 0);

    assert!(cfg.js_wait_timeout_ms >= 5_000,
        "js_wait_timeout should be at least 5 s by default");

    assert_eq!(cfg.screenshot_format, ScreenshotFormat::Png);

    assert!(cfg.screenshot_output_dir.is_none());

    assert_eq!(cfg.viewport, Viewport::Desktop);
}

#[test]
fn default_config_v020_wait_strategy_is_auto() {
    let cfg = CrawlConfig::default();
    assert!(matches!(cfg.js_wait_strategy, WaitStrategy::Auto));
}
