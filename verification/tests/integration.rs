use rehyke_core::config::{CrawlConfigBuilder, ScanMode, ScreenshotFormat, Viewport, WaitStrategy};

#[test]
fn crawl_config_viewport_builder_methods() {
    let cfg = CrawlConfigBuilder::new()
        .viewport(Viewport::Mobile)
        .screenshot(true)
        .screenshot_format(ScreenshotFormat::Jpeg)
        .screenshot_output_dir("/tmp")
        .js_scroll_count(5)
        .dismiss_popups(true)
        .detect_spa(true)
        .randomize_fingerprint(true)
        .js_wait_timeout(20_000)
        .js_wait_strategy(WaitStrategy::NetworkIdle)
        .build();

    assert_eq!(cfg.viewport, Viewport::Mobile);
    assert!(cfg.screenshot);
    assert_eq!(cfg.screenshot_format, ScreenshotFormat::Jpeg);
    assert_eq!(cfg.screenshot_output_dir, Some("/tmp".to_string()));
    assert_eq!(cfg.js_scroll_count, 5);
    assert!(cfg.dismiss_popups);
    assert!(cfg.detect_spa);
    assert!(cfg.randomize_fingerprint);
    assert_eq!(cfg.js_wait_timeout_ms, 20_000);
    assert!(matches!(cfg.js_wait_strategy, WaitStrategy::NetworkIdle));
}

#[test]
fn crawl_config_selector_wait_strategy() {
    let cfg = CrawlConfigBuilder::new()
        .js_wait_strategy(WaitStrategy::Selector {
            selector: "#nuxt-loading".to_string(),
        })
        .build();

    assert!(matches!(
        cfg.js_wait_strategy,
        WaitStrategy::Selector { ref selector } if selector == "#nuxt-loading"
    ));
}

#[test]
fn crawl_config_duration_wait_strategy() {
    let cfg = CrawlConfigBuilder::new()
        .js_wait_strategy(WaitStrategy::Duration { duration_ms: 800 })
        .build();

    assert!(matches!(
        cfg.js_wait_strategy,
        WaitStrategy::Duration { duration_ms } if duration_ms == 800
    ));
}

#[test]
fn crawl_config_scan_mode_lite_defaults() {
    let cfg = CrawlConfigBuilder::new().mode(ScanMode::Lite).build();
    assert_eq!(cfg.max_depth, 2);
    assert_eq!(cfg.max_pages, 100);
    assert_eq!(cfg.concurrency, 5);
}

#[test]
fn crawl_config_scan_mode_deep_defaults() {
    let cfg = CrawlConfigBuilder::new().mode(ScanMode::Deep).build();
    assert_eq!(cfg.max_depth, 50);
    assert_eq!(cfg.max_pages, 50_000);
    assert_eq!(cfg.concurrency, 25);
}
