use rehyke_core::bindings::{
    build_py_config, config_repr, crawler_repr, error_kind, join_markdown, parse_scan_mode,
    parse_screenshot_format, parse_viewport, parse_wait_strategy, result_repr, PyConfigOptions,
    PyErrorKind, WaitStrategyText,
};
use rehyke_core::config::{CrawlConfig, DelayStrategy, ScanMode, ScreenshotFormat, Viewport, WaitStrategy};
use rehyke_core::error::RehykeError;
use rehyke_core::output::RenderMethod;

fn py_options() -> PyConfigOptions {
    PyConfigOptions {
        mode: None,
        max_depth: None,
        max_pages: None,
        concurrency: None,
        enable_js: false,
        user_agent: None,
        timeout_secs: None,
        max_retries: None,
        respect_robots_txt: true,
        clean_navigation: true,
        clean_footers: true,
        clean_ads: true,
        exclude_patterns: None,
        include_patterns: None,
        delay_min_ms: None,
        delay_max_ms: None,
        js_wait_timeout_ms: 10_000,
        scroll_count: 0,
        dismiss_popups: false,
        viewport: "desktop".to_string(),
        screenshot: false,
        screenshot_format: "png".to_string(),
        screenshot_dir: None,
        detect_spa: false,
        randomize_fingerprint: false,
    }
}

#[test]
fn errors_map_to_python_exceptions() {
    assert_eq!(error_kind(&RehykeError::Timeout { url: "u".into() }), PyErrorKind::Timeout);
    assert_eq!(error_kind(&RehykeError::IoError("disk".into())), PyErrorKind::Io);
    assert_eq!(error_kind(&RehykeError::ConfigError { message: "m".into() }), PyErrorKind::Value);
    assert_eq!(error_kind(&RehykeError::UrlParseError("m".into())), PyErrorKind::Value);
    assert_eq!(error_kind(&RehykeError::HttpError { url: "u".into(), status: 500 }), PyErrorKind::Runtime);
    assert_eq!(error_kind(&RehykeError::RateLimited { domain: "d".into() }), PyErrorKind::Runtime);
}

#[test]
fn scan_mode_names_any_case() {
    assert_eq!(parse_scan_mode("lite"), Ok(ScanMode::Lite));
    assert_eq!(parse_scan_mode("FULL"), Ok(ScanMode::Full));
    assert_eq!(parse_scan_mode("Deep"), Ok(ScanMode::Deep));
    assert_eq!(
        parse_scan_mode("Turbo"),
        Err("invalid mode 'turbo': expected 'lite', 'full', or 'deep'".to_string())
    );
}

#[test]
fn viewport_names_any_case() {
    assert_eq!(parse_viewport("Desktop"), Ok(Viewport::Desktop));
    assert_eq!(parse_viewport("tablet"), Ok(Viewport::Tablet));
    assert_eq!(parse_viewport("MOBILE"), Ok(Viewport::Mobile));
    assert_eq!(
        parse_viewport("Watch"),
        Err("unknown viewport 'watch': expected 'desktop', 'tablet', or 'mobile'".to_string())
    );
}

#[test]
fn screenshot_format_names() {
    assert_eq!(parse_screenshot_format("PNG"), Ok(ScreenshotFormat::Png));
    assert_eq!(parse_screenshot_format("jpeg"), Ok(ScreenshotFormat::Jpeg));
    assert_eq!(parse_screenshot_format("JPG"), Ok(ScreenshotFormat::Jpeg));
    assert_eq!(
        parse_screenshot_format("gif"),
        Err("unknown screenshot_format 'gif': expected 'png' or 'jpeg'".to_string())
    );
}

#[test]
fn wait_strategy_keywords() {
    assert!(matches!(parse_wait_strategy("AUTO"), WaitStrategyText::Named(WaitStrategy::Auto)));
    for s in ["network_idle", "NetworkIdle", "idle"] {
        assert!(matches!(parse_wait_strategy(s), WaitStrategyText::Named(WaitStrategy::NetworkIdle)));
    }
}

#[test]
fn wait_strategy_selector_is_trimmed_and_lowercased() {
    match parse_wait_strategy("selector:  #App-Root ") {
        WaitStrategyText::Named(WaitStrategy::Selector { selector }) => assert_eq!(selector, "#app-root"),
        other => panic!("unexpected {:?}", other),
    }
    match parse_wait_strategy("selector:   ") {
        WaitStrategyText::Invalid(m) => assert_eq!(
            m,
            "selector wait strategy requires a non-empty CSS selector after 'selector:'"
        ),
        other => panic!("unexpected {:?}", other),
    }
}

#[test]
fn wait_strategy_other_text_is_seconds() {
    match parse_wait_strategy("2.5") {
        WaitStrategyText::Seconds { text, unknown } => {
            assert_eq!(text, "2.5");
            assert_eq!(
                unknown,
                "unknown js_wait_strategy '2.5': expected 'auto', 'network_idle', 'selector:<CSS>', or a number of seconds"
            );
        }
        other => panic!("unexpected {:?}", other),
    }
}

#[test]
fn py_config_defaults() {
    let c = build_py_config(&py_options(), WaitStrategy::Auto).unwrap();
    assert_eq!(c.mode, ScanMode::Full);
    assert_eq!(c.max_depth, 5);
    assert_eq!(c.max_pages, 1000);
    assert_eq!(c.concurrency, 10);
    assert_eq!(c.delay_strategy, DelayStrategy::NoDelay);
    assert_eq!(c.viewport, Viewport::Desktop);
    assert_eq!(c.screenshot_format, ScreenshotFormat::Png);
    assert_eq!(c.timeout_ms, 30000);
    assert!(c.exclude_patterns.is_empty());
}

#[test]
fn py_config_overrides() {
    let mut o = py_options();
    o.mode = Some(ScanMode::Lite);
    o.max_pages = Some(7);
    o.timeout_secs = Some(4);
    o.max_retries = Some(1);
    o.viewport = "Mobile".to_string();
    o.screenshot_format = "jpg".to_string();
    o.screenshot_dir = Some("/tmp/shots".to_string());
    o.delay_min_ms = Some(100);
    o.delay_max_ms = Some(900);
    o.exclude_patterns = Some(vec!["/login".to_string()]);
    o.user_agent = Some("PyBot".to_string());
    let c = build_py_config(&o, WaitStrategy::NetworkIdle).unwrap();
    assert_eq!(c.mode, ScanMode::Lite);
    assert_eq!(c.max_depth, 2);
    assert_eq!(c.max_pages, 7);
    assert_eq!(c.timeout_ms, 4000);
    assert_eq!(c.retry_config.max_retries, 1);
    assert_eq!(c.viewport, Viewport::Mobile);
    assert_eq!(c.screenshot_format, ScreenshotFormat::Jpeg);
    assert_eq!(c.screenshot_output_dir, Some("/tmp/shots".to_string()));
    assert_eq!(c.delay_strategy, DelayStrategy::Random { min_ms: 100, max_ms: 900 });
    assert_eq!(c.exclude_patterns, vec!["/login".to_string()]);
    assert_eq!(c.user_agent, "PyBot");
    assert!(matches!(c.js_wait_strategy, WaitStrategy::NetworkIdle));
}

#[test]
fn py_config_single_delay_bound_is_fixed() {
    let mut o = py_options();
    o.delay_max_ms = Some(250);
    let c = build_py_config(&o, WaitStrategy::Auto).unwrap();
    assert_eq!(c.delay_strategy, DelayStrategy::Fixed { delay_ms: 250 });
}

#[test]
fn py_config_reports_viewport_before_format() {
    let mut o = py_options();
    o.viewport = "tv".to_string();
    o.screenshot_format = "bmp".to_string();
    assert_eq!(
        build_py_config(&o, WaitStrategy::Auto).err(),
        Some("unknown viewport 'tv': expected 'desktop', 'tablet', or 'mobile'".to_string())
    );
    o.viewport = "tablet".to_string();
    assert_eq!(
        build_py_config(&o, WaitStrategy::Auto).err(),
        Some("unknown screenshot_format 'bmp': expected 'png' or 'jpeg'".to_string())
    );
}

#[test]
fn markdown_pages_are_joined_with_rules() {
    assert_eq!(join_markdown(&Vec::new()), "");
    assert_eq!(join_markdown(&vec!["# A".to_string()]), "# A");
    assert_eq!(
        join_markdown(&vec!["# A".to_string(), "# B".to_string(), "# C".to_string()]),
        "# A\n---\n\n# B\n---\n\n# C"
    );
}

#[test]
fn reprs_read_as_python_prints_them() {
    let c = CrawlConfig::new();
    assert_eq!(
        config_repr(&c),
        "CrawlConfig(mode=Full, max_depth=5, max_pages=1000, concurrency=10, enable_js=false, viewport=Desktop)"
    );
    assert_eq!(crawler_repr(&c), "Rehyke(mode=Full, max_depth=5, concurrency=10, enable_js=false)");
    assert_eq!(
        result_repr("https://example.com/", "Home", 200, RenderMethod::JavaScript),
        "CrawlResult(url='https://example.com/', title='Home', status_code=200, render='javascript')"
    );
}
