use rehyke_core::config::{CrawlConfigBuilder, ScreenshotFormat, Viewport, WaitStrategy};
use rehyke_core::error::RehykeError;
use rehyke_core::renderer::{
    popup_accept_selectors, spa_detectors, RenderResult, Renderer, RendererConfig, ScreenshotData,
    SpaFramework,
};
use rehyke_core::utils::Url;

#[test]
fn test_renderer_config_defaults() {
    let config = RendererConfig::default();

    assert_eq!(config.render_timeout_ms, 30_000);
    assert!(matches!(config.wait_strategy, WaitStrategy::Auto));
    assert!(config.block_resources);
    assert_eq!(config.tab_pool_size, 4);
    assert!(config.headless);
    assert_eq!(config.max_scrolls, 0);
    assert_eq!(config.viewport, Viewport::Desktop);
    assert!(!config.dismiss_popups);
    assert!(!config.screenshot);
    assert_eq!(config.screenshot_format, ScreenshotFormat::Png);
    assert!(config.screenshot_output_dir.is_none());
    assert!(!config.randomize_fingerprint);
    assert!(!config.detect_spa);
}

#[test]
fn test_renderer_creation_not_initialized() {
    let config = RendererConfig::default();
    let renderer = Renderer::new(config);
    assert!(!renderer.is_initialized());
}

#[test]
fn test_viewport_dimensions() {
    assert_eq!(Viewport::Desktop.dimensions(), (1920, 1080));
    assert_eq!(Viewport::Tablet.dimensions(), (768, 1024));
    assert_eq!(Viewport::Mobile.dimensions(), (390, 844));
}

#[test]
fn test_viewport_mobile_flags() {
    assert!(!Viewport::Desktop.is_mobile());
    assert!(Viewport::Tablet.is_mobile());
    assert!(Viewport::Mobile.is_mobile());

    assert!(!Viewport::Desktop.has_touch());
    assert!(Viewport::Tablet.has_touch());
    assert!(Viewport::Mobile.has_touch());
}

#[test]
fn test_spa_framework_display() {
    assert_eq!(SpaFramework::React.to_string(), "React");
    assert_eq!(SpaFramework::NextJs.to_string(), "Next.js");
    assert_eq!(SpaFramework::Vue.to_string(), "Vue");
    assert_eq!(SpaFramework::Angular.to_string(), "Angular");
    assert_eq!(SpaFramework::Svelte.to_string(), "Svelte");
    assert_eq!(SpaFramework::Nuxt.to_string(), "Nuxt");
    assert_eq!(SpaFramework::SvelteKit.to_string(), "SvelteKit");
    assert_eq!(SpaFramework::Unknown.to_string(), "Unknown");
}

#[test]
fn test_render_without_initialization_returns_error() {
    let renderer = Renderer::new(RendererConfig::default());
    let url = Url::parse("https://example.com").unwrap();

    let result = renderer.render(&url);
    assert!(result.is_err());

    match result.unwrap_err() {
        RehykeError::BrowserError { message } => {
            assert!(message.contains("not initialized"));
        }
        other => panic!("Expected BrowserError, got: {:?}", other),
    }
}

#[test]
fn test_render_html_without_initialization_returns_error() {
    let renderer = Renderer::new(RendererConfig::default());
    let url = Url::parse("https://example.com").unwrap();

    let result = renderer.render_html("<html></html>", &url);
    assert!(result.is_err());

    match result.unwrap_err() {
        RehykeError::BrowserError { message } => {
            assert!(message.contains("not initialized"));
        }
        other => panic!("Expected BrowserError, got: {:?}", other),
    }
}

#[test]
fn test_initialize_stub_and_shutdown() {
    let mut renderer = Renderer::new(RendererConfig::default());
    assert!(!renderer.is_initialized());

    renderer.initialize().unwrap();
    assert!(renderer.is_initialized());
    renderer.shutdown().unwrap();
    assert!(!renderer.is_initialized());
}

#[test]
fn test_renderer_config_custom_values() {
    let config = RendererConfig {
        render_timeout_ms: 60_000,
        wait_strategy: WaitStrategy::Selector {
            selector: "div.content".to_string(),
        },
        block_resources: false,
        tab_pool_size: 8,
        headless: false,
        max_scrolls: 10,
        viewport: Viewport::Mobile,
        dismiss_popups: true,
        screenshot: true,
        screenshot_format: ScreenshotFormat::Jpeg,
        screenshot_output_dir: Some("/tmp/shots".to_string()),
        randomize_fingerprint: true,
        detect_spa: true,
    };

    assert_eq!(config.render_timeout_ms, 60_000);
    assert!(matches!(
        config.wait_strategy,
        WaitStrategy::Selector { ref selector } if selector == "div.content"
    ));
    assert!(!config.block_resources);
    assert_eq!(config.tab_pool_size, 8);
    assert!(!config.headless);
    assert_eq!(config.max_scrolls, 10);
    assert_eq!(config.viewport, Viewport::Mobile);
    assert!(config.dismiss_popups);
    assert!(config.screenshot);
    assert_eq!(config.screenshot_format, ScreenshotFormat::Jpeg);
    assert_eq!(
        config.screenshot_output_dir,
        Some("/tmp/shots".to_string())
    );
    assert!(config.randomize_fingerprint);
    assert!(config.detect_spa);
}

#[test]
fn test_popup_accept_selectors_are_valid_css() {
    // Ensure every selector string is non-empty and starts with a valid
    // CSS character (basic sanity check — not full CSS validation).
    for selector in popup_accept_selectors() {
        assert!(
            !selector.is_empty(),
            "Empty popup selector found"
        );
    }
    assert!(
        popup_accept_selectors().len() >= 10,
        "Expected at least 10 popup selectors"
    );
}

#[test]
fn test_spa_detectors_have_valid_expressions() {
    for (name, expr) in spa_detectors() {
        assert!(!name.is_empty(), "Empty SPA framework name");
        assert!(!expr.is_empty(), "Empty SPA detection expression for {}", name);
    }
}

#[test]
fn test_screenshot_data_format() {
    let data = ScreenshotData {
        data: vec![0u8; 100],
        format: ScreenshotFormat::Png,
        width: 1920,
        height: 1080,
        saved_path: None,
    };
    assert_eq!(data.data.len(), 100);
    assert_eq!(data.format, ScreenshotFormat::Png);
    assert_eq!(data.width, 1920);
    assert_eq!(data.height, 1080);
    assert!(data.saved_path.is_none());
}

#[test]
fn test_screenshot_data_with_saved_path() {
    let path = "/tmp/page.png".to_string();
    let data = ScreenshotData {
        data: vec![0xFF, 0xD8, 0xFF], // JPEG magic bytes
        format: ScreenshotFormat::Jpeg,
        width: 390,
        height: 844,
        saved_path: Some(path.clone()),
    };
    assert_eq!(data.format, ScreenshotFormat::Jpeg);
    assert_eq!(data.saved_path, Some(path));
    assert_eq!(data.data[0], 0xFF);
}

#[test]
fn test_render_result_all_fields() {
    let result = RenderResult {
        html: "<html><body>hello</body></html>".to_string(),
        final_url: "https://example.com/".to_string(),
        elapsed_ms: 350,
        screenshot: None,
        detected_framework: Some(SpaFramework::React),
        popup_dismissed: true,
        pages_scrolled: 5,
    };
    assert!(!result.html.is_empty());
    assert_eq!(result.final_url, "https://example.com/");
    assert!(result.elapsed_ms < 1_000);
    assert!(result.screenshot.is_none());
    assert_eq!(result.detected_framework, Some(SpaFramework::React));
    assert!(result.popup_dismissed);
    assert_eq!(result.pages_scrolled, 5);
}

#[test]
fn test_render_result_with_screenshot() {
    let shot = ScreenshotData {
        data: vec![1, 2, 3],
        format: ScreenshotFormat::Png,
        width: 1920,
        height: 1080,
        saved_path: Some("/tmp/shot.png".to_string()),
    };
    let result = RenderResult {
        html: String::new(),
        final_url: "https://example.com/".to_string(),
        elapsed_ms: 100,
        screenshot: Some(shot),
        detected_framework: None,
        popup_dismissed: false,
        pages_scrolled: 0,
    };
    let s = result.screenshot.as_ref().unwrap();
    assert_eq!(s.width, 1920);
    assert_eq!(s.height, 1080);
    assert!(result.detected_framework.is_none());
}

#[test]
fn test_spa_framework_all_variants() {
    // Every variant round-trips through Display correctly.
    let pairs = [
        (SpaFramework::React,     "React"),
        (SpaFramework::Vue,       "Vue"),
        (SpaFramework::Angular,   "Angular"),
        (SpaFramework::Svelte,    "Svelte"),
        (SpaFramework::NextJs,    "Next.js"),
        (SpaFramework::Nuxt,      "Nuxt"),
        (SpaFramework::SvelteKit, "SvelteKit"),
        (SpaFramework::Unknown,   "Unknown"),
    ];
    for (framework, expected) in pairs {
        assert_eq!(framework.to_string(), expected);
    }
}

#[test]
fn test_spa_framework_equality() {
    assert_eq!(SpaFramework::React, SpaFramework::React);
    assert_ne!(SpaFramework::React, SpaFramework::Vue);
    assert_ne!(SpaFramework::NextJs, SpaFramework::Nuxt);
}

#[test]
fn test_popup_selectors_cover_known_providers() {
    let selectors_joined = popup_accept_selectors().join(" ");
    // Well-known CMP providers must appear in the selector list.
    let known_patterns = [
        "onetrust",
        "cookie",
        "consent",
        "gdpr",
        "accept",
    ];
    for pattern in known_patterns {
        assert!(
            selectors_joined.to_lowercase().contains(pattern),
            "Popup selectors should cover '{}' but none matched",
            pattern
        );
    }
}

#[test]
fn test_spa_detectors_cover_known_frameworks() {
    let names: Vec<&str> = spa_detectors().iter().map(|(n, _)| *n).collect();
    for expected in ["React", "Vue", "Angular", "Next.js"] {
        assert!(
            names.contains(&expected),
            "SPA_DETECTORS should include '{}', got: {:?}",
            expected,
            names
        );
    }
}

#[test]
fn test_spa_detector_expressions_non_trivial() {
    // Each detection expression should reference a JS global or DOM attribute.
    for (name, expr) in spa_detectors() {
        assert!(
            expr.contains("window.")
                || expr.contains("document.")
                || expr.contains("__")
                || expr.contains("["),
            "SPA detector for '{}' looks too simple: '{}'",
            name,
            expr
        );
    }
}

#[test]
fn test_renderer_config_tab_pool_size_minimum() {
    // tab_pool_size of 0 would starve the pool — default must be ≥ 1.
    let config = RendererConfig::default();
    assert!(config.tab_pool_size >= 1, "tab pool must have at least one slot");
}

#[test]
fn test_screenshot_format_is_copy() {
    // ScreenshotFormat is Copy — assigning it doesn't move it.
    let fmt = ScreenshotFormat::Jpeg;
    let fmt2 = fmt;
    assert_eq!(fmt, fmt2); // both still usable
}

#[test]
fn test_viewport_is_copy() {
    let vp = Viewport::Mobile;
    let vp2 = vp;
    assert_eq!(vp, vp2);
}

#[test]
fn test_renderer_not_initialized_after_new() {
    let r = Renderer::new(RendererConfig {
        viewport: Viewport::Tablet,
        max_scrolls: 3,
        dismiss_popups: true,
        ..RendererConfig::default()
    });
    assert!(!r.is_initialized());
}

#[test]
fn test_multiple_renderers_independent() {
    let r1 = Renderer::new(RendererConfig::default());
    let r2 = Renderer::new(RendererConfig {
        viewport: Viewport::Mobile,
        ..RendererConfig::default()
    });
    // Both start uninitialized independently.
    assert!(!r1.is_initialized());
    assert!(!r2.is_initialized());
}

#[test]
fn test_render_after_initialize_reports_missing_engine() {
    let mut renderer = Renderer::new(RendererConfig::default());
    renderer.initialize().unwrap();
    let url = Url::parse("https://example.com/").unwrap();
    match renderer.render(&url) {
        Err(RehykeError::RenderError { url, message }) => {
            assert_eq!(url, "https://example.com/");
            assert!(message.contains("--features js"));
        }
        other => panic!("Expected RenderError, got: {:?}", other.is_ok()),
    }
}

#[test]
fn renderer_config_fields_match_crawl_config() {
    let crawl_cfg = CrawlConfigBuilder::new()
        .enable_js(true)
        .viewport(Viewport::Tablet)
        .js_scroll_count(4)
        .dismiss_popups(true)
        .screenshot(true)
        .screenshot_format(ScreenshotFormat::Jpeg)
        .screenshot_output_dir("/tmp")
        .randomize_fingerprint(true)
        .detect_spa(true)
        .js_wait_timeout(12_000)
        .js_wait_strategy(WaitStrategy::NetworkIdle)
        .build();

    let renderer_cfg = RendererConfig {
        render_timeout_ms: crawl_cfg.js_wait_timeout_ms,
        wait_strategy: crawl_cfg.js_wait_strategy.clone(),
        block_resources: true,
        tab_pool_size: (crawl_cfg.concurrency / 4).max(2),
        headless: true,
        max_scrolls: crawl_cfg.js_scroll_count,
        viewport: crawl_cfg.viewport,
        dismiss_popups: crawl_cfg.dismiss_popups,
        screenshot: crawl_cfg.screenshot,
        screenshot_format: crawl_cfg.screenshot_format,
        screenshot_output_dir: crawl_cfg.screenshot_output_dir.clone(),
        randomize_fingerprint: crawl_cfg.randomize_fingerprint,
        detect_spa: crawl_cfg.detect_spa,
    };

    assert_eq!(renderer_cfg.viewport, Viewport::Tablet);
    assert_eq!(renderer_cfg.max_scrolls, 4);
    assert!(renderer_cfg.dismiss_popups);
    assert!(renderer_cfg.screenshot);
    assert_eq!(renderer_cfg.screenshot_format, ScreenshotFormat::Jpeg);
    assert!(renderer_cfg.randomize_fingerprint);
    assert!(renderer_cfg.detect_spa);
    assert!(renderer_cfg.tab_pool_size >= 2);
}

#[test]
fn renderer_config_from_crawl_config() {
    let crawl_cfg = CrawlConfigBuilder::new()
        .concurrency(40)
        .viewport(Viewport::Mobile)
        .js_scroll_count(6)
        .screenshot_output_dir("/tmp/shots")
        .js_wait_timeout(7_000)
        .js_wait_strategy(WaitStrategy::Selector { selector: "#root".to_string() })
        .build();
    let r = RendererConfig::from_crawl_config(&crawl_cfg);
    assert_eq!(r.render_timeout_ms, 7_000);
    assert!(matches!(r.wait_strategy, WaitStrategy::Selector { ref selector } if selector == "#root"));
    assert_eq!(r.tab_pool_size, 10);
    assert_eq!(r.max_scrolls, 6);
    assert_eq!(r.viewport, Viewport::Mobile);
    assert_eq!(r.screenshot_output_dir, Some("/tmp/shots".to_string()));
    assert!(r.block_resources && r.headless);
    let small = CrawlConfigBuilder::new().concurrency(3).build();
    assert_eq!(RendererConfig::from_crawl_config(&small).tab_pool_size, 2);
}
