//! The headless-browser renderer as this library builds it: without a
//! browser engine. The types that describe a rendering stay, and the
//! renderer is a stub whose `render` calls fail, so that the crawl falls
//! back to static fetching.
//!
//! Durations are whole milliseconds and paths are strings.

use vstd::prelude::*;

use crate::config::{CrawlConfig, ScreenshotFormat, Viewport, WaitStrategy};
use crate::text::{clone_opt_string, opt_str_view};
use crate::error::RehykeError;
use crate::utils::Url;

verus! {

/// Detected SPA framework from page-source analysis.
#[derive(Debug, Clone, Copy, PartialEq, Eq, Structural)]
pub enum SpaFramework {
    React,
    Vue,
    Angular,
    Svelte,
    NextJs,
    Nuxt,
    SvelteKit,
    Unknown,
}

/// The display name of a framework.
pub open spec fn framework_name(f: SpaFramework) -> Seq<char> {
    match f {
        SpaFramework::React => "React"@,
        SpaFramework::Vue => "Vue"@,
        SpaFramework::Angular => "Angular"@,
        SpaFramework::Svelte => "Svelte"@,
        SpaFramework::NextJs => "Next.js"@,
        SpaFramework::Nuxt => "Nuxt"@,
        SpaFramework::SvelteKit => "SvelteKit"@,
        SpaFramework::Unknown => "Unknown"@,
    }
}

impl SpaFramework {
    /// The display name (`Next.js` for Next, the variant's name otherwise).
    pub fn to_string(&self) -> (res: String)
        ensures
            res@ == framework_name(*self),
    {
        match self {
            SpaFramework::React => "React".to_string(),
            SpaFramework::Vue => "Vue".to_string(),
            SpaFramework::Angular => "Angular".to_string(),
            SpaFramework::Svelte => "Svelte".to_string(),
            SpaFramework::NextJs => "Next.js".to_string(),
            SpaFramework::Nuxt => "Nuxt".to_string(),
            SpaFramework::SvelteKit => "SvelteKit".to_string(),
            SpaFramework::Unknown => "Unknown".to_string(),
        }
    }
}

/// Captured screenshot: raw bytes plus metadata.
#[derive(Debug, Clone)]
pub struct ScreenshotData {
    /// Raw image bytes (PNG or JPEG).
    pub data: Vec<u8>,
    /// Image format.
    pub format: ScreenshotFormat,
    /// Captured width in pixels.
    pub width: u32,
    /// Captured height in pixels.
    pub height: u32,
    /// Where the screenshot was saved, if it was.
    pub saved_path: Option<String>,
}

/// Full result of rendering a page through the headless browser.
#[derive(Debug, Clone)]
pub struct RenderResult {
    /// The rendered HTML after JavaScript execution.
    pub html: String,
    /// The final URL after any JS-driven navigation.
    pub final_url: String,
    /// Time taken to render the page, in milliseconds.
    pub elapsed_ms: u64,
    /// Screenshot data, when screenshots were asked for.
    pub screenshot: Option<ScreenshotData>,
    /// SPA framework detected in the page source.
    pub detected_framework: Option<SpaFramework>,
    /// Whether at least one popup was dismissed.
    pub popup_dismissed: bool,
    /// Number of scroll operations performed.
    pub pages_scrolled: usize,
}

/// Configuration forwarded from the crawl configuration to the renderer.
#[derive(Debug, Clone)]
pub struct RendererConfig {
    /// Maximum time to wait for a page to render, in milliseconds.
    pub render_timeout_ms: u64,
    /// Strategy used to decide when the page is "ready".
    pub wait_strategy: WaitStrategy,
    /// Block images, fonts, and media for faster renders.
    pub block_resources: bool,
    /// Number of browser tabs to keep alive in the pool.
    pub tab_pool_size: usize,
    /// Run the browser in headless mode.
    pub headless: bool,
    /// Maximum scroll operations for infinite-scroll detection.
    pub max_scrolls: usize,
    /// Browser viewport profile.
    pub viewport: Viewport,
    /// Automatically dismiss cookie/GDPR popups.
    pub dismiss_popups: bool,
    /// Capture a full-page screenshot.
    pub screenshot: bool,
    /// Image format for screenshots.
    pub screenshot_format: ScreenshotFormat,
    /// Directory where screenshots are saved.
    pub screenshot_output_dir: Option<String>,
    /// Randomize browser fingerprint details.
    pub randomize_fingerprint: bool,
    /// Detect the SPA framework from page source.
    pub detect_spa: bool,
}

/// The default renderer configuration: a 30-second timeout, automatic
/// waiting, resources blocked, four headless tabs, no scrolling, a desktop
/// viewport, no popup dismissal, no screenshots (PNG, no directory), no
/// fingerprint randomization and no framework detection.
pub open spec fn default_renderer_config(c: RendererConfig) -> bool {
    &&& c.render_timeout_ms == 30_000
    &&& c.wait_strategy is Auto
    &&& c.block_resources
    &&& c.tab_pool_size == 4
    &&& c.headless
    &&& c.max_scrolls == 0
    &&& c.viewport == Viewport::Desktop
    &&& !c.dismiss_popups
    &&& !c.screenshot
    &&& c.screenshot_format == ScreenshotFormat::Png
    &&& c.screenshot_output_dir is None
    &&& !c.randomize_fingerprint
    &&& !c.detect_spa
}

impl Default for RendererConfig {
    fn default() -> (res: Self)
        ensures
            default_renderer_config(res),
    {
        RendererConfig {
            render_timeout_ms: 30_000,
            wait_strategy: WaitStrategy::Auto,
            block_resources: true,
            tab_pool_size: 4,
            headless: true,
            max_scrolls: 0,
            viewport: Viewport::Desktop,
            dismiss_popups: false,
            screenshot: false,
            screenshot_format: ScreenshotFormat::Png,
            screenshot_output_dir: None,
            randomize_fingerprint: false,
            detect_spa: false,
        }
    }
}

/// The renderer settings of a crawl: the JS wait timeout and strategy,
/// scroll count, viewport, popup, screenshot, fingerprint and framework
/// settings of the configuration, resources blocked, headless, and a tab pool
/// of a quarter of the concurrency but at least two.
pub open spec fn renderer_config_of(c: CrawlConfig, r: RendererConfig) -> bool {
    &&& r.render_timeout_ms == c.js_wait_timeout_ms
    &&& r.wait_strategy == c.js_wait_strategy
    &&& r.block_resources
    &&& r.tab_pool_size == (if c.concurrency / 4 >= 2 { c.concurrency / 4 } else { 2 })
    &&& r.headless
    &&& r.max_scrolls == c.js_scroll_count
    &&& r.viewport == c.viewport
    &&& r.dismiss_popups == c.dismiss_popups
    &&& r.screenshot == c.screenshot
    &&& r.screenshot_format == c.screenshot_format
    &&& opt_str_view(r.screenshot_output_dir) == opt_str_view(c.screenshot_output_dir)
    &&& r.randomize_fingerprint == c.randomize_fingerprint
    &&& r.detect_spa == c.detect_spa
}

impl RendererConfig {
    /// The renderer settings of a crawl configuration (see
    /// [`renderer_config_of`]).
    pub fn from_crawl_config(c: &CrawlConfig) -> (res: RendererConfig)
        ensures
            renderer_config_of(*c, res),
    {
        let quarter = c.concurrency / 4;
        RendererConfig {
            render_timeout_ms: c.js_wait_timeout_ms,
            wait_strategy: clone_wait_strategy(&c.js_wait_strategy),
            block_resources: true,
            tab_pool_size: if quarter >= 2 { quarter } else { 2 },
            headless: true,
            max_scrolls: c.js_scroll_count,
            viewport: c.viewport,
            dismiss_popups: c.dismiss_popups,
            screenshot: c.screenshot,
            screenshot_format: c.screenshot_format,
            screenshot_output_dir: clone_opt_string(&c.screenshot_output_dir),
            randomize_fingerprint: c.randomize_fingerprint,
            detect_spa: c.detect_spa,
        }
    }
}

fn clone_wait_strategy(w: &WaitStrategy) -> (res: WaitStrategy)
    ensures
        res == *w,
{
    match w {
        WaitStrategy::NetworkIdle => WaitStrategy::NetworkIdle,
        WaitStrategy::Selector { selector } => WaitStrategy::Selector { selector: selector.clone() },
        WaitStrategy::Duration { duration_ms } => WaitStrategy::Duration { duration_ms: *duration_ms },
        WaitStrategy::Auto => WaitStrategy::Auto,
    }
}

/// CSS selectors of cookie, consent and GDPR accept buttons and of overlay
/// close buttons, most specific first.
pub fn popup_accept_selectors() -> (res: Vec<&'static str>)
    ensures
        res@ == seq![
            "[id*='cookie'][id*='accept']",
            "[id*='consent'][id*='accept']",
            "[class*='cookie'][class*='accept']",
            "[class*='consent'][class*='accept']",
            "[aria-label*='Accept cookies']",
            "[aria-label*='Accept all']",
            "[aria-label*='Agree']",
            "button[id*='accept']",
            "button[id*='agree']",
            "button[id*='allow']",
            "button[id*='consent']",
            ".cookie-accept",
            ".cookie-consent__accept",
            ".gdpr-accept",
            "#accept-cookies",
            "#cookie-accept",
            "#agree-button",
            ".btn-accept",
            ".accept-all",
            "#onetrust-accept-btn-handler",
            ".onetrust-accept-btn-handler",
            "#CybotCookiebotDialogBodyLevelButtonLevelOptinAllowAll",
            ".cky-btn-accept",
            "[class*='modal'][class*='close']",
            "[class*='popup'][class*='close']",
            "[class*='overlay'][class*='close']",
            "button[aria-label='Close']",
            "button[aria-label='Dismiss']",
            ".close-button",
            ".popup-close",
        ],
{
    vec![
        "[id*='cookie'][id*='accept']",
        "[id*='consent'][id*='accept']",
        "[class*='cookie'][class*='accept']",
        "[class*='consent'][class*='accept']",
        "[aria-label*='Accept cookies']",
        "[aria-label*='Accept all']",
        "[aria-label*='Agree']",
        "button[id*='accept']",
        "button[id*='agree']",
        "button[id*='allow']",
        "button[id*='consent']",
        ".cookie-accept",
        ".cookie-consent__accept",
        ".gdpr-accept",
        "#accept-cookies",
        "#cookie-accept",
        "#agree-button",
        ".btn-accept",
        ".accept-all",
        "#onetrust-accept-btn-handler",
        ".onetrust-accept-btn-handler",
        "#CybotCookiebotDialogBodyLevelButtonLevelOptinAllowAll",
        ".cky-btn-accept",
        "[class*='modal'][class*='close']",
        "[class*='popup'][class*='close']",
        "[class*='overlay'][class*='close']",
        "button[aria-label='Close']",
        "button[aria-label='Dismiss']",
        ".close-button",
        ".popup-close",
    ]
}

/// The framework names and the JavaScript expressions that detect them,
/// in the order they are tried.
pub fn spa_detectors() -> (res: Vec<(&'static str, &'static str)>)
    ensures
        res@ == seq![
            ("Next.js", "typeof window.__NEXT_DATA__ !== 'undefined'"),
            ("Nuxt", "typeof window.__NUXT__ !== 'undefined'"),
            (
                "SvelteKit",
                "typeof window.__sveltekit_dev !== 'undefined' || document.querySelector('[data-sveltekit-preload-data]') !== null",
            ),
            (
                "React",
                "typeof window.React !== 'undefined' || document.querySelector('[data-reactroot]') !== null || document.querySelector('[data-reactid]') !== null",
            ),
            (
                "Vue",
                "typeof window.Vue !== 'undefined' || typeof window.__vue_app__ !== 'undefined' || document.querySelector('[data-v-app]') !== null",
            ),
            ("Angular", "typeof window.ng !== 'undefined' || document.querySelector('[ng-version]') !== null"),
            ("Svelte", "document.querySelector('[class*=\"svelte-\"]') !== null"),
        ],
{
    vec![
        ("Next.js", "typeof window.__NEXT_DATA__ !== 'undefined'"),
        ("Nuxt", "typeof window.__NUXT__ !== 'undefined'"),
        (
            "SvelteKit",
            "typeof window.__sveltekit_dev !== 'undefined' || document.querySelector('[data-sveltekit-preload-data]') !== null",
        ),
        (
            "React",
            "typeof window.React !== 'undefined' || document.querySelector('[data-reactroot]') !== null || document.querySelector('[data-reactid]') !== null",
        ),
        (
            "Vue",
            "typeof window.Vue !== 'undefined' || typeof window.__vue_app__ !== 'undefined' || document.querySelector('[data-v-app]') !== null",
        ),
        ("Angular", "typeof window.ng !== 'undefined' || document.querySelector('[ng-version]') !== null"),
        ("Svelte", "document.querySelector('[class*=\"svelte-\"]') !== null"),
    ]
}

/// The renderer. Built without a browser engine, it only tracks whether it
/// was initialized, and every rendering fails.
pub struct Renderer {
    config: RendererConfig,
    initialized: bool,
}

/// The message of a rendering asked of a renderer before initialization.
pub open spec fn not_initialized_error(e: RehykeError) -> bool {
    e matches RehykeError::BrowserError { message } && message@ == "Renderer not initialized. Call initialize() first."@
}

/// The message of a rendering that needs the missing browser engine.
pub open spec fn no_engine_error(e: RehykeError, url: Seq<char>) -> bool {
    e matches RehykeError::RenderError { url: u, message } && u@ == url && message@
        == "Compile rehyke-core with `--features js` to enable JavaScript rendering."@
}

impl Renderer {
    /// A renderer with the given configuration, not yet initialized.
    pub fn new(config: RendererConfig) -> (res: Renderer)
        ensures
            !res.is_initialized_spec(),
            res.config_spec() == config,
    {
        Renderer { config, initialized: false }
    }

    pub closed spec fn is_initialized_spec(&self) -> bool {
        self.initialized
    }

    /// The configuration the renderer was made with.
    pub closed spec fn config_spec(&self) -> RendererConfig {
        self.config
    }

    /// Initialize the renderer; without a browser engine this only marks it
    /// initialized, and it always succeeds.
    pub fn initialize(&mut self) -> (res: Result<(), RehykeError>)
        ensures
            res is Ok,
            final(self).is_initialized_spec(),
    {
        self.initialized = true;
        Ok(())
    }

    /// Render a page: an error `Renderer not initialized. Call initialize()
    /// first.` before initialization, else an error that names the missing
    /// browser engine.
    pub fn render(&self, url: &Url) -> (res: Result<RenderResult, RehykeError>)
        ensures
            !self.is_initialized_spec() ==> res is Err && not_initialized_error(res->Err_0),
            self.is_initialized_spec() ==> res is Err && no_engine_error(res->Err_0, url@.serialization),
    {
        if !self.initialized {
            return Err(RehykeError::BrowserError {
                message: "Renderer not initialized. Call initialize() first.".to_string(),
            });
        }
        Err(RehykeError::RenderError {
            url: url.to_string(),
            message: "Compile rehyke-core with `--features js` to enable JavaScript rendering.".to_string(),
        })
    }

    /// Render already-fetched HTML: an error `Renderer not initialized.`
    /// before initialization, else an error that names the missing browser
    /// engine.
    pub fn render_html(&self, html: &str, base_url: &Url) -> (res: Result<RenderResult, RehykeError>)
        ensures
            !self.is_initialized_spec() ==> res is Err && (res->Err_0 matches RehykeError::BrowserError { message } && message@ == "Renderer not initialized."@),
            self.is_initialized_spec() ==> res is Err && no_engine_error(res->Err_0, base_url@.serialization),
    {
        if !self.initialized {
            return Err(RehykeError::BrowserError { message: "Renderer not initialized.".to_string() });
        }
        Err(RehykeError::RenderError {
            url: base_url.to_string(),
            message: "Compile rehyke-core with `--features js` to enable JavaScript rendering.".to_string(),
        })
    }

    /// Whether the renderer has been initialized.
    pub fn is_initialized(&self) -> (res: bool)
        ensures
            res == self.is_initialized_spec(),
    {
        self.initialized
    }

    /// Shut the renderer down; it is no longer initialized.
    pub fn shutdown(&mut self) -> (res: Result<(), RehykeError>)
        ensures
            res is Ok,
            !final(self).is_initialized_spec(),
    {
        self.initialized = false;
        Ok(())
    }
}

} // verus!
