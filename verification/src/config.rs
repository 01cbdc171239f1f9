//! Crawl configuration: scan presets, viewport profiles, output modes, wait
//! and delay strategies, proxies, retries, and the fluent builder.
//!
//! Durations are held as whole milliseconds (`u64`) and paths as strings.

use vstd::prelude::*;

use crate::text::{
    chars_of, decimal, eq_str, decimal_string, is_whitespace_char, push_char, push_str, string_from_range,
    trim, trim_bounds,
};

verus! {

// ---------------------------------------------------------------------------
// Viewport
// ---------------------------------------------------------------------------

/// Viewport size profile used when rendering pages with a headless browser.
#[derive(Debug, Clone, Copy, PartialEq, Eq, Structural)]
pub enum Viewport {
    /// 1920×1080 desktop — no touch, no mobile emulation.
    Desktop,
    /// 768×1024 tablet — touch enabled, 2× device pixel ratio.
    Tablet,
    /// 390×844 mobile — touch enabled, 3× device pixel ratio.
    Mobile,
}

impl Viewport {
    /// Pixel dimensions `(width, height)` for this profile.
    pub fn dimensions(self) -> (res: (u32, u32))
        ensures
            res == (match self {
                Viewport::Desktop => (1920u32, 1080u32),
                Viewport::Tablet => (768u32, 1024u32),
                Viewport::Mobile => (390u32, 844u32),
            }),
    {
        match self {
            Viewport::Desktop => (1920, 1080),
            Viewport::Tablet => (768, 1024),
            Viewport::Mobile => (390, 844),
        }
    }

    /// Whether the profile emulates a mobile device.
    pub fn is_mobile(self) -> (res: bool)
        ensures
            res == (self != Viewport::Desktop),
    {
        match self {
            Viewport::Desktop => false,
            _ => true,
        }
    }

    /// Whether the profile has touch support.
    pub fn has_touch(self) -> (res: bool)
        ensures
            res == (self != Viewport::Desktop),
    {
        match self {
            Viewport::Desktop => false,
            _ => true,
        }
    }
}

impl Default for Viewport {
    fn default() -> (res: Self)
        ensures
            res == Viewport::Desktop,
    {
        Viewport::Desktop
    }
}

// ---------------------------------------------------------------------------
// ScreenshotFormat
// ---------------------------------------------------------------------------

/// Image format for browser screenshots.
#[derive(Debug, Clone, Copy, PartialEq, Eq, Structural)]
pub enum ScreenshotFormat {
    /// Lossless PNG (larger files, perfect quality).
    Png,
    /// Lossy JPEG (smaller files).
    Jpeg,
}

impl Default for ScreenshotFormat {
    fn default() -> (res: Self)
        ensures
            res == ScreenshotFormat::Png,
    {
        ScreenshotFormat::Png
    }
}

// ---------------------------------------------------------------------------
// ScanMode
// ---------------------------------------------------------------------------

/// High-level crawl presets for depth, page count and concurrency.
///
/// | Mode | Max depth | Max pages | Concurrency |
/// |------|-----------|-----------|-------------|
/// | `Lite` | 2 | 100 | 5 |
/// | `Full` | 5 | 1 000 | 10 |
/// | `Deep` | 50 | 50 000 | 25 |
#[derive(Debug, Clone, Copy, PartialEq, Eq, Structural)]
pub enum ScanMode {
    /// Quick surface-level crawl.
    Lite,
    /// Balanced crawl (default).
    Full,
    /// Exhaustive deep crawl.
    Deep,
}

/// Default maximum depth of a mode.
pub open spec fn mode_max_depth(mode: ScanMode) -> usize {
    match mode {
        ScanMode::Lite => 2,
        ScanMode::Full => 5,
        ScanMode::Deep => 50,
    }
}

/// Default maximum page count of a mode.
pub open spec fn mode_max_pages(mode: ScanMode) -> usize {
    match mode {
        ScanMode::Lite => 100,
        ScanMode::Full => 1000,
        ScanMode::Deep => 50000,
    }
}

/// Default concurrency of a mode.
pub open spec fn mode_concurrency(mode: ScanMode) -> usize {
    match mode {
        ScanMode::Lite => 5,
        ScanMode::Full => 10,
        ScanMode::Deep => 25,
    }
}

impl ScanMode {
    /// Default maximum depth for this mode.
    pub fn default_max_depth(self) -> (res: usize)
        ensures
            res == mode_max_depth(self),
    {
        match self {
            ScanMode::Lite => 2,
            ScanMode::Full => 5,
            ScanMode::Deep => 50,
        }
    }

    /// Default maximum number of pages for this mode.
    pub fn default_max_pages(self) -> (res: usize)
        ensures
            res == mode_max_pages(self),
    {
        match self {
            ScanMode::Lite => 100,
            ScanMode::Full => 1000,
            ScanMode::Deep => 50000,
        }
    }

    /// Default concurrency (simultaneous requests) for this mode.
    pub fn default_concurrency(self) -> (res: usize)
        ensures
            res == mode_concurrency(self),
    {
        match self {
            ScanMode::Lite => 5,
            ScanMode::Full => 10,
            ScanMode::Deep => 25,
        }
    }
}

impl Default for ScanMode {
    fn default() -> (res: Self)
        ensures
            res == ScanMode::Full,
    {
        ScanMode::Full
    }
}

// ---------------------------------------------------------------------------
// OutputMode / FileStructure
// ---------------------------------------------------------------------------

/// How files are laid out on disk when using `OutputMode::Files`.
#[derive(Debug, Clone, Copy, PartialEq, Eq, Structural)]
pub enum FileStructure {
    /// All files in a single directory with sanitized names.
    Flat,
    /// Mirror the site's URL path hierarchy.
    Mirror,
}

impl Default for FileStructure {
    fn default() -> (res: Self)
        ensures
            res == FileStructure::Flat,
    {
        FileStructure::Flat
    }
}

/// Where and how crawl results are stored.
#[derive(Debug, Clone)]
pub enum OutputMode {
    /// Keep everything in memory and return it at the end.
    Memory,
    /// Write individual files to a directory.
    Files { output_dir: String, structure: FileStructure },
    /// Write all output into a single file.
    SingleFile { output_path: String },
}

impl Default for OutputMode {
    fn default() -> (res: Self)
        ensures
            res is Memory,
    {
        OutputMode::Memory
    }
}

// ---------------------------------------------------------------------------
// WaitStrategy / DelayStrategy
// ---------------------------------------------------------------------------

/// Strategy used to decide when a JS-rendered page is "ready".
#[derive(Debug, Clone)]
pub enum WaitStrategy {
    /// Wait until there are no pending network requests.
    NetworkIdle,
    /// Wait until a specific CSS selector is present in the DOM.
    Selector { selector: String },
    /// Wait a fixed duration (milliseconds) after page load.
    Duration { duration_ms: u64 },
    /// Automatically determine the best strategy.
    Auto,
}

impl Default for WaitStrategy {
    fn default() -> (res: Self)
        ensures
            res is Auto,
    {
        WaitStrategy::Auto
    }
}

/// How to introduce delays between requests (milliseconds).
#[derive(Debug, Clone, Copy, PartialEq, Eq, Structural)]
pub enum DelayStrategy {
    /// Constant delay between requests.
    Fixed { delay_ms: u64 },
    /// Random delay within `[min, max]`.
    Random { min_ms: u64, max_ms: u64 },
    /// Adaptive delay that backs off when rate-limited.
    Adaptive { initial_ms: u64 },
    /// No delay between requests.
    NoDelay,
}

impl Default for DelayStrategy {
    fn default() -> (res: Self)
        ensures
            res == DelayStrategy::NoDelay,
    {
        DelayStrategy::NoDelay
    }
}

// ---------------------------------------------------------------------------
// Proxies and retries
// ---------------------------------------------------------------------------

/// Protocol used by a proxy.
#[derive(Debug, Clone, Copy, PartialEq, Eq, Structural)]
pub enum ProxyType {
    Http,
    Https,
    Socks5,
}

impl Default for ProxyType {
    fn default() -> (res: Self)
        ensures
            res == ProxyType::Http,
    {
        ProxyType::Http
    }
}

/// Authentication credentials for a proxy.
#[derive(Debug, Clone)]
pub struct ProxyAuth {
    pub username: String,
    pub password: String,
}

/// Configuration for a single proxy endpoint.
#[derive(Debug, Clone)]
pub struct ProxyConfig {
    /// The proxy URL (e.g. `http://proxy.example.com:8080`).
    pub url: String,
    /// Protocol type of the proxy.
    pub proxy_type: ProxyType,
    /// Optional authentication.
    pub auth: Option<ProxyAuth>,
    /// Optional region label (for geo-routing proxies).
    pub region: Option<String>,
}

/// Strategy for choosing among multiple proxies.
#[derive(Debug, Clone, Copy, PartialEq, Eq, Structural)]
pub enum ProxyStrategy {
    /// Cycle through proxies in order.
    RoundRobin,
    /// Pick a random proxy for each request.
    Random,
    /// Use the proxy that has been handed out least often.
    LeastUsed,
    /// Only switch to another proxy when the current one fails.
    FailoverOnly,
}

impl Default for ProxyStrategy {
    fn default() -> (res: Self)
        ensures
            res == ProxyStrategy::RoundRobin,
    {
        ProxyStrategy::RoundRobin
    }
}

/// Controls automatic retry behaviour for failed requests.
#[derive(Debug, Clone, Copy, PartialEq, Eq, Structural)]
pub struct RetryConfig {
    /// Maximum number of retry attempts.
    pub max_retries: u32,
    /// Delay before the first retry (doubles on each subsequent retry), ms.
    pub initial_delay_ms: u64,
    /// Upper bound on retry delay, ms.
    pub max_delay_ms: u64,
}

impl Default for RetryConfig {
    fn default() -> (res: Self)
        ensures
            res == (RetryConfig { max_retries: 3, initial_delay_ms: 500, max_delay_ms: 30000 }),
    {
        RetryConfig { max_retries: 3, initial_delay_ms: 500, max_delay_ms: 30000 }
    }
}

// ---------------------------------------------------------------------------
// CrawlConfig
// ---------------------------------------------------------------------------

/// Complete configuration for a crawl job.
#[derive(Debug, Clone)]
pub struct CrawlConfig {
    /// High-level scan preset.
    pub mode: ScanMode,
    /// Maximum link-follow depth from the seed URL.
    pub max_depth: usize,
    /// Maximum number of pages to crawl.
    pub max_pages: usize,
    /// Number of concurrent requests.
    pub concurrency: usize,
    /// Whether to run pages through a headless browser.
    pub enable_js: bool,
    /// How to wait for JS-rendered content to settle.
    pub js_wait_strategy: WaitStrategy,
    /// Where to store crawl results.
    pub output: OutputMode,
    /// User-Agent header sent with every request.
    pub user_agent: String,
    /// List of proxy endpoints.
    pub proxies: Vec<ProxyConfig>,
    /// Strategy for selecting among proxies.
    pub proxy_strategy: ProxyStrategy,
    /// Inter-request delay strategy.
    pub delay_strategy: DelayStrategy,
    /// Regex patterns; URLs matching any pattern are skipped.
    pub exclude_patterns: Vec<String>,
    /// Regex patterns; only URLs matching at least one pattern are crawled.
    pub include_patterns: Vec<String>,
    /// Whether to honour robots.txt directives.
    pub respect_robots_txt: bool,
    /// Extract structured metadata (title, description, etc.).
    pub extract_metadata: bool,
    /// Remove navigation elements from extracted content.
    pub clean_navigation: bool,
    /// Remove footer elements from extracted content.
    pub clean_footers: bool,
    /// Remove advertisement elements from extracted content.
    pub clean_ads: bool,
    /// Per-request timeout, ms.
    pub timeout_ms: u64,
    /// Retry configuration.
    pub retry_config: RetryConfig,
    /// Extra HTTP headers sent with every request (name, value).
    pub custom_headers: Vec<(String, String)>,
    /// Cookies injected into every request (name, value).
    pub cookies: Vec<(String, String)>,
    /// Strip the `www.` prefix when comparing / deduplicating URLs.
    pub remove_www: bool,
    /// Viewport size profile sent to the headless browser.
    pub viewport: Viewport,
    /// Scroll operations for infinite-scroll pages; `0` disables scrolling.
    pub js_scroll_count: usize,
    /// Dismiss cookie banners and similar popups before extraction.
    pub dismiss_popups: bool,
    /// Capture a full-page screenshot after JavaScript has settled.
    pub screenshot: bool,
    /// Image format for captured screenshots.
    pub screenshot_format: ScreenshotFormat,
    /// Directory where screenshot files are written.
    pub screenshot_output_dir: Option<String>,
    /// Maximum time to wait for the JS wait strategy, ms.
    pub js_wait_timeout_ms: u64,
    /// Detect the SPA framework and apply framework-specific waiting.
    pub detect_spa: bool,
    /// Randomize browser fingerprint details.
    pub randomize_fingerprint: bool,
}

/// The default User-Agent string.
pub open spec fn default_user_agent() -> Seq<char> {
    "rehyke/0.2.0"@
}

/// The default configuration: `Full` mode with its depth, page and
/// concurrency limits, robots.txt respected, metadata extracted, all cleaning
/// on, `www.` removal on, 30 s timeout, 10 s JS wait, everything else off or
/// empty.
pub open spec fn is_default_config(c: CrawlConfig) -> bool {
    &&& c.mode == ScanMode::Full
    &&& c.max_depth == 5
    &&& c.max_pages == 1000
    &&& c.concurrency == 10
    &&& !c.enable_js
    &&& c.js_wait_strategy is Auto
    &&& c.output is Memory
    &&& c.user_agent@ == default_user_agent()
    &&& c.proxies@.len() == 0
    &&& c.proxy_strategy == ProxyStrategy::RoundRobin
    &&& c.delay_strategy == DelayStrategy::NoDelay
    &&& c.exclude_patterns@.len() == 0
    &&& c.include_patterns@.len() == 0
    &&& c.respect_robots_txt
    &&& c.extract_metadata
    &&& c.clean_navigation
    &&& c.clean_footers
    &&& c.clean_ads
    &&& c.timeout_ms == 30000
    &&& c.retry_config == (RetryConfig { max_retries: 3, initial_delay_ms: 500, max_delay_ms: 30000 })
    &&& c.custom_headers@.len() == 0
    &&& c.cookies@.len() == 0
    &&& c.remove_www
    &&& c.viewport == Viewport::Desktop
    &&& c.js_scroll_count == 0
    &&& !c.dismiss_popups
    &&& !c.screenshot
    &&& c.screenshot_format == ScreenshotFormat::Png
    &&& c.screenshot_output_dir is None
    &&& c.js_wait_timeout_ms == 10000
    &&& !c.detect_spa
    &&& !c.randomize_fingerprint
}

impl CrawlConfig {
    /// The default configuration (see [`is_default_config`]).
    pub fn new() -> (res: Self)
        ensures
            is_default_config(res),
    {
        let mode = ScanMode::Full;
        CrawlConfig {
            mode,
            max_depth: mode.default_max_depth(),
            max_pages: mode.default_max_pages(),
            concurrency: mode.default_concurrency(),
            enable_js: false,
            js_wait_strategy: WaitStrategy::Auto,
            output: OutputMode::Memory,
            user_agent: String::from_str("rehyke/0.2.0"),
            proxies: Vec::new(),
            proxy_strategy: ProxyStrategy::RoundRobin,
            delay_strategy: DelayStrategy::NoDelay,
            exclude_patterns: Vec::new(),
            include_patterns: Vec::new(),
            respect_robots_txt: true,
            extract_metadata: true,
            clean_navigation: true,
            clean_footers: true,
            clean_ads: true,
            timeout_ms: 30000,
            retry_config: RetryConfig { max_retries: 3, initial_delay_ms: 500, max_delay_ms: 30000 },
            custom_headers: Vec::new(),
            cookies: Vec::new(),
            remove_www: true,
            viewport: Viewport::Desktop,
            js_scroll_count: 0,
            dismiss_popups: false,
            screenshot: false,
            screenshot_format: ScreenshotFormat::Png,
            screenshot_output_dir: None,
            js_wait_timeout_ms: 10000,
            detect_spa: false,
            randomize_fingerprint: false,
        }
    }
}

impl Default for CrawlConfig {
    fn default() -> (res: Self)
        ensures
            is_default_config(res),
    {
        CrawlConfig::new()
    }
}

/// The character views of `(name, value)` pairs.
pub open spec fn kv_views(v: Seq<(String, String)>) -> Seq<(Seq<char>, Seq<char>)> {
    v.map_values(|p: (String, String)| (p.0@, p.1@))
}

/// Map insertion on an association list: the value of an existing key is
/// replaced in place, a new key is appended.
pub open spec fn kv_insert(
    pairs: Seq<(Seq<char>, Seq<char>)>,
    key: Seq<char>,
    value: Seq<char>,
) -> Seq<(Seq<char>, Seq<char>)> {
    if exists|i: int| 0 <= i < pairs.len() && (#[trigger] pairs[i]).0 == key {
        let i = choose|i: int| 0 <= i < pairs.len() && (#[trigger] pairs[i]).0 == key;
        pairs.update(i, (key, value))
    } else {
        pairs.push((key, value))
    }
}

/// Insert or replace `key` in an association list whose keys are distinct.
pub(crate) fn kv_insert_exec(pairs: &mut Vec<(String, String)>, key: &str, value: &str)
    requires
        kv_views(old(pairs)@).map_values(|p: (Seq<char>, Seq<char>)| p.0).no_duplicates(),
    ensures
        kv_views(final(pairs)@) == kv_insert(kv_views(old(pairs)@), key@, value@),
        kv_views(final(pairs)@).map_values(|p: (Seq<char>, Seq<char>)| p.0).no_duplicates(),
{
    let ghost old_v = kv_views(pairs@);
    let mut i: usize = 0;
    while i < pairs.len()
        invariant
            i <= pairs@.len(),
            pairs@ == old(pairs)@,
            old_v == kv_views(pairs@),
            old_v.map_values(|p: (Seq<char>, Seq<char>)| p.0).no_duplicates(),
            forall|k: int| 0 <= k < i ==> (#[trigger] old_v[k]).0 != key@,
        decreases pairs.len() - i,
    {
        let same = eq_str(pairs[i].0.as_str(), key);
        if same {
            assert(old_v[i as int].0 == key@);
            let v = String::from_str(value);
            let k = String::from_str(key);
            pairs.set(i, (k, v));
            proof {
                let ii = choose|ii: int| 0 <= ii < old_v.len() && (#[trigger] old_v[ii]).0 == key@;
                if ii != i {
                    assert(old_v.map_values(|p: (Seq<char>, Seq<char>)| p.0)[ii]
                        == old_v.map_values(|p: (Seq<char>, Seq<char>)| p.0)[i as int]);
                }
                assert(kv_views(pairs@) =~= old_v.update(i as int, (key@, value@)));
                assert(kv_views(pairs@).map_values(|p: (Seq<char>, Seq<char>)| p.0)
                    =~= old_v.map_values(|p: (Seq<char>, Seq<char>)| p.0));
            }
            return;
        }
        i = i + 1;
    }
    pairs.push((String::from_str(key), String::from_str(value)));
    proof {
        assert(kv_views(pairs@) =~= old_v.push((key@, value@)));
        let keys = kv_views(pairs@).map_values(|p: (Seq<char>, Seq<char>)| p.0);
        let old_keys = old_v.map_values(|p: (Seq<char>, Seq<char>)| p.0);
        assert(keys =~= old_keys.push(key@));
        assert forall|a: int, b: int| 0 <= a < keys.len() && 0 <= b < keys.len() && a != b implies keys[a]
            != keys[b] by {
            if a < old_keys.len() && b < old_keys.len() {
                assert(old_keys[a] != old_keys[b]);
            } else if a == old_keys.len() {
                assert(old_v[b].0 != key@);
            } else {
                assert(old_v[a].0 != key@);
            }
        }
    }
}

// ---------------------------------------------------------------------------
// CrawlConfigBuilder
// ---------------------------------------------------------------------------

/// Fluent builder for [`CrawlConfig`], starting from the defaults.
#[derive(Debug, Clone)]
pub struct CrawlConfigBuilder {
    inner: CrawlConfig,
}

impl CrawlConfigBuilder {
    /// The configuration built so far.
    pub closed spec fn current(self) -> CrawlConfig {
        self.inner
    }

    /// Header and cookie names are distinct.
    pub closed spec fn wf(self) -> bool {
        &&& kv_views(self.inner.custom_headers@).map_values(|p: (Seq<char>, Seq<char>)| p.0).no_duplicates()
        &&& kv_views(self.inner.cookies@).map_values(|p: (Seq<char>, Seq<char>)| p.0).no_duplicates()
    }

    /// A builder pre-filled with the default configuration.
    pub fn new() -> (res: Self)
        ensures
            is_default_config(res.current()),
            res.wf(),
    {
        CrawlConfigBuilder { inner: CrawlConfig::new() }
    }

    /// Set the scan mode and reset depth, page count and concurrency to the
    /// mode's defaults; later calls of `max_depth`, `max_pages` or
    /// `concurrency` override them.
    pub fn mode(self, mode: ScanMode) -> (res: Self)
        requires
            self.wf(),
        ensures
            res.wf(),
            res.current() == (CrawlConfig {
                mode,
                max_depth: mode_max_depth(mode),
                max_pages: mode_max_pages(mode),
                concurrency: mode_concurrency(mode),
                ..self.current()
            }),
    {
        let mut b = self;
        b.inner.mode = mode;
        b.inner.max_depth = mode.default_max_depth();
        b.inner.max_pages = mode.default_max_pages();
        b.inner.concurrency = mode.default_concurrency();
        b
    }

    pub fn max_depth(self, max_depth: usize) -> (res: Self)
        requires
            self.wf(),
        ensures
            res.wf(),
            res.current() == (CrawlConfig { max_depth, ..self.current() }),
    {
        let mut b = self;
        b.inner.max_depth = max_depth;
        b
    }

    pub fn max_pages(self, max_pages: usize) -> (res: Self)
        requires
            self.wf(),
        ensures
            res.wf(),
            res.current() == (CrawlConfig { max_pages, ..self.current() }),
    {
        let mut b = self;
        b.inner.max_pages = max_pages;
        b
    }

    pub fn concurrency(self, concurrency: usize) -> (res: Self)
        requires
            self.wf(),
        ensures
            res.wf(),
            res.current() == (CrawlConfig { concurrency, ..self.current() }),
    {
        let mut b = self;
        b.inner.concurrency = concurrency;
        b
    }

    pub fn enable_js(self, enable: bool) -> (res: Self)
        requires
            self.wf(),
        ensures
            res.wf(),
            res.current() == (CrawlConfig { enable_js: enable, ..self.current() }),
    {
        let mut b = self;
        b.inner.enable_js = enable;
        b
    }

    pub fn js_wait_strategy(self, strategy: WaitStrategy) -> (res: Self)
        requires
            self.wf(),
        ensures
            res.wf(),
            res.current() == (CrawlConfig { js_wait_strategy: strategy, ..self.current() }),
    {
        let mut b = self;
        b.inner.js_wait_strategy = strategy;
        b
    }

    pub fn output(self, output: OutputMode) -> (res: Self)
        requires
            self.wf(),
        ensures
            res.wf(),
            res.current() == (CrawlConfig { output, ..self.current() }),
    {
        let mut b = self;
        b.inner.output = output;
        b
    }

    pub fn user_agent(self, user_agent: &str) -> (res: Self)
        requires
            self.wf(),
        ensures
            res.wf(),
            res.current().user_agent@ == user_agent@,
            res.current() == (CrawlConfig { user_agent: res.current().user_agent, ..self.current() }),
    {
        let mut b = self;
        b.inner.user_agent = String::from_str(user_agent);
        b
    }

    pub fn proxies(self, proxies: Vec<ProxyConfig>) -> (res: Self)
        requires
            self.wf(),
        ensures
            res.wf(),
            res.current() == (CrawlConfig { proxies, ..self.current() }),
    {
        let mut b = self;
        b.inner.proxies = proxies;
        b
    }

    pub fn proxy_strategy(self, strategy: ProxyStrategy) -> (res: Self)
        requires
            self.wf(),
        ensures
            res.wf(),
            res.current() == (CrawlConfig { proxy_strategy: strategy, ..self.current() }),
    {
        let mut b = self;
        b.inner.proxy_strategy = strategy;
        b
    }

    pub fn delay_strategy(self, strategy: DelayStrategy) -> (res: Self)
        requires
            self.wf(),
        ensures
            res.wf(),
            res.current() == (CrawlConfig { delay_strategy: strategy, ..self.current() }),
    {
        let mut b = self;
        b.inner.delay_strategy = strategy;
        b
    }

    pub fn exclude_patterns(self, patterns: Vec<String>) -> (res: Self)
        requires
            self.wf(),
        ensures
            res.wf(),
            res.current() == (CrawlConfig { exclude_patterns: patterns, ..self.current() }),
    {
        let mut b = self;
        b.inner.exclude_patterns = patterns;
        b
    }

    pub fn include_patterns(self, patterns: Vec<String>) -> (res: Self)
        requires
            self.wf(),
        ensures
            res.wf(),
            res.current() == (CrawlConfig { include_patterns: patterns, ..self.current() }),
    {
        let mut b = self;
        b.inner.include_patterns = patterns;
        b
    }

    pub fn respect_robots_txt(self, respect: bool) -> (res: Self)
        requires
            self.wf(),
        ensures
            res.wf(),
            res.current() == (CrawlConfig { respect_robots_txt: respect, ..self.current() }),
    {
        let mut b = self;
        b.inner.respect_robots_txt = respect;
        b
    }

    pub fn extract_metadata(self, extract: bool) -> (res: Self)
        requires
            self.wf(),
        ensures
            res.wf(),
            res.current() == (CrawlConfig { extract_metadata: extract, ..self.current() }),
    {
        let mut b = self;
        b.inner.extract_metadata = extract;
        b
    }

    pub fn clean_navigation(self, clean: bool) -> (res: Self)
        requires
            self.wf(),
        ensures
            res.wf(),
            res.current() == (CrawlConfig { clean_navigation: clean, ..self.current() }),
    {
        let mut b = self;
        b.inner.clean_navigation = clean;
        b
    }

    pub fn clean_footers(self, clean: bool) -> (res: Self)
        requires
            self.wf(),
        ensures
            res.wf(),
            res.current() == (CrawlConfig { clean_footers: clean, ..self.current() }),
    {
        let mut b = self;
        b.inner.clean_footers = clean;
        b
    }

    pub fn clean_ads(self, clean: bool) -> (res: Self)
        requires
            self.wf(),
        ensures
            res.wf(),
            res.current() == (CrawlConfig { clean_ads: clean, ..self.current() }),
    {
        let mut b = self;
        b.inner.clean_ads = clean;
        b
    }

    /// Per-request timeout in milliseconds.
    pub fn timeout(self, timeout_ms: u64) -> (res: Self)
        requires
            self.wf(),
        ensures
            res.wf(),
            res.current() == (CrawlConfig { timeout_ms, ..self.current() }),
    {
        let mut b = self;
        b.inner.timeout_ms = timeout_ms;
        b
    }

    pub fn retry_config(self, retry_config: RetryConfig) -> (res: Self)
        requires
            self.wf(),
        ensures
            res.wf(),
            res.current() == (CrawlConfig { retry_config, ..self.current() }),
    {
        let mut b = self;
        b.inner.retry_config = retry_config;
        b
    }

    /// Replace all custom headers; names must be distinct.
    pub fn custom_headers(self, headers: Vec<(String, String)>) -> (res: Self)
        requires
            self.wf(),
            kv_views(headers@).map_values(|p: (Seq<char>, Seq<char>)| p.0).no_duplicates(),
        ensures
            res.wf(),
            res.current() == (CrawlConfig { custom_headers: headers, ..self.current() }),
    {
        let mut b = self;
        b.inner.custom_headers = headers;
        b
    }

    /// Insert a single custom header, replacing the value of an existing one.
    pub fn header(self, key: &str, value: &str) -> (res: Self)
        requires
            self.wf(),
        ensures
            res.wf(),
            kv_views(res.current().custom_headers@) == kv_insert(
                kv_views(self.current().custom_headers@),
                key@,
                value@,
            ),
            res.current() == (CrawlConfig {
                custom_headers: res.current().custom_headers,
                ..self.current()
            }),
    {
        let mut b = self;
        kv_insert_exec(&mut b.inner.custom_headers, key, value);
        b
    }

    /// Replace all cookies; names must be distinct.
    pub fn cookies(self, cookies: Vec<(String, String)>) -> (res: Self)
        requires
            self.wf(),
            kv_views(cookies@).map_values(|p: (Seq<char>, Seq<char>)| p.0).no_duplicates(),
        ensures
            res.wf(),
            res.current() == (CrawlConfig { cookies, ..self.current() }),
    {
        let mut b = self;
        b.inner.cookies = cookies;
        b
    }

    /// Insert a single cookie, replacing the value of an existing one.
    pub fn cookie(self, name: &str, value: &str) -> (res: Self)
        requires
            self.wf(),
        ensures
            res.wf(),
            kv_views(res.current().cookies@) == kv_insert(
                kv_views(self.current().cookies@),
                name@,
                value@,
            ),
            res.current() == (CrawlConfig { cookies: res.current().cookies, ..self.current() }),
    {
        let mut b = self;
        kv_insert_exec(&mut b.inner.cookies, name, value);
        b
    }

    pub fn remove_www(self, remove: bool) -> (res: Self)
        requires
            self.wf(),
        ensures
            res.wf(),
            res.current() == (CrawlConfig { remove_www: remove, ..self.current() }),
    {
        let mut b = self;
        b.inner.remove_www = remove;
        b
    }

    /// Set the browser viewport profile (desktop / tablet / mobile).
    pub fn viewport(self, viewport: Viewport) -> (res: Self)
        requires
            self.wf(),
        ensures
            res.wf(),
            res.current() == (CrawlConfig { viewport, ..self.current() }),
    {
        let mut b = self;
        b.inner.viewport = viewport;
        b
    }

    /// Number of scroll operations for infinite-scroll pages (`0` disables).
    pub fn js_scroll_count(self, count: usize) -> (res: Self)
        requires
            self.wf(),
        ensures
            res.wf(),
            res.current() == (CrawlConfig { js_scroll_count: count, ..self.current() }),
    {
        let mut b = self;
        b.inner.js_scroll_count = count;
        b
    }

    /// Enable automatic popup dismissal (cookie consent, GDPR modals, etc.).
    pub fn dismiss_popups(self, dismiss: bool) -> (res: Self)
        requires
            self.wf(),
        ensures
            res.wf(),
            res.current() == (CrawlConfig { dismiss_popups: dismiss, ..self.current() }),
    {
        let mut b = self;
        b.inner.dismiss_popups = dismiss;
        b
    }

    /// Capture a full-page screenshot after JS rendering.
    pub fn screenshot(self, screenshot: bool) -> (res: Self)
        requires
            self.wf(),
        ensures
            res.wf(),
            res.current() == (CrawlConfig { screenshot, ..self.current() }),
    {
        let mut b = self;
        b.inner.screenshot = screenshot;
        b
    }

    /// Set the screenshot image format.
    pub fn screenshot_format(self, format: ScreenshotFormat) -> (res: Self)
        requires
            self.wf(),
        ensures
            res.wf(),
            res.current() == (CrawlConfig { screenshot_format: format, ..self.current() }),
    {
        let mut b = self;
        b.inner.screenshot_format = format;
        b
    }

    /// Directory where screenshots are saved.
    pub fn screenshot_output_dir(self, dir: &str) -> (res: Self)
        requires
            self.wf(),
        ensures
            res.wf(),
            res.current().screenshot_output_dir matches Some(d) && d@ == dir@,
            res.current() == (CrawlConfig {
                screenshot_output_dir: res.current().screenshot_output_dir,
                ..self.current()
            }),
    {
        let mut b = self;
        b.inner.screenshot_output_dir = Some(String::from_str(dir));
        b
    }

    /// Maximum time to wait for the JS wait strategy, in milliseconds.
    pub fn js_wait_timeout(self, timeout_ms: u64) -> (res: Self)
        requires
            self.wf(),
        ensures
            res.wf(),
            res.current() == (CrawlConfig { js_wait_timeout_ms: timeout_ms, ..self.current() }),
    {
        let mut b = self;
        b.inner.js_wait_timeout_ms = timeout_ms;
        b
    }

    /// Enable SPA framework detection and framework-specific waiting.
    pub fn detect_spa(self, detect: bool) -> (res: Self)
        requires
            self.wf(),
        ensures
            res.wf(),
            res.current() == (CrawlConfig { detect_spa: detect, ..self.current() }),
    {
        let mut b = self;
        b.inner.detect_spa = detect;
        b
    }

    /// Randomize browser fingerprint details.
    pub fn randomize_fingerprint(self, randomize: bool) -> (res: Self)
        requires
            self.wf(),
        ensures
            res.wf(),
            res.current() == (CrawlConfig { randomize_fingerprint: randomize, ..self.current() }),
    {
        let mut b = self;
        b.inner.randomize_fingerprint = randomize;
        b
    }

    /// Consume the builder and return the configuration.
    pub fn build(self) -> (res: CrawlConfig)
        ensures
            res == self.current(),
    {
        self.inner
    }
}

impl Default for CrawlConfigBuilder {
    fn default() -> (res: Self)
        ensures
            is_default_config(res.current()),
            res.wf(),
    {
        CrawlConfigBuilder::new()
    }
}

// ---------------------------------------------------------------------------
// Human-readable durations
// ---------------------------------------------------------------------------

/// An ASCII decimal digit.
pub open spec fn is_digit(c: char) -> bool {
    '0' <= c && c <= '9'
}

/// An ASCII letter.
pub open spec fn is_alpha(c: char) -> bool {
    ('a' <= c && c <= 'z') || ('A' <= c && c <= 'Z')
}

/// Numeric value of a string of decimal digits.
pub open spec fn digits_value(s: Seq<char>) -> nat
    decreases s.len(),
{
    if s.len() == 0 {
        0
    } else {
        digits_value(s.drop_last()) * 10 + ((s.last() as u32) - ('0' as u32)) as nat
    }
}

/// All characters are decimal digits.
pub open spec fn all_digits(s: Seq<char>) -> bool {
    forall|i: int| 0 <= i < s.len() ==> is_digit(#[trigger] s[i])
}

/// `s.parse::<u64>()` for a string of digits: `None` when empty or when the
/// value does not fit.
pub open spec fn digits_u64(s: Seq<char>) -> Option<nat> {
    if s.len() == 0 || digits_value(s) > u64::MAX {
        None
    } else {
        Some(digits_value(s))
    }
}

/// `s.parse::<u64>()` for any string: an optional `+`, then one or more
/// digits, value within `u64`.
pub open spec fn parse_u64_text(s: Seq<char>) -> Option<nat> {
    let body = if s.len() > 0 && s[0] == '+' {
        s.drop_first()
    } else {
        s
    };
    if all_digits(body) {
        digits_u64(body)
    } else {
        None
    }
}

/// Milliseconds for `num` units of `unit` (`ms`, `s`/`sec`/`secs`,
/// `m`/`min`/`mins`, `h`/`hr`/`hrs`); `None` for an unknown unit.
pub open spec fn unit_millis(num: nat, unit: Seq<char>) -> Option<nat> {
    if unit == seq!['m', 's'] {
        Some(num)
    } else if unit == seq!['s'] || unit == seq!['s', 'e', 'c'] || unit == seq!['s', 'e', 'c', 's'] {
        Some(num * 1000)
    } else if unit == seq!['m'] || unit == seq!['m', 'i', 'n'] || unit == seq!['m', 'i', 'n', 's'] {
        Some(num * 60000)
    } else if unit == seq!['h'] || unit == seq!['h', 'r'] || unit == seq!['h', 'r', 's'] {
        Some(num * 3600000)
    } else {
        None
    }
}

/// The value of one `number unit` pair, or the error message for it.
pub open spec fn pair_millis(num: Seq<char>, unit: Seq<char>) -> Result<nat, Seq<char>> {
    match digits_u64(num) {
        None => Err("invalid number: "@ + num),
        Some(v) => match unit_millis(v, unit) {
            None => Err("unknown duration unit: "@ + unit),
            Some(x) => Ok(x),
        },
    }
}

/// Scanner state after reading `s`: total of completed pairs, the pending
/// number and unit text, and whether a unit is being read. Digits extend the
/// number (completing the previous pair first when a unit was being read),
/// letters extend the unit, other characters are ignored.
pub open spec fn duration_scan(s: Seq<char>) -> Result<(nat, Seq<char>, Seq<char>, bool), Seq<char>>
    decreases s.len(),
{
    if s.len() == 0 {
        Ok((0, Seq::<char>::empty(), Seq::<char>::empty(), false))
    } else {
        match duration_scan(s.drop_last()) {
            Err(e) => Err(e),
            Ok((total, num, unit, reading)) => {
                let c = s.last();
                if is_digit(c) {
                    if reading {
                        match pair_millis(num, unit) {
                            Err(e) => Err(e),
                            Ok(x) => Ok((total + x, seq![c], Seq::<char>::empty(), false)),
                        }
                    } else {
                        Ok((total, num.push(c), unit, reading))
                    }
                } else if is_alpha(c) {
                    Ok((total, num, unit.push(c), true))
                } else {
                    Ok((total, num, unit, reading))
                }
            },
        }
    }
}

/// A positive total, or the "could not parse" error.
pub open spec fn duration_finish(total: nat, text: Seq<char>) -> Result<nat, Seq<char>> {
    if total == 0 {
        Err("could not parse duration: "@ + text)
    } else {
        Ok(total)
    }
}

/// Milliseconds denoted by a duration string such as `"30s"`, `"500ms"`,
/// `"1m30s"`, `"2h"` or a bare number of milliseconds, or the error message.
pub open spec fn duration_millis(s: Seq<char>) -> Result<nat, Seq<char>> {
    let t = trim(s);
    if t.len() == 0 {
        Err("empty duration string"@)
    } else if parse_u64_text(t) is Some {
        Ok(parse_u64_text(t)->0)
    } else {
        match duration_scan(t) {
            Err(e) => Err(e),
            Ok((total, num, unit, _reading)) => if num.len() > 0 && unit.len() > 0 {
                match pair_millis(num, unit) {
                    Err(e) => Err(e),
                    Ok(x) => duration_finish(total + x, t),
                }
            } else if num.len() > 0 {
                match digits_u64(num) {
                    None => Err("invalid number: "@ + num),
                    Some(v) => duration_finish(total + v, t),
                }
            } else if unit.len() > 0 {
                Err("trailing unit without a number: "@ + unit)
            } else {
                duration_finish(total, t)
            },
        }
    }
}

/// Error message for a duration that does not fit in `u64` milliseconds.
pub open spec fn duration_too_large(t: Seq<char>) -> Seq<char> {
    "duration exceeds u64 milliseconds: "@ + t
}

/// A prefix of a digit string never has a larger value.
pub proof fn lemma_digits_value_prefix(s: Seq<char>, i: int)
    requires
        0 <= i <= s.len(),
        all_digits(s),
    ensures
        digits_value(s.subrange(0, i)) <= digits_value(s),
    decreases s.len(),
{
    if i < s.len() {
        assert(s.drop_last().subrange(0, i) =~= s.subrange(0, i));
        assert(all_digits(s.drop_last())) by {
            assert forall|k: int| 0 <= k < s.drop_last().len() implies is_digit(
                #[trigger] s.drop_last()[k],
            ) by {
                assert(s.drop_last()[k] == s[k]);
            }
        }
        lemma_digits_value_prefix(s.drop_last(), i);
    } else {
        assert(s.subrange(0, i) =~= s);
    }
}

/// `num.parse::<u64>()` for a buffer of digits.
fn digits_to_u64(num: &Vec<char>) -> (res: Option<u64>)
    requires
        all_digits(num@),
    ensures
        match res {
            Some(v) => digits_u64(num@) == Some(v as nat),
            None => digits_u64(num@) is None,
        },
{
    if num.len() == 0 {
        return None;
    }
    let mut value: u64 = 0;
    let mut i: usize = 0;
    while i < num.len()
        invariant
            i <= num.len(),
            all_digits(num@),
            value as nat == digits_value(num@.subrange(0, i as int)),
        decreases num.len() - i,
    {
        assert(num@.subrange(0, i + 1).drop_last() =~= num@.subrange(0, i as int));
        assert(is_digit(num@[i as int]));
        let d: u64 = ((num[i] as u32) - ('0' as u32)) as u64;
        if value > (u64::MAX - d) / 10 {
            proof {
                assert(digits_value(num@.subrange(0, i + 1)) == value * 10 + d);
                assert(value * 10 + d > u64::MAX) by (nonlinear_arith)
                    requires
                        value > (u64::MAX - d) / 10,
                        d <= 9,
                ;
                lemma_digits_value_prefix(num@, i + 1);
            }
            return None;
        }
        assert(value * 10 + d <= u64::MAX) by (nonlinear_arith)
            requires
                value <= (u64::MAX - d) / 10,
                d <= 9,
        ;
        value = value * 10 + d;
        i = i + 1;
    }
    assert(num@.subrange(0, num@.len() as int) =~= num@);
    Some(value)
}

/// Milliseconds for `num` units of `unit`, or `None` for an unknown unit.
/// Computed in `u128`, where every value in range fits.
fn unit_to_millis(num: u64, unit: &Vec<char>) -> (res: Option<u128>)
    ensures
        match res {
            Some(x) => unit_millis(num as nat, unit@) == Some(x as nat),
            None => unit_millis(num as nat, unit@) is None,
        },
{
    let n = unit.len();
    let is_ms = n == 2 && unit[0] == 'm' && unit[1] == 's';
    let is_s = (n == 1 && unit[0] == 's') || (n == 3 && unit[0] == 's' && unit[1] == 'e' && unit[2]
        == 'c') || (n == 4 && unit[0] == 's' && unit[1] == 'e' && unit[2] == 'c' && unit[3] == 's');
    let is_m = (n == 1 && unit[0] == 'm') || (n == 3 && unit[0] == 'm' && unit[1] == 'i' && unit[2]
        == 'n') || (n == 4 && unit[0] == 'm' && unit[1] == 'i' && unit[2] == 'n' && unit[3] == 's');
    let is_h = (n == 1 && unit[0] == 'h') || (n == 2 && unit[0] == 'h' && unit[1] == 'r') || (n == 3
        && unit[0] == 'h' && unit[1] == 'r' && unit[2] == 's');
    proof {
        assert(is_ms == (unit@ == seq!['m', 's'])) by {
            if n == 2 && unit@[0] == 'm' && unit@[1] == 's' {
                assert(unit@ =~= seq!['m', 's']);
            }
        }
        assert(is_s == (unit@ == seq!['s'] || unit@ == seq!['s', 'e', 'c'] || unit@ == seq![
            's',
            'e',
            'c',
            's',
        ])) by {
            if n == 1 && unit@[0] == 's' {
                assert(unit@ =~= seq!['s']);
            }
            if n == 3 && unit@[0] == 's' && unit@[1] == 'e' && unit@[2] == 'c' {
                assert(unit@ =~= seq!['s', 'e', 'c']);
            }
            if n == 4 && unit@[0] == 's' && unit@[1] == 'e' && unit@[2] == 'c' && unit@[3] == 's' {
                assert(unit@ =~= seq!['s', 'e', 'c', 's']);
            }
        }
        assert(is_m == (unit@ == seq!['m'] || unit@ == seq!['m', 'i', 'n'] || unit@ == seq![
            'm',
            'i',
            'n',
            's',
        ])) by {
            if n == 1 && unit@[0] == 'm' {
                assert(unit@ =~= seq!['m']);
            }
            if n == 3 && unit@[0] == 'm' && unit@[1] == 'i' && unit@[2] == 'n' {
                assert(unit@ =~= seq!['m', 'i', 'n']);
            }
            if n == 4 && unit@[0] == 'm' && unit@[1] == 'i' && unit@[2] == 'n' && unit@[3] == 's' {
                assert(unit@ =~= seq!['m', 'i', 'n', 's']);
            }
        }
        assert(is_h == (unit@ == seq!['h'] || unit@ == seq!['h', 'r'] || unit@ == seq![
            'h',
            'r',
            's',
        ])) by {
            if n == 1 && unit@[0] == 'h' {
                assert(unit@ =~= seq!['h']);
            }
            if n == 2 && unit@[0] == 'h' && unit@[1] == 'r' {
                assert(unit@ =~= seq!['h', 'r']);
            }
            if n == 3 && unit@[0] == 'h' && unit@[1] == 'r' && unit@[2] == 's' {
                assert(unit@ =~= seq!['h', 'r', 's']);
            }
        }
    }
    let num = num as u128;
    if is_ms {
        Some(num)
    } else if is_s {
        Some(num * 1000)
    } else if is_m {
        Some(num * 60000)
    } else if is_h {
        Some(num * 3600000)
    } else {
        None
    }
}

/// `prefix` followed by the characters of `tail`.
fn message_with(prefix: &str, tail: &Vec<char>) -> (res: String)
    ensures
        res@ == prefix@ + tail@,
{
    let mut m = String::from_str(prefix);
    let t = crate::text::string_of(tail);
    push_str(&mut m, t.as_str());
    m
}

/// The value and error of one pair, computed.
fn pair_to_millis(num: &Vec<char>, unit: &Vec<char>) -> (res: Result<u128, String>)
    requires
        all_digits(num@),
    ensures
        match res {
            Ok(x) => pair_millis(num@, unit@) == Ok::<nat, Seq<char>>(x as nat),
            Err(e) => pair_millis(num@, unit@) == Err::<nat, Seq<char>>(e@),
        },
{
    match digits_to_u64(num) {
        None => Err(message_with("invalid number: ", num)),
        Some(v) => match unit_to_millis(v, unit) {
            None => Err(message_with("unknown duration unit: ", unit)),
            Some(x) => Ok(x),
        },
    }
}

/// Totals at or above this are reported as too large.
pub open spec fn duration_cap() -> nat {
    (u64::MAX as nat) + 1
}

/// The smaller of a total and the cap.
pub open spec fn capped(t: nat) -> nat {
    if t >= duration_cap() {
        duration_cap()
    } else {
        t
    }
}

/// `str::parse::<u64>` on a character sequence (see [`parse_u64_text`]).
pub fn parse_u64_chars(v: &Vec<char>) -> (res: Option<u64>)
    ensures
        match res {
            Some(x) => parse_u64_text(v@) == Some(x as nat),
            None => parse_u64_text(v@) is None,
        },
{
    let start: usize = if v.len() > 0 && v[0] == '+' { 1 } else { 0 };
    let mut body: Vec<char> = Vec::new();
    let mut k: usize = start;
    let mut only_digits = true;
    while k < v.len()
        invariant
            start <= k <= v.len(),
            body@ == v@.subrange(start as int, k as int),
            only_digits == all_digits(body@),
        decreases v.len() - k,
    {
        let c = v[k];
        if !('0' <= c && c <= '9') {
            only_digits = false;
        }
        body.push(c);
        k = k + 1;
        proof {
            let b = v@.subrange(start as int, k as int);
            assert(body@ =~= b);
            if only_digits {
                assert forall|q: int| 0 <= q < b.len() implies is_digit(#[trigger] b[q]) by {
                    if q < b.len() - 1 {
                        assert(b[q] == v@.subrange(start as int, k - 1)[q]);
                    }
                }
            } else {
                if !is_digit(c) {
                    assert(!is_digit(b[b.len() - 1]));
                } else {
                    let prev = v@.subrange(start as int, k - 1);
                    let q = choose|q: int| 0 <= q < prev.len() && !is_digit(#[trigger] prev[q]);
                    assert(b[q] == prev[q]);
                }
            }
        }
    }
    proof {
        if v@.len() > 0 && v@[0] == '+' {
            assert(v@.drop_first() =~= v@.subrange(1, v@.len() as int));
        } else {
            assert(v@ =~= v@.subrange(0, v@.len() as int));
        }
    }
    if only_digits {
        digits_to_u64(&body)
    } else {
        None
    }
}

/// `str::parse::<u64>` (see [`parse_u64_text`]).
pub fn parse_u64_str(s: &str) -> (res: Option<u64>)
    ensures
        match res {
            Some(x) => parse_u64_text(s@) == Some(x as nat),
            None => parse_u64_text(s@) is None,
        },
{
    let v = chars_of(s);
    parse_u64_chars(&v)
}

/// Parse a human-readable duration string such as `"30s"`, `"500ms"`,
/// `"1m30s"`, `"2h"`, or a bare number (milliseconds), into milliseconds.
/// Whitespace and other non-alphanumeric characters between parts are
/// ignored. A duration beyond `u64` milliseconds is reported as an error.
pub fn parse_duration(s: &str) -> (res: Result<u64, String>)
    ensures
        match duration_millis(s@) {
            Ok(t) => if t <= u64::MAX {
                res == Ok::<u64, String>(t as u64)
            } else {
                res matches Err(e) && e@ == duration_too_large(trim(s@))
            },
            Err(m) => res matches Err(e) && e@ == m,
        },
{
    let all = chars_of(s);
    let (lo, hi) = trim_bounds(&all);
    let t = string_from_range(&all, lo, hi);
    let v = chars_of(t.as_str());
    if v.len() == 0 {
        return Err(String::from_str("empty duration string"));
    }
    if let Some(x) = parse_u64_chars(&v) {
        return Ok(x);
    }
    assert(parse_u64_text(v@) is None);
    // Scan number/unit pairs.
    let cap: u128 = 18446744073709551616;
    let mut total: u128 = 0;
    let mut num: Vec<char> = Vec::new();
    let mut unit: Vec<char> = Vec::new();
    let mut reading = false;
    let mut i: usize = 0;
    assert(v@.subrange(0, 0) =~= Seq::<char>::empty());
    while i < v.len()
        invariant
            i <= v.len(),
            cap == duration_cap(),
            v@ == trim(s@),
            v@.len() > 0,
            parse_u64_text(v@) is None,
            total <= cap,
            all_digits(num@),
            duration_scan(v@.subrange(0, i as int)) matches Ok(st) && total as nat == capped(st.0)
                && num@ == st.1 && unit@ == st.2 && reading == st.3,
        decreases v.len() - i,
    {
        assert(v@.subrange(0, i + 1).drop_last() =~= v@.subrange(0, i as int));
        let c = v[i];
        if '0' <= c && c <= '9' {
            if reading {
                match pair_to_millis(&num, &unit) {
                    Err(e) => {
                        proof {
                            lemma_scan_error_sticks(v@, i as int + 1);
                            assert(v@.subrange(0, v@.len() as int) =~= v@);
                        }
                        return Err(e);
                    },
                    Ok(x) => {
                        total = if x >= cap - total { cap } else { total + x };
                        num = Vec::new();
                        num.push(c);
                        unit = Vec::new();
                        reading = false;
                        assert(num@ =~= seq![c]);
                    },
                }
            } else {
                num.push(c);
            }
        } else if ('a' <= c && c <= 'z') || ('A' <= c && c <= 'Z') {
            unit.push(c);
            reading = true;
        }
        i = i + 1;
    }
    assert(v@.subrange(0, v@.len() as int) =~= v@);
    let mut final_total: u128 = total;
    if num.len() > 0 && unit.len() > 0 {
        match pair_to_millis(&num, &unit) {
            Err(e) => return Err(e),
            Ok(x) => {
                final_total = if x >= cap - total { cap } else { total + x };
            },
        }
    } else if num.len() > 0 {
        match digits_to_u64(&num) {
            None => return Err(message_with("invalid number: ", &num)),
            Some(x) => {
                let x = x as u128;
                final_total = if x >= cap - total { cap } else { total + x };
            },
        }
    } else if unit.len() > 0 {
        return Err(message_with("trailing unit without a number: ", &unit));
    }
    if final_total == 0 {
        return Err(message_with("could not parse duration: ", &v));
    }
    if final_total >= cap {
        return Err(message_with("duration exceeds u64 milliseconds: ", &v));
    }
    Ok(final_total as u64)
}

/// Once the scan fails on a prefix, it fails on the whole text with the
/// same message.
proof fn lemma_scan_error_sticks(s: Seq<char>, i: int)
    requires
        0 <= i <= s.len(),
        duration_scan(s.subrange(0, i)) is Err,
    ensures
        duration_scan(s) == duration_scan(s.subrange(0, i)),
    decreases s.len() - i,
{
    if i < s.len() {
        assert(s.subrange(0, i + 1).drop_last() =~= s.subrange(0, i));
        lemma_scan_error_sticks(s, i + 1);
    } else {
        assert(s.subrange(0, i) =~= s);
    }
}

/// Milliseconds for `num` units of `unit`: `ms`, `s`/`sec`/`secs`,
/// `m`/`min`/`mins`, `h`/`hr`/`hrs`; any other unit is an error. A value
/// beyond `u64` milliseconds is reported as an error as well.
pub fn apply_unit(num: u64, unit: &str) -> (res: Result<u64, String>)
    ensures
        match unit_millis(num as nat, unit@) {
            Some(x) => if x <= u64::MAX {
                res == Ok::<u64, String>(x as u64)
            } else {
                res matches Err(e) && e@ == "duration exceeds u64 milliseconds: "@ + unit@
            },
            None => res matches Err(e) && e@ == "unknown duration unit: "@ + unit@,
        },
{
    let u = chars_of(unit);
    match unit_to_millis(num, &u) {
        None => Err(message_with("unknown duration unit: ", &u)),
        Some(x) => if x > 18446744073709551615 {
            Err(message_with("duration exceeds u64 milliseconds: ", &u))
        } else {
            Ok(x as u64)
        },
    }
}

} // verus!
