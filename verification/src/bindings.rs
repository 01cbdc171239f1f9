//! The logic of the Python front end, as plain values: the option strings it
//! accepts, the configuration its keyword arguments make, the exception each
//! error becomes, and the text of its `repr`s.

use vstd::prelude::*;

use crate::config::{
    CrawlConfig, DelayStrategy, RetryConfig, ScanMode, ScreenshotFormat, Viewport, WaitStrategy,
    mode_concurrency, mode_max_depth, mode_max_pages,
};
use crate::error::RehykeError;
use crate::output::RenderMethod;
use crate::text::{
    chars_of, decimal, decimal_string, eq_str, opt_str_view, push_str, starts_with, string_from_range, to_lowercase,
    trim, trim_str, unicode_lowercase, views,
};

verus! {

// ---------------------------------------------------------------------------
// Errors
// ---------------------------------------------------------------------------

/// The Python exception class an error is raised as.
#[derive(Debug, Clone, Copy, PartialEq, Eq, Structural)]
pub enum PyErrorKind {
    /// `TimeoutError`
    Timeout,
    /// `IOError`
    Io,
    /// `ValueError`
    Value,
    /// `RuntimeError`
    Runtime,
}

/// Timeouts raise `TimeoutError`, I/O errors `IOError`, configuration and
/// URL errors `ValueError`, everything else `RuntimeError`; the message is
/// the error's own.
pub open spec fn py_error_kind(e: RehykeError) -> PyErrorKind {
    match e {
        RehykeError::Timeout { .. } => PyErrorKind::Timeout,
        RehykeError::IoError(_) => PyErrorKind::Io,
        RehykeError::ConfigError { .. } | RehykeError::UrlParseError(_) => PyErrorKind::Value,
        _ => PyErrorKind::Runtime,
    }
}

/// The exception class of an error (see [`py_error_kind`]).
pub fn error_kind(e: &RehykeError) -> (res: PyErrorKind)
    ensures
        res == py_error_kind(*e),
{
    match e {
        RehykeError::Timeout { .. } => PyErrorKind::Timeout,
        RehykeError::IoError(_) => PyErrorKind::Io,
        RehykeError::ConfigError { .. } | RehykeError::UrlParseError(_) => PyErrorKind::Value,
        _ => PyErrorKind::Runtime,
    }
}

// ---------------------------------------------------------------------------
// Option strings
// ---------------------------------------------------------------------------

/// A scan mode by name, any case: `lite`, `full` or `deep`.
pub open spec fn scan_mode_named(s: Seq<char>) -> Result<ScanMode, Seq<char>> {
    let l = unicode_lowercase(s);
    if l == "lite"@ {
        Ok(ScanMode::Lite)
    } else if l == "full"@ {
        Ok(ScanMode::Full)
    } else if l == "deep"@ {
        Ok(ScanMode::Deep)
    } else {
        Err("invalid mode '"@ + l + "': expected 'lite', 'full', or 'deep'"@)
    }
}

/// Read a scan mode (see [`scan_mode_named`]).
pub fn parse_scan_mode(s: &str) -> (res: Result<ScanMode, String>)
    ensures
        match scan_mode_named(s@) {
            Ok(m) => res == Ok::<ScanMode, String>(m),
            Err(msg) => res is Err && res->Err_0@ == msg,
        },
{
    let l = to_lowercase(s);
    if eq_str(l.as_str(), "lite") {
        Ok(ScanMode::Lite)
    } else if eq_str(l.as_str(), "full") {
        Ok(ScanMode::Full)
    } else if eq_str(l.as_str(), "deep") {
        Ok(ScanMode::Deep)
    } else {
        let mut msg = String::new();
        push_str(&mut msg, "invalid mode '");
        push_str(&mut msg, l.as_str());
        push_str(&mut msg, "': expected 'lite', 'full', or 'deep'");
        Err(msg)
    }
}

/// A viewport by name, any case: `desktop`, `tablet` or `mobile`.
pub open spec fn viewport_named(s: Seq<char>) -> Result<Viewport, Seq<char>> {
    let l = unicode_lowercase(s);
    if l == "desktop"@ {
        Ok(Viewport::Desktop)
    } else if l == "tablet"@ {
        Ok(Viewport::Tablet)
    } else if l == "mobile"@ {
        Ok(Viewport::Mobile)
    } else {
        Err("unknown viewport '"@ + l + "': expected 'desktop', 'tablet', or 'mobile'"@)
    }
}

/// Read a viewport (see [`viewport_named`]).
pub fn parse_viewport(s: &str) -> (res: Result<Viewport, String>)
    ensures
        match viewport_named(s@) {
            Ok(v) => res == Ok::<Viewport, String>(v),
            Err(msg) => res is Err && res->Err_0@ == msg,
        },
{
    let l = to_lowercase(s);
    if eq_str(l.as_str(), "desktop") {
        Ok(Viewport::Desktop)
    } else if eq_str(l.as_str(), "tablet") {
        Ok(Viewport::Tablet)
    } else if eq_str(l.as_str(), "mobile") {
        Ok(Viewport::Mobile)
    } else {
        let mut msg = String::new();
        push_str(&mut msg, "unknown viewport '");
        push_str(&mut msg, l.as_str());
        push_str(&mut msg, "': expected 'desktop', 'tablet', or 'mobile'");
        Err(msg)
    }
}

/// A screenshot format by name, any case: `png`, or `jpeg` or `jpg`.
pub open spec fn screenshot_format_named(s: Seq<char>) -> Result<ScreenshotFormat, Seq<char>> {
    let l = unicode_lowercase(s);
    if l == "png"@ {
        Ok(ScreenshotFormat::Png)
    } else if l == "jpeg"@ || l == "jpg"@ {
        Ok(ScreenshotFormat::Jpeg)
    } else {
        Err("unknown screenshot_format '"@ + l + "': expected 'png' or 'jpeg'"@)
    }
}

/// Read a screenshot format (see [`screenshot_format_named`]).
pub fn parse_screenshot_format(s: &str) -> (res: Result<ScreenshotFormat, String>)
    ensures
        match screenshot_format_named(s@) {
            Ok(f) => res == Ok::<ScreenshotFormat, String>(f),
            Err(msg) => res is Err && res->Err_0@ == msg,
        },
{
    let l = to_lowercase(s);
    if eq_str(l.as_str(), "png") {
        Ok(ScreenshotFormat::Png)
    } else if eq_str(l.as_str(), "jpeg") || eq_str(l.as_str(), "jpg") {
        Ok(ScreenshotFormat::Jpeg)
    } else {
        let mut msg = String::new();
        push_str(&mut msg, "unknown screenshot_format '");
        push_str(&mut msg, l.as_str());
        push_str(&mut msg, "': expected 'png' or 'jpeg'");
        Err(msg)
    }
}

/// How a wait-strategy string reads.
#[derive(Debug, Clone)]
pub enum WaitStrategyText {
    /// A strategy named by keyword or selector.
    Named(WaitStrategy),
    /// No keyword: the (lowercased) text should be a number of seconds to
    /// wait, read as floating point by the caller; `unknown` is the error
    /// when it is not one.
    Seconds { text: String, unknown: String },
    /// The text cannot name a strategy; the message says why.
    Invalid(String),
}

/// The message of a selector strategy without a selector.
pub open spec fn empty_selector_message() -> Seq<char> {
    "selector wait strategy requires a non-empty CSS selector after 'selector:'"@
}

/// The message of a wait strategy that is neither a keyword nor a number.
pub open spec fn unknown_wait_message(l: Seq<char>) -> Seq<char> {
    "unknown js_wait_strategy '"@ + l
        + "': expected 'auto', 'network_idle', 'selector:<CSS>', or a number of seconds"@
}

/// A wait strategy from its text, any case: `auto`; `network_idle`,
/// `networkidle` or `idle`; `selector:` followed by a CSS selector (trimmed,
/// lowercased like the rest, and not empty); anything else should be a
/// number of seconds.
pub open spec fn wait_strategy_reading(s: Seq<char>, res: WaitStrategyText) -> bool {
    let l = unicode_lowercase(s);
    if l == "auto"@ {
        res matches WaitStrategyText::Named(w) && w is Auto
    } else if l == "network_idle"@ || l == "networkidle"@ || l == "idle"@ {
        res matches WaitStrategyText::Named(w) && w is NetworkIdle
    } else if starts_with(l, "selector:"@) {
        let sel = trim(l.subrange(9, l.len() as int));
        if sel.len() == 0 {
            res matches WaitStrategyText::Invalid(m) && m@ == empty_selector_message()
        } else {
            res matches WaitStrategyText::Named(w) && w matches WaitStrategy::Selector { selector } && selector@
                == sel
        }
    } else {
        res matches WaitStrategyText::Seconds { text, unknown } && text@ == l && unknown@
            == unknown_wait_message(l)
    }
}

/// Read a wait strategy (see [`wait_strategy_reading`]).
pub fn parse_wait_strategy(s: &str) -> (res: WaitStrategyText)
    ensures
        wait_strategy_reading(s@, res),
{
    let l = to_lowercase(s);
    proof {
        reveal_strlit("selector:");
    }
    if eq_str(l.as_str(), "auto") {
        WaitStrategyText::Named(WaitStrategy::Auto)
    } else if eq_str(l.as_str(), "network_idle") || eq_str(l.as_str(), "networkidle") || eq_str(
        l.as_str(),
        "idle",
    ) {
        WaitStrategyText::Named(WaitStrategy::NetworkIdle)
    } else if crate::text::str_starts_with(l.as_str(), "selector:") {
        let v = chars_of(l.as_str());
        let rest = string_from_range(&v, 9, v.len());
        let selector = trim_str(rest.as_str());
        let sel_chars = chars_of(selector.as_str());
        if sel_chars.len() == 0 {
            let mut m = String::new();
            push_str(
                &mut m,
                "selector wait strategy requires a non-empty CSS selector after 'selector:'",
            );
            WaitStrategyText::Invalid(m)
        } else {
            WaitStrategyText::Named(WaitStrategy::Selector { selector })
        }
    } else {
        let mut unknown = String::new();
        push_str(&mut unknown, "unknown js_wait_strategy '");
        push_str(&mut unknown, l.as_str());
        push_str(
            &mut unknown,
            "': expected 'auto', 'network_idle', 'selector:<CSS>', or a number of seconds",
        );
        WaitStrategyText::Seconds { text: l, unknown }
    }
}

// ---------------------------------------------------------------------------
// The configuration of the keyword arguments
// ---------------------------------------------------------------------------

/// The keyword arguments of the Python `CrawlConfig`, but for the wait
/// strategy, which the caller reads with [`parse_wait_strategy`] (a number
/// of seconds being floating point), and the JS wait timeout, which the
/// caller gives in milliseconds.
pub struct PyConfigOptions {
    pub mode: Option<ScanMode>,
    pub max_depth: Option<usize>,
    pub max_pages: Option<usize>,
    pub concurrency: Option<usize>,
    pub enable_js: bool,
    pub user_agent: Option<String>,
    pub timeout_secs: Option<u64>,
    pub max_retries: Option<u32>,
    pub respect_robots_txt: bool,
    pub clean_navigation: bool,
    pub clean_footers: bool,
    pub clean_ads: bool,
    pub exclude_patterns: Option<Vec<String>>,
    pub include_patterns: Option<Vec<String>>,
    pub delay_min_ms: Option<u64>,
    pub delay_max_ms: Option<u64>,
    pub js_wait_timeout_ms: u64,
    pub scroll_count: usize,
    pub dismiss_popups: bool,
    pub viewport: String,
    pub screenshot: bool,
    pub screenshot_format: String,
    pub screenshot_dir: Option<String>,
    pub detect_spa: bool,
    pub randomize_fingerprint: bool,
}

/// The delay of the two optional bounds: random between both, fixed at
/// the one given, none without either.
pub open spec fn py_delay(min: Option<u64>, max: Option<u64>) -> DelayStrategy {
    match (min, max) {
        (Some(lo), Some(hi)) => DelayStrategy::Random { min_ms: lo, max_ms: hi },
        (Some(d), None) => DelayStrategy::Fixed { delay_ms: d },
        (None, Some(d)) => DelayStrategy::Fixed { delay_ms: d },
        (None, None) => DelayStrategy::NoDelay,
    }
}

/// The view of optional patterns: none given is no pattern.
pub open spec fn opt_patterns(p: Option<Vec<String>>) -> Seq<Seq<char>> {
    match p {
        Some(v) => views(v@),
        None => Seq::empty(),
    }
}

/// The configuration the keyword arguments make: the mode (`Full` when
/// none) with its defaults unless depth, pages or concurrency are given;
/// the switches and JS settings as given; the timeout in seconds (in
/// milliseconds, at most `u64::MAX`), the retry
/// count, the user agent and the URL patterns when given; the delay of the
/// bounds (see [`py_delay`]); everything else the default.
pub open spec fn py_config(o: PyConfigOptions, wait: WaitStrategy, vp: Viewport, fmt: ScreenshotFormat, c: CrawlConfig) -> bool {
    let mode = match o.mode {
        Some(m) => m,
        None => ScanMode::Full,
    };
    &&& c.mode == mode
    &&& c.max_depth == (match o.max_depth {
        Some(d) => d,
        None => mode_max_depth(mode),
    })
    &&& c.max_pages == (match o.max_pages {
        Some(p) => p,
        None => mode_max_pages(mode),
    })
    &&& c.concurrency == (match o.concurrency {
        Some(n) => n,
        None => mode_concurrency(mode),
    })
    &&& c.enable_js == o.enable_js
    &&& c.respect_robots_txt == o.respect_robots_txt
    &&& c.clean_navigation == o.clean_navigation
    &&& c.clean_footers == o.clean_footers
    &&& c.clean_ads == o.clean_ads
    &&& c.js_wait_strategy == wait
    &&& c.js_wait_timeout_ms == o.js_wait_timeout_ms
    &&& c.js_scroll_count == o.scroll_count
    &&& c.dismiss_popups == o.dismiss_popups
    &&& c.viewport == vp
    &&& c.screenshot == o.screenshot
    &&& c.screenshot_format == fmt
    &&& opt_str_view(c.screenshot_output_dir) == opt_str_view(o.screenshot_dir)
    &&& c.detect_spa == o.detect_spa
    &&& c.randomize_fingerprint == o.randomize_fingerprint
    &&& c.user_agent@ == (match o.user_agent {
        Some(u) => u@,
        None => crate::config::default_user_agent(),
    })
    &&& c.timeout_ms == (match o.timeout_secs {
        Some(secs) => if secs * 1000 <= u64::MAX {
            (secs * 1000) as u64
        } else {
            u64::MAX
        },
        None => 30000,
    })
    &&& c.retry_config == (match o.max_retries {
        Some(r) => RetryConfig { max_retries: r, initial_delay_ms: 500, max_delay_ms: 30000 },
        None => RetryConfig { max_retries: 3, initial_delay_ms: 500, max_delay_ms: 30000 },
    })
    &&& views(c.exclude_patterns@) == opt_patterns(o.exclude_patterns)
    &&& views(c.include_patterns@) == opt_patterns(o.include_patterns)
    &&& c.delay_strategy == py_delay(o.delay_min_ms, o.delay_max_ms)
    &&& c.output is Memory
    &&& c.proxies@.len() == 0
    &&& c.extract_metadata
    &&& c.remove_www
}

fn clone_patterns(p: &Option<Vec<String>>) -> (res: Vec<String>)
    ensures
        views(res@) == opt_patterns(*p),
{
    match p {
        Some(v) => crate::text::clone_strings(v),
        None => Vec::new(),
    }
}

/// The configuration of the keyword arguments with the wait strategy read
/// (see [`py_config`]); an unknown viewport, then an unknown screenshot
/// format, is the error (see [`viewport_named`] and
/// [`screenshot_format_named`]).
pub fn build_py_config(o: &PyConfigOptions, wait: WaitStrategy) -> (res: Result<CrawlConfig, String>)
    ensures
        match viewport_named(o.viewport@) {
            Err(m) => res is Err && res->Err_0@ == m,
            Ok(vp) => match screenshot_format_named(o.screenshot_format@) {
                Err(m) => res is Err && res->Err_0@ == m,
                Ok(fmt) => res is Ok && py_config(*o, wait, vp, fmt, res->Ok_0),
            },
        },
{
    let vp = match parse_viewport(o.viewport.as_str()) {
        Ok(v) => v,
        Err(m) => return Err(m),
    };
    let fmt = match parse_screenshot_format(o.screenshot_format.as_str()) {
        Ok(f) => f,
        Err(m) => return Err(m),
    };
    let mode = match o.mode {
        Some(m) => m,
        None => ScanMode::Full,
    };
    let mut c = CrawlConfig::new();
    c.mode = mode;
    c.max_depth = match o.max_depth {
        Some(d) => d,
        None => mode.default_max_depth(),
    };
    c.max_pages = match o.max_pages {
        Some(p) => p,
        None => mode.default_max_pages(),
    };
    c.concurrency = match o.concurrency {
        Some(n) => n,
        None => mode.default_concurrency(),
    };
    c.enable_js = o.enable_js;
    c.respect_robots_txt = o.respect_robots_txt;
    c.clean_navigation = o.clean_navigation;
    c.clean_footers = o.clean_footers;
    c.clean_ads = o.clean_ads;
    c.js_wait_strategy = wait;
    c.js_wait_timeout_ms = o.js_wait_timeout_ms;
    c.js_scroll_count = o.scroll_count;
    c.dismiss_popups = o.dismiss_popups;
    c.viewport = vp;
    c.screenshot = o.screenshot;
    c.screenshot_format = fmt;
    c.screenshot_output_dir = crate::text::clone_opt_string(&o.screenshot_dir);
    c.detect_spa = o.detect_spa;
    c.randomize_fingerprint = o.randomize_fingerprint;
    match &o.user_agent {
        Some(u) => {
            c.user_agent = u.clone();
        },
        None => {},
    }
    match o.timeout_secs {
        Some(secs) => {
            c.timeout_ms = match secs.checked_mul(1000) {
                Some(ms) => ms,
                None => u64::MAX,
            };
        },
        None => {},
    }
    match o.max_retries {
        Some(r) => {
            c.retry_config = RetryConfig { max_retries: r, initial_delay_ms: 500, max_delay_ms: 30000 };
        },
        None => {},
    }
    c.exclude_patterns = clone_patterns(&o.exclude_patterns);
    c.include_patterns = clone_patterns(&o.include_patterns);
    c.delay_strategy = match (o.delay_min_ms, o.delay_max_ms) {
        (Some(lo), Some(hi)) => DelayStrategy::Random { min_ms: lo, max_ms: hi },
        (Some(d), None) => DelayStrategy::Fixed { delay_ms: d },
        (None, Some(d)) => DelayStrategy::Fixed { delay_ms: d },
        (None, None) => DelayStrategy::NoDelay,
    };
    Ok(c)
}

// ---------------------------------------------------------------------------
// Text for Python
// ---------------------------------------------------------------------------

/// The Markdown of several pages in one text: each page's Markdown, with a
/// `---` rule between pages.
pub open spec fn joined_markdown(pages: Seq<Seq<char>>) -> Seq<char>
    decreases pages.len(),
{
    if pages.len() == 0 {
        Seq::empty()
    } else if pages.len() == 1 {
        pages[0]
    } else {
        joined_markdown(pages.drop_last()) + "\n---\n\n"@ + pages.last()
    }
}

/// Join the pages' Markdown (see [`joined_markdown`]).
pub fn join_markdown(pages: &Vec<String>) -> (res: String)
    ensures
        res@ == joined_markdown(views(pages@)),
{
    let mut out = String::new();
    let mut i: usize = 0;
    while i < pages.len()
        invariant
            i <= pages.len(),
            out@ == joined_markdown(views(pages@).take(i as int)),
        decreases pages.len() - i,
    {
        let ghost before = out@;
        if i > 0 {
            push_str(&mut out, "\n---\n\n");
        }
        push_str(&mut out, pages[i].as_str());
        assert(views(pages@).take(i + 1).drop_last() =~= views(pages@).take(i as int));
        assert(views(pages@).take(i + 1).last() == pages@[i as int]@);
        if i == 0 {
            assert(before =~= Seq::<char>::empty());
            assert(out@ =~= pages@[0]@);
        }
        i = i + 1;
    }
    assert(views(pages@).take(pages.len() as int) =~= views(pages@));
    out
}

/// How a page was rendered, as Python sees it: `static` or `javascript`.
pub open spec fn render_name(m: RenderMethod) -> Seq<char> {
    match m {
        RenderMethod::Static => "static"@,
        RenderMethod::JavaScript => "javascript"@,
    }
}

/// The name of a render method (see [`render_name`]).
pub fn render_method_name(m: RenderMethod) -> (res: String)
    ensures
        res@ == render_name(m),
{
    let mut out = String::new();
    match m {
        RenderMethod::Static => push_str(&mut out, "static"),
        RenderMethod::JavaScript => push_str(&mut out, "javascript"),
    }
    out
}

/// The name of a scan mode, as its debug form prints it.
pub open spec fn mode_name(m: ScanMode) -> Seq<char> {
    match m {
        ScanMode::Lite => "Lite"@,
        ScanMode::Full => "Full"@,
        ScanMode::Deep => "Deep"@,
    }
}

/// The name of a viewport, as its debug form prints it.
pub open spec fn viewport_name(v: Viewport) -> Seq<char> {
    match v {
        Viewport::Desktop => "Desktop"@,
        Viewport::Tablet => "Tablet"@,
        Viewport::Mobile => "Mobile"@,
    }
}

pub open spec fn bool_text(b: bool) -> Seq<char> {
    if b {
        "true"@
    } else {
        "false"@
    }
}

fn push_mode(out: &mut String, m: ScanMode)
    ensures
        final(out)@ == old(out)@ + mode_name(m),
{
    match m {
        ScanMode::Lite => push_str(out, "Lite"),
        ScanMode::Full => push_str(out, "Full"),
        ScanMode::Deep => push_str(out, "Deep"),
    }
}

fn push_bool(out: &mut String, b: bool)
    ensures
        final(out)@ == old(out)@ + bool_text(b),
{
    if b {
        push_str(out, "true");
    } else {
        push_str(out, "false");
    }
}

fn push_number(out: &mut String, n: usize)
    ensures
        final(out)@ == old(out)@ + decimal(n as nat),
{
    let d = decimal_string(n as u64);
    push_str(out, d.as_str());
}

/// The `repr` of a configuration: `CrawlConfig(mode=<mode>,
/// max_depth=<n>, max_pages=<n>, concurrency=<n>, enable_js=<bool>,
/// viewport=<viewport>)`.
pub open spec fn config_repr_text(c: CrawlConfig) -> Seq<char> {
    "CrawlConfig(mode="@ + mode_name(c.mode) + ", max_depth="@ + decimal(c.max_depth as nat)
        + ", max_pages="@ + decimal(c.max_pages as nat) + ", concurrency="@ + decimal(
        c.concurrency as nat,
    ) + ", enable_js="@ + bool_text(c.enable_js) + ", viewport="@ + viewport_name(c.viewport) + ")"@
}

/// The `repr` of a configuration (see [`config_repr_text`]).
pub fn config_repr(c: &CrawlConfig) -> (res: String)
    ensures
        res@ == config_repr_text(*c),
{
    let mut out = String::new();
    push_str(&mut out, "CrawlConfig(mode=");
    push_mode(&mut out, c.mode);
    push_str(&mut out, ", max_depth=");
    push_number(&mut out, c.max_depth);
    push_str(&mut out, ", max_pages=");
    push_number(&mut out, c.max_pages);
    push_str(&mut out, ", concurrency=");
    push_number(&mut out, c.concurrency);
    push_str(&mut out, ", enable_js=");
    push_bool(&mut out, c.enable_js);
    push_str(&mut out, ", viewport=");
    match c.viewport {
        Viewport::Desktop => push_str(&mut out, "Desktop"),
        Viewport::Tablet => push_str(&mut out, "Tablet"),
        Viewport::Mobile => push_str(&mut out, "Mobile"),
    }
    push_str(&mut out, ")");
    out
}

/// The `repr` of a crawler: `Rehyke(mode=<mode>, max_depth=<n>,
/// concurrency=<n>, enable_js=<bool>)`.
pub open spec fn crawler_repr_text(c: CrawlConfig) -> Seq<char> {
    "Rehyke(mode="@ + mode_name(c.mode) + ", max_depth="@ + decimal(c.max_depth as nat) + ", concurrency="@
        + decimal(c.concurrency as nat) + ", enable_js="@ + bool_text(c.enable_js) + ")"@
}

/// The `repr` of a crawler with this configuration (see
/// [`crawler_repr_text`]).
pub fn crawler_repr(c: &CrawlConfig) -> (res: String)
    ensures
        res@ == crawler_repr_text(*c),
{
    let mut out = String::new();
    push_str(&mut out, "Rehyke(mode=");
    push_mode(&mut out, c.mode);
    push_str(&mut out, ", max_depth=");
    push_number(&mut out, c.max_depth);
    push_str(&mut out, ", concurrency=");
    push_number(&mut out, c.concurrency);
    push_str(&mut out, ", enable_js=");
    push_bool(&mut out, c.enable_js);
    push_str(&mut out, ")");
    out
}

/// The `repr` of a crawl result: `CrawlResult(url='<url>',
/// title='<title>', status_code=<n>, render='<static|javascript>')`.
pub open spec fn result_repr_text(url: Seq<char>, title: Seq<char>, status: u16, render: RenderMethod) -> Seq<char> {
    "CrawlResult(url='"@ + url + "', title='"@ + title + "', status_code="@ + decimal(status as nat)
        + ", render='"@ + render_name(render) + "')"@
}

/// The `repr` of a crawl result (see [`result_repr_text`]).
pub fn result_repr(url: &str, title: &str, status: u16, render: RenderMethod) -> (res: String)
    ensures
        res@ == result_repr_text(url@, title@, status, render),
{
    let mut out = String::new();
    push_str(&mut out, "CrawlResult(url='");
    push_str(&mut out, url);
    push_str(&mut out, "', title='");
    push_str(&mut out, title);
    push_str(&mut out, "', status_code=");
    let d = decimal_string(status as u64);
    push_str(&mut out, d.as_str());
    push_str(&mut out, ", render='");
    let r = render_method_name(render);
    push_str(&mut out, r.as_str());
    push_str(&mut out, "')");
    out
}


/// The option names, in any case: `lite`, `full` and `deep` name the scan
/// modes; `desktop`, `tablet` and `mobile` the viewports; `png`, and `jpeg`
/// or `jpg`, the screenshot formats; every other name is refused. As a wait
/// strategy, `auto` names waiting automatically and `network_idle`,
/// `networkidle` or `idle` waiting for the network to go idle.
pub proof fn lemma_option_names(s: Seq<char>)
    ensures
        unicode_lowercase(s) == "lite"@ ==> scan_mode_named(s) == Ok::<ScanMode, Seq<char>>(ScanMode::Lite),
        unicode_lowercase(s) == "full"@ ==> scan_mode_named(s) == Ok::<ScanMode, Seq<char>>(ScanMode::Full),
        unicode_lowercase(s) == "deep"@ ==> scan_mode_named(s) == Ok::<ScanMode, Seq<char>>(ScanMode::Deep),
        !(unicode_lowercase(s) == "lite"@ || unicode_lowercase(s) == "full"@ || unicode_lowercase(s) == "deep"@)
            ==> scan_mode_named(s) is Err,
        unicode_lowercase(s) == "desktop"@ ==> viewport_named(s) == Ok::<Viewport, Seq<char>>(Viewport::Desktop),
        unicode_lowercase(s) == "tablet"@ ==> viewport_named(s) == Ok::<Viewport, Seq<char>>(Viewport::Tablet),
        unicode_lowercase(s) == "mobile"@ ==> viewport_named(s) == Ok::<Viewport, Seq<char>>(Viewport::Mobile),
        !(unicode_lowercase(s) == "desktop"@ || unicode_lowercase(s) == "tablet"@ || unicode_lowercase(s)
            == "mobile"@) ==> viewport_named(s) is Err,
        unicode_lowercase(s) == "png"@ ==> screenshot_format_named(s) == Ok::<ScreenshotFormat, Seq<char>>(
            ScreenshotFormat::Png,
        ),
        unicode_lowercase(s) == "jpeg"@ || unicode_lowercase(s) == "jpg"@ ==> screenshot_format_named(s) == Ok::<
            ScreenshotFormat,
            Seq<char>,
        >(ScreenshotFormat::Jpeg),
        !(unicode_lowercase(s) == "png"@ || unicode_lowercase(s) == "jpeg"@ || unicode_lowercase(s) == "jpg"@)
            ==> screenshot_format_named(s) is Err,
        forall|r: WaitStrategyText|
            unicode_lowercase(s) == "auto"@ && #[trigger] wait_strategy_reading(s, r) ==> (r matches
                WaitStrategyText::Named(w) && w is Auto),
        forall|r: WaitStrategyText|
            (unicode_lowercase(s) == "network_idle"@ || unicode_lowercase(s) == "networkidle"@ || unicode_lowercase(
                s,
            ) == "idle"@) && #[trigger] wait_strategy_reading(s, r) ==> (r matches WaitStrategyText::Named(w)
                && w is NetworkIdle),
{
    reveal_strlit("lite");
    assert("lite"@ =~= seq!['l', 'i', 't', 'e']);
    reveal_strlit("full");
    assert("full"@ =~= seq!['f', 'u', 'l', 'l']);
    reveal_strlit("deep");
    assert("deep"@ =~= seq!['d', 'e', 'e', 'p']);
    reveal_strlit("desktop");
    assert("desktop"@ =~= seq!['d', 'e', 's', 'k', 't', 'o', 'p']);
    reveal_strlit("tablet");
    assert("tablet"@ =~= seq!['t', 'a', 'b', 'l', 'e', 't']);
    reveal_strlit("mobile");
    assert("mobile"@ =~= seq!['m', 'o', 'b', 'i', 'l', 'e']);
    reveal_strlit("png");
    assert("png"@ =~= seq!['p', 'n', 'g']);
    reveal_strlit("jpeg");
    assert("jpeg"@ =~= seq!['j', 'p', 'e', 'g']);
    reveal_strlit("jpg");
    assert("jpg"@ =~= seq!['j', 'p', 'g']);
    reveal_strlit("auto");
    assert("auto"@ =~= seq!['a', 'u', 't', 'o']);
    reveal_strlit("network_idle");
    assert("network_idle"@ =~= seq!['n', 'e', 't', 'w', 'o', 'r', 'k', '_', 'i', 'd', 'l', 'e']);
    reveal_strlit("networkidle");
    assert("networkidle"@ =~= seq!['n', 'e', 't', 'w', 'o', 'r', 'k', 'i', 'd', 'l', 'e']);
    reveal_strlit("idle");
    assert("idle"@ =~= seq!['i', 'd', 'l', 'e']);
    reveal_strlit("selector:");
    assert("selector:"@ =~= seq!['s', 'e', 'l', 'e', 'c', 't', 'o', 'r', ':']);
}

} // verus!
