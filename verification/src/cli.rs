//! The command line's options, as plain values, and the crawl
//! configuration they make.

use vstd::prelude::*;

use crate::config::{
    CrawlConfig, DelayStrategy, FileStructure, OutputMode, ProxyConfig,
    ProxyType, RetryConfig, ScanMode, mode_concurrency, mode_max_depth, mode_max_pages,
    parse_u64_str, parse_u64_text,
};
use crate::text::{
    chars_of, push_str, split_on, starts_with, str_starts_with, string_from_range, trim, trim_str,
    views,
};

verus! {

/// The options of the command line that shape the crawl.
pub struct CliOptions {
    pub mode: ScanMode,
    pub max_depth: Option<usize>,
    pub max_pages: Option<usize>,
    pub concurrency: Option<usize>,
    pub js: bool,
    /// Write one file per page into this directory.
    pub output_dir: Option<String>,
    /// Write all pages into this file.
    pub output: Option<String>,
    pub structure: FileStructure,
    pub proxies: Vec<String>,
    /// `MIN-MAX` or a single number of milliseconds.
    pub delay: Option<String>,
    pub exclude_patterns: Vec<String>,
    pub include_patterns: Vec<String>,
    pub no_robots: bool,
    pub clean_nav: bool,
    pub clean_footer: bool,
    pub clean_ads: bool,
    /// Per-request timeout in seconds.
    pub timeout: Option<u64>,
    pub retries: Option<u32>,
    pub user_agent: Option<String>,
}

/// The text before and after the first `-`, if there is one.
pub open spec fn split_once_dash(s: Seq<char>) -> Option<(Seq<char>, Seq<char>)> {
    let parts = split_on(s, '-');
    if parts.len() >= 2 {
        let n = parts[0].len();
        Some((s.subrange(0, n as int), s.subrange(n as int + 1, s.len() as int)))
    } else {
        None
    }
}

/// A delay option: `MIN-MAX` milliseconds (each trimmed) for a random
/// delay, else one number of milliseconds for a fixed delay; a part that is
/// not a number gives the error naming it.
pub open spec fn delay_option(s: Seq<char>) -> Result<DelayStrategy, Seq<char>> {
    match split_once_dash(s) {
        Some((lo, hi)) => match parse_u64_text(trim(lo)) {
            None => Err("min delay is not a valid number"@),
            Some(min) => match parse_u64_text(trim(hi)) {
                None => Err("max delay is not a valid number"@),
                Some(max) => Ok(DelayStrategy::Random { min_ms: min as u64, max_ms: max as u64 }),
            },
        },
        None => match parse_u64_text(trim(s)) {
            None => Err("delay is not a valid number"@),
            Some(ms) => Ok(DelayStrategy::Fixed { delay_ms: ms as u64 }),
        },
    }
}

/// Parse a delay option (see [`delay_option`]).
pub fn parse_delay(s: &str) -> (res: Result<DelayStrategy, String>)
    ensures
        match delay_option(s@) {
            Ok(d) => res == Ok::<DelayStrategy, String>(d),
            Err(m) => res is Err && res->Err_0@ == m,
        },
{
    let v = chars_of(s);
    let parts = split_chars_first_dash(&v);
    match parts {
        Some(k) => {
            let lo = string_from_range(&v, 0, k);
            let hi = string_from_range(&v, k + 1, v.len());
            let lo_t = trim_str(lo.as_str());
            let hi_t = trim_str(hi.as_str());
            let min = match parse_u64_str(lo_t.as_str()) {
                Some(x) => x,
                None => return Err("min delay is not a valid number".to_string()),
            };
            let max = match parse_u64_str(hi_t.as_str()) {
                Some(x) => x,
                None => return Err("max delay is not a valid number".to_string()),
            };
            Ok(DelayStrategy::Random { min_ms: min, max_ms: max })
        },
        None => {
            let t = trim_str(s);
            match parse_u64_str(t.as_str()) {
                Some(ms) => Ok(DelayStrategy::Fixed { delay_ms: ms }),
                None => Err("delay is not a valid number".to_string()),
            }
        },
    }
}

/// The position of the first `-`, matching [`split_once_dash`].
fn split_chars_first_dash(v: &Vec<char>) -> (res: Option<usize>)
    ensures
        match split_once_dash(v@) {
            Some((lo, hi)) => res is Some && res->Some_0 < v@.len() && lo == v@.subrange(0, res->Some_0 as int)
                && hi == v@.subrange(res->Some_0 + 1, v@.len() as int),
            None => res is None,
        },
{
    let mut i: usize = 0;
    while i < v.len()
        invariant
            i <= v.len(),
            forall|j: int| 0 <= j < i ==> v@[j] != '-',
        decreases v.len() - i,
    {
        if v[i] == '-' {
            proof {
                lemma_split_first(v@, i as int);
            }
            return Some(i);
        }
        i = i + 1;
    }
    proof {
        lemma_split_none(v@);
    }
    None
}

/// Splitting on `-`: the first piece ends at the first `-`.
proof fn lemma_split_first(s: Seq<char>, i: int)
    requires
        0 <= i < s.len(),
        s[i] == '-',
        forall|j: int| 0 <= j < i ==> s[j] != '-',
    ensures
        split_on(s, '-').len() >= 2,
        split_on(s, '-')[0] == s.subrange(0, i),
    decreases s.len(),
{
    if s.len() - 1 == i {
        lemma_split_no_dash(s.drop_last());
        assert(s.drop_last() =~= s.subrange(0, i));
    } else {
        lemma_split_first(s.drop_last(), i);
        assert(s.drop_last().subrange(0, i) =~= s.subrange(0, i));
    }
}

/// Without a `-`, splitting gives the whole text as one piece.
proof fn lemma_split_no_dash(s: Seq<char>)
    requires
        forall|j: int| 0 <= j < s.len() ==> s[j] != '-',
    ensures
        split_on(s, '-') == seq![s],
    decreases s.len(),
{
    if s.len() > 0 {
        lemma_split_no_dash(s.drop_last());
        assert(s.drop_last().push(s.last()) =~= s);
    } else {
        assert(s =~= Seq::<char>::empty());
    }
}

proof fn lemma_split_none(s: Seq<char>)
    requires
        forall|j: int| 0 <= j < s.len() ==> s[j] != '-',
    ensures
        split_once_dash(s) is None,
{
    lemma_split_no_dash(s);
}

/// The proxy type a proxy URL names: SOCKS5 for `socks5…`, HTTPS for
/// `https…`, else HTTP.
pub open spec fn proxy_type_of(url: Seq<char>) -> ProxyType {
    if starts_with(url, "socks5"@) {
        ProxyType::Socks5
    } else if starts_with(url, "https"@) {
        ProxyType::Https
    } else {
        ProxyType::Http
    }
}

fn proxy_type_for(url: &str) -> (res: ProxyType)
    ensures
        res == proxy_type_of(url@),
{
    if str_starts_with(url, "socks5") {
        ProxyType::Socks5
    } else if str_starts_with(url, "https") {
        ProxyType::Https
    } else {
        ProxyType::Http
    }
}

/// The proxy configuration of each proxy URL, in order.
pub open spec fn proxies_of(urls: Seq<Seq<char>>, ps: Seq<ProxyConfig>) -> bool {
    &&& ps.len() == urls.len()
    &&& forall|i: int|
        0 <= i < ps.len() ==> (#[trigger] ps[i]).url@ == urls[i] && ps[i].proxy_type == proxy_type_of(urls[i])
            && ps[i].auth is None && ps[i].region is None
}

fn proxy_configs(urls: &Vec<String>) -> (res: Vec<ProxyConfig>)
    ensures
        proxies_of(views(urls@), res@),
{
    let mut out: Vec<ProxyConfig> = Vec::new();
    let mut i: usize = 0;
    while i < urls.len()
        invariant
            i <= urls.len(),
            out@.len() == i,
            forall|k: int|
                0 <= k < i ==> (#[trigger] out@[k]).url@ == urls@[k]@ && out@[k].proxy_type == proxy_type_of(urls@[k]@)
                    && out@[k].auth is None && out@[k].region is None,
        decreases urls.len() - i,
    {
        let ty = proxy_type_for(urls[i].as_str());
        out.push(ProxyConfig { url: urls[i].clone(), proxy_type: ty, auth: None, region: None });
        i = i + 1;
    }
    out
}

fn clone_string_vec(v: &Vec<String>) -> (res: Vec<String>)
    ensures
        views(res@) == views(v@),
{
    crate::text::clone_strings(v)
}

/// The crawl configuration the options make: the mode's defaults unless
/// depth, pages or concurrency are given; a directory of files in preference
/// to a single file, else memory; the proxies with the type their URL names;
/// the delay (see [`delay_option`]); the URL patterns; robots.txt unless
/// told otherwise; navigation, footers and ads always cleaned; the timeout
/// in seconds (in milliseconds, at most `u64::MAX`), the retry count and the
/// user agent when given; everything else the default.
pub open spec fn cli_config(o: CliOptions, c: CrawlConfig) -> bool {
    &&& c.mode == o.mode
    &&& c.max_depth == (match o.max_depth {
        Some(d) => d,
        None => mode_max_depth(o.mode),
    })
    &&& c.max_pages == (match o.max_pages {
        Some(p) => p,
        None => mode_max_pages(o.mode),
    })
    &&& c.concurrency == (match o.concurrency {
        Some(n) => n,
        None => mode_concurrency(o.mode),
    })
    &&& c.enable_js == o.js
    &&& match o.output_dir {
        Some(d) => c.output matches OutputMode::Files { output_dir, structure } && output_dir@ == d@ && structure
            == o.structure,
        None => match o.output {
            Some(f) => c.output matches OutputMode::SingleFile { output_path } && output_path@ == f@,
            None => c.output is Memory,
        },
    }
    &&& proxies_of(views(o.proxies@), c.proxies@)
    &&& match o.delay {
        Some(s) => delay_option(s@) == Ok::<DelayStrategy, Seq<char>>(c.delay_strategy),
        None => c.delay_strategy == DelayStrategy::NoDelay,
    }
    &&& views(c.exclude_patterns@) == views(o.exclude_patterns@)
    &&& views(c.include_patterns@) == views(o.include_patterns@)
    &&& c.respect_robots_txt == !o.no_robots
    &&& c.clean_navigation && c.clean_footers && c.clean_ads
    &&& c.timeout_ms == (match o.timeout {
        Some(secs) => if secs * 1000 <= u64::MAX {
            (secs * 1000) as u64
        } else {
            u64::MAX
        },
        None => 30000,
    })
    &&& c.retry_config == (match o.retries {
        Some(r) => RetryConfig { max_retries: r, initial_delay_ms: 500, max_delay_ms: 30000 },
        None => RetryConfig { max_retries: 3, initial_delay_ms: 500, max_delay_ms: 30000 },
    })
    &&& c.user_agent@ == (match o.user_agent {
        Some(u) => u@,
        None => crate::config::default_user_agent(),
    })
}

/// Build the crawl configuration of the options (see [`cli_config`]); a
/// delay option that does not read gives the error
/// `invalid --delay value: '<value>'` and the reason.
pub fn build_config(opts: &CliOptions) -> (res: Result<CrawlConfig, (String, String)>)
    ensures
        match res {
            Ok(c) => cli_config(*opts, c),
            Err((outer, inner)) => opts.delay matches Some(s) && delay_option(s@) is Err && outer@
                == "invalid --delay value: '"@ + s@ + "'"@ && inner@ == delay_option(s@)->Err_0,
        },
{
    let delay_strategy = match &opts.delay {
        Some(s) => match parse_delay(s.as_str()) {
            Ok(d) => d,
            Err(inner) => {
                let mut outer = String::new();
                push_str(&mut outer, "invalid --delay value: '");
                push_str(&mut outer, s.as_str());
                push_str(&mut outer, "'");
                return Err((outer, inner));
            },
        },
        None => DelayStrategy::NoDelay,
    };
    let mut c = CrawlConfig::new();
    c.mode = opts.mode;
    c.max_depth = match opts.max_depth {
        Some(d) => d,
        None => opts.mode.default_max_depth(),
    };
    c.max_pages = match opts.max_pages {
        Some(p) => p,
        None => opts.mode.default_max_pages(),
    };
    c.concurrency = match opts.concurrency {
        Some(n) => n,
        None => opts.mode.default_concurrency(),
    };
    c.enable_js = opts.js;
    c.output = output_mode_of(opts);
    c.proxies = proxy_configs(&opts.proxies);
    c.delay_strategy = delay_strategy;
    c.exclude_patterns = clone_string_vec(&opts.exclude_patterns);
    c.include_patterns = clone_string_vec(&opts.include_patterns);
    c.respect_robots_txt = !opts.no_robots;
    c.clean_navigation = true;
    c.clean_footers = true;
    c.clean_ads = true;
    match opts.timeout {
        Some(secs) => {
            c.timeout_ms = match secs.checked_mul(1000) {
                Some(ms) => ms,
                None => u64::MAX,
            };
        },
        None => {},
    }
    match opts.retries {
        Some(r) => {
            let mut retry = RetryConfig::default();
            retry.max_retries = r;
            c.retry_config = retry;
        },
        None => {},
    }
    match &opts.user_agent {
        Some(u) => {
            c.user_agent = u.clone();
        },
        None => {},
    }
    Ok(c)
}

/// Where the pages go: a directory of files in preference to a single file,
/// else memory.
fn output_mode_of(opts: &CliOptions) -> (res: OutputMode)
    ensures
        match opts.output_dir {
            Some(d) => res matches OutputMode::Files { output_dir, structure } && output_dir@ == d@ && structure
                == opts.structure,
            None => match opts.output {
                Some(f) => res matches OutputMode::SingleFile { output_path } && output_path@ == f@,
                None => res is Memory,
            },
        },
{
    match &opts.output_dir {
        Some(d) => OutputMode::Files { output_dir: d.clone(), structure: opts.structure },
        None => match &opts.output {
            Some(f) => OutputMode::SingleFile { output_path: f.clone() },
            None => OutputMode::Memory,
        },
    }
}

/// How many of the statuses are errors (400 and above).
pub open spec fn error_statuses(s: Seq<u16>) -> nat
    decreases s.len(),
{
    if s.len() == 0 {
        0
    } else {
        error_statuses(s.drop_last()) + if s.last() >= 400 {
            1nat
        } else {
            0nat
        }
    }
}

/// How many crawled pages came back with an error status (400 and above).
pub fn error_page_count(statuses: &Vec<u16>) -> (res: usize)
    ensures
        res == error_statuses(statuses@),
{
    let mut n: usize = 0;
    let mut i: usize = 0;
    while i < statuses.len()
        invariant
            i <= statuses.len(),
            n == error_statuses(statuses@.take(i as int)),
            n <= i,
        decreases statuses.len() - i,
    {
        assert(statuses@.take(i + 1).drop_last() =~= statuses@.take(i as int));
        if statuses[i] >= 400 {
            n = n + 1;
        }
        i = i + 1;
    }
    assert(statuses@.take(statuses.len() as int) =~= statuses@);
    n
}

} // verus!
