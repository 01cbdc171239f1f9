//! Measures against bot detection: a pool of realistic browser user agents,
//! browser-like request headers, and the delay before each request,
//! including an adaptive delay that reacts to the server's responses.

use vstd::prelude::*;

use rand::Rng;

use crate::config::DelayStrategy;
use crate::proxy::random_index;
use crate::text::views;

verus! {

/// The built-in user agents: recent Chrome, Firefox, Safari and Edge on
/// Windows, macOS and Linux.
pub open spec fn ua_pool_spec() -> Seq<Seq<char>> {
    seq![
        "Mozilla/5.0 (Windows NT 10.0; Win64; x64) AppleWebKit/537.36 (KHTML, like Gecko) Chrome/120.0.0.0 Safari/537.36"@,
        "Mozilla/5.0 (Windows NT 10.0; Win64; x64) AppleWebKit/537.36 (KHTML, like Gecko) Chrome/121.0.0.0 Safari/537.36"@,
        "Mozilla/5.0 (Windows NT 10.0; Win64; x64) AppleWebKit/537.36 (KHTML, like Gecko) Chrome/122.0.0.0 Safari/537.36"@,
        "Mozilla/5.0 (Windows NT 10.0; Win64; x64) AppleWebKit/537.36 (KHTML, like Gecko) Chrome/123.0.0.0 Safari/537.36"@,
        "Mozilla/5.0 (Windows NT 10.0; Win64; x64) AppleWebKit/537.36 (KHTML, like Gecko) Chrome/124.0.0.0 Safari/537.36"@,
        "Mozilla/5.0 (Windows NT 10.0; Win64; x64) AppleWebKit/537.36 (KHTML, like Gecko) Chrome/125.0.0.0 Safari/537.36"@,
        "Mozilla/5.0 (Windows NT 10.0; Win64; x64) AppleWebKit/537.36 (KHTML, like Gecko) Chrome/126.0.0.0 Safari/537.36"@,
        "Mozilla/5.0 (Windows NT 10.0; Win64; x64) AppleWebKit/537.36 (KHTML, like Gecko) Chrome/127.0.0.0 Safari/537.36"@,
        "Mozilla/5.0 (Macintosh; Intel Mac OS X 10_15_7) AppleWebKit/537.36 (KHTML, like Gecko) Chrome/120.0.0.0 Safari/537.36"@,
        "Mozilla/5.0 (Macintosh; Intel Mac OS X 10_15_7) AppleWebKit/537.36 (KHTML, like Gecko) Chrome/121.0.0.0 Safari/537.36"@,
        "Mozilla/5.0 (Macintosh; Intel Mac OS X 10_15_7) AppleWebKit/537.36 (KHTML, like Gecko) Chrome/122.0.0.0 Safari/537.36"@,
        "Mozilla/5.0 (Macintosh; Intel Mac OS X 10_15_7) AppleWebKit/537.36 (KHTML, like Gecko) Chrome/123.0.0.0 Safari/537.36"@,
        "Mozilla/5.0 (Macintosh; Intel Mac OS X 10_15_7) AppleWebKit/537.36 (KHTML, like Gecko) Chrome/124.0.0.0 Safari/537.36"@,
        "Mozilla/5.0 (Macintosh; Intel Mac OS X 10_15_7) AppleWebKit/537.36 (KHTML, like Gecko) Chrome/125.0.0.0 Safari/537.36"@,
        "Mozilla/5.0 (X11; Linux x86_64) AppleWebKit/537.36 (KHTML, like Gecko) Chrome/120.0.0.0 Safari/537.36"@,
        "Mozilla/5.0 (X11; Linux x86_64) AppleWebKit/537.36 (KHTML, like Gecko) Chrome/121.0.0.0 Safari/537.36"@,
        "Mozilla/5.0 (X11; Linux x86_64) AppleWebKit/537.36 (KHTML, like Gecko) Chrome/122.0.0.0 Safari/537.36"@,
        "Mozilla/5.0 (X11; Linux x86_64) AppleWebKit/537.36 (KHTML, like Gecko) Chrome/123.0.0.0 Safari/537.36"@,
        "Mozilla/5.0 (X11; Linux x86_64) AppleWebKit/537.36 (KHTML, like Gecko) Chrome/124.0.0.0 Safari/537.36"@,
        "Mozilla/5.0 (X11; Linux x86_64) AppleWebKit/537.36 (KHTML, like Gecko) Chrome/125.0.0.0 Safari/537.36"@,
        "Mozilla/5.0 (Windows NT 10.0; Win64; x64; rv:120.0) Gecko/20100101 Firefox/120.0"@,
        "Mozilla/5.0 (Windows NT 10.0; Win64; x64; rv:121.0) Gecko/20100101 Firefox/121.0"@,
        "Mozilla/5.0 (Windows NT 10.0; Win64; x64; rv:122.0) Gecko/20100101 Firefox/122.0"@,
        "Mozilla/5.0 (Windows NT 10.0; Win64; x64; rv:123.0) Gecko/20100101 Firefox/123.0"@,
        "Mozilla/5.0 (Windows NT 10.0; Win64; x64; rv:124.0) Gecko/20100101 Firefox/124.0"@,
        "Mozilla/5.0 (Windows NT 10.0; Win64; x64; rv:125.0) Gecko/20100101 Firefox/125.0"@,
        "Mozilla/5.0 (Windows NT 10.0; Win64; x64; rv:126.0) Gecko/20100101 Firefox/126.0"@,
        "Mozilla/5.0 (Windows NT 10.0; Win64; x64; rv:127.0) Gecko/20100101 Firefox/127.0"@,
        "Mozilla/5.0 (Macintosh; Intel Mac OS X 10.15; rv:120.0) Gecko/20100101 Firefox/120.0"@,
        "Mozilla/5.0 (Macintosh; Intel Mac OS X 10.15; rv:122.0) Gecko/20100101 Firefox/122.0"@,
        "Mozilla/5.0 (Macintosh; Intel Mac OS X 10.15; rv:124.0) Gecko/20100101 Firefox/124.0"@,
        "Mozilla/5.0 (Macintosh; Intel Mac OS X 10.15; rv:126.0) Gecko/20100101 Firefox/126.0"@,
        "Mozilla/5.0 (X11; Linux x86_64; rv:120.0) Gecko/20100101 Firefox/120.0"@,
        "Mozilla/5.0 (X11; Linux x86_64; rv:122.0) Gecko/20100101 Firefox/122.0"@,
        "Mozilla/5.0 (X11; Linux x86_64; rv:124.0) Gecko/20100101 Firefox/124.0"@,
        "Mozilla/5.0 (X11; Linux x86_64; rv:126.0) Gecko/20100101 Firefox/126.0"@,
        "Mozilla/5.0 (X11; Ubuntu; Linux x86_64; rv:125.0) Gecko/20100101 Firefox/125.0"@,
        "Mozilla/5.0 (Macintosh; Intel Mac OS X 14_0) AppleWebKit/605.1.15 (KHTML, like Gecko) Version/17.0 Safari/605.1.15"@,
        "Mozilla/5.0 (Macintosh; Intel Mac OS X 14_1) AppleWebKit/605.1.15 (KHTML, like Gecko) Version/17.1 Safari/605.1.15"@,
        "Mozilla/5.0 (Macintosh; Intel Mac OS X 14_2) AppleWebKit/605.1.15 (KHTML, like Gecko) Version/17.2 Safari/605.1.15"@,
        "Mozilla/5.0 (Macintosh; Intel Mac OS X 14_3) AppleWebKit/605.1.15 (KHTML, like Gecko) Version/17.3 Safari/605.1.15"@,
        "Mozilla/5.0 (Macintosh; Intel Mac OS X 14_4) AppleWebKit/605.1.15 (KHTML, like Gecko) Version/17.4 Safari/605.1.15"@,
        "Mozilla/5.0 (Macintosh; Intel Mac OS X 14_5) AppleWebKit/605.1.15 (KHTML, like Gecko) Version/17.5 Safari/605.1.15"@,
        "Mozilla/5.0 (Macintosh; Intel Mac OS X 13_6) AppleWebKit/605.1.15 (KHTML, like Gecko) Version/17.0 Safari/605.1.15"@,
        "Mozilla/5.0 (Macintosh; Intel Mac OS X 13_5) AppleWebKit/605.1.15 (KHTML, like Gecko) Version/17.1 Safari/605.1.15"@,
        "Mozilla/5.0 (Windows NT 10.0; Win64; x64) AppleWebKit/537.36 (KHTML, like Gecko) Chrome/120.0.0.0 Safari/537.36 Edg/120.0.0.0"@,
        "Mozilla/5.0 (Windows NT 10.0; Win64; x64) AppleWebKit/537.36 (KHTML, like Gecko) Chrome/121.0.0.0 Safari/537.36 Edg/121.0.0.0"@,
        "Mozilla/5.0 (Windows NT 10.0; Win64; x64) AppleWebKit/537.36 (KHTML, like Gecko) Chrome/122.0.0.0 Safari/537.36 Edg/122.0.0.0"@,
        "Mozilla/5.0 (Windows NT 10.0; Win64; x64) AppleWebKit/537.36 (KHTML, like Gecko) Chrome/123.0.0.0 Safari/537.36 Edg/123.0.0.0"@,
        "Mozilla/5.0 (Windows NT 10.0; Win64; x64) AppleWebKit/537.36 (KHTML, like Gecko) Chrome/124.0.0.0 Safari/537.36 Edg/124.0.0.0"@,
        "Mozilla/5.0 (Windows NT 10.0; Win64; x64) AppleWebKit/537.36 (KHTML, like Gecko) Chrome/125.0.0.0 Safari/537.36 Edg/125.0.0.0"@,
        "Mozilla/5.0 (Macintosh; Intel Mac OS X 10_15_7) AppleWebKit/537.36 (KHTML, like Gecko) Chrome/120.0.0.0 Safari/537.36 Edg/120.0.0.0"@,
        "Mozilla/5.0 (Macintosh; Intel Mac OS X 10_15_7) AppleWebKit/537.36 (KHTML, like Gecko) Chrome/122.0.0.0 Safari/537.36 Edg/122.0.0.0"@,
        "Mozilla/5.0 (Macintosh; Intel Mac OS X 10_15_7) AppleWebKit/537.36 (KHTML, like Gecko) Chrome/124.0.0.0 Safari/537.36 Edg/124.0.0.0"@,
        "Mozilla/5.0 (Windows NT 10.0; Win64; x64) AppleWebKit/537.36 (KHTML, like Gecko) Chrome/128.0.0.0 Safari/537.36"@,
        "Mozilla/5.0 (X11; Linux x86_64) AppleWebKit/537.36 (KHTML, like Gecko) Chrome/120.0.0.0 Safari/537.36 Edg/120.0.0.0"@,
        "Mozilla/5.0 (X11; Linux x86_64) AppleWebKit/537.36 (KHTML, like Gecko) Chrome/122.0.0.0 Safari/537.36 Edg/122.0.0.0"@,
    ]
}

/// The built-in pool of user agents (see [`ua_pool_spec`]).
#[verifier::rlimit(60)]
pub fn build_ua_pool() -> (res: Vec<String>)
    ensures
        views(res@) == ua_pool_spec(),
{
    let v: Vec<String> = vec![
        "Mozilla/5.0 (Windows NT 10.0; Win64; x64) AppleWebKit/537.36 (KHTML, like Gecko) Chrome/120.0.0.0 Safari/537.36".to_owned(),
        "Mozilla/5.0 (Windows NT 10.0; Win64; x64) AppleWebKit/537.36 (KHTML, like Gecko) Chrome/121.0.0.0 Safari/537.36".to_owned(),
        "Mozilla/5.0 (Windows NT 10.0; Win64; x64) AppleWebKit/537.36 (KHTML, like Gecko) Chrome/122.0.0.0 Safari/537.36".to_owned(),
        "Mozilla/5.0 (Windows NT 10.0; Win64; x64) AppleWebKit/537.36 (KHTML, like Gecko) Chrome/123.0.0.0 Safari/537.36".to_owned(),
        "Mozilla/5.0 (Windows NT 10.0; Win64; x64) AppleWebKit/537.36 (KHTML, like Gecko) Chrome/124.0.0.0 Safari/537.36".to_owned(),
        "Mozilla/5.0 (Windows NT 10.0; Win64; x64) AppleWebKit/537.36 (KHTML, like Gecko) Chrome/125.0.0.0 Safari/537.36".to_owned(),
        "Mozilla/5.0 (Windows NT 10.0; Win64; x64) AppleWebKit/537.36 (KHTML, like Gecko) Chrome/126.0.0.0 Safari/537.36".to_owned(),
        "Mozilla/5.0 (Windows NT 10.0; Win64; x64) AppleWebKit/537.36 (KHTML, like Gecko) Chrome/127.0.0.0 Safari/537.36".to_owned(),
        "Mozilla/5.0 (Macintosh; Intel Mac OS X 10_15_7) AppleWebKit/537.36 (KHTML, like Gecko) Chrome/120.0.0.0 Safari/537.36".to_owned(),
        "Mozilla/5.0 (Macintosh; Intel Mac OS X 10_15_7) AppleWebKit/537.36 (KHTML, like Gecko) Chrome/121.0.0.0 Safari/537.36".to_owned(),
        "Mozilla/5.0 (Macintosh; Intel Mac OS X 10_15_7) AppleWebKit/537.36 (KHTML, like Gecko) Chrome/122.0.0.0 Safari/537.36".to_owned(),
        "Mozilla/5.0 (Macintosh; Intel Mac OS X 10_15_7) AppleWebKit/537.36 (KHTML, like Gecko) Chrome/123.0.0.0 Safari/537.36".to_owned(),
        "Mozilla/5.0 (Macintosh; Intel Mac OS X 10_15_7) AppleWebKit/537.36 (KHTML, like Gecko) Chrome/124.0.0.0 Safari/537.36".to_owned(),
        "Mozilla/5.0 (Macintosh; Intel Mac OS X 10_15_7) AppleWebKit/537.36 (KHTML, like Gecko) Chrome/125.0.0.0 Safari/537.36".to_owned(),
        "Mozilla/5.0 (X11; Linux x86_64) AppleWebKit/537.36 (KHTML, like Gecko) Chrome/120.0.0.0 Safari/537.36".to_owned(),
        "Mozilla/5.0 (X11; Linux x86_64) AppleWebKit/537.36 (KHTML, like Gecko) Chrome/121.0.0.0 Safari/537.36".to_owned(),
        "Mozilla/5.0 (X11; Linux x86_64) AppleWebKit/537.36 (KHTML, like Gecko) Chrome/122.0.0.0 Safari/537.36".to_owned(),
        "Mozilla/5.0 (X11; Linux x86_64) AppleWebKit/537.36 (KHTML, like Gecko) Chrome/123.0.0.0 Safari/537.36".to_owned(),
        "Mozilla/5.0 (X11; Linux x86_64) AppleWebKit/537.36 (KHTML, like Gecko) Chrome/124.0.0.0 Safari/537.36".to_owned(),
        "Mozilla/5.0 (X11; Linux x86_64) AppleWebKit/537.36 (KHTML, like Gecko) Chrome/125.0.0.0 Safari/537.36".to_owned(),
        "Mozilla/5.0 (Windows NT 10.0; Win64; x64; rv:120.0) Gecko/20100101 Firefox/120.0".to_owned(),
        "Mozilla/5.0 (Windows NT 10.0; Win64; x64; rv:121.0) Gecko/20100101 Firefox/121.0".to_owned(),
        "Mozilla/5.0 (Windows NT 10.0; Win64; x64; rv:122.0) Gecko/20100101 Firefox/122.0".to_owned(),
        "Mozilla/5.0 (Windows NT 10.0; Win64; x64; rv:123.0) Gecko/20100101 Firefox/123.0".to_owned(),
        "Mozilla/5.0 (Windows NT 10.0; Win64; x64; rv:124.0) Gecko/20100101 Firefox/124.0".to_owned(),
        "Mozilla/5.0 (Windows NT 10.0; Win64; x64; rv:125.0) Gecko/20100101 Firefox/125.0".to_owned(),
        "Mozilla/5.0 (Windows NT 10.0; Win64; x64; rv:126.0) Gecko/20100101 Firefox/126.0".to_owned(),
        "Mozilla/5.0 (Windows NT 10.0; Win64; x64; rv:127.0) Gecko/20100101 Firefox/127.0".to_owned(),
        "Mozilla/5.0 (Macintosh; Intel Mac OS X 10.15; rv:120.0) Gecko/20100101 Firefox/120.0".to_owned(),
        "Mozilla/5.0 (Macintosh; Intel Mac OS X 10.15; rv:122.0) Gecko/20100101 Firefox/122.0".to_owned(),
        "Mozilla/5.0 (Macintosh; Intel Mac OS X 10.15; rv:124.0) Gecko/20100101 Firefox/124.0".to_owned(),
        "Mozilla/5.0 (Macintosh; Intel Mac OS X 10.15; rv:126.0) Gecko/20100101 Firefox/126.0".to_owned(),
        "Mozilla/5.0 (X11; Linux x86_64; rv:120.0) Gecko/20100101 Firefox/120.0".to_owned(),
        "Mozilla/5.0 (X11; Linux x86_64; rv:122.0) Gecko/20100101 Firefox/122.0".to_owned(),
        "Mozilla/5.0 (X11; Linux x86_64; rv:124.0) Gecko/20100101 Firefox/124.0".to_owned(),
        "Mozilla/5.0 (X11; Linux x86_64; rv:126.0) Gecko/20100101 Firefox/126.0".to_owned(),
        "Mozilla/5.0 (X11; Ubuntu; Linux x86_64; rv:125.0) Gecko/20100101 Firefox/125.0".to_owned(),
        "Mozilla/5.0 (Macintosh; Intel Mac OS X 14_0) AppleWebKit/605.1.15 (KHTML, like Gecko) Version/17.0 Safari/605.1.15".to_owned(),
        "Mozilla/5.0 (Macintosh; Intel Mac OS X 14_1) AppleWebKit/605.1.15 (KHTML, like Gecko) Version/17.1 Safari/605.1.15".to_owned(),
        "Mozilla/5.0 (Macintosh; Intel Mac OS X 14_2) AppleWebKit/605.1.15 (KHTML, like Gecko) Version/17.2 Safari/605.1.15".to_owned(),
        "Mozilla/5.0 (Macintosh; Intel Mac OS X 14_3) AppleWebKit/605.1.15 (KHTML, like Gecko) Version/17.3 Safari/605.1.15".to_owned(),
        "Mozilla/5.0 (Macintosh; Intel Mac OS X 14_4) AppleWebKit/605.1.15 (KHTML, like Gecko) Version/17.4 Safari/605.1.15".to_owned(),
        "Mozilla/5.0 (Macintosh; Intel Mac OS X 14_5) AppleWebKit/605.1.15 (KHTML, like Gecko) Version/17.5 Safari/605.1.15".to_owned(),
        "Mozilla/5.0 (Macintosh; Intel Mac OS X 13_6) AppleWebKit/605.1.15 (KHTML, like Gecko) Version/17.0 Safari/605.1.15".to_owned(),
        "Mozilla/5.0 (Macintosh; Intel Mac OS X 13_5) AppleWebKit/605.1.15 (KHTML, like Gecko) Version/17.1 Safari/605.1.15".to_owned(),
        "Mozilla/5.0 (Windows NT 10.0; Win64; x64) AppleWebKit/537.36 (KHTML, like Gecko) Chrome/120.0.0.0 Safari/537.36 Edg/120.0.0.0".to_owned(),
        "Mozilla/5.0 (Windows NT 10.0; Win64; x64) AppleWebKit/537.36 (KHTML, like Gecko) Chrome/121.0.0.0 Safari/537.36 Edg/121.0.0.0".to_owned(),
        "Mozilla/5.0 (Windows NT 10.0; Win64; x64) AppleWebKit/537.36 (KHTML, like Gecko) Chrome/122.0.0.0 Safari/537.36 Edg/122.0.0.0".to_owned(),
        "Mozilla/5.0 (Windows NT 10.0; Win64; x64) AppleWebKit/537.36 (KHTML, like Gecko) Chrome/123.0.0.0 Safari/537.36 Edg/123.0.0.0".to_owned(),
        "Mozilla/5.0 (Windows NT 10.0; Win64; x64) AppleWebKit/537.36 (KHTML, like Gecko) Chrome/124.0.0.0 Safari/537.36 Edg/124.0.0.0".to_owned(),
        "Mozilla/5.0 (Windows NT 10.0; Win64; x64) AppleWebKit/537.36 (KHTML, like Gecko) Chrome/125.0.0.0 Safari/537.36 Edg/125.0.0.0".to_owned(),
        "Mozilla/5.0 (Macintosh; Intel Mac OS X 10_15_7) AppleWebKit/537.36 (KHTML, like Gecko) Chrome/120.0.0.0 Safari/537.36 Edg/120.0.0.0".to_owned(),
        "Mozilla/5.0 (Macintosh; Intel Mac OS X 10_15_7) AppleWebKit/537.36 (KHTML, like Gecko) Chrome/122.0.0.0 Safari/537.36 Edg/122.0.0.0".to_owned(),
        "Mozilla/5.0 (Macintosh; Intel Mac OS X 10_15_7) AppleWebKit/537.36 (KHTML, like Gecko) Chrome/124.0.0.0 Safari/537.36 Edg/124.0.0.0".to_owned(),
        "Mozilla/5.0 (Windows NT 10.0; Win64; x64) AppleWebKit/537.36 (KHTML, like Gecko) Chrome/128.0.0.0 Safari/537.36".to_owned(),
        "Mozilla/5.0 (X11; Linux x86_64) AppleWebKit/537.36 (KHTML, like Gecko) Chrome/120.0.0.0 Safari/537.36 Edg/120.0.0.0".to_owned(),
        "Mozilla/5.0 (X11; Linux x86_64) AppleWebKit/537.36 (KHTML, like Gecko) Chrome/122.0.0.0 Safari/537.36 Edg/122.0.0.0".to_owned(),
    ];
    assert(views(v@) =~= ua_pool_spec());
    v
}


/// A uniformly random integer in `lo..=hi` (`rand::Rng::gen_range` on the
/// thread-local generator). Only the range is stated.
#[verifier::external_body]
fn random_in_range(lo: u64, hi: u64) -> (res: u64)
    requires
        lo <= hi,
    ensures
        lo <= res <= hi,
{
    rand::thread_rng().gen_range(lo..=hi)
}

/// The upper bound of the adaptive delay, in milliseconds.
pub const MAX_ADAPTIVE_DELAY_MS: u64 = 30000;

/// The user agent used when the pool is empty.
pub open spec fn fallback_ua() -> Seq<char> {
    "Mozilla/5.0 (Windows NT 10.0; Win64; x64) AppleWebKit/537.36 (KHTML, like Gecko) Chrome/124.0.0.0 Safari/537.36"@
}

/// The initial delay of a strategy: the adaptive strategy's initial delay,
/// 0 for the others.
pub open spec fn initial_delay(s: DelayStrategy) -> u64 {
    match s {
        DelayStrategy::Adaptive { initial_ms } => initial_ms,
        _ => 0,
    }
}

/// The adaptive delay after a response with `status`: doubled on 429 and
/// 503, raised by half on 500, 502 and 504 (both at least the initial delay
/// and at most 30 s), cut by a tenth on success but not below the initial
/// delay, and unchanged otherwise.
pub open spec fn adapted_delay(current: u64, initial: u64, status: u16) -> u64 {
    let cap = MAX_ADAPTIVE_DELAY_MS;
    if status == 429 || status == 503 {
        let doubled = if current as int * 2 > u64::MAX {
            u64::MAX
        } else {
            (current * 2) as u64
        };
        let raised = if doubled >= initial {
            doubled
        } else {
            initial
        };
        if raised <= cap {
            raised
        } else {
            cap
        }
    } else if status == 500 || status == 502 || status == 504 {
        let increased = if current as int + current as int / 2 > u64::MAX {
            u64::MAX
        } else {
            (current + current / 2) as u64
        };
        let raised = if increased >= initial {
            increased
        } else {
            initial
        };
        if raised <= cap {
            raised
        } else {
            cap
        }
    } else if 200 <= status <= 299 {
        let decayed = (current - current / 10) as u64;
        if decayed >= initial {
            decayed
        } else {
            initial
        }
    } else {
        current
    }
}

/// User-agent rotation, browser-like headers and request delays.
pub struct AntiDetect {
    ua_pool: Vec<String>,
    delay_strategy: DelayStrategy,
    adaptive_delay_ms: u64,
}

/// The state of an [`AntiDetect`]: its user agents, its delay strategy and
/// the current adaptive delay.
pub ghost struct AntiDetectView {
    pub ua_pool: Seq<Seq<char>>,
    pub strategy: DelayStrategy,
    pub adaptive_delay_ms: u64,
}

impl View for AntiDetect {
    type V = AntiDetectView;

    closed spec fn view(&self) -> AntiDetectView {
        AntiDetectView {
            ua_pool: views(self.ua_pool@),
            strategy: self.delay_strategy,
            adaptive_delay_ms: self.adaptive_delay_ms,
        }
    }
}

impl AntiDetect {
    /// The built-in user agents and the given delay strategy; the adaptive
    /// delay starts at the strategy's initial delay.
    pub fn new(delay_strategy: DelayStrategy) -> (res: AntiDetect)
        ensures
            res@.ua_pool == ua_pool_spec(),
            res@.strategy == delay_strategy,
            res@.adaptive_delay_ms == initial_delay(delay_strategy),
    {
        let initial_ms = match delay_strategy {
            DelayStrategy::Adaptive { initial_ms } => initial_ms,
            _ => 0,
        };
        AntiDetect { ua_pool: build_ua_pool(), delay_strategy, adaptive_delay_ms: initial_ms }
    }

    /// A user agent drawn at random from the pool (a fixed Chrome user agent
    /// if the pool is empty).
    pub fn random_ua(&self) -> (res: &str)
        ensures
            self@.ua_pool.len() > 0 ==> self@.ua_pool.contains(res@),
            self@.ua_pool.len() == 0 ==> res@ == fallback_ua(),
    {
        if self.ua_pool.len() == 0 {
            return "Mozilla/5.0 (Windows NT 10.0; Win64; x64) AppleWebKit/537.36 (KHTML, like Gecko) Chrome/124.0.0.0 Safari/537.36";
        }
        let i = random_index(self.ua_pool.len());
        assert(self@.ua_pool[i as int] == self.ua_pool@[i as int]@);
        self.ua_pool[i].as_str()
    }

    /// The delay before the next request, in milliseconds: the fixed delay;
    /// for a random strategy a value drawn from `min..=max` (just `min` when
    /// `max` is not above it); the current adaptive delay; or 0.
    pub fn get_delay(&self) -> (res: u64)
        ensures
            match self@.strategy {
                DelayStrategy::Fixed { delay_ms } => res == delay_ms,
                DelayStrategy::Random { min_ms, max_ms } => if max_ms > min_ms {
                    min_ms <= res <= max_ms
                } else {
                    res == min_ms
                },
                DelayStrategy::Adaptive { initial_ms } => res == self@.adaptive_delay_ms,
                DelayStrategy::NoDelay => res == 0,
            },
    {
        match self.delay_strategy {
            DelayStrategy::Fixed { delay_ms } => delay_ms,
            DelayStrategy::Random { min_ms, max_ms } => {
                if max_ms > min_ms {
                    random_in_range(min_ms, max_ms)
                } else {
                    min_ms
                }
            },
            DelayStrategy::Adaptive { .. } => self.adaptive_delay_ms,
            DelayStrategy::NoDelay => 0,
        }
    }

    /// Record the status of a response; only the adaptive strategy reacts
    /// (see [`adapted_delay`]). The response time is not used.
    pub fn record_response(&mut self, status: u16, elapsed_ms: u64)
        ensures
            final(self)@ == (match old(self)@.strategy {
                DelayStrategy::Adaptive { initial_ms } => AntiDetectView {
                    adaptive_delay_ms: adapted_delay(old(self)@.adaptive_delay_ms, initial_ms, status),
                    ..old(self)@
                },
                _ => old(self)@,
            }),
    {
        let initial_ms = match self.delay_strategy {
            DelayStrategy::Adaptive { initial_ms } => initial_ms,
            _ => return,
        };
        let current = self.adaptive_delay_ms;
        let cap = MAX_ADAPTIVE_DELAY_MS;
        let new_delay = if status == 429 || status == 503 {
            let doubled = if current > u64::MAX / 2 {
                u64::MAX
            } else {
                current * 2
            };
            let raised = if doubled >= initial_ms {
                doubled
            } else {
                initial_ms
            };
            if raised <= cap {
                raised
            } else {
                cap
            }
        } else if status == 500 || status == 502 || status == 504 {
            let half = current / 2;
            let increased = if current > u64::MAX - half {
                u64::MAX
            } else {
                current + half
            };
            let raised = if increased >= initial_ms {
                increased
            } else {
                initial_ms
            };
            if raised <= cap {
                raised
            } else {
                cap
            }
        } else if 200 <= status && status <= 299 {
            let decayed = current - current / 10;
            if decayed >= initial_ms {
                decayed
            } else {
                initial_ms
            }
        } else {
            current
        };
        self.adaptive_delay_ms = new_delay;
    }

    /// Browser-like request headers: a random user agent from the pool, the
    /// usual `Accept`, language, encoding, connection, fetch-metadata, DNT
    /// and platform headers, and about three times in ten a
    /// `Cache-Control: max-age=0`.
    pub fn browser_headers(&self) -> (res: Vec<(String, String)>)
        ensures
            res@.len() == 12 || res@.len() == 13,
            res@[0].0@ == "User-Agent"@,
            self@.ua_pool.len() > 0 ==> self@.ua_pool.contains(res@[0].1@),
            res@.subrange(1, 12).map_values(|p: (String, String)| (p.0@, p.1@)) == fixed_headers(),
            res@.len() == 13 ==> res@[12].0@ == "Cache-Control"@ && res@[12].1@ == "max-age=0"@,
    {
        let ua = self.random_ua().to_owned();
        let mut headers: Vec<(String, String)> = vec![
            ("User-Agent".to_owned(), ua),
            (
                "Accept".to_owned(),
                "text/html,application/xhtml+xml,application/xml;q=0.9,image/avif,image/webp,image/apng,*/*;q=0.8".to_owned(),
            ),
            ("Accept-Language".to_owned(), "en-US,en;q=0.9".to_owned()),
            ("Accept-Encoding".to_owned(), "gzip, deflate, br, zstd".to_owned()),
            ("Connection".to_owned(), "keep-alive".to_owned()),
            ("Upgrade-Insecure-Requests".to_owned(), "1".to_owned()),
            ("Sec-Fetch-Dest".to_owned(), "document".to_owned()),
            ("Sec-Fetch-Mode".to_owned(), "navigate".to_owned()),
            ("Sec-Fetch-Site".to_owned(), "none".to_owned()),
            ("Sec-Fetch-User".to_owned(), "?1".to_owned()),
            ("DNT".to_owned(), "1".to_owned()),
            ("Sec-Ch-Ua-Platform".to_owned(), "\"Windows\"".to_owned()),
        ];
        assert(headers@.subrange(1, 12).map_values(|p: (String, String)| (p.0@, p.1@)) =~= fixed_headers());
        if random_index(10) < 3 {
            headers.push(("Cache-Control".to_owned(), "max-age=0".to_owned()));
            assert(headers@.subrange(1, 12) =~= headers@.subrange(0, 12).subrange(1, 12));
        }
        headers
    }
}

/// The headers after the user agent, in order.
pub open spec fn fixed_headers() -> Seq<(Seq<char>, Seq<char>)> {
    seq![
        ("Accept"@, "text/html,application/xhtml+xml,application/xml;q=0.9,image/avif,image/webp,image/apng,*/*;q=0.8"@),
        ("Accept-Language"@, "en-US,en;q=0.9"@),
        ("Accept-Encoding"@, "gzip, deflate, br, zstd"@),
        ("Connection"@, "keep-alive"@),
        ("Upgrade-Insecure-Requests"@, "1"@),
        ("Sec-Fetch-Dest"@, "document"@),
        ("Sec-Fetch-Mode"@, "navigate"@),
        ("Sec-Fetch-Site"@, "none"@),
        ("Sec-Fetch-User"@, "?1"@),
        ("DNT"@, "1"@),
        ("Sec-Ch-Ua-Platform"@, "\"Windows\""@),
    ]
}

/// The adaptive delay stays between the initial delay and 30 s once it is
/// there, whatever the responses.
pub proof fn lemma_adaptive_delay_bounded(current: u64, initial: u64, status: u16)
    requires
        initial <= MAX_ADAPTIVE_DELAY_MS,
        initial <= current <= MAX_ADAPTIVE_DELAY_MS,
    ensures
        initial <= adapted_delay(current, initial, status) <= MAX_ADAPTIVE_DELAY_MS,
{
}

/// A rate-limit response never lowers the delay, and a success never
/// raises it.
pub proof fn lemma_adaptive_delay_direction(current: u64, initial: u64, status: u16)
    requires
        initial <= current <= MAX_ADAPTIVE_DELAY_MS,
    ensures
        (status == 429 || status == 503) ==> adapted_delay(current, initial, status) >= current,
        200 <= status <= 299 ==> adapted_delay(current, initial, status) <= current,
{
}

} // verus!
