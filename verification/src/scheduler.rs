//! The crawl frontier: a priority queue of pending tasks with URL
//! deduplication, depth and page limits, scan-mode filtering (Lite follows
//! nothing, Full stays on the seed's host, Deep follows everything) and a
//! per-domain delay between requests.
//!
//! Times are whole milliseconds on the scheduler's own monotonic clock. The
//! `*_at` methods take the time as an argument; the others read the clock.

use vstd::prelude::*;

use std::time::{Duration, Instant};

use dashmap::{DashMap, DashSet};

use crate::config::{CrawlConfig, DelayStrategy, ScanMode};
use crate::text::{eq_str, to_lowercase, unicode_lowercase, views};
use crate::utils::{
    Url, UrlView, is_same_domain, normalize_url, normalized, same_domain,
};

verus! {

// ---------------------------------------------------------------------------
// Priorities, sources, tasks, statistics
// ---------------------------------------------------------------------------

/// Priority of a crawl task; a higher priority is dequeued first.
#[derive(Debug, Clone, Copy, PartialEq, Eq, PartialOrd, Ord, Hash, Structural)]
pub enum Priority {
    Low,
    Normal,
    High,
    Critical,
}

/// The rank of a priority: `Low` 0 up to `Critical` 3.
pub open spec fn rank(p: Priority) -> nat {
    match p {
        Priority::Low => 0,
        Priority::Normal => 1,
        Priority::High => 2,
        Priority::Critical => 3,
    }
}

impl Priority {
    /// The rank of the priority (`Low` 0, `Normal` 1, `High` 2, `Critical` 3).
    pub fn level(self) -> (res: u8)
        ensures
            res == rank(self),
    {
        match self {
            Priority::Low => 0,
            Priority::Normal => 1,
            Priority::High => 2,
            Priority::Critical => 3,
        }
    }
}

/// How a URL was discovered.
#[derive(Debug, Clone, Copy, PartialEq, Eq, Structural)]
pub enum TaskSource {
    /// The initial URL given by the user.
    Seed,
    /// Found on an internal page.
    InternalLink,
    /// Found as an external link.
    ExternalLink,
    /// Found in a sitemap.
    Sitemap,
    /// Found in an RSS or Atom feed.
    Feed,
}

/// One pending crawl task.
#[derive(Debug, Clone)]
pub struct CrawlTask {
    pub url: Url,
    pub depth: u32,
    pub priority: Priority,
    pub source: TaskSource,
    pub requires_js: bool,
}

/// A crawl task with its URL as a view.
pub ghost struct TaskView {
    pub url: UrlView,
    pub depth: u32,
    pub priority: Priority,
    pub source: TaskSource,
    pub requires_js: bool,
}

impl View for CrawlTask {
    type V = TaskView;

    open spec fn view(&self) -> TaskView {
        TaskView {
            url: self.url@,
            depth: self.depth,
            priority: self.priority,
            source: self.source,
            requires_js: self.requires_js,
        }
    }
}

/// The views of a list of tasks.
pub open spec fn tasks_view(v: Seq<CrawlTask>) -> Seq<TaskView> {
    v.map_values(|t: CrawlTask| t@)
}

/// Counters of the crawl's progress.
#[derive(Debug, Clone, Copy)]
pub struct CrawlStats {
    pub total_discovered: usize,
    pub total_crawled: usize,
    pub total_errors: usize,
    pub total_skipped: usize,
}

/// A copy of the counters at one moment.
#[derive(Debug, Clone, Copy)]
pub struct CrawlStatsSnapshot {
    pub total_discovered: usize,
    pub total_crawled: usize,
    pub total_errors: usize,
    pub total_skipped: usize,
}

impl CrawlStats {
    /// A snapshot of the current counters.
    pub fn snapshot(&self) -> (res: CrawlStatsSnapshot)
        ensures
            res.total_discovered == self.total_discovered,
            res.total_crawled == self.total_crawled,
            res.total_errors == self.total_errors,
            res.total_skipped == self.total_skipped,
    {
        CrawlStatsSnapshot {
            total_discovered: self.total_discovered,
            total_crawled: self.total_crawled,
            total_errors: self.total_errors,
            total_skipped: self.total_skipped,
        }
    }
}

impl Default for CrawlStats {
    fn default() -> (res: CrawlStats)
        ensures
            res.total_discovered == 0,
            res.total_crawled == 0,
            res.total_errors == 0,
            res.total_skipped == 0,
    {
        CrawlStats { total_discovered: 0, total_crawled: 0, total_errors: 0, total_skipped: 0 }
    }
}

/// A counter after one increment; the counters wrap around at `usize::MAX`.
pub open spec fn bumped(x: usize) -> usize {
    if x == usize::MAX {
        0
    } else {
        (x + 1) as usize
    }
}

fn bump(x: usize) -> (res: usize)
    ensures
        res == bumped(x),
{
    if x == usize::MAX {
        0
    } else {
        x + 1
    }
}

// ---------------------------------------------------------------------------
// The model
// ---------------------------------------------------------------------------

/// The abstract state of a scheduler.
pub ghost struct SchedulerView {
    /// Pending tasks, in the order they were queued.
    pub frontier: Seq<TaskView>,
    /// Normalized URLs already discovered.
    pub visited: Set<Seq<char>>,
    /// Normalized URLs handed out and not yet completed or failed.
    pub in_progress: Set<Seq<char>>,
    /// How many tasks were handed out so far.
    pub handed: nat,
    /// Time of the last completed request per lowercased host.
    pub last_access: Map<Seq<char>, u64>,
    pub discovered: usize,
    pub crawled: usize,
    pub errors: usize,
    pub skipped: usize,
    pub max_pages: usize,
    pub max_depth: u32,
    pub mode: ScanMode,
    /// Minimum time between two requests to one host.
    pub delay_ms: u64,
    pub remove_www: bool,
    pub done: bool,
    pub seed: Option<UrlView>,
}

/// The per-host delay a delay strategy implies: the fixed delay, the lower
/// bound of a random delay, the initial adaptive delay, or none.
pub open spec fn strategy_delay(s: DelayStrategy) -> u64 {
    match s {
        DelayStrategy::Fixed { delay_ms } => delay_ms,
        DelayStrategy::Random { min_ms, max_ms } => min_ms,
        DelayStrategy::Adaptive { initial_ms } => initial_ms,
        DelayStrategy::NoDelay => 0,
    }
}

/// The priority of a newly found URL: seeds, sitemap and feed entries are
/// critical; internal links are high at depth 0 or 1 and normal deeper;
/// external links are low, or normal when they turn out to be internal.
pub open spec fn priority_for(source: TaskSource, depth: u32, is_internal: bool) -> Priority {
    match source {
        TaskSource::Seed => Priority::Critical,
        TaskSource::Sitemap => Priority::Critical,
        TaskSource::Feed => Priority::Critical,
        TaskSource::InternalLink => if depth <= 1 {
            Priority::High
        } else {
            Priority::Normal
        },
        TaskSource::ExternalLink => if is_internal {
            Priority::Normal
        } else {
            Priority::Low
        },
    }
}

/// The host a task's rate limit is kept under: its lowercased host, or
/// `unknown`.
pub open spec fn host_key(u: UrlView) -> Seq<char> {
    unicode_lowercase(
        match u.host {
            Some(h) => h,
            None => "unknown"@,
        },
    )
}

/// A host was requested less than the delay ago.
pub open spec fn rate_limited(v: SchedulerView, host: Seq<char>, now: u64) -> bool {
    &&& v.delay_ms > 0
    &&& v.last_access.dom().contains(host)
    &&& now < v.last_access[host] + v.delay_ms
}

/// The task at `i` may be handed out at time `now`.
pub open spec fn eligible(v: SchedulerView, i: int, now: u64) -> bool {
    0 <= i < v.frontier.len() && !rate_limited(v, host_key(v.frontier[i].url), now)
}

/// The task at `i` is the one to hand out: eligible, of the highest priority
/// among the eligible tasks, and the earliest queued among those.
pub open spec fn is_next(v: SchedulerView, i: int, now: u64) -> bool {
    &&& eligible(v, i, now)
    &&& forall|j: int| #[trigger] eligible(v, j, now) ==> rank(v.frontier[j].priority) <= rank(
        v.frontier[i].priority,
    )
    &&& forall|j: int|
        0 <= j < i && #[trigger] eligible(v, j, now) ==> rank(v.frontier[j].priority) < rank(
            v.frontier[i].priority,
        )
}

/// What a URL at `depth` found by `source` does to the state, and whether
/// it is queued.
pub open spec fn enqueue(v: SchedulerView, url: UrlView, depth: u32, source: TaskSource, seed: UrlView) -> (
    SchedulerView,
    bool,
) {
    let skip = SchedulerView { skipped: bumped(v.skipped), ..v };
    let internal = same_domain(url, seed);
    let n = normalized(url, v.remove_www);
    if depth > v.max_depth {
        (skip, false)
    } else if v.discovered >= v.max_pages {
        (skip, false)
    } else if v.mode == ScanMode::Lite {
        (v, false)
    } else if v.mode == ScanMode::Full && !internal {
        (skip, false)
    } else if v.visited.contains(n) || v.in_progress.contains(n) {
        (v, false)
    } else {
        let task = TaskView {
            url,
            depth,
            priority: priority_for(source, depth, internal),
            source,
            requires_js: false,
        };
        (
            SchedulerView {
                visited: v.visited.insert(n),
                discovered: bumped(v.discovered),
                frontier: v.frontier.push(task),
                ..v
            },
            true,
        )
    }
}

/// The state after offering each URL in turn.
pub open spec fn enqueue_all(v: SchedulerView, urls: Seq<UrlView>, depth: u32, source: TaskSource, seed: UrlView) -> SchedulerView
    decreases urls.len(),
{
    if urls.len() == 0 {
        v
    } else {
        enqueue(enqueue_all(v, urls.drop_last(), depth, source, seed), urls.last(), depth, source, seed).0
    }
}

/// The state after the seed `url` is added: it is remembered, visited,
/// counted as discovered and queued at depth 0 with critical priority.
pub open spec fn seeded(v: SchedulerView, url: UrlView) -> SchedulerView {
    SchedulerView {
        seed: Some(url),
        visited: v.visited.insert(normalized(url, v.remove_www)),
        discovered: bumped(v.discovered),
        frontier: v.frontier.push(
            TaskView { url, depth: 0, priority: Priority::Critical, source: TaskSource::Seed, requires_js: false },
        ),
        ..v
    }
}

/// The state after `url` was crawled at time `now`: it is no longer in
/// progress, it stays visited, its host's last request time becomes `now`,
/// and the crawled count goes up.
pub open spec fn completed_at(v: SchedulerView, url: UrlView, now: u64) -> SchedulerView {
    SchedulerView {
        in_progress: v.in_progress.remove(normalized(url, v.remove_www)),
        visited: v.visited.insert(normalized(url, v.remove_www)),
        last_access: v.last_access.insert(host_key(url), now),
        crawled: bumped(v.crawled),
        ..v
    }
}

/// Whether a URL would be accepted now (no state is changed).
pub open spec fn would_crawl(v: SchedulerView, url: UrlView) -> bool {
    let n = normalized(url, v.remove_www);
    &&& !v.visited.contains(n)
    &&& !v.in_progress.contains(n)
    &&& v.discovered < v.max_pages
    &&& v.seed is Some
    &&& v.mode != ScanMode::Lite
    &&& (v.mode == ScanMode::Full ==> same_domain(url, v.seed.unwrap()))
}

// ---------------------------------------------------------------------------
// Sets of strings and the access table
// ---------------------------------------------------------------------------

#[verifier::external_type_specification]
#[verifier::external_body]
#[verifier::reject_recursive_types(K)]
#[verifier::reject_recursive_types(S)]
pub struct ExDashSet<K, S>(DashSet<K, S>);

#[verifier::external_type_specification]
#[verifier::external_body]
#[verifier::reject_recursive_types(K)]
#[verifier::reject_recursive_types(V)]
#[verifier::reject_recursive_types(S)]
pub struct ExDashMap<K, V, S>(DashMap<K, V, S>);

/// Per host, the time of its last request.
pub type AccessTimes = DashMap<String, u64>;

/// The strings a concurrent set holds.
pub uninterp spec fn set_items(s: DashSet<String>) -> Set<Seq<char>>;

/// The entries a concurrent map from host to time holds.
pub uninterp spec fn map_items(m: AccessTimes) -> Map<Seq<char>, u64>;

/// `DashSet::new`: an empty set.
#[verifier::external_body]
fn new_string_set() -> (res: DashSet<String>)
    ensures
        set_items(res) == Set::<Seq<char>>::empty(),
{
    DashSet::new()
}

/// `DashMap::new`: an empty map.
#[verifier::external_body]
fn new_access_map() -> (res: AccessTimes)
    ensures
        map_items(res).dom() == Set::<Seq<char>>::empty(),
{
    DashMap::new()
}

/// `DashSet::contains`: whether `s` is in the set.
#[verifier::external_body]
fn set_contains(v: &DashSet<String>, s: &str) -> (res: bool)
    ensures
        res == set_items(*v).contains(s@),
{
    v.contains(s)
}

/// `DashSet::insert`: add `s` to the set.
#[verifier::external_body]
fn set_insert(v: &mut DashSet<String>, s: String)
    ensures
        set_items(*final(v)) == set_items(*old(v)).insert(s@),
{
    v.insert(s);
}

/// `DashSet::remove`: take `s` out of the set.
#[verifier::external_body]
fn set_remove(v: &mut DashSet<String>, s: &str)
    ensures
        set_items(*final(v)) == set_items(*old(v)).remove(s@),
{
    v.remove(s);
}

/// `DashSet::is_empty`: whether the set holds nothing.
#[verifier::external_body]
fn set_is_empty(v: &DashSet<String>) -> (res: bool)
    ensures
        res == (set_items(*v) == Set::<Seq<char>>::empty()),
{
    v.is_empty()
}

/// `DashMap::insert`: record a request to `host` at `now`, replacing an
/// earlier time.
#[verifier::external_body]
fn record_access(v: &mut AccessTimes, host: String, now: u64)
    ensures
        map_items(*final(v)) == map_items(*old(v)).insert(host@, now),
{
    v.insert(host, now);
}

/// `DashMap::get`: the time of the last request to `host`, if any.
#[verifier::external_body]
fn access_of(v: &AccessTimes, host: &str) -> (res: Option<u64>)
    ensures
        match res {
            Some(t) => map_items(*v).dom().contains(host@) && map_items(*v)[host@] == t,
            None => !map_items(*v).dom().contains(host@),
        },
{
    v.get(host).map(|r| *r.value())
}

// ---------------------------------------------------------------------------
// The clock
// ---------------------------------------------------------------------------

#[verifier::external_type_specification]
#[verifier::external_body]
pub struct ExInstant(Instant);

/// `Instant::now`: a reading of the monotonic clock. Nothing is stated of it.
#[verifier::external_body]
fn clock_start() -> (res: Instant) {
    Instant::now()
}

/// `Instant::elapsed`: the time since `start`. Nothing is stated of it.
#[verifier::external_body]
fn elapsed_since(start: &Instant) -> (res: Duration) {
    start.elapsed()
}

/// `Duration::as_millis`: whole milliseconds of `d`. Nothing is stated of it.
#[verifier::external_body]
fn duration_millis(d: &Duration) -> (res: u128) {
    d.as_millis()
}

// ---------------------------------------------------------------------------
// The scheduler
// ---------------------------------------------------------------------------

/// What handing out the next task at time `now` does: either no task is
/// eligible and nothing changes, or the next task (see [`is_next`]) leaves
/// the frontier and its normalized URL becomes in progress.
pub open spec fn handed_out(old: SchedulerView, now: u64, res: Option<TaskView>, new: SchedulerView) -> bool {
    match res {
        None => (forall|i: int| !#[trigger] eligible(old, i, now)) && new == old,
        Some(t) => exists|i: int|
            #[trigger] is_next(old, i, now) && t == old.frontier[i] && new == SchedulerView {
                frontier: old.frontier.remove(i),
                in_progress: old.in_progress.insert(normalized(t.url, old.remove_www)),
                handed: old.handed + 1,
                ..old
            },
    }
}

/// The crawl frontier with deduplication, limits and per-host delays.
pub struct Scheduler {
    frontier: Vec<CrawlTask>,
    visited: DashSet<String>,
    in_progress: DashSet<String>,
    access: AccessTimes,
    stats: CrawlStats,
    max_pages: usize,
    max_depth: u32,
    mode: ScanMode,
    delay_ms: u64,
    remove_www: bool,
    done: bool,
    seed_url: Option<Url>,
    clock: Instant,
    handed: Ghost<nat>,
}

/// The view of an optional task.
pub open spec fn opt_task_view(o: Option<CrawlTask>) -> Option<TaskView> {
    match o {
        Some(t) => Some(t@),
        None => None,
    }
}

/// The view of an optional URL.
pub open spec fn opt_url_view(o: Option<Url>) -> Option<UrlView> {
    match o {
        Some(u) => Some(u@),
        None => None,
    }
}

impl View for Scheduler {
    type V = SchedulerView;

    closed spec fn view(&self) -> SchedulerView {
        SchedulerView {
            frontier: tasks_view(self.frontier@),
            visited: set_items(self.visited),
            in_progress: set_items(self.in_progress),
            handed: self.handed@,
            last_access: map_items(self.access),
            discovered: self.stats.total_discovered,
            crawled: self.stats.total_crawled,
            errors: self.stats.total_errors,
            skipped: self.stats.total_skipped,
            max_pages: self.max_pages,
            max_depth: self.max_depth,
            mode: self.mode,
            delay_ms: self.delay_ms,
            remove_www: self.remove_www,
            done: self.done,
            seed: opt_url_view(self.seed_url),
        }
    }
}

/// The host a URL's rate limit is kept under (see [`host_key`]).
fn host_key_exec(url: &Url) -> (res: String)
    ensures
        res@ == host_key(url@),
{
    match url.host_str() {
        Some(h) => to_lowercase(h),
        None => to_lowercase("unknown"),
    }
}

impl Scheduler {
    /// A scheduler for `config` in scan mode `mode`: empty frontier, the
    /// page and depth limits of the configuration, and the per-host delay of
    /// its delay strategy.
    pub fn new(config: &CrawlConfig, mode: ScanMode) -> (res: Scheduler)
        ensures
            res@.frontier.len() == 0,
            res@.visited == Set::<Seq<char>>::empty(),
            res@.in_progress == Set::<Seq<char>>::empty(),
            res@.handed == 0,
            res@.last_access == Map::<Seq<char>, u64>::empty(),
            res@.discovered == 0,
            res@.crawled == 0,
            res@.errors == 0,
            res@.skipped == 0,
            res@.max_pages == config.max_pages,
            res@.max_depth == config.max_depth as u32,
            res@.mode == mode,
            res@.delay_ms == strategy_delay(config.delay_strategy),
            res@.remove_www,
            !res@.done,
            res@.seed is None,
    {
        let delay_ms = match config.delay_strategy {
            DelayStrategy::Fixed { delay_ms } => delay_ms,
            DelayStrategy::Random { min_ms, max_ms } => min_ms,
            DelayStrategy::Adaptive { initial_ms } => initial_ms,
            DelayStrategy::NoDelay => 0,
        };
        let res = Scheduler {
            frontier: Vec::new(),
            visited: new_string_set(),
            in_progress: new_string_set(),
            access: new_access_map(),
            stats: CrawlStats { total_discovered: 0, total_crawled: 0, total_errors: 0, total_skipped: 0 },
            max_pages: config.max_pages,
            max_depth: config.max_depth as u32,
            mode,
            delay_ms,
            remove_www: true,
            done: false,
            seed_url: None,
            clock: clock_start(),
            handed: Ghost(0),
        };
        res
    }

    /// Milliseconds since the scheduler was made.
    fn now_ms(&self) -> u64 {
        let ms = duration_millis(&elapsed_since(&self.clock));
        if ms > 18446744073709551615u128 {
            u64::MAX
        } else {
            ms as u64
        }
    }

    /// Queue the seed URL with critical priority, remember it for the
    /// same-host tests, and count it as discovered.
    pub fn add_seed(&mut self, url: Url)
        ensures
            final(self)@ == seeded(old(self)@, url@),
    {
        let normalized_url = normalize_url(&url, self.remove_www);
        self.seed_url = Some(url.clone());
        set_insert(&mut self.visited, normalized_url);
        self.stats.total_discovered = bump(self.stats.total_discovered);
        let task = CrawlTask {
            url,
            depth: 0,
            priority: Priority::Critical,
            source: TaskSource::Seed,
            requires_js: false,
        };
        let ghost before = self.frontier@;
        self.frontier.push(task);
        assert(tasks_view(self.frontier@) =~= tasks_view(before).push(task@));
    }

    /// The priority of a newly found URL (see [`priority_for`]).
    fn compute_priority(source: &TaskSource, depth: u32, is_internal: bool) -> (res: Priority)
        ensures
            res == priority_for(*source, depth, is_internal),
    {
        match source {
            TaskSource::Seed => Priority::Critical,
            TaskSource::Sitemap | TaskSource::Feed => Priority::Critical,
            TaskSource::InternalLink => {
                if depth <= 1 {
                    Priority::High
                } else {
                    Priority::Normal
                }
            },
            TaskSource::ExternalLink => {
                if is_internal {
                    Priority::Normal
                } else {
                    Priority::Low
                }
            },
        }
    }

    /// Offer one URL (see [`enqueue`]); `true` when it was queued.
    fn try_enqueue(&mut self, url: Url, depth: u32, source: TaskSource, seed: &Url) -> (res: bool)
        ensures
            (final(self)@, res) == enqueue(old(self)@, url@, depth, source, seed@),
    {
        if depth > self.max_depth {
            self.stats.total_skipped = bump(self.stats.total_skipped);
            return false;
        }
        if self.stats.total_discovered >= self.max_pages {
            self.stats.total_skipped = bump(self.stats.total_skipped);
            return false;
        }
        let is_internal = is_same_domain(&url, seed);
        match self.mode {
            ScanMode::Lite => {
                return false;
            },
            ScanMode::Full => {
                if !is_internal {
                    self.stats.total_skipped = bump(self.stats.total_skipped);
                    return false;
                }
            },
            ScanMode::Deep => {},
        }
        let normalized_url = normalize_url(&url, self.remove_www);
        if set_contains(&self.visited, normalized_url.as_str()) || set_contains(
            &self.in_progress,
            normalized_url.as_str(),
        ) {
            return false;
        }
        set_insert(&mut self.visited, normalized_url);
        self.stats.total_discovered = bump(self.stats.total_discovered);
        let priority = Self::compute_priority(&source, depth, is_internal);
        let task = CrawlTask { url, depth, priority, source, requires_js: false };
        let ghost before = self.frontier@;
        self.frontier.push(task);
        assert(tasks_view(self.frontier@) =~= tasks_view(before).push(task@));
        true
    }

    /// Offer discovered URLs found at `depth`. In Lite mode, or before a seed
    /// was added, nothing happens; otherwise each URL is offered in turn
    /// (see [`enqueue`]).
    pub fn add_urls(&mut self, urls: Vec<Url>, depth: u32, source: TaskSource)
        ensures
            old(self)@.mode == ScanMode::Lite || old(self)@.seed is None ==> final(self)@ == old(self)@,
            old(self)@.mode != ScanMode::Lite && old(self)@.seed is Some ==> final(self)@ == enqueue_all(
                old(self)@,
                urls@.map_values(|u: Url| u@),
                depth,
                source,
                old(self)@.seed.unwrap(),
            ),
    {
        if self.mode == ScanMode::Lite {
            return;
        }
        let seed = match &self.seed_url {
            Some(s) => s.clone(),
            None => return,
        };
        let ghost start = self@;
        let ghost uv = urls@.map_values(|u: Url| u@);
        let mut i: usize = 0;
        while i < urls.len()
            invariant
                i <= urls.len(),
                uv == urls@.map_values(|u: Url| u@),
                seed@ == start.seed.unwrap(),
                self@ == enqueue_all(start, uv.subrange(0, i as int), depth, source, seed@),
            decreases urls.len() - i,
        {
            let u = urls[i].clone();
            assert(uv.subrange(0, i + 1).drop_last() =~= uv.subrange(0, i as int));
            assert(uv.subrange(0, i + 1).last() == u@);
            self.try_enqueue(u, depth, source, &seed);
            i = i + 1;
        }
        assert(uv.subrange(0, uv.len() as int) =~= uv);
    }

    /// Whether `host` was requested less than the delay before `now`.
    fn is_rate_limited_at(&self, host: &str, now: u64) -> (res: bool)
        ensures
            res == rate_limited(self@, host@, now),
    {
        if self.delay_ms == 0 {
            return false;
        }
        match access_of(&self.access, host) {
            Some(t) => match t.checked_add(self.delay_ms) {
                Some(until) => now < until,
                None => true,
            },
            None => false,
        }
    }

    /// Hand out the next task at time `now` (see [`handed_out`]): of the
    /// tasks whose host is not within its delay, the highest priority one,
    /// the earliest queued among equals; its URL becomes in progress.
    pub fn next_task_at(&mut self, now: u64) -> (res: Option<CrawlTask>)
        ensures
            handed_out(
                old(self)@,
                now,
                opt_task_view(res),
                final(self)@,
            ),
    {
        let ghost v = self@;
        let n = self.frontier.len();
        let mut best: Option<usize> = None;
        let mut i: usize = 0;
        while i < n
            invariant
                i <= n,
                n == self.frontier.len(),
                v == self@,
                match best {
                    None => forall|j: int| 0 <= j < i ==> !#[trigger] eligible(v, j, now),
                    Some(b) => {
                        &&& b < i
                        &&& eligible(v, b as int, now)
                        &&& forall|j: int|
                            0 <= j < i && #[trigger] eligible(v, j, now) ==> rank(v.frontier[j].priority)
                                <= rank(v.frontier[b as int].priority)
                        &&& forall|j: int|
                            0 <= j < b && #[trigger] eligible(v, j, now) ==> rank(v.frontier[j].priority)
                                < rank(v.frontier[b as int].priority)
                    },
                },
            decreases n - i,
        {
            let host = host_key_exec(&self.frontier[i].url);
            assert(v.frontier[i as int] == self.frontier@[i as int]@);
            if !self.is_rate_limited_at(host.as_str(), now) {
                assert(eligible(v, i as int, now));
                match best {
                    None => {
                        best = Some(i);
                    },
                    Some(b) => {
                        assert(v.frontier[b as int] == self.frontier@[b as int]@);
                        if self.frontier[i].priority.level() > self.frontier[b].priority.level() {
                            best = Some(i);
                        }
                    },
                }
            } else {
                assert(!eligible(v, i as int, now));
            }
            i = i + 1;
        }
        match best {
            None => {
                assert forall|j: int| !#[trigger] eligible(v, j, now) by {
                    if 0 <= j < n {
                    }
                }
                None
            },
            Some(b) => {
                assert(is_next(v, b as int, now)) by {
                    assert forall|j: int| #[trigger] eligible(v, j, now) implies rank(v.frontier[j].priority)
                        <= rank(v.frontier[b as int].priority) by {
                        assert(0 <= j < n);
                    }
                }
                let ghost before = self.frontier@;
                let task = self.frontier.remove(b);
                assert(tasks_view(self.frontier@) =~= tasks_view(before).remove(b as int));
                let normalized_url = normalize_url(&task.url, self.remove_www);
                set_insert(&mut self.in_progress, normalized_url);
                assert(task@ == v.frontier[b as int]);
                self.handed = Ghost(self.handed@ + 1);
                assert(self@ == (SchedulerView {
                    frontier: v.frontier.remove(b as int),
                    in_progress: v.in_progress.insert(normalized(task@.url, v.remove_www)),
                    handed: v.handed + 1,
                    ..v
                }));
                Some(task)
            },
        }
    }

    /// Hand out the next task now, by the scheduler's clock (see
    /// [`handed_out`]).
    pub fn next_task(&mut self) -> (res: Option<CrawlTask>)
        ensures
            exists|now: u64|
                #[trigger] handed_out(
                    old(self)@,
                    now,
                    opt_task_view(res),
                    final(self)@,
                ),
    {
        let now = self.now_ms();
        self.next_task_at(now)
    }

    /// Record that `url` was crawled at time `now` (see [`completed_at`]).
    pub fn mark_completed_at(&mut self, url: &Url, now: u64)
        ensures
            final(self)@ == completed_at(old(self)@, url@, now),
    {
        let normalized_url = normalize_url(url, self.remove_www);
        set_remove(&mut self.in_progress, normalized_url.as_str());
        set_insert(&mut self.visited, normalized_url);
        let host = host_key_exec(url);
        record_access(&mut self.access, host, now);
        self.stats.total_crawled = bump(self.stats.total_crawled);
    }

    /// Record that `url` was crawled, at the current time of the scheduler's
    /// clock (see [`completed_at`]).
    pub fn mark_completed(&mut self, url: &Url)
        ensures
            exists|now: u64| final(self)@ == #[trigger] completed_at(old(self)@, url@, now),
    {
        let now = self.now_ms();
        self.mark_completed_at(url, now);
    }

    /// Record that `url` failed: it is no longer in progress, it stays
    /// visited (it will not be retried), and the error count goes up.
    pub fn mark_failed(&mut self, url: &Url)
        ensures
            final(self)@ == (SchedulerView {
                in_progress: old(self)@.in_progress.remove(normalized(url@, old(self)@.remove_www)),
                visited: old(self)@.visited.insert(normalized(url@, old(self)@.remove_www)),
                errors: bumped(old(self)@.errors),
                ..old(self)@
            }),
    {
        let normalized_url = normalize_url(url, self.remove_www);
        set_remove(&mut self.in_progress, normalized_url.as_str());
        set_insert(&mut self.visited, normalized_url);
        self.stats.total_errors = bump(self.stats.total_errors);
    }

    /// The crawl is over: marked done, or nothing pending and nothing in
    /// progress.
    pub fn is_done(&self) -> (res: bool)
        ensures
            res == (self@.done || (self@.frontier.len() == 0 && self@.in_progress
                == Set::<Seq<char>>::empty())),
    {
        if self.done {
            return true;
        }
        let empty = set_is_empty(&self.in_progress);
        self.frontier.len() == 0 && empty
    }

    /// The number of pending tasks.
    pub fn pending_count(&self) -> (res: usize)
        ensures
            res == self@.frontier.len(),
    {
        self.frontier.len()
    }

    /// Whether `url` would be accepted now (see [`would_crawl`]); nothing
    /// changes.
    pub fn should_crawl(&self, url: &Url) -> (res: bool)
        ensures
            res == would_crawl(self@, url@),
    {
        let normalized_url = normalize_url(url, self.remove_www);
        if set_contains(&self.visited, normalized_url.as_str()) || set_contains(
            &self.in_progress,
            normalized_url.as_str(),
        ) {
            return false;
        }
        if self.stats.total_discovered >= self.max_pages {
            return false;
        }
        match &self.seed_url {
            Some(seed) => {
                let is_internal = is_same_domain(url, seed);
                match self.mode {
                    ScanMode::Lite => false,
                    ScanMode::Full => is_internal,
                    ScanMode::Deep => true,
                }
            },
            None => false,
        }
    }

    /// Mark the crawl as done (for example on cancellation).
    pub fn set_done(&mut self)
        ensures
            final(self)@ == (SchedulerView { done: true, ..old(self)@ }),
    {
        self.done = true;
    }

    /// A snapshot of the counters.
    pub fn stats(&self) -> (res: CrawlStatsSnapshot)
        ensures
            res.total_discovered == self@.discovered,
            res.total_crawled == self@.crawled,
            res.total_errors == self@.errors,
            res.total_skipped == self@.skipped,
    {
        self.stats.snapshot()
    }
}


// ---------------------------------------------------------------------------
// Laws
// ---------------------------------------------------------------------------

/// A URL offered twice is queued at most once: the second offer of a URL
/// whose first offer was accepted is refused.
pub proof fn lemma_no_duplicate_enqueue(
    v: SchedulerView,
    url: UrlView,
    depth: u32,
    source: TaskSource,
    seed: UrlView,
)
    requires
        enqueue(v, url, depth, source, seed).1,
    ensures
        !enqueue(enqueue(v, url, depth, source, seed).0, url, depth, source, seed).1,
{
    let w = enqueue(v, url, depth, source, seed).0;
    assert(w.visited.contains(normalized(url, v.remove_www)));
}

/// The discovered count never passes the page limit through offers.
pub proof fn lemma_enqueue_respects_max_pages(
    v: SchedulerView,
    url: UrlView,
    depth: u32,
    source: TaskSource,
    seed: UrlView,
)
    requires
        v.discovered <= v.max_pages,
    ensures
        enqueue(v, url, depth, source, seed).0.discovered <= v.max_pages,
        enqueue(v, url, depth, source, seed).1 ==> v.discovered < v.max_pages,
{
}

/// Every queued task is within the depth limit, and in Full mode on the
/// seed's host; offers keep both.
pub open spec fn frontier_within_limits(v: SchedulerView, seed: UrlView) -> bool {
    forall|i: int|
        0 <= i < v.frontier.len() ==> (#[trigger] v.frontier[i]).depth <= v.max_depth && (v.mode
            == ScanMode::Full && v.frontier[i].source != TaskSource::Seed ==> same_domain(
            v.frontier[i].url,
            seed,
        ))
}

/// Offers keep the frontier within the depth limit and, in Full mode, on the
/// seed's host.
pub proof fn lemma_enqueue_keeps_limits(
    v: SchedulerView,
    url: UrlView,
    depth: u32,
    source: TaskSource,
    seed: UrlView,
)
    requires
        frontier_within_limits(v, seed),
        source != TaskSource::Seed,
    ensures
        frontier_within_limits(enqueue(v, url, depth, source, seed).0, seed),
{
    let w = enqueue(v, url, depth, source, seed).0;
    assert forall|i: int| 0 <= i < w.frontier.len() implies (#[trigger] w.frontier[i]).depth
        <= w.max_depth && (w.mode == ScanMode::Full && w.frontier[i].source != TaskSource::Seed
        ==> same_domain(w.frontier[i].url, seed)) by {
        if i < v.frontier.len() {
            assert(w.frontier[i] == v.frontier[i]);
        }
    }
}

/// In Lite mode no offer is accepted.
pub proof fn lemma_lite_accepts_nothing(
    v: SchedulerView,
    url: UrlView,
    depth: u32,
    source: TaskSource,
    seed: UrlView,
)
    requires
        v.mode == ScanMode::Lite,
    ensures
        !enqueue(v, url, depth, source, seed).1,
        enqueue(v, url, depth, source, seed).0.frontier == v.frontier,
{
}

/// The task handed out has a priority at least that of every other task
/// that could be handed out at the same time.
pub proof fn lemma_next_is_highest(v: SchedulerView, now: u64, t: TaskView, w: SchedulerView, j: int)
    requires
        handed_out(v, now, Some(t), w),
        eligible(v, j, now),
    ensures
        rank(v.frontier[j].priority) <= rank(t.priority),
{
    let i = choose|i: int|
        #[trigger] is_next(v, i, now) && t == v.frontier[i] && w == SchedulerView {
            frontier: v.frontier.remove(i),
            in_progress: v.in_progress.insert(normalized(t.url, v.remove_www)),
            handed: v.handed + 1,
            ..v
        };
}

/// Handing out the last pending task and then completing it leaves the
/// scheduler done, when nothing else was in progress.
pub proof fn lemma_complete_last_task_done(
    v: SchedulerView,
    now: u64,
    t: TaskView,
    w: SchedulerView,
    later: u64,
)
    requires
        v.frontier.len() == 1,
        v.in_progress == Set::<Seq<char>>::empty(),
        handed_out(v, now, Some(t), w),
    ensures
        completed_at(w, t.url, later).frontier.len() == 0,
        completed_at(w, t.url, later).in_progress == Set::<Seq<char>>::empty(),
{
    let i = choose|i: int|
        #[trigger] is_next(v, i, now) && t == v.frontier[i] && w == SchedulerView {
            frontier: v.frontier.remove(i),
            in_progress: v.in_progress.insert(normalized(t.url, v.remove_www)),
            handed: v.handed + 1,
            ..v
        };
    let n = normalized(t.url, v.remove_www);
    assert(completed_at(w, t.url, later).in_progress =~= Set::<Seq<char>>::empty());
}

/// The page limit, but at least one page: the seed always counts.
pub open spec fn page_cap(v: SchedulerView) -> nat {
    if v.max_pages >= 1 {
        v.max_pages as nat
    } else {
        1
    }
}

/// What holds of a scheduler once its seed is added: no more URLs were ever
/// discovered than the page limit (at least one) allows, and no more tasks
/// were queued or handed out than were discovered, so that at most that many
/// pages are ever handed out; every queued task is within the depth limit,
/// and in Full mode every queued task but the seed is on the seed's host; in
/// Lite mode the seed is the only task, at depth 0.
pub open spec fn crawl_limits(v: SchedulerView) -> bool {
    &&& v.seed is Some
    &&& v.discovered <= page_cap(v)
    &&& v.frontier.len() + v.handed <= v.discovered
    &&& frontier_within_limits(v, v.seed.unwrap())
    &&& v.mode == ScanMode::Lite ==> v.discovered <= 1 && forall|i: int|
        0 <= i < v.frontier.len() ==> (#[trigger] v.frontier[i]).depth == 0
}

/// A fresh scheduler with its seed added is within the crawl limits.
pub proof fn lemma_seeded_within_limits(v: SchedulerView, url: UrlView)
    requires
        v.frontier.len() == 0,
        v.discovered == 0,
        v.handed == 0,
    ensures
        crawl_limits(seeded(v, url)),
{
    let w = seeded(v, url);
    assert forall|i: int| 0 <= i < w.frontier.len() implies (#[trigger] w.frontier[i]).depth
        <= w.max_depth && (w.mode == ScanMode::Full && w.frontier[i].source != TaskSource::Seed
        ==> same_domain(w.frontier[i].url, url)) by {
        assert(i == 0);
    }
}

/// An offer keeps the crawl limits. A URL deeper than the depth limit
/// changes neither the queue nor the discovered count, and in Full mode an
/// accepted URL is on the seed's host.
pub proof fn lemma_offer_keeps_limits(v: SchedulerView, url: UrlView, depth: u32, source: TaskSource)
    requires
        crawl_limits(v),
    ensures
        crawl_limits(enqueue(v, url, depth, source, v.seed.unwrap()).0),
        enqueue(v, url, depth, source, v.seed.unwrap()).0.seed == v.seed,
        depth > v.max_depth ==> enqueue(v, url, depth, source, v.seed.unwrap()).0.frontier == v.frontier
            && enqueue(v, url, depth, source, v.seed.unwrap()).0.discovered == v.discovered,
        enqueue(v, url, depth, source, v.seed.unwrap()).1 && v.mode == ScanMode::Full ==> same_domain(
            url,
            v.seed.unwrap(),
        ),
{
    let seed = v.seed.unwrap();
    let w = enqueue(v, url, depth, source, seed).0;
    assert forall|i: int| 0 <= i < w.frontier.len() implies (#[trigger] w.frontier[i]).depth
        <= w.max_depth && (w.mode == ScanMode::Full && w.frontier[i].source != TaskSource::Seed
        ==> same_domain(w.frontier[i].url, seed)) by {
        if i < v.frontier.len() {
            assert(w.frontier[i] == v.frontier[i]);
        }
    }
}

/// Offering several URLs keeps the crawl limits; URLs deeper than the depth
/// limit change neither the queue nor the discovered count.
pub proof fn lemma_offers_keep_limits(v: SchedulerView, urls: Seq<UrlView>, depth: u32, source: TaskSource)
    requires
        crawl_limits(v),
    ensures
        crawl_limits(enqueue_all(v, urls, depth, source, v.seed.unwrap())),
        enqueue_all(v, urls, depth, source, v.seed.unwrap()).seed == v.seed,
        enqueue_all(v, urls, depth, source, v.seed.unwrap()).max_depth == v.max_depth,
        enqueue_all(v, urls, depth, source, v.seed.unwrap()).max_pages == v.max_pages,
        enqueue_all(v, urls, depth, source, v.seed.unwrap()).mode == v.mode,
        depth > v.max_depth ==> enqueue_all(v, urls, depth, source, v.seed.unwrap()).frontier == v.frontier
            && enqueue_all(v, urls, depth, source, v.seed.unwrap()).discovered == v.discovered,
    decreases urls.len(),
{
    if urls.len() > 0 {
        lemma_offers_keep_limits(v, urls.drop_last(), depth, source);
        let w = enqueue_all(v, urls.drop_last(), depth, source, v.seed.unwrap());
        lemma_offer_keeps_limits(w, urls.last(), depth, source);
    }
}

/// Handing out a task keeps the crawl limits; the task handed out is within
/// the depth limit (at depth 0 in Lite mode), and the count of tasks handed
/// out stays within the page limit (at most one in Lite mode).
pub proof fn lemma_hand_out_keeps_limits(v: SchedulerView, now: u64, res: Option<TaskView>, w: SchedulerView)
    requires
        crawl_limits(v),
        handed_out(v, now, res, w),
    ensures
        crawl_limits(w),
        res matches Some(t) ==> t.depth <= v.max_depth && (v.mode == ScanMode::Lite ==> t.depth == 0),
        w.handed <= page_cap(w),
        w.mode == ScanMode::Lite ==> w.handed <= 1,
{
    if let Some(t) = res {
        let i = choose|i: int|
            #[trigger] is_next(v, i, now) && t == v.frontier[i] && w == SchedulerView {
                frontier: v.frontier.remove(i),
                in_progress: v.in_progress.insert(normalized(t.url, v.remove_www)),
                handed: v.handed + 1,
                ..v
            };
        assert(v.frontier[i].depth <= v.max_depth);
        assert forall|k: int| 0 <= k < w.frontier.len() implies (#[trigger] w.frontier[k]).depth
            <= w.max_depth && (w.mode == ScanMode::Full && w.frontier[k].source != TaskSource::Seed
            ==> same_domain(w.frontier[k].url, v.seed.unwrap())) by {
            if k < i {
                assert(w.frontier[k] == v.frontier[k]);
            } else {
                assert(w.frontier[k] == v.frontier[k + 1]);
            }
        }
    }
}

/// Recording a crawled URL keeps the crawl limits.
pub proof fn lemma_completion_keeps_limits(v: SchedulerView, url: UrlView, now: u64)
    requires
        crawl_limits(v),
    ensures
        crawl_limits(completed_at(v, url, now)),
{
}

} // verus!
