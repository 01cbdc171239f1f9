use std::cmp::Ordering;
use std::collections::BinaryHeap;

use rehyke_core::config::{CrawlConfig, DelayStrategy, ScanMode};
use rehyke_core::scheduler::{CrawlTask, Priority, Scheduler, TaskSource};
use rehyke_core::utils::Url;

/// A task ordered by its priority, for use in a max-heap.
struct ByPriority(CrawlTask);

impl PartialEq for ByPriority {
    fn eq(&self, other: &Self) -> bool {
        self.0.priority == other.0.priority
    }
}

impl Eq for ByPriority {}

impl PartialOrd for ByPriority {
    fn partial_cmp(&self, other: &Self) -> Option<Ordering> {
        Some(self.cmp(other))
    }
}

impl Ord for ByPriority {
    fn cmp(&self, other: &Self) -> Ordering {
        self.0.priority.cmp(&other.0.priority)
    }
}

/// A scheduler with no per-host delay.
fn make_fast_scheduler(mode: ScanMode) -> Scheduler {
    let config = CrawlConfig {
        delay_strategy: DelayStrategy::Fixed { delay_ms: 0 },
        ..CrawlConfig::default()
    };
    Scheduler::new(&config, mode)
}

fn url(s: &str) -> Url {
    Url::parse(s).expect("valid test URL")
}

#[test]
fn test_add_seed() {
    let mut sched = make_fast_scheduler(ScanMode::Full);
    sched.add_seed(url("https://example.com"));

    assert_eq!(sched.pending_count(), 1);
    assert_eq!(sched.stats().total_discovered, 1);
}

#[test]
fn test_seed_is_critical_priority() {
    let mut sched = make_fast_scheduler(ScanMode::Full);
    sched.add_seed(url("https://example.com"));

    let task = sched.next_task().expect("should have a task");
    assert_eq!(task.priority, Priority::Critical);
    assert_eq!(task.depth, 0);
}

#[test]
fn test_dedup_same_url() {
    let mut sched = make_fast_scheduler(ScanMode::Full);
    sched.add_seed(url("https://example.com"));

    sched.add_urls(
        vec![
            url("https://example.com/page"),
            url("https://example.com/page"),
            url("https://example.com/page"),
        ],
        1,
        TaskSource::InternalLink,
    );

    // Seed + one unique page = 2 discovered.
    assert_eq!(sched.stats().total_discovered, 2);
    // Queue: seed + page = 2 (seed not yet popped).
    assert_eq!(sched.pending_count(), 2);
}

#[test]
fn test_dedup_normalised_urls() {
    let mut sched = make_fast_scheduler(ScanMode::Full);
    sched.add_seed(url("https://example.com"));

    sched.add_urls(
        vec![
            url("https://example.com/page#section1"),
            url("https://example.com/page#section2"),
        ],
        1,
        TaskSource::InternalLink,
    );

    // Fragments are stripped during normalization, so both resolve to the same URL.
    assert_eq!(sched.stats().total_discovered, 2);
}

#[test]
fn test_dedup_visited_url_not_re_added() {
    let mut sched = make_fast_scheduler(ScanMode::Full);
    sched.add_seed(url("https://example.com"));

    // Pop the seed and mark it completed.
    let task = sched.next_task().unwrap();
    sched.mark_completed(&task.url);

    // Try adding the same URL again.
    sched.add_urls(
        vec![url("https://example.com")],
        1,
        TaskSource::InternalLink,
    );

    // Should not be re-added to the queue.
    assert_eq!(sched.pending_count(), 0);
}

#[test]
fn test_priority_ordering_critical_first() {
    // BinaryHeap should give us Critical before High before Normal before Low.
    let mut heap: BinaryHeap<ByPriority> = BinaryHeap::new();
    heap.push(ByPriority(CrawlTask {
        url: url("https://example.com/low"),
        depth: 5,
        priority: Priority::Low,
        source: TaskSource::ExternalLink,
        requires_js: false,
    }));
    heap.push(ByPriority(CrawlTask {
        url: url("https://example.com/critical"),
        depth: 0,
        priority: Priority::Critical,
        source: TaskSource::Seed,
        requires_js: false,
    }));
    heap.push(ByPriority(CrawlTask {
        url: url("https://example.com/normal"),
        depth: 3,
        priority: Priority::Normal,
        source: TaskSource::InternalLink,
        requires_js: false,
    }));
    heap.push(ByPriority(CrawlTask {
        url: url("https://example.com/high"),
        depth: 1,
        priority: Priority::High,
        source: TaskSource::InternalLink,
        requires_js: false,
    }));

    assert_eq!(heap.pop().unwrap().0.priority, Priority::Critical);
    assert_eq!(heap.pop().unwrap().0.priority, Priority::High);
    assert_eq!(heap.pop().unwrap().0.priority, Priority::Normal);
    assert_eq!(heap.pop().unwrap().0.priority, Priority::Low);
}

#[test]
fn test_scheduler_dequeues_higher_priority_first() {
    let mut sched = make_fast_scheduler(ScanMode::Deep);
    sched.add_seed(url("https://example.com"));

    // Add an external (Low) and an internal (High/Normal) link.
    sched.add_urls(
        vec![url("https://other.com/external")],
        1,
        TaskSource::ExternalLink,
    );
    sched.add_urls(
        vec![url("https://example.com/internal")],
        1,
        TaskSource::InternalLink,
    );

    // First dequeue: seed (Critical).
    let t1 = sched.next_task().unwrap();
    assert_eq!(t1.priority, Priority::Critical);

    // Second dequeue: internal link at depth 1 (High).
    let t2 = sched.next_task().unwrap();
    assert_eq!(t2.priority, Priority::High);

    // Third dequeue: external link (Low).
    let t3 = sched.next_task().unwrap();
    assert_eq!(t3.priority, Priority::Low);
}

#[test]
fn test_lite_mode_blocks_all() {
    let mut sched = make_fast_scheduler(ScanMode::Lite);
    sched.add_seed(url("https://example.com"));

    sched.add_urls(
        vec![
            url("https://example.com/page"),
            url("https://other.com/page"),
        ],
        1,
        TaskSource::InternalLink,
    );

    // Only the seed should be in the queue.
    assert_eq!(sched.pending_count(), 1);
}

#[test]
fn test_full_mode_blocks_external() {
    let mut sched = make_fast_scheduler(ScanMode::Full);
    sched.add_seed(url("https://example.com"));

    sched.add_urls(
        vec![url("https://other.com/external")],
        1,
        TaskSource::ExternalLink,
    );

    // Seed only; external was blocked.
    assert_eq!(sched.pending_count(), 1);
}

#[test]
fn test_full_mode_allows_internal() {
    let mut sched = make_fast_scheduler(ScanMode::Full);
    sched.add_seed(url("https://example.com"));

    sched.add_urls(
        vec![url("https://example.com/about")],
        1,
        TaskSource::InternalLink,
    );

    // Seed + internal link.
    assert_eq!(sched.pending_count(), 2);
}

#[test]
fn test_deep_mode_allows_external() {
    let mut sched = make_fast_scheduler(ScanMode::Deep);
    sched.add_seed(url("https://example.com"));

    sched.add_urls(
        vec![url("https://other.com/page")],
        1,
        TaskSource::ExternalLink,
    );

    // Seed + external link.
    assert_eq!(sched.pending_count(), 2);
}

#[test]
fn test_deep_mode_allows_internal() {
    let mut sched = make_fast_scheduler(ScanMode::Deep);
    sched.add_seed(url("https://example.com"));

    sched.add_urls(
        vec![url("https://example.com/page")],
        1,
        TaskSource::InternalLink,
    );

    // Seed + internal link.
    assert_eq!(sched.pending_count(), 2);
}

#[test]
fn test_max_depth_limits_urls() {
    let config = CrawlConfig {
        max_pages: 1000,
        max_depth: 2,
        delay_strategy: DelayStrategy::Fixed { delay_ms: 0 },
        ..CrawlConfig::default()
    };
    let mut sched = Scheduler::new(&config, ScanMode::Full);
    sched.add_seed(url("https://example.com"));

    // Depth 2 should be accepted (max_depth = 2).
    sched.add_urls(
        vec![url("https://example.com/level2")],
        2,
        TaskSource::InternalLink,
    );
    assert_eq!(sched.pending_count(), 2);

    // Depth 3 should be rejected.
    sched.add_urls(
        vec![url("https://example.com/level3")],
        3,
        TaskSource::InternalLink,
    );
    // Still 2 -- the depth-3 URL was skipped.
    assert_eq!(sched.pending_count(), 2);
}

#[test]
fn test_max_pages_limits_urls() {
    let config = CrawlConfig {
        max_pages: 3,
        delay_strategy: DelayStrategy::Fixed { delay_ms: 0 },
        ..CrawlConfig::default()
    };
    let mut sched = Scheduler::new(&config, ScanMode::Full);
    sched.add_seed(url("https://example.com")); // discovered = 1

    sched.add_urls(
        vec![
            url("https://example.com/a"), // discovered = 2
            url("https://example.com/b"), // discovered = 3
            url("https://example.com/c"), // should be blocked (>= max_pages)
            url("https://example.com/d"), // should be blocked
        ],
        1,
        TaskSource::InternalLink,
    );

    assert_eq!(sched.stats().total_discovered, 3);
    // Seed + a + b = 3 in queue.
    assert_eq!(sched.pending_count(), 3);
}

#[test]
fn test_is_done_initially_empty() {
    let mut sched = make_fast_scheduler(ScanMode::Full);
    // No seed added yet, so the queue is empty and in_progress is empty.
    assert!(sched.is_done());
}

#[test]
fn test_is_done_with_pending() {
    let mut sched = make_fast_scheduler(ScanMode::Full);
    sched.add_seed(url("https://example.com"));
    assert!(!sched.is_done());
}

#[test]
fn test_is_done_with_in_progress() {
    let mut sched = make_fast_scheduler(ScanMode::Full);
    sched.add_seed(url("https://example.com"));

    // Pop the task (now it's in-progress).
    let _task = sched.next_task().unwrap();
    // Queue is empty, but in_progress is not.
    assert!(!sched.is_done());
}

#[test]
fn test_is_done_after_completion() {
    let mut sched = make_fast_scheduler(ScanMode::Full);
    sched.add_seed(url("https://example.com"));

    let task = sched.next_task().unwrap();
    sched.mark_completed(&task.url);

    assert!(sched.is_done());
}

#[test]
fn test_is_done_after_failure() {
    let mut sched = make_fast_scheduler(ScanMode::Full);
    sched.add_seed(url("https://example.com"));

    let task = sched.next_task().unwrap();
    sched.mark_failed(&task.url);

    assert!(sched.is_done());
}

#[test]
fn test_stats_tracking() {
    let mut sched = make_fast_scheduler(ScanMode::Full);
    sched.add_seed(url("https://example.com"));

    sched.add_urls(
        vec![
            url("https://example.com/a"),
            url("https://example.com/b"),
        ],
        1,
        TaskSource::InternalLink,
    );

    let snap = sched.stats();
    assert_eq!(snap.total_discovered, 3); // seed + a + b
    assert_eq!(snap.total_crawled, 0);
    assert_eq!(snap.total_errors, 0);

    // Complete one task.
    let task = sched.next_task().unwrap();
    sched.mark_completed(&task.url);

    let snap = sched.stats();
    assert_eq!(snap.total_crawled, 1);

    // Fail one task.
    let task = sched.next_task().unwrap();
    sched.mark_failed(&task.url);

    let snap = sched.stats();
    assert_eq!(snap.total_crawled, 1);
    assert_eq!(snap.total_errors, 1);
}

#[test]
fn test_skipped_counter() {
    let mut sched = make_fast_scheduler(ScanMode::Full);
    sched.add_seed(url("https://example.com"));

    // External URL in Full mode -> skipped.
    sched.add_urls(
        vec![url("https://other.com/page")],
        1,
        TaskSource::ExternalLink,
    );

    assert_eq!(sched.stats().total_skipped, 1);
}

#[test]
fn test_domain_rate_limiting() {
    let config = CrawlConfig {
        delay_strategy: DelayStrategy::Fixed { delay_ms: 10_000 },
        ..CrawlConfig::default()
    };
    let mut sched = Scheduler::new(&config, ScanMode::Full);
    sched.add_seed(url("https://example.com"));

    sched.add_urls(
        vec![url("https://example.com/page")],
        1,
        TaskSource::InternalLink,
    );

    // First task should succeed.
    let task = sched.next_task().unwrap();
    sched.mark_completed(&task.url);

    // Second task from the same domain should be rate-limited because we
    // set a 10-second delay and only milliseconds have passed.
    let next = sched.next_task();
    assert!(
        next.is_none(),
        "expected None due to rate limiting, got a task"
    );
}

#[test]
fn test_no_rate_limiting_with_zero_delay() {
    let mut sched = make_fast_scheduler(ScanMode::Full);
    sched.add_seed(url("https://example.com"));

    sched.add_urls(
        vec![url("https://example.com/page")],
        1,
        TaskSource::InternalLink,
    );

    let task = sched.next_task().unwrap();
    sched.mark_completed(&task.url);

    // With zero delay, the next task should be available immediately.
    let next = sched.next_task();
    assert!(next.is_some(), "expected a task with zero delay");
}

#[test]
fn test_should_crawl_new_url() {
    let mut sched = make_fast_scheduler(ScanMode::Full);
    sched.add_seed(url("https://example.com"));

    assert!(sched.should_crawl(&url("https://example.com/new")));
}

#[test]
fn test_should_crawl_visited_url() {
    let mut sched = make_fast_scheduler(ScanMode::Full);
    sched.add_seed(url("https://example.com"));

    // The seed itself is visited.
    assert!(!sched.should_crawl(&url("https://example.com")));
}

#[test]
fn test_should_crawl_external_full_mode() {
    let mut sched = make_fast_scheduler(ScanMode::Full);
    sched.add_seed(url("https://example.com"));

    assert!(!sched.should_crawl(&url("https://other.com/page")));
}

#[test]
fn test_should_crawl_external_deep_mode() {
    let mut sched = make_fast_scheduler(ScanMode::Deep);
    sched.add_seed(url("https://example.com"));

    assert!(sched.should_crawl(&url("https://other.com/page")));
}

#[test]
fn test_should_crawl_lite_mode() {
    let mut sched = make_fast_scheduler(ScanMode::Lite);
    sched.add_seed(url("https://example.com"));

    assert!(!sched.should_crawl(&url("https://example.com/page")));
}

#[test]
fn test_set_done() {
    let mut sched = make_fast_scheduler(ScanMode::Full);
    sched.add_seed(url("https://example.com"));
    assert!(!sched.is_done());

    sched.set_done();
    assert!(sched.is_done());
}
