//! The decisions of a crawl, as a state machine that the caller drives.
//!
//! The caller performs what the crawler asks for (waiting, fetching a page,
//! storing a result) and hands back what came of it. The crawler keeps the
//! frontier, the politeness delays, robots.txt and the URL patterns, and
//! turns each fetched page into a result: content type, parse, Markdown,
//! title, links, and the links fed back into the frontier.

use vstd::prelude::*;

use regex::Regex;

use crate::anti_detect::{AntiDetect, AntiDetectView};
use crate::config::{CrawlConfig, DelayStrategy};
use crate::converter::{ConverterConfig, document_markdown, to_markdown_with_url};
use crate::dom::{html_dom, parse_html_document};
use crate::error::RehykeError;
use crate::extractor::{
    ExtractedLinks, LinksView, empty_links, extract_links, page_links, page_refreshes_readable,
    refreshes_readable,
};
use crate::fetcher::{ContentType, KindView, detect_content_type_from_str, kind_view, str_kind};
use crate::output::RenderMethod;
use crate::parser::{PageMetadata, ParseConfig, ParsedDocument, parse, parsed_as};
use crate::robots::{RobotsTxt, RobotsView, allowed, parsed};
use crate::scheduler::{
    CrawlTask, Scheduler, SchedulerView, TaskSource, TaskView, completed_at, enqueue_all, handed_out,
    opt_task_view,
};
use crate::text::{opt_str_view, push_str, views};
use crate::utils::{Url, UrlView, url_parse, url_parsed};

verus! {

// ---------------------------------------------------------------------------
// URL patterns
// ---------------------------------------------------------------------------

#[verifier::external_type_specification]
#[verifier::external_body]
pub struct ExRegex(Regex);

/// What `regex::Regex::new` says of a pattern: `None` when it compiles, else
/// the message of its error.
pub uninterp spec fn regex_new_error(pattern: Seq<char>) -> Option<Seq<char>>;

/// Whether the regex compiled from `pattern` matches somewhere in `text`
/// (`regex::Regex::is_match`).
pub uninterp spec fn regex_is_match(pattern: Seq<char>, text: Seq<char>) -> bool;

/// A compiled URL pattern, kept with the text it was compiled from.
pub struct CompiledPattern {
    source: String,
    regex: Regex,
}

impl CompiledPattern {
    /// The text the pattern was compiled from.
    pub closed spec fn source(&self) -> Seq<char> {
        self.source@
    }
}

/// `regex::Regex::new`: the compiled pattern with its source, or the message
/// of the error. Whether a pattern compiles, and the message, are named by
/// [`regex_new_error`].
#[verifier::external_body]
fn compile_regex(pattern: &str) -> (res: Result<CompiledPattern, String>)
    ensures
        match res {
            Ok(c) => c.source() == pattern@ && regex_new_error(pattern@) is None,
            Err(e) => regex_new_error(pattern@) == Some(e@),
        },
{
    match Regex::new(pattern) {
        Ok(regex) => Ok(CompiledPattern { source: pattern.to_string(), regex }),
        Err(e) => Err(e.to_string()),
    }
}

/// `regex::Regex::is_match` of a compiled pattern on `text`; the answer is
/// named by [`regex_is_match`] applied to the pattern's source.
#[verifier::external_body]
fn pattern_matches(p: &CompiledPattern, text: &str) -> (res: bool)
    ensures
        res == regex_is_match(p.source(), text@),
{
    p.regex.is_match(text)
}

impl CompiledPattern {
    /// Whether the pattern matches somewhere in `text`.
    pub fn is_match(&self, text: &str) -> (res: bool)
        ensures
            res == regex_is_match(self.source(), text@),
    {
        pattern_matches(self, text)
    }
}

pub open spec fn sources(v: Seq<CompiledPattern>) -> Seq<Seq<char>> {
    v.map_values(|p: CompiledPattern| p.source())
}

/// The error of the first pattern that does not compile:
/// `invalid regex pattern '<pattern>': <message>`.
pub open spec fn pattern_error(e: RehykeError, pattern: Seq<char>, message: Seq<char>) -> bool {
    e matches RehykeError::ConfigError { message: m } && m@ == "invalid regex pattern '"@ + pattern
        + "': "@ + message
}

/// Every pattern compiles.
pub open spec fn all_compile(ps: Seq<Seq<char>>) -> bool {
    forall|i: int| 0 <= i < ps.len() ==> (#[trigger] regex_new_error(ps[i])) is None
}

/// `e` is the error of the first pattern of `ps` that does not compile.
pub open spec fn first_pattern_error(ps: Seq<Seq<char>>, e: RehykeError) -> bool {
    exists|i: int|
        0 <= i < ps.len() && all_compile(ps.take(i)) && regex_new_error(ps[i]) is Some && #[trigger] pattern_error(
            e,
            ps[i],
            regex_new_error(ps[i])->Some_0,
        )
}

/// Compile URL patterns, in order; the first that does not compile gives a
/// configuration error (see [`pattern_error`]).
pub fn compile_patterns(patterns: &Vec<String>) -> (res: Result<Vec<CompiledPattern>, RehykeError>)
    ensures
        match res {
            Ok(v) => sources(v@) == views(patterns@) && all_compile(views(patterns@)),
            Err(e) => first_pattern_error(views(patterns@), e),
        },
{
    let mut out: Vec<CompiledPattern> = Vec::new();
    let mut i: usize = 0;
    while i < patterns.len()
        invariant
            i <= patterns.len(),
            sources(out@) == views(patterns@).take(i as int),
            all_compile(views(patterns@).take(i as int)),
        decreases patterns.len() - i,
    {
        match compile_regex(patterns[i].as_str()) {
            Ok(c) => {
                let ghost before = out@;
                out.push(c);
                assert(sources(out@) =~= sources(before).push(c.source()));
                assert(views(patterns@).take(i + 1) =~= views(patterns@).take(i as int).push(patterns@[i as int]@));
                assert(all_compile(views(patterns@).take(i + 1))) by {
                    let t = views(patterns@).take(i + 1);
                    assert forall|j: int| 0 <= j < t.len() implies (#[trigger] regex_new_error(t[j])) is None by {
                        if j < i {
                            assert(t[j] == views(patterns@).take(i as int)[j]);
                        }
                    }
                }
            },
            Err(m) => {
                let mut message = String::new();
                push_str(&mut message, "invalid regex pattern '");
                push_str(&mut message, patterns[i].as_str());
                push_str(&mut message, "': ");
                push_str(&mut message, m.as_str());
                let e = RehykeError::ConfigError { message };
                assert(pattern_error(e, patterns@[i as int]@, regex_new_error(patterns@[i as int]@)->Some_0));
                assert(views(patterns@)[i as int] == patterns@[i as int]@);
                return Err(e);
            },
        }
        i = i + 1;
    }
    assert(views(patterns@).take(patterns.len() as int) =~= views(patterns@));
    Ok(out)
}

pub open spec fn any_match(patterns: Seq<Seq<char>>, text: Seq<char>) -> bool {
    exists|i: int| 0 <= i < patterns.len() && #[trigger] regex_is_match(patterns[i], text)
}

/// Whether some pattern matches `text`.
fn any_pattern_matches(patterns: &Vec<CompiledPattern>, text: &str) -> (res: bool)
    ensures
        res == any_match(sources(patterns@), text@),
{
    let mut i: usize = 0;
    while i < patterns.len()
        invariant
            i <= patterns.len(),
            forall|j: int| 0 <= j < i ==> !#[trigger] regex_is_match(sources(patterns@)[j], text@),
        decreases patterns.len() - i,
    {
        if pattern_matches(&patterns[i], text) {
            assert(regex_is_match(sources(patterns@)[i as int], text@));
            return true;
        }
        i = i + 1;
    }
    false
}

/// A URL passes the patterns: when there are patterns to allow, one of them
/// matches; and no pattern to deny matches.
pub open spec fn patterns_admit(allow_list: Seq<Seq<char>>, deny_list: Seq<Seq<char>>, url: Seq<char>) -> bool {
    (allow_list.len() == 0 || any_match(allow_list, url)) && !any_match(deny_list, url)
}

/// Whether a URL passes the patterns (see [`patterns_admit`]).
pub fn url_passes_patterns(allow_list: &Vec<CompiledPattern>, deny_list: &Vec<CompiledPattern>, url: &str) -> (res: bool)
    ensures
        res == patterns_admit(sources(allow_list@), sources(deny_list@), url@),
{
    if allow_list.len() > 0 && !any_pattern_matches(allow_list, url) {
        return false;
    }
    !any_pattern_matches(deny_list, url)
}

// ---------------------------------------------------------------------------
// Seed and robots.txt
// ---------------------------------------------------------------------------

/// The error for a seed that is not a URL: `invalid seed URL '<url>':
/// <message>`.
pub open spec fn seed_error(e: RehykeError, url: Seq<char>, message: Seq<char>) -> bool {
    e matches RehykeError::ConfigError { message: m } && m@ == "invalid seed URL '"@ + url + "': "@ + message
}

/// Parse the seed URL; a configuration error when it is not one.
pub fn parse_seed_url(url: &str) -> (res: Result<Url, RehykeError>)
    ensures
        match url_parsed(url@) {
            Ok(u) => res is Ok && res->Ok_0@ == u,
            Err(m) => res is Err && seed_error(res->Err_0, url@, m),
        },
{
    match Url::try_parse(url) {
        Ok(u) => Ok(u),
        Err(m) => {
            let mut message = String::new();
            push_str(&mut message, "invalid seed URL '");
            push_str(&mut message, url);
            push_str(&mut message, "': ");
            push_str(&mut message, m.as_str());
            Err(RehykeError::ConfigError { message })
        },
    }
}

/// Where the robots.txt of the seed's site is asked for:
/// `<scheme>://<host>/robots.txt` (an empty host for a URL without one),
/// parsed; `None` when that text is not a URL.
pub fn robots_location(seed: &Url) -> (res: Option<Url>)
    ensures
        res matches Some(u) ==> Some(u@) == url_parse(
            seed@.scheme + "://"@ + (match seed@.host {
                Some(h) => h,
                None => Seq::<char>::empty(),
            }) + "/robots.txt"@,
        ),
        res is None ==> url_parse(
            seed@.scheme + "://"@ + (match seed@.host {
                Some(h) => h,
                None => Seq::<char>::empty(),
            }) + "/robots.txt"@,
        ) is None,
{
    let mut s = String::new();
    push_str(&mut s, seed.scheme());
    push_str(&mut s, "://");
    let ghost before = s@;
    match seed.host_str() {
        Some(h) => push_str(&mut s, h),
        None => {},
    }
    push_str(&mut s, "/robots.txt");
    assert(s@ =~= seed@.scheme + "://"@ + (match seed@.host {
        Some(h) => h,
        None => Seq::<char>::empty(),
    }) + "/robots.txt"@);
    Url::parse(s.as_str())
}

/// The robots.txt rules to follow after asking for the file: its rules when
/// it came back with status 200, none otherwise.
pub fn robots_from_response(status: u16, body: &str) -> (res: Option<RobotsTxt>)
    ensures
        status == 200 ==> res is Some && res->Some_0@ == parsed(body@),
        status != 200 ==> res is None,
{
    if status == 200 {
        Some(RobotsTxt::parse(body))
    } else {
        None
    }
}

// ---------------------------------------------------------------------------
// The crawl state machine
// ---------------------------------------------------------------------------

/// A page as the caller fetched or rendered it.
pub struct FetchedPage {
    pub body: String,
    /// The URL after redirects.
    pub final_url: Url,
    pub status: u16,
    /// The `Content-Type` header (`text/html` when there was none).
    pub content_type: String,
    pub render_method: RenderMethod,
}

/// What a crawled page gives: everything of a crawl result but the time it
/// was crawled, which the caller adds.
pub struct PageRecord {
    pub url: String,
    pub title: String,
    pub markdown: String,
    pub metadata: PageMetadata,
    pub links: ExtractedLinks,
    pub status_code: u16,
    pub content_type: String,
    pub depth: u32,
    pub render_method: RenderMethod,
}

/// What the crawler asks of the caller next.
pub enum CrawlAction {
    /// The crawl is over.
    Finish,
    /// Nothing can be fetched yet: wait, then ask again.
    Wait { millis: u64 },
    /// The task may not be fetched (robots.txt or the URL patterns say no);
    /// it counts as crawled. Ask again.
    Skip(CrawlTask),
    /// Wait `delay_ms`, then fetch the task's URL and report back.
    Fetch { task: CrawlTask, delay_ms: u64 },
}

/// What one step of the crawl does (see [`Crawler::next_action`]).
pub open spec fn next_step(old: CrawlerView, res: CrawlAction, new: CrawlerView) -> bool {
    match res {
        CrawlAction::Finish => crawl_done(old.scheduler) && new == old,
        CrawlAction::Wait { millis } => {
            &&& millis == 50
            &&& !crawl_done(old.scheduler)
            &&& exists|now: u64| #[trigger] handed_out(old.scheduler, now, None, new.scheduler)
            &&& new == old
        },
        CrawlAction::Skip(t) => {
            &&& !crawl_done(old.scheduler)
            &&& !admits(old, t@.url)
            &&& exists|now: u64, later: u64, mid: SchedulerView|
                #[trigger] handed_out(old.scheduler, now, Some(t@), mid)
                    && new.scheduler == #[trigger] completed_at(mid, t@.url, later)
            &&& same_settings(old, new)
        },
        CrawlAction::Fetch { task, delay_ms } => {
            &&& !crawl_done(old.scheduler)
            &&& admits(old, task@.url)
            &&& delay_fits(old.anti_detect, delay_ms)
            &&& exists|now: u64| #[trigger] handed_out(old.scheduler, now, Some(task@), new.scheduler)
            &&& same_settings(old, new)
        },
    }
}

/// What handling a fetched page does (see [`Crawler::process_page`]): the
/// body is parsed as its content type says; on a parse error the task is
/// recorded as failed and there is no record; otherwise the record is made
/// and, for HTML, the page's links are offered one level deeper.
pub open spec fn page_processed(old: CrawlerView, task: TaskView, page: FetchedPage, res: Option<PageRecord>, new: CrawlerView) -> bool {
    exists|ct: ContentType, r: Result<ParsedDocument, RehykeError>|
        kind_view(ct) == str_kind(page.content_type@, page.final_url@) && #[trigger] parsed_as(
            page.body@,
            ct,
            old.parse_config,
            r,
        ) && match r {
            Err(_) => res is None && new == (CrawlerView {
                scheduler: marked_failed(old.scheduler, task.url),
                ..old
            }),
            Ok(doc) => {
                let links = links_of_page(kind_view(ct), page.body@, page.final_url@);
                &&& res is Some
                &&& is_page_record(res->Some_0, doc, page, task, links, old.converter_config)
                &&& new == (CrawlerView {
                    scheduler: after_links(old.scheduler, links, (task.depth + 1) as u32),
                    ..old
                })
            },
        }
}

/// What became of a fetched page.
pub enum PageOutcome {
    /// The page's record.
    Record(PageRecord),
    /// The body could not be parsed; the task was recorded as failed.
    ParseFailed,
    /// The task is at the deepest depth a task can have.
    TooDeep,
    /// An HTML page whose refresh `<meta>` cannot be read.
    UnreadableRefresh,
}

/// The crawl state: the frontier, the politeness delays, robots.txt rules,
/// the URL patterns and the parse and Markdown settings.
pub struct Crawler {
    scheduler: Scheduler,
    anti_detect: AntiDetect,
    robots: Option<RobotsTxt>,
    allow_patterns: Vec<CompiledPattern>,
    deny_patterns: Vec<CompiledPattern>,
    parse_config: ParseConfig,
    converter_config: ConverterConfig,
}

pub ghost struct CrawlerView {
    pub scheduler: SchedulerView,
    pub anti_detect: AntiDetectView,
    pub robots: Option<RobotsView>,
    pub allow: Seq<Seq<char>>,
    pub deny: Seq<Seq<char>>,
    pub parse_config: ParseConfig,
    pub converter_config: ConverterConfig,
}

pub open spec fn opt_robots_view(o: Option<RobotsTxt>) -> Option<RobotsView> {
    match o {
        Some(r) => Some(r@),
        None => None,
    }
}

impl View for Crawler {
    type V = CrawlerView;

    closed spec fn view(&self) -> CrawlerView {
        CrawlerView {
            scheduler: self.scheduler@,
            anti_detect: self.anti_detect@,
            robots: opt_robots_view(self.robots),
            allow: sources(self.allow_patterns@),
            deny: sources(self.deny_patterns@),
            parse_config: self.parse_config,
            converter_config: self.converter_config,
        }
    }
}

/// The crawl is over: the scheduler is marked done, or nothing is pending
/// and nothing in progress.
pub open spec fn crawl_done(v: SchedulerView) -> bool {
    v.done || (v.frontier.len() == 0 && v.in_progress == Set::<Seq<char>>::empty())
}

/// A task's URL may be fetched: robots.txt (when there is one) allows its
/// path, and it passes the URL patterns.
pub open spec fn admits(c: CrawlerView, url: UrlView) -> bool {
    &&& match c.robots {
        Some(r) => allowed(r, url.path),
        None => true,
    }
    &&& patterns_admit(c.allow, c.deny, url.serialization)
}

/// A delay the delay strategy can give: the fixed delay, one within the
/// random range, the current adaptive delay, or none.
pub open spec fn delay_fits(a: AntiDetectView, d: u64) -> bool {
    match a.strategy {
        DelayStrategy::Fixed { delay_ms } => d == delay_ms,
        DelayStrategy::Random { min_ms, max_ms } => if max_ms > min_ms {
            min_ms <= d <= max_ms
        } else {
            d == min_ms
        },
        DelayStrategy::Adaptive { initial_ms } => d == a.adaptive_delay_ms,
        DelayStrategy::NoDelay => d == 0,
    }
}

/// The scheduler after `url` failed: no longer in progress, visited, one
/// more error.
pub open spec fn marked_failed(v: SchedulerView, url: UrlView) -> SchedulerView {
    SchedulerView {
        in_progress: v.in_progress.remove(crate::utils::normalized(url, v.remove_www)),
        visited: v.visited.insert(crate::utils::normalized(url, v.remove_www)),
        errors: crate::scheduler::bumped(v.errors),
        ..v
    }
}

/// URLs offered to the scheduler (see `Scheduler::add_urls`).
pub open spec fn offered(v: SchedulerView, urls: Seq<UrlView>, depth: u32, source: TaskSource) -> SchedulerView {
    if v.mode == crate::config::ScanMode::Lite || v.seed is None {
        v
    } else {
        enqueue_all(v, urls, depth, source, v.seed->Some_0)
    }
}

/// The strings that parse as URLs, parsed, in order.
pub open spec fn parsed_urls(strs: Seq<Seq<char>>) -> Seq<UrlView>
    decreases strs.len(),
{
    if strs.len() == 0 {
        Seq::empty()
    } else {
        let prev = parsed_urls(strs.drop_last());
        match url_parse(strs.last()) {
            Some(u) => prev.push(u),
            None => prev,
        }
    }
}

/// The scheduler after a page's links are fed back at `depth`: internal
/// links, then external links, then subdomain links (these as internal).
pub open spec fn after_links(v: SchedulerView, links: LinksView, depth: u32) -> SchedulerView {
    offered(
        offered(
            offered(v, parsed_urls(links.internal), depth, TaskSource::InternalLink),
            parsed_urls(links.external),
            depth,
            TaskSource::ExternalLink,
        ),
        parsed_urls(links.subdomains),
        depth,
        TaskSource::InternalLink,
    )
}

pub open spec fn is_html_kind(k: KindView) -> bool {
    k is Html || k is Xhtml
}

/// The links of a page of the given kind: those of its HTML tree for HTML
/// and XHTML, none otherwise.
pub open spec fn links_of_page(k: KindView, body: Seq<char>, url: UrlView) -> LinksView {
    if is_html_kind(k) {
        page_links(html_dom(body), url)
    } else {
        empty_links()
    }
}

/// The title of a result: the page's, else `Untitled`.
pub open spec fn title_or_untitled(m: PageMetadata) -> Seq<char> {
    match m.title {
        Some(t) => t@,
        None => "Untitled"@,
    }
}

/// The record of a page crawled as `task` and parsed into `doc`.
pub open spec fn is_page_record(
    r: PageRecord,
    doc: ParsedDocument,
    page: FetchedPage,
    task: TaskView,
    links: LinksView,
    conv: ConverterConfig,
) -> bool {
    &&& r.url@ == page.final_url@.serialization
    &&& r.title@ == title_or_untitled(doc.metadata)
    &&& r.markdown@ == document_markdown(doc, page.final_url@.serialization, conv)
    &&& r.metadata == doc.metadata
    &&& r.links@ == links
    &&& r.status_code == page.status
    &&& r.content_type@ == page.content_type@
    &&& r.depth == task.depth
    &&& r.render_method == page.render_method
}

/// The other parts of the state are unchanged.
pub open spec fn same_settings(a: CrawlerView, b: CrawlerView) -> bool {
    &&& a.anti_detect == b.anti_detect
    &&& a.robots == b.robots
    &&& a.allow == b.allow
    &&& a.deny == b.deny
    &&& a.parse_config == b.parse_config
    &&& a.converter_config == b.converter_config
}

/// The parsed URLs among some strings.
fn parse_urls(strs: &Vec<String>) -> (res: Vec<Url>)
    ensures
        res@.map_values(|u: Url| u@) == parsed_urls(views(strs@)),
{
    let ghost sv = views(strs@);
    let mut out: Vec<Url> = Vec::new();
    let mut i: usize = 0;
    while i < strs.len()
        invariant
            i <= strs.len(),
            sv == views(strs@),
            out@.map_values(|u: Url| u@) == parsed_urls(sv.take(i as int)),
        decreases strs.len() - i,
    {
        assert(sv.take(i + 1).drop_last() =~= sv.take(i as int));
        assert(sv.take(i + 1).last() == strs@[i as int]@);
        match Url::parse(strs[i].as_str()) {
            Some(u) => {
                let ghost before = out@;
                out.push(u);
                assert(out@.map_values(|u: Url| u@) =~= before.map_values(|u: Url| u@).push(u@));
            },
            None => {},
        }
        i = i + 1;
    }
    assert(sv.take(strs.len() as int) =~= sv);
    out
}

impl Crawler {
    /// A crawler for `config`: its URL patterns compiled (the patterns to
    /// allow first; the first that does not compile is the error), a fresh
    /// scheduler, the delay strategy, no robots.txt yet, the cleaning
    /// settings (comment sections always removed) and Markdown with front
    /// matter, no footer and at most two blank lines in a row.
    pub fn new(config: &CrawlConfig) -> (res: Result<Crawler, RehykeError>)
        ensures
            match res {
                Ok(c) => {
                    &&& all_compile(views(config.include_patterns@))
                    &&& all_compile(views(config.exclude_patterns@))
                    &&& c@.allow == views(config.include_patterns@)
                    &&& c@.deny == views(config.exclude_patterns@)
                    &&& c@.scheduler.frontier.len() == 0
                    &&& c@.scheduler.visited == Set::<Seq<char>>::empty()
                    &&& c@.scheduler.in_progress == Set::<Seq<char>>::empty()
                    &&& c@.scheduler.last_access == Map::<Seq<char>, u64>::empty()
                    &&& c@.scheduler.discovered == 0
                    &&& c@.scheduler.crawled == 0
                    &&& c@.scheduler.errors == 0
                    &&& c@.scheduler.skipped == 0
                    &&& c@.scheduler.handed == 0
                    &&& c@.scheduler.seed is None
                    &&& !c@.scheduler.done
                    &&& c@.scheduler.mode == config.mode
                    &&& c@.scheduler.max_pages == config.max_pages
                    &&& c@.scheduler.max_depth == config.max_depth as u32
                    &&& c@.scheduler.delay_ms == crate::scheduler::strategy_delay(config.delay_strategy)
                    &&& c@.scheduler.remove_www
                    &&& c@.anti_detect.ua_pool == crate::anti_detect::ua_pool_spec()
                    &&& c@.anti_detect.strategy == config.delay_strategy
                    &&& c@.anti_detect.adaptive_delay_ms == crate::anti_detect::initial_delay(config.delay_strategy)
                    &&& c@.robots is None
                    &&& c@.parse_config.clean_navigation == config.clean_navigation
                    &&& c@.parse_config.clean_footers == config.clean_footers
                    &&& c@.parse_config.clean_ads == config.clean_ads
                    &&& c@.parse_config.clean_comments
                    &&& c@.parse_config.extract_metadata == config.extract_metadata
                    &&& c@.converter_config.include_frontmatter
                    &&& !c@.converter_config.include_footer
                    &&& c@.converter_config.max_blank_lines == 2
                },
                Err(e) => first_pattern_error(views(config.include_patterns@), e) || (all_compile(
                    views(config.include_patterns@),
                ) && first_pattern_error(views(config.exclude_patterns@), e)),
            },
    {
        let allow_patterns = match compile_patterns(&config.include_patterns) {
            Ok(v) => v,
            Err(e) => return Err(e),
        };
        let deny_patterns = match compile_patterns(&config.exclude_patterns) {
            Ok(v) => v,
            Err(e) => return Err(e),
        };
        let scheduler = Scheduler::new(config, config.mode);
        let anti_detect = AntiDetect::new(config.delay_strategy);
        let parse_config = ParseConfig {
            clean_navigation: config.clean_navigation,
            clean_footers: config.clean_footers,
            clean_ads: config.clean_ads,
            clean_comments: true,
            extract_metadata: config.extract_metadata,
        };
        let converter_config = ConverterConfig {
            include_frontmatter: true,
            include_footer: false,
            max_blank_lines: 2,
        };
        let c = Crawler {
            scheduler,
            anti_detect,
            robots: None,
            allow_patterns,
            deny_patterns,
            parse_config,
            converter_config,
        };
        Ok(c)
    }

    /// Follow the given robots.txt rules from now on.
    pub fn set_robots(&mut self, robots: Option<RobotsTxt>)
        ensures
            final(self)@ == (CrawlerView { robots: opt_robots_view(robots), ..old(self)@ }),
    {
        self.robots = robots;
    }

    /// Queue the seed URL (see `Scheduler::add_seed`).
    pub fn add_seed(&mut self, url: Url)
        ensures
            final(self)@.scheduler == crate::scheduler::seeded(old(self)@.scheduler, url@),
            same_settings(old(self)@, final(self)@),
    {
        self.scheduler.add_seed(url);
    }

    /// Whether the crawl is over (see [`crawl_done`]).
    pub fn is_done(&self) -> (res: bool)
        ensures
            res == crawl_done(self@.scheduler),
    {
        self.scheduler.is_done()
    }

    /// The next step of the crawl: finish when the crawl is over; wait 50 ms
    /// when no task can be handed out yet; otherwise take the next task and
    /// refuse it (recording it as done) when robots.txt or the URL
    /// patterns refuse it, or ask for it to be fetched after the delay the
    /// strategy gives.
    pub fn next_action(&mut self) -> (res: CrawlAction)
        ensures
            next_step(old(self)@, res, final(self)@),
    {
        if self.scheduler.is_done() {
            return CrawlAction::Finish;
        }
        let task = match self.scheduler.next_task() {
            Some(t) => t,
            None => {
                return CrawlAction::Wait { millis: 50 };
            },
        };
        let robots_ok = match &self.robots {
            Some(r) => r.is_allowed(task.url.path()),
            None => true,
        };
        if !robots_ok || !url_passes_patterns(&self.allow_patterns, &self.deny_patterns, task.url.as_str()) {
            let ghost mid = self.scheduler@;
            self.scheduler.mark_completed(&task.url);
            return CrawlAction::Skip(task);
        }
        let delay_ms = self.anti_detect.get_delay();
        CrawlAction::Fetch { task, delay_ms }
    }

    /// Adapt the delay to a response (see `AntiDetect::record_response`).
    pub fn record_response(&mut self, status: u16, elapsed_ms: u64)
        ensures
            final(self)@ == (CrawlerView {
                anti_detect: match old(self)@.anti_detect.strategy {
                    DelayStrategy::Adaptive { initial_ms } => AntiDetectView {
                        adaptive_delay_ms: crate::anti_detect::adapted_delay(
                            old(self)@.anti_detect.adaptive_delay_ms,
                            initial_ms,
                            status,
                        ),
                        ..old(self)@.anti_detect
                    },
                    _ => old(self)@.anti_detect,
                },
                ..old(self)@
            }),
    {
        self.anti_detect.record_response(status, elapsed_ms);
    }

    /// A fetch failed: record the task's URL as failed.
    pub fn fetch_failed(&mut self, task: &CrawlTask)
        ensures
            final(self)@ == (CrawlerView { scheduler: marked_failed(old(self)@.scheduler, task@.url), ..old(self)@ }),
    {
        self.scheduler.mark_failed(&task.url);
    }

    /// The result was stored: record the task's URL as crawled.
    pub fn page_done(&mut self, task: &CrawlTask)
        ensures
            exists|now: u64| final(self)@.scheduler == #[trigger] completed_at(old(self)@.scheduler, task@.url, now),
            same_settings(old(self)@, final(self)@),
    {
        self.scheduler.mark_completed(&task.url);
    }

    /// Turn a fetched page into a record: detect its content type from the
    /// header (and URL), parse it; when parsing fails, record the task as
    /// failed and give `None`. Otherwise convert it to Markdown, take its
    /// title (`Untitled` without one), and for HTML extract its links and
    /// offer them to the frontier one level deeper (see [`after_links`]).
    /// A refresh `<meta>` of an HTML page must be readable.
    pub fn process_page(&mut self, task: &CrawlTask, page: FetchedPage) -> (res: Option<PageRecord>)
        requires
            task@.depth < u32::MAX,
            is_html_kind(str_kind(page.content_type@, page.final_url@)) ==> refreshes_readable(
                html_dom(page.body@),
            ),
        ensures
            page_processed(old(self)@, task@, page, res, final(self)@),
    {
        let ct = detect_content_type_from_str(page.content_type.as_str(), &page.final_url);
        let parsed = parse(page.body.as_str(), &ct, &self.parse_config);
        let doc = match parsed {
            Ok(d) => d,
            Err(e) => {
                assert(parsed_as(page.body@, ct, self@.parse_config, Err::<ParsedDocument, RehykeError>(e)));
                self.scheduler.mark_failed(&task.url);
                return None;
            },
        };
        let ghost d0 = doc;
        assert(parsed_as(page.body@, ct, self@.parse_config, Ok::<ParsedDocument, RehykeError>(d0)));
        let markdown = to_markdown_with_url(&doc, page.final_url.as_str(), &self.converter_config);
        let title = match &doc.metadata.title {
            Some(t) => t.clone(),
            None => "Untitled".to_string(),
        };
        let is_html = match ct {
            ContentType::Html | ContentType::Xhtml => true,
            _ => false,
        };
        let next_depth = task.depth + 1;
        let links = if is_html {
            let dom = parse_html_document(page.body.as_str());
            let extracted = extract_links(&dom, &page.final_url);
            let internal = parse_urls(&extracted.internal);
            self.scheduler.add_urls(internal, next_depth, TaskSource::InternalLink);
            let external = parse_urls(&extracted.external);
            self.scheduler.add_urls(external, next_depth, TaskSource::ExternalLink);
            let subdomains = parse_urls(&extracted.subdomains);
            self.scheduler.add_urls(subdomains, next_depth, TaskSource::InternalLink);
            extracted
        } else {
            ExtractedLinks::new()
        };
        let record = PageRecord {
            url: page.final_url.to_string(),
            title,
            markdown,
            metadata: doc.metadata,
            links,
            status_code: page.status,
            content_type: page.content_type,
            depth: task.depth,
            render_method: page.render_method,
        };
        Some(record)
    }

    /// Handle a fetched page whatever it holds: a task at the deepest
    /// possible depth is refused as too deep, and an HTML page whose refresh
    /// `<meta>` cannot be read is refused as unreadable, both without a
    /// change; any other page is processed (see [`Crawler::process_page`]).
    pub fn handle_page(&mut self, task: &CrawlTask, page: FetchedPage) -> (res: PageOutcome)
        ensures
            task@.depth == u32::MAX ==> res is TooDeep && final(self)@ == old(self)@,
            task@.depth < u32::MAX && is_html_kind(str_kind(page.content_type@, page.final_url@))
                && !refreshes_readable(html_dom(page.body@)) ==> res is UnreadableRefresh && final(self)@
                == old(self)@,
            task@.depth < u32::MAX && (is_html_kind(str_kind(page.content_type@, page.final_url@))
                ==> refreshes_readable(html_dom(page.body@))) ==> match res {
                PageOutcome::Record(r) => page_processed(old(self)@, task@, page, Some(r), final(self)@),
                PageOutcome::ParseFailed => page_processed(old(self)@, task@, page, None, final(self)@),
                _ => false,
            },
    {
        if task.depth == u32::MAX {
            return PageOutcome::TooDeep;
        }
        let ct = detect_content_type_from_str(page.content_type.as_str(), &page.final_url);
        let is_html = match ct {
            ContentType::Html | ContentType::Xhtml => true,
            _ => false,
        };
        if is_html {
            let dom = parse_html_document(page.body.as_str());
            if !page_refreshes_readable(&dom) {
                return PageOutcome::UnreadableRefresh;
            }
        }
        match self.process_page(task, page) {
            Some(r) => PageOutcome::Record(r),
            None => PageOutcome::ParseFailed,
        }
    }

    /// The crawl statistics so far.
    pub fn stats(&self) -> (res: crate::scheduler::CrawlStatsSnapshot)
        ensures
            res.total_discovered == self@.scheduler.discovered,
            res.total_crawled == self@.scheduler.crawled,
            res.total_errors == self@.scheduler.errors,
            res.total_skipped == self@.scheduler.skipped,
    {
        self.scheduler.stats()
    }
}

/// Without patterns, every URL passes.
pub proof fn lemma_no_patterns_admit_all(url: Seq<char>)
    ensures
        patterns_admit(Seq::empty(), Seq::empty(), url),
{
}

/// A pattern list that has no match lets nothing through the allow list,
/// unless it is empty.
pub proof fn lemma_allow_list_requires_match(allow_list: Seq<Seq<char>>, deny_list: Seq<Seq<char>>, url: Seq<char>)
    requires
        allow_list.len() > 0,
        !any_match(allow_list, url),
    ensures
        !patterns_admit(allow_list, deny_list, url),
{
}

/// A URL that a pattern to deny matches never passes.
pub proof fn lemma_deny_wins(allow_list: Seq<Seq<char>>, deny_list: Seq<Seq<char>>, url: Seq<char>, j: int)
    requires
        0 <= j < deny_list.len(),
        regex_is_match(deny_list[j], url),
    ensures
        !patterns_admit(allow_list, deny_list, url),
{
}

/// Feeding a page's links back keeps the crawl limits (see
/// `scheduler::crawl_limits`): what is queued stays within the depth limit,
/// on the seed's host in Full mode, and no more URLs are discovered than the
/// page limit allows.
pub proof fn lemma_links_keep_limits(v: SchedulerView, links: LinksView, depth: u32)
    requires
        crate::scheduler::crawl_limits(v),
    ensures
        crate::scheduler::crawl_limits(after_links(v, links, depth)),
{
    lemma_offered_keeps_limits(v, parsed_urls(links.internal), depth, TaskSource::InternalLink);
    let a = offered(v, parsed_urls(links.internal), depth, TaskSource::InternalLink);
    lemma_offered_keeps_limits(a, parsed_urls(links.external), depth, TaskSource::ExternalLink);
    let b = offered(a, parsed_urls(links.external), depth, TaskSource::ExternalLink);
    lemma_offered_keeps_limits(b, parsed_urls(links.subdomains), depth, TaskSource::InternalLink);
}

proof fn lemma_offered_keeps_limits(v: SchedulerView, urls: Seq<UrlView>, depth: u32, source: TaskSource)
    requires
        crate::scheduler::crawl_limits(v),
    ensures
        crate::scheduler::crawl_limits(offered(v, urls, depth, source)),
{
    if !(v.mode == crate::config::ScanMode::Lite || v.seed is None) {
        crate::scheduler::lemma_offers_keep_limits(v, urls, depth, source);
    }
}

/// The limits a crawl runs under stay what they were.
pub open spec fn same_limits(a: SchedulerView, b: SchedulerView) -> bool {
    a.max_pages == b.max_pages && a.max_depth == b.max_depth && a.mode == b.mode
}

/// One move of a crawl from one state to the next: a decision of
/// `next_action`, a fetched page handled, a failed fetch or a crawled page
/// recorded, or a change that leaves the frontier alone (a response time,
/// robots.txt rules).
pub open spec fn crawl_move(a: CrawlerView, b: CrawlerView) -> bool {
    ||| exists|res: CrawlAction| #[trigger] next_step(a, res, b)
    ||| exists|t: TaskView, p: FetchedPage, r: Option<PageRecord>| #[trigger] page_processed(a, t, p, r, b)
    ||| exists|u: UrlView| b.scheduler == #[trigger] marked_failed(a.scheduler, u)
    ||| exists|u: UrlView, now: u64| b.scheduler == #[trigger] completed_at(a.scheduler, u, now)
    ||| b.scheduler == a.scheduler
}

proof fn lemma_move_keeps_limits(a: CrawlerView, b: CrawlerView)
    requires
        crate::scheduler::crawl_limits(a.scheduler),
        crawl_move(a, b),
    ensures
        crate::scheduler::crawl_limits(b.scheduler),
        same_limits(a.scheduler, b.scheduler),
{
    if exists|res: CrawlAction| #[trigger] next_step(a, res, b) {
        let res = choose|res: CrawlAction| #[trigger] next_step(a, res, b);
        lemma_step_keeps_limits(a, res, b);
        match res {
            CrawlAction::Skip(t) => {
                let (now, later, mid) = choose|now: u64, later: u64, mid: SchedulerView|
                    #[trigger] handed_out(a.scheduler, now, Some(t@), mid) && b.scheduler
                        == #[trigger] completed_at(mid, t@.url, later);
            },
            CrawlAction::Fetch { task, .. } => {
                let now = choose|now: u64| #[trigger] handed_out(a.scheduler, now, Some(task@), b.scheduler);
            },
            _ => {},
        }
    } else if exists|t: TaskView, p: FetchedPage, r: Option<PageRecord>| #[trigger] page_processed(a, t, p, r, b) {
        let (t, p, r) = choose|t: TaskView, p: FetchedPage, r: Option<PageRecord>|
            #[trigger] page_processed(a, t, p, r, b);
        let (ct, pr) = choose|ct: ContentType, pr: Result<ParsedDocument, RehykeError>|
            kind_view(ct) == str_kind(p.content_type@, p.final_url@) && #[trigger] parsed_as(
                p.body@,
                ct,
                a.parse_config,
                pr,
            ) && match pr {
                Err(_) => r is None && b == (CrawlerView { scheduler: marked_failed(a.scheduler, t.url), ..a }),
                Ok(doc) => {
                    let links = links_of_page(kind_view(ct), p.body@, p.final_url@);
                    &&& r is Some
                    &&& is_page_record(r->Some_0, doc, p, t, links, a.converter_config)
                    &&& b == (CrawlerView {
                        scheduler: after_links(a.scheduler, links, (t.depth + 1) as u32),
                        ..a
                    })
                },
            };
        match pr {
            Err(_) => {},
            Ok(doc) => {
                let links = links_of_page(kind_view(ct), p.body@, p.final_url@);
                lemma_links_keep_limits(a.scheduler, links, (t.depth + 1) as u32);
                lemma_links_keep_settings(a.scheduler, links, (t.depth + 1) as u32);
            },
        }
    } else if exists|u: UrlView| b.scheduler == #[trigger] marked_failed(a.scheduler, u) {
    } else if exists|u: UrlView, now: u64| b.scheduler == #[trigger] completed_at(a.scheduler, u, now) {
        let (u, now) = choose|u: UrlView, now: u64| b.scheduler == #[trigger] completed_at(a.scheduler, u, now);
        crate::scheduler::lemma_completion_keeps_limits(a.scheduler, u, now);
    }
}

proof fn lemma_links_keep_settings(v: SchedulerView, links: LinksView, depth: u32)
    requires
        crate::scheduler::crawl_limits(v),
    ensures
        same_limits(v, after_links(v, links, depth)),
{
    lemma_offered_keeps_settings(v, parsed_urls(links.internal), depth, TaskSource::InternalLink);
    lemma_offered_keeps_limits(v, parsed_urls(links.internal), depth, TaskSource::InternalLink);
    let a = offered(v, parsed_urls(links.internal), depth, TaskSource::InternalLink);
    lemma_offered_keeps_settings(a, parsed_urls(links.external), depth, TaskSource::ExternalLink);
    lemma_offered_keeps_limits(a, parsed_urls(links.external), depth, TaskSource::ExternalLink);
    let b = offered(a, parsed_urls(links.external), depth, TaskSource::ExternalLink);
    lemma_offered_keeps_settings(b, parsed_urls(links.subdomains), depth, TaskSource::InternalLink);
}

proof fn lemma_offered_keeps_settings(v: SchedulerView, urls: Seq<UrlView>, depth: u32, source: TaskSource)
    requires
        crate::scheduler::crawl_limits(v),
    ensures
        same_limits(v, offered(v, urls, depth, source)),
{
    if !(v.mode == crate::config::ScanMode::Lite || v.seed is None) {
        crate::scheduler::lemma_offers_keep_limits(v, urls, depth, source);
    }
}

/// The limits of a whole crawl: along any run of moves from a crawl state
/// within its limits (such as a new crawler's just after its seed, see
/// [`lemma_seeded_crawl_within_limits`]), every state stays within them
/// under the same page limit, depth limit and mode. So over the whole run no
/// more tasks are handed out, and so no more pages crawled, than the page
/// limit (at least one) allows; every task handed out to be fetched is
/// within the depth limit; and a Lite crawl hands out only its seed, at
/// depth 0.
pub proof fn lemma_run_within_limits(states: Seq<CrawlerView>)
    requires
        states.len() >= 1,
        crate::scheduler::crawl_limits(states[0].scheduler),
        forall|i: int| 0 <= i < states.len() - 1 ==> #[trigger] crawl_move(states[i], states[i + 1]),
    ensures
        forall|i: int| 0 <= i < states.len() ==> {
            &&& crate::scheduler::crawl_limits(#[trigger] states[i].scheduler)
            &&& same_limits(states[0].scheduler, states[i].scheduler)
            &&& states[i].scheduler.handed <= crate::scheduler::page_cap(states[0].scheduler)
            &&& states[0].scheduler.mode == crate::config::ScanMode::Lite ==> states[i].scheduler.handed <= 1
        },
        forall|i: int, res: CrawlAction|
            0 <= i < states.len() - 1 && #[trigger] next_step(states[i], res, states[i + 1]) ==> (
            res matches CrawlAction::Fetch { task, .. } ==> task@.depth <= states[0].scheduler.max_depth && (
            states[0].scheduler.mode == crate::config::ScanMode::Lite ==> task@.depth == 0)),
    decreases states.len(),
{
    if states.len() > 1 {
        let prev = states.drop_last();
        assert forall|i: int| 0 <= i < prev.len() - 1 implies #[trigger] crawl_move(prev[i], prev[i + 1]) by {
            assert(prev[i] == states[i] && prev[i + 1] == states[i + 1]);
            assert(crawl_move(states[i], states[i + 1]));
        }
        lemma_run_within_limits(prev);
        let n = states.len() - 1;
        let k = n - 1;
        assert(prev[k] == states[k]);
        assert(crawl_move(states[k], states[k + 1]));
        lemma_move_keeps_limits(states[k], states[k + 1]);
        assert forall|i: int| 0 <= i < states.len() implies {
            &&& crate::scheduler::crawl_limits(#[trigger] states[i].scheduler)
            &&& same_limits(states[0].scheduler, states[i].scheduler)
            &&& states[i].scheduler.handed <= crate::scheduler::page_cap(states[0].scheduler)
            &&& states[0].scheduler.mode == crate::config::ScanMode::Lite ==> states[i].scheduler.handed <= 1
        } by {
            if i < n {
                assert(prev[i] == states[i]);
            }
        }
        assert forall|i: int, res: CrawlAction|
            0 <= i < states.len() - 1 && #[trigger] next_step(states[i], res, states[i + 1]) implies (
            res matches CrawlAction::Fetch { task, .. } ==> task@.depth <= states[0].scheduler.max_depth && (
            states[0].scheduler.mode == crate::config::ScanMode::Lite ==> task@.depth == 0)) by {
            if i < n - 1 {
                assert(prev[i] == states[i] && prev[i + 1] == states[i + 1]);
                assert(next_step(prev[i], res, prev[i + 1]));
            } else {
                assert(prev[i] == states[i]);
                lemma_step_keeps_limits(states[i], res, states[i + 1]);
            }
        }
    }
}

/// A failed fetch keeps the crawl limits.
pub proof fn lemma_failure_keeps_limits(v: SchedulerView, url: UrlView)
    requires
        crate::scheduler::crawl_limits(v),
    ensures
        crate::scheduler::crawl_limits(marked_failed(v, url)),
{
}

/// From its seed on, a crawl stays within its limits whatever step it takes:
/// a task handed out to be fetched is within the depth limit (at depth 0 in
/// Lite mode), and no more tasks are ever handed out than the page limit (at
/// least one) allows, so no more pages are crawled; in Lite mode only the
/// seed is.
pub proof fn lemma_step_keeps_limits(old: CrawlerView, res: CrawlAction, new: CrawlerView)
    requires
        crate::scheduler::crawl_limits(old.scheduler),
        next_step(old, res, new),
    ensures
        crate::scheduler::crawl_limits(new.scheduler),
        new.scheduler.handed <= crate::scheduler::page_cap(new.scheduler),
        new.scheduler.mode == crate::config::ScanMode::Lite ==> new.scheduler.handed <= 1,
        res matches CrawlAction::Fetch { task, .. } ==> task@.depth <= old.scheduler.max_depth && (
        old.scheduler.mode == crate::config::ScanMode::Lite ==> task@.depth == 0),
{
    match res {
        CrawlAction::Skip(t) => {
            let (now, later, mid) = choose|now: u64, later: u64, mid: SchedulerView|
                #[trigger] handed_out(old.scheduler, now, Some(t@), mid) && new.scheduler
                    == #[trigger] completed_at(mid, t@.url, later);
            crate::scheduler::lemma_hand_out_keeps_limits(old.scheduler, now, Some(t@), mid);
            crate::scheduler::lemma_completion_keeps_limits(mid, t@.url, later);
        },
        CrawlAction::Fetch { task, .. } => {
            let now = choose|now: u64| #[trigger] handed_out(old.scheduler, now, Some(task@), new.scheduler);
            crate::scheduler::lemma_hand_out_keeps_limits(old.scheduler, now, Some(task@), new.scheduler);
        },
        _ => {},
    }
}

/// A new crawler with its seed added is within the crawl limits.
pub proof fn lemma_seeded_crawl_within_limits(c: CrawlerView, url: UrlView)
    requires
        c.scheduler.frontier.len() == 0,
        c.scheduler.discovered == 0,
        c.scheduler.handed == 0,
    ensures
        crate::scheduler::crawl_limits(crate::scheduler::seeded(c.scheduler, url)),
{
    crate::scheduler::lemma_seeded_within_limits(c.scheduler, url);
}


/// The limits of a whole crawl from its start, in the terms of its
/// configuration. Take a crawler as [`Crawler::new`] makes it from `config`
/// (with a depth limit that fits in `u32`): an empty frontier, nothing
/// discovered or handed out, and the configuration's mode, page limit and
/// depth limit. Once its seed is added, along any run of moves no more tasks
/// are handed out, and so no more pages crawled, than `config.max_pages`
/// (at least one) allows; every task handed out to be fetched is at most
/// `config.max_depth` deep; and a Lite crawl hands out at most its seed, at
/// depth 0.
pub proof fn lemma_fresh_crawl_within_limits(
    config: CrawlConfig,
    c: CrawlerView,
    url: UrlView,
    states: Seq<CrawlerView>,
)
    requires
        config.max_depth <= u32::MAX,
        c.scheduler.frontier.len() == 0,
        c.scheduler.discovered == 0,
        c.scheduler.handed == 0,
        c.scheduler.mode == config.mode,
        c.scheduler.max_pages == config.max_pages,
        c.scheduler.max_depth == config.max_depth as u32,
        states.len() >= 1,
        states[0].scheduler == crate::scheduler::seeded(c.scheduler, url),
        forall|i: int| 0 <= i < states.len() - 1 ==> #[trigger] crawl_move(states[i], states[i + 1]),
    ensures
        forall|i: int| 0 <= i < states.len() ==> (#[trigger] states[i].scheduler).handed <= (if config.max_pages
            >= 1 {
            config.max_pages as nat
        } else {
            1nat
        }),
        config.mode == crate::config::ScanMode::Lite ==> forall|i: int|
            0 <= i < states.len() ==> (#[trigger] states[i].scheduler).handed <= 1,
        forall|i: int, res: CrawlAction|
            0 <= i < states.len() - 1 && #[trigger] next_step(states[i], res, states[i + 1]) ==> (
            res matches CrawlAction::Fetch { task, .. } ==> task@.depth <= config.max_depth && (config.mode
                == crate::config::ScanMode::Lite ==> task@.depth == 0)),
{
    lemma_seeded_crawl_within_limits(c, url);
    lemma_run_within_limits(states);
    assert(states[0].scheduler.max_depth == config.max_depth);
}

} // verus!
