//! robots.txt: parsing the file into per-agent rule groups, and deciding
//! whether a path may be crawled.
//!
//! Path patterns support `*` (any run of characters) and a trailing `$`
//! (anchor at the end of the path); a pattern without either is a prefix.

use vstd::prelude::*;

use crate::text::{
    ascii_lower_seq, ascii_lower_string, byte_len, chars_of, clone_strings, eq_str, find_first,
    find_from, find_seq, has_prefix_at, lines_of, lines_vec, occurs_at, push_char, push_str,
    split_chars, split_on, starts_with, string_from_range, to_lowercase, trim, trim_str,
    unicode_lowercase, utf8_len, views,
};
use crate::utils::Url;

verus! {

// ---------------------------------------------------------------------------
// Path patterns: the model
// ---------------------------------------------------------------------------

/// `s[pos..]` matches `*segs[0]*segs[1]*...*segs[r-1]*`: the segments occur
/// in order, without overlapping, at or after `pos`.
pub open spec fn floating(s: Seq<char>, pos: int, segs: Seq<Seq<char>>) -> bool
    decreases segs.len(),
{
    if segs.len() == 0 {
        0 <= pos <= s.len()
    } else {
        exists|i: int|
            pos <= i && #[trigger] occurs_at(s, segs[0], i) && floating(
                s,
                i + segs[0].len(),
                segs.drop_first(),
            )
    }
}

/// `s[pos..]` matches `*segs[0]*segs[1]*...*segs[r-1]`: as [`floating`], and
/// the last segment ends where `s` ends.
pub open spec fn floating_end(s: Seq<char>, pos: int, segs: Seq<Seq<char>>) -> bool
    decreases segs.len(),
{
    if segs.len() == 0 {
        0 <= pos <= s.len()
    } else if segs.len() == 1 {
        exists|i: int| pos <= i && #[trigger] occurs_at(s, segs[0], i) && i + segs[0].len() == s.len()
    } else {
        exists|i: int|
            pos <= i && #[trigger] occurs_at(s, segs[0], i) && floating_end(
                s,
                i + segs[0].len(),
                segs.drop_first(),
            )
    }
}

/// A pattern ends with the `$` anchor.
pub open spec fn is_anchored(pattern: Seq<char>) -> bool {
    pattern.len() > 0 && pattern.last() == '$'
}

/// The pattern without its `$` anchor.
pub open spec fn unanchored(pattern: Seq<char>) -> Seq<char> {
    if is_anchored(pattern) {
        pattern.drop_last()
    } else {
        pattern
    }
}

/// Whether `path` matches a robots.txt `pattern`. Without `*`, the pattern is
/// a prefix of the path (the whole path when anchored). With `*`, the pieces
/// between the stars occur in order, the first at the start of the path, and,
/// when anchored, the last at its end.
pub open spec fn pattern_matches(path: Seq<char>, pattern: Seq<char>) -> bool {
    let anchored = is_anchored(pattern);
    let p = unanchored(pattern);
    if !p.contains('*') {
        if anchored {
            path == p
        } else {
            starts_with(path, p)
        }
    } else {
        let segs = split_on(p, '*');
        &&& starts_with(path, segs[0])
        &&& if anchored {
            floating_end(path, segs[0].len() as int, segs.drop_first())
        } else {
            floating(path, segs[0].len() as int, segs.drop_first())
        }
    }
}

// ---------------------------------------------------------------------------
// Path patterns: lemmas
// ---------------------------------------------------------------------------

/// [`floating`] holds from any earlier position.
proof fn lemma_floating_earlier(s: Seq<char>, a: int, b: int, segs: Seq<Seq<char>>)
    requires
        0 <= b <= a,
        floating(s, a, segs),
    ensures
        floating(s, b, segs),
{
    if segs.len() > 0 {
        let i = choose|i: int|
            a <= i && #[trigger] occurs_at(s, segs[0], i) && floating(
                s,
                i + segs[0].len(),
                segs.drop_first(),
            );
        assert(b <= i && occurs_at(s, segs[0], i));
    }
}

/// [`floating_end`] holds from any earlier position.
proof fn lemma_floating_end_earlier(s: Seq<char>, a: int, b: int, segs: Seq<Seq<char>>)
    requires
        0 <= b <= a,
        floating_end(s, a, segs),
    ensures
        floating_end(s, b, segs),
{
    if segs.len() == 1 {
        let i = choose|i: int|
            a <= i && #[trigger] occurs_at(s, segs[0], i) && i + segs[0].len() == s.len();
        assert(b <= i && occurs_at(s, segs[0], i));
    } else if segs.len() > 1 {
        let i = choose|i: int|
            a <= i && #[trigger] occurs_at(s, segs[0], i) && floating_end(
                s,
                i + segs[0].len(),
                segs.drop_first(),
            );
        assert(b <= i && occurs_at(s, segs[0], i));
    }
}

/// Taking the first occurrence of the first segment loses no match.
proof fn lemma_floating_first(s: Seq<char>, pos: int, segs: Seq<Seq<char>>, i: int)
    requires
        segs.len() >= 1,
        0 <= pos <= i,
        occurs_at(s, segs[0], i),
        forall|j: int| pos <= j < i ==> !occurs_at(s, segs[0], j),
    ensures
        floating(s, pos, segs) == floating(s, i + segs[0].len(), segs.drop_first()),
        segs.len() >= 2 ==> floating_end(s, pos, segs) == floating_end(
            s,
            i + segs[0].len(),
            segs.drop_first(),
        ),
{
    if floating(s, pos, segs) {
        let k = choose|k: int|
            pos <= k && #[trigger] occurs_at(s, segs[0], k) && floating(
                s,
                k + segs[0].len(),
                segs.drop_first(),
            );
        assert(i <= k);
        lemma_floating_earlier(s, k + segs[0].len(), i + segs[0].len(), segs.drop_first());
    }
    if segs.len() >= 2 && floating_end(s, pos, segs) {
        let k = choose|k: int|
            pos <= k && #[trigger] occurs_at(s, segs[0], k) && floating_end(
                s,
                k + segs[0].len(),
                segs.drop_first(),
            );
        assert(i <= k);
        lemma_floating_end_earlier(s, k + segs[0].len(), i + segs[0].len(), segs.drop_first());
    }
}

/// Splitting at a character that occurs gives at least two pieces.
proof fn lemma_split_contains(s: Seq<char>, sep: char)
    requires
        s.contains(sep),
    ensures
        split_on(s, sep).len() >= 2,
    decreases s.len(),
{
    crate::text::lemma_split_len(s.drop_last(), sep);
    if s.last() != sep {
        let k = choose|k: int| 0 <= k < s.len() && s[k] == sep;
        assert(s.drop_last()[k] == sep);
        lemma_split_contains(s.drop_last(), sep);
    }
}

// ---------------------------------------------------------------------------
// Path patterns: the code
// ---------------------------------------------------------------------------

/// Whether `c` occurs in `v`.
fn contains_char(v: &Vec<char>, c: char) -> (res: bool)
    ensures
        res == v@.contains(c),
{
    let mut i: usize = 0;
    while i < v.len()
        invariant
            i <= v.len(),
            forall|k: int| 0 <= k < i ==> v@[k] != c,
        decreases v.len() - i,
    {
        if v[i] == c {
            assert(v@[i as int] == c);
            return true;
        }
        i = i + 1;
    }
    false
}

/// Whether `path` matches the robots.txt `pattern` (see [`pattern_matches`]).
pub fn path_matches(path: &str, pattern: &str) -> (res: bool)
    ensures
        res == pattern_matches(path@, pattern@),
{
    let sv = chars_of(path);
    let full = chars_of(pattern);
    let anchored = full.len() > 0 && full[full.len() - 1] == '$';
    let pv: Vec<char> = if anchored {
        let mut t: Vec<char> = Vec::new();
        let mut k: usize = 0;
        while k + 1 < full.len()
            invariant
                k + 1 <= full.len(),
                t@ == full@.subrange(0, k as int),
            decreases full.len() - k,
        {
            t.push(full[k]);
            k = k + 1;
            assert(t@ =~= full@.subrange(0, k as int));
        }
        assert(t@ =~= full@.drop_last());
        t
    } else {
        full
    };
    assert(pv@ == unanchored(pattern@));
    if !contains_char(&pv, '*') {
        if anchored {
            if sv.len() != pv.len() {
                return false;
            }
            let r = has_prefix_at(&sv, 0, &pv);
            assert(r ==> sv@ =~= pv@) by {
                if r {
                    assert(sv@.subrange(0, pv@.len() as int) == pv@);
                    assert(sv@.subrange(0, sv@.len() as int) =~= sv@);
                }
            }
            assert(sv@ == pv@ ==> r) by {
                if sv@ == pv@ {
                    assert(sv@.subrange(0, sv@.len() as int) =~= sv@);
                }
            }
            return r;
        } else {
            let r = has_prefix_at(&sv, 0, &pv);
            assert(sv@.subrange(0, sv@.len() as int) =~= sv@);
            return r;
        }
    }
    let segs = split_chars(&pv, '*');
    let ghost g = split_on(pv@, '*');
    proof {
        lemma_split_contains(pv@, '*');
    }
    let n = segs.len();
    if !has_prefix_at(&sv, 0, &segs[0]) {
        assert(sv@.subrange(0, sv@.len() as int) =~= sv@);
        return false;
    }
    assert(sv@.subrange(0, sv@.len() as int) =~= sv@);
    let ghost target = if anchored {
        floating_end(path@, g[0].len() as int, g.drop_first())
    } else {
        floating(path@, g[0].len() as int, g.drop_first())
    };
    assert(pattern_matches(path@, pattern@) == target);
    let mut pos: usize = segs[0].len();
    let mut k: usize = 1;
    assert(g.subrange(1, n as int) =~= g.drop_first());
    while k + 1 < n
        invariant
            n == segs@.len(),
            n == g.len(),
            n >= 2,
            1 <= k < n,
            forall|j: int| 0 <= j < n ==> #[trigger] segs@[j]@ == g[j],
            sv@ == path@,
            pos <= sv.len(),
            pattern_matches(path@, pattern@) == target,
            target == if anchored {
                floating_end(path@, pos as int, g.subrange(k as int, n as int))
            } else {
                floating(path@, pos as int, g.subrange(k as int, n as int))
            },
        decreases n - k,
    {
        let ghost rest = g.subrange(k as int, n as int);
        assert(rest[0] == g[k as int]);
        assert(rest.drop_first() =~= g.subrange(k + 1, n as int));
        match find_from(&sv, &segs[k], pos) {
            Some(i) => {
                proof {
                    lemma_floating_first(path@, pos as int, rest, i as int);
                }
                pos = i + segs[k].len();
            },
            None => {
                assert(segs@[k as int]@ == rest[0]);
                assert(forall|j: int| pos <= j ==> !occurs_at(path@, rest[0], j));
                assert(!floating(path@, pos as int, rest));
                assert(!floating_end(path@, pos as int, rest));
                return false;
            },
        }
        k = k + 1;
    }
    let last = &segs[n - 1];
    let ghost rest = g.subrange(k as int, n as int);
    assert(rest =~= seq![g[n - 1]]);
    assert(rest[0] == last@);
    assert(rest.drop_first() =~= Seq::<Seq<char>>::empty());
    if anchored {
        if last.len() > sv.len() || sv.len() - last.len() < pos {
            assert(!floating_end(path@, pos as int, rest));
            return false;
        }
        let r = has_prefix_at(&sv, sv.len() - last.len(), last);
        assert(r ==> floating_end(path@, pos as int, rest)) by {
            if r {
                assert(occurs_at(path@, rest[0], sv.len() - last.len()));
            }
        }
        r
    } else {
        match find_from(&sv, last, pos) {
            Some(i) => {
                assert(occurs_at(path@, rest[0], i as int));
                assert(floating(path@, i + last@.len(), rest.drop_first()));
                true
            },
            None => {
                assert(!floating(path@, pos as int, rest));
                false
            },
        }
    }
}


// ---------------------------------------------------------------------------
// Rules: the model
// ---------------------------------------------------------------------------

/// One user-agent group: the agent name (lowercased) with its allow and
/// disallow patterns.
pub ghost struct RuleView {
    pub user_agent: Seq<char>,
    pub allow: Seq<Seq<char>>,
    pub disallow: Seq<Seq<char>>,
}

/// A parsed robots.txt: the rule groups in file order, the sitemap URLs, and
/// the raw values of the `Crawl-delay` lines in file order.
pub ghost struct RobotsView {
    pub rules: Seq<RuleView>,
    pub sitemaps: Seq<Seq<char>>,
    pub crawl_delays: Seq<Seq<char>>,
}

/// The state of the line-by-line parse: finished groups and lists, and the
/// group being collected (its agents and patterns so far).
pub ghost struct ParseState {
    pub rules: Seq<RuleView>,
    pub sitemaps: Seq<Seq<char>>,
    pub crawl_delays: Seq<Seq<char>>,
    pub agents: Seq<Seq<char>>,
    pub allow: Seq<Seq<char>>,
    pub disallow: Seq<Seq<char>>,
}

/// The state before the first line.
pub open spec fn initial_state() -> ParseState {
    ParseState {
        rules: Seq::empty(),
        sitemaps: Seq::empty(),
        crawl_delays: Seq::empty(),
        agents: Seq::empty(),
        allow: Seq::empty(),
        disallow: Seq::empty(),
    }
}

/// Close the group being collected: one rule per collected agent, each with
/// the patterns collected so far; then start an empty group.
pub open spec fn flush(st: ParseState) -> ParseState {
    ParseState {
        rules: st.rules + st.agents.map_values(
            |a: Seq<char>| RuleView { user_agent: a, allow: st.allow, disallow: st.disallow },
        ),
        sitemaps: st.sitemaps,
        crawl_delays: st.crawl_delays,
        agents: Seq::empty(),
        allow: Seq::empty(),
        disallow: Seq::empty(),
    }
}

/// `s` up to the first `#`, trimmed; `s` itself when it has no `#`.
pub open spec fn strip_comment(s: Seq<char>) -> Seq<char> {
    match find_first(s, seq!['#']) {
        Some(j) => trim(s.subrange(0, j)),
        None => s,
    }
}

/// The directive (trimmed, ASCII-lowercased) and value (trimmed, inline
/// comment removed) of a line, split at its first `:`. `None` for a blank
/// line, a comment line, or a line without `:`.
pub open spec fn directive_of(line: Seq<char>) -> Option<(Seq<char>, Seq<char>)> {
    let t = trim(line);
    if t.len() == 0 || t[0] == '#' {
        None
    } else {
        match find_first(t, seq![':']) {
            None => None,
            Some(i) => Some(
                (
                    ascii_lower_seq(trim(t.subrange(0, i))),
                    strip_comment(trim(t.subrange(i + 1, t.len() as int))),
                ),
            ),
        }
    }
}

/// The effect of one line on the parse state.
pub open spec fn step(st: ParseState, line: Seq<char>) -> ParseState {
    match directive_of(line) {
        None => st,
        Some((d, v)) => if d == "user-agent"@ {
            let s = if st.allow.len() > 0 || st.disallow.len() > 0 {
                flush(st)
            } else {
                st
            };
            ParseState { agents: s.agents.push(unicode_lowercase(v)), ..s }
        } else if d == "allow"@ {
            if v.len() > 0 {
                ParseState { allow: st.allow.push(v), ..st }
            } else {
                st
            }
        } else if d == "disallow"@ {
            if v.len() > 0 {
                ParseState { disallow: st.disallow.push(v), ..st }
            } else {
                st
            }
        } else if d == "sitemap"@ {
            if v.len() > 0 {
                ParseState { sitemaps: st.sitemaps.push(v), ..st }
            } else {
                st
            }
        } else if d == "crawl-delay"@ {
            ParseState { crawl_delays: st.crawl_delays.push(v), ..st }
        } else {
            st
        },
    }
}

/// The state after the given lines.
pub open spec fn run(lines: Seq<Seq<char>>) -> ParseState
    decreases lines.len(),
{
    if lines.len() == 0 {
        initial_state()
    } else {
        step(run(lines.drop_last()), lines.last())
    }
}

/// The parse of a whole robots.txt file: every line run, the last group
/// closed.
pub open spec fn parsed(content: Seq<char>) -> RobotsView {
    let st = flush(run(lines_of(content)));
    RobotsView { rules: st.rules, sitemaps: st.sitemaps, crawl_delays: st.crawl_delays }
}

/// Some group names `agent`.
pub open spec fn has_agent(rules: Seq<RuleView>, agent: Seq<char>) -> bool {
    exists|i: int| 0 <= i < rules.len() && #[trigger] rules[i].user_agent == agent
}

/// The agent whose groups apply: `rehyke` when some group names it, else `*`.
pub open spec fn our_agent(rules: Seq<RuleView>) -> Seq<char> {
    if has_agent(rules, "rehyke"@) {
        "rehyke"@
    } else {
        "*"@
    }
}

/// The larger of two optional lengths.
pub open spec fn opt_max(a: Option<nat>, b: Option<nat>) -> Option<nat> {
    match (a, b) {
        (Some(x), Some(y)) => Some(if x >= y { x } else { y }),
        (Some(x), None) => Some(x),
        (None, _) => b,
    }
}

/// The byte length of the longest pattern that matches `path`.
pub open spec fn longest_match(patterns: Seq<Seq<char>>, path: Seq<char>) -> Option<nat>
    decreases patterns.len(),
{
    if patterns.len() == 0 {
        None
    } else {
        let prev = longest_match(patterns.drop_last(), path);
        if pattern_matches(path, patterns.last()) {
            opt_max(prev, Some(utf8_len(patterns.last())))
        } else {
            prev
        }
    }
}

/// The allow (or disallow) patterns of a group.
pub open spec fn patterns_of(r: RuleView, allow: bool) -> Seq<Seq<char>> {
    if allow {
        r.allow
    } else {
        r.disallow
    }
}

/// The longest matching allow (or disallow) pattern over the groups of
/// `agent`.
pub open spec fn longest_for(rules: Seq<RuleView>, agent: Seq<char>, path: Seq<char>, allow: bool) -> Option<nat>
    decreases rules.len(),
{
    if rules.len() == 0 {
        None
    } else {
        let prev = longest_for(rules.drop_last(), agent, path, allow);
        if rules.last().user_agent == agent {
            opt_max(prev, longest_match(patterns_of(rules.last(), allow), path))
        } else {
            prev
        }
    }
}

/// Whether `path` may be crawled: the longest matching pattern decides, an
/// allow winning a tie; a path no pattern matches is allowed.
pub open spec fn allowed(r: RobotsView, path: Seq<char>) -> bool {
    let agent = our_agent(r.rules);
    match (longest_for(r.rules, agent, path, true), longest_for(r.rules, agent, path, false)) {
        (Some(a), Some(d)) => a >= d,
        (None, Some(_)) => false,
        _ => true,
    }
}

// ---------------------------------------------------------------------------
// Rules: the code
// ---------------------------------------------------------------------------

/// A single user-agent group of a robots.txt file.
#[derive(Debug, Clone)]
pub struct RobotsRule {
    user_agent: String,
    allow: Vec<String>,
    disallow: Vec<String>,
}

impl View for RobotsRule {
    type V = RuleView;

    closed spec fn view(&self) -> RuleView {
        RuleView {
            user_agent: self.user_agent@,
            allow: views(self.allow@),
            disallow: views(self.disallow@),
        }
    }
}

/// The views of a list of groups.
pub open spec fn rules_view(v: Seq<RobotsRule>) -> Seq<RuleView> {
    v.map_values(|r: RobotsRule| r@)
}

/// Parsed robots.txt rules.
#[derive(Debug, Clone)]
pub struct RobotsTxt {
    rules: Vec<RobotsRule>,
    sitemaps: Vec<String>,
    crawl_delays: Vec<String>,
}

impl View for RobotsTxt {
    type V = RobotsView;

    closed spec fn view(&self) -> RobotsView {
        RobotsView {
            rules: rules_view(self.rules@),
            sitemaps: views(self.sitemaps@),
            crawl_delays: views(self.crawl_delays@),
        }
    }
}

/// The parse in progress.
struct RobotsParser {
    rules: Vec<RobotsRule>,
    sitemaps: Vec<String>,
    crawl_delays: Vec<String>,
    agents: Vec<String>,
    allow: Vec<String>,
    disallow: Vec<String>,
}

impl View for RobotsParser {
    type V = ParseState;

    closed spec fn view(&self) -> ParseState {
        ParseState {
            rules: rules_view(self.rules@),
            sitemaps: views(self.sitemaps@),
            crawl_delays: views(self.crawl_delays@),
            agents: views(self.agents@),
            allow: views(self.allow@),
            disallow: views(self.disallow@),
        }
    }
}

impl RobotsParser {
    fn new() -> (res: RobotsParser)
        ensures
            res@ == initial_state(),
    {
        let res = RobotsParser {
            rules: Vec::new(),
            sitemaps: Vec::new(),
            crawl_delays: Vec::new(),
            agents: Vec::new(),
            allow: Vec::new(),
            disallow: Vec::new(),
        };
        assert(rules_view(res.rules@) =~= Seq::<RuleView>::empty());
        assert(views(res.sitemaps@) =~= Seq::<Seq<char>>::empty());
        assert(views(res.crawl_delays@) =~= Seq::<Seq<char>>::empty());
        assert(views(res.agents@) =~= Seq::<Seq<char>>::empty());
        assert(views(res.allow@) =~= Seq::<Seq<char>>::empty());
        assert(views(res.disallow@) =~= Seq::<Seq<char>>::empty());
        res
    }

    fn flush(&mut self)
        ensures
            final(self)@ == flush(old(self)@),
    {
        let ghost st = self@;
        let ghost added = st.agents.map_values(
            |a: Seq<char>| RuleView { user_agent: a, allow: st.allow, disallow: st.disallow },
        );
        let mut i: usize = 0;
        while i < self.agents.len()
            invariant
                i <= self.agents@.len(),
                views(self.agents@) == st.agents,
                views(self.allow@) == st.allow,
                views(self.disallow@) == st.disallow,
                views(self.sitemaps@) == st.sitemaps,
                views(self.crawl_delays@) == st.crawl_delays,
                added == st.agents.map_values(
                    |a: Seq<char>| RuleView { user_agent: a, allow: st.allow, disallow: st.disallow },
                ),
                rules_view(self.rules@) == st.rules + added.subrange(0, i as int),
            decreases self.agents@.len() - i,
        {
            let rule = RobotsRule {
                user_agent: self.agents[i].clone(),
                allow: clone_strings(&self.allow),
                disallow: clone_strings(&self.disallow),
            };
            assert(rule@ == added[i as int]);
            let ghost before = self.rules@;
            self.rules.push(rule);
            assert(rules_view(self.rules@) =~= rules_view(before).push(rule@));
            i = i + 1;
            assert(added.subrange(0, i as int) =~= added.subrange(0, i - 1).push(added[i - 1]));
        }
        assert(added.subrange(0, added.len() as int) =~= added);
        self.agents = Vec::new();
        self.allow = Vec::new();
        self.disallow = Vec::new();
        assert(views(self.agents@) =~= Seq::<Seq<char>>::empty());
        assert(views(self.allow@) =~= Seq::<Seq<char>>::empty());
        assert(views(self.disallow@) =~= Seq::<Seq<char>>::empty());
    }

    fn feed(&mut self, line: &str)
        ensures
            final(self)@ == step(old(self)@, line@),
    {
        match parse_line(line) {
            None => {},
            Some((d, v)) => {
                let vs = v.as_str();
                if eq_str(d.as_str(), "user-agent") {
                    if self.allow.len() > 0 || self.disallow.len() > 0 {
                        self.flush();
                    }
                    let agent = to_lowercase(vs);
                    let ghost before = self.agents@;
                    self.agents.push(agent);
                    assert(views(self.agents@) =~= views(before).push(agent@));
                } else if eq_str(d.as_str(), "allow") {
                    if !vs.is_empty() {
                        let ghost before = self.allow@;
                        self.allow.push(v);
                        assert(views(self.allow@) =~= views(before).push(vs@));
                    }
                } else if eq_str(d.as_str(), "disallow") {
                    if !vs.is_empty() {
                        let ghost before = self.disallow@;
                        self.disallow.push(v);
                        assert(views(self.disallow@) =~= views(before).push(vs@));
                    }
                } else if eq_str(d.as_str(), "sitemap") {
                    if !vs.is_empty() {
                        let ghost before = self.sitemaps@;
                        self.sitemaps.push(v);
                        assert(views(self.sitemaps@) =~= views(before).push(vs@));
                    }
                } else if eq_str(d.as_str(), "crawl-delay") {
                    let ghost before = self.crawl_delays@;
                    self.crawl_delays.push(v);
                    assert(views(self.crawl_delays@) =~= views(before).push(vs@));
                }
            },
        }
    }
}

/// The value up to its first `#`, trimmed (see [`strip_comment`]).
fn strip_comment_exec(v: String) -> (res: String)
    ensures
        res@ == strip_comment(v@),
{
    let vv = chars_of(v.as_str());
    let hash: Vec<char> = vec!['#'];
    assert(hash@ =~= seq!['#']);
    match find_seq(&vv, &hash) {
        Some(j) => {
            let before = string_from_range(&vv, 0, j);
            trim_str(before.as_str())
        },
        None => v,
    }
}

/// Split one line into its directive and value (see [`directive_of`]).
#[verifier::rlimit(30)]
fn parse_line(line: &str) -> (res: Option<(String, String)>)
    ensures
        match res {
            Some((d, v)) => directive_of(line@) == Some((d@, v@)),
            None => directive_of(line@) is None,
        },
{
    let t = trim_str(line);
    let tv = chars_of(t.as_str());
    if tv.len() == 0 || tv[0] == '#' {
        return None;
    }
    let colon: Vec<char> = vec![':'];
    assert(colon@ =~= seq![':']);
    let i = match find_seq(&tv, &colon) {
        Some(i) => i,
        None => return None,
    };
    let head = string_from_range(&tv, 0, i);
    let head_t = trim_str(head.as_str());
    let d = ascii_lower_string(head_t.as_str());
    let tail = string_from_range(&tv, i + 1, tv.len());
    let v = trim_str(tail.as_str());
    let value = strip_comment_exec(v);
    Some((d, value))
}

impl RobotsTxt {
    /// Parse robots.txt content. Recognised directives (case-insensitive):
    /// `User-agent`, `Allow`, `Disallow`, `Sitemap`, `Crawl-delay`; blank
    /// lines, comments, lines without `:` and unknown directives are skipped,
    /// and a `#` starts an inline comment.
    pub fn parse(content: &str) -> (res: RobotsTxt)
        ensures
            res@ == parsed(content@),
    {
        let lines = lines_vec(content);
        let mut p = RobotsParser::new();
        let mut i: usize = 0;
        while i < lines.len()
            invariant
                i <= lines.len(),
                views(lines@) == lines_of(content@),
                p@ == run(views(lines@).subrange(0, i as int)),
            decreases lines.len() - i,
        {
            let ghost pre = views(lines@).subrange(0, i as int);
            p.feed(lines[i].as_str());
            i = i + 1;
            assert(views(lines@).subrange(0, i as int).drop_last() =~= pre);
        }
        assert(views(lines@).subrange(0, lines@.len() as int) =~= views(lines@));
        p.flush();
        RobotsTxt { rules: p.rules, sitemaps: p.sitemaps, crawl_delays: p.crawl_delays }
    }
}


/// Whether some group names `agent`.
fn has_agent_exec(rules: &Vec<RobotsRule>, agent: &str) -> (res: bool)
    ensures
        res == has_agent(rules_view(rules@), agent@),
{
    let mut i: usize = 0;
    while i < rules.len()
        invariant
            i <= rules.len(),
            forall|k: int| 0 <= k < i ==> rules_view(rules@)[k].user_agent != agent@,
        decreases rules.len() - i,
    {
        if eq_str(rules[i].user_agent.as_str(), agent) {
            assert(rules_view(rules@)[i as int].user_agent == agent@);
            return true;
        }
        assert(rules_view(rules@)[i as int] == rules@[i as int]@);
        i = i + 1;
    }
    false
}

/// `opt_max` on executable lengths.
fn opt_max_exec(a: Option<usize>, b: usize) -> (res: Option<usize>)
    ensures
        res is Some,
        opt_max(opt_nat(a), Some(b as nat)) == opt_nat(res),
{
    match a {
        Some(x) => if x >= b {
            Some(x)
        } else {
            Some(b)
        },
        None => Some(b),
    }
}

/// An optional `usize` as an optional `nat`.
pub open spec fn opt_nat(a: Option<usize>) -> Option<nat> {
    match a {
        Some(x) => Some(x as nat),
        None => None,
    }
}

/// The longest matching pattern of the groups of `agent`, allow or disallow.
fn longest_for_exec(rules: &Vec<RobotsRule>, agent: &str, path: &str, allow: bool) -> (res: Option<
    usize,
>)
    ensures
        opt_nat(res) == longest_for(rules_view(rules@), agent@, path@, allow),
{
    let ghost rv = rules_view(rules@);
    let mut best: Option<usize> = None;
    let mut i: usize = 0;
    while i < rules.len()
        invariant
            i <= rules.len(),
            rv == rules_view(rules@),
            opt_nat(best) == longest_for(rv.subrange(0, i as int), agent@, path@, allow),
        decreases rules.len() - i,
    {
        let rule = &rules[i];
        let ghost before = best;
        assert(rv.subrange(0, i + 1).drop_last() =~= rv.subrange(0, i as int));
        assert(rv.subrange(0, i + 1).last() == rule@);
        if eq_str(rule.user_agent.as_str(), agent) {
            let pats = if allow {
                &rule.allow
            } else {
                &rule.disallow
            };
            let ghost pv = patterns_of(rule@, allow);
            assert(views(pats@) == pv);
            let mut j: usize = 0;
            while j < pats.len()
                invariant
                    j <= pats.len(),
                    views(pats@) == pv,
                    opt_nat(best) == opt_max(opt_nat(before), longest_match(pv.subrange(0, j as int), path@)),
                decreases pats.len() - j,
            {
                assert(pv.subrange(0, j + 1).drop_last() =~= pv.subrange(0, j as int));
                assert(pv.subrange(0, j + 1).last() == pats@[j as int]@);
                if path_matches(path, pats[j].as_str()) {
                    let len = byte_len(pats[j].as_str());
                    best = opt_max_exec(best, len);
                }
                j = j + 1;
            }
            assert(pv.subrange(0, pv.len() as int) =~= pv);
        }
        i = i + 1;
    }
    assert(rv.subrange(0, rv.len() as int) =~= rv);
    best
}

impl RobotsTxt {
    /// Whether our crawler may fetch `path`. The groups for `rehyke` apply
    /// when there are any, else those for `*`; among their patterns that
    /// match, the longest (in bytes) decides, an allow winning a tie with a
    /// disallow; with no matching pattern the path is allowed.
    pub fn is_allowed(&self, path: &str) -> (res: bool)
        ensures
            res == allowed(self@, path@),
    {
        let agent = if has_agent_exec(&self.rules, "rehyke") {
            "rehyke"
        } else {
            "*"
        };
        let best_allow = longest_for_exec(&self.rules, agent, path, true);
        let best_disallow = longest_for_exec(&self.rules, agent, path, false);
        match (best_allow, best_disallow) {
            (Some(a), Some(d)) => a >= d,
            (Some(_), None) => true,
            (None, Some(_)) => false,
            (None, None) => true,
        }
    }

    /// The sitemap URLs listed in the file, in order.
    pub fn sitemaps(&self) -> (res: &[String])
        ensures
            views(res@) == self@.sitemaps,
    {
        self.sitemaps.as_slice()
    }

    /// The raw values of the `Crawl-delay` lines, in order; the delay in
    /// effect is the last of them that reads as a number of seconds.
    pub fn crawl_delay_values(&self) -> (res: &[String])
        ensures
            views(res@) == self@.crawl_delays,
    {
        self.crawl_delays.as_slice()
    }

    /// The robots.txt URL of a site: `<scheme>://<host>/robots.txt`, with
    /// `localhost` for a URL without a host.
    pub fn robots_url(base: &Url) -> (res: String)
        ensures
            res@ == base@.scheme + "://"@ + (match base@.host {
                Some(h) => h,
                None => "localhost"@,
            }) + "/robots.txt"@,
    {
        let mut out = String::new();
        push_str(&mut out, base.scheme());
        push_str(&mut out, "://");
        match base.host_str() {
            Some(h) => push_str(&mut out, h),
            None => push_str(&mut out, "localhost"),
        }
        push_str(&mut out, "/robots.txt");
        out
    }
}

impl Default for RobotsTxt {
    fn default() -> (res: RobotsTxt)
        ensures
            res@.rules.len() == 0,
            res@.sitemaps.len() == 0,
            res@.crawl_delays.len() == 0,
    {
        RobotsTxt { rules: Vec::new(), sitemaps: Vec::new(), crawl_delays: Vec::new() }
    }
}


// ---------------------------------------------------------------------------
// Laws
// ---------------------------------------------------------------------------

/// The pattern `*` matches every path.
pub proof fn lemma_star_matches_all(path: Seq<char>)
    ensures
        pattern_matches(path, seq!['*']),
{
    let p = seq!['*'];
    assert(p.contains('*')) by {
        assert(p[0] == '*');
    }
    let segs = split_on(p, '*');
    assert(p.drop_last() =~= Seq::<char>::empty());
    assert(split_on(Seq::<char>::empty(), '*') =~= seq![Seq::<char>::empty()]);
    assert(p.last() == '*');
    assert(segs =~= seq![Seq::<char>::empty(), Seq::<char>::empty()]);
    assert(starts_with(path, segs[0])) by {
        assert(path.subrange(0, 0) =~= Seq::<char>::empty());
    }
    let rest = segs.drop_first();
    assert(rest =~= seq![Seq::<char>::empty()]);
    assert(occurs_at(path, rest[0], 0)) by {
        assert(path.subrange(0, 0) =~= rest[0]);
    }
    assert(floating(path, 0int + rest[0].len(), rest.drop_first()));
}

/// A pattern without `*` or a trailing `$` matches exactly the paths that
/// start with it.
pub proof fn lemma_plain_pattern_is_prefix(path: Seq<char>, pattern: Seq<char>)
    requires
        !pattern.contains('*'),
        !is_anchored(pattern),
    ensures
        pattern_matches(path, pattern) == starts_with(path, pattern),
{
}

/// A pattern ending in `$` without `*` matches only the path equal to the
/// pattern without its `$`.
pub proof fn lemma_anchored_plain_pattern_is_exact(path: Seq<char>, pattern: Seq<char>)
    requires
        !pattern.contains('*'),
        is_anchored(pattern),
    ensures
        pattern_matches(path, pattern) == (path == pattern.drop_last()),
{
    assert forall|k: int| 0 <= k < pattern.drop_last().len() implies pattern.drop_last()[k] != '*' by {
        assert(pattern.drop_last()[k] == pattern[k]);
    }
}

/// With no group for `rehyke` or `*`, every path is allowed.
pub proof fn lemma_no_applicable_group_allows_all(r: RobotsView, path: Seq<char>)
    requires
        !has_agent(r.rules, "rehyke"@),
        !has_agent(r.rules, "*"@),
    ensures
        allowed(r, path),
{
    lemma_longest_for_absent(r.rules, "*"@, path, true);
    lemma_longest_for_absent(r.rules, "*"@, path, false);
}

/// Groups of other agents contribute no match.
proof fn lemma_longest_for_absent(rules: Seq<RuleView>, agent: Seq<char>, path: Seq<char>, allow: bool)
    requires
        !has_agent(rules, agent),
    ensures
        longest_for(rules, agent, path, allow) is None,
    decreases rules.len(),
{
    if rules.len() > 0 {
        assert(!has_agent(rules.drop_last(), agent)) by {
            if has_agent(rules.drop_last(), agent) {
                let i = choose|i: int|
                    0 <= i < rules.drop_last().len() && #[trigger] rules.drop_last()[i].user_agent
                        == agent;
                assert(rules[i].user_agent == agent);
            }
        }
        assert(rules.last() == rules[rules.len() - 1]);
        lemma_longest_for_absent(rules.drop_last(), agent, path, allow);
    }
}

/// When the longest matching allow and disallow patterns are equally long,
/// the path is allowed.
pub proof fn lemma_allow_wins_tie(r: RobotsView, path: Seq<char>)
    requires
        longest_for(r.rules, our_agent(r.rules), path, true) == longest_for(
            r.rules,
            our_agent(r.rules),
            path,
            false,
        ),
    ensures
        allowed(r, path),
{
}

/// A path that no disallow pattern of the applicable groups matches is
/// allowed.
pub proof fn lemma_no_disallow_match_allows(r: RobotsView, path: Seq<char>)
    requires
        longest_for(r.rules, our_agent(r.rules), path, false) is None,
    ensures
        allowed(r, path),
{
}

/// No line names a user agent.
pub open spec fn no_agent_lines(lines: Seq<Seq<char>>) -> bool {
    forall|k: int|
        0 <= k < lines.len() ==> match #[trigger] directive_of(lines[k]) {
            Some((d, v)) => d != "user-agent"@,
            None => true,
        }
}

/// Without a `User-agent` line no group is formed: rules before the first
/// `User-agent` line are dropped.
pub proof fn lemma_no_agent_no_rules(content: Seq<char>)
    requires
        no_agent_lines(lines_of(content)),
    ensures
        parsed(content).rules.len() == 0,
{
    lemma_run_no_agents(lines_of(content));
}

proof fn lemma_run_no_agents(lines: Seq<Seq<char>>)
    requires
        no_agent_lines(lines),
    ensures
        run(lines).rules.len() == 0,
        run(lines).agents.len() == 0,
    decreases lines.len(),
{
    if lines.len() > 0 {
        assert(no_agent_lines(lines.drop_last())) by {
            assert forall|k: int| 0 <= k < lines.drop_last().len() implies match #[trigger] directive_of(
                lines.drop_last()[k],
            ) {
                Some((d, v)) => d != "user-agent"@,
                None => true,
            } by {
                assert(lines.drop_last()[k] == lines[k]);
            }
        }
        lemma_run_no_agents(lines.drop_last());
        let k = lines.len() - 1;
        assert(lines.last() == lines[k]);
        assert(match directive_of(lines[k]) {
            Some((d, v)) => d != "user-agent"@,
            None => true,
        });
    }
}

/// The empty file allows every path.
pub proof fn lemma_empty_file_allows_all(path: Seq<char>)
    ensures
        allowed(parsed(Seq::<char>::empty()), path),
{
    let lines = lines_of(Seq::<char>::empty());
    assert(split_on(Seq::<char>::empty(), '\n') =~= seq![Seq::<char>::empty()]);
    assert(lines =~= Seq::<Seq<char>>::empty());
    let r = parsed(Seq::<char>::empty());
    assert(r.rules =~= Seq::<RuleView>::empty());
    lemma_longest_for_absent(r.rules, our_agent(r.rules), path, true);
    lemma_longest_for_absent(r.rules, our_agent(r.rules), path, false);
}

/// The robots.txt decision as one statement: the groups for `rehyke` apply
/// when there are any, else those for `*`; with no applicable group every
/// path is allowed; otherwise, of the patterns of those groups that match the
/// path, the longest disallow (if any) is beaten only by an allow at least as
/// long.
pub proof fn lemma_robots_decision(r: RobotsView, path: Seq<char>)
    ensures
        (!has_agent(r.rules, "rehyke"@) && !has_agent(r.rules, "*"@)) ==> allowed(r, path),
        allowed(r, path) == match longest_for(r.rules, our_agent(r.rules), path, false) {
            None => true,
            Some(d) => longest_for(r.rules, our_agent(r.rules), path, true) matches Some(a) && a >= d,
        },
{
    if !has_agent(r.rules, "rehyke"@) && !has_agent(r.rules, "*"@) {
        lemma_no_applicable_group_allows_all(r, path);
    }
}


/// The state after applying `lines` in turn to `st`.
pub open spec fn steps(st: ParseState, lines: Seq<Seq<char>>) -> ParseState
    decreases lines.len(),
{
    if lines.len() == 0 {
        st
    } else {
        step(steps(st, lines.drop_last()), lines.last())
    }
}

/// The non-empty values of the lines whose directive is `d`, in order.
pub open spec fn directive_values(lines: Seq<Seq<char>>, d: Seq<char>) -> Seq<Seq<char>>
    decreases lines.len(),
{
    if lines.len() == 0 {
        Seq::empty()
    } else {
        let prev = directive_values(lines.drop_last(), d);
        match directive_of(lines.last()) {
            Some((k, v)) => if k == d && v.len() > 0 {
                prev.push(v)
            } else {
                prev
            },
            None => prev,
        }
    }
}

proof fn lemma_steps_append(st: ParseState, a: Seq<Seq<char>>, b: Seq<Seq<char>>)
    ensures
        steps(st, a + b) == steps(steps(st, a), b),
    decreases b.len(),
{
    if b.len() == 0 {
        assert(a + b =~= a);
    } else {
        lemma_steps_append(st, a, b.drop_last());
        assert((a + b).drop_last() =~= a + b.drop_last());
        assert((a + b).last() == b.last());
    }
}

proof fn lemma_directive_words_differ()
    ensures
        "user-agent"@ != "allow"@,
        "user-agent"@ != "disallow"@,
        "allow"@ != "disallow"@,
{
    reveal_strlit("user-agent");
    reveal_strlit("allow");
    reveal_strlit("disallow");
    assert("user-agent"@.len() == 10 && "allow"@.len() == 5 && "disallow"@.len() == 8);
}

/// User-agent lines while no pattern is collected add their agents to the
/// group being collected.
proof fn lemma_agent_lines(st: ParseState, lines: Seq<Seq<char>>, agents: Seq<Seq<char>>)
    requires
        st.allow.len() == 0,
        st.disallow.len() == 0,
        lines.len() == agents.len(),
        forall|i: int| 0 <= i < lines.len() ==> #[trigger] directive_of(lines[i]) == Some(("user-agent"@, agents[i])),
    ensures
        steps(st, lines) == (ParseState {
            agents: st.agents + agents.map_values(|a: Seq<char>| unicode_lowercase(a)),
            ..st
        }),
    decreases lines.len(),
{
    if lines.len() == 0 {
        assert(st.agents + agents.map_values(|a: Seq<char>| unicode_lowercase(a)) =~= st.agents);
    } else {
        let d = lines.drop_last();
        let da = agents.drop_last();
        assert forall|i: int| 0 <= i < d.len() implies #[trigger] directive_of(d[i]) == Some(("user-agent"@, da[i])) by {
            assert(d[i] == lines[i] && da[i] == agents[i]);
        }
        lemma_agent_lines(st, d, da);
        assert(directive_of(lines[lines.len() - 1]) == Some(("user-agent"@, agents[agents.len() - 1])));
        assert((st.agents + da.map_values(|a: Seq<char>| unicode_lowercase(a))).push(unicode_lowercase(agents.last()))
            =~= st.agents + agents.map_values(|a: Seq<char>| unicode_lowercase(a)));
    }
}

/// An `Allow` or `Disallow` line.
pub open spec fn is_pattern_line(line: Seq<char>) -> bool {
    match directive_of(line) {
        Some((d, v)) => d == "allow"@ || d == "disallow"@,
        None => false,
    }
}

/// Allow and Disallow lines add their non-empty values to the group's
/// patterns, and change nothing else.
proof fn lemma_pattern_lines(st: ParseState, lines: Seq<Seq<char>>)
    requires
        forall|i: int| 0 <= i < lines.len() ==> is_pattern_line(#[trigger] lines[i]),
    ensures
        steps(st, lines) == (ParseState {
            allow: st.allow + directive_values(lines, "allow"@),
            disallow: st.disallow + directive_values(lines, "disallow"@),
            ..st
        }),
    decreases lines.len(),
{
    lemma_directive_words_differ();
    if lines.len() == 0 {
        assert(st.allow + directive_values(lines, "allow"@) =~= st.allow);
        assert(st.disallow + directive_values(lines, "disallow"@) =~= st.disallow);
    } else {
        let d = lines.drop_last();
        assert forall|i: int| 0 <= i < d.len() implies is_pattern_line(#[trigger] d[i]) by {
            assert(d[i] == lines[i]);
        }
        lemma_pattern_lines(st, d);
        assert(is_pattern_line(lines[lines.len() - 1]));
        let prev_a = directive_values(d, "allow"@);
        let prev_d = directive_values(d, "disallow"@);
        let (k, v) = directive_of(lines.last()).unwrap();
        assert((st.allow + prev_a).push(v) =~= st.allow + prev_a.push(v));
        assert((st.disallow + prev_d).push(v) =~= st.disallow + prev_d.push(v));
    }
}


proof fn lemma_run_is_steps(lines: Seq<Seq<char>>)
    ensures
        run(lines) == steps(initial_state(), lines),
    decreases lines.len(),
{
    if lines.len() > 0 {
        lemma_run_is_steps(lines.drop_last());
    }
}

/// Consecutive User-agent lines form one group. From a state with no
/// pattern collected yet (the start of the file, or just after a group's
/// User-agent lines), a run of User-agent lines followed by Allow and
/// Disallow lines gives, once the group is closed, one rule per agent of the
/// group (those collected before and those of the run, in order), each with
/// the same patterns: the non-empty values of the Allow lines and of the
/// Disallow lines, in order. Earlier rules are kept as they are.
pub proof fn lemma_agent_run_shares_group(
    st: ParseState,
    agent_lines: Seq<Seq<char>>,
    agents: Seq<Seq<char>>,
    rule_lines: Seq<Seq<char>>,
)
    requires
        st.allow.len() == 0,
        st.disallow.len() == 0,
        agent_lines.len() == agents.len(),
        forall|i: int| 0 <= i < agent_lines.len() ==> #[trigger] directive_of(agent_lines[i]) == Some(("user-agent"@, agents[i])),
        forall|j: int| 0 <= j < rule_lines.len() ==> is_pattern_line(#[trigger] rule_lines[j]),
    ensures
        flush(steps(st, agent_lines + rule_lines)).rules == st.rules + (st.agents + agents.map_values(
            |a: Seq<char>| unicode_lowercase(a),
        )).map_values(
            |a: Seq<char>|
                RuleView {
                    user_agent: a,
                    allow: directive_values(rule_lines, "allow"@),
                    disallow: directive_values(rule_lines, "disallow"@),
                },
        ),
{
    lemma_steps_append(st, agent_lines, rule_lines);
    lemma_agent_lines(st, agent_lines, agents);
    let mid = steps(st, agent_lines);
    lemma_pattern_lines(mid, rule_lines);
    let fin = steps(mid, rule_lines);
    assert(fin.allow =~= directive_values(rule_lines, "allow"@));
    assert(fin.disallow =~= directive_values(rule_lines, "disallow"@));
}

/// A robots.txt made of User-agent lines followed by Allow and Disallow
/// lines is one group: every agent named gets the same patterns.
pub proof fn lemma_file_agents_share_group(
    content: Seq<char>,
    agent_lines: Seq<Seq<char>>,
    agents: Seq<Seq<char>>,
    rule_lines: Seq<Seq<char>>,
)
    requires
        lines_of(content) == agent_lines + rule_lines,
        agent_lines.len() == agents.len(),
        forall|i: int| 0 <= i < agent_lines.len() ==> #[trigger] directive_of(agent_lines[i]) == Some(("user-agent"@, agents[i])),
        forall|j: int| 0 <= j < rule_lines.len() ==> is_pattern_line(#[trigger] rule_lines[j]),
    ensures
        parsed(content).rules == agents.map_values(|a: Seq<char>| unicode_lowercase(a)).map_values(
            |a: Seq<char>|
                RuleView {
                    user_agent: a,
                    allow: directive_values(rule_lines, "allow"@),
                    disallow: directive_values(rule_lines, "disallow"@),
                },
        ),
{
    lemma_run_is_steps(lines_of(content));
    lemma_agent_run_shares_group(initial_state(), agent_lines, agents, rule_lines);
    let low = agents.map_values(|a: Seq<char>| unicode_lowercase(a));
    assert(initial_state().agents + low =~= low);
    assert(initial_state().rules + low.map_values(
        |a: Seq<char>|
            RuleView {
                user_agent: a,
                allow: directive_values(rule_lines, "allow"@),
                disallow: directive_values(rule_lines, "disallow"@),
            },
    ) =~= low.map_values(
        |a: Seq<char>|
            RuleView {
                user_agent: a,
                allow: directive_values(rule_lines, "allow"@),
                disallow: directive_values(rule_lines, "disallow"@),
            },
    ));
}


/// What each kind of robots.txt line does to the parse: an Allow or
/// Disallow line with a value adds it to the group's patterns (without a
/// value it is ignored); a Sitemap line with a value lists it; a
/// Crawl-delay line records its value; a User-agent line closes the group
/// when it already has patterns and then names its (lowercased) agent.
pub proof fn lemma_line_effects(st: ParseState, line: Seq<char>, v: Seq<char>)
    ensures
        directive_of(line) == Some(("allow"@, v)) ==> step(st, line) == (if v.len() > 0 {
            ParseState { allow: st.allow.push(v), ..st }
        } else {
            st
        }),
        directive_of(line) == Some(("disallow"@, v)) ==> step(st, line) == (if v.len() > 0 {
            ParseState { disallow: st.disallow.push(v), ..st }
        } else {
            st
        }),
        directive_of(line) == Some(("sitemap"@, v)) && v.len() > 0 ==> step(st, line) == (ParseState {
            sitemaps: st.sitemaps.push(v),
            ..st
        }),
        directive_of(line) == Some(("crawl-delay"@, v)) ==> step(st, line) == (ParseState {
            crawl_delays: st.crawl_delays.push(v),
            ..st
        }),
        directive_of(line) == Some(("user-agent"@, v)) && (st.allow.len() > 0 || st.disallow.len() > 0)
            ==> step(st, line) == (ParseState { agents: seq![unicode_lowercase(v)], ..flush(st) }),
        directive_of(line) == Some(("user-agent"@, v)) && st.allow.len() == 0 && st.disallow.len() == 0
            ==> step(st, line) == (ParseState { agents: st.agents.push(unicode_lowercase(v)), ..st }),
        directive_of(line) is None ==> step(st, line) == st,
{
    reveal_strlit("user-agent");
    assert("user-agent"@ =~= seq!['u', 's', 'e', 'r', '-', 'a', 'g', 'e', 'n', 't']);
    reveal_strlit("allow");
    assert("allow"@ =~= seq!['a', 'l', 'l', 'o', 'w']);
    reveal_strlit("disallow");
    assert("disallow"@ =~= seq!['d', 'i', 's', 'a', 'l', 'l', 'o', 'w']);
    reveal_strlit("sitemap");
    assert("sitemap"@ =~= seq!['s', 'i', 't', 'e', 'm', 'a', 'p']);
    reveal_strlit("crawl-delay");
    assert("crawl-delay"@ =~= seq!['c', 'r', 'a', 'w', 'l', '-', 'd', 'e', 'l', 'a', 'y']);
    if directive_of(line) == Some(("user-agent"@, v)) && (st.allow.len() > 0 || st.disallow.len() > 0) {
        assert(flush(st).agents.push(unicode_lowercase(v)) =~= seq![unicode_lowercase(v)]);
    }
}

} // verus!
