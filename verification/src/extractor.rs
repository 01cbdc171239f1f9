//! Links found in documents: resolution against the page URL, filtering of
//! non-navigable schemes, classification (internal, external, subdomain,
//! resource, feed, sitemap) and de-duplication.

use vstd::prelude::*;

use crate::text::{
    byte_len, chars_of, eq_str, find_first, find_seq, occurs_at, push_str, split_chars, split_on,
    starts_with, str_ends_with, str_starts_with, string_from_range, string_of, to_lowercase,
    trim, trim_str, unicode_lowercase, utf8_len, views, words, split_whitespace_vec, ends_with,
};
use crate::parser::Outcome;
use crate::dom::{DomNode, DomView, attr_of, attr_value, dom_view, forest_select, forest_view, opt_ref_view, refs_view, select_in};
use crate::text::{contains_seq, contains_str, eq_ignore_ascii_case, eq_ignore_case_ascii};
use crate::xml::{XmlEvent, event_views, is_final, well_formed_stream, xml_events, xml_stream};
use crate::utils::{
    Url, UrlView, is_same_domain, is_subdomain, resolve_url, same_domain, subdomain_of, url_join,
    url_parse,
};

verus! {

// ---------------------------------------------------------------------------
// Types
// ---------------------------------------------------------------------------

/// The links of a document, by kind.
#[derive(Debug, Clone)]
pub struct ExtractedLinks {
    /// Pages on the same host.
    pub internal: Vec<String>,
    /// Pages on other hosts.
    pub external: Vec<String>,
    /// Pages on subdomains of the host.
    pub subdomains: Vec<String>,
    /// Stylesheets, scripts, images, fonts, media.
    pub resources: Vec<String>,
    /// RSS and Atom feeds.
    pub feeds: Vec<String>,
    /// Sitemaps.
    pub sitemaps: Vec<String>,
}

/// The lists of an [`ExtractedLinks`] as character sequences.
pub ghost struct LinksView {
    pub internal: Seq<Seq<char>>,
    pub external: Seq<Seq<char>>,
    pub subdomains: Seq<Seq<char>>,
    pub resources: Seq<Seq<char>>,
    pub feeds: Seq<Seq<char>>,
    pub sitemaps: Seq<Seq<char>>,
}

impl View for ExtractedLinks {
    type V = LinksView;

    open spec fn view(&self) -> LinksView {
        LinksView {
            internal: views(self.internal@),
            external: views(self.external@),
            subdomains: views(self.subdomains@),
            resources: views(self.resources@),
            feeds: views(self.feeds@),
            sitemaps: views(self.sitemaps@),
        }
    }
}

impl ExtractedLinks {
    /// No links.
    pub fn new() -> (res: ExtractedLinks)
        ensures
            res@ == empty_links(),
    {
        let res = ExtractedLinks {
            internal: Vec::new(),
            external: Vec::new(),
            subdomains: Vec::new(),
            resources: Vec::new(),
            feeds: Vec::new(),
            sitemaps: Vec::new(),
        };
        assert(res@ =~= empty_links()) by {
            assert(views(res.internal@) =~= Seq::<Seq<char>>::empty());
            assert(views(res.external@) =~= Seq::<Seq<char>>::empty());
            assert(views(res.subdomains@) =~= Seq::<Seq<char>>::empty());
            assert(views(res.resources@) =~= Seq::<Seq<char>>::empty());
            assert(views(res.feeds@) =~= Seq::<Seq<char>>::empty());
            assert(views(res.sitemaps@) =~= Seq::<Seq<char>>::empty());
        }
        res
    }
}

impl Default for ExtractedLinks {
    fn default() -> (res: ExtractedLinks)
        ensures
            res@ == empty_links(),
    {
        ExtractedLinks::new()
    }
}

/// No links.
pub open spec fn empty_links() -> LinksView {
    LinksView {
        internal: Seq::empty(),
        external: Seq::empty(),
        subdomains: Seq::empty(),
        resources: Seq::empty(),
        feeds: Seq::empty(),
        sitemaps: Seq::empty(),
    }
}

/// The kind of reference a link was found as.
#[derive(Debug, Clone, Copy, PartialEq, Eq, Structural)]
pub enum LinkType {
    /// A navigable page (anchors, forms, canonical links).
    Page,
    /// A stylesheet, script, image, font or media file.
    Resource,
    /// An RSS or Atom feed.
    Feed,
    /// A sitemap.
    Sitemap,
}

// ---------------------------------------------------------------------------
// Classification
// ---------------------------------------------------------------------------

/// `links` with the URL `u` added to the list its kind and host select:
/// resources, feeds and sitemaps by kind; pages as internal (same host),
/// subdomain, or external.
pub open spec fn classified(links: LinksView, u: UrlView, base: UrlView, kind: LinkType) -> LinksView {
    let s = u.serialization;
    match kind {
        LinkType::Resource => LinksView { resources: links.resources.push(s), ..links },
        LinkType::Feed => LinksView { feeds: links.feeds.push(s), ..links },
        LinkType::Sitemap => LinksView { sitemaps: links.sitemaps.push(s), ..links },
        LinkType::Page => if same_domain(u, base) {
            LinksView { internal: links.internal.push(s), ..links }
        } else if subdomain_of(u, base) {
            LinksView { subdomains: links.subdomains.push(s), ..links }
        } else {
            LinksView { external: links.external.push(s), ..links }
        },
    }
}

/// Append a string to a list.
fn push_string(v: &mut Vec<String>, s: String)
    ensures
        views(final(v)@) == views(old(v)@).push(s@),
{
    let ghost before = v@;
    v.push(s);
    assert(views(v@) =~= views(before).push(s@));
}

/// Add `url` to the list of `links` its kind and host select (see
/// [`classified`]).
pub fn classify_link(url: &Url, base_url: &Url, link_type: LinkType, links: &mut ExtractedLinks)
    ensures
        final(links)@ == classified(old(links)@, url@, base_url@, link_type),
{
    let s = url.to_string();
    match link_type {
        LinkType::Resource => push_string(&mut links.resources, s),
        LinkType::Feed => push_string(&mut links.feeds, s),
        LinkType::Sitemap => push_string(&mut links.sitemaps, s),
        LinkType::Page => {
            if is_same_domain(url, base_url) {
                push_string(&mut links.internal, s);
            } else if is_subdomain(url, base_url) {
                push_string(&mut links.subdomains, s);
            } else {
                push_string(&mut links.external, s);
            }
        },
    }
}

// ---------------------------------------------------------------------------
// Filtering and resolution
// ---------------------------------------------------------------------------

/// Whether a raw reference is skipped: blank, a bare `#`, or (lowercased) a
/// `javascript:`, `mailto:`, `tel:` or `data:` URL.
pub open spec fn skipped_url(raw: Seq<char>) -> bool {
    let t = trim(raw);
    let lower = unicode_lowercase(t);
    ||| t.len() == 0
    ||| t == "#"@
    ||| starts_with(lower, "javascript:"@)
    ||| starts_with(lower, "mailto:"@)
    ||| starts_with(lower, "tel:"@)
    ||| starts_with(lower, "data:"@)
}

/// Whether a raw reference is skipped (see [`skipped_url`]).
pub fn should_skip_url(url_str: &str) -> (res: bool)
    ensures
        res == skipped_url(url_str@),
{
    let trimmed = trim_str(url_str);
    if trimmed.as_str().is_empty() || eq_str(trimmed.as_str(), "#") {
        return true;
    }
    let lower = to_lowercase(trimmed.as_str());
    let l = lower.as_str();
    str_starts_with(l, "javascript:") || str_starts_with(l, "mailto:") || str_starts_with(
        l,
        "tel:",
    ) || str_starts_with(l, "data:")
}

/// The absolute URL a raw reference on the page `base` resolves to: `None`
/// for a skipped reference or one that does not resolve.
pub open spec fn resolved_link(raw: Seq<char>, base: UrlView) -> Option<Seq<char>> {
    let t = trim(raw);
    if skipped_url(t) || trim(t).len() == 0 {
        None
    } else {
        match url_join(base.serialization, trim(t)) {
            Some(u) => Some(u.serialization),
            None => None,
        }
    }
}

/// Resolve a raw reference against the page URL (see [`resolved_link`]).
pub fn resolve_and_filter(raw: &str, base_url: &Url) -> (res: Option<String>)
    ensures
        crate::text::opt_str_view(res) == resolved_link(raw@, base_url@),
{
    let trimmed = trim_str(raw);
    if should_skip_url(trimmed.as_str()) {
        return None;
    }
    match resolve_url(base_url, trimmed.as_str()) {
        Some(u) => Some(u.to_string()),
        None => None,
    }
}

/// The URL of each non-blank comma-separated candidate of a `srcset`: its
/// first word, resolved (see [`resolved_link`]); candidates that do not
/// resolve are left out.
pub open spec fn srcset_urls(candidates: Seq<Seq<char>>, base: UrlView) -> Seq<Seq<char>>
    decreases candidates.len(),
{
    if candidates.len() == 0 {
        Seq::empty()
    } else {
        let prev = srcset_urls(candidates.drop_last(), base);
        let t = trim(candidates.last());
        if t.len() == 0 || words(t).len() == 0 {
            prev
        } else {
            match resolved_link(words(t)[0], base) {
                Some(u) => prev.push(u),
                None => prev,
            }
        }
    }
}

/// The image URLs of a `srcset` attribute (see [`srcset_urls`]).
pub fn parse_srcset(srcset: &str, base_url: &Url) -> (res: Vec<String>)
    ensures
        views(res@) == srcset_urls(split_on(srcset@, ','), base_url@),
{
    let v = chars_of(srcset);
    let parts = split_chars(&v, ',');
    let ghost sp = split_on(srcset@, ',');
    let mut out: Vec<String> = Vec::new();
    let mut i: usize = 0;
    while i < parts.len()
        invariant
            i <= parts.len(),
            v@ == srcset@,
            parts@.len() == sp.len(),
            forall|k: int| 0 <= k < parts@.len() ==> #[trigger] parts@[k]@ == sp[k],
            views(out@) == srcset_urls(sp.subrange(0, i as int), base_url@),
        decreases parts.len() - i,
    {
        let ghost pre = sp.subrange(0, i as int);
        assert(sp.subrange(0, i + 1).drop_last() =~= pre);
        assert(sp.subrange(0, i + 1).last() == parts@[i as int]@);
        let entry = string_of(&parts[i]);
        let trimmed = trim_str(entry.as_str());
        if !trimmed.as_str().is_empty() {
            let ws = split_whitespace_vec(trimmed.as_str());
            if ws.len() > 0 {
                assert(ws@[0]@ == words(trimmed@)[0]);
                match resolve_and_filter(ws[0].as_str(), base_url) {
                    Some(u) => push_string(&mut out, u),
                    None => {},
                }
            }
        }
        i = i + 1;
    }
    assert(sp.subrange(0, sp.len() as int) =~= sp);
    out
}

// ---------------------------------------------------------------------------
// Meta refresh
// ---------------------------------------------------------------------------

/// `k` is the first index at which the first `k` characters of `s` take `b`
/// bytes.
pub open spec fn first_at_byte(s: Seq<char>, b: nat, k: int) -> bool {
    &&& 0 <= k <= s.len()
    &&& utf8_len(s.subrange(0, k)) == b
    &&& forall|j: int| 0 <= j < k ==> utf8_len(#[trigger] s.subrange(0, j)) != b
}

/// The index of the character of `s` that starts at byte `b`, if one does.
pub open spec fn char_at_byte(s: Seq<char>, b: nat) -> Option<int> {
    if exists|k: int| #[trigger] first_at_byte(s, b, k) {
        Some(choose|k: int| #[trigger] first_at_byte(s, b, k))
    } else {
        None
    }
}

/// Where the text after `url=` starts in `content`: `url=` is searched for
/// in the lowercased content, and its byte position there is taken in
/// `content` itself.
pub open spec fn refresh_start(content: Seq<char>) -> Option<int> {
    let lower = unicode_lowercase(content);
    match find_first(lower, "url="@) {
        Some(p) => char_at_byte(content, utf8_len(lower.subrange(0, p)) + 4),
        None => None,
    }
}

/// A lone quote character, which has no closing partner.
pub open spec fn lone_quote(t: Seq<char>) -> bool {
    t == seq!['\''] || t == seq!['"']
}

/// The text that follows `url=`, trimmed.
pub open spec fn refresh_tail(content: Seq<char>, k: int) -> Seq<char> {
    trim(content.subrange(k, content.len() as int))
}

/// The content can be read: when the lowercased content has `url=`, its
/// byte position falls on a character of the content (always so when
/// lowercasing keeps byte lengths, as it does for ASCII), and what follows
/// is not a lone quote.
pub open spec fn refresh_defined(content: Seq<char>) -> bool {
    find_first(unicode_lowercase(content), "url="@) is Some ==> match refresh_start(content) {
        Some(k) => !lone_quote(refresh_tail(content, k)),
        None => false,
    }
}

/// The value with one pair of surrounding quotes (`'...'` or `"..."`)
/// removed.
pub open spec fn unquoted(t: Seq<char>) -> Seq<char> {
    if (starts_with(t, seq!['\'']) && ends_with(t, seq!['\''])) || (starts_with(t, seq!['"'])
        && ends_with(t, seq!['"'])) {
        t.subrange(1, t.len() - 1)
    } else {
        t
    }
}

/// The URL of a `<meta http-equiv="refresh">` content attribute: the text
/// after `url=` (any case), trimmed, without surrounding quotes, trimmed
/// again; `None` when there is no `url=` or nothing follows it.
pub open spec fn refresh_url(content: Seq<char>) -> Option<Seq<char>> {
    match refresh_start(content) {
        Some(k) => {
            let u = trim(unquoted(refresh_tail(content, k)));
            if u.len() == 0 {
                None
            } else {
                Some(u)
            }
        },
        None => None,
    }
}

/// Locate `url=`: `None` when the lowercased content has none, `Some(None)`
/// when its byte position falls inside a character of the content, else the
/// index where the value starts.
fn refresh_start_exec(content: &str) -> (res: Option<Option<usize>>)
    ensures
        match res {
            None => find_first(unicode_lowercase(content@), "url="@) is None,
            Some(None) => find_first(unicode_lowercase(content@), "url="@) is Some && refresh_start(
                content@,
            ) is None,
            Some(Some(k)) => find_first(unicode_lowercase(content@), "url="@) is Some && refresh_start(
                content@,
            ) == Some(k as int),
        },
{
    let lower = to_lowercase(content);
    let lv = chars_of(lower.as_str());
    let pat = chars_of("url=");
    let p = match find_seq(&lv, &pat) {
        Some(p) => p,
        None => return None,
    };
    let head = string_from_range(&lv, 0, p);
    let b = byte_len(head.as_str()) + 4;
    let cv = chars_of(content);
    let ghost bn = utf8_len(lower@.subrange(0, p as int)) + 4;
    assert(b == bn);
    let mut k: usize = 0;
    loop
        invariant
            k <= cv.len(),
            cv@ == content@,
            b == bn,
            lower@ == unicode_lowercase(content@),
            find_first(unicode_lowercase(content@), "url="@) == Some(p as int),
            bn == utf8_len(lower@.subrange(0, p as int)) + 4,
            forall|j: int| 0 <= j < k ==> utf8_len(#[trigger] content@.subrange(0, j)) != bn,
        decreases cv.len() - k,
    {
        let prefix = string_from_range(&cv, 0, k);
        if byte_len(prefix.as_str()) == b {
            assert(first_at_byte(content@, bn, k as int));
            proof {
                let r = choose|r: int| #[trigger] first_at_byte(content@, bn, r);
                assert(first_at_byte(content@, bn, r));
                if r < k {
                    assert(utf8_len(content@.subrange(0, r)) != bn);
                } else if r > k {
                    assert(utf8_len(content@.subrange(0, k as int)) != bn);
                }
            }
            return Some(Some(k));
        }
        if k == cv.len() {
            assert(!exists|r: int| #[trigger] first_at_byte(content@, bn, r));
            return Some(None);
        }
        k = k + 1;
    }
}

/// The URL of a `<meta http-equiv="refresh">` content attribute (see
/// [`refresh_url`]), for content that can be read (see
/// [`refresh_defined`]).
pub fn parse_meta_refresh_url(content: &str) -> (res: Option<String>)
    requires
        refresh_defined(content@),
    ensures
        crate::text::opt_str_view(res) == refresh_url(content@),
{
    let k = match refresh_start_exec(content) {
        None => return None,
        Some(None) => return None,
        Some(Some(k)) => k,
    };
    let cv = chars_of(content);
    let after = string_from_range(&cv, k, cv.len());
    let t = trim_str(after.as_str());
    let tv = chars_of(t.as_str());
    assert(t@ == refresh_tail(content@, k as int));
    let quoted = (str_starts_with(t.as_str(), "'") && str_ends_with(t.as_str(), "'")) || (
    str_starts_with(t.as_str(), "\"") && str_ends_with(t.as_str(), "\""));
    proof {
        reveal_strlit("'");
        reveal_strlit("\"");
        assert("'"@ =~= seq!['\'']);
        assert("\""@ =~= seq!['"']);
    }
    proof {
        if quoted && tv@.len() < 2 {
            assert(t@.len() == 1);
            if t@[0] == '\'' {
                assert(t@ =~= seq!['\'']);
            } else {
                assert(t@.subrange(0, 1) == seq!['"']);
                assert(t@ =~= seq!['"']);
            }
            assert(lone_quote(t@));
        }
    }
    let inner = if quoted {
        string_from_range(&tv, 1, tv.len() - 1)
    } else {
        t
    };
    let u = trim_str(inner.as_str());
    if u.as_str().is_empty() {
        None
    } else {
        Some(u)
    }
}

/// The URL of a `<meta http-equiv="refresh">` content attribute, or `None`
/// when the content cannot be read (see [`refresh_defined`]) or names no
/// URL.
pub fn meta_refresh_url(content: &str) -> (res: Option<String>)
    ensures
        refresh_defined(content@) ==> crate::text::opt_str_view(res) == refresh_url(content@),
        !refresh_defined(content@) ==> res is None,
{
    match refresh_start_exec(content) {
        None => None,
        Some(None) => None,
        Some(Some(k)) => {
            let cv = chars_of(content);
            let after = string_from_range(&cv, k, cv.len());
            let t = trim_str(after.as_str());
            if eq_str(t.as_str(), "'") || eq_str(t.as_str(), "\"") {
                proof {
                    reveal_strlit("'");
                    reveal_strlit("\"");
                    assert("'"@ =~= seq!['\'']);
                    assert("\""@ =~= seq!['"']);
                }
                None
            } else {
                proof {
                    reveal_strlit("'");
                    reveal_strlit("\"");
                    assert("'"@ =~= seq!['\'']);
                    assert("\""@ =~= seq!['"']);
                }
                parse_meta_refresh_url(content)
            }
        },
    }
}

// ---------------------------------------------------------------------------
// De-duplication
// ---------------------------------------------------------------------------

/// The list with every repeated entry dropped, first occurrences kept in
/// order.
pub open spec fn dedup(s: Seq<Seq<char>>) -> Seq<Seq<char>>
    decreases s.len(),
{
    if s.len() == 0 {
        s
    } else if s.drop_last().contains(s.last()) {
        dedup(s.drop_last())
    } else {
        dedup(s.drop_last()).push(s.last())
    }
}

/// [`dedup`] keeps exactly the entries of the list.
pub proof fn lemma_dedup_contains(s: Seq<Seq<char>>, x: Seq<char>)
    ensures
        dedup(s).contains(x) == s.contains(x),
    decreases s.len(),
{
    if s.len() > 0 {
        lemma_dedup_contains(s.drop_last(), x);
        if s.contains(x) && x != s.last() {
            let k = choose|k: int| 0 <= k < s.len() && s[k] == x;
            assert(s.drop_last()[k] == x);
        }
        if s.drop_last().contains(x) {
            let k = choose|k: int| 0 <= k < s.drop_last().len() && s.drop_last()[k] == x;
            assert(s[k] == x);
        }
        if !s.drop_last().contains(s.last()) {
            let d = dedup(s.drop_last());
            if d.push(s.last()).contains(x) {
                let k = choose|k: int| 0 <= k < d.push(s.last()).len() && d.push(s.last())[k] == x;
                if k < d.len() {
                    assert(d[k] == x);
                }
            }
            if d.contains(x) {
                let k = choose|k: int| 0 <= k < d.len() && d[k] == x;
                assert(d.push(s.last())[k] == x);
            }
            if x == s.last() {
                assert(d.push(s.last())[d.len() as int] == x);
            }
        }
        assert(s.last() == s[s.len() - 1]);
    }
}

/// Remove repeated strings from a list, keeping first occurrences in order.
pub fn dedup_vec(vec: &mut Vec<String>)
    ensures
        views(final(vec)@) == dedup(views(old(vec)@)),
{
    let ghost src = views(vec@);
    let mut out: Vec<String> = Vec::new();
    let mut i: usize = 0;
    while i < vec.len()
        invariant
            i <= vec.len(),
            src == views(vec@),
            views(out@) == dedup(src.subrange(0, i as int)),
        decreases vec.len() - i,
    {
        let ghost pre = src.subrange(0, i as int);
        assert(src.subrange(0, i + 1).drop_last() =~= pre);
        assert(src.subrange(0, i + 1).last() == vec@[i as int]@);
        let mut seen = false;
        let mut j: usize = 0;
        while j < out.len() && !seen
            invariant
                i < vec.len(),
                j <= out.len(),
                seen ==> j < out.len() && out@[j as int]@ == vec@[i as int]@,
                forall|m: int| 0 <= m < j ==> out@[m]@ != vec@[i as int]@,
            decreases out.len() - j + (if seen {
                0int
            } else {
                1int
            }),
        {
            if eq_str(out[j].as_str(), vec[i].as_str()) {
                seen = true;
            } else {
                j = j + 1;
            }
        }
        proof {
            lemma_dedup_contains(pre, vec@[i as int]@);
            if seen {
                assert(views(out@)[j as int] == vec@[i as int]@);
            } else {
                assert(!views(out@).contains(vec@[i as int]@)) by {
                    if views(out@).contains(vec@[i as int]@) {
                        let m = choose|m: int| 0 <= m < views(out@).len() && views(out@)[m] == vec@[i as int]@;
                        assert(out@[m]@ == vec@[i as int]@);
                    }
                }
            }
        }
        if !seen {
            let s = vec[i].clone();
            push_string(&mut out, s);
        }
        i = i + 1;
    }
    assert(src.subrange(0, src.len() as int) =~= src);
    *vec = out;
}

/// Remove repeated URLs from every list of `links`, keeping first
/// occurrences in order.
pub fn dedup_links(links: &mut ExtractedLinks)
    ensures
        final(links)@ == (LinksView {
            internal: dedup(old(links)@.internal),
            external: dedup(old(links)@.external),
            subdomains: dedup(old(links)@.subdomains),
            resources: dedup(old(links)@.resources),
            feeds: dedup(old(links)@.feeds),
            sitemaps: dedup(old(links)@.sitemaps),
        }),
{
    dedup_vec(&mut links.internal);
    dedup_vec(&mut links.external);
    dedup_vec(&mut links.subdomains);
    dedup_vec(&mut links.resources);
    dedup_vec(&mut links.feeds);
    dedup_vec(&mut links.sitemaps);
}


// ---------------------------------------------------------------------------
// Links in XML documents
// ---------------------------------------------------------------------------

/// The part of a qualified name after its first `:` (quick-xml's local
/// name).
pub open spec fn after_first_colon(s: Seq<char>) -> Seq<char> {
    match find_first(s, seq![':']) {
        Some(i) => s.subrange(i + 1, s.len() as int),
        None => s,
    }
}

/// The local part of a qualified name after its first `:`.
fn after_first_colon_exec(s: &str) -> (res: String)
    ensures
        res@ == after_first_colon(s@),
{
    let v = chars_of(s);
    let colon: Vec<char> = vec![':'];
    assert(colon@ =~= seq![':']);
    match find_seq(&v, &colon) {
        Some(i) => {
            assert(colon@.len() == 1);
            assert(occurs_at(v@, colon@, i as int));
            let n = v.len();
            assert(i + 1 <= n);
            string_from_range(&v, i + 1, n)
        },
        None => s.to_owned(),
    }
}

/// The state of the link reader: the links so far, the lowercased name of
/// the element last opened (cleared when it closes), and whether the
/// document turned out to be a sitemap or a feed.
pub ghost struct XmlLinksState {
    pub links: LinksView,
    pub tag: Option<Seq<char>>,
    pub in_sitemap: bool,
    pub in_feed: bool,
}

/// The kind given to a link found in the document: sitemap entries in a
/// sitemap; in a feed, `<link>`s are feeds and `<loc>`s pages.
pub open spec fn xml_link_kind(st: XmlLinksState, is_loc: bool) -> LinkType {
    if st.in_sitemap {
        LinkType::Sitemap
    } else if st.in_feed && !is_loc {
        LinkType::Feed
    } else {
        LinkType::Page
    }
}

/// `links` with the raw reference added when it resolves and parses.
pub open spec fn add_link(links: LinksView, raw: Seq<char>, base: UrlView, kind: LinkType) -> LinksView {
    match resolved_link(raw, base) {
        Some(r) => match url_parse(r) {
            Some(u) => classified(links, u, base, kind),
            None => links,
        },
        None => links,
    }
}

/// `links` with the value of every `href` attribute (ignoring prefix and
/// case) added, in order.
pub open spec fn href_links(links: LinksView, attrs: Seq<(String, String)>, base: UrlView, kind: LinkType) -> LinksView
    decreases attrs.len(),
{
    if attrs.len() == 0 {
        links
    } else {
        let prev = href_links(links, attrs.drop_last(), base, kind);
        if unicode_lowercase(after_first_colon(attrs.last().0@)) == "href"@ {
            add_link(prev, attrs.last().1@, base, kind)
        } else {
            prev
        }
    }
}

/// An opening or self-closing element with the given name and attributes.
pub open spec fn xml_links_open(st: XmlLinksState, name: Seq<char>, attrs: Seq<(String, String)>, base: UrlView) -> XmlLinksState {
    let tl = unicode_lowercase(after_first_colon(name));
    let s1 = if tl == "urlset"@ || tl == "sitemapindex"@ {
        XmlLinksState { in_sitemap: true, ..st }
    } else if tl == "feed"@ || tl == "channel"@ || tl == "rss"@ {
        XmlLinksState { in_feed: true, ..st }
    } else {
        st
    };
    let s2 = if tl == "link"@ {
        XmlLinksState { links: href_links(s1.links, attrs, base, xml_link_kind(s1, false)), ..s1 }
    } else {
        s1
    };
    XmlLinksState { tag: Some(tl), ..s2 }
}

/// Text inside the element last opened: the URL of a `<link>` or `<loc>`.
pub open spec fn xml_links_text(st: XmlLinksState, raw: Seq<char>, base: UrlView) -> XmlLinksState {
    match st.tag {
        Some(tag) => {
            let text = trim(raw);
            if text.len() == 0 {
                st
            } else if tag == "link"@ {
                XmlLinksState { links: add_link(st.links, text, base, xml_link_kind(st, false)), ..st }
            } else if tag == "loc"@ {
                XmlLinksState { links: add_link(st.links, text, base, xml_link_kind(st, true)), ..st }
            } else {
                st
            }
        },
        None => st,
    }
}

/// The effect of one (non-final) event on the link reader.
pub open spec fn xml_links_step(st: XmlLinksState, e: XmlEvent, base: UrlView) -> XmlLinksState {
    match e {
        XmlEvent::Start(name, attrs) => xml_links_open(st, name@, attrs@, base),
        XmlEvent::Empty(name, attrs) => xml_links_open(st, name@, attrs@, base),
        XmlEvent::Text(t) => xml_links_text(st, t@, base),
        XmlEvent::End(name) => if st.tag == Some(unicode_lowercase(after_first_colon(name@))) {
            XmlLinksState { tag: None, ..st }
        } else {
            st
        },
        _ => st,
    }
}

/// Reading links from the events, until the end of the document or an
/// error (which ends the reading without failing it).
pub open spec fn xml_links_run(events: Seq<XmlEvent>, base: UrlView) -> Outcome<XmlLinksState>
    decreases events.len(),
{
    if events.len() == 0 {
        Outcome::Reading(
            XmlLinksState { links: empty_links(), tag: None, in_sitemap: false, in_feed: false },
        )
    } else {
        match xml_links_run(events.drop_last(), base) {
            Outcome::Reading(st) => match events.last() {
                XmlEvent::Eof => Outcome::Finished(st),
                XmlEvent::Error(_) => Outcome::Finished(st),
                e => Outcome::Reading(xml_links_step(st, e, base)),
            },
            done => done,
        }
    }
}

proof fn lemma_xml_links_run_stops(events: Seq<XmlEvent>, base: UrlView, i: int)
    requires
        0 <= i < events.len(),
        xml_links_run(events.subrange(0, i + 1), base) !is Reading,
    ensures
        xml_links_run(events, base) == xml_links_run(events.subrange(0, i + 1), base),
    decreases events.len() - i,
{
    if i + 1 < events.len() {
        assert(events.drop_last().subrange(0, i + 1) =~= events.subrange(0, i + 1));
        lemma_xml_links_run_stops(events.drop_last(), base, i);
    } else {
        assert(events.subrange(0, i + 1) =~= events);
    }
}

/// The links read from the events.
pub open spec fn xml_links(events: Seq<XmlEvent>, base: UrlView) -> LinksView {
    match xml_links_run(events, base) {
        Outcome::Reading(st) => st.links,
        Outcome::Finished(st) => st.links,
        Outcome::Failed(_) => empty_links(),
    }
}

/// Add the raw reference to `links` when it resolves and parses (see
/// [`add_link`]).
fn add_link_exec(links: &mut ExtractedLinks, raw: &str, base_url: &Url, kind: LinkType)
    ensures
        final(links)@ == add_link(old(links)@, raw@, base_url@, kind),
{
    match resolve_and_filter(raw, base_url) {
        Some(r) => match Url::parse(r.as_str()) {
            Some(u) => classify_link(&u, base_url, kind, links),
            None => {},
        },
        None => {},
    }
}

/// The link reader's working state.
struct XmlLinksReader {
    links: ExtractedLinks,
    tag: Option<String>,
    in_sitemap: bool,
    in_feed: bool,
}

impl View for XmlLinksReader {
    type V = XmlLinksState;

    closed spec fn view(&self) -> XmlLinksState {
        XmlLinksState {
            links: self.links@,
            tag: crate::text::opt_str_view(self.tag),
            in_sitemap: self.in_sitemap,
            in_feed: self.in_feed,
        }
    }
}

impl XmlLinksReader {
    fn kind(&self, is_loc: bool) -> (res: LinkType)
        ensures
            res == xml_link_kind(self@, is_loc),
    {
        if self.in_sitemap {
            LinkType::Sitemap
        } else if self.in_feed && !is_loc {
            LinkType::Feed
        } else {
            LinkType::Page
        }
    }

    fn open(&mut self, name: &str, attrs: &Vec<(String, String)>, base_url: &Url)
        ensures
            final(self)@ == xml_links_open(old(self)@, name@, attrs@, base_url@),
    {
        let local = after_first_colon_exec(name);
        let tl = to_lowercase(local.as_str());
        let t = tl.as_str();
        if eq_str(t, "urlset") || eq_str(t, "sitemapindex") {
            self.in_sitemap = true;
        } else if eq_str(t, "feed") || eq_str(t, "channel") || eq_str(t, "rss") {
            self.in_feed = true;
        }
        if eq_str(t, "link") {
            let kind = self.kind(false);
            let ghost start = self.links@;
            let ghost s1 = self@;
            let mut i: usize = 0;
            while i < attrs.len()
                invariant
                    i <= attrs.len(),
                    self@ == (XmlLinksState {
                        links: href_links(start, attrs@.subrange(0, i as int), base_url@, kind),
                        ..s1
                    }),
                decreases attrs.len() - i,
            {
                assert(attrs@.subrange(0, i + 1).drop_last() =~= attrs@.subrange(0, i as int));
                assert(attrs@.subrange(0, i + 1).last() == attrs@[i as int]);
                let key_local = after_first_colon_exec(attrs[i].0.as_str());
                let key = to_lowercase(key_local.as_str());
                if eq_str(key.as_str(), "href") {
                    add_link_exec(&mut self.links, attrs[i].1.as_str(), base_url, kind);
                }
                i = i + 1;
            }
            assert(attrs@.subrange(0, attrs@.len() as int) =~= attrs@);
        }
        self.tag = Some(tl);
    }

    fn text(&mut self, raw: &str, base_url: &Url)
        ensures
            final(self)@ == xml_links_text(old(self)@, raw@, base_url@),
    {
        let is_link;
        let is_loc;
        match &self.tag {
            Some(tag) => {
                is_link = eq_str(tag.as_str(), "link");
                is_loc = eq_str(tag.as_str(), "loc");
            },
            None => {
                return;
            },
        }
        let text = trim_str(raw);
        if text.as_str().is_empty() {
            return;
        }
        if is_link {
            let kind = self.kind(false);
            add_link_exec(&mut self.links, text.as_str(), base_url, kind);
        } else if is_loc {
            let kind = self.kind(true);
            add_link_exec(&mut self.links, text.as_str(), base_url, kind);
        }
    }

    fn step(&mut self, e: &XmlEvent, base_url: &Url)
        requires
            !is_final(*e),
        ensures
            final(self)@ == xml_links_step(old(self)@, *e, base_url@),
    {
        match e {
            XmlEvent::Start(name, attrs) => self.open(name.as_str(), attrs, base_url),
            XmlEvent::Empty(name, attrs) => self.open(name.as_str(), attrs, base_url),
            XmlEvent::Text(t) => self.text(t.as_str(), base_url),
            XmlEvent::End(name) => {
                let local = after_first_colon_exec(name.as_str());
                let tl = to_lowercase(local.as_str());
                let same = match &self.tag {
                    Some(tag) => eq_str(tag.as_str(), tl.as_str()),
                    None => false,
                };
                if same {
                    self.tag = None;
                }
            },
            _ => {},
        }
    }
}

/// Read the links of an event stream (see [`xml_links_step`]).
pub fn links_from_xml_events(events: &Vec<XmlEvent>, base_url: &Url) -> (res: ExtractedLinks)
    ensures
        res@ == xml_links(events@, base_url@),
{
    let mut r = XmlLinksReader { links: ExtractedLinks::new(), tag: None, in_sitemap: false, in_feed: false };
    let mut i: usize = 0;
    while i < events.len()
        invariant
            i <= events.len(),
            xml_links_run(events@.subrange(0, i as int), base_url@) == Outcome::Reading(r@),
        decreases events.len() - i,
    {
        let ghost pre = events@.subrange(0, i as int);
        assert(events@.subrange(0, i + 1).drop_last() =~= pre);
        match &events[i] {
            XmlEvent::Eof => {
                proof {
                    lemma_xml_links_run_stops(events@, base_url@, i as int);
                }
                return r.links;
            },
            XmlEvent::Error(_) => {
                proof {
                    lemma_xml_links_run_stops(events@, base_url@, i as int);
                }
                return r.links;
            },
            e => {
                r.step(e, base_url);
            },
        }
        i = i + 1;
    }
    assert(events@.subrange(0, events@.len() as int) =~= events@);
    r.links
}

/// The links of an XML document (RSS, Atom or sitemap): `<link>` text and
/// `href`s and sitemap `<loc>`s, resolved against the page URL and
/// classified (see [`xml_links_step`]). A syntax error ends the reading.
pub fn extract_links_from_xml(xml: &str, base_url: &Url) -> (res: ExtractedLinks)
    ensures
        exists|events: Seq<XmlEvent>|
            well_formed_stream(events) && event_views(events) == xml_stream(xml@, false) && res@ == #[trigger] xml_links(events, base_url@),
{
    let events = xml_events(xml, false);
    links_from_xml_events(&events, base_url)
}

// ---------------------------------------------------------------------------
// Links of an HTML page
// ---------------------------------------------------------------------------

pub open spec fn found_view(v: Seq<(String, LinkType)>) -> Seq<(Seq<char>, LinkType)> {
    v.map_values(|p: (String, LinkType)| (p.0@, p.1))
}

/// For each element in order that has attribute `attr`, its value resolved
/// (see [`resolved_link`]) and paired with `kind`.
pub open spec fn attr_links(els: Seq<DomView>, attr: Seq<char>, base: UrlView, kind: LinkType) -> Seq<(Seq<char>, LinkType)>
    decreases els.len(),
{
    if els.len() == 0 {
        Seq::empty()
    } else {
        let prev = attr_links(els.drop_last(), attr, base, kind);
        match attr_of(els.last(), attr) {
            Some(v) => match resolved_link(v, base) {
                Some(r) => prev.push((r, kind)),
                None => prev,
            },
            None => prev,
        }
    }
}

/// The links of `<a href>`, `<area href>` and `<form action>`: pages.
pub open spec fn anchor_links(doc: Seq<DomView>, base: UrlView) -> Seq<(Seq<char>, LinkType)> {
    attr_links(forest_select(doc, "a"@), "href"@, base, LinkType::Page)
        + attr_links(forest_select(doc, "area"@), "href"@, base, LinkType::Page)
        + attr_links(forest_select(doc, "form"@), "action"@, base, LinkType::Page)
}

/// The kind of a `<link>` by its lowercased `rel` and `type`: stylesheets,
/// icons and preload hints are resources, `sitemap` a sitemap, `alternate`
/// with an RSS, Atom or XML type a feed, anything else a page.
pub open spec fn link_tag_kind(rel: Seq<char>, ty: Seq<char>) -> LinkType {
    if contains_seq(rel, "stylesheet"@) {
        LinkType::Resource
    } else if contains_seq(rel, "icon"@) || contains_seq(rel, "apple-touch-icon"@) {
        LinkType::Resource
    } else if contains_seq(rel, "sitemap"@) {
        LinkType::Sitemap
    } else if contains_seq(rel, "alternate"@) {
        if contains_seq(ty, "rss"@) || contains_seq(ty, "atom"@) || contains_seq(ty, "xml"@) {
            LinkType::Feed
        } else {
            LinkType::Page
        }
    } else if contains_seq(rel, "preload"@) || contains_seq(rel, "prefetch"@) || contains_seq(
        rel,
        "preconnect"@,
    ) {
        LinkType::Resource
    } else {
        LinkType::Page
    }
}

pub open spec fn opt_text(o: Option<Seq<char>>) -> Seq<char> {
    match o {
        Some(v) => v,
        None => Seq::empty(),
    }
}

/// The links of `<link href>` elements, each of the kind its `rel` and
/// `type` give.
pub open spec fn link_tag_links(els: Seq<DomView>, base: UrlView) -> Seq<(Seq<char>, LinkType)>
    decreases els.len(),
{
    if els.len() == 0 {
        Seq::empty()
    } else {
        let prev = link_tag_links(els.drop_last(), base);
        let el = els.last();
        match attr_of(el, "href"@) {
            Some(h) => match resolved_link(h, base) {
                Some(r) => prev.push(
                    (
                        r,
                        link_tag_kind(
                            unicode_lowercase(opt_text(attr_of(el, "rel"@))),
                            unicode_lowercase(opt_text(attr_of(el, "type"@))),
                        ),
                    ),
                ),
                None => prev,
            },
            None => prev,
        }
    }
}

pub open spec fn as_resources(urls: Seq<Seq<char>>) -> Seq<(Seq<char>, LinkType)> {
    urls.map_values(|u: Seq<char>| (u, LinkType::Resource))
}

/// The image URLs of the `srcset` of each `<img>` that has one: resources.
pub open spec fn srcset_links(els: Seq<DomView>, base: UrlView) -> Seq<(Seq<char>, LinkType)>
    decreases els.len(),
{
    if els.len() == 0 {
        Seq::empty()
    } else {
        let prev = srcset_links(els.drop_last(), base);
        match attr_of(els.last(), "srcset"@) {
            Some(s) => prev + as_resources(srcset_urls(split_on(s, ','), base)),
            None => prev,
        }
    }
}

/// The links of scripts, images (and their `srcset`), iframes (pages),
/// video sources and posters, audio and `<source>` elements.
pub open spec fn resource_links(doc: Seq<DomView>, base: UrlView) -> Seq<(Seq<char>, LinkType)> {
    attr_links(forest_select(doc, "script"@), "src"@, base, LinkType::Resource)
        + attr_links(forest_select(doc, "img"@), "src"@, base, LinkType::Resource)
        + srcset_links(forest_select(doc, "img"@), base)
        + attr_links(forest_select(doc, "iframe"@), "src"@, base, LinkType::Page)
        + attr_links(forest_select(doc, "video"@), "src"@, base, LinkType::Resource)
        + attr_links(forest_select(doc, "video"@), "poster"@, base, LinkType::Resource)
        + attr_links(forest_select(doc, "audio"@), "src"@, base, LinkType::Resource)
        + attr_links(forest_select(doc, "source"@), "src"@, base, LinkType::Resource)
}

/// A resolved reference paired with a kind, or nothing.
pub open spec fn one_link(raw: Seq<char>, base: UrlView, kind: LinkType) -> Seq<(Seq<char>, LinkType)> {
    match resolved_link(raw, base) {
        Some(r) => seq![(r, kind)],
        None => Seq::empty(),
    }
}

/// A `<meta http-equiv="refresh">` redirect target, as a page.
pub open spec fn refresh_links(el: DomView, base: UrlView) -> Seq<(Seq<char>, LinkType)> {
    match attr_of(el, "http-equiv"@) {
        Some(h) => if eq_ignore_ascii_case(h, "refresh"@) {
            match attr_of(el, "content"@) {
                Some(c) => match refresh_url(c) {
                    Some(u) => one_link(u, base, LinkType::Page),
                    None => Seq::empty(),
                },
                None => Seq::empty(),
            }
        } else {
            Seq::empty()
        },
        None => Seq::empty(),
    }
}

/// Open Graph and Twitter card tags (by `property`, else `name`,
/// lowercased): `og:url` a page, the image tags resources.
pub open spec fn card_links(el: DomView, base: UrlView) -> Seq<(Seq<char>, LinkType)> {
    let property = match attr_of(el, "property"@) {
        Some(p) => p,
        None => opt_text(attr_of(el, "name"@)),
    };
    let key = unicode_lowercase(property);
    match attr_of(el, "content"@) {
        Some(c) => if key == "og:url"@ {
            one_link(c, base, LinkType::Page)
        } else if key == "og:image"@ || key == "og:image:url"@ || key == "og:image:secure_url"@ {
            one_link(c, base, LinkType::Resource)
        } else if key == "twitter:image"@ || key == "twitter:image:src"@ {
            one_link(c, base, LinkType::Resource)
        } else {
            Seq::empty()
        },
        None => Seq::empty(),
    }
}

pub open spec fn meta_links(els: Seq<DomView>, base: UrlView) -> Seq<(Seq<char>, LinkType)>
    decreases els.len(),
{
    if els.len() == 0 {
        Seq::empty()
    } else {
        meta_links(els.drop_last(), base) + refresh_links(els.last(), base) + card_links(els.last(), base)
    }
}

/// Every refresh `<meta>` of the page has content that can be read (see
/// [`refresh_defined`]).
pub open spec fn refreshes_readable(doc: Seq<DomView>) -> bool {
    forall|k: int| 0 <= k < forest_select(doc, "meta"@).len() ==> #[trigger] refresh_readable(forest_select(doc, "meta"@)[k])
}

pub open spec fn refresh_readable(el: DomView) -> bool {
    match attr_of(el, "http-equiv"@) {
        Some(h) => eq_ignore_ascii_case(h, "refresh"@) ==> match attr_of(el, "content"@) {
            Some(c) => refresh_defined(c),
            None => true,
        },
        None => true,
    }
}

/// All references of a page, in the order they are collected.
pub open spec fn page_link_list(doc: Seq<DomView>, base: UrlView) -> Seq<(Seq<char>, LinkType)> {
    anchor_links(doc, base) + link_tag_links(forest_select(doc, "link"@), base)
        + resource_links(doc, base) + meta_links(forest_select(doc, "meta"@), base)
}

/// The references, each parsed and classified; one that does not parse is
/// dropped.
pub open spec fn classify_all(links: LinksView, list: Seq<(Seq<char>, LinkType)>, base: UrlView) -> LinksView
    decreases list.len(),
{
    if list.len() == 0 {
        links
    } else {
        let prev = classify_all(links, list.drop_last(), base);
        match url_parse(list.last().0) {
            Some(u) => classified(prev, u, base, list.last().1),
            None => prev,
        }
    }
}

/// The links of an HTML page.
pub open spec fn page_links(doc: Seq<DomView>, base: UrlView) -> LinksView {
    classify_all(empty_links(), page_link_list(doc, base), base)
}

fn push_found(out: &mut Vec<(String, LinkType)>, s: String, kind: LinkType)
    ensures
        found_view(final(out)@) == found_view(old(out)@).push((s@, kind)),
{
    let ghost before = out@;
    out.push((s, kind));
    assert(found_view(out@) =~= found_view(before).push((s@, kind)));
}

/// Appends a resolved reference, when the raw one resolves.
fn push_resolved(raw: &str, base_url: &Url, kind: LinkType, out: &mut Vec<(String, LinkType)>)
    ensures
        found_view(final(out)@) == found_view(old(out)@) + one_link(raw@, base_url@, kind),
{
    match resolve_and_filter(raw, base_url) {
        Some(r) => {
            push_found(out, r, kind);
            assert(found_view(out@) =~= found_view(old(out)@) + one_link(raw@, base_url@, kind));
        },
        None => {
            assert(found_view(out@) =~= found_view(old(out)@) + one_link(raw@, base_url@, kind));
        },
    }
}

/// Appends the links of `attr` on each element (see [`attr_links`]).
fn push_attr_links(els: &Vec<&DomNode>, attr: &str, base_url: &Url, kind: LinkType, out: &mut Vec<(String, LinkType)>)
    ensures
        found_view(final(out)@) == found_view(old(out)@) + attr_links(refs_view(els@), attr@, base_url@, kind),
{
    let ghost ev = refs_view(els@);
    let ghost start = found_view(out@);
    assert(start =~= start + attr_links(ev.take(0), attr@, base_url@, kind));
    let mut i: usize = 0;
    while i < els.len()
        invariant
            i <= els.len(),
            ev == refs_view(els@),
            found_view(out@) == start + attr_links(ev.take(i as int), attr@, base_url@, kind),
        decreases els.len() - i,
    {
        assert(ev.take(i + 1).drop_last() =~= ev.take(i as int));
        assert(ev.take(i + 1).last() == dom_view(*els@[i as int]));
        let ghost before = found_view(out@);
        match attr_value(els[i], attr) {
            Some(v) => {
                push_resolved(v, base_url, kind, out);
                assert(found_view(out@) =~= start + attr_links(ev.take(i + 1), attr@, base_url@, kind));
            },
            None => {},
        }
        i = i + 1;
    }
    assert(ev.take(els.len() as int) =~= ev);
}

/// Appends the links of `attr` on every element named `tag`.
fn push_tag_links(doc: &Vec<DomNode>, tag: &str, attr: &str, base_url: &Url, kind: LinkType, out: &mut Vec<(String, LinkType)>)
    ensures
        found_view(final(out)@) == found_view(old(out)@) + attr_links(
            forest_select(forest_view(doc@), tag@),
            attr@,
            base_url@,
            kind,
        ),
{
    let els = select_in(doc, tag);
    push_attr_links(&els, attr, base_url, kind, out);
}

fn lower_attr(node: &DomNode, key: &str) -> (res: String)
    ensures
        res@ == unicode_lowercase(opt_text(attr_of(dom_view(*node), key@))),
{
    match attr_value(node, key) {
        Some(v) => to_lowercase(v),
        None => {
            proof {
                reveal_strlit("");
            }
            let r = to_lowercase("");
            assert(""@ =~= Seq::<char>::empty());
            r
        },
    }
}

fn link_tag_kind_exec(rel: &str, ty: &str) -> (res: LinkType)
    ensures
        res == link_tag_kind(rel@, ty@),
{
    if contains_str(rel, "stylesheet") {
        LinkType::Resource
    } else if contains_str(rel, "icon") || contains_str(rel, "apple-touch-icon") {
        LinkType::Resource
    } else if contains_str(rel, "sitemap") {
        LinkType::Sitemap
    } else if contains_str(rel, "alternate") {
        if contains_str(ty, "rss") || contains_str(ty, "atom") || contains_str(ty, "xml") {
            LinkType::Feed
        } else {
            LinkType::Page
        }
    } else if contains_str(rel, "preload") || contains_str(rel, "prefetch") || contains_str(
        rel,
        "preconnect",
    ) {
        LinkType::Resource
    } else {
        LinkType::Page
    }
}

/// The links of `<link>` elements (see [`link_tag_links`]).
pub fn extract_link_tags(doc: &Vec<DomNode>, base_url: &Url) -> (res: Vec<(String, LinkType)>)
    ensures
        found_view(res@) == link_tag_links(forest_select(forest_view(doc@), "link"@), base_url@),
{
    let els = select_in(doc, "link");
    let ghost ev = refs_view(els@);
    let mut out: Vec<(String, LinkType)> = Vec::new();
    assert(found_view(out@) =~= link_tag_links(ev.take(0), base_url@));
    let mut i: usize = 0;
    while i < els.len()
        invariant
            i <= els.len(),
            ev == refs_view(els@),
            found_view(out@) == link_tag_links(ev.take(i as int), base_url@),
        decreases els.len() - i,
    {
        assert(ev.take(i + 1).drop_last() =~= ev.take(i as int));
        assert(ev.take(i + 1).last() == dom_view(*els@[i as int]));
        match attr_value(els[i], "href") {
            Some(h) => match resolve_and_filter(h, base_url) {
                Some(r) => {
                    let rel = lower_attr(els[i], "rel");
                    let ty = lower_attr(els[i], "type");
                    let kind = link_tag_kind_exec(rel.as_str(), ty.as_str());
                    push_found(&mut out, r, kind);
                },
                None => {},
            },
            None => {},
        }
        i = i + 1;
    }
    assert(ev.take(els.len() as int) =~= ev);
    out
}

/// The links of `<a href>`, `<area href>` and `<form action>` (see
/// [`anchor_links`]).
pub fn extract_anchor_links(doc: &Vec<DomNode>, base_url: &Url) -> (res: Vec<(String, LinkType)>)
    ensures
        found_view(res@) == anchor_links(forest_view(doc@), base_url@),
{
    let mut out: Vec<(String, LinkType)> = Vec::new();
    assert(found_view(out@) =~= Seq::<(Seq<char>, LinkType)>::empty());
    push_tag_links(doc, "a", "href", base_url, LinkType::Page, &mut out);
    push_tag_links(doc, "area", "href", base_url, LinkType::Page, &mut out);
    push_tag_links(doc, "form", "action", base_url, LinkType::Page, &mut out);
    assert(found_view(out@) =~= anchor_links(forest_view(doc@), base_url@));
    out
}

/// Appends the `srcset` images of each element (see [`srcset_links`]).
fn push_srcset_links(els: &Vec<&DomNode>, base_url: &Url, out: &mut Vec<(String, LinkType)>)
    ensures
        found_view(final(out)@) == found_view(old(out)@) + srcset_links(refs_view(els@), base_url@),
{
    let ghost ev = refs_view(els@);
    let ghost start = found_view(out@);
    assert(start =~= start + srcset_links(ev.take(0), base_url@));
    let mut i: usize = 0;
    while i < els.len()
        invariant
            i <= els.len(),
            ev == refs_view(els@),
            found_view(out@) == start + srcset_links(ev.take(i as int), base_url@),
        decreases els.len() - i,
    {
        assert(ev.take(i + 1).drop_last() =~= ev.take(i as int));
        assert(ev.take(i + 1).last() == dom_view(*els@[i as int]));
        match attr_value(els[i], "srcset") {
            Some(s) => {
                let urls = parse_srcset(s, base_url);
                let ghost mid = found_view(out@);
                let mut k: usize = 0;
                while k < urls.len()
                    invariant
                        k <= urls.len(),
                        found_view(out@) == mid + as_resources(views(urls@).take(k as int)),
                    decreases urls.len() - k,
                {
                    push_found(out, urls[k].clone(), LinkType::Resource);
                    assert(as_resources(views(urls@).take(k + 1)) =~= as_resources(views(urls@).take(k as int)).push((urls@[k as int]@, LinkType::Resource)));
                    k = k + 1;
                }
                assert(views(urls@).take(urls.len() as int) =~= views(urls@));
                assert(found_view(out@) =~= start + srcset_links(ev.take(i + 1), base_url@));
            },
            None => {},
        }
        i = i + 1;
    }
    assert(ev.take(els.len() as int) =~= ev);
}

/// The links of scripts, images, iframes, video, audio and sources (see
/// [`resource_links`]).
pub fn extract_resource_links(doc: &Vec<DomNode>, base_url: &Url) -> (res: Vec<(String, LinkType)>)
    ensures
        found_view(res@) == resource_links(forest_view(doc@), base_url@),
{
    let mut out: Vec<(String, LinkType)> = Vec::new();
    assert(found_view(out@) =~= Seq::<(Seq<char>, LinkType)>::empty());
    push_tag_links(doc, "script", "src", base_url, LinkType::Resource, &mut out);
    push_tag_links(doc, "img", "src", base_url, LinkType::Resource, &mut out);
    let imgs = select_in(doc, "img");
    push_srcset_links(&imgs, base_url, &mut out);
    push_tag_links(doc, "iframe", "src", base_url, LinkType::Page, &mut out);
    push_tag_links(doc, "video", "src", base_url, LinkType::Resource, &mut out);
    push_tag_links(doc, "video", "poster", base_url, LinkType::Resource, &mut out);
    push_tag_links(doc, "audio", "src", base_url, LinkType::Resource, &mut out);
    push_tag_links(doc, "source", "src", base_url, LinkType::Resource, &mut out);
    assert(found_view(out@) =~= resource_links(forest_view(doc@), base_url@));
    out
}

/// Whether a meta refresh content can be read (see [`refresh_defined`]).
fn refresh_is_defined(content: &str) -> (res: bool)
    ensures
        res == refresh_defined(content@),
{
    match refresh_start_exec(content) {
        None => true,
        Some(None) => false,
        Some(Some(k)) => {
            let cv = chars_of(content);
            let after = string_from_range(&cv, k, cv.len());
            let t = trim_str(after.as_str());
            proof {
                reveal_strlit("'");
                reveal_strlit("\"");
                assert("'"@ =~= seq!['\'']);
                assert("\""@ =~= seq!['"']);
            }
            !(eq_str(t.as_str(), "'") || eq_str(t.as_str(), "\""))
        },
    }
}

/// Whether a refresh `<meta>` element can be read.
fn refresh_readable_exec(el: &DomNode) -> (res: bool)
    ensures
        res == refresh_readable(dom_view(*el)),
{
    match attr_value(el, "http-equiv") {
        Some(h) => {
            if !eq_ignore_case_ascii(h, "refresh") {
                return true;
            }
            match attr_value(el, "content") {
                Some(c) => refresh_is_defined(c),
                None => true,
            }
        },
        None => true,
    }
}

/// Whether every refresh `<meta>` of the page can be read (see
/// [`refreshes_readable`]); [`extract_links`] asks for it.
pub fn page_refreshes_readable(doc: &Vec<DomNode>) -> (res: bool)
    ensures
        res == refreshes_readable(forest_view(doc@)),
{
    let metas = select_in(doc, "meta");
    let ghost mv = refs_view(metas@);
    let mut i: usize = 0;
    while i < metas.len()
        invariant
            i <= metas.len(),
            mv == refs_view(metas@),
            mv == forest_select(forest_view(doc@), "meta"@),
            forall|k: int| 0 <= k < i ==> #[trigger] refresh_readable(mv[k]),
        decreases metas.len() - i,
    {
        if !refresh_readable_exec(metas[i]) {
            assert(!refresh_readable(mv[i as int]));
            return false;
        }
        i = i + 1;
    }
    true
}

/// Appends the links of one `<meta>` element: its refresh target, then its
/// card image or URL.
fn push_meta_el_links(el: &DomNode, base_url: &Url, out: &mut Vec<(String, LinkType)>)
    requires
        refresh_readable(dom_view(*el)),
    ensures
        found_view(final(out)@) == found_view(old(out)@) + refresh_links(dom_view(*el), base_url@)
            + card_links(dom_view(*el), base_url@),
{
    let ghost start = found_view(out@);
    match attr_value(el, "http-equiv") {
        Some(h) => {
            if eq_ignore_case_ascii(h, "refresh") {
                match attr_value(el, "content") {
                    Some(c) => match parse_meta_refresh_url(c) {
                        Some(u) => push_resolved(u.as_str(), base_url, LinkType::Page, out),
                        None => {},
                    },
                    None => {},
                }
            }
        },
        None => {},
    }
    assert(found_view(out@) =~= start + refresh_links(dom_view(*el), base_url@));
    let ghost mid = found_view(out@);
    let property: String = match attr_value(el, "property") {
        Some(p) => p.to_string(),
        None => match attr_value(el, "name") {
            Some(n) => n.to_string(),
            None => String::new(),
        },
    };
    assert(property@ == match attr_of(dom_view(*el), "property"@) {
        Some(p) => p,
        None => opt_text(attr_of(dom_view(*el), "name"@)),
    });
    let key = to_lowercase(property.as_str());
    let k = key.as_str();
    match attr_value(el, "content") {
        Some(c) => {
            if eq_str(k, "og:url") {
                push_resolved(c, base_url, LinkType::Page, out);
            } else if eq_str(k, "og:image") || eq_str(k, "og:image:url") || eq_str(k, "og:image:secure_url") {
                push_resolved(c, base_url, LinkType::Resource, out);
            } else if eq_str(k, "twitter:image") || eq_str(k, "twitter:image:src") {
                push_resolved(c, base_url, LinkType::Resource, out);
            } else {
                assert(found_view(out@) =~= mid + Seq::<(Seq<char>, LinkType)>::empty());
            }
        },
        None => {
            assert(found_view(out@) =~= mid + Seq::<(Seq<char>, LinkType)>::empty());
        },
    }
}

/// The links of `<meta>` elements (see [`meta_links`]); every refresh must
/// be readable.
pub fn extract_meta_links(doc: &Vec<DomNode>, base_url: &Url) -> (res: Vec<(String, LinkType)>)
    requires
        refreshes_readable(forest_view(doc@)),
    ensures
        found_view(res@) == meta_links(forest_select(forest_view(doc@), "meta"@), base_url@),
{
    let metas = select_in(doc, "meta");
    let ghost mv = refs_view(metas@);
    let mut out: Vec<(String, LinkType)> = Vec::new();
    assert(found_view(out@) =~= meta_links(mv.take(0), base_url@));
    let mut i: usize = 0;
    while i < metas.len()
        invariant
            i <= metas.len(),
            mv == refs_view(metas@),
            mv == forest_select(forest_view(doc@), "meta"@),
            refreshes_readable(forest_view(doc@)),
            found_view(out@) == meta_links(mv.take(i as int), base_url@),
        decreases metas.len() - i,
    {
        assert(mv.take(i + 1).drop_last() =~= mv.take(i as int));
        assert(mv.take(i + 1).last() == dom_view(*metas@[i as int]));
        assert(refresh_readable(mv[i as int]));
        push_meta_el_links(metas[i], base_url, &mut out);
        i = i + 1;
    }
    assert(mv.take(metas.len() as int) =~= mv);
    out
}

/// Appends the entries of `src` to `dst`.
fn append_found(dst: &mut Vec<(String, LinkType)>, src: &Vec<(String, LinkType)>)
    ensures
        found_view(final(dst)@) == found_view(old(dst)@) + found_view(src@),
{
    let ghost start = found_view(dst@);
    let mut i: usize = 0;
    while i < src.len()
        invariant
            i <= src.len(),
            found_view(dst@) == start + found_view(src@).take(i as int),
        decreases src.len() - i,
    {
        push_found(dst, src[i].0.clone(), src[i].1);
        assert(found_view(src@).take(i + 1) =~= found_view(src@).take(i as int).push((src@[i as int].0@, src@[i as int].1)));
        i = i + 1;
    }
    assert(found_view(src@).take(src.len() as int) =~= found_view(src@));
}

/// The links of an HTML page: anchors, `<link>` tags, resources and meta
/// tags, each resolved against the page URL, parsed and classified (see
/// [`page_links`]). Every refresh `<meta>` must be readable (see
/// [`page_refreshes_readable`]).
pub fn extract_links(doc: &Vec<DomNode>, base_url: &Url) -> (res: ExtractedLinks)
    requires
        refreshes_readable(forest_view(doc@)),
    ensures
        res@ == page_links(forest_view(doc@), base_url@),
{
    let mut all: Vec<(String, LinkType)> = Vec::new();
    assert(found_view(all@) =~= Seq::<(Seq<char>, LinkType)>::empty());
    append_found(&mut all, &extract_anchor_links(doc, base_url));
    append_found(&mut all, &extract_link_tags(doc, base_url));
    append_found(&mut all, &extract_resource_links(doc, base_url));
    append_found(&mut all, &extract_meta_links(doc, base_url));
    let ghost list = found_view(all@);
    assert(list =~= page_link_list(forest_view(doc@), base_url@));
    let mut links = ExtractedLinks::new();
    let mut i: usize = 0;
    while i < all.len()
        invariant
            i <= all.len(),
            list == found_view(all@),
            links@ == classify_all(empty_links(), list.take(i as int), base_url@),
        decreases all.len() - i,
    {
        assert(list.take(i + 1).drop_last() =~= list.take(i as int));
        assert(list.take(i + 1).last() == (all@[i as int].0@, all@[i as int].1));
        match Url::parse(all[i].0.as_str()) {
            Some(u) => classify_link(&u, base_url, all[i].1, &mut links),
            None => {},
        }
        i = i + 1;
    }
    assert(list.take(all.len() as int) =~= list);
    links
}

/// No entry occurs twice after de-duplication.
pub proof fn lemma_dedup_no_duplicates(s: Seq<Seq<char>>)
    ensures
        dedup(s).no_duplicates(),
    decreases s.len(),
{
    if s.len() > 0 {
        lemma_dedup_no_duplicates(s.drop_last());
        if !s.drop_last().contains(s.last()) {
            let d = dedup(s.drop_last());
            lemma_dedup_contains(s.drop_last(), s.last());
            assert forall|i: int, j: int| 0 <= i < j < d.push(s.last()).len() implies d.push(s.last())[i]
                != d.push(s.last())[j] by {
                if j == d.len() {
                    if d[i] == s.last() {
                        assert(d.contains(s.last()));
                    }
                }
            }
        }
    }
}

/// A list without repeated entries is its own de-duplication.
proof fn lemma_dedup_of_distinct(s: Seq<Seq<char>>)
    requires
        s.no_duplicates(),
    ensures
        dedup(s) == s,
    decreases s.len(),
{
    if s.len() > 0 {
        assert(s.drop_last().no_duplicates());
        lemma_dedup_of_distinct(s.drop_last());
        if s.drop_last().contains(s.last()) {
            let k = choose|k: int| 0 <= k < s.drop_last().len() && s.drop_last()[k] == s.last();
            assert(s[k] == s[s.len() - 1]);
        }
        assert(s.drop_last().push(s.last()) =~= s);
    }
}

/// De-duplicating twice is de-duplicating once.
pub proof fn lemma_dedup_idempotent(s: Seq<Seq<char>>)
    ensures
        dedup(dedup(s)) == dedup(s),
{
    lemma_dedup_no_duplicates(s);
    lemma_dedup_of_distinct(dedup(s));
}

/// How a `<link>` is classified by its (lowercased) `rel` and `type`:
/// stylesheets and icons are resources; otherwise `sitemap` marks a sitemap;
/// otherwise `alternate` marks a feed when the type names RSS, Atom or XML,
/// else a page; otherwise a `preload`, `prefetch` or `preconnect` hint is a
/// resource; a `rel` with none of these words is a page.
pub proof fn lemma_link_tag_kinds(rel: Seq<char>, ty: Seq<char>)
    ensures
        contains_seq(rel, "stylesheet"@) || contains_seq(rel, "icon"@) ==> link_tag_kind(rel, ty)
            == LinkType::Resource,
        !contains_seq(rel, "stylesheet"@) && !contains_seq(rel, "icon"@) && contains_seq(rel, "sitemap"@)
            ==> link_tag_kind(rel, ty) == LinkType::Sitemap,
        !contains_seq(rel, "stylesheet"@) && !contains_seq(rel, "icon"@) && !contains_seq(rel, "sitemap"@)
            && contains_seq(rel, "alternate"@) ==> link_tag_kind(rel, ty) == (if contains_seq(ty, "rss"@)
            || contains_seq(ty, "atom"@) || contains_seq(ty, "xml"@) {
            LinkType::Feed
        } else {
            LinkType::Page
        }),
        !contains_seq(rel, "stylesheet"@) && !contains_seq(rel, "icon"@) && !contains_seq(rel, "sitemap"@)
            && !contains_seq(rel, "alternate"@) && (contains_seq(rel, "preload"@) || contains_seq(rel, "prefetch"@)
            || contains_seq(rel, "preconnect"@)) ==> link_tag_kind(rel, ty) == LinkType::Resource,
        !contains_seq(rel, "stylesheet"@) && !contains_seq(rel, "icon"@) && !contains_seq(rel, "sitemap"@)
            && !contains_seq(rel, "alternate"@) && !contains_seq(rel, "preload"@) && !contains_seq(rel, "prefetch"@)
            && !contains_seq(rel, "preconnect"@) ==> link_tag_kind(rel, ty) == LinkType::Page,
{
    if contains_seq(rel, "apple-touch-icon"@) {
        reveal_strlit("apple-touch-icon");
        reveal_strlit("icon");
        let i = choose|i: int| crate::text::occurs_at(rel, "apple-touch-icon"@, i);
        let a = "apple-touch-icon"@;
        assert(a.len() == 16);
        assert(rel.subrange(i, i + 16) == a);
        assert forall|k: int| 0 <= k < 4 implies rel.subrange(i + 12, i + 16)[k] == "icon"@[k] by {
            assert(rel.subrange(i + 12, i + 16)[k] == rel[i + 12 + k]);
            assert(rel[i + 12 + k] == rel.subrange(i, i + 16)[12 + k]);
        }
        assert(rel.subrange(i + 12, i + 16) =~= "icon"@);
        assert(crate::text::occurs_at(rel, "icon"@, i + 12));
    }
}

/// Where a classified link lands: a resource among the resources, a feed
/// among the feeds, a sitemap among the sitemaps, and a page among the
/// internal links when on the same domain as the base, else among the
/// subdomain links when on a subdomain of it, else among the external links;
/// every other list is left as it was.
pub proof fn lemma_classified_placement(links: LinksView, u: UrlView, base: UrlView, kind: LinkType)
    ensures
        kind == LinkType::Resource ==> classified(links, u, base, kind) == (LinksView {
            resources: links.resources.push(u.serialization),
            ..links
        }),
        kind == LinkType::Feed ==> classified(links, u, base, kind) == (LinksView {
            feeds: links.feeds.push(u.serialization),
            ..links
        }),
        kind == LinkType::Sitemap ==> classified(links, u, base, kind) == (LinksView {
            sitemaps: links.sitemaps.push(u.serialization),
            ..links
        }),
        kind == LinkType::Page && same_domain(u, base) ==> classified(links, u, base, kind) == (LinksView {
            internal: links.internal.push(u.serialization),
            ..links
        }),
        kind == LinkType::Page && !same_domain(u, base) && subdomain_of(u, base) ==> classified(links, u, base, kind)
            == (LinksView { subdomains: links.subdomains.push(u.serialization), ..links }),
        kind == LinkType::Page && !same_domain(u, base) && !subdomain_of(u, base) ==> classified(links, u, base, kind)
            == (LinksView { external: links.external.push(u.serialization), ..links }),
{
}

/// Open Graph and Twitter card tags with content: `og:url` is a page;
/// `og:image`, `og:image:url`, `og:image:secure_url`, `twitter:image` and
/// `twitter:image:src` are resources; other keys give nothing.
pub proof fn lemma_card_link_kinds(el: DomView, base: UrlView, c: Seq<char>)
    requires
        attr_of(el, "content"@) == Some(c),
    ensures
        ({
            let key = unicode_lowercase(
                match attr_of(el, "property"@) {
                    Some(p) => p,
                    None => opt_text(attr_of(el, "name"@)),
                },
            );
            &&& key == "og:url"@ ==> card_links(el, base) == one_link(c, base, LinkType::Page)
            &&& (key == "og:image"@ || key == "og:image:url"@ || key == "og:image:secure_url"@ || key
                == "twitter:image"@ || key == "twitter:image:src"@) ==> card_links(el, base) == one_link(
                c,
                base,
                LinkType::Resource,
            )
            &&& !(key == "og:url"@ || key == "og:image"@ || key == "og:image:url"@ || key == "og:image:secure_url"@
                || key == "twitter:image"@ || key == "twitter:image:src"@) ==> card_links(el, base)
                == Seq::<(Seq<char>, LinkType)>::empty()
        }),
{
    reveal_strlit("og:url");
    assert("og:url"@ =~= seq!['o', 'g', ':', 'u', 'r', 'l']);
    reveal_strlit("og:image");
    assert("og:image"@ =~= seq!['o', 'g', ':', 'i', 'm', 'a', 'g', 'e']);
    reveal_strlit("og:image:url");
    assert("og:image:url"@ =~= seq!['o', 'g', ':', 'i', 'm', 'a', 'g', 'e', ':', 'u', 'r', 'l']);
    reveal_strlit("og:image:secure_url");
    assert("og:image:secure_url"@ =~= seq!['o', 'g', ':', 'i', 'm', 'a', 'g', 'e', ':', 's', 'e', 'c', 'u', 'r', 'e', '_', 'u', 'r', 'l']);
    reveal_strlit("twitter:image");
    assert("twitter:image"@ =~= seq!['t', 'w', 'i', 't', 't', 'e', 'r', ':', 'i', 'm', 'a', 'g', 'e']);
    reveal_strlit("twitter:image:src");
    assert("twitter:image:src"@ =~= seq!['t', 'w', 'i', 't', 't', 'e', 'r', ':', 'i', 'm', 'a', 'g', 'e', ':', 's', 'r', 'c']);
    reveal_strlit("urlset");
    assert("urlset"@ =~= seq!['u', 'r', 'l', 's', 'e', 't']);
    reveal_strlit("sitemapindex");
    assert("sitemapindex"@ =~= seq!['s', 'i', 't', 'e', 'm', 'a', 'p', 'i', 'n', 'd', 'e', 'x']);
    reveal_strlit("feed");
    assert("feed"@ =~= seq!['f', 'e', 'e', 'd']);
    reveal_strlit("channel");
    assert("channel"@ =~= seq!['c', 'h', 'a', 'n', 'n', 'e', 'l']);
    reveal_strlit("rss");
    assert("rss"@ =~= seq!['r', 's', 's']);
    reveal_strlit("link");
    assert("link"@ =~= seq!['l', 'i', 'n', 'k']);
}

/// The root of an XML document sets what its links are: `<urlset>` and
/// `<sitemapindex>` (with any prefix, in any case) mark a sitemap, `<feed>`,
/// `<channel>` and `<rss>` a feed.
pub proof fn lemma_xml_link_roots(st: XmlLinksState, name: Seq<char>, attrs: Seq<(String, String)>, base: UrlView)
    ensures
        ({
            let tl = unicode_lowercase(after_first_colon(name));
            &&& (tl == "urlset"@ || tl == "sitemapindex"@) ==> xml_links_open(st, name, attrs, base).in_sitemap
            &&& (tl == "feed"@ || tl == "channel"@ || tl == "rss"@) ==> xml_links_open(st, name, attrs, base).in_feed
        }),
{
    reveal_strlit("og:url");
    assert("og:url"@ =~= seq!['o', 'g', ':', 'u', 'r', 'l']);
    reveal_strlit("og:image");
    assert("og:image"@ =~= seq!['o', 'g', ':', 'i', 'm', 'a', 'g', 'e']);
    reveal_strlit("og:image:url");
    assert("og:image:url"@ =~= seq!['o', 'g', ':', 'i', 'm', 'a', 'g', 'e', ':', 'u', 'r', 'l']);
    reveal_strlit("og:image:secure_url");
    assert("og:image:secure_url"@ =~= seq!['o', 'g', ':', 'i', 'm', 'a', 'g', 'e', ':', 's', 'e', 'c', 'u', 'r', 'e', '_', 'u', 'r', 'l']);
    reveal_strlit("twitter:image");
    assert("twitter:image"@ =~= seq!['t', 'w', 'i', 't', 't', 'e', 'r', ':', 'i', 'm', 'a', 'g', 'e']);
    reveal_strlit("twitter:image:src");
    assert("twitter:image:src"@ =~= seq!['t', 'w', 'i', 't', 't', 'e', 'r', ':', 'i', 'm', 'a', 'g', 'e', ':', 's', 'r', 'c']);
    reveal_strlit("urlset");
    assert("urlset"@ =~= seq!['u', 'r', 'l', 's', 'e', 't']);
    reveal_strlit("sitemapindex");
    assert("sitemapindex"@ =~= seq!['s', 'i', 't', 'e', 'm', 'a', 'p', 'i', 'n', 'd', 'e', 'x']);
    reveal_strlit("feed");
    assert("feed"@ =~= seq!['f', 'e', 'e', 'd']);
    reveal_strlit("channel");
    assert("channel"@ =~= seq!['c', 'h', 'a', 'n', 'n', 'e', 'l']);
    reveal_strlit("rss");
    assert("rss"@ =~= seq!['r', 's', 's']);
    reveal_strlit("link");
    assert("link"@ =~= seq!['l', 'i', 'n', 'k']);
}

/// `x` occurs in `s` before any `y` does.
pub open spec fn occurs_before(s: Seq<Seq<char>>, x: Seq<char>, y: Seq<char>) -> bool {
    exists|k: int| 0 <= k < s.len() && #[trigger] s[k] == x && forall|m: int| 0 <= m <= k ==> #[trigger] s[m] != y
}

/// De-duplication keeps the order of first occurrences: of two kept
/// entries, the earlier one first occurs in the list before the later one
/// occurs at all.
pub proof fn lemma_dedup_first_occurrence_order(s: Seq<Seq<char>>)
    ensures
        forall|i: int, j: int| 0 <= i < j < dedup(s).len() ==> occurs_before(s, #[trigger] dedup(s)[i], #[trigger] dedup(s)[j]),
    decreases s.len(),
{
    if s.len() > 0 {
        let t = s.drop_last();
        let x = s.last();
        lemma_dedup_first_occurrence_order(t);
        let d = dedup(t);
        assert forall|i: int, j: int| 0 <= i < j < d.len() implies occurs_before(s, d[i], d[j]) by {
            assert(occurs_before(t, d[i], d[j]));
            let k = choose|k: int| 0 <= k < t.len() && #[trigger] t[k] == d[i] && forall|m: int| 0 <= m <= k ==> #[trigger] t[m] != d[j];
            assert(s[k] == d[i]);
            assert forall|m: int| 0 <= m <= k implies #[trigger] s[m] != d[j] by {
                assert(s[m] == t[m]);
            }
        }
        if !t.contains(x) {
            assert forall|i: int| 0 <= i < d.len() implies occurs_before(s, #[trigger] d[i], x) by {
                lemma_dedup_contains(t, d[i]);
                assert(d.contains(d[i]));
                let k = choose|k: int| 0 <= k < t.len() && t[k] == d[i];
                assert(s[k] == d[i]);
                assert forall|m: int| 0 <= m <= k implies #[trigger] s[m] != x by {
                    assert(s[m] == t[m]);
                    if t[m] == x {
                        assert(t.contains(x));
                    }
                }
            }
            let dd = d.push(x);
            assert forall|i: int, j: int| 0 <= i < j < dd.len() implies occurs_before(s, #[trigger] dd[i], #[trigger] dd[j]) by {
                assert(dd[i] == d[i]);
                if j < d.len() {
                    assert(dd[j] == d[j]);
                } else {
                    assert(dd[j] == x);
                }
            }
        }
    }
}

/// Classifying a link adds it to exactly one list: the lists grow by one
/// entry in all.
pub proof fn lemma_classified_adds_one(links: LinksView, u: UrlView, base: UrlView, kind: LinkType)
    ensures
        ({
            let n = classified(links, u, base, kind);
            n.internal.len() + n.external.len() + n.subdomains.len() + n.resources.len() + n.feeds.len()
                + n.sitemaps.len() == links.internal.len() + links.external.len() + links.subdomains.len()
                + links.resources.len() + links.feeds.len() + links.sitemaps.len() + 1
        }),
{
}

} // verus!
