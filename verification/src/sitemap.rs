//! Sitemaps: `<urlset>` documents listing pages and `<sitemapindex>`
//! documents listing further sitemaps.
//!
//! A `<priority>` value is kept as the text the sitemap gives; reading it as
//! a number is left to the caller.

use vstd::prelude::*;

use crate::error::RehykeError;
use crate::parser::{Outcome, is_parse_error};
use crate::text::{
    chars_of, contains_seq, contains_str, eq_str, opt_str_view, push_str, string_from_range,
    trim, trim_str, views,
};
use crate::utils::Url;
use crate::xml::{XmlEvent, event_views, is_final, well_formed_stream, xml_events, xml_stream};

verus! {

/// One `<url>` entry of a sitemap.
#[derive(Debug, Clone)]
pub struct SitemapEntry {
    /// The page URL (`<loc>`).
    pub loc: String,
    /// The last modification date (`<lastmod>`), if present.
    pub lastmod: Option<String>,
    /// The change frequency (`<changefreq>`), if present.
    pub changefreq: Option<String>,
    /// The text of `<priority>`, if present.
    pub priority: Option<String>,
}

/// A sitemap entry with its fields as character sequences.
pub ghost struct EntryView {
    pub loc: Seq<char>,
    pub lastmod: Option<Seq<char>>,
    pub changefreq: Option<Seq<char>>,
    pub priority: Option<Seq<char>>,
}

impl View for SitemapEntry {
    type V = EntryView;

    open spec fn view(&self) -> EntryView {
        EntryView {
            loc: self.loc@,
            lastmod: opt_str_view(self.lastmod),
            changefreq: opt_str_view(self.changefreq),
            priority: opt_str_view(self.priority),
        }
    }
}

/// The views of a list of entries.
pub open spec fn entries_view(v: Seq<SitemapEntry>) -> Seq<EntryView> {
    v.map_values(|e: SitemapEntry| e@)
}

/// A parsed sitemap: its page entries and, for an index, the sitemaps it
/// lists.
#[derive(Debug, Clone)]
pub struct Sitemap {
    pub entries: Vec<SitemapEntry>,
    pub sub_sitemaps: Vec<String>,
}

/// The element whose text is being read.
#[derive(Debug, Clone, Copy, PartialEq, Eq, Structural)]
pub enum SitemapTag {
    Loc,
    Lastmod,
    Changefreq,
    Priority,
    Other,
}

/// The part of a qualified name after its last `:`.
pub open spec fn local_part(name: Seq<char>) -> Seq<char>
    decreases name.len(),
{
    if name.len() == 0 {
        name
    } else if name.last() == ':' {
        Seq::empty()
    } else {
        local_part(name.drop_last()).push(name.last())
    }
}

/// The local part of a possibly prefixed element name: `ns:url` gives `url`.
pub fn local_name_str(name: &str) -> (res: String)
    ensures
        res@ == local_part(name@),
{
    let v = chars_of(name);
    let mut start: usize = 0;
    let mut i: usize = 0;
    while i < v.len()
        invariant
            i <= v.len(),
            start <= i,
            v@ == name@,
            local_part(v@.subrange(0, i as int)) == v@.subrange(start as int, i as int),
        decreases v.len() - i,
    {
        assert(v@.subrange(0, i + 1).drop_last() =~= v@.subrange(0, i as int));
        if v[i] == ':' {
            start = i + 1;
            assert(v@.subrange(start as int, i + 1) =~= Seq::<char>::empty());
        } else {
            assert(v@.subrange(start as int, i + 1) =~= v@.subrange(start as int, i as int).push(
                v@[i as int],
            ));
        }
        i = i + 1;
    }
    assert(v@.subrange(0, v@.len() as int) =~= v@);
    string_from_range(&v, start, v.len())
}

/// The state of the sitemap reader.
pub ghost struct SitemapState {
    pub entries: Seq<EntryView>,
    pub subs: Seq<Seq<char>>,
    pub in_url: bool,
    pub in_sitemap: bool,
    pub tag: SitemapTag,
    pub loc: Seq<char>,
    pub lastmod: Option<Seq<char>>,
    pub changefreq: Option<Seq<char>>,
    pub priority: Option<Seq<char>>,
}

/// The state before the first event.
pub open spec fn sitemap_initial() -> SitemapState {
    SitemapState {
        entries: Seq::empty(),
        subs: Seq::empty(),
        in_url: false,
        in_sitemap: false,
        tag: SitemapTag::Other,
        loc: Seq::empty(),
        lastmod: None,
        changefreq: None,
        priority: None,
    }
}

/// An opening (or self-closing) element named `local`.
pub open spec fn sitemap_open(st: SitemapState, local: Seq<char>, is_index: bool) -> SitemapState {
    if local == "url"@ {
        SitemapState {
            in_url: true,
            loc: Seq::empty(),
            lastmod: None,
            changefreq: None,
            priority: None,
            ..st
        }
    } else if local == "sitemap"@ && is_index {
        SitemapState { in_sitemap: true, loc: Seq::empty(), ..st }
    } else if local == "loc"@ {
        SitemapState { tag: SitemapTag::Loc, ..st }
    } else if local == "lastmod"@ {
        SitemapState { tag: SitemapTag::Lastmod, ..st }
    } else if local == "changefreq"@ {
        SitemapState { tag: SitemapTag::Changefreq, ..st }
    } else if local == "priority"@ {
        SitemapState { tag: SitemapTag::Priority, ..st }
    } else {
        SitemapState { tag: SitemapTag::Other, ..st }
    }
}

/// A closing element named `local`: a `<url>` with a location becomes an
/// entry, a `<sitemap>` with a location becomes a listed sitemap.
pub open spec fn sitemap_close(st: SitemapState, local: Seq<char>) -> SitemapState {
    if local == "url"@ && st.in_url {
        let s = if st.loc.len() > 0 {
            SitemapState {
                entries: st.entries.push(
                    EntryView {
                        loc: st.loc,
                        lastmod: st.lastmod,
                        changefreq: st.changefreq,
                        priority: st.priority,
                    },
                ),
                lastmod: None,
                changefreq: None,
                priority: None,
                ..st
            }
        } else {
            st
        };
        SitemapState { in_url: false, tag: SitemapTag::Other, ..s }
    } else if local == "sitemap"@ && st.in_sitemap {
        let s = if st.loc.len() > 0 {
            SitemapState { subs: st.subs.push(st.loc), ..st }
        } else {
            st
        };
        SitemapState { in_sitemap: false, tag: SitemapTag::Other, ..s }
    } else if local == "loc"@ || local == "lastmod"@ || local == "changefreq"@ || local
        == "priority"@ {
        SitemapState { tag: SitemapTag::Other, ..st }
    } else {
        st
    }
}

/// Text inside the current element (before trimming).
pub open spec fn sitemap_text(st: SitemapState, raw: Seq<char>) -> SitemapState {
    let text = trim(raw);
    if text.len() == 0 {
        st
    } else {
        match st.tag {
            SitemapTag::Loc => SitemapState { loc: text, ..st },
            SitemapTag::Lastmod => SitemapState { lastmod: Some(text), ..st },
            SitemapTag::Changefreq => SitemapState { changefreq: Some(text), ..st },
            SitemapTag::Priority => SitemapState { priority: Some(text), ..st },
            SitemapTag::Other => st,
        }
    }
}

/// The effect of one (non-final) event.
pub open spec fn sitemap_step(st: SitemapState, e: XmlEvent, is_index: bool) -> SitemapState {
    match e {
        XmlEvent::Start(name, _) => sitemap_open(st, local_part(name@), is_index),
        XmlEvent::Empty(name, _) => sitemap_open(st, local_part(name@), is_index),
        XmlEvent::Text(t) => sitemap_text(st, t@),
        XmlEvent::End(name) => sitemap_close(st, local_part(name@)),
        _ => st,
    }
}

/// Reading a sitemap from the events, until the end or an error.
pub open spec fn sitemap_run(events: Seq<XmlEvent>, is_index: bool) -> Outcome<SitemapState>
    decreases events.len(),
{
    if events.len() == 0 {
        Outcome::Reading(sitemap_initial())
    } else {
        match sitemap_run(events.drop_last(), is_index) {
            Outcome::Reading(st) => match events.last() {
                XmlEvent::Eof => Outcome::Finished(st),
                XmlEvent::Error(m) => Outcome::Failed(m@),
                e => Outcome::Reading(sitemap_step(st, e, is_index)),
            },
            done => done,
        }
    }
}

proof fn lemma_sitemap_run_stops(events: Seq<XmlEvent>, is_index: bool, i: int)
    requires
        0 <= i < events.len(),
        sitemap_run(events.subrange(0, i + 1), is_index) !is Reading,
    ensures
        sitemap_run(events, is_index) == sitemap_run(events.subrange(0, i + 1), is_index),
    decreases events.len() - i,
{
    if i + 1 < events.len() {
        assert(events.drop_last().subrange(0, i + 1) =~= events.subrange(0, i + 1));
        lemma_sitemap_run_stops(events.drop_last(), is_index, i);
    } else {
        assert(events.subrange(0, i + 1) =~= events);
    }
}

/// The outcome of reading a sitemap from the events: its entries and listed
/// sitemaps, or the parse error `XML parse error in sitemap: <message>`.
pub open spec fn sitemap_result(res: Result<Sitemap, RehykeError>, events: Seq<XmlEvent>, is_index: bool) -> bool {
    match sitemap_run(events, is_index) {
        Outcome::Failed(m) => res is Err && is_parse_error(res->Err_0, "XML parse error in sitemap: "@ + m),
        Outcome::Reading(st) => res is Ok && entries_view(res->Ok_0.entries@) == st.entries && views(
            res->Ok_0.sub_sitemaps@,
        ) == st.subs,
        Outcome::Finished(st) => res is Ok && entries_view(res->Ok_0.entries@) == st.entries && views(
            res->Ok_0.sub_sitemaps@,
        ) == st.subs,
    }
}

/// The sitemap reader's working state.
struct SitemapReader {
    entries: Vec<SitemapEntry>,
    subs: Vec<String>,
    in_url: bool,
    in_sitemap: bool,
    tag: SitemapTag,
    loc: String,
    lastmod: Option<String>,
    changefreq: Option<String>,
    priority: Option<String>,
}

impl View for SitemapReader {
    type V = SitemapState;

    closed spec fn view(&self) -> SitemapState {
        SitemapState {
            entries: entries_view(self.entries@),
            subs: views(self.subs@),
            in_url: self.in_url,
            in_sitemap: self.in_sitemap,
            tag: self.tag,
            loc: self.loc@,
            lastmod: opt_str_view(self.lastmod),
            changefreq: opt_str_view(self.changefreq),
            priority: opt_str_view(self.priority),
        }
    }
}

impl SitemapReader {
    fn open(&mut self, name: &str, is_index: bool)
        ensures
            final(self)@ == sitemap_open(old(self)@, local_part(name@), is_index),
    {
        let local = local_name_str(name);
        let l = local.as_str();
        if eq_str(l, "url") {
            self.in_url = true;
            self.loc = String::new();
            self.lastmod = None;
            self.changefreq = None;
            self.priority = None;
        } else if eq_str(l, "sitemap") && is_index {
            self.in_sitemap = true;
            self.loc = String::new();
        } else if eq_str(l, "loc") {
            self.tag = SitemapTag::Loc;
        } else if eq_str(l, "lastmod") {
            self.tag = SitemapTag::Lastmod;
        } else if eq_str(l, "changefreq") {
            self.tag = SitemapTag::Changefreq;
        } else if eq_str(l, "priority") {
            self.tag = SitemapTag::Priority;
        } else {
            self.tag = SitemapTag::Other;
        }
    }

    fn close(&mut self, name: &str)
        ensures
            final(self)@ == sitemap_close(old(self)@, local_part(name@)),
    {
        let local = local_name_str(name);
        let l = local.as_str();
        if eq_str(l, "url") && self.in_url {
            if !self.loc.as_str().is_empty() {
                let e = SitemapEntry {
                    loc: self.loc.clone(),
                    lastmod: self.lastmod.take(),
                    changefreq: self.changefreq.take(),
                    priority: self.priority.take(),
                };
                let ghost before = self.entries@;
                self.entries.push(e);
                assert(entries_view(self.entries@) =~= entries_view(before).push(e@));
            }
            self.in_url = false;
            self.tag = SitemapTag::Other;
        } else if eq_str(l, "sitemap") && self.in_sitemap {
            if !self.loc.as_str().is_empty() {
                let s = self.loc.clone();
                let ghost before = self.subs@;
                self.subs.push(s);
                assert(views(self.subs@) =~= views(before).push(s@));
            }
            self.in_sitemap = false;
            self.tag = SitemapTag::Other;
        } else if eq_str(l, "loc") || eq_str(l, "lastmod") || eq_str(l, "changefreq") || eq_str(
            l,
            "priority",
        ) {
            self.tag = SitemapTag::Other;
        }
    }

    fn text(&mut self, raw: &str)
        ensures
            final(self)@ == sitemap_text(old(self)@, raw@),
    {
        let text = trim_str(raw);
        if text.as_str().is_empty() {
            return;
        }
        match self.tag {
            SitemapTag::Loc => self.loc = text,
            SitemapTag::Lastmod => self.lastmod = Some(text),
            SitemapTag::Changefreq => self.changefreq = Some(text),
            SitemapTag::Priority => self.priority = Some(text),
            SitemapTag::Other => {},
        }
    }

    fn step(&mut self, e: &XmlEvent, is_index: bool)
        requires
            !is_final(*e),
        ensures
            final(self)@ == sitemap_step(old(self)@, *e, is_index),
    {
        match e {
            XmlEvent::Start(name, _) => self.open(name.as_str(), is_index),
            XmlEvent::Empty(name, _) => self.open(name.as_str(), is_index),
            XmlEvent::Text(t) => self.text(t.as_str()),
            XmlEvent::End(name) => self.close(name.as_str()),
            _ => {},
        }
    }
}

impl Sitemap {
    /// Read a sitemap from an event stream; `is_index` says whether
    /// `<sitemap>` elements list further sitemaps (see [`sitemap_step`]).
    pub fn from_events(events: &Vec<XmlEvent>, is_index: bool) -> (res: Result<Sitemap, RehykeError>)
        ensures
            sitemap_result(res, events@, is_index),
    {
        let mut r = SitemapReader {
            entries: Vec::new(),
            subs: Vec::new(),
            in_url: false,
            in_sitemap: false,
            tag: SitemapTag::Other,
            loc: String::new(),
            lastmod: None,
            changefreq: None,
            priority: None,
        };
        assert(entries_view(r.entries@) =~= Seq::<EntryView>::empty());
        assert(views(r.subs@) =~= Seq::<Seq<char>>::empty());
        assert(r@ == sitemap_initial());
        let mut i: usize = 0;
        while i < events.len()
            invariant
                i <= events.len(),
                sitemap_run(events@.subrange(0, i as int), is_index) == Outcome::Reading(r@),
            decreases events.len() - i,
        {
            let ghost pre = events@.subrange(0, i as int);
            assert(events@.subrange(0, i + 1).drop_last() =~= pre);
            match &events[i] {
                XmlEvent::Eof => {
                    proof {
                        lemma_sitemap_run_stops(events@, is_index, i as int);
                    }
                    return Ok(Sitemap { entries: r.entries, sub_sitemaps: r.subs });
                },
                XmlEvent::Error(m) => {
                    let mut msg = String::new();
                    push_str(&mut msg, "XML parse error in sitemap: ");
                    push_str(&mut msg, m.as_str());
                    proof {
                        lemma_sitemap_run_stops(events@, is_index, i as int);
                    }
                    let err = RehykeError::ParseError { url: String::new(), message: msg };
                    assert(is_parse_error(err, "XML parse error in sitemap: "@ + m@));
                    return Err(err);
                },
                e => {
                    r.step(e, is_index);
                },
            }
            i = i + 1;
        }
        assert(events@.subrange(0, events@.len() as int) =~= events@);
        Ok(Sitemap { entries: r.entries, sub_sitemaps: r.subs })
    }

    /// Parse a sitemap: a `<urlset>` gives its `<url>` entries (those with a
    /// `<loc>`), a `<sitemapindex>` (detected by [`Sitemap::is_sitemap_index`])
    /// also gives the `<loc>` of each `<sitemap>`. Element names may carry a
    /// namespace prefix. A syntax error gives a parse error
    /// `XML parse error in sitemap: <message>`.
    pub fn parse(xml: &str) -> (res: Result<Sitemap, RehykeError>)
        ensures
            exists|events: Seq<XmlEvent>|
                well_formed_stream(events) && event_views(events) == xml_stream(xml@, true) && #[trigger] sitemap_result(
                    res,
                    events,
                    contains_seq(xml@, "<sitemapindex"@),
                ),
    {
        let is_index = Self::is_sitemap_index(xml);
        let events = xml_events(xml, true);
        Self::from_events(&events, is_index)
    }

    /// Whether the XML looks like a sitemap index: it contains
    /// `<sitemapindex`.
    pub fn is_sitemap_index(xml: &str) -> (res: bool)
        ensures
            res == contains_seq(xml@, "<sitemapindex"@),
    {
        contains_str(xml, "<sitemapindex")
    }

    /// The page URLs of the entries, in order.
    pub fn urls(&self) -> (res: Vec<&str>)
        ensures
            res@.len() == self.entries@.len(),
            forall|i: int| 0 <= i < res@.len() ==> #[trigger] res@[i]@ == self.entries@[i].loc@,
    {
        let mut out: Vec<&str> = Vec::new();
        let mut i: usize = 0;
        while i < self.entries.len()
            invariant
                i <= self.entries.len(),
                out@.len() == i,
                forall|k: int| 0 <= k < i ==> #[trigger] out@[k]@ == self.entries@[k].loc@,
            decreases self.entries.len() - i,
        {
            out.push(self.entries[i].loc.as_str());
            i = i + 1;
        }
        out
    }

    /// The sitemap locations to probe on a site: `sitemap.xml`,
    /// `sitemap_index.xml`, `sitemap/sitemap.xml` and `sitemaps.xml` under
    /// `<scheme>://<host>` (`localhost` for a URL without a host).
    pub fn common_sitemap_urls(base: &Url) -> (res: Vec<String>)
        ensures
            ({
                let origin = base@.scheme + "://"@ + match base@.host {
                    Some(h) => h,
                    None => "localhost"@,
                };
                views(res@) == seq![
                    origin + "/sitemap.xml"@,
                    origin + "/sitemap_index.xml"@,
                    origin + "/sitemap/sitemap.xml"@,
                    origin + "/sitemaps.xml"@,
                ]
            }),
    {
        let mut origin = String::new();
        push_str(&mut origin, base.scheme());
        push_str(&mut origin, "://");
        match base.host_str() {
            Some(h) => push_str(&mut origin, h),
            None => push_str(&mut origin, "localhost"),
        }
        let mut a = origin.clone();
        push_str(&mut a, "/sitemap.xml");
        let mut b = origin.clone();
        push_str(&mut b, "/sitemap_index.xml");
        let mut c = origin.clone();
        push_str(&mut c, "/sitemap/sitemap.xml");
        let mut d = origin.clone();
        push_str(&mut d, "/sitemaps.xml");
        let res = vec![a, b, c, d];
        assert(views(res@) =~= seq![a@, b@, c@, d@]);
        res
    }
}


/// The text of each element of a sitemap entry (trimmed, when not empty)
/// sets its field: `<loc>` the location, `<lastmod>`, `<changefreq>` and
/// `<priority>` theirs; closing any of these elements ends its text.
pub proof fn lemma_sitemap_fields(st: SitemapState, raw: Seq<char>, is_index: bool)
    requires
        trim(raw).len() > 0,
    ensures
        sitemap_text(sitemap_open(st, "loc"@, is_index), raw).loc == trim(raw),
        sitemap_text(sitemap_open(st, "lastmod"@, is_index), raw).lastmod == Some(trim(raw)),
        sitemap_text(sitemap_open(st, "changefreq"@, is_index), raw).changefreq == Some(trim(raw)),
        sitemap_text(sitemap_open(st, "priority"@, is_index), raw).priority == Some(trim(raw)),
        sitemap_close(st, "loc"@).tag == SitemapTag::Other,
        sitemap_close(st, "lastmod"@).tag == SitemapTag::Other,
        sitemap_close(st, "changefreq"@).tag == SitemapTag::Other,
        sitemap_close(st, "priority"@).tag == SitemapTag::Other,
{
    reveal_strlit("url");
    assert("url"@ =~= seq!['u', 'r', 'l']);
    reveal_strlit("sitemap");
    assert("sitemap"@ =~= seq!['s', 'i', 't', 'e', 'm', 'a', 'p']);
    reveal_strlit("loc");
    assert("loc"@ =~= seq!['l', 'o', 'c']);
    reveal_strlit("lastmod");
    assert("lastmod"@ =~= seq!['l', 'a', 's', 't', 'm', 'o', 'd']);
    reveal_strlit("changefreq");
    assert("changefreq"@ =~= seq!['c', 'h', 'a', 'n', 'g', 'e', 'f', 'r', 'e', 'q']);
    reveal_strlit("priority");
    assert("priority"@ =~= seq!['p', 'r', 'i', 'o', 'r', 'i', 't', 'y']);
}

/// Closing a `<url>` with a location adds an entry with the location and
/// the fields read; closing a `<sitemap>` of an index with a location lists
/// that location.
pub proof fn lemma_sitemap_entries(st: SitemapState)
    ensures
        st.in_url && st.loc.len() > 0 ==> sitemap_close(st, "url"@).entries == st.entries.push(
            EntryView { loc: st.loc, lastmod: st.lastmod, changefreq: st.changefreq, priority: st.priority },
        ),
        st.in_sitemap && st.loc.len() > 0 ==> sitemap_close(st, "sitemap"@).subs == st.subs.push(st.loc),
{
    reveal_strlit("url");
    assert("url"@ =~= seq!['u', 'r', 'l']);
    reveal_strlit("sitemap");
    assert("sitemap"@ =~= seq!['s', 'i', 't', 'e', 'm', 'a', 'p']);
    reveal_strlit("loc");
    assert("loc"@ =~= seq!['l', 'o', 'c']);
    reveal_strlit("lastmod");
    assert("lastmod"@ =~= seq!['l', 'a', 's', 't', 'm', 'o', 'd']);
    reveal_strlit("changefreq");
    assert("changefreq"@ =~= seq!['c', 'h', 'a', 'n', 'g', 'e', 'f', 'r', 'e', 'q']);
    reveal_strlit("priority");
    assert("priority"@ =~= seq!['p', 'r', 'i', 'o', 'r', 'i', 't', 'y']);
}

} // verus!
