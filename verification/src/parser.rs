//! Parsing content into a structured document: the shared document and feed
//! types, RSS and Atom feeds, generic XML, and the dispatch by content type.

use vstd::prelude::*;

use crate::error::RehykeError;
use crate::fetcher::ContentType;
use crate::text::{
    byte_len, chars_of, clone_opt_string, eq_str, is_alphanumeric, join_with, join_words,
    opt_str_view, push_str, split_whitespace_vec, starts_with, str_starts_with,
    string_from_range, trim, trim_str, unicode_alphanumeric, utf8_len, views, words,
};
use crate::xml::{XmlEvent, event_views, is_final, well_formed_stream, xml_events, xml_stream};
use crate::dom::html_dom;
use crate::html::{empty_meta, is_html_document, meta_view};
use crate::json::{json_parse_result, json_parsed};
pub use crate::html::parse_html;
pub use crate::json::parse_json;

verus! {

/// Configuration for the parser: which parts of a document are removed
/// before content extraction and whether metadata is extracted.
#[derive(Debug, Clone)]
pub struct ParseConfig {
    /// Remove `<nav>` elements.
    pub clean_navigation: bool,
    /// Remove `<footer>` elements.
    pub clean_footers: bool,
    /// Remove elements whose class or id matches common ad patterns.
    pub clean_ads: bool,
    /// Remove elements that look like comment sections.
    pub clean_comments: bool,
    /// Whether to extract `<meta>` tag metadata.
    pub extract_metadata: bool,
}

impl ParseConfig {
    /// Every cleaning step and metadata extraction enabled.
    pub fn new() -> (res: Self)
        ensures
            res.clean_navigation && res.clean_footers && res.clean_ads && res.clean_comments
                && res.extract_metadata,
    {
        ParseConfig {
            clean_navigation: true,
            clean_footers: true,
            clean_ads: true,
            clean_comments: true,
            extract_metadata: true,
        }
    }
}

impl Default for ParseConfig {
    fn default() -> (res: Self)
        ensures
            res.clean_navigation && res.clean_footers && res.clean_ads && res.clean_comments
                && res.extract_metadata,
    {
        ParseConfig::new()
    }
}

/// Metadata extracted from a page.
#[derive(Debug, Clone)]
pub struct PageMetadata {
    pub title: Option<String>,
    pub description: Option<String>,
    pub author: Option<String>,
    pub published_date: Option<String>,
    pub language: Option<String>,
    pub canonical_url: Option<String>,
    pub og_image: Option<String>,
    pub keywords: Vec<String>,
}

impl PageMetadata {
    /// Metadata with every field absent.
    pub fn empty() -> (res: Self)
        ensures
            res.title is None && res.description is None && res.author is None
                && res.published_date is None && res.language is None && res.canonical_url is None
                && res.og_image is None && res.keywords@.len() == 0,
    {
        PageMetadata {
            title: None,
            description: None,
            author: None,
            published_date: None,
            language: None,
            canonical_url: None,
            og_image: None,
            keywords: Vec::new(),
        }
    }
}

impl Default for PageMetadata {
    fn default() -> (res: Self)
        ensures
            res.title is None && res.description is None && res.author is None
                && res.published_date is None && res.language is None && res.canonical_url is None
                && res.og_image is None && res.keywords@.len() == 0,
    {
        PageMetadata::empty()
    }
}

/// A semantic content element, rendered to Markdown by the converter.
#[derive(Debug, Clone)]
pub enum ContentNode {
    Heading { level: u8, text: String },
    Paragraph(String),
    Link { text: String, href: String },
    Image { alt: String, src: String },
    Bold(String),
    Italic(String),
    Code(String),
    CodeBlock { language: Option<String>, code: String },
    UnorderedList(Vec<String>),
    OrderedList(Vec<String>),
    Blockquote(String),
    Table { headers: Vec<String>, rows: Vec<Vec<String>> },
    HorizontalRule,
    LineBreak,
    Strikethrough(String),
    DefinitionList(Vec<(String, String)>),
    Media { media_type: String, title: String, src: String },
    RawText(String),
}

/// Result of parsing a document.
#[derive(Debug, Clone)]
pub struct ParsedDocument {
    pub metadata: PageMetadata,
    pub content_nodes: Vec<ContentNode>,
    pub content_type: ContentType,
}

/// One RSS item or Atom entry.
#[derive(Debug, Clone)]
pub struct FeedItem {
    pub title: Option<String>,
    pub link: Option<String>,
    pub description: Option<String>,
    pub pub_date: Option<String>,
    pub author: Option<String>,
}

/// A parsed RSS or Atom feed.
#[derive(Debug, Clone)]
pub struct ParsedFeed {
    pub title: Option<String>,
    pub link: Option<String>,
    pub description: Option<String>,
    pub items: Vec<FeedItem>,
}


// ---------------------------------------------------------------------------
// Views
// ---------------------------------------------------------------------------

/// A feed item with its fields as character sequences.
pub ghost struct ItemView {
    pub title: Option<Seq<char>>,
    pub link: Option<Seq<char>>,
    pub description: Option<Seq<char>>,
    pub pub_date: Option<Seq<char>>,
    pub author: Option<Seq<char>>,
}

/// A feed with its fields as character sequences.
pub ghost struct FeedView {
    pub title: Option<Seq<char>>,
    pub link: Option<Seq<char>>,
    pub description: Option<Seq<char>>,
    pub items: Seq<ItemView>,
}

impl View for FeedItem {
    type V = ItemView;

    open spec fn view(&self) -> ItemView {
        ItemView {
            title: opt_str_view(self.title),
            link: opt_str_view(self.link),
            description: opt_str_view(self.description),
            pub_date: opt_str_view(self.pub_date),
            author: opt_str_view(self.author),
        }
    }
}

/// The views of a list of items.
pub open spec fn items_view(v: Seq<FeedItem>) -> Seq<ItemView> {
    v.map_values(|i: FeedItem| i@)
}

impl View for ParsedFeed {
    type V = FeedView;

    open spec fn view(&self) -> FeedView {
        FeedView {
            title: opt_str_view(self.title),
            link: opt_str_view(self.link),
            description: opt_str_view(self.description),
            items: items_view(self.items@),
        }
    }
}

/// An item with every field absent.
pub open spec fn empty_item() -> ItemView {
    ItemView { title: None, link: None, description: None, pub_date: None, author: None }
}

/// A feed with every field absent and no items.
pub open spec fn empty_feed() -> FeedView {
    FeedView { title: None, link: None, description: None, items: Seq::empty() }
}

fn new_item() -> (res: FeedItem)
    ensures
        res@ == empty_item(),
{
    FeedItem { title: None, link: None, description: None, pub_date: None, author: None }
}

fn new_feed() -> (res: ParsedFeed)
    ensures
        res@ == empty_feed(),
{
    let f = ParsedFeed { title: None, link: None, description: None, items: Vec::new() };
    assert(items_view(f.items@) =~= Seq::<ItemView>::empty());
    f
}

fn clone_item(it: &FeedItem) -> (res: FeedItem)
    ensures
        res@ == it@,
{
    FeedItem {
        title: clone_opt_string(&it.title),
        link: clone_opt_string(&it.link),
        description: clone_opt_string(&it.description),
        pub_date: clone_opt_string(&it.pub_date),
        author: clone_opt_string(&it.author),
    }
}

/// How reading a feed from an event stream ended.
pub ghost enum Outcome<S> {
    /// Events remain to be read.
    Reading(S),
    /// The end of the document was reached.
    Finished(S),
    /// A syntax error, with its message.
    Failed(Seq<char>),
}

// ---------------------------------------------------------------------------
// RSS
// ---------------------------------------------------------------------------

/// The state of an RSS reader: the feed so far, whether it is inside the
/// channel and inside an item, the current element name, and the item being
/// read.
pub ghost struct RssState {
    pub feed: FeedView,
    pub in_channel: bool,
    pub in_item: bool,
    pub tag: Seq<char>,
    pub item: ItemView,
}

/// The state before the first event.
pub open spec fn rss_initial() -> RssState {
    RssState {
        feed: empty_feed(),
        in_channel: false,
        in_item: false,
        tag: Seq::empty(),
        item: empty_item(),
    }
}

/// Text (trimmed, not empty) inside an RSS item element.
pub open spec fn rss_item_text(item: ItemView, tag: Seq<char>, text: Seq<char>, cdata: bool) -> ItemView {
    if tag == "title"@ {
        ItemView { title: Some(text), ..item }
    } else if tag == "link"@ && !cdata {
        ItemView { link: Some(text), ..item }
    } else if tag == "description"@ {
        ItemView { description: Some(text), ..item }
    } else if tag == "pubDate"@ && !cdata {
        ItemView { pub_date: Some(text), ..item }
    } else if (tag == "author"@ || tag == "dc:creator"@) && !cdata {
        ItemView { author: Some(text), ..item }
    } else {
        item
    }
}

/// Text (trimmed, not empty) inside a channel-level RSS element.
pub open spec fn rss_channel_text(feed: FeedView, tag: Seq<char>, text: Seq<char>, cdata: bool) -> FeedView {
    if tag == "title"@ {
        FeedView { title: Some(text), ..feed }
    } else if tag == "link"@ && !cdata {
        FeedView { link: Some(text), ..feed }
    } else if tag == "description"@ {
        FeedView { description: Some(text), ..feed }
    } else {
        feed
    }
}

/// Text or CDATA content (before trimming) for the RSS reader.
pub open spec fn rss_text(st: RssState, raw: Seq<char>, cdata: bool) -> RssState {
    let text = trim(raw);
    if text.len() == 0 {
        st
    } else if st.in_item {
        RssState { item: rss_item_text(st.item, st.tag, text, cdata), ..st }
    } else if st.in_channel {
        RssState { feed: rss_channel_text(st.feed, st.tag, text, cdata), ..st }
    } else {
        st
    }
}

/// The effect of one (non-final) event on the RSS reader.
pub open spec fn rss_step(st: RssState, e: XmlEvent) -> RssState {
    match e {
        XmlEvent::Start(name, _) => if name@ == "channel"@ {
            RssState { in_channel: true, ..st }
        } else if name@ == "item"@ {
            RssState { in_item: true, item: empty_item(), ..st }
        } else {
            RssState { tag: name@, ..st }
        },
        XmlEvent::Text(t) => rss_text(st, t@, false),
        XmlEvent::CData(t) => rss_text(st, t@, true),
        XmlEvent::End(name) => {
            let s = if name@ == "item"@ {
                RssState {
                    feed: FeedView { items: st.feed.items.push(st.item), ..st.feed },
                    in_item: false,
                    ..st
                }
            } else if name@ == "channel"@ {
                RssState { in_channel: false, ..st }
            } else {
                st
            };
            RssState { tag: Seq::empty(), ..s }
        },
        _ => st,
    }
}

/// Reading RSS from the events: each event applied until the end of the
/// document or an error.
pub open spec fn rss_run(events: Seq<XmlEvent>) -> Outcome<RssState>
    decreases events.len(),
{
    if events.len() == 0 {
        Outcome::Reading(rss_initial())
    } else {
        match rss_run(events.drop_last()) {
            Outcome::Reading(st) => match events.last() {
                XmlEvent::Eof => Outcome::Finished(st),
                XmlEvent::Error(m) => Outcome::Failed(m@),
                e => Outcome::Reading(rss_step(st, e)),
            },
            done => done,
        }
    }
}

/// The RSS feed read from the events, or the message of the error that
/// stopped it.
pub open spec fn rss_feed(events: Seq<XmlEvent>) -> Result<FeedView, Seq<char>> {
    match rss_run(events) {
        Outcome::Reading(st) => Ok(st.feed),
        Outcome::Finished(st) => Ok(st.feed),
        Outcome::Failed(m) => Err(m),
    }
}

/// A parse error with no URL and the given message.
pub open spec fn is_parse_error(e: RehykeError, message: Seq<char>) -> bool {
    e matches RehykeError::ParseError { url, message: m } && url@.len() == 0 && m@ == message
}

/// The RSS reader's working state.
struct RssReader {
    feed: ParsedFeed,
    in_channel: bool,
    in_item: bool,
    tag: String,
    item: FeedItem,
}

impl View for RssReader {
    type V = RssState;

    closed spec fn view(&self) -> RssState {
        RssState {
            feed: self.feed@,
            in_channel: self.in_channel,
            in_item: self.in_item,
            tag: self.tag@,
            item: self.item@,
        }
    }
}

impl RssReader {
    fn text(&mut self, raw: &str, cdata: bool)
        ensures
            final(self)@ == rss_text(old(self)@, raw@, cdata),
    {
        let text = trim_str(raw);
        if text.as_str().is_empty() {
            return;
        }
        let tag = self.tag.as_str();
        if self.in_item {
            if eq_str(tag, "title") {
                self.item.title = Some(text);
            } else if eq_str(tag, "link") && !cdata {
                self.item.link = Some(text);
            } else if eq_str(tag, "description") {
                self.item.description = Some(text);
            } else if eq_str(tag, "pubDate") && !cdata {
                self.item.pub_date = Some(text);
            } else if (eq_str(tag, "author") || eq_str(tag, "dc:creator")) && !cdata {
                self.item.author = Some(text);
            }
        } else if self.in_channel {
            if eq_str(tag, "title") {
                self.feed.title = Some(text);
            } else if eq_str(tag, "link") && !cdata {
                self.feed.link = Some(text);
            } else if eq_str(tag, "description") {
                self.feed.description = Some(text);
            }
        }
    }

    fn step(&mut self, e: &XmlEvent)
        requires
            !is_final(*e),
        ensures
            final(self)@ == rss_step(old(self)@, *e),
    {
        match e {
            XmlEvent::Start(name, _) => {
                if eq_str(name.as_str(), "channel") {
                    self.in_channel = true;
                } else if eq_str(name.as_str(), "item") {
                    self.in_item = true;
                    self.item = new_item();
                } else {
                    self.tag = name.clone();
                }
            },
            XmlEvent::Text(t) => self.text(t.as_str(), false),
            XmlEvent::CData(t) => self.text(t.as_str(), true),
            XmlEvent::End(name) => {
                if eq_str(name.as_str(), "item") {
                    let it = clone_item(&self.item);
                    let ghost before = self.feed.items@;
                    self.feed.items.push(it);
                    assert(items_view(self.feed.items@) =~= items_view(before).push(it@));
                    self.in_item = false;
                } else if eq_str(name.as_str(), "channel") {
                    self.in_channel = false;
                }
                self.tag = String::new();
            },
            _ => {},
        }
    }
}

/// Read an RSS 2.0 feed from an event stream (see [`rss_feed`]). A syntax
/// error gives a parse error `RSS parse error: <message>`.
pub fn rss_from_events(events: &Vec<XmlEvent>) -> (res: Result<ParsedFeed, RehykeError>)
    ensures
        match res {
            Ok(f) => rss_feed(events@) == Ok::<FeedView, Seq<char>>(f@),
            Err(e) => exists|m: Seq<char>|
                rss_feed(events@) == Err::<FeedView, Seq<char>>(m) && #[trigger] is_parse_error(
                    e,
                    "RSS parse error: "@ + m,
                ),
        },
{
    let mut r = RssReader {
        feed: new_feed(),
        in_channel: false,
        in_item: false,
        tag: String::new(),
        item: new_item(),
    };
    assert(r@ == rss_initial());
    let mut i: usize = 0;
    while i < events.len()
        invariant
            i <= events.len(),
            rss_run(events@.subrange(0, i as int)) == Outcome::Reading(r@),
        decreases events.len() - i,
    {
        let ghost pre = events@.subrange(0, i as int);
        assert(events@.subrange(0, i + 1).drop_last() =~= pre);
        match &events[i] {
            XmlEvent::Eof => {
                proof {
                    lemma_rss_run_stops(events@, i as int);
                }
                return Ok(r.feed);
            },
            XmlEvent::Error(m) => {
                let mut msg = String::new();
                push_str(&mut msg, "RSS parse error: ");
                push_str(&mut msg, m.as_str());
                proof {
                    lemma_rss_run_stops(events@, i as int);
                }
                let err = RehykeError::ParseError { url: String::new(), message: msg };
                assert(is_parse_error(err, "RSS parse error: "@ + m@));
                return Err(err);
            },
            e => {
                r.step(e);
            },
        }
        i = i + 1;
    }
    assert(events@.subrange(0, events@.len() as int) =~= events@);
    Ok(r.feed)
}

/// Once the reader has stopped, later events change nothing.
proof fn lemma_rss_run_stops(events: Seq<XmlEvent>, i: int)
    requires
        0 <= i < events.len(),
        rss_run(events.subrange(0, i + 1)) !is Reading,
    ensures
        rss_run(events) == rss_run(events.subrange(0, i + 1)),
    decreases events.len() - i,
{
    if i + 1 < events.len() {
        assert(events.drop_last().subrange(0, i + 1) =~= events.subrange(0, i + 1));
        lemma_rss_run_stops(events.drop_last(), i);
    } else {
        assert(events.subrange(0, i + 1) =~= events);
    }
}


// ---------------------------------------------------------------------------
// Atom
// ---------------------------------------------------------------------------

/// The value of the last attribute named `key`.
pub open spec fn last_attr(attrs: Seq<(String, String)>, key: Seq<char>) -> Option<Seq<char>>
    decreases attrs.len(),
{
    if attrs.len() == 0 {
        None
    } else if attrs.last().0@ == key {
        Some(attrs.last().1@)
    } else {
        last_attr(attrs.drop_last(), key)
    }
}

/// The target of an Atom `<link>`: its `href` when it has no `rel` or
/// `rel="alternate"`.
pub open spec fn alternate_href(attrs: Seq<(String, String)>) -> Option<Seq<char>> {
    let rel = last_attr(attrs, "rel"@);
    if rel is None || rel == Some("alternate"@) {
        last_attr(attrs, "href"@)
    } else {
        None
    }
}

/// The state of an Atom reader: the feed so far, whether it is inside an
/// entry and inside an author, the current element name, and the entry
/// being read.
pub ghost struct AtomState {
    pub feed: FeedView,
    pub in_entry: bool,
    pub in_author: bool,
    pub tag: Seq<char>,
    pub item: ItemView,
}

/// The state before the first event.
pub open spec fn atom_initial() -> AtomState {
    AtomState {
        feed: empty_feed(),
        in_entry: false,
        in_author: false,
        tag: Seq::empty(),
        item: empty_item(),
    }
}

/// A `<link>` element: its alternate target becomes the entry's link inside
/// an entry, else the feed's link.
pub open spec fn atom_link(st: AtomState, attrs: Seq<(String, String)>) -> AtomState {
    match alternate_href(attrs) {
        Some(h) => if st.in_entry {
            AtomState { item: ItemView { link: Some(h), ..st.item }, ..st }
        } else {
            AtomState { feed: FeedView { link: Some(h), ..st.feed }, ..st }
        },
        None => st,
    }
}

/// Text (before trimming) for the Atom reader.
pub open spec fn atom_text(st: AtomState, raw: Seq<char>) -> AtomState {
    let text = trim(raw);
    if text.len() == 0 {
        st
    } else if st.in_author && st.tag == "name"@ {
        if st.in_entry {
            AtomState { item: ItemView { author: Some(text), ..st.item }, ..st }
        } else {
            st
        }
    } else if st.in_entry {
        if st.tag == "title"@ {
            AtomState { item: ItemView { title: Some(text), ..st.item }, ..st }
        } else if (st.tag == "summary"@ || st.tag == "content"@) && st.item.description is None {
            AtomState { item: ItemView { description: Some(text), ..st.item }, ..st }
        } else if (st.tag == "updated"@ || st.tag == "published"@) && st.item.pub_date is None {
            AtomState { item: ItemView { pub_date: Some(text), ..st.item }, ..st }
        } else {
            st
        }
    } else if st.tag == "title"@ {
        AtomState { feed: FeedView { title: Some(text), ..st.feed }, ..st }
    } else if st.tag == "subtitle"@ {
        AtomState { feed: FeedView { description: Some(text), ..st.feed }, ..st }
    } else {
        st
    }
}

/// The effect of one (non-final) event on the Atom reader.
pub open spec fn atom_step(st: AtomState, e: XmlEvent) -> AtomState {
    match e {
        XmlEvent::Start(name, attrs) => if name@ == "entry"@ {
            AtomState { in_entry: true, item: empty_item(), ..st }
        } else if name@ == "author"@ {
            AtomState { in_author: true, ..st }
        } else if name@ == "link"@ {
            AtomState { tag: name@, ..atom_link(st, attrs@) }
        } else {
            AtomState { tag: name@, ..st }
        },
        XmlEvent::Empty(name, attrs) => if name@ == "link"@ {
            atom_link(st, attrs@)
        } else {
            st
        },
        XmlEvent::Text(t) => atom_text(st, t@),
        XmlEvent::End(name) => {
            let s = if name@ == "entry"@ {
                AtomState {
                    feed: FeedView { items: st.feed.items.push(st.item), ..st.feed },
                    in_entry: false,
                    ..st
                }
            } else if name@ == "author"@ {
                AtomState { in_author: false, ..st }
            } else {
                st
            };
            AtomState { tag: Seq::empty(), ..s }
        },
        _ => st,
    }
}

/// Reading Atom from the events: each event applied until the end of the
/// document or an error.
pub open spec fn atom_run(events: Seq<XmlEvent>) -> Outcome<AtomState>
    decreases events.len(),
{
    if events.len() == 0 {
        Outcome::Reading(atom_initial())
    } else {
        match atom_run(events.drop_last()) {
            Outcome::Reading(st) => match events.last() {
                XmlEvent::Eof => Outcome::Finished(st),
                XmlEvent::Error(m) => Outcome::Failed(m@),
                e => Outcome::Reading(atom_step(st, e)),
            },
            done => done,
        }
    }
}

/// The Atom feed read from the events, or the message of the error that
/// stopped it.
pub open spec fn atom_feed(events: Seq<XmlEvent>) -> Result<FeedView, Seq<char>> {
    match atom_run(events) {
        Outcome::Reading(st) => Ok(st.feed),
        Outcome::Finished(st) => Ok(st.feed),
        Outcome::Failed(m) => Err(m),
    }
}

/// Once the reader has stopped, later events change nothing.
proof fn lemma_atom_run_stops(events: Seq<XmlEvent>, i: int)
    requires
        0 <= i < events.len(),
        atom_run(events.subrange(0, i + 1)) !is Reading,
    ensures
        atom_run(events) == atom_run(events.subrange(0, i + 1)),
    decreases events.len() - i,
{
    if i + 1 < events.len() {
        assert(events.drop_last().subrange(0, i + 1) =~= events.subrange(0, i + 1));
        lemma_atom_run_stops(events.drop_last(), i);
    } else {
        assert(events.subrange(0, i + 1) =~= events);
    }
}

/// The value of the last attribute named `key`.
fn last_attr_exec(attrs: &Vec<(String, String)>, key: &str) -> (res: Option<String>)
    ensures
        opt_str_view(res) == last_attr(attrs@, key@),
{
    let mut i: usize = attrs.len();
    assert(attrs@.subrange(0, i as int) =~= attrs@);
    while i > 0
        invariant
            i <= attrs.len(),
            last_attr(attrs@, key@) == last_attr(attrs@.subrange(0, i as int), key@),
        decreases i,
    {
        assert(attrs@.subrange(0, i as int).drop_last() =~= attrs@.subrange(0, i - 1));
        assert(attrs@.subrange(0, i as int).last() == attrs@[i - 1]);
        if eq_str(attrs[i - 1].0.as_str(), key) {
            return Some(attrs[i - 1].1.clone());
        }
        i = i - 1;
    }
    None
}

/// The Atom reader's working state.
struct AtomReader {
    feed: ParsedFeed,
    in_entry: bool,
    in_author: bool,
    tag: String,
    item: FeedItem,
}

impl View for AtomReader {
    type V = AtomState;

    closed spec fn view(&self) -> AtomState {
        AtomState {
            feed: self.feed@,
            in_entry: self.in_entry,
            in_author: self.in_author,
            tag: self.tag@,
            item: self.item@,
        }
    }
}

impl AtomReader {
    fn link(&mut self, attrs: &Vec<(String, String)>)
        ensures
            final(self)@ == atom_link(old(self)@, attrs@),
    {
        let rel = last_attr_exec(attrs, "rel");
        let alternate = match &rel {
            None => true,
            Some(r) => eq_str(r.as_str(), "alternate"),
        };
        if alternate {
            match last_attr_exec(attrs, "href") {
                Some(h) => {
                    if self.in_entry {
                        self.item.link = Some(h);
                    } else {
                        self.feed.link = Some(h);
                    }
                },
                None => {},
            }
        }
    }

    fn text(&mut self, raw: &str)
        ensures
            final(self)@ == atom_text(old(self)@, raw@),
    {
        let text = trim_str(raw);
        if text.as_str().is_empty() {
            return;
        }
        let tag = self.tag.as_str();
        if self.in_author && eq_str(tag, "name") {
            if self.in_entry {
                self.item.author = Some(text);
            }
        } else if self.in_entry {
            if eq_str(tag, "title") {
                self.item.title = Some(text);
            } else if (eq_str(tag, "summary") || eq_str(tag, "content"))
                && self.item.description.is_none() {
                self.item.description = Some(text);
            } else if (eq_str(tag, "updated") || eq_str(tag, "published"))
                && self.item.pub_date.is_none() {
                self.item.pub_date = Some(text);
            }
        } else if eq_str(tag, "title") {
            self.feed.title = Some(text);
        } else if eq_str(tag, "subtitle") {
            self.feed.description = Some(text);
        }
    }

    fn step(&mut self, e: &XmlEvent)
        requires
            !is_final(*e),
        ensures
            final(self)@ == atom_step(old(self)@, *e),
    {
        match e {
            XmlEvent::Start(name, attrs) => {
                if eq_str(name.as_str(), "entry") {
                    self.in_entry = true;
                    self.item = new_item();
                } else if eq_str(name.as_str(), "author") {
                    self.in_author = true;
                } else if eq_str(name.as_str(), "link") {
                    self.link(attrs);
                    self.tag = name.clone();
                } else {
                    self.tag = name.clone();
                }
            },
            XmlEvent::Empty(name, attrs) => {
                if eq_str(name.as_str(), "link") {
                    self.link(attrs);
                }
            },
            XmlEvent::Text(t) => self.text(t.as_str()),
            XmlEvent::End(name) => {
                if eq_str(name.as_str(), "entry") {
                    let it = clone_item(&self.item);
                    let ghost before = self.feed.items@;
                    self.feed.items.push(it);
                    assert(items_view(self.feed.items@) =~= items_view(before).push(it@));
                    self.in_entry = false;
                } else if eq_str(name.as_str(), "author") {
                    self.in_author = false;
                }
                self.tag = String::new();
            },
            _ => {},
        }
    }
}

/// Read an Atom feed from an event stream (see [`atom_feed`]). A syntax
/// error gives a parse error `Atom parse error: <message>`.
pub fn atom_from_events(events: &Vec<XmlEvent>) -> (res: Result<ParsedFeed, RehykeError>)
    ensures
        match res {
            Ok(f) => atom_feed(events@) == Ok::<FeedView, Seq<char>>(f@),
            Err(e) => exists|m: Seq<char>|
                atom_feed(events@) == Err::<FeedView, Seq<char>>(m) && #[trigger] is_parse_error(
                    e,
                    "Atom parse error: "@ + m,
                ),
        },
{
    let mut r = AtomReader {
        feed: new_feed(),
        in_entry: false,
        in_author: false,
        tag: String::new(),
        item: new_item(),
    };
    assert(r@ == atom_initial());
    let mut i: usize = 0;
    while i < events.len()
        invariant
            i <= events.len(),
            atom_run(events@.subrange(0, i as int)) == Outcome::Reading(r@),
        decreases events.len() - i,
    {
        let ghost pre = events@.subrange(0, i as int);
        assert(events@.subrange(0, i + 1).drop_last() =~= pre);
        match &events[i] {
            XmlEvent::Eof => {
                proof {
                    lemma_atom_run_stops(events@, i as int);
                }
                return Ok(r.feed);
            },
            XmlEvent::Error(m) => {
                let mut msg = String::new();
                push_str(&mut msg, "Atom parse error: ");
                push_str(&mut msg, m.as_str());
                proof {
                    lemma_atom_run_stops(events@, i as int);
                }
                let err = RehykeError::ParseError { url: String::new(), message: msg };
                assert(is_parse_error(err, "Atom parse error: "@ + m@));
                return Err(err);
            },
            e => {
                r.step(e);
            },
        }
        i = i + 1;
    }
    assert(events@.subrange(0, events@.len() as int) =~= events@);
    Ok(r.feed)
}


// ---------------------------------------------------------------------------
// Documents from feeds
// ---------------------------------------------------------------------------

/// A content node with its text as character sequences.
pub ghost enum NodeView {
    Heading { level: u8, text: Seq<char> },
    Paragraph(Seq<char>),
    Link { text: Seq<char>, href: Seq<char> },
    Image { alt: Seq<char>, src: Seq<char> },
    Bold(Seq<char>),
    Italic(Seq<char>),
    Code(Seq<char>),
    CodeBlock { language: Option<Seq<char>>, code: Seq<char> },
    UnorderedList(Seq<Seq<char>>),
    OrderedList(Seq<Seq<char>>),
    Blockquote(Seq<char>),
    Table { headers: Seq<Seq<char>>, rows: Seq<Seq<Seq<char>>> },
    HorizontalRule,
    LineBreak,
    Strikethrough(Seq<char>),
    DefinitionList(Seq<(Seq<char>, Seq<char>)>),
    Media { media_type: Seq<char>, title: Seq<char>, src: Seq<char> },
    RawText(Seq<char>),
}

/// The view of a content node.
pub open spec fn node_view(n: ContentNode) -> NodeView {
    match n {
        ContentNode::Heading { level, text } => NodeView::Heading { level, text: text@ },
        ContentNode::Paragraph(t) => NodeView::Paragraph(t@),
        ContentNode::Link { text, href } => NodeView::Link { text: text@, href: href@ },
        ContentNode::Image { alt, src } => NodeView::Image { alt: alt@, src: src@ },
        ContentNode::Bold(t) => NodeView::Bold(t@),
        ContentNode::Italic(t) => NodeView::Italic(t@),
        ContentNode::Code(t) => NodeView::Code(t@),
        ContentNode::CodeBlock { language, code } => NodeView::CodeBlock {
            language: opt_str_view(language),
            code: code@,
        },
        ContentNode::UnorderedList(items) => NodeView::UnorderedList(views(items@)),
        ContentNode::OrderedList(items) => NodeView::OrderedList(views(items@)),
        ContentNode::Blockquote(t) => NodeView::Blockquote(t@),
        ContentNode::Table { headers, rows } => NodeView::Table {
            headers: views(headers@),
            rows: rows@.map_values(|r: Vec<String>| views(r@)),
        },
        ContentNode::HorizontalRule => NodeView::HorizontalRule,
        ContentNode::LineBreak => NodeView::LineBreak,
        ContentNode::Strikethrough(t) => NodeView::Strikethrough(t@),
        ContentNode::DefinitionList(items) => NodeView::DefinitionList(
            items@.map_values(|p: (String, String)| (p.0@, p.1@)),
        ),
        ContentNode::Media { media_type, title, src } => NodeView::Media {
            media_type: media_type@,
            title: title@,
            src: src@,
        },
        ContentNode::RawText(t) => NodeView::RawText(t@),
    }
}

/// The views of a list of nodes.
pub open spec fn nodes_view(v: Seq<ContentNode>) -> Seq<NodeView> {
    v.map_values(|n: ContentNode| node_view(n))
}

/// One node for a present value, none for an absent one.
pub open spec fn paragraph_if(prefix: Seq<char>, o: Option<Seq<char>>) -> Seq<NodeView> {
    match o {
        Some(t) => seq![NodeView::Paragraph(prefix + t)],
        None => Seq::empty(),
    }
}

/// The nodes of one feed item: its title as a level-2 heading, its link
/// (labelled with the title, or the link itself), description, publication
/// date and author, then a rule.
pub open spec fn item_nodes(it: ItemView) -> Seq<NodeView> {
    (match it.title {
        Some(t) => seq![NodeView::Heading { level: 2, text: t }],
        None => Seq::empty(),
    }) + (match it.link {
        Some(l) => seq![
            NodeView::Link {
                text: match it.title {
                    Some(t) => t,
                    None => l,
                },
                href: l,
            },
        ],
        None => Seq::empty(),
    }) + paragraph_if(Seq::empty(), it.description) + paragraph_if("Published: "@, it.pub_date)
        + paragraph_if("Author: "@, it.author) + seq![NodeView::HorizontalRule]
}

/// The nodes of the items, in order.
pub open spec fn items_nodes(items: Seq<ItemView>) -> Seq<NodeView>
    decreases items.len(),
{
    if items.len() == 0 {
        Seq::empty()
    } else {
        items_nodes(items.drop_last()) + item_nodes(items.last())
    }
}

/// The nodes of a feed: its title as a level-1 heading, its description, a
/// rule, then each item.
pub open spec fn feed_nodes(f: FeedView) -> Seq<NodeView> {
    (match f.title {
        Some(t) => seq![NodeView::Heading { level: 1, text: t }],
        None => Seq::empty(),
    }) + paragraph_if(Seq::empty(), f.description) + seq![NodeView::HorizontalRule] + items_nodes(
        f.items,
    )
}

/// `doc` is the document of feed `f` with content type `ct`: the feed's
/// nodes, and metadata holding only its title and description.
pub open spec fn is_feed_document(doc: ParsedDocument, f: FeedView, ct: ContentType) -> bool {
    &&& nodes_view(doc.content_nodes@) == feed_nodes(f)
    &&& opt_str_view(doc.metadata.title) == f.title
    &&& opt_str_view(doc.metadata.description) == f.description
    &&& doc.metadata.author is None
    &&& doc.metadata.published_date is None
    &&& doc.metadata.language is None
    &&& doc.metadata.canonical_url is None
    &&& doc.metadata.og_image is None
    &&& doc.metadata.keywords@.len() == 0
    &&& doc.content_type == ct
}

/// Append a node to a list.
pub(crate) fn push_node(nodes: &mut Vec<ContentNode>, n: ContentNode)
    ensures
        nodes_view(final(nodes)@) == nodes_view(old(nodes)@).push(node_view(n)),
{
    let ghost before = nodes@;
    nodes.push(n);
    assert(nodes_view(nodes@) =~= nodes_view(before).push(node_view(n)));
}

/// Append a paragraph `prefix + value` when the value is present.
fn push_paragraph_if(nodes: &mut Vec<ContentNode>, prefix: &str, o: &Option<String>)
    ensures
        nodes_view(final(nodes)@) == nodes_view(old(nodes)@) + paragraph_if(prefix@, opt_str_view(*o)),
{
    match o {
        Some(t) => {
            let mut s = String::new();
            push_str(&mut s, prefix);
            push_str(&mut s, t.as_str());
            push_node(nodes, ContentNode::Paragraph(s));
        },
        None => {
            assert(nodes_view(nodes@) =~= nodes_view(nodes@) + Seq::<NodeView>::empty());
        },
    }
}

/// Append the nodes of one feed item (see [`item_nodes`]).
fn push_item_nodes(nodes: &mut Vec<ContentNode>, it: &FeedItem)
    ensures
        nodes_view(final(nodes)@) == nodes_view(old(nodes)@) + item_nodes(it@),
{
    let ghost before = nodes_view(nodes@);
    match &it.title {
        Some(t) => push_node(nodes, ContentNode::Heading { level: 2, text: t.clone() }),
        None => {},
    }
    match &it.link {
        Some(l) => {
            let text = match &it.title {
                Some(t) => t.clone(),
                None => l.clone(),
            };
            push_node(nodes, ContentNode::Link { text, href: l.clone() });
        },
        None => {},
    }
    push_paragraph_if(nodes, "", &it.description);
    push_paragraph_if(nodes, "Published: ", &it.pub_date);
    push_paragraph_if(nodes, "Author: ", &it.author);
    push_node(nodes, ContentNode::HorizontalRule);
    proof {
        reveal_strlit("");
        assert(""@ =~= Seq::<char>::empty());
        assert(nodes_view(nodes@) =~= before + item_nodes(it@));
    }
}

/// The document of a feed (see [`is_feed_document`]).
pub fn feed_document(feed: &ParsedFeed, content_type: ContentType) -> (res: ParsedDocument)
    ensures
        is_feed_document(res, feed@, content_type),
{
    let mut nodes: Vec<ContentNode> = Vec::new();
    match &feed.title {
        Some(t) => push_node(&mut nodes, ContentNode::Heading { level: 1, text: t.clone() }),
        None => {},
    }
    push_paragraph_if(&mut nodes, "", &feed.description);
    push_node(&mut nodes, ContentNode::HorizontalRule);
    proof {
        reveal_strlit("");
        assert(""@ =~= Seq::<char>::empty());
        assert(nodes_view(nodes@) =~= feed_nodes(feed@).subrange(
            0,
            feed_nodes(feed@).len() - items_nodes(feed@.items).len(),
        ));
    }
    let ghost head = nodes_view(nodes@);
    let mut i: usize = 0;
    while i < feed.items.len()
        invariant
            i <= feed.items.len(),
            nodes_view(nodes@) == head + items_nodes(items_view(feed.items@.subrange(0, i as int))),
        decreases feed.items.len() - i,
    {
        let it = &feed.items[i];
        push_item_nodes(&mut nodes, it);
        proof {
            assert(items_view(feed.items@.subrange(0, i + 1)).drop_last() =~= items_view(
                feed.items@.subrange(0, i as int),
            ));
            assert(items_view(feed.items@.subrange(0, i + 1)).last() == it@);
        }
        i = i + 1;
    }
    assert(feed.items@.subrange(0, feed.items@.len() as int) =~= feed.items@);
    let doc = ParsedDocument {
        metadata: PageMetadata {
            title: clone_opt_string(&feed.title),
            description: clone_opt_string(&feed.description),
            author: None,
            published_date: None,
            language: None,
            canonical_url: None,
            og_image: None,
            keywords: Vec::new(),
        },
        content_nodes: nodes,
        content_type,
    };
    assert(nodes_view(doc.content_nodes@) =~= feed_nodes(feed@));
    doc
}

/// The result of reading a feed as a document: the document of the feed, or
/// the parse error with `prefix` before the reader's message.
pub open spec fn feed_result(
    res: Result<ParsedDocument, RehykeError>,
    feed: Result<FeedView, Seq<char>>,
    ct: ContentType,
    prefix: Seq<char>,
) -> bool {
    match res {
        Ok(doc) => feed is Ok && is_feed_document(doc, feed->Ok_0, ct),
        Err(e) => feed is Err && is_parse_error(e, prefix + feed->Err_0),
    }
}

/// Parse an RSS 2.0 feed: the channel's title and description as metadata
/// and first nodes, then each item (see [`item_nodes`]); a syntax error in
/// the XML gives a parse error `RSS parse error: <message>`.
pub fn parse_rss(xml: &str) -> (res: Result<ParsedDocument, RehykeError>)
    ensures
        exists|events: Seq<XmlEvent>|
            well_formed_stream(events) && event_views(events) == xml_stream(xml@, false) && #[trigger] feed_result(
                res,
                rss_feed(events),
                ContentType::Rss,
                "RSS parse error: "@,
            ),
{
    let events = xml_events(xml, false);
    match rss_from_events(&events) {
        Ok(feed) => {
            let doc = feed_document(&feed, ContentType::Rss);
            assert(feed_result(Ok(doc), rss_feed(events@), ContentType::Rss, "RSS parse error: "@));
            Ok(doc)
        },
        Err(e) => {
            assert(feed_result(Err(e), rss_feed(events@), ContentType::Rss, "RSS parse error: "@));
            Err(e)
        },
    }
}

/// Parse an Atom feed: the feed's title and subtitle as metadata and first
/// nodes, then each entry (see [`item_nodes`]); a syntax error in the XML
/// gives a parse error `Atom parse error: <message>`.
pub fn parse_atom(xml: &str) -> (res: Result<ParsedDocument, RehykeError>)
    ensures
        exists|events: Seq<XmlEvent>|
            well_formed_stream(events) && event_views(events) == xml_stream(xml@, false) && #[trigger] feed_result(
                res,
                atom_feed(events),
                ContentType::Atom,
                "Atom parse error: "@,
            ),
{
    let events = xml_events(xml, false);
    match atom_from_events(&events) {
        Ok(feed) => {
            let doc = feed_document(&feed, ContentType::Atom);
            assert(feed_result(Ok(doc), atom_feed(events@), ContentType::Atom, "Atom parse error: "@));
            Ok(doc)
        },
        Err(e) => {
            assert(feed_result(Err(e), atom_feed(events@), ContentType::Atom, "Atom parse error: "@));
            Err(e)
        },
    }
}


// ---------------------------------------------------------------------------
// Generic XML
// ---------------------------------------------------------------------------

/// The state of the generic XML reader: the nodes so far, the name of the
/// element last opened, and the nesting depth.
pub ghost struct XmlDocState {
    pub nodes: Seq<NodeView>,
    pub tag: Seq<char>,
    pub depth: nat,
}

/// The effect of one (non-final) event: each non-blank text becomes a
/// heading naming the enclosing element (at the nesting depth, at most 6)
/// followed by the text as a paragraph, or raw text outside any element.
pub open spec fn xml_doc_step(st: XmlDocState, e: XmlEvent) -> XmlDocState {
    match e {
        XmlEvent::Start(name, _) => XmlDocState { tag: name@, depth: st.depth + 1, ..st },
        XmlEvent::Text(t) => {
            let text = trim(t@);
            if text.len() == 0 {
                st
            } else if st.tag.len() > 0 {
                let level = (if st.depth < 6 {
                    st.depth
                } else {
                    6
                }) as u8;
                XmlDocState {
                    nodes: st.nodes.push(NodeView::Heading { level, text: st.tag }).push(
                        NodeView::Paragraph(text),
                    ),
                    ..st
                }
            } else {
                XmlDocState { nodes: st.nodes.push(NodeView::RawText(text)), ..st }
            }
        },
        XmlEvent::End(_) => XmlDocState {
            tag: Seq::empty(),
            depth: if st.depth == 0 {
                0
            } else {
                (st.depth - 1) as nat
            },
            ..st
        },
        _ => st,
    }
}

/// Reading generic XML from the events, until the end or an error.
pub open spec fn xml_doc_run(events: Seq<XmlEvent>) -> Outcome<XmlDocState>
    decreases events.len(),
{
    if events.len() == 0 {
        Outcome::Reading(XmlDocState { nodes: Seq::empty(), tag: Seq::empty(), depth: 0 })
    } else {
        match xml_doc_run(events.drop_last()) {
            Outcome::Reading(st) => match events.last() {
                XmlEvent::Eof => Outcome::Finished(st),
                XmlEvent::Error(m) => Outcome::Failed(m@),
                e => Outcome::Reading(xml_doc_step(st, e)),
            },
            done => done,
        }
    }
}

/// Once the reader has stopped, later events change nothing.
proof fn lemma_xml_doc_run_stops(events: Seq<XmlEvent>, i: int)
    requires
        0 <= i < events.len(),
        xml_doc_run(events.subrange(0, i + 1)) !is Reading,
    ensures
        xml_doc_run(events) == xml_doc_run(events.subrange(0, i + 1)),
    decreases events.len() - i,
{
    if i + 1 < events.len() {
        assert(events.drop_last().subrange(0, i + 1) =~= events.subrange(0, i + 1));
        lemma_xml_doc_run_stops(events.drop_last(), i);
    } else {
        assert(events.subrange(0, i + 1) =~= events);
    }
}

/// `doc` is the generic XML document with the given nodes: empty metadata
/// and content type XML.
pub open spec fn is_xml_document(doc: ParsedDocument, nodes: Seq<NodeView>) -> bool {
    &&& nodes_view(doc.content_nodes@) == nodes
    &&& doc.metadata.title is None
    &&& doc.metadata.description is None
    &&& doc.metadata.author is None
    &&& doc.metadata.published_date is None
    &&& doc.metadata.language is None
    &&& doc.metadata.canonical_url is None
    &&& doc.metadata.og_image is None
    &&& doc.metadata.keywords@.len() == 0
    &&& doc.content_type == ContentType::Xml
}

/// The outcome of reading generic XML from the events: the document, or the
/// parse error `XML parse error: <message>`.
pub open spec fn xml_doc_result(res: Result<ParsedDocument, RehykeError>, events: Seq<XmlEvent>) -> bool {
    match xml_doc_run(events) {
        Outcome::Reading(st) => res is Ok && is_xml_document(res->Ok_0, st.nodes),
        Outcome::Finished(st) => res is Ok && is_xml_document(res->Ok_0, st.nodes),
        Outcome::Failed(m) => res is Err && is_parse_error(res->Err_0, "XML parse error: "@ + m),
    }
}

/// Read a generic XML document from an event stream (see [`xml_doc_step`]).
pub fn xml_document_from_events(events: &Vec<XmlEvent>) -> (res: Result<ParsedDocument, RehykeError>)
    ensures
        xml_doc_result(res, events@),
{
    let mut nodes: Vec<ContentNode> = Vec::new();
    let mut tag = String::new();
    let mut depth: u64 = 0;
    assert(nodes_view(nodes@) =~= Seq::<NodeView>::empty());
    let mut i: usize = 0;
    while i < events.len()
        invariant
            i <= events.len(),
            depth <= i,
            xml_doc_run(events@.subrange(0, i as int)) == Outcome::Reading(
                XmlDocState { nodes: nodes_view(nodes@), tag: tag@, depth: depth as nat },
            ),
        decreases events.len() - i,
    {
        let ghost pre = events@.subrange(0, i as int);
        assert(events@.subrange(0, i + 1).drop_last() =~= pre);
        match &events[i] {
            XmlEvent::Eof => {
                proof {
                    lemma_xml_doc_run_stops(events@, i as int);
                }
                return Ok(ParsedDocument {
                    metadata: PageMetadata::empty(),
                    content_nodes: nodes,
                    content_type: ContentType::Xml,
                });
            },
            XmlEvent::Error(m) => {
                let mut msg = String::new();
                push_str(&mut msg, "XML parse error: ");
                push_str(&mut msg, m.as_str());
                proof {
                    lemma_xml_doc_run_stops(events@, i as int);
                }
                let err = RehykeError::ParseError { url: String::new(), message: msg };
                assert(is_parse_error(err, "XML parse error: "@ + m@));
                return Err(err);
            },
            XmlEvent::Start(name, _) => {
                tag = name.clone();
                depth = depth + 1;
            },
            XmlEvent::Text(t) => {
                let text = trim_str(t.as_str());
                if !text.as_str().is_empty() {
                    if !tag.as_str().is_empty() {
                        let level: u8 = if depth < 6 {
                            depth as u8
                        } else {
                            6
                        };
                        push_node(&mut nodes, ContentNode::Heading { level, text: tag.clone() });
                        push_node(&mut nodes, ContentNode::Paragraph(text));
                    } else {
                        push_node(&mut nodes, ContentNode::RawText(text));
                    }
                }
            },
            XmlEvent::End(_) => {
                if depth > 0 {
                    depth = depth - 1;
                }
                tag = String::new();
            },
            _ => {},
        }
        i = i + 1;
    }
    assert(events@.subrange(0, events@.len() as int) =~= events@);
    Ok(ParsedDocument {
        metadata: PageMetadata::empty(),
        content_nodes: nodes,
        content_type: ContentType::Xml,
    })
}

/// Parse generic XML: each non-blank text becomes a heading naming its
/// element followed by a paragraph (see [`xml_doc_step`]); a syntax error
/// gives a parse error `XML parse error: <message>`.
pub fn parse_xml(xml: &str) -> (res: Result<ParsedDocument, RehykeError>)
    ensures
        exists|events: Seq<XmlEvent>| well_formed_stream(events) && event_views(events) == xml_stream(xml@, false) && #[trigger] xml_doc_result(res, events),
{
    let events = xml_events(xml, false);
    xml_document_from_events(&events)
}


// ---------------------------------------------------------------------------
// Text helpers
// ---------------------------------------------------------------------------

/// Collapse every run of whitespace into one space and drop whitespace at
/// both ends: the words of `s` joined by single spaces.
pub fn collapse_whitespace(s: &str) -> (res: String)
    ensures
        res@ == join_with(words(s@), seq![' ']),
{
    join_words(s)
}

/// The language named by a class word with one of the prefixes
/// `language-`, `lang-` or `highlight-`.
pub open spec fn prefixed_language(w: Seq<char>) -> Option<Seq<char>> {
    if starts_with(w, "language-"@) {
        Some(w.subrange("language-"@.len() as int, w.len() as int))
    } else if starts_with(w, "lang-"@) {
        Some(w.subrange("lang-"@.len() as int, w.len() as int))
    } else if starts_with(w, "highlight-"@) {
        Some(w.subrange("highlight-"@.len() as int, w.len() as int))
    } else {
        None
    }
}

/// The language of the first class word that names one.
pub open spec fn first_prefixed_language(ws: Seq<Seq<char>>) -> Option<Seq<char>>
    decreases ws.len(),
{
    if ws.len() == 0 {
        None
    } else {
        match prefixed_language(ws[0]) {
            Some(l) => Some(l),
            None => first_prefixed_language(ws.drop_first()),
        }
    }
}

/// A bare class that looks like a language name: one word of at most 20
/// bytes, made of alphanumerics, `+` and `#`.
pub open spec fn looks_like_language(t: Seq<char>) -> bool {
    &&& t.len() > 0
    &&& !t.contains(' ')
    &&& utf8_len(t) <= 20
    &&& forall|i: int| 0 <= i < t.len() ==> unicode_alphanumeric(#[trigger] t[i]) || t[i] == '+' || t[i] == '#'
}

/// The programming language a `class` attribute names: the first word with
/// a `language-`, `lang-` or `highlight-` prefix, else the whole (trimmed)
/// class when it looks like a language name.
pub open spec fn language_of_class(class: Seq<char>) -> Option<Seq<char>> {
    match first_prefixed_language(words(class)) {
        Some(l) => Some(l),
        None => if looks_like_language(trim(class)) {
            Some(trim(class))
        } else {
            None
        },
    }
}

/// The language named by one class word, if any.
fn prefixed_language_exec(w: &str) -> (res: Option<String>)
    ensures
        opt_str_view(res) == prefixed_language(w@),
{
    let v = chars_of(w);
    if str_starts_with(w, "language-") {
        let n = chars_of("language-").len();
        Some(string_from_range(&v, n, v.len()))
    } else if str_starts_with(w, "lang-") {
        let n = chars_of("lang-").len();
        Some(string_from_range(&v, n, v.len()))
    } else if str_starts_with(w, "highlight-") {
        let n = chars_of("highlight-").len();
        Some(string_from_range(&v, n, v.len()))
    } else {
        None
    }
}

/// Extract a programming-language hint from a `class` attribute (see
/// [`language_of_class`]).
pub fn extract_language_from_class(class: &str) -> (res: Option<String>)
    ensures
        opt_str_view(res) == language_of_class(class@),
{
    let ws = split_whitespace_vec(class);
    let ghost wv = views(ws@);
    let mut i: usize = 0;
    assert(wv.subrange(0, wv.len() as int) =~= wv);
    while i < ws.len()
        invariant
            i <= ws.len(),
            wv == views(ws@),
            wv == words(class@),
            first_prefixed_language(wv) == first_prefixed_language(wv.subrange(i as int, wv.len() as int)),
        decreases ws.len() - i,
    {
        let ghost rest = wv.subrange(i as int, wv.len() as int);
        assert(rest[0] == ws@[i as int]@);
        assert(rest.drop_first() =~= wv.subrange(i + 1, wv.len() as int));
        match prefixed_language_exec(ws[i].as_str()) {
            Some(l) => return Some(l),
            None => {},
        }
        i = i + 1;
    }
    assert(wv.subrange(i as int, wv.len() as int) =~= Seq::<Seq<char>>::empty());
    let t = trim_str(class);
    let tv = chars_of(t.as_str());
    if tv.len() == 0 || byte_len(t.as_str()) > 20 {
        return None;
    }
    let mut k: usize = 0;
    while k < tv.len()
        invariant
            k <= tv.len(),
            tv@ == t@,
            t@ == trim(class@),
            first_prefixed_language(words(class@)) is None,
            forall|j: int| 0 <= j < k ==> tv@[j] != ' ' && (unicode_alphanumeric(tv@[j]) || tv@[j] == '+' || tv@[j] == '#'),
        decreases tv.len() - k,
    {
        let c = tv[k];
        if c == ' ' {
            assert(t@.contains(' ')) by {
                assert(t@[k as int] == ' ');
            }
            return None;
        }
        if !(is_alphanumeric(c) || c == '+' || c == '#') {
            return None;
        }
        k = k + 1;
    }
    assert(!t@.contains(' '));
    Some(t)
}

// ---------------------------------------------------------------------------
// Dispatch by content type
// ---------------------------------------------------------------------------

/// A document that holds the body as raw text.
pub open spec fn is_raw_document(doc: ParsedDocument, body: Seq<char>, ct: ContentType) -> bool {
    &&& meta_view(doc.metadata) == empty_meta()
    &&& nodes_view(doc.content_nodes@) == seq![NodeView::RawText(body)]
    &&& doc.content_type == ct
}

fn raw_document(body: &str, ct: ContentType) -> (res: ParsedDocument)
    ensures
        is_raw_document(res, body@, ct),
{
    let m = PageMetadata::empty();
    assert(views(m.keywords@) =~= Seq::<Seq<char>>::empty());
    let mut nodes: Vec<ContentNode> = Vec::new();
    push_node(&mut nodes, ContentNode::RawText(body.to_string()));
    assert(nodes_view(nodes@) =~= seq![NodeView::RawText(body@)]);
    ParsedDocument { metadata: m, content_nodes: nodes, content_type: ct }
}

fn clone_content_type(ct: &ContentType) -> (res: ContentType)
    ensures
        res == *ct,
{
    match ct {
        ContentType::Html => ContentType::Html,
        ContentType::Xhtml => ContentType::Xhtml,
        ContentType::Xml => ContentType::Xml,
        ContentType::Rss => ContentType::Rss,
        ContentType::Atom => ContentType::Atom,
        ContentType::Json => ContentType::Json,
        ContentType::JsonLd => ContentType::JsonLd,
        ContentType::Svg => ContentType::Svg,
        ContentType::PlainText => ContentType::PlainText,
        ContentType::Sitemap => ContentType::Sitemap,
        ContentType::Other(m) => ContentType::Other(m.clone()),
    }
}

/// What parsing `body` as `content_type` gives (see [`parse`]).
pub open spec fn parsed_as(
    body: Seq<char>,
    content_type: ContentType,
    config: ParseConfig,
    res: Result<ParsedDocument, RehykeError>,
) -> bool {
    match content_type {
        ContentType::Html | ContentType::Xhtml => res is Ok && is_html_document(res->Ok_0, html_dom(body), config),
        ContentType::Rss => exists|events: Seq<XmlEvent>|
            well_formed_stream(events) && event_views(events) == xml_stream(body, false) && #[trigger] feed_result(res, rss_feed(events), ContentType::Rss, "RSS parse error: "@),
        ContentType::Atom => exists|events: Seq<XmlEvent>|
            well_formed_stream(events) && event_views(events) == xml_stream(body, false) && #[trigger] feed_result(res, atom_feed(events), ContentType::Atom, "Atom parse error: "@),
        ContentType::Xml | ContentType::Sitemap => exists|events: Seq<XmlEvent>|
            well_formed_stream(events) && event_views(events) == xml_stream(body, false) && #[trigger] xml_doc_result(res, events),
        ContentType::Json | ContentType::JsonLd => json_parse_result(res, json_parsed(body)),
        _ => res is Ok && is_raw_document(res->Ok_0, body, content_type),
    }
}

/// Parse a body by its content type: HTML and XHTML as HTML pages, RSS and
/// Atom as feeds, XML and sitemaps as generic XML, JSON and JSON-LD as JSON;
/// SVG, plain text and anything else as one raw-text node.
pub fn parse(body: &str, content_type: &ContentType, config: &ParseConfig) -> (res: Result<ParsedDocument, RehykeError>)
    ensures
        parsed_as(body@, *content_type, *config, res),
{
    match content_type {
        ContentType::Html | ContentType::Xhtml => parse_html(body, config),
        ContentType::Rss => parse_rss(body),
        ContentType::Atom => parse_atom(body),
        ContentType::Xml | ContentType::Sitemap => parse_xml(body),
        ContentType::Json | ContentType::JsonLd => parse_json(body),
        _ => Ok(raw_document(body, clone_content_type(content_type))),
    }
}

/// Read an RSS 2.0 feed from XML text (see [`rss_feed`]); a syntax error
/// gives a parse error `RSS parse error: <message>`.
pub fn parse_rss_feed(xml: &str) -> (res: Result<ParsedFeed, RehykeError>)
    ensures
        exists|events: Seq<XmlEvent>|
            well_formed_stream(events) && event_views(events) == xml_stream(xml@, false) && match res {
                Ok(f) => #[trigger] rss_feed(events) == Ok::<FeedView, Seq<char>>(f@),
                Err(e) => exists|m: Seq<char>|
                    rss_feed(events) == Err::<FeedView, Seq<char>>(m) && #[trigger] is_parse_error(
                        e,
                        "RSS parse error: "@ + m,
                    ),
            },
{
    let events = xml_events(xml, false);
    rss_from_events(&events)
}

/// Read an Atom feed from XML text (see [`atom_feed`]); a syntax error
/// gives a parse error `Atom parse error: <message>`.
pub fn parse_atom_feed(xml: &str) -> (res: Result<ParsedFeed, RehykeError>)
    ensures
        exists|events: Seq<XmlEvent>|
            well_formed_stream(events) && event_views(events) == xml_stream(xml@, false) && match res {
                Ok(f) => #[trigger] atom_feed(events) == Ok::<FeedView, Seq<char>>(f@),
                Err(e) => exists|m: Seq<char>|
                    atom_feed(events) == Err::<FeedView, Seq<char>>(m) && #[trigger] is_parse_error(
                        e,
                        "Atom parse error: "@ + m,
                    ),
            },
{
    let events = xml_events(xml, false);
    atom_from_events(&events)
}


proof fn lemma_rss_tag_words()
    ensures
        "author"@ != "item"@,
        "author"@ != "channel"@,
        "dc:creator"@ != "item"@,
        "dc:creator"@ != "channel"@,
        "author"@ != "title"@,
        "author"@ != "link"@,
        "author"@ != "description"@,
        "author"@ != "pubDate"@,
        "dc:creator"@ != "title"@,
        "dc:creator"@ != "link"@,
        "dc:creator"@ != "description"@,
        "dc:creator"@ != "pubDate"@,
        "item"@ != "channel"@,
{
    reveal_strlit("author");
    reveal_strlit("dc:creator");
    reveal_strlit("item");
    reveal_strlit("channel");
    reveal_strlit("title");
    reveal_strlit("link");
    reveal_strlit("description");
    reveal_strlit("pubDate");
    assert("author"@.len() == 6 && "dc:creator"@.len() == 10);
    assert("item"@.len() == 4 && "channel"@.len() == 7 && "title"@.len() == 5 && "link"@.len() == 4);
    assert("description"@.len() == 11 && "pubDate"@.len() == 7);
    assert("author"@[0] == 'a' && "channel"@[0] == 'c');
}

/// Inside an RSS item, the text of an `<author>` or a `<dc:creator>` element
/// (trimmed, when not empty) becomes the item's author; nothing else of the
/// item or the feed changes.
pub proof fn lemma_rss_author_text(
    st: RssState,
    name: String,
    attrs: Vec<(String, String)>,
    t: String,
)
    requires
        st.in_item,
        name@ == "author"@ || name@ == "dc:creator"@,
        trim(t@).len() > 0,
    ensures
        ({
            let after = rss_step(rss_step(st, XmlEvent::Start(name, attrs)), XmlEvent::Text(t));
            &&& after.item == (ItemView { author: Some(trim(t@)), ..st.item })
            &&& after.feed == st.feed
            &&& after.in_item
        }),
{
    lemma_rss_tag_words();
}

/// An RSS item holding only an `<author>` or `<dc:creator>` element with
/// text is added to the feed with that (trimmed) text as its author.
pub proof fn lemma_rss_item_author(
    st: RssState,
    item: String,
    item_attrs: Vec<(String, String)>,
    name: String,
    attrs: Vec<(String, String)>,
    t: String,
    end_name: String,
    end_item: String,
)
    requires
        item@ == "item"@,
        end_item@ == "item"@,
        name@ == "author"@ || name@ == "dc:creator"@,
        end_name@ == name@,
        trim(t@).len() > 0,
    ensures
        ({
            let s1 = rss_step(st, XmlEvent::Start(item, item_attrs));
            let s2 = rss_step(s1, XmlEvent::Start(name, attrs));
            let s3 = rss_step(s2, XmlEvent::Text(t));
            let s4 = rss_step(s3, XmlEvent::End(end_name));
            let s5 = rss_step(s4, XmlEvent::End(end_item));
            s5.feed.items == st.feed.items.push(ItemView { author: Some(trim(t@)), ..empty_item() })
        }),
{
    lemma_rss_tag_words();
    let s1 = rss_step(st, XmlEvent::Start(item, item_attrs));
    assert(s1.in_item && s1.item == empty_item());
    lemma_rss_author_text(s1, name, attrs, t);
}


/// What the text of each element inside an RSS item sets (trimmed, when
/// not empty): `<title>` the title, `<link>` the link, `<description>` the
/// description, `<pubDate>` the date, `<author>` and `<dc:creator>` the
/// author. A CDATA section counts for the title and the description only.
pub proof fn lemma_rss_item_fields(st: RssState, name: String, attrs: Vec<(String, String)>, t: String)
    requires
        st.in_item,
        trim(t@).len() > 0,
    ensures
        name@ == "title"@ ==> rss_step(rss_step(st, XmlEvent::Start(name, attrs)), XmlEvent::Text(t)).item == (ItemView { title: Some(trim(t@)), ..st.item }),
        name@ == "title"@ ==> rss_step(rss_step(st, XmlEvent::Start(name, attrs)), XmlEvent::CData(t)).item == (ItemView { title: Some(trim(t@)), ..st.item }),
        name@ == "link"@ ==> rss_step(rss_step(st, XmlEvent::Start(name, attrs)), XmlEvent::Text(t)).item == (ItemView { link: Some(trim(t@)), ..st.item }),
        name@ == "link"@ ==> rss_step(rss_step(st, XmlEvent::Start(name, attrs)), XmlEvent::CData(t)).item == st.item,
        name@ == "description"@ ==> rss_step(rss_step(st, XmlEvent::Start(name, attrs)), XmlEvent::Text(t)).item == (ItemView { description: Some(trim(t@)), ..st.item }),
        name@ == "description"@ ==> rss_step(rss_step(st, XmlEvent::Start(name, attrs)), XmlEvent::CData(t)).item == (ItemView { description: Some(trim(t@)), ..st.item }),
        name@ == "pubDate"@ ==> rss_step(rss_step(st, XmlEvent::Start(name, attrs)), XmlEvent::Text(t)).item == (ItemView { pub_date: Some(trim(t@)), ..st.item }),
        name@ == "pubDate"@ ==> rss_step(rss_step(st, XmlEvent::Start(name, attrs)), XmlEvent::CData(t)).item == st.item,
        name@ == "author"@ ==> rss_step(rss_step(st, XmlEvent::Start(name, attrs)), XmlEvent::Text(t)).item == (ItemView { author: Some(trim(t@)), ..st.item }),
        name@ == "author"@ ==> rss_step(rss_step(st, XmlEvent::Start(name, attrs)), XmlEvent::CData(t)).item == st.item,
        name@ == "dc:creator"@ ==> rss_step(rss_step(st, XmlEvent::Start(name, attrs)), XmlEvent::Text(t)).item == (ItemView { author: Some(trim(t@)), ..st.item }),
        name@ == "dc:creator"@ ==> rss_step(rss_step(st, XmlEvent::Start(name, attrs)), XmlEvent::CData(t)).item == st.item,
{
    reveal_strlit("title");
    assert("title"@ =~= seq!['t', 'i', 't', 'l', 'e']);
    reveal_strlit("link");
    assert("link"@ =~= seq!['l', 'i', 'n', 'k']);
    reveal_strlit("description");
    assert("description"@ =~= seq!['d', 'e', 's', 'c', 'r', 'i', 'p', 't', 'i', 'o', 'n']);
    reveal_strlit("pubDate");
    assert("pubDate"@ =~= seq!['p', 'u', 'b', 'D', 'a', 't', 'e']);
    reveal_strlit("author");
    assert("author"@ =~= seq!['a', 'u', 't', 'h', 'o', 'r']);
    reveal_strlit("dc:creator");
    assert("dc:creator"@ =~= seq!['d', 'c', ':', 'c', 'r', 'e', 'a', 't', 'o', 'r']);
    reveal_strlit("item");
    assert("item"@ =~= seq!['i', 't', 'e', 'm']);
    reveal_strlit("channel");
    assert("channel"@ =~= seq!['c', 'h', 'a', 'n', 'n', 'e', 'l']);
    reveal_strlit("entry");
    assert("entry"@ =~= seq!['e', 'n', 't', 'r', 'y']);
    reveal_strlit("name");
    assert("name"@ =~= seq!['n', 'a', 'm', 'e']);
    reveal_strlit("summary");
    assert("summary"@ =~= seq!['s', 'u', 'm', 'm', 'a', 'r', 'y']);
    reveal_strlit("content");
    assert("content"@ =~= seq!['c', 'o', 'n', 't', 'e', 'n', 't']);
    reveal_strlit("updated");
    assert("updated"@ =~= seq!['u', 'p', 'd', 'a', 't', 'e', 'd']);
    reveal_strlit("published");
    assert("published"@ =~= seq!['p', 'u', 'b', 'l', 'i', 's', 'h', 'e', 'd']);
    reveal_strlit("subtitle");
    assert("subtitle"@ =~= seq!['s', 'u', 'b', 't', 'i', 't', 'l', 'e']);
}

/// What the text of each channel-level RSS element sets (trimmed, when not
/// empty): `<title>` the feed's title, `<link>` its link, `<description>`
/// its description; a CDATA section counts for the title and the
/// description only.
pub proof fn lemma_rss_channel_fields(st: RssState, name: String, attrs: Vec<(String, String)>, t: String)
    requires
        !st.in_item,
        st.in_channel,
        trim(t@).len() > 0,
    ensures
        name@ == "title"@ ==> rss_step(rss_step(st, XmlEvent::Start(name, attrs)), XmlEvent::Text(t)).feed == (FeedView { title: Some(trim(t@)), ..st.feed }),
        name@ == "title"@ ==> rss_step(rss_step(st, XmlEvent::Start(name, attrs)), XmlEvent::CData(t)).feed == (FeedView { title: Some(trim(t@)), ..st.feed }),
        name@ == "link"@ ==> rss_step(rss_step(st, XmlEvent::Start(name, attrs)), XmlEvent::Text(t)).feed == (FeedView { link: Some(trim(t@)), ..st.feed }),
        name@ == "link"@ ==> rss_step(rss_step(st, XmlEvent::Start(name, attrs)), XmlEvent::CData(t)).feed == st.feed,
        name@ == "description"@ ==> rss_step(rss_step(st, XmlEvent::Start(name, attrs)), XmlEvent::Text(t)).feed == (FeedView { description: Some(trim(t@)), ..st.feed }),
        name@ == "description"@ ==> rss_step(rss_step(st, XmlEvent::Start(name, attrs)), XmlEvent::CData(t)).feed == (FeedView { description: Some(trim(t@)), ..st.feed }),
{
    reveal_strlit("title");
    assert("title"@ =~= seq!['t', 'i', 't', 'l', 'e']);
    reveal_strlit("link");
    assert("link"@ =~= seq!['l', 'i', 'n', 'k']);
    reveal_strlit("description");
    assert("description"@ =~= seq!['d', 'e', 's', 'c', 'r', 'i', 'p', 't', 'i', 'o', 'n']);
    reveal_strlit("pubDate");
    assert("pubDate"@ =~= seq!['p', 'u', 'b', 'D', 'a', 't', 'e']);
    reveal_strlit("author");
    assert("author"@ =~= seq!['a', 'u', 't', 'h', 'o', 'r']);
    reveal_strlit("dc:creator");
    assert("dc:creator"@ =~= seq!['d', 'c', ':', 'c', 'r', 'e', 'a', 't', 'o', 'r']);
    reveal_strlit("item");
    assert("item"@ =~= seq!['i', 't', 'e', 'm']);
    reveal_strlit("channel");
    assert("channel"@ =~= seq!['c', 'h', 'a', 'n', 'n', 'e', 'l']);
    reveal_strlit("entry");
    assert("entry"@ =~= seq!['e', 'n', 't', 'r', 'y']);
    reveal_strlit("name");
    assert("name"@ =~= seq!['n', 'a', 'm', 'e']);
    reveal_strlit("summary");
    assert("summary"@ =~= seq!['s', 'u', 'm', 'm', 'a', 'r', 'y']);
    reveal_strlit("content");
    assert("content"@ =~= seq!['c', 'o', 'n', 't', 'e', 'n', 't']);
    reveal_strlit("updated");
    assert("updated"@ =~= seq!['u', 'p', 'd', 'a', 't', 'e', 'd']);
    reveal_strlit("published");
    assert("published"@ =~= seq!['p', 'u', 'b', 'l', 'i', 's', 'h', 'e', 'd']);
    reveal_strlit("subtitle");
    assert("subtitle"@ =~= seq!['s', 'u', 'b', 't', 'i', 't', 'l', 'e']);
}

/// What the text of each Atom element sets (trimmed, when not empty):
/// inside an entry, `<title>` the title, the first `<summary>` or
/// `<content>` the description, the first `<updated>` or `<published>` the
/// date, and the `<name>` inside `<author>` the author; outside entries,
/// `<title>` the feed's title and `<subtitle>` its description.
pub proof fn lemma_atom_fields(st: AtomState, name: String, attrs: Vec<(String, String)>, t: String)
    requires
        !st.in_author,
        trim(t@).len() > 0,
    ensures
        st.in_entry && name@ == "title"@ ==> atom_step(atom_step(st, XmlEvent::Start(name, attrs)), XmlEvent::Text(t)).item
            == (ItemView { title: Some(trim(t@)), ..st.item }),
        st.in_entry && st.item.description is None && (name@ == "summary"@ || name@ == "content"@) ==> atom_step(
            atom_step(st, XmlEvent::Start(name, attrs)),
            XmlEvent::Text(t),
        ).item == (ItemView { description: Some(trim(t@)), ..st.item }),
        st.in_entry && st.item.pub_date is None && (name@ == "updated"@ || name@ == "published"@) ==> atom_step(
            atom_step(st, XmlEvent::Start(name, attrs)),
            XmlEvent::Text(t),
        ).item == (ItemView { pub_date: Some(trim(t@)), ..st.item }),
        !st.in_entry && name@ == "title"@ ==> atom_step(atom_step(st, XmlEvent::Start(name, attrs)), XmlEvent::Text(t)).feed
            == (FeedView { title: Some(trim(t@)), ..st.feed }),
        !st.in_entry && name@ == "subtitle"@ ==> atom_step(atom_step(st, XmlEvent::Start(name, attrs)), XmlEvent::Text(t)).feed
            == (FeedView { description: Some(trim(t@)), ..st.feed }),
{
    reveal_strlit("title");
    assert("title"@ =~= seq!['t', 'i', 't', 'l', 'e']);
    reveal_strlit("link");
    assert("link"@ =~= seq!['l', 'i', 'n', 'k']);
    reveal_strlit("description");
    assert("description"@ =~= seq!['d', 'e', 's', 'c', 'r', 'i', 'p', 't', 'i', 'o', 'n']);
    reveal_strlit("pubDate");
    assert("pubDate"@ =~= seq!['p', 'u', 'b', 'D', 'a', 't', 'e']);
    reveal_strlit("author");
    assert("author"@ =~= seq!['a', 'u', 't', 'h', 'o', 'r']);
    reveal_strlit("dc:creator");
    assert("dc:creator"@ =~= seq!['d', 'c', ':', 'c', 'r', 'e', 'a', 't', 'o', 'r']);
    reveal_strlit("item");
    assert("item"@ =~= seq!['i', 't', 'e', 'm']);
    reveal_strlit("channel");
    assert("channel"@ =~= seq!['c', 'h', 'a', 'n', 'n', 'e', 'l']);
    reveal_strlit("entry");
    assert("entry"@ =~= seq!['e', 'n', 't', 'r', 'y']);
    reveal_strlit("name");
    assert("name"@ =~= seq!['n', 'a', 'm', 'e']);
    reveal_strlit("summary");
    assert("summary"@ =~= seq!['s', 'u', 'm', 'm', 'a', 'r', 'y']);
    reveal_strlit("content");
    assert("content"@ =~= seq!['c', 'o', 'n', 't', 'e', 'n', 't']);
    reveal_strlit("updated");
    assert("updated"@ =~= seq!['u', 'p', 'd', 'a', 't', 'e', 'd']);
    reveal_strlit("published");
    assert("published"@ =~= seq!['p', 'u', 'b', 'l', 'i', 's', 'h', 'e', 'd']);
    reveal_strlit("subtitle");
    assert("subtitle"@ =~= seq!['s', 'u', 'b', 't', 'i', 't', 'l', 'e']);
}

/// Inside an Atom entry, the text of the `<name>` inside `<author>` becomes
/// the entry's author.
pub proof fn lemma_atom_author_name(
    st: AtomState,
    author: String,
    author_attrs: Vec<(String, String)>,
    name: String,
    attrs: Vec<(String, String)>,
    t: String,
)
    requires
        st.in_entry,
        author@ == "author"@,
        name@ == "name"@,
        trim(t@).len() > 0,
    ensures
        atom_step(
            atom_step(atom_step(st, XmlEvent::Start(author, author_attrs)), XmlEvent::Start(name, attrs)),
            XmlEvent::Text(t),
        ).item == (ItemView { author: Some(trim(t@)), ..st.item }),
{
    reveal_strlit("title");
    assert("title"@ =~= seq!['t', 'i', 't', 'l', 'e']);
    reveal_strlit("link");
    assert("link"@ =~= seq!['l', 'i', 'n', 'k']);
    reveal_strlit("description");
    assert("description"@ =~= seq!['d', 'e', 's', 'c', 'r', 'i', 'p', 't', 'i', 'o', 'n']);
    reveal_strlit("pubDate");
    assert("pubDate"@ =~= seq!['p', 'u', 'b', 'D', 'a', 't', 'e']);
    reveal_strlit("author");
    assert("author"@ =~= seq!['a', 'u', 't', 'h', 'o', 'r']);
    reveal_strlit("dc:creator");
    assert("dc:creator"@ =~= seq!['d', 'c', ':', 'c', 'r', 'e', 'a', 't', 'o', 'r']);
    reveal_strlit("item");
    assert("item"@ =~= seq!['i', 't', 'e', 'm']);
    reveal_strlit("channel");
    assert("channel"@ =~= seq!['c', 'h', 'a', 'n', 'n', 'e', 'l']);
    reveal_strlit("entry");
    assert("entry"@ =~= seq!['e', 'n', 't', 'r', 'y']);
    reveal_strlit("name");
    assert("name"@ =~= seq!['n', 'a', 'm', 'e']);
    reveal_strlit("summary");
    assert("summary"@ =~= seq!['s', 'u', 'm', 'm', 'a', 'r', 'y']);
    reveal_strlit("content");
    assert("content"@ =~= seq!['c', 'o', 'n', 't', 'e', 'n', 't']);
    reveal_strlit("updated");
    assert("updated"@ =~= seq!['u', 'p', 'd', 'a', 't', 'e', 'd']);
    reveal_strlit("published");
    assert("published"@ =~= seq!['p', 'u', 'b', 'l', 'i', 's', 'h', 'e', 'd']);
    reveal_strlit("subtitle");
    assert("subtitle"@ =~= seq!['s', 'u', 'b', 't', 'i', 't', 'l', 'e']);
}

} // verus!
