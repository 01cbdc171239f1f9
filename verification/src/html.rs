//! HTML pages into documents: metadata from the `<head>`, and content nodes
//! from a walk over the `<body>` that drops scripts, styles, navigation,
//! footers, ads and comment sections as configured.

use vstd::prelude::*;

use crate::dom::{
    DomNode, DomView, attr_of, attr_value, children_of, descendants, descendants_named, dom_view,
    element_text, forest_select, forest_view, html_dom, lemma_children_view, lemma_element_fields, name_of, node_name,
    opt_ref_view, parse_html_document, refs_view, select_in, text_of,
};
use crate::error::RehykeError;
use crate::fetcher::ContentType;
use crate::parser::{
    ContentNode, NodeView, PageMetadata, ParseConfig, ParsedDocument, extract_language_from_class,
    language_of_class, node_view, nodes_view, push_node,
};
use crate::text::{
    eq_str, chars_of, contains_seq, contains_str, push_char, push_str, split_chars, split_on, string_of,
    to_lowercase, trim, trim_str, unicode_lowercase, views, eq_ignore_ascii_case,
    eq_ignore_case_ascii, opt_str_view,
};

verus! {

// ---------------------------------------------------------------------------
// Which elements are dropped
// ---------------------------------------------------------------------------

/// Class or id fragments that mark advertising containers.
pub open spec fn ad_patterns() -> Seq<Seq<char>> {
    seq![
        "ad-"@, "ad_"@, "ads-"@, "ads_"@, "advert"@, "adsense"@, "adslot"@, "banner-ad"@,
        "sponsor"@, "promoted"@, "dfp-"@, "doubleclick"@, "google_ads"@, "gpt-ad"@,
    ]
}

/// Class or id fragments that mark comment sections.
pub open spec fn comment_patterns() -> Seq<Seq<char>> {
    seq!["comment"@, "disqus"@, "discourse"@, "reply"@, "respond"@]
}

pub open spec fn matches_any(s: Seq<char>, pats: Seq<Seq<char>>) -> bool {
    exists|k: int| 0 <= k < pats.len() && #[trigger] contains_seq(s, pats[k])
}

pub open spec fn opt_or(o: Option<Seq<char>>, d: Seq<char>) -> Seq<char> {
    match o {
        Some(v) => v,
        None => d,
    }
}

/// The class and the id of an element, space-separated and lowercased.
pub open spec fn class_and_id(n: DomView) -> Seq<char> {
    unicode_lowercase(
        opt_or(attr_of(n, "class"@), Seq::empty()) + seq![' '] + opt_or(attr_of(n, "id"@), Seq::empty()),
    )
}

/// The element is left out of the content: scripts, styles and noscript
/// always; navigation and headers, footers, ads and comment sections when
/// the configuration says so.
pub open spec fn skip_element(n: DomView, cfg: ParseConfig) -> bool {
    let tag = name_of(n);
    ||| tag == "script"@ || tag == "style"@ || tag == "noscript"@
    ||| cfg.clean_navigation && tag == "nav"@
    ||| cfg.clean_footers && tag == "footer"@
    ||| cfg.clean_navigation && tag == "header"@
    ||| cfg.clean_ads && matches_any(class_and_id(n), ad_patterns())
    ||| cfg.clean_comments && matches_any(class_and_id(n), comment_patterns())
}

// ---------------------------------------------------------------------------
// What each element gives
// ---------------------------------------------------------------------------

pub open spec fn is_heading(tag: Seq<char>) -> bool {
    tag == "h1"@ || tag == "h2"@ || tag == "h3"@ || tag == "h4"@ || tag == "h5"@ || tag == "h6"@
}

pub open spec fn heading_level(tag: Seq<char>) -> u8 {
    if tag == "h1"@ {
        1
    } else if tag == "h2"@ {
        2
    } else if tag == "h3"@ {
        3
    } else if tag == "h4"@ {
        4
    } else if tag == "h5"@ {
        5
    } else {
        6
    }
}

/// Elements with a rule of their own; every other element is a container
/// whose children are walked.
pub open spec fn has_rule(tag: Seq<char>) -> bool {
    ||| is_heading(tag)
    ||| tag == "p"@ || tag == "a"@ || tag == "img"@
    ||| tag == "strong"@ || tag == "b"@ || tag == "em"@ || tag == "i"@
    ||| tag == "code"@ || tag == "pre"@ || tag == "ul"@ || tag == "ol"@
    ||| tag == "blockquote"@ || tag == "table"@ || tag == "hr"@ || tag == "br"@
    ||| tag == "del"@ || tag == "s"@ || tag == "dl"@ || tag == "figure"@
    ||| tag == "video"@ || tag == "audio"@ || tag == "iframe"@ || tag == "li"@
}

/// One node when the text is not empty.
pub open spec fn if_text(t: Seq<char>, node: NodeView) -> Seq<NodeView> {
    if t.len() > 0 {
        seq![node]
    } else {
        Seq::empty()
    }
}

pub open spec fn first_of(s: Seq<DomView>) -> Option<DomView> {
    if s.len() > 0 {
        Some(s[0])
    } else {
        None
    }
}

/// The texts of some elements.
pub open spec fn texts_of(s: Seq<DomView>) -> Seq<Seq<char>> {
    s.map_values(|e: DomView| text_of(e))
}

/// The texts of some elements, empty ones left out.
pub open spec fn nonempty_texts(s: Seq<DomView>) -> Seq<Seq<char>>
    decreases s.len(),
{
    if s.len() == 0 {
        Seq::empty()
    } else {
        let rest = nonempty_texts(s.drop_last());
        if text_of(s.last()).len() > 0 {
            rest.push(text_of(s.last()))
        } else {
            rest
        }
    }
}

/// A `<pre>`: the first `<code>` inside with the language its class names,
/// else the text of the `<pre>` itself.
pub open spec fn pre_nodes(n: DomView) -> Seq<NodeView> {
    match first_of(descendants_named(n, "code"@)) {
        Some(c) => seq![
            NodeView::CodeBlock {
                language: match attr_of(c, "class"@) {
                    Some(cl) => language_of_class(cl),
                    None => None,
                },
                code: text_of(c),
            },
        ],
        None => if_text(text_of(n), NodeView::CodeBlock { language: None, code: text_of(n) }),
    }
}

/// Header cells and body rows of a table, row by row: the first row with
/// header cells gives the headers, every other row with data cells a row.
pub open spec fn table_rows(trs: Seq<DomView>) -> (Seq<Seq<char>>, Seq<Seq<Seq<char>>>)
    decreases trs.len(),
{
    if trs.len() == 0 {
        (Seq::empty(), Seq::empty())
    } else {
        let (headers, rows) = table_rows(trs.drop_last());
        let tr = trs.last();
        let ths = texts_of(descendants_named(tr, "th"@));
        if ths.len() > 0 && headers.len() == 0 {
            (ths, rows)
        } else {
            let tds = texts_of(descendants_named(tr, "td"@));
            if tds.len() > 0 {
                (headers, rows.push(tds))
            } else {
                (headers, rows)
            }
        }
    }
}

pub open spec fn table_nodes(n: DomView) -> Seq<NodeView> {
    let (headers, rows) = table_rows(descendants_named(n, "tr"@));
    if headers.len() > 0 || rows.len() > 0 {
        seq![NodeView::Table { headers, rows }]
    } else {
        Seq::empty()
    }
}

/// Terms paired with definitions, as far as both go.
pub open spec fn zip_texts(a: Seq<Seq<char>>, b: Seq<Seq<char>>) -> Seq<(Seq<char>, Seq<char>)> {
    Seq::new(if a.len() <= b.len() { a.len() } else { b.len() }, |i: int| (a[i], b[i]))
}

pub open spec fn definition_nodes(n: DomView) -> Seq<NodeView> {
    let defs = zip_texts(
        texts_of(descendants_named(n, "dt"@)),
        texts_of(descendants_named(n, "dd"@)),
    );
    if defs.len() > 0 {
        seq![NodeView::DefinitionList(defs)]
    } else {
        Seq::empty()
    }
}

/// A `<figure>`: the first image inside, with the caption as alternative
/// text when there is one.
pub open spec fn figure_nodes(n: DomView) -> Seq<NodeView> {
    let img = first_of(descendants_named(n, "img"@));
    let src = match img {
        Some(i) => opt_or(attr_of(i, "src"@), Seq::empty()),
        None => Seq::empty(),
    };
    let alt = match img {
        Some(i) => opt_or(attr_of(i, "alt"@), Seq::empty()),
        None => Seq::empty(),
    };
    let caption = match first_of(descendants_named(n, "figcaption"@)) {
        Some(c) => text_of(c),
        None => Seq::empty(),
    };
    if src.len() > 0 {
        seq![NodeView::Image { alt: if caption.len() > 0 { caption } else { alt }, src }]
    } else {
        Seq::empty()
    }
}

/// Video, audio or an iframe: the `src` attribute (for video and audio, else
/// that of the first `<source>` inside) and the title, with a default.
pub open spec fn media_nodes(n: DomView, kind: Seq<char>, default_title: Seq<char>, sources: bool) -> Seq<NodeView> {
    let src = match attr_of(n, "src"@) {
        Some(s) => s,
        None => if sources {
            match first_of(descendants_named(n, "source"@)) {
                Some(e) => opt_or(attr_of(e, "src"@), Seq::empty()),
                None => Seq::empty(),
            }
        } else {
            Seq::empty()
        },
    };
    let title = opt_or(attr_of(n, "title"@), default_title);
    if src.len() > 0 {
        seq![NodeView::Media { media_type: kind, title, src }]
    } else {
        Seq::empty()
    }
}

/// The nodes of an element that has a rule of its own.
pub open spec fn rule_nodes(n: DomView) -> Seq<NodeView> {
    let tag = name_of(n);
    let text = text_of(n);
    if is_heading(tag) {
        if_text(text, NodeView::Heading { level: heading_level(tag), text })
    } else if tag == "p"@ {
        if_text(text, NodeView::Paragraph(text))
    } else if tag == "a"@ {
        let href = opt_or(attr_of(n, "href"@), Seq::empty());
        if text.len() > 0 || href.len() > 0 {
            seq![NodeView::Link { text: if text.len() == 0 { href } else { text }, href }]
        } else {
            Seq::empty()
        }
    } else if tag == "img"@ {
        let src = opt_or(attr_of(n, "src"@), Seq::empty());
        if src.len() > 0 {
            seq![NodeView::Image { alt: opt_or(attr_of(n, "alt"@), Seq::empty()), src }]
        } else {
            Seq::empty()
        }
    } else if tag == "strong"@ || tag == "b"@ {
        if_text(text, NodeView::Bold(text))
    } else if tag == "em"@ || tag == "i"@ {
        if_text(text, NodeView::Italic(text))
    } else if tag == "code"@ {
        if_text(text, NodeView::Code(text))
    } else if tag == "pre"@ {
        pre_nodes(n)
    } else if tag == "ul"@ {
        let items = nonempty_texts(descendants_named(n, "li"@));
        if items.len() > 0 {
            seq![NodeView::UnorderedList(items)]
        } else {
            Seq::empty()
        }
    } else if tag == "ol"@ {
        let items = nonempty_texts(descendants_named(n, "li"@));
        if items.len() > 0 {
            seq![NodeView::OrderedList(items)]
        } else {
            Seq::empty()
        }
    } else if tag == "blockquote"@ {
        if_text(text, NodeView::Blockquote(text))
    } else if tag == "table"@ {
        table_nodes(n)
    } else if tag == "hr"@ {
        seq![NodeView::HorizontalRule]
    } else if tag == "br"@ {
        seq![NodeView::LineBreak]
    } else if tag == "del"@ || tag == "s"@ {
        if_text(text, NodeView::Strikethrough(text))
    } else if tag == "dl"@ {
        definition_nodes(n)
    } else if tag == "figure"@ {
        figure_nodes(n)
    } else if tag == "video"@ {
        media_nodes(n, "video"@, "Video"@, true)
    } else if tag == "audio"@ {
        media_nodes(n, "audio"@, "Audio"@, true)
    } else if tag == "iframe"@ {
        media_nodes(n, "iframe"@, "Embedded"@, false)
    } else {
        Seq::empty()
    }
}

/// The content nodes of one node of the page: nothing for text or a dropped
/// element, the element's own nodes when it has a rule, else those of its
/// children in order.
pub open spec fn walk(n: DomView, cfg: ParseConfig) -> Seq<NodeView>
    decreases n,
{
    match n {
        DomView::Text(_) => Seq::empty(),
        DomView::Element { name, children, .. } => if skip_element(n, cfg) {
            Seq::empty()
        } else if has_rule(name) {
            rule_nodes(n)
        } else {
            walk_forest(children, cfg)
        },
    }
}

pub open spec fn walk_forest(f: Seq<DomView>, cfg: ParseConfig) -> Seq<NodeView>
    decreases f,
{
    if f.len() == 0 {
        Seq::empty()
    } else {
        walk_forest(f.drop_last(), cfg) + walk(f.last(), cfg)
    }
}

/// The first element among some top-level nodes.
pub open spec fn first_element(f: Seq<DomView>) -> Option<DomView>
    decreases f.len(),
{
    if f.len() == 0 {
        None
    } else if f[0] is Element {
        Some(f[0])
    } else {
        first_element(f.drop_first())
    }
}

/// The content of a page: the walk over the children of the first `<body>`,
/// or, without one, over those of the root element.
pub open spec fn page_nodes(doc: Seq<DomView>, cfg: ParseConfig) -> Seq<NodeView> {
    match first_of(forest_select(doc, "body"@)) {
        Some(body) => walk_forest(children_of(body), cfg),
        None => match first_element(doc) {
            Some(root) => walk_forest(children_of(root), cfg),
            None => Seq::empty(),
        },
    }
}

// ---------------------------------------------------------------------------
// Executable walk
// ---------------------------------------------------------------------------

pub open spec fn strs_view(v: Seq<&str>) -> Seq<Seq<char>> {
    v.map_values(|p: &str| p@)
}

/// Whether `s` contains one of the patterns.
fn contains_any(s: &str, pats: &Vec<&str>) -> (res: bool)
    ensures
        res == matches_any(s@, strs_view(pats@)),
{
    let mut k: usize = 0;
    while k < pats.len()
        invariant
            k <= pats.len(),
            forall|j: int| 0 <= j < k ==> !contains_seq(s@, #[trigger] strs_view(pats@)[j]),
        decreases pats.len() - k,
    {
        if contains_str(s, pats[k]) {
            assert(contains_seq(s@, strs_view(pats@)[k as int]));
            return true;
        }
        k = k + 1;
    }
    false
}

fn opt_or_str(o: Option<&str>, d: &str) -> (res: String)
    ensures
        res@ == opt_or(opt_ref_view(o), d@),
{
    match o {
        Some(v) => v.to_string(),
        None => d.to_string(),
    }
}

/// The class and the id of an element, space-separated and lowercased.
fn class_and_id_exec(node: &DomNode) -> (res: String)
    ensures
        res@ == class_and_id(dom_view(*node)),
{
    proof {
        reveal_strlit("");
    }
    let mut s = opt_or_str(attr_value(node, "class"), "");
    let ghost c = s@;
    push_char(&mut s, ' ');
    let id = opt_or_str(attr_value(node, "id"), "");
    push_str(&mut s, id.as_str());
    assert(""@ =~= Seq::<char>::empty());
    assert(s@ =~= c + seq![' '] + id@);
    to_lowercase(s.as_str())
}

/// Whether an element is left out of the content (see [`skip_element`]).
pub fn should_skip_element(node: &DomNode, cfg: &ParseConfig) -> (res: bool)
    ensures
        res == skip_element(dom_view(*node), *cfg),
{
    let tag = node_name(node);
    if eq_str(tag, "script") || eq_str(tag, "style") || eq_str(tag, "noscript") {
        return true;
    }
    if cfg.clean_navigation && eq_str(tag, "nav") {
        return true;
    }
    if cfg.clean_footers && eq_str(tag, "footer") {
        return true;
    }
    if cfg.clean_navigation && eq_str(tag, "header") {
        return true;
    }
    let combined = class_and_id_exec(node);
    if cfg.clean_ads {
        let pats = vec![
            "ad-", "ad_", "ads-", "ads_", "advert", "adsense", "adslot", "banner-ad", "sponsor",
            "promoted", "dfp-", "doubleclick", "google_ads", "gpt-ad",
        ];
        assert(strs_view(pats@) =~= ad_patterns());
        if contains_any(combined.as_str(), &pats) {
            return true;
        }
    }
    if cfg.clean_comments {
        let pats = vec!["comment", "disqus", "discourse", "reply", "respond"];
        assert(strs_view(pats@) =~= comment_patterns());
        if contains_any(combined.as_str(), &pats) {
            return true;
        }
    }
    false
}

/// The texts of some elements.
fn texts_vec(els: &Vec<&DomNode>) -> (res: Vec<String>)
    ensures
        views(res@) == texts_of(refs_view(els@)),
{
    let ghost ev = refs_view(els@);
    let mut out: Vec<String> = Vec::new();
    let mut i: usize = 0;
    while i < els.len()
        invariant
            i <= els.len(),
            ev == refs_view(els@),
            views(out@) == texts_of(ev.take(i as int)),
        decreases els.len() - i,
    {
        let t = element_text(els[i]);
        let ghost before = out@;
        out.push(t);
        assert(views(out@) =~= views(before).push(t@));
        assert(texts_of(ev.take(i + 1)) =~= texts_of(ev.take(i as int)).push(text_of(ev[i as int])));
        i = i + 1;
    }
    assert(ev.take(els.len() as int) =~= ev);
    out
}

/// The texts of some elements, empty ones left out.
fn nonempty_texts_vec(els: &Vec<&DomNode>) -> (res: Vec<String>)
    ensures
        views(res@) == nonempty_texts(refs_view(els@)),
{
    let ghost ev = refs_view(els@);
    let mut out: Vec<String> = Vec::new();
    let mut i: usize = 0;
    while i < els.len()
        invariant
            i <= els.len(),
            ev == refs_view(els@),
            views(out@) == nonempty_texts(ev.take(i as int)),
        decreases els.len() - i,
    {
        let t = element_text(els[i]);
        assert(ev.take(i + 1).drop_last() =~= ev.take(i as int));
        if !t.as_str().is_empty() {
            let ghost before = out@;
            out.push(t);
            assert(views(out@) =~= views(before).push(t@));
        }
        i = i + 1;
    }
    assert(ev.take(els.len() as int) =~= ev);
    out
}

fn push_text_node(nodes: &mut Vec<ContentNode>, node: ContentNode, text_empty: bool)
    ensures
        nodes_view(final(nodes)@) == nodes_view(old(nodes)@) + (if text_empty {
            Seq::<NodeView>::empty()
        } else {
            seq![node_view(node)]
        }),
{
    if !text_empty {
        push_node(nodes, node);
        assert(nodes_view(nodes@) =~= nodes_view(old(nodes)@) + seq![node_view(node)]);
    } else {
        assert(nodes_view(nodes@) =~= nodes_view(old(nodes)@) + Seq::<NodeView>::empty());
    }
}

fn push_pre(node: &DomNode, nodes: &mut Vec<ContentNode>)
    ensures
        nodes_view(final(nodes)@) == nodes_view(old(nodes)@) + pre_nodes(dom_view(*node)),
{
    let codes = descendants(node, "code");
    if codes.len() > 0 {
        let c = codes[0];
        assert(refs_view(codes@)[0] == dom_view(*c));
        let language = match attr_value(c, "class") {
            Some(cl) => extract_language_from_class(cl),
            None => None,
        };
        let code = element_text(c);
        push_text_node(nodes, ContentNode::CodeBlock { language, code }, false);
    } else {
        let code = element_text(node);
        let e = code.as_str().is_empty();
        push_text_node(nodes, ContentNode::CodeBlock { language: None, code }, e);
    }
}

pub open spec fn rows_view(rows: Seq<Vec<String>>) -> Seq<Seq<Seq<char>>> {
    rows.map_values(|r: Vec<String>| views(r@))
}

fn push_table(node: &DomNode, nodes: &mut Vec<ContentNode>)
    ensures
        nodes_view(final(nodes)@) == nodes_view(old(nodes)@) + table_nodes(dom_view(*node)),
{
    let trs = descendants(node, "tr");
    let ghost tv = refs_view(trs@);
    let mut headers: Vec<String> = Vec::new();
    let mut rows: Vec<Vec<String>> = Vec::new();
    let mut i: usize = 0;
    assert(rows_view(rows@) =~= Seq::<Seq<Seq<char>>>::empty());
    assert(views(headers@) =~= Seq::<Seq<char>>::empty());
    while i < trs.len()
        invariant
            i <= trs.len(),
            tv == refs_view(trs@),
            (views(headers@), rows_view(rows@)) == table_rows(tv.take(i as int)),
        decreases trs.len() - i,
    {
        let tr = trs[i];
        assert(tv.take(i + 1).drop_last() =~= tv.take(i as int));
        assert(tv.take(i + 1).last() == dom_view(*tr));
        let ths = texts_vec(&descendants(tr, "th"));
        if ths.len() > 0 && headers.len() == 0 {
            headers = ths;
        } else {
            let tds = texts_vec(&descendants(tr, "td"));
            if tds.len() > 0 {
                let ghost before = rows@;
                rows.push(tds);
                assert(rows_view(rows@) =~= rows_view(before).push(views(tds@)));
            }
        }
        i = i + 1;
    }
    assert(tv.take(trs.len() as int) =~= tv);
    if headers.len() > 0 || rows.len() > 0 {
        push_node(nodes, ContentNode::Table { headers, rows });
        assert(nodes_view(nodes@) =~= nodes_view(old(nodes)@) + table_nodes(dom_view(*node)));
    } else {
        assert(nodes_view(nodes@) =~= nodes_view(old(nodes)@) + table_nodes(dom_view(*node)));
    }
}

pub open spec fn defs_view(v: Seq<(String, String)>) -> Seq<(Seq<char>, Seq<char>)> {
    v.map_values(|p: (String, String)| (p.0@, p.1@))
}

fn push_definitions(node: &DomNode, nodes: &mut Vec<ContentNode>)
    ensures
        nodes_view(final(nodes)@) == nodes_view(old(nodes)@) + definition_nodes(dom_view(*node)),
{
    let terms = texts_vec(&descendants(node, "dt"));
    let defs = texts_vec(&descendants(node, "dd"));
    let n = if terms.len() <= defs.len() { terms.len() } else { defs.len() };
    let ghost want = zip_texts(views(terms@), views(defs@));
    let mut pairs: Vec<(String, String)> = Vec::new();
    let mut i: usize = 0;
    while i < n
        invariant
            i <= n,
            n == want.len(),
            n <= terms.len(),
            n <= defs.len(),
            want == zip_texts(views(terms@), views(defs@)),
            defs_view(pairs@) == want.take(i as int),
        decreases n - i,
    {
        let p = (terms[i].clone(), defs[i].clone());
        let ghost before = pairs@;
        pairs.push(p);
        assert(defs_view(pairs@) =~= defs_view(before).push((p.0@, p.1@)));
        assert(want.take(i + 1) =~= want.take(i as int).push(want[i as int]));
        i = i + 1;
    }
    assert(want.take(n as int) =~= want);
    if n > 0 {
        push_node(nodes, ContentNode::DefinitionList(pairs));
        assert(nodes_view(nodes@) =~= nodes_view(old(nodes)@) + definition_nodes(dom_view(*node)));
    } else {
        assert(nodes_view(nodes@) =~= nodes_view(old(nodes)@) + definition_nodes(dom_view(*node)));
    }
}

fn push_figure(node: &DomNode, nodes: &mut Vec<ContentNode>)
    ensures
        nodes_view(final(nodes)@) == nodes_view(old(nodes)@) + figure_nodes(dom_view(*node)),
{
    proof {
        reveal_strlit("");
    }
    let imgs = descendants(node, "img");
    let (src, alt) = if imgs.len() > 0 {
        assert(refs_view(imgs@)[0] == dom_view(*imgs[0]));
        (opt_or_str(attr_value(imgs[0], "src"), ""), opt_or_str(attr_value(imgs[0], "alt"), ""))
    } else {
        (String::new(), String::new())
    };
    let caps = descendants(node, "figcaption");
    let caption = if caps.len() > 0 {
        assert(refs_view(caps@)[0] == dom_view(*caps[0]));
        element_text(caps[0])
    } else {
        String::new()
    };
    assert(""@ =~= Seq::<char>::empty());
    if !src.as_str().is_empty() {
        let alt2 = if !caption.as_str().is_empty() { caption } else { alt };
        push_node(nodes, ContentNode::Image { alt: alt2, src });
        assert(nodes_view(nodes@) =~= nodes_view(old(nodes)@) + figure_nodes(dom_view(*node)));
    } else {
        assert(nodes_view(nodes@) =~= nodes_view(old(nodes)@) + figure_nodes(dom_view(*node)));
    }
}

fn push_media(node: &DomNode, kind: &str, default_title: &str, sources: bool, nodes: &mut Vec<ContentNode>)
    ensures
        nodes_view(final(nodes)@) == nodes_view(old(nodes)@) + media_nodes(
            dom_view(*node),
            kind@,
            default_title@,
            sources,
        ),
{
    proof {
        reveal_strlit("");
    }
    assert(""@ =~= Seq::<char>::empty());
    let src: String = match attr_value(node, "src") {
        Some(s) => s.to_string(),
        None => if sources {
            let found = descendants(node, "source");
            if found.len() > 0 {
                assert(refs_view(found@)[0] == dom_view(*found[0]));
                opt_or_str(attr_value(found[0], "src"), "")
            } else {
                String::new()
            }
        } else {
            String::new()
        },
    };
    let title = opt_or_str(attr_value(node, "title"), default_title);
    if !src.as_str().is_empty() {
        push_node(nodes, ContentNode::Media { media_type: kind.to_string(), title, src });
        assert(nodes_view(nodes@) =~= nodes_view(old(nodes)@) + media_nodes(
            dom_view(*node),
            kind@,
            default_title@,
            sources,
        ));
    } else {
        assert(nodes_view(nodes@) =~= nodes_view(old(nodes)@) + media_nodes(
            dom_view(*node),
            kind@,
            default_title@,
            sources,
        ));
    }
}

fn push_list(node: &DomNode, ordered: bool, nodes: &mut Vec<ContentNode>)
    ensures
        ({
            let items = nonempty_texts(descendants_named(dom_view(*node), "li"@));
            nodes_view(final(nodes)@) == nodes_view(old(nodes)@) + (if items.len() > 0 {
                if ordered {
                    seq![NodeView::OrderedList(items)]
                } else {
                    seq![NodeView::UnorderedList(items)]
                }
            } else {
                Seq::<NodeView>::empty()
            })
        }),
{
    let items = nonempty_texts_vec(&descendants(node, "li"));
    let e = items.len() == 0;
    if ordered {
        push_text_node(nodes, ContentNode::OrderedList(items), e);
    } else {
        push_text_node(nodes, ContentNode::UnorderedList(items), e);
    }
}

fn heading_level_exec(tag: &str) -> (res: u8)
    ensures
        res == heading_level(tag@),
{
    if eq_str(tag, "h1") {
        1
    } else if eq_str(tag, "h2") {
        2
    } else if eq_str(tag, "h3") {
        3
    } else if eq_str(tag, "h4") {
        4
    } else if eq_str(tag, "h5") {
        5
    } else {
        6
    }
}

fn is_heading_exec(tag: &str) -> (res: bool)
    ensures
        res == is_heading(tag@),
{
    eq_str(tag, "h1") || eq_str(tag, "h2") || eq_str(tag, "h3") || eq_str(tag, "h4") || eq_str(
        tag,
        "h5",
    ) || eq_str(tag, "h6")
}

fn has_rule_exec(tag: &str) -> (res: bool)
    ensures
        res == has_rule(tag@),
{
    is_heading_exec(tag) || eq_str(tag, "p") || eq_str(tag, "a") || eq_str(tag, "img") || eq_str(
        tag,
        "strong",
    ) || eq_str(tag, "b") || eq_str(tag, "em") || eq_str(tag, "i") || eq_str(tag, "code")
        || eq_str(tag, "pre") || eq_str(tag, "ul") || eq_str(tag, "ol") || eq_str(tag, "blockquote")
        || eq_str(tag, "table") || eq_str(tag, "hr") || eq_str(tag, "br") || eq_str(tag, "del")
        || eq_str(tag, "s") || eq_str(tag, "dl") || eq_str(tag, "figure") || eq_str(tag, "video")
        || eq_str(tag, "audio") || eq_str(tag, "iframe") || eq_str(tag, "li")
}

/// The text-bearing rules: headings, paragraphs, links, images and inline
/// formatting.
fn push_inline_rule(node: &DomNode, tag: &str, nodes: &mut Vec<ContentNode>) -> (done: bool)
    requires
        tag@ == name_of(dom_view(*node)),
    ensures
        done == (is_heading(tag@) || tag@ == "p"@ || tag@ == "a"@ || tag@ == "img"@ || tag@
            == "strong"@ || tag@ == "b"@ || tag@ == "em"@ || tag@ == "i"@ || tag@ == "code"@),
        done ==> nodes_view(final(nodes)@) == nodes_view(old(nodes)@) + rule_nodes(dom_view(*node)),
        !done ==> final(nodes)@ == old(nodes)@,
{
    proof {
        reveal_strlit("");
    }
    assert(""@ =~= Seq::<char>::empty());
    if is_heading_exec(tag) {
        let text = element_text(node);
        let e = text.as_str().is_empty();
        push_text_node(nodes, ContentNode::Heading { level: heading_level_exec(tag), text }, e);
        true
    } else if eq_str(tag, "p") {
        let text = element_text(node);
        let e = text.as_str().is_empty();
        push_text_node(nodes, ContentNode::Paragraph(text), e);
        true
    } else if eq_str(tag, "a") {
        let text = element_text(node);
        let href = opt_or_str(attr_value(node, "href"), "");
        let te = text.as_str().is_empty();
        let he = href.as_str().is_empty();
        let shown = if te { href.clone() } else { text };
        push_text_node(nodes, ContentNode::Link { text: shown, href }, te && he);
        true
    } else if eq_str(tag, "img") {
        let src = opt_or_str(attr_value(node, "src"), "");
        let alt = opt_or_str(attr_value(node, "alt"), "");
        let e = src.as_str().is_empty();
        push_text_node(nodes, ContentNode::Image { alt, src }, e);
        true
    } else if eq_str(tag, "strong") || eq_str(tag, "b") {
        let text = element_text(node);
        let e = text.as_str().is_empty();
        push_text_node(nodes, ContentNode::Bold(text), e);
        true
    } else if eq_str(tag, "em") || eq_str(tag, "i") {
        let text = element_text(node);
        let e = text.as_str().is_empty();
        push_text_node(nodes, ContentNode::Italic(text), e);
        true
    } else if eq_str(tag, "code") {
        let text = element_text(node);
        let e = text.as_str().is_empty();
        push_text_node(nodes, ContentNode::Code(text), e);
        true
    } else {
        false
    }
}

/// The nodes of an element with a rule of its own (see [`rule_nodes`]).
fn push_rule_nodes(node: &DomNode, nodes: &mut Vec<ContentNode>)
    ensures
        nodes_view(final(nodes)@) == nodes_view(old(nodes)@) + rule_nodes(dom_view(*node)),
{
    let tag = node_name(node);
    if push_inline_rule(node, tag, nodes) {
        return;
    }
    if eq_str(tag, "pre") {
        push_pre(node, nodes);
    } else if eq_str(tag, "ul") {
        push_list(node, false, nodes);
    } else if eq_str(tag, "ol") {
        push_list(node, true, nodes);
    } else if eq_str(tag, "blockquote") {
        let text = element_text(node);
        let e = text.as_str().is_empty();
        push_text_node(nodes, ContentNode::Blockquote(text), e);
    } else if eq_str(tag, "table") {
        push_table(node, nodes);
    } else if eq_str(tag, "hr") {
        push_text_node(nodes, ContentNode::HorizontalRule, false);
    } else if eq_str(tag, "br") {
        push_text_node(nodes, ContentNode::LineBreak, false);
    } else if eq_str(tag, "del") || eq_str(tag, "s") {
        let text = element_text(node);
        let e = text.as_str().is_empty();
        push_text_node(nodes, ContentNode::Strikethrough(text), e);
    } else if eq_str(tag, "dl") {
        push_definitions(node, nodes);
    } else if eq_str(tag, "figure") {
        push_figure(node, nodes);
    } else if eq_str(tag, "video") {
        push_media(node, "video", "Video", true, nodes);
    } else if eq_str(tag, "audio") {
        push_media(node, "audio", "Audio", true, nodes);
    } else if eq_str(tag, "iframe") {
        push_media(node, "iframe", "Embedded", false, nodes);
    } else {
        assert(nodes_view(nodes@) =~= nodes_view(old(nodes)@) + Seq::<NodeView>::empty());
    }
}

/// Appends the content nodes of one node of the page (see [`walk`]).
pub fn walk_element(node: &DomNode, cfg: &ParseConfig, nodes: &mut Vec<ContentNode>)
    ensures
        nodes_view(final(nodes)@) == nodes_view(old(nodes)@) + walk(dom_view(*node), *cfg),
    decreases node,
{
    match node {
        DomNode::Text(t) => {
            assert(dom_view(*node) == DomView::Text(t@));
            assert(nodes_view(nodes@) =~= nodes_view(old(nodes)@) + Seq::<NodeView>::empty());
        },
        DomNode::Element { name, children, .. } => {
            proof {
                lemma_element_fields(*node);
            }
            if should_skip_element(node, cfg) {
                assert(nodes_view(nodes@) =~= nodes_view(old(nodes)@) + Seq::<NodeView>::empty());
                return;
            }
            if has_rule_exec(name.as_str()) {
                push_rule_nodes(node, nodes);
                return;
            }
            let ghost kids = children_of(dom_view(*node));
            let ghost start = nodes_view(nodes@);
            let mut i: usize = 0;
            while i < children.len()
                invariant
                    i <= children.len(),
                    *node is Element,
                    *children == node->children,
                    kids == children_of(dom_view(*node)),
                    kids.len() == children.len(),
                    nodes_view(nodes@) == start + walk_forest(kids.take(i as int), *cfg),
                decreases children.len() - i,
            {
                proof {
                    lemma_children_view(*node, i as int);
                }
                walk_element(&children[i], cfg, nodes);
                assert(kids.take(i + 1).drop_last() =~= kids.take(i as int));
                assert(nodes_view(nodes@) =~= start + walk_forest(kids.take(i + 1), *cfg));
                i = i + 1;
            }
            assert(kids.take(kids.len() as int) =~= kids);
        },
    }
}

// ---------------------------------------------------------------------------
// The page as a whole
// ---------------------------------------------------------------------------

/// Appends the content nodes of the children of `node`.
fn walk_children(node: &DomNode, cfg: &ParseConfig, nodes: &mut Vec<ContentNode>)
    ensures
        nodes_view(final(nodes)@) == nodes_view(old(nodes)@) + walk_forest(children_of(dom_view(*node)), *cfg),
{
    match node {
        DomNode::Text(t) => {
            assert(dom_view(*node) == DomView::Text(t@));
            assert(nodes_view(nodes@) =~= nodes_view(old(nodes)@) + walk_forest(Seq::empty(), *cfg));
        },
        DomNode::Element { children, .. } => {
            proof {
                lemma_element_fields(*node);
            }
            let ghost kids = children_of(dom_view(*node));
            let ghost start = nodes_view(nodes@);
            let mut i: usize = 0;
            while i < children.len()
                invariant
                    i <= children.len(),
                    *node is Element,
                    *children == node->children,
                    kids == children_of(dom_view(*node)),
                    kids.len() == children.len(),
                    nodes_view(nodes@) == start + walk_forest(kids.take(i as int), *cfg),
                decreases children.len() - i,
            {
                proof {
                    lemma_children_view(*node, i as int);
                }
                walk_element(&children[i], cfg, nodes);
                assert(kids.take(i + 1).drop_last() =~= kids.take(i as int));
                assert(nodes_view(nodes@) =~= start + walk_forest(kids.take(i + 1), *cfg));
                i = i + 1;
            }
            assert(kids.take(kids.len() as int) =~= kids);
        },
    }
}

/// The content nodes of a page (see [`page_nodes`]).
pub fn extract_content_nodes(doc: &Vec<DomNode>, cfg: &ParseConfig) -> (res: Vec<ContentNode>)
    ensures
        nodes_view(res@) == page_nodes(forest_view(doc@), *cfg),
{
    let ghost fv = forest_view(doc@);
    let mut nodes: Vec<ContentNode> = Vec::new();
    assert(nodes_view(nodes@) =~= Seq::<NodeView>::empty());
    let bodies = select_in(doc, "body");
    if bodies.len() > 0 {
        assert(refs_view(bodies@)[0] == dom_view(*bodies[0]));
        walk_children(bodies[0], cfg, &mut nodes);
        assert(nodes_view(nodes@) =~= walk_forest(children_of(dom_view(*bodies[0])), *cfg));
        return nodes;
    }
    assert(forest_select(fv, "body"@).len() == 0);
    let mut k: usize = 0;
    assert(fv.subrange(0, fv.len() as int) =~= fv);
    while k < doc.len()
        invariant
            k <= doc.len(),
            fv == forest_view(doc@),
            first_element(fv) == first_element(fv.subrange(k as int, fv.len() as int)),
            forest_select(fv, "body"@).len() == 0,
            nodes@.len() == 0,
        decreases doc.len() - k,
    {
        let ghost rest = fv.subrange(k as int, fv.len() as int);
        assert(rest[0] == dom_view(doc@[k as int]));
        assert(rest.drop_first() =~= fv.subrange(k + 1, fv.len() as int));
        if let DomNode::Element { .. } = &doc[k] {
            proof {
                lemma_element_fields(doc@[k as int]);
            }
            assert(nodes_view(nodes@) =~= Seq::<NodeView>::empty());
            walk_children(&doc[k], cfg, &mut nodes);
            assert(first_element(fv) == Some(dom_view(doc@[k as int])));
            assert(nodes_view(nodes@) =~= walk_forest(children_of(dom_view(doc@[k as int])), *cfg));
            return nodes;
        }
        assert(dom_view(doc@[k as int]) is Text);
        k = k + 1;
    }
    assert(fv.subrange(k as int, fv.len() as int) =~= Seq::<DomView>::empty());
    assert(nodes_view(nodes@) =~= Seq::<NodeView>::empty());
    nodes
}

/// Metadata with its fields as character sequences.
pub ghost struct MetaView {
    pub title: Option<Seq<char>>,
    pub description: Option<Seq<char>>,
    pub author: Option<Seq<char>>,
    pub published_date: Option<Seq<char>>,
    pub language: Option<Seq<char>>,
    pub canonical_url: Option<Seq<char>>,
    pub og_image: Option<Seq<char>>,
    pub keywords: Seq<Seq<char>>,
}

pub open spec fn meta_view(m: PageMetadata) -> MetaView {
    MetaView {
        title: opt_str_view(m.title),
        description: opt_str_view(m.description),
        author: opt_str_view(m.author),
        published_date: opt_str_view(m.published_date),
        language: opt_str_view(m.language),
        canonical_url: opt_str_view(m.canonical_url),
        og_image: opt_str_view(m.og_image),
        keywords: views(m.keywords@),
    }
}

pub open spec fn empty_meta() -> MetaView {
    MetaView {
        title: None,
        description: None,
        author: None,
        published_date: None,
        language: None,
        canonical_url: None,
        og_image: None,
        keywords: Seq::empty(),
    }
}

/// The pieces trimmed, empty ones left out.
pub open spec fn nonempty_trimmed(parts: Seq<Seq<char>>) -> Seq<Seq<char>>
    decreases parts.len(),
{
    if parts.len() == 0 {
        Seq::empty()
    } else {
        let rest = nonempty_trimmed(parts.drop_last());
        if trim(parts.last()).len() > 0 {
            rest.push(trim(parts.last()))
        } else {
            rest
        }
    }
}

/// The keywords of a comma-separated list.
pub open spec fn keyword_list(content: Seq<char>) -> Seq<Seq<char>> {
    nonempty_trimmed(split_on(content, ','))
}

/// What one `<meta>` tag adds: by its `name` (else `property`), lowercased,
/// the description, author, keywords, image, title or publication date, each
/// only when not already known; a tag without content adds nothing.
pub open spec fn meta_tag_step(m: MetaView, el: DomView) -> MetaView {
    let name = match attr_of(el, "name"@) {
        Some(v) => v,
        None => opt_or(attr_of(el, "property"@), Seq::empty()),
    };
    let content = opt_or(attr_of(el, "content"@), Seq::empty());
    let key = unicode_lowercase(name);
    if content.len() == 0 {
        m
    } else if key == "description"@ || key == "og:description"@ || key == "twitter:description"@ {
        if m.description is None { MetaView { description: Some(content), ..m } } else { m }
    } else if key == "author"@ || key == "article:author"@ {
        if m.author is None { MetaView { author: Some(content), ..m } } else { m }
    } else if key == "keywords"@ {
        if m.keywords.len() == 0 { MetaView { keywords: keyword_list(content), ..m } } else { m }
    } else if key == "og:image"@ || key == "twitter:image"@ {
        if m.og_image is None { MetaView { og_image: Some(content), ..m } } else { m }
    } else if key == "og:title"@ || key == "twitter:title"@ {
        if m.title is None { MetaView { title: Some(content), ..m } } else { m }
    } else if key == "article:published_time"@ || key == "date"@ || key == "dc.date"@ {
        if m.published_date is None { MetaView { published_date: Some(content), ..m } } else { m }
    } else {
        m
    }
}

pub open spec fn meta_tags(m: MetaView, els: Seq<DomView>) -> MetaView
    decreases els.len(),
{
    if els.len() == 0 {
        m
    } else {
        meta_tag_step(meta_tags(m, els.drop_last()), els.last())
    }
}

/// The `<link>` elements whose `rel` is `canonical`, in any ASCII case.
pub open spec fn canonical_links(links: Seq<DomView>) -> Seq<DomView>
    decreases links.len(),
{
    if links.len() == 0 {
        Seq::empty()
    } else {
        let rest = canonical_links(links.drop_last());
        match attr_of(links.last(), "rel"@) {
            Some(r) => if eq_ignore_ascii_case(r, "canonical"@) {
                rest.push(links.last())
            } else {
                rest
            },
            None => rest,
        }
    }
}

/// The metadata of a page: the text of the first `<title>` (when not
/// empty), the `lang` of the first `<html>`, the `href` of the first
/// canonical `<link>`, then the `<meta>` tags in order.
pub open spec fn head_meta(doc: Seq<DomView>) -> MetaView {
    let title = match first_of(forest_select(doc, "title"@)) {
        Some(t) => if text_of(t).len() > 0 {
            Some(text_of(t))
        } else {
            None
        },
        None => None,
    };
    let language = match first_of(forest_select(doc, "html"@)) {
        Some(h) => attr_of(h, "lang"@),
        None => None,
    };
    let canonical_url = match first_of(canonical_links(forest_select(doc, "link"@))) {
        Some(l) => attr_of(l, "href"@),
        None => None,
    };
    meta_tags(
        MetaView { title, language, canonical_url, ..empty_meta() },
        forest_select(doc, "meta"@),
    )
}

fn opt_string(o: Option<&str>) -> (res: Option<String>)
    ensures
        opt_str_view(res) == opt_ref_view(o),
{
    match o {
        Some(v) => Some(v.to_string()),
        None => None,
    }
}

/// The keywords of a comma-separated list (see [`keyword_list`]).
fn keyword_list_exec(content: &str) -> (res: Vec<String>)
    ensures
        views(res@) == keyword_list(content@),
{
    let parts = split_chars(&chars_of(content), ',');
    let ghost pv = split_on(content@, ',');
    let mut out: Vec<String> = Vec::new();
    let mut k: usize = 0;
    while k < parts.len()
        invariant
            k <= parts.len(),
            pv == split_on(content@, ','),
            parts@.len() == pv.len(),
            forall|j: int| 0 <= j < parts@.len() ==> #[trigger] parts@[j]@ == pv[j],
            views(out@) == nonempty_trimmed(pv.take(k as int)),
        decreases parts.len() - k,
    {
        let piece = string_of(&parts[k]);
        let t = trim_str(piece.as_str());
        assert(pv.take(k + 1).drop_last() =~= pv.take(k as int));
        assert(pv.take(k + 1).last() == pv[k as int]);
        if !t.as_str().is_empty() {
            let ghost before = out@;
            out.push(t);
            assert(views(out@) =~= views(before).push(t@));
        }
        k = k + 1;
    }
    assert(pv.take(parts.len() as int) =~= pv);
    out
}

/// Applies one `<meta>` tag (see [`meta_tag_step`]).
fn apply_meta_tag(m: &mut PageMetadata, el: &DomNode)
    ensures
        meta_view(*final(m)) == meta_tag_step(meta_view(*old(m)), dom_view(*el)),
{
    proof {
        reveal_strlit("");
    }
    assert(""@ =~= Seq::<char>::empty());
    let name: &str = match attr_value(el, "name") {
        Some(v) => v,
        None => match attr_value(el, "property") {
            Some(v) => v,
            None => "",
        },
    };
    let content: &str = match attr_value(el, "content") {
        Some(v) => v,
        None => "",
    };
    if content.is_empty() {
        return;
    }
    let key = to_lowercase(name);
    let k = key.as_str();
    if eq_str(k, "description") || eq_str(k, "og:description") || eq_str(k, "twitter:description") {
        if m.description.is_none() {
            m.description = Some(content.to_string());
        }
    } else if eq_str(k, "author") || eq_str(k, "article:author") {
        if m.author.is_none() {
            m.author = Some(content.to_string());
        }
    } else if eq_str(k, "keywords") {
        if m.keywords.len() == 0 {
            m.keywords = keyword_list_exec(content);
        }
    } else if eq_str(k, "og:image") || eq_str(k, "twitter:image") {
        if m.og_image.is_none() {
            m.og_image = Some(content.to_string());
        }
    } else if eq_str(k, "og:title") || eq_str(k, "twitter:title") {
        if m.title.is_none() {
            m.title = Some(content.to_string());
        }
    } else if eq_str(k, "article:published_time") || eq_str(k, "date") || eq_str(k, "dc.date") {
        if m.published_date.is_none() {
            m.published_date = Some(content.to_string());
        }
    }
}

proof fn lemma_canonical_prefix(lv: Seq<DomView>, i: int, k: int)
    requires
        0 <= i < k <= lv.len(),
        canonical_links(lv.take(i)).len() == 0,
        attr_of(lv[i], "rel"@) matches Some(r) && eq_ignore_ascii_case(r, "canonical"@),
    ensures
        canonical_links(lv.take(k)).len() > 0,
        canonical_links(lv.take(k))[0] == lv[i],
    decreases k - i,
{
    assert(lv.take(k).drop_last() =~= lv.take(k - 1));
    assert(lv.take(k).last() == lv[k - 1]);
    if k > i + 1 {
        lemma_canonical_prefix(lv, i, k - 1);
    }
}

/// The position of the first canonical link.
fn first_canonical(links: &Vec<&DomNode>) -> (res: Option<usize>)
    ensures
        match res {
            Some(i) => i < links.len() && first_of(canonical_links(refs_view(links@))) == Some(
                refs_view(links@)[i as int],
            ),
            None => canonical_links(refs_view(links@)).len() == 0,
        },
{
    let ghost lv = refs_view(links@);
    let mut i: usize = 0;
    while i < links.len()
        invariant
            i <= links.len(),
            lv == refs_view(links@),
            canonical_links(lv.take(i as int)).len() == 0,
        decreases links.len() - i,
    {
        assert(lv.take(i + 1).drop_last() =~= lv.take(i as int));
        assert(lv.take(i + 1).last() == dom_view(*links@[i as int]));
        let found = match attr_value(links[i], "rel") {
            Some(r) => eq_ignore_case_ascii(r, "canonical"),
            None => false,
        };
        if found {
            proof {
                lemma_canonical_prefix(lv, i as int, lv.len() as int);
                assert(lv.take(lv.len() as int) =~= lv);
            }
            return Some(i);
        }
        i = i + 1;
    }
    assert(lv.take(links.len() as int) =~= lv);
    None
}

/// The metadata of a page (see [`head_meta`]).
pub fn extract_metadata(doc: &Vec<DomNode>) -> (res: PageMetadata)
    ensures
        meta_view(res) == head_meta(forest_view(doc@)),
{
    let ghost fv = forest_view(doc@);
    let mut meta = PageMetadata::empty();
    assert(views(meta.keywords@) =~= Seq::<Seq<char>>::empty());
    let titles = select_in(doc, "title");
    if titles.len() > 0 {
        assert(refs_view(titles@)[0] == dom_view(*titles[0]));
        let text = element_text(titles[0]);
        if !text.as_str().is_empty() {
            meta.title = Some(text);
        }
    }
    let htmls = select_in(doc, "html");
    if htmls.len() > 0 {
        assert(refs_view(htmls@)[0] == dom_view(*htmls[0]));
        meta.language = opt_string(attr_value(htmls[0], "lang"));
    }
    let links = select_in(doc, "link");
    match first_canonical(&links) {
        Some(i) => {
            meta.canonical_url = opt_string(attr_value(links[i], "href"));
        },
        None => {},
    }
    let metas = select_in(doc, "meta");
    let ghost mv = refs_view(metas@);
    let ghost head = meta_view(meta);
    assert(head.title == match first_of(forest_select(fv, "title"@)) {
        Some(t) => if text_of(t).len() > 0 {
            Some(text_of(t))
        } else {
            None
        },
        None => None,
    });
    assert(head.language == match first_of(forest_select(fv, "html"@)) {
        Some(h) => attr_of(h, "lang"@),
        None => None,
    });
    assert(head.canonical_url == match first_of(canonical_links(forest_select(fv, "link"@))) {
        Some(l) => attr_of(l, "href"@),
        None => None,
    });
    let mut j: usize = 0;
    while j < metas.len()
        invariant
            j <= metas.len(),
            mv == refs_view(metas@),
            meta_view(meta) == meta_tags(head, mv.take(j as int)),
        decreases metas.len() - j,
    {
        assert(mv.take(j + 1).drop_last() =~= mv.take(j as int));
        apply_meta_tag(&mut meta, metas[j]);
        j = j + 1;
    }
    assert(mv.take(metas.len() as int) =~= mv);
    meta
}

/// The document of an HTML page: metadata (when the configuration asks for
/// it) and the content nodes of its tree.
pub open spec fn is_html_document(doc: ParsedDocument, dom: Seq<DomView>, cfg: ParseConfig) -> bool {
    &&& meta_view(doc.metadata) == (if cfg.extract_metadata {
        head_meta(dom)
    } else {
        empty_meta()
    })
    &&& nodes_view(doc.content_nodes@) == page_nodes(dom, cfg)
    &&& doc.content_type == ContentType::Html
}

/// Parse an HTML page (see [`is_html_document`]); html5ever accepts any
/// input, so this never fails.
pub fn parse_html(html: &str, config: &ParseConfig) -> (res: Result<ParsedDocument, RehykeError>)
    ensures
        res is Ok,
        is_html_document(res->Ok_0, html_dom(html@), *config),
{
    let dom = parse_html_document(html);
    let metadata = if config.extract_metadata {
        extract_metadata(&dom)
    } else {
        let m = PageMetadata::empty();
        assert(views(m.keywords@) =~= Seq::<Seq<char>>::empty());
        m
    };
    let content_nodes = extract_content_nodes(&dom, config);
    Ok(ParsedDocument { metadata, content_nodes, content_type: ContentType::Html })
}

/// Scripts, styles and noscript blocks never give content, whatever the
/// configuration.
pub proof fn lemma_scripts_give_nothing(n: DomView, cfg: ParseConfig)
    requires
        name_of(n) == "script"@ || name_of(n) == "style"@ || name_of(n) == "noscript"@,
    ensures
        walk(n, cfg) == Seq::<NodeView>::empty(),
{
}

/// With navigation cleaning off, a plain `<nav>` (no ad or comment markers
/// that the configuration removes) is walked like any container: its
/// children's content is kept.
pub proof fn lemma_nav_kept_without_cleaning(n: DomView, cfg: ParseConfig)
    requires
        n is Element,
        name_of(n) == "nav"@,
        !cfg.clean_navigation,
        !(cfg.clean_ads && matches_any(class_and_id(n), ad_patterns())),
        !(cfg.clean_comments && matches_any(class_and_id(n), comment_patterns())),
    ensures
        walk(n, cfg) == walk_forest(children_of(n), cfg),
{
    reveal_strlit("nav");
    reveal_strlit("script");
    reveal_strlit("style");
    reveal_strlit("noscript");
    reveal_strlit("footer");
    reveal_strlit("header");
    assert(name_of(n).len() == 3);
    assert(name_of(n)[0] == 'n');
    assert(!has_rule(name_of(n))) by {
        reveal_strlit("h1");
        reveal_strlit("h2");
        reveal_strlit("h3");
        reveal_strlit("h4");
        reveal_strlit("h5");
        reveal_strlit("h6");
        reveal_strlit("p");
        reveal_strlit("a");
        reveal_strlit("img");
        reveal_strlit("strong");
        reveal_strlit("b");
        reveal_strlit("em");
        reveal_strlit("i");
        reveal_strlit("code");
        reveal_strlit("pre");
        reveal_strlit("ul");
        reveal_strlit("ol");
        reveal_strlit("blockquote");
        reveal_strlit("table");
        reveal_strlit("hr");
        reveal_strlit("br");
        reveal_strlit("del");
        reveal_strlit("s");
        reveal_strlit("dl");
        reveal_strlit("figure");
        reveal_strlit("video");
        reveal_strlit("audio");
        reveal_strlit("iframe");
        reveal_strlit("li");
    }
}

/// With metadata extraction off, a page's metadata is empty.
pub proof fn lemma_no_metadata_when_disabled(doc: ParsedDocument, dom: Seq<DomView>, cfg: ParseConfig)
    requires
        !cfg.extract_metadata,
        is_html_document(doc, dom, cfg),
    ensures
        meta_view(doc.metadata) == empty_meta(),
{
}


/// A content node as the walk makes it: headings at levels 1 to 6, and
/// headings, paragraphs, bold, italic, inline code, quotes and struck text
/// never empty.
pub open spec fn node_well_formed(v: NodeView) -> bool {
    match v {
        NodeView::Heading { level, text } => 1 <= level <= 6 && text.len() > 0,
        NodeView::Paragraph(t) => t.len() > 0,
        NodeView::Bold(t) => t.len() > 0,
        NodeView::Italic(t) => t.len() > 0,
        NodeView::Code(t) => t.len() > 0,
        NodeView::Blockquote(t) => t.len() > 0,
        NodeView::Strikethrough(t) => t.len() > 0,
        _ => true,
    }
}

proof fn lemma_rule_nodes_well_formed(n: DomView)
    ensures
        forall|i: int| 0 <= i < rule_nodes(n).len() ==> node_well_formed(#[trigger] rule_nodes(n)[i]),
{
}

proof fn lemma_walk_forest_well_formed(f: Seq<DomView>, cfg: ParseConfig)
    ensures
        forall|i: int| 0 <= i < walk_forest(f, cfg).len() ==> node_well_formed(#[trigger] walk_forest(f, cfg)[i]),
    decreases f,
{
    if f.len() > 0 {
        lemma_walk_forest_well_formed(f.drop_last(), cfg);
        lemma_walk_nodes_well_formed(f.last(), cfg);
        let a = walk_forest(f.drop_last(), cfg);
        let b = walk(f.last(), cfg);
        assert forall|i: int| 0 <= i < walk_forest(f, cfg).len() implies node_well_formed(
            #[trigger] walk_forest(f, cfg)[i],
        ) by {
            if i < a.len() {
                assert(walk_forest(f, cfg)[i] == a[i]);
            } else {
                assert(walk_forest(f, cfg)[i] == b[i - a.len()]);
            }
        }
    }
}

/// Walking a node of the page gives only well-formed content nodes: every
/// heading has a level from 1 to 6, and no heading, paragraph, bold,
/// italic, inline code, quote or struck text is empty.
pub proof fn lemma_walk_nodes_well_formed(n: DomView, cfg: ParseConfig)
    ensures
        forall|i: int| 0 <= i < walk(n, cfg).len() ==> node_well_formed(#[trigger] walk(n, cfg)[i]),
    decreases n,
{
    match n {
        DomView::Text(_) => {
            assert(walk(n, cfg) =~= Seq::<NodeView>::empty());
        },
        DomView::Element { name, children, .. } => {
            if skip_element(n, cfg) {
                assert(walk(n, cfg) =~= Seq::<NodeView>::empty());
            } else if has_rule(name) {
                lemma_rule_nodes_well_formed(n);
                assert(walk(n, cfg) == rule_nodes(n));
            } else {
                lemma_walk_forest_well_formed(children, cfg);
                assert(walk(n, cfg) == walk_forest(children, cfg));
            }
        },
    }
}


/// Headings: an `<h1>` to `<h6>` element that is not dropped and has text
/// gives exactly one heading node, with that text, at the level of the
/// tag's digit; without text it gives nothing.
pub proof fn lemma_heading_elements(n: DomView, cfg: ParseConfig)
    requires
        n is Element,
        !skip_element(n, cfg),
    ensures
        name_of(n) == "h1"@ ==> walk(n, cfg) == (if text_of(n).len() > 0 {
            seq![NodeView::Heading { level: 1, text: text_of(n) }]
        } else {
            Seq::<NodeView>::empty()
        }),
        name_of(n) == "h2"@ ==> walk(n, cfg) == (if text_of(n).len() > 0 {
            seq![NodeView::Heading { level: 2, text: text_of(n) }]
        } else {
            Seq::<NodeView>::empty()
        }),
        name_of(n) == "h3"@ ==> walk(n, cfg) == (if text_of(n).len() > 0 {
            seq![NodeView::Heading { level: 3, text: text_of(n) }]
        } else {
            Seq::<NodeView>::empty()
        }),
        name_of(n) == "h4"@ ==> walk(n, cfg) == (if text_of(n).len() > 0 {
            seq![NodeView::Heading { level: 4, text: text_of(n) }]
        } else {
            Seq::<NodeView>::empty()
        }),
        name_of(n) == "h5"@ ==> walk(n, cfg) == (if text_of(n).len() > 0 {
            seq![NodeView::Heading { level: 5, text: text_of(n) }]
        } else {
            Seq::<NodeView>::empty()
        }),
        name_of(n) == "h6"@ ==> walk(n, cfg) == (if text_of(n).len() > 0 {
            seq![NodeView::Heading { level: 6, text: text_of(n) }]
        } else {
            Seq::<NodeView>::empty()
        }),
{
    reveal_strlit("h1");
    reveal_strlit("h2");
    reveal_strlit("h3");
    reveal_strlit("h4");
    reveal_strlit("h5");
    reveal_strlit("h6");
    assert("h1"@[1] == '1');
    assert("h2"@[1] == '2');
    assert("h3"@[1] == '3');
    assert("h4"@[1] == '4');
    assert("h5"@[1] == '5');
    assert("h6"@[1] == '6');
    if name_of(n) == "h1"@ {
        assert("h1"@ != "h2"@ && "h1"@ != "h3"@ && "h1"@ != "h4"@ && "h1"@ != "h5"@ && "h1"@ != "h6"@);
        assert(is_heading(name_of(n)));
        assert(heading_level(name_of(n)) == 1);
    }
    if name_of(n) == "h2"@ {
        assert("h2"@ != "h1"@ && "h2"@ != "h3"@ && "h2"@ != "h4"@ && "h2"@ != "h5"@ && "h2"@ != "h6"@);
        assert(is_heading(name_of(n)));
        assert(heading_level(name_of(n)) == 2);
    }
    if name_of(n) == "h3"@ {
        assert("h3"@ != "h1"@ && "h3"@ != "h2"@ && "h3"@ != "h4"@ && "h3"@ != "h5"@ && "h3"@ != "h6"@);
        assert(is_heading(name_of(n)));
        assert(heading_level(name_of(n)) == 3);
    }
    if name_of(n) == "h4"@ {
        assert("h4"@ != "h1"@ && "h4"@ != "h2"@ && "h4"@ != "h3"@ && "h4"@ != "h5"@ && "h4"@ != "h6"@);
        assert(is_heading(name_of(n)));
        assert(heading_level(name_of(n)) == 4);
    }
    if name_of(n) == "h5"@ {
        assert("h5"@ != "h1"@ && "h5"@ != "h2"@ && "h5"@ != "h3"@ && "h5"@ != "h4"@ && "h5"@ != "h6"@);
        assert(is_heading(name_of(n)));
        assert(heading_level(name_of(n)) == 5);
    }
    if name_of(n) == "h6"@ {
        assert("h6"@ != "h1"@ && "h6"@ != "h2"@ && "h6"@ != "h3"@ && "h6"@ != "h4"@ && "h6"@ != "h5"@);
        assert(is_heading(name_of(n)));
        assert(heading_level(name_of(n)) == 6);
    }
}


/// What each element with a rule of its own gives, when it is not dropped:
/// a paragraph, bold, italic, code, quote or struck-text node for `<p>`,
/// `<strong>`/`<b>`, `<em>`/`<i>`, `<code>`, `<blockquote>` and
/// `<del>`/`<s>` with text (nothing without); a rule for `<hr>`, a line
/// break for `<br>`; a link for `<a>` with text or a target; an image for
/// `<img>` with a source; list items for `<ul>`/`<ol>`; nothing for a
/// stray `<li>`; and the node of a `<pre>`, table, definition list, figure,
/// video, audio or frame. Its children are not walked on their own.
pub proof fn lemma_rule_elements(n: DomView, cfg: ParseConfig)
    requires
        n is Element,
        !skip_element(n, cfg),
    ensures
        name_of(n) == "p"@ ==> walk(n, cfg) == (if text_of(n).len() > 0 {
            seq![NodeView::Paragraph(text_of(n))]
        } else {
            Seq::<NodeView>::empty()
        }),
        name_of(n) == "strong"@ ==> walk(n, cfg) == (if text_of(n).len() > 0 {
            seq![NodeView::Bold(text_of(n))]
        } else {
            Seq::<NodeView>::empty()
        }),
        name_of(n) == "b"@ ==> walk(n, cfg) == (if text_of(n).len() > 0 {
            seq![NodeView::Bold(text_of(n))]
        } else {
            Seq::<NodeView>::empty()
        }),
        name_of(n) == "em"@ ==> walk(n, cfg) == (if text_of(n).len() > 0 {
            seq![NodeView::Italic(text_of(n))]
        } else {
            Seq::<NodeView>::empty()
        }),
        name_of(n) == "i"@ ==> walk(n, cfg) == (if text_of(n).len() > 0 {
            seq![NodeView::Italic(text_of(n))]
        } else {
            Seq::<NodeView>::empty()
        }),
        name_of(n) == "code"@ ==> walk(n, cfg) == (if text_of(n).len() > 0 {
            seq![NodeView::Code(text_of(n))]
        } else {
            Seq::<NodeView>::empty()
        }),
        name_of(n) == "blockquote"@ ==> walk(n, cfg) == (if text_of(n).len() > 0 {
            seq![NodeView::Blockquote(text_of(n))]
        } else {
            Seq::<NodeView>::empty()
        }),
        name_of(n) == "del"@ ==> walk(n, cfg) == (if text_of(n).len() > 0 {
            seq![NodeView::Strikethrough(text_of(n))]
        } else {
            Seq::<NodeView>::empty()
        }),
        name_of(n) == "s"@ ==> walk(n, cfg) == (if text_of(n).len() > 0 {
            seq![NodeView::Strikethrough(text_of(n))]
        } else {
            Seq::<NodeView>::empty()
        }),
        name_of(n) == "hr"@ ==> walk(n, cfg) == seq![NodeView::HorizontalRule],
        name_of(n) == "br"@ ==> walk(n, cfg) == seq![NodeView::LineBreak],
        name_of(n) == "li"@ ==> walk(n, cfg) == Seq::<NodeView>::empty(),
        name_of(n) == "pre"@ ==> walk(n, cfg) == pre_nodes(n),
        name_of(n) == "table"@ ==> walk(n, cfg) == table_nodes(n),
        name_of(n) == "dl"@ ==> walk(n, cfg) == definition_nodes(n),
        name_of(n) == "figure"@ ==> walk(n, cfg) == figure_nodes(n),
        name_of(n) == "video"@ ==> walk(n, cfg) == media_nodes(n, "video"@, "Video"@, true),
        name_of(n) == "audio"@ ==> walk(n, cfg) == media_nodes(n, "audio"@, "Audio"@, true),
        name_of(n) == "iframe"@ ==> walk(n, cfg) == media_nodes(n, "iframe"@, "Embedded"@, false),
        name_of(n) == "ul"@ ==> walk(n, cfg) == (if nonempty_texts(descendants_named(n, "li"@)).len() > 0 {
            seq![NodeView::UnorderedList(nonempty_texts(descendants_named(n, "li"@)))]
        } else {
            Seq::<NodeView>::empty()
        }),
        name_of(n) == "ol"@ ==> walk(n, cfg) == (if nonempty_texts(descendants_named(n, "li"@)).len() > 0 {
            seq![NodeView::OrderedList(nonempty_texts(descendants_named(n, "li"@)))]
        } else {
            Seq::<NodeView>::empty()
        }),
        name_of(n) == "a"@ ==> walk(n, cfg) == ({
            let href = opt_or(attr_of(n, "href"@), Seq::empty());
            if text_of(n).len() > 0 || href.len() > 0 {
                seq![NodeView::Link { text: if text_of(n).len() == 0 { href } else { text_of(n) }, href }]
            } else {
                Seq::<NodeView>::empty()
            }
        }),
        name_of(n) == "img"@ ==> walk(n, cfg) == ({
            let src = opt_or(attr_of(n, "src"@), Seq::empty());
            if src.len() > 0 {
                seq![NodeView::Image { alt: opt_or(attr_of(n, "alt"@), Seq::empty()), src }]
            } else {
                Seq::<NodeView>::empty()
            }
        }),
{
    reveal_strlit("h1");
    assert("h1"@ =~= seq!['h', '1']);
    reveal_strlit("h2");
    assert("h2"@ =~= seq!['h', '2']);
    reveal_strlit("h3");
    assert("h3"@ =~= seq!['h', '3']);
    reveal_strlit("h4");
    assert("h4"@ =~= seq!['h', '4']);
    reveal_strlit("h5");
    assert("h5"@ =~= seq!['h', '5']);
    reveal_strlit("h6");
    assert("h6"@ =~= seq!['h', '6']);
    reveal_strlit("p");
    assert("p"@ =~= seq!['p']);
    reveal_strlit("a");
    assert("a"@ =~= seq!['a']);
    reveal_strlit("img");
    assert("img"@ =~= seq!['i', 'm', 'g']);
    reveal_strlit("strong");
    assert("strong"@ =~= seq!['s', 't', 'r', 'o', 'n', 'g']);
    reveal_strlit("b");
    assert("b"@ =~= seq!['b']);
    reveal_strlit("em");
    assert("em"@ =~= seq!['e', 'm']);
    reveal_strlit("i");
    assert("i"@ =~= seq!['i']);
    reveal_strlit("code");
    assert("code"@ =~= seq!['c', 'o', 'd', 'e']);
    reveal_strlit("pre");
    assert("pre"@ =~= seq!['p', 'r', 'e']);
    reveal_strlit("ul");
    assert("ul"@ =~= seq!['u', 'l']);
    reveal_strlit("ol");
    assert("ol"@ =~= seq!['o', 'l']);
    reveal_strlit("blockquote");
    assert("blockquote"@ =~= seq!['b', 'l', 'o', 'c', 'k', 'q', 'u', 'o', 't', 'e']);
    reveal_strlit("table");
    assert("table"@ =~= seq!['t', 'a', 'b', 'l', 'e']);
    reveal_strlit("hr");
    assert("hr"@ =~= seq!['h', 'r']);
    reveal_strlit("br");
    assert("br"@ =~= seq!['b', 'r']);
    reveal_strlit("del");
    assert("del"@ =~= seq!['d', 'e', 'l']);
    reveal_strlit("s");
    assert("s"@ =~= seq!['s']);
    reveal_strlit("dl");
    assert("dl"@ =~= seq!['d', 'l']);
    reveal_strlit("figure");
    assert("figure"@ =~= seq!['f', 'i', 'g', 'u', 'r', 'e']);
    reveal_strlit("video");
    assert("video"@ =~= seq!['v', 'i', 'd', 'e', 'o']);
    reveal_strlit("audio");
    assert("audio"@ =~= seq!['a', 'u', 'd', 'i', 'o']);
    reveal_strlit("iframe");
    assert("iframe"@ =~= seq!['i', 'f', 'r', 'a', 'm', 'e']);
    reveal_strlit("li");
    assert("li"@ =~= seq!['l', 'i']);
    assert("p"@[0] == 'p');
    assert("a"@[0] == 'a');
    assert("b"@[0] == 'b');
    assert("i"@[0] == 'i');
    assert("s"@[0] == 's');
    if name_of(n) == "b"@ {
        assert("b"@ != "p"@ && "b"@ != "a"@);
    }
    if name_of(n) == "i"@ {
        assert("i"@ != "p"@ && "i"@ != "a"@ && "i"@ != "b"@);
    }
}


/// What cleaning drops gives no content: navigation and page headers when
/// navigation is cleaned, footers when footers are cleaned, and elements
/// whose class or id marks an ad or a comment block when those are cleaned.
pub proof fn lemma_cleaned_elements_give_nothing(n: DomView, cfg: ParseConfig)
    requires
        n is Element,
    ensures
        cfg.clean_navigation && (name_of(n) == "nav"@ || name_of(n) == "header"@) ==> walk(n, cfg)
            == Seq::<NodeView>::empty(),
        cfg.clean_footers && name_of(n) == "footer"@ ==> walk(n, cfg) == Seq::<NodeView>::empty(),
        cfg.clean_ads && matches_any(class_and_id(n), ad_patterns()) ==> walk(n, cfg) == Seq::<NodeView>::empty(),
        cfg.clean_comments && matches_any(class_and_id(n), comment_patterns()) ==> walk(n, cfg) == Seq::<
            NodeView,
        >::empty(),
{
}

} // verus!
