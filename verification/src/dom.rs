//! HTML documents as trees of plain values.
//!
//! The `scraper` crate (html5ever) parses the markup; its tree is walked once,
//! edge by edge, into [`HtmlEvent`]s, and a verified builder turns those into
//! a forest of [`DomNode`]s. Everything the parser and the link extractor read
//! of a page is read from that forest: element names, attributes, descendant
//! text, and the elements of a given name in document order.

use vstd::prelude::*;

use crate::parser::collapse_whitespace;
use crate::text::{eq_str, join_with, push_str, views, words};
use crate::utils::{clone_pairs, lemma_join_push, pairs_view};

use ego_tree::iter::Edge;
use scraper::{Html, Node};

verus! {

/// One step of a depth-first walk over a parsed HTML tree.
#[derive(Debug, Clone)]
pub enum HtmlEvent {
    /// Entering an element: its local name and its attributes.
    Open(String, Vec<(String, String)>),
    /// Leaving an element.
    Close,
    /// A text node.
    Text(String),
    /// Entering or leaving anything else (the document, comments, doctypes).
    Other,
}

/// The mathematical value of an [`HtmlEvent`].
pub ghost enum HtmlEventView {
    Open(Seq<char>, Seq<(Seq<char>, Seq<char>)>),
    Close,
    Text(Seq<char>),
    Other,
}

impl View for HtmlEvent {
    type V = HtmlEventView;

    open spec fn view(&self) -> HtmlEventView {
        match self {
            HtmlEvent::Open(n, a) => HtmlEventView::Open(n@, pairs_view(a@)),
            HtmlEvent::Close => HtmlEventView::Close,
            HtmlEvent::Text(t) => HtmlEventView::Text(t@),
            HtmlEvent::Other => HtmlEventView::Other,
        }
    }
}

pub open spec fn html_event_views(events: Seq<HtmlEvent>) -> Seq<HtmlEventView> {
    events.map_values(|e: HtmlEvent| e@)
}

/// A node of a parsed HTML document.
#[derive(Debug)]
pub enum DomNode {
    Element { name: String, attrs: Vec<(String, String)>, children: Vec<DomNode> },
    Text(String),
}

/// The mathematical value of a [`DomNode`].
pub ghost enum DomView {
    Element { name: Seq<char>, attrs: Seq<(Seq<char>, Seq<char>)>, children: Seq<DomView> },
    Text(Seq<char>),
}

pub open spec fn dom_view(n: DomNode) -> DomView
    decreases n,
{
    match n {
        DomNode::Element { name, attrs, children } => DomView::Element {
            name: name@,
            attrs: pairs_view(attrs@),
            children: Seq::new(
                children@.len(),
                |i: int|
                    if 0 <= i < children@.len() {
                        dom_view(children@[i])
                    } else {
                        DomView::Text(Seq::empty())
                    },
            ),
        },
        DomNode::Text(t) => DomView::Text(t@),
    }
}

pub open spec fn forest_view(f: Seq<DomNode>) -> Seq<DomView> {
    Seq::new(f.len(), |i: int| dom_view(f[i]))
}

/// What html5ever makes of a document, walked edge by edge.
pub uninterp spec fn html_events_of(html: Seq<char>) -> Seq<HtmlEventView>;

/// Parses `html` with `scraper::Html::parse_document` and walks the whole
/// tree with `ego_tree`'s `traverse`, turning each edge into an
/// [`HtmlEvent`]. The result is named, not described: it is whatever
/// html5ever builds, which depends on `html` alone.
#[verifier::external_body]
fn html_events(html: &str) -> (res: Vec<HtmlEvent>)
    ensures
        html_event_views(res@) == html_events_of(html@),
{
    let doc = Html::parse_document(html);
    doc.tree.root().traverse().map(|edge| match edge {
        Edge::Open(n) => match n.value() {
            Node::Element(e) => HtmlEvent::Open(e.name().to_string(), e.attrs().map(|(k, v)| (k.to_string(), v.to_string())).collect()),
            Node::Text(t) => HtmlEvent::Text(t.text.to_string()),
            _ => HtmlEvent::Other,
        },
        Edge::Close(n) => match n.value() {
            Node::Element(_) => HtmlEvent::Close,
            _ => HtmlEvent::Other,
        },
    }).collect()
}

// ---------------------------------------------------------------------------
// Building the tree from the walk
// ---------------------------------------------------------------------------

/// Appends `child` to the children of an element.
pub open spec fn with_child(el: DomView, child: DomView) -> DomView {
    match el {
        DomView::Element { name, attrs, children } => DomView::Element {
            name,
            attrs,
            children: children.push(child),
        },
        DomView::Text(t) => DomView::Text(t),
    }
}

/// The element that holds the top-level nodes while the tree is built.
pub open spec fn root_frame() -> DomView {
    DomView::Element { name: Seq::empty(), attrs: Seq::empty(), children: Seq::empty() }
}

/// Closes the innermost open element: it becomes the last child of the one
/// around it.
pub open spec fn close_top(stack: Seq<DomView>) -> Seq<DomView>
    recommends
        stack.len() >= 2,
{
    let n = stack.len();
    stack.drop_last().update(n - 2, with_child(stack[n - 2], stack[n - 1]))
}

/// One event applied to the stack of open elements (the root frame first).
/// A `Close` with nothing open is ignored.
pub open spec fn dom_step(stack: Seq<DomView>, e: HtmlEventView) -> Seq<DomView> {
    match e {
        HtmlEventView::Open(name, attrs) => stack.push(
            DomView::Element { name, attrs, children: Seq::empty() },
        ),
        HtmlEventView::Text(t) => stack.update(
            stack.len() - 1,
            with_child(stack[stack.len() - 1], DomView::Text(t)),
        ),
        HtmlEventView::Close => if stack.len() >= 2 {
            close_top(stack)
        } else {
            stack
        },
        HtmlEventView::Other => stack,
    }
}

pub open spec fn dom_run(events: Seq<HtmlEventView>) -> Seq<DomView>
    decreases events.len(),
{
    if events.len() == 0 {
        seq![root_frame()]
    } else {
        dom_step(dom_run(events.drop_last()), events.last())
    }
}

/// Closes every element still open at the end of the walk.
pub open spec fn close_all(stack: Seq<DomView>) -> Seq<DomView>
    decreases stack.len(),
{
    if stack.len() <= 1 {
        stack
    } else {
        close_all(close_top(stack))
    }
}

pub open spec fn children_of(n: DomView) -> Seq<DomView> {
    match n {
        DomView::Element { children, .. } => children,
        DomView::Text(_) => Seq::empty(),
    }
}

/// The top-level nodes that a walk describes.
pub open spec fn dom_forest(events: Seq<HtmlEventView>) -> Seq<DomView> {
    children_of(close_all(dom_run(events))[0])
}

/// An element under construction.
struct Frame {
    name: String,
    attrs: Vec<(String, String)>,
    children: Vec<DomNode>,
}

spec fn frame_view(f: Frame) -> DomView {
    DomView::Element {
        name: f.name@,
        attrs: pairs_view(f.attrs@),
        children: forest_view(f.children@),
    }
}

spec fn frames_view(s: Seq<Frame>) -> Seq<DomView> {
    Seq::new(s.len(), |i: int| frame_view(s[i]))
}

proof fn lemma_element_view(name: String, attrs: Vec<(String, String)>, children: Vec<DomNode>)
    ensures
        dom_view(DomNode::Element { name, attrs, children }) == frame_view(
            Frame { name, attrs, children },
        ),
{
    let n = DomNode::Element { name, attrs, children };
    let v = dom_view(n);
    assert(v is Element);
    assert(v->children =~= forest_view(children@));
}

/// Appends a node to the innermost frame.
fn push_into_top(stack: &mut Vec<Frame>, node: DomNode)
    requires
        old(stack).len() >= 1,
    ensures
        final(stack).len() == old(stack).len(),
        frames_view(final(stack)@) == frames_view(old(stack)@).update(
            old(stack).len() - 1,
            with_child(frames_view(old(stack)@)[old(stack).len() - 1], dom_view(node)),
        ),
{
    let ghost nv = dom_view(node);
    let mut top = stack.pop().unwrap();
    let ghost before = top.children@;
    top.children.push(node);
    assert(forest_view(top.children@) =~= forest_view(before).push(nv));
    stack.push(top);
    assert(frames_view(stack@) =~= frames_view(old(stack)@).update(
        old(stack).len() - 1,
        with_child(frames_view(old(stack)@)[old(stack).len() - 1], nv),
    ));
}

/// Closes the innermost frame into the one around it.
fn close_frame(stack: &mut Vec<Frame>)
    requires
        old(stack).len() >= 2,
    ensures
        final(stack).len() == old(stack).len() - 1,
        frames_view(final(stack)@) == close_top(frames_view(old(stack)@)),
{
    let top = stack.pop().unwrap();
    proof {
        lemma_element_view(top.name, top.attrs, top.children);
    }
    let node = DomNode::Element { name: top.name, attrs: top.attrs, children: top.children };
    assert(frames_view(stack@) =~= frames_view(old(stack)@).drop_last());
    push_into_top(stack, node);
    assert(frames_view(stack@) =~= close_top(frames_view(old(stack)@)));
}

/// Builds the forest that a walk describes. Text outside any element, and
/// elements left open, are kept; a stray close is ignored.
pub fn build_dom(events: &Vec<HtmlEvent>) -> (res: Vec<DomNode>)
    ensures
        forest_view(res@) == dom_forest(html_event_views(events@)),
{
    let ghost ev = html_event_views(events@);
    let mut stack: Vec<Frame> = Vec::new();
    stack.push(Frame { name: String::new(), attrs: Vec::new(), children: Vec::new() });
    assert(frames_view(stack@) =~= dom_run(ev.take(0))) by {
        assert(forest_view(Seq::<DomNode>::empty()) =~= Seq::empty());
        assert(pairs_view(Seq::<(String, String)>::empty()) =~= Seq::empty());
    }
    let mut i: usize = 0;
    while i < events.len()
        invariant
            i <= events@.len(),
            ev == html_event_views(events@),
            stack.len() >= 1,
            stack.len() == dom_run(ev.take(i as int)).len(),
            frames_view(stack@) == dom_run(ev.take(i as int)),
        decreases events.len() - i,
    {
        let ghost st = frames_view(stack@);
        assert(ev.take(i + 1).drop_last() =~= ev.take(i as int));
        assert(ev.take(i + 1).last() == events@[i as int]@);
        match &events[i] {
            HtmlEvent::Open(name, attrs) => {
                let f = Frame { name: name.clone(), attrs: clone_pairs(attrs), children: Vec::new() };
                stack.push(f);
                assert(forest_view(Seq::<DomNode>::empty()) =~= Seq::empty());
                assert(frames_view(stack@) =~= dom_step(st, events@[i as int]@));
            },
            HtmlEvent::Text(t) => {
                push_into_top(&mut stack, DomNode::Text(t.clone()));
            },
            HtmlEvent::Close => {
                if stack.len() >= 2 {
                    close_frame(&mut stack);
                }
            },
            HtmlEvent::Other => {},
        }
        i = i + 1;
    }
    assert(ev.take(events@.len() as int) =~= ev);
    while stack.len() >= 2
        invariant
            stack.len() >= 1,
            close_all(frames_view(stack@)) == close_all(dom_run(ev)),
        decreases stack.len(),
    {
        close_frame(&mut stack);
    }
    assert(close_all(frames_view(stack@)) == frames_view(stack@));
    let ghost last = stack@;
    let root = stack.pop().unwrap();
    assert(root == last[0]);
    root.children
}

// ---------------------------------------------------------------------------
// Reading the tree
// ---------------------------------------------------------------------------

/// The text of every text node in `n`, in document order.
pub open spec fn node_texts(n: DomView) -> Seq<Seq<char>>
    decreases n,
{
    match n {
        DomView::Element { children, .. } => forest_texts(children),
        DomView::Text(t) => seq![t],
    }
}

pub open spec fn forest_texts(f: Seq<DomView>) -> Seq<Seq<char>>
    decreases f,
{
    if f.len() == 0 {
        Seq::empty()
    } else {
        forest_texts(f.drop_last()) + node_texts(f.last())
    }
}

/// The elements named `tag` in `n`, `n` itself included, in document order.
pub open spec fn node_select(n: DomView, tag: Seq<char>) -> Seq<DomView>
    decreases n,
{
    match n {
        DomView::Element { name, children, .. } => (if name == tag {
            seq![n]
        } else {
            Seq::empty()
        }) + forest_select(children, tag),
        DomView::Text(_) => Seq::empty(),
    }
}

pub open spec fn forest_select(f: Seq<DomView>, tag: Seq<char>) -> Seq<DomView>
    decreases f,
{
    if f.len() == 0 {
        Seq::empty()
    } else {
        forest_select(f.drop_last(), tag) + node_select(f.last(), tag)
    }
}

/// The elements named `tag` strictly below `n`.
pub open spec fn descendants_named(n: DomView, tag: Seq<char>) -> Seq<DomView> {
    forest_select(children_of(n), tag)
}

pub open spec fn name_of(n: DomView) -> Seq<char> {
    match n {
        DomView::Element { name, .. } => name,
        DomView::Text(_) => Seq::empty(),
    }
}

pub open spec fn attrs_of(n: DomView) -> Seq<(Seq<char>, Seq<char>)> {
    match n {
        DomView::Element { attrs, .. } => attrs,
        DomView::Text(_) => Seq::empty(),
    }
}

/// The value of the first attribute named `key` in a list of attributes.
pub open spec fn lookup(attrs: Seq<(Seq<char>, Seq<char>)>, key: Seq<char>) -> Option<Seq<char>>
    decreases attrs.len(),
{
    if attrs.len() == 0 {
        None
    } else if attrs[0].0 == key {
        Some(attrs[0].1)
    } else {
        lookup(attrs.drop_first(), key)
    }
}

/// The value of attribute `key` of an element.
pub open spec fn attr_of(n: DomView, key: Seq<char>) -> Option<Seq<char>> {
    lookup(attrs_of(n), key)
}

/// The text of an element as a reader sees it: the text of all its text
/// nodes joined by spaces, with whitespace runs collapsed and the ends
/// trimmed.
pub open spec fn text_of(n: DomView) -> Seq<char> {
    join_with(words(join_with(node_texts(n), seq![' '])), seq![' '])
}

pub open spec fn refs_view(s: Seq<&DomNode>) -> Seq<DomView> {
    Seq::new(s.len(), |i: int| dom_view(*s[i]))
}

pub proof fn lemma_children_view(n: DomNode, i: int)
    requires
        n is Element,
        0 <= i < n->children@.len(),
    ensures
        dom_view(n) is Element,
        children_of(dom_view(n)).len() == n->children@.len(),
        children_of(dom_view(n))[i] == dom_view(n->children@[i]),
        name_of(dom_view(n)) == n->name@,
        attrs_of(dom_view(n)) == pairs_view(n->attrs@),
{
}

pub proof fn lemma_element_fields(n: DomNode)
    requires
        n is Element,
    ensures
        dom_view(n) is Element,
        children_of(dom_view(n)).len() == n->children@.len(),
        name_of(dom_view(n)) == n->name@,
        attrs_of(dom_view(n)) == pairs_view(n->attrs@),
{
}

/// Appends the text of every text node in `node` to `out`.
fn collect_texts(node: &DomNode, out: &mut Vec<String>)
    ensures
        views(final(out)@) == views(old(out)@) + node_texts(dom_view(*node)),
    decreases node,
{
    match node {
        DomNode::Text(t) => {
            let ghost before = out@;
            out.push(t.clone());
            assert(views(out@) =~= views(before) + seq![t@]);
        },
        DomNode::Element { children, .. } => {
            let ghost kids = children_of(dom_view(*node));
            proof {
                lemma_element_fields(*node);
            }
            let ghost start = views(out@);
            let mut i: usize = 0;
            while i < children.len()
                invariant
                    i <= children.len(),
                    *node is Element,
                    *children == node->children,
                    kids == children_of(dom_view(*node)),
                    kids.len() == children.len(),
                    views(out@) == start + forest_texts(kids.take(i as int)),
                decreases children.len() - i,
            {
                proof {
                    lemma_children_view(*node, i as int);
                }
                collect_texts(&children[i], out);
                assert(kids.take(i + 1).drop_last() =~= kids.take(i as int));
                assert(views(out@) =~= start + forest_texts(kids.take(i + 1)));
                i = i + 1;
            }
            assert(kids.take(kids.len() as int) =~= kids);
        },
    }
}

/// The pieces joined by single spaces.
fn join_spaced(v: &Vec<String>) -> (res: String)
    ensures
        res@ == join_with(views(v@), seq![' ']),
{
    let mut out = String::new();
    let mut i: usize = 0;
    while i < v.len()
        invariant
            i <= v.len(),
            out@ == join_with(views(v@).take(i as int), seq![' ']),
        decreases v.len() - i,
    {
        proof {
            lemma_join_push(views(v@).take(i as int), v@[i as int]@, seq![' ']);
            assert(views(v@).take(i + 1) =~= views(v@).take(i as int).push(v@[i as int]@));
        }
        if i > 0 {
            proof {
                reveal_strlit(" ");
            }
            push_str(&mut out, " ");
        }
        push_str(&mut out, v[i].as_str());
        i = i + 1;
    }
    assert(views(v@).take(v.len() as int) =~= views(v@));
    out
}

/// The text of an element: its text nodes joined by spaces, whitespace
/// collapsed.
pub fn element_text(node: &DomNode) -> (res: String)
    ensures
        res@ == text_of(dom_view(*node)),
{
    let mut parts: Vec<String> = Vec::new();
    collect_texts(node, &mut parts);
    assert(views(parts@) =~= node_texts(dom_view(*node)));
    let joined = join_spaced(&parts);
    collapse_whitespace(joined.as_str())
}

/// Appends to `out` every element named `tag` in `node`, `node` included.
fn collect_named<'a>(node: &'a DomNode, tag: &str, out: &mut Vec<&'a DomNode>)
    ensures
        refs_view(final(out)@) == refs_view(old(out)@) + node_select(dom_view(*node), tag@),
    decreases node,
{
    match node {
        DomNode::Text(t) => {
            assert(dom_view(*node) == DomView::Text(t@));
            assert(node_select(dom_view(*node), tag@) =~= Seq::<DomView>::empty());
            assert(refs_view(out@) + Seq::<DomView>::empty() =~= refs_view(out@));
        },
        DomNode::Element { name, children, .. } => {
            let ghost kids = children_of(dom_view(*node));
            proof {
                lemma_element_fields(*node);
            }
            if eq_str(name.as_str(), tag) {
                let ghost before = out@;
                out.push(node);
                assert(refs_view(out@) =~= refs_view(before).push(dom_view(*node)));
            }
            let ghost start = refs_view(out@);
            let mut i: usize = 0;
            while i < children.len()
                invariant
                    i <= children.len(),
                    *node is Element,
                    *children == node->children,
                    kids == children_of(dom_view(*node)),
                    kids.len() == children.len(),
                    refs_view(out@) == start + forest_select(kids.take(i as int), tag@),
                decreases children.len() - i,
            {
                proof {
                    lemma_children_view(*node, i as int);
                }
                collect_named(&children[i], tag, out);
                assert(kids.take(i + 1).drop_last() =~= kids.take(i as int));
                assert(refs_view(out@) =~= start + forest_select(kids.take(i + 1), tag@));
                i = i + 1;
            }
            assert(kids.take(kids.len() as int) =~= kids);
        },
    }
}

/// Every element named `tag` in a forest, in document order.
pub fn select_in<'a>(forest: &'a Vec<DomNode>, tag: &str) -> (res: Vec<&'a DomNode>)
    ensures
        refs_view(res@) == forest_select(forest_view(forest@), tag@),
{
    let ghost f = forest_view(forest@);
    let mut out: Vec<&'a DomNode> = Vec::new();
    let mut i: usize = 0;
    while i < forest.len()
        invariant
            i <= forest.len(),
            f == forest_view(forest@),
            refs_view(out@) == forest_select(f.take(i as int), tag@),
        decreases forest.len() - i,
    {
        collect_named(&forest[i], tag, &mut out);
        assert(f.take(i + 1).drop_last() =~= f.take(i as int));
        i = i + 1;
    }
    assert(f.take(forest.len() as int) =~= f);
    out
}

pub open spec fn opt_ref_view(o: Option<&str>) -> Option<Seq<char>> {
    match o {
        Some(s) => Some(s@),
        None => None,
    }
}

/// The value of attribute `key` of `node` (`None` for a text node).
pub fn attr_value<'a>(node: &'a DomNode, key: &str) -> (res: Option<&'a str>)
    ensures
        opt_ref_view(res) == attr_of(dom_view(*node), key@),
{
    match node {
        DomNode::Text(t) => {
            assert(dom_view(*node) == DomView::Text(t@));
            None
        },
        DomNode::Element { attrs, .. } => {
            proof {
                lemma_element_fields(*node);
            }
            let ghost av = pairs_view(attrs@);
            assert(av.subrange(0, av.len() as int) =~= av);
            let mut i: usize = 0;
            while i < attrs.len()
                invariant
                    i <= attrs.len(),
                    av == pairs_view(attrs@),
                    av == attrs_of(dom_view(*node)),
                    lookup(av, key@) == lookup(av.subrange(i as int, av.len() as int), key@),
                decreases attrs.len() - i,
            {
                let ghost rest = av.subrange(i as int, av.len() as int);
                assert(rest.drop_first() =~= av.subrange(i + 1, av.len() as int));
                if eq_str(attrs[i].0.as_str(), key) {
                    return Some(attrs[i].1.as_str());
                }
                i = i + 1;
            }
            assert(av.subrange(i as int, av.len() as int) =~= Seq::<(Seq<char>, Seq<char>)>::empty());
            None
        },
    }
}

/// The name of an element (empty for a text node).
pub fn node_name(node: &DomNode) -> (res: &str)
    ensures
        res@ == name_of(dom_view(*node)),
{
    match node {
        DomNode::Text(t) => {
            assert(dom_view(*node) == DomView::Text(t@));
            proof {
                reveal_strlit("");
            }
            ""
        },
        DomNode::Element { name, .. } => {
            proof {
                lemma_element_fields(*node);
            }
            name.as_str()
        },
    }
}

/// Every element named `tag` strictly below `node`, in document order.
pub fn descendants<'a>(node: &'a DomNode, tag: &str) -> (res: Vec<&'a DomNode>)
    ensures
        refs_view(res@) == descendants_named(dom_view(*node), tag@),
{
    match node {
        DomNode::Text(t) => {
            assert(dom_view(*node) == DomView::Text(t@));
            let out: Vec<&'a DomNode> = Vec::new();
            assert(refs_view(out@) =~= forest_select(Seq::empty(), tag@));
            out
        },
        DomNode::Element { children, .. } => {
            proof {
                lemma_element_fields(*node);
                assert forall|i: int| 0 <= i < children@.len() implies forest_view(children@)[i]
                    == children_of(dom_view(*node))[i] by {
                    lemma_children_view(*node, i);
                }
                assert(forest_view(children@) =~= children_of(dom_view(*node)));
            }
            select_in(children, tag)
        },
    }
}

/// Parses an HTML document into its top-level nodes (see [`html_dom`]).
pub fn parse_html_document(html: &str) -> (res: Vec<DomNode>)
    ensures
        forest_view(res@) == html_dom(html@),
{
    let events = html_events(html);
    build_dom(&events)
}

/// The tree that html5ever builds for `html`.
pub open spec fn html_dom(html: Seq<char>) -> Seq<DomView> {
    dom_forest(html_events_of(html))
}

} // verus!
