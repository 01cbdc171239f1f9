//! JSON content into documents: JSON-LD objects give metadata and a short
//! summary, other values become headed sections, key/value paragraphs,
//! lists and tables.
//!
//! `serde_json` parses the text; the value it builds is copied once into a
//! [`JsonValue`] of plain values, and everything after that is verified.

use vstd::prelude::*;

use crate::error::RehykeError;
use crate::fetcher::ContentType;
use crate::html::{MetaView, empty_meta, meta_view};
use crate::parser::{
    ContentNode, NodeView, PageMetadata, ParsedDocument, is_parse_error, node_view, nodes_view, push_node,
};
use crate::text::{eq_str, opt_str_view, push_str, views};

verus! {

/// A JSON value. Arrays and objects also carry their compact JSON text, and
/// a number its text, as `serde_json` writes them; object members come in
/// the order the parsed map yields them.
#[derive(Debug)]
pub enum JsonValue {
    Null,
    Bool(bool),
    Number(String),
    Str(String),
    Array(Vec<JsonValue>, String),
    Object(Vec<(String, JsonValue)>, String),
}

/// The mathematical value of a [`JsonValue`].
pub ghost enum JsonView {
    Null,
    Bool(bool),
    Number(Seq<char>),
    Str(Seq<char>),
    Array(Seq<JsonView>, Seq<char>),
    Object(Seq<(Seq<char>, JsonView)>, Seq<char>),
}

pub open spec fn json_view(v: JsonValue) -> JsonView
    decreases v,
{
    match v {
        JsonValue::Null => JsonView::Null,
        JsonValue::Bool(b) => JsonView::Bool(b),
        JsonValue::Number(t) => JsonView::Number(t@),
        JsonValue::Str(s) => JsonView::Str(s@),
        JsonValue::Array(items, text) => JsonView::Array(
            Seq::new(
                items@.len(),
                |i: int|
                    if 0 <= i < items@.len() {
                        json_view(items@[i])
                    } else {
                        JsonView::Null
                    },
            ),
            text@,
        ),
        JsonValue::Object(members, text) => JsonView::Object(
            Seq::new(
                members@.len(),
                |i: int|
                    if 0 <= i < members@.len() {
                        (members@[i].0@, json_view(members@[i].1))
                    } else {
                        (Seq::empty(), JsonView::Null)
                    },
            ),
            text@,
        ),
    }
}

pub open spec fn json_result_view(r: Result<JsonValue, String>) -> Result<JsonView, Seq<char>> {
    match r {
        Ok(v) => Ok(json_view(v)),
        Err(e) => Err(e@),
    }
}

/// What `serde_json` makes of a text: the value, or the message of its error.
pub uninterp spec fn json_parsed(text: Seq<char>) -> Result<JsonView, Seq<char>>;

#[verifier::external_type_specification]
#[verifier::external_body]
pub struct ExJsonValue(serde_json::Value);

/// Copies a parsed `serde_json::Value` into a [`JsonValue`], member by
/// member and item by item; nothing is stated of it.
#[verifier::external_body]
fn json_value_from_serde(v: &serde_json::Value) -> JsonValue {
    match v {
        serde_json::Value::Null => JsonValue::Null,
        serde_json::Value::Bool(b) => JsonValue::Bool(*b),
        serde_json::Value::Number(n) => JsonValue::Number(n.to_string()),
        serde_json::Value::String(s) => JsonValue::Str(s.clone()),
        serde_json::Value::Array(a) => JsonValue::Array(a.iter().map(json_value_from_serde).collect(), v.to_string()),
        serde_json::Value::Object(m) => JsonValue::Object(m.iter().map(|(k, x)| (k.clone(), json_value_from_serde(x))).collect(), v.to_string()),
    }
}

/// `serde_json::from_str` into a `serde_json::Value`, copied into a
/// [`JsonValue`]; on failure the error's message. The result is named by
/// [`json_parsed`], a function of the text alone.
#[verifier::external_body]
fn parse_json_text(json: &str) -> (res: Result<JsonValue, String>)
    ensures
        json_result_view(res) == json_parsed(json@),
{
    match serde_json::from_str::<serde_json::Value>(json) {
        Ok(v) => Ok(json_value_from_serde(&v)),
        Err(e) => Err(e.to_string()),
    }
}

// ---------------------------------------------------------------------------
// Specification
// ---------------------------------------------------------------------------

/// The value of the first member named `key`.
pub open spec fn member(members: Seq<(Seq<char>, JsonView)>, key: Seq<char>) -> Option<JsonView>
    decreases members.len(),
{
    if members.len() == 0 {
        None
    } else if members[0].0 == key {
        Some(members[0].1)
    } else {
        member(members.drop_first(), key)
    }
}

/// A value as a short string: a string itself, a number or boolean as
/// written, `null`, and arrays and objects as compact JSON.
pub open spec fn json_text(v: JsonView) -> Seq<char> {
    match v {
        JsonView::Null => "null"@,
        JsonView::Bool(b) => if b {
            "true"@
        } else {
            "false"@
        },
        JsonView::Number(t) => t,
        JsonView::Str(s) => s,
        JsonView::Array(_, t) => t,
        JsonView::Object(_, t) => t,
    }
}

pub open spec fn is_scalar(v: JsonView) -> bool {
    !(v is Array) && !(v is Object)
}

/// A member that is present with a scalar value.
pub open spec fn scalar_member(o: Option<JsonView>) -> bool {
    match o {
        Some(x) => is_scalar(x),
        None => false,
    }
}

pub open spec fn members_of(v: JsonView) -> Seq<(Seq<char>, JsonView)> {
    match v {
        JsonView::Object(m, _) => m,
        _ => Seq::empty(),
    }
}

/// An object fits a table with the given headers: as many members, and a
/// scalar under each header.
pub open spec fn fits_table(v: JsonView, headers: Seq<Seq<char>>) -> bool {
    &&& v is Object
    &&& members_of(v).len() == headers.len()
    &&& forall|j: int|
        0 <= j < headers.len() ==> scalar_member(#[trigger] member(members_of(v), headers[j]))
}

pub open spec fn keys_of(members: Seq<(Seq<char>, JsonView)>) -> Seq<Seq<char>> {
    members.map_values(|m: (Seq<char>, JsonView)| m.0)
}

/// An array as a table: every item an object with the keys of the first
/// (which has some) and scalar values; the rows give each value's text.
pub open spec fn array_table(items: Seq<JsonView>) -> Option<NodeView> {
    if items.len() == 0 || !(items[0] is Object) {
        None
    } else {
        let headers = keys_of(members_of(items[0]));
        if headers.len() == 0 {
            None
        } else if forall|i: int| 0 <= i < items.len() ==> fits_table(#[trigger] items[i], headers) {
            Some(NodeView::Table {
                headers,
                rows: Seq::new(
                    items.len(),
                    |i: int| Seq::new(
                        headers.len(),
                        |j: int| json_text(member(members_of(items[i]), headers[j])->Some_0),
                    ),
                ),
            })
        } else {
            None
        }
    }
}

/// An array as a table when it fits one, else as a list of item texts.
pub open spec fn array_nodes(items: Seq<JsonView>) -> Seq<NodeView> {
    match array_table(items) {
        Some(t) => seq![t],
        None => seq![NodeView::UnorderedList(items.map_values(|x: JsonView| json_text(x)))],
    }
}

pub open spec fn min_level(level: u8) -> u8 {
    if level <= 6 {
        level
    } else {
        6
    }
}

/// The nodes of a value at a heading level: an object member by member, an
/// array as a table or list, anything else as raw text.
pub open spec fn value_nodes(v: JsonView, level: u8) -> Seq<NodeView>
    decreases v,
{
    match v {
        JsonView::Object(members, _) => members_nodes(members, level),
        JsonView::Array(items, _) => array_nodes(items),
        _ => seq![NodeView::RawText(json_text(v))],
    }
}

/// The nodes of some object members: a scalar as a `key: value` paragraph,
/// an array or object under a heading with the key.
pub open spec fn members_nodes(members: Seq<(Seq<char>, JsonView)>, level: u8) -> Seq<NodeView>
    decreases members,
{
    if members.len() == 0 {
        Seq::empty()
    } else {
        let key = members.last().0;
        let val = members.last().1;
        let lvl = min_level(level);
        members_nodes(members.drop_last(), level) + match val {
            JsonView::Array(items, _) => seq![NodeView::Heading { level: lvl, text: key }] + array_nodes(items),
            JsonView::Object(_, _) => seq![NodeView::Heading { level: lvl, text: key }] + value_nodes(
                val,
                (lvl + 1) as u8,
            ),
            _ => seq![NodeView::Paragraph(key + ": "@ + json_text(val))],
        }
    }
}

/// The string value of a member, when it is a string.
pub open spec fn str_member(members: Seq<(Seq<char>, JsonView)>, key: Seq<char>) -> Option<Seq<char>> {
    match member(members, key) {
        Some(JsonView::Str(s)) => Some(s),
        _ => None,
    }
}

/// Keys that JSON-LD reading handles itself.
pub open spec fn ld_keys() -> Seq<Seq<char>> {
    seq![
        "@context"@, "@type"@, "name"@, "headline"@, "description"@, "author"@,
        "datePublished"@, "url"@, "image"@,
    ]
}

/// The remaining JSON-LD members: scalars (but null) as `key: value`
/// paragraphs, arrays as a `key:` paragraph and a list, objects under a
/// second-level heading.
pub open spec fn ld_rest_nodes(members: Seq<(Seq<char>, JsonView)>) -> Seq<NodeView>
    decreases members.len(),
{
    if members.len() == 0 {
        Seq::empty()
    } else {
        let key = members.last().0;
        let val = members.last().1;
        ld_rest_nodes(members.drop_last()) + if ld_keys().contains(key) {
            Seq::empty()
        } else {
            match val {
                JsonView::Null => Seq::empty(),
                JsonView::Array(items, _) => seq![
                    NodeView::Paragraph(key + ":"@),
                    NodeView::UnorderedList(items.map_values(|x: JsonView| json_text(x))),
                ],
                JsonView::Object(_, _) => seq![NodeView::Heading { level: 2, text: key }] + value_nodes(val, 3),
                _ => seq![NodeView::Paragraph(key + ": "@ + json_text(val))],
            }
        }
    }
}

/// The title of a JSON-LD object: its `name`, else its `headline`.
pub open spec fn ld_title(members: Seq<(Seq<char>, JsonView)>) -> Option<Seq<char>> {
    match str_member(members, "name"@) {
        Some(n) => Some(n),
        None => str_member(members, "headline"@),
    }
}

/// The author: the `name` of an `author` object, or `author` itself as a
/// string.
pub open spec fn ld_author(members: Seq<(Seq<char>, JsonView)>) -> Option<Seq<char>> {
    match member(members, "author"@) {
        Some(a) => match str_member(members_of(a), "name"@) {
            Some(n) => Some(n),
            None => match a {
                JsonView::Str(s) => Some(s),
                _ => None,
            },
        },
        None => None,
    }
}

/// The image: `image` as a string, else the `url` of an `image` object.
pub open spec fn ld_image(members: Seq<(Seq<char>, JsonView)>) -> Option<Seq<char>> {
    match member(members, "image"@) {
        Some(JsonView::Str(s)) => Some(s),
        Some(i) => str_member(members_of(i), "url"@),
        None => None,
    }
}

/// A present value replaces the current one.
pub open spec fn set_if(o: Option<Seq<char>>, cur: Option<Seq<char>>) -> Option<Seq<char>> {
    match o {
        Some(x) => Some(x),
        None => cur,
    }
}

/// Metadata after reading a JSON-LD object: title, description, author,
/// publication date, image and canonical URL, each where the object has one.
pub open spec fn ld_meta(m: MetaView, members: Seq<(Seq<char>, JsonView)>) -> MetaView {
    MetaView {
        title: set_if(ld_title(members), m.title),
        description: set_if(str_member(members, "description"@), m.description),
        author: set_if(ld_author(members), m.author),
        published_date: set_if(str_member(members, "datePublished"@), m.published_date),
        og_image: set_if(ld_image(members), m.og_image),
        canonical_url: set_if(str_member(members, "url"@), m.canonical_url),
        ..m
    }
}

pub open spec fn opt_node(o: Option<Seq<char>>, f: spec_fn(Seq<char>) -> NodeView) -> Seq<NodeView> {
    match o {
        Some(t) => seq![f(t)],
        None => Seq::empty(),
    }
}

/// The nodes of a JSON-LD object: the title as a first-level heading, the
/// description, the image, then the remaining members.
pub open spec fn ld_nodes(members: Seq<(Seq<char>, JsonView)>) -> Seq<NodeView> {
    opt_node(ld_title(members), |t: Seq<char>| NodeView::Heading { level: 1, text: t })
        + opt_node(str_member(members, "description"@), |t: Seq<char>| NodeView::Paragraph(t))
        + opt_node(ld_image(members), |t: Seq<char>| NodeView::Image { alt: Seq::empty(), src: t })
        + ld_rest_nodes(members)
}

/// A JSON-LD object: one with an `@context` or `@type` member.
pub open spec fn is_json_ld(v: JsonView) -> bool {
    v is Object && (member(members_of(v), "@context"@) is Some || member(members_of(v), "@type"@) is Some)
}

/// The document of a parsed JSON value.
pub open spec fn is_json_document(doc: ParsedDocument, v: JsonView) -> bool {
    &&& doc.content_type == ContentType::Json
    &&& if is_json_ld(v) {
        meta_view(doc.metadata) == ld_meta(empty_meta(), members_of(v)) && nodes_view(doc.content_nodes@) == ld_nodes(members_of(v))
    } else {
        meta_view(doc.metadata) == empty_meta() && nodes_view(doc.content_nodes@) == value_nodes(v, 1)
    }
}

// ---------------------------------------------------------------------------
// Executable
// ---------------------------------------------------------------------------

pub open spec fn items_view(s: Seq<JsonValue>) -> Seq<JsonView> {
    Seq::new(s.len(), |i: int| json_view(s[i]))
}

pub open spec fn members_view(s: Seq<(String, JsonValue)>) -> Seq<(Seq<char>, JsonView)> {
    Seq::new(s.len(), |i: int| (s[i].0@, json_view(s[i].1)))
}

proof fn lemma_array_view(items: Vec<JsonValue>, text: String)
    ensures
        json_view(JsonValue::Array(items, text)) == JsonView::Array(items_view(items@), text@),
{
    let v = json_view(JsonValue::Array(items, text));
    assert(v is Array);
    assert(v->Array_0 =~= items_view(items@));
}

proof fn lemma_object_view(members: Vec<(String, JsonValue)>, text: String)
    ensures
        json_view(JsonValue::Object(members, text)) == JsonView::Object(members_view(members@), text@),
{
    let v = json_view(JsonValue::Object(members, text));
    assert(v is Object);
    assert(v->Object_0 =~= members_view(members@));
}

/// The value of the first member named `key`.
fn member_exec<'a>(members: &'a Vec<(String, JsonValue)>, key: &str) -> (res: Option<&'a JsonValue>)
    ensures
        match res {
            Some(v) => member(members_view(members@), key@) == Some(json_view(*v)),
            None => member(members_view(members@), key@) is None,
        },
{
    let ghost mv = members_view(members@);
    assert(mv.subrange(0, mv.len() as int) =~= mv);
    let mut i: usize = 0;
    while i < members.len()
        invariant
            i <= members.len(),
            mv == members_view(members@),
            member(mv, key@) == member(mv.subrange(i as int, mv.len() as int), key@),
        decreases members.len() - i,
    {
        let ghost rest = mv.subrange(i as int, mv.len() as int);
        assert(rest.drop_first() =~= mv.subrange(i + 1, mv.len() as int));
        if eq_str(members[i].0.as_str(), key) {
            return Some(&members[i].1);
        }
        i = i + 1;
    }
    assert(mv.subrange(i as int, mv.len() as int) =~= Seq::<(Seq<char>, JsonView)>::empty());
    None
}

/// The members of an object value (none for anything else).
fn members_exec(v: &JsonValue) -> (res: Option<&Vec<(String, JsonValue)>>)
    ensures
        match res {
            Some(m) => json_view(*v) is Object && members_view(m@) == members_of(json_view(*v)),
            None => !(json_view(*v) is Object) && members_of(json_view(*v)) == Seq::<(Seq<char>, JsonView)>::empty(),
        },
{
    match v {
        JsonValue::Object(m, text) => {
            proof {
                lemma_object_view(*m, *text);
            }
            Some(m)
        },
        JsonValue::Array(items, text) => {
            proof {
                lemma_array_view(*items, *text);
            }
            None
        },
        _ => None,
    }
}

/// A value as a short string (see [`json_text`]).
pub fn json_value_to_string(v: &JsonValue) -> (res: String)
    ensures
        res@ == json_text(json_view(*v)),
{
    match v {
        JsonValue::Null => "null".to_string(),
        JsonValue::Bool(b) => if *b {
            "true".to_string()
        } else {
            "false".to_string()
        },
        JsonValue::Number(t) => t.clone(),
        JsonValue::Str(s) => s.clone(),
        JsonValue::Array(items, text) => {
            proof {
                lemma_array_view(*items, *text);
            }
            text.clone()
        },
        JsonValue::Object(m, text) => {
            proof {
                lemma_object_view(*m, *text);
            }
            text.clone()
        },
    }
}

fn is_scalar_exec(v: &JsonValue) -> (res: bool)
    ensures
        res == is_scalar(json_view(*v)),
{
    match v {
        JsonValue::Array(items, text) => {
            proof {
                lemma_array_view(*items, *text);
            }
            false
        },
        JsonValue::Object(m, text) => {
            proof {
                lemma_object_view(*m, *text);
            }
            false
        },
        _ => true,
    }
}

/// The texts of some items.
fn item_texts(items: &Vec<JsonValue>) -> (res: Vec<String>)
    ensures
        views(res@) == items_view(items@).map_values(|x: JsonView| json_text(x)),
{
    let ghost iv = items_view(items@);
    let mut out: Vec<String> = Vec::new();
    let mut i: usize = 0;
    while i < items.len()
        invariant
            i <= items.len(),
            iv == items_view(items@),
            views(out@) == iv.take(i as int).map_values(|x: JsonView| json_text(x)),
        decreases items.len() - i,
    {
        let t = json_value_to_string(&items[i]);
        let ghost before = out@;
        out.push(t);
        assert(views(out@) =~= views(before).push(t@));
        assert(iv.take(i + 1).map_values(|x: JsonView| json_text(x)) =~= iv.take(i as int).map_values(
            |x: JsonView| json_text(x),
        ).push(json_text(iv[i as int])));
        i = i + 1;
    }
    assert(iv.take(items.len() as int) =~= iv);
    out
}

/// Whether one object fits a table with the given headers.
fn fits_table_exec(v: &JsonValue, headers: &Vec<String>) -> (res: bool)
    ensures
        res == fits_table(json_view(*v), views(headers@)),
{
    let members = match members_exec(v) {
        Some(m) => m,
        None => return false,
    };
    if members.len() != headers.len() {
        return false;
    }
    let ghost hv = views(headers@);
    let mut j: usize = 0;
    while j < headers.len()
        invariant
            j <= headers.len(),
            hv == views(headers@),
            members_view(members@) == members_of(json_view(*v)),
            forall|k: int| 0 <= k < j ==> scalar_member(#[trigger] member(members_of(json_view(*v)), hv[k])),
        decreases headers.len() - j,
    {
        match member_exec(members, headers[j].as_str()) {
            Some(x) => {
                if !is_scalar_exec(x) {
                    assert(!scalar_member(member(members_of(json_view(*v)), hv[j as int])));
                    return false;
                }
            },
            None => {
                assert(!scalar_member(member(members_of(json_view(*v)), hv[j as int])));
                return false;
            },
        }
        j = j + 1;
    }
    true
}

pub open spec fn table_rows_view(rows: Seq<Vec<String>>) -> Seq<Seq<Seq<char>>> {
    rows.map_values(|r: Vec<String>| views(r@))
}

/// The row of one fitting object: the text under each header.
fn table_row(members: &Vec<(String, JsonValue)>, headers: &Vec<String>) -> (res: Vec<String>)
    requires
        forall|j: int| 0 <= j < headers@.len() ==> scalar_member(#[trigger] member(members_view(members@), views(headers@)[j])),
    ensures
        views(res@) == Seq::new(
            headers@.len(),
            |j: int| json_text(member(members_view(members@), views(headers@)[j])->Some_0),
        ),
{
    let ghost hv = views(headers@);
    let ghost want = Seq::new(
        headers@.len(),
        |j: int| json_text(member(members_view(members@), hv[j])->Some_0),
    );
    let mut out: Vec<String> = Vec::new();
    let mut j: usize = 0;
    while j < headers.len()
        invariant
            j <= headers.len(),
            hv == views(headers@),
            want.len() == headers.len(),
            forall|k: int| 0 <= k < headers@.len() ==> scalar_member(#[trigger] member(members_view(members@), hv[k])),
            forall|k: int| 0 <= k < want.len() ==> want[k] == json_text(member(members_view(members@), hv[k])->Some_0),
            views(out@) == want.take(j as int),
        decreases headers.len() - j,
    {
        assert(scalar_member(member(members_view(members@), hv[j as int])));
        let t = match member_exec(members, headers[j].as_str()) {
            Some(x) => json_value_to_string(x),
            None => String::new(),
        };
        let ghost before = out@;
        out.push(t);
        assert(views(out@) =~= views(before).push(t@));
        assert(want.take(j + 1) =~= want.take(j as int).push(want[j as int]));
        j = j + 1;
    }
    assert(want.take(headers.len() as int) =~= want);
    out
}

/// An array as a table when it fits one (see [`array_table`]).
pub fn try_array_as_table(items: &Vec<JsonValue>) -> (res: Option<ContentNode>)
    ensures
        match res {
            Some(n) => array_table(items_view(items@)) == Some(node_view(n)),
            None => array_table(items_view(items@)) is None,
        },
{
    let ghost iv = items_view(items@);
    if items.len() == 0 {
        return None;
    }
    let first = match members_exec(&items[0]) {
        Some(m) => m,
        None => return None,
    };
    let mut headers: Vec<String> = Vec::new();
    let mut k: usize = 0;
    while k < first.len()
        invariant
            k <= first.len(),
            views(headers@) == keys_of(members_view(first@)).take(k as int),
        decreases first.len() - k,
    {
        let ghost before = headers@;
        headers.push(first[k].0.clone());
        assert(views(headers@) =~= views(before).push(first@[k as int].0@));
        assert(keys_of(members_view(first@)).take(k + 1) =~= keys_of(members_view(first@)).take(k as int).push(first@[k as int].0@));
        k = k + 1;
    }
    assert(keys_of(members_view(first@)).take(first.len() as int) =~= keys_of(members_of(iv[0])));
    if headers.len() == 0 {
        return None;
    }
    let ghost hv = views(headers@);
    let mut i: usize = 0;
    while i < items.len()
        invariant
            i <= items.len(),
            iv == items_view(items@),
            hv == views(headers@),
            iv.len() > 0,
            iv[0] is Object,
            hv == keys_of(members_of(iv[0])),
            hv.len() > 0,
            forall|m: int| 0 <= m < i ==> fits_table(#[trigger] iv[m], hv),
        decreases items.len() - i,
    {
        if !fits_table_exec(&items[i], &headers) {
            assert(!fits_table(iv[i as int], hv));
            return None;
        }
        i = i + 1;
    }
    let mut rows: Vec<Vec<String>> = Vec::new();
    let ghost want = Seq::new(
        iv.len(),
        |m: int| Seq::new(hv.len(), |j: int| json_text(member(members_of(iv[m]), hv[j])->Some_0)),
    );
    let mut r: usize = 0;
    while r < items.len()
        invariant
            r <= items.len(),
            iv == items_view(items@),
            hv == views(headers@),
            want.len() == iv.len(),
            iv.len() > 0,
            iv[0] is Object,
            hv == keys_of(members_of(iv[0])),
            hv.len() > 0,
            forall|m: int| 0 <= m < iv.len() ==> fits_table(#[trigger] iv[m], hv),
            forall|m: int| 0 <= m < iv.len() ==> #[trigger] want[m] == Seq::new(hv.len(), |j: int| json_text(member(members_of(iv[m]), hv[j])->Some_0)),
            table_rows_view(rows@) == want.take(r as int),
        decreases items.len() - r,
    {
        assert(fits_table(iv[r as int], hv));
        let m = match members_exec(&items[r]) {
            Some(m) => m,
            None => {
                assert(false);
                return None;
            },
        };
        let row = table_row(m, &headers);
        assert(views(row@) =~= want[r as int]);
        let ghost before = rows@;
        rows.push(row);
        assert(table_rows_view(rows@) =~= table_rows_view(before).push(views(row@)));
        assert(want.take(r + 1) =~= want.take(r as int).push(want[r as int]));
        r = r + 1;
    }
    assert(want.take(items.len() as int) =~= want);
    let node = ContentNode::Table { headers, rows };
    assert(node_view(node) == array_table(iv)->Some_0);
    Some(node)
}

/// Appends the nodes of an array (see [`array_nodes`]).
fn push_array_nodes(items: &Vec<JsonValue>, nodes: &mut Vec<ContentNode>)
    ensures
        nodes_view(final(nodes)@) == nodes_view(old(nodes)@) + array_nodes(items_view(items@)),
{
    match try_array_as_table(items) {
        Some(t) => {
            push_node(nodes, t);
            assert(nodes_view(nodes@) =~= nodes_view(old(nodes)@) + array_nodes(items_view(items@)));
        },
        None => {
            let texts = item_texts(items);
            push_node(nodes, ContentNode::UnorderedList(texts));
            assert(nodes_view(nodes@) =~= nodes_view(old(nodes)@) + array_nodes(items_view(items@)));
        },
    }
}

fn min_level_exec(level: u8) -> (res: u8)
    ensures
        res == min_level(level),
{
    if level <= 6 {
        level
    } else {
        6
    }
}

/// `key: value` as one paragraph.
fn key_value_paragraph(key: &str, sep: &str, v: &JsonValue) -> (res: ContentNode)
    ensures
        node_view(res) == NodeView::Paragraph(key@ + sep@ + json_text(json_view(*v))),
{
    let mut s = String::new();
    push_str(&mut s, key);
    push_str(&mut s, sep);
    let t = json_value_to_string(v);
    push_str(&mut s, t.as_str());
    assert(s@ =~= key@ + sep@ + t@);
    ContentNode::Paragraph(s)
}

/// Appends the nodes of a value at a heading level (see [`value_nodes`]).
pub fn json_value_to_nodes(v: &JsonValue, level: u8, nodes: &mut Vec<ContentNode>)
    ensures
        nodes_view(final(nodes)@) == nodes_view(old(nodes)@) + value_nodes(json_view(*v), level),
    decreases v,
{
    match v {
        JsonValue::Object(members, text) => {
            proof {
                lemma_object_view(*members, *text);
            }
            let ghost mv = members_view(members@);
            let ghost start = nodes_view(nodes@);
            let lvl = min_level_exec(level);
            let mut i: usize = 0;
            assert(start =~= start + members_nodes(mv.take(0), level));
            while i < members.len()
                invariant
                    i <= members.len(),
                    *v is Object,
                    *members == v->Object_0,
                    mv == members_view(members@),
                    lvl == min_level(level),
                    nodes_view(nodes@) == start + members_nodes(mv.take(i as int), level),
                decreases members.len() - i,
            {
                let key = &members[i].0;
                let val = &members[i].1;
                assert(mv.take(i + 1).drop_last() =~= mv.take(i as int));
                assert(mv.take(i + 1).last() == (key@, json_view(*val)));
                let ghost before = nodes_view(nodes@);
                match val {
                    JsonValue::Array(items, t) => {
                        proof {
                            lemma_array_view(*items, *t);
                        }
                        push_node(nodes, ContentNode::Heading { level: lvl, text: key.clone() });
                        push_array_nodes(items, nodes);
                        assert(nodes_view(nodes@) =~= before + (seq![NodeView::Heading { level: lvl, text: key@ }] + array_nodes(items_view(items@))));
                    },
                    JsonValue::Object(m, t) => {
                        proof {
                            lemma_object_view(*m, *t);
                        }
                        push_node(nodes, ContentNode::Heading { level: lvl, text: key.clone() });
                        json_value_to_nodes(val, lvl + 1, nodes);
                        assert(nodes_view(nodes@) =~= before + (seq![NodeView::Heading { level: lvl, text: key@ }] + value_nodes(json_view(*val), (lvl + 1) as u8)));
                    },
                    _ => {
                        let p = key_value_paragraph(key.as_str(), ": ", val);
                        push_node(nodes, p);
                        assert(nodes_view(nodes@) =~= before + seq![NodeView::Paragraph(key@ + ": "@ + json_text(json_view(*val)))]);
                    },
                }
                i = i + 1;
            }
            assert(mv.take(members.len() as int) =~= mv);
        },
        JsonValue::Array(items, text) => {
            proof {
                lemma_array_view(*items, *text);
            }
            push_array_nodes(items, nodes);
        },
        _ => {
            let t = json_value_to_string(v);
            push_node(nodes, ContentNode::RawText(t));
            assert(nodes_view(nodes@) =~= nodes_view(old(nodes)@) + value_nodes(json_view(*v), level));
        },
    }
}

/// The string value of a member, when it is a string.
fn str_member_exec(members: &Vec<(String, JsonValue)>, key: &str) -> (res: Option<String>)
    ensures
        opt_str_view(res) == str_member(members_view(members@), key@),
{
    match member_exec(members, key) {
        Some(JsonValue::Str(s)) => Some(s.clone()),
        _ => None,
    }
}

/// The string value of a member of an object value.
fn str_member_of(v: &JsonValue, key: &str) -> (res: Option<String>)
    ensures
        opt_str_view(res) == str_member(members_of(json_view(*v)), key@),
{
    match members_exec(v) {
        Some(m) => str_member_exec(m, key),
        None => None,
    }
}

fn ld_title_exec(members: &Vec<(String, JsonValue)>) -> (res: Option<String>)
    ensures
        opt_str_view(res) == ld_title(members_view(members@)),
{
    match str_member_exec(members, "name") {
        Some(n) => Some(n),
        None => str_member_exec(members, "headline"),
    }
}

fn ld_author_exec(members: &Vec<(String, JsonValue)>) -> (res: Option<String>)
    ensures
        opt_str_view(res) == ld_author(members_view(members@)),
{
    match member_exec(members, "author") {
        Some(a) => match str_member_of(a, "name") {
            Some(n) => Some(n),
            None => match a {
                JsonValue::Str(s) => Some(s.clone()),
                JsonValue::Array(items, t) => {
                    proof {
                        lemma_array_view(*items, *t);
                    }
                    None
                },
                JsonValue::Object(m, t) => {
                    proof {
                        lemma_object_view(*m, *t);
                    }
                    None
                },
                _ => None,
            },
        },
        None => None,
    }
}

fn ld_image_exec(members: &Vec<(String, JsonValue)>) -> (res: Option<String>)
    ensures
        opt_str_view(res) == ld_image(members_view(members@)),
{
    match member_exec(members, "image") {
        Some(JsonValue::Str(s)) => Some(s.clone()),
        Some(i) => {
            str_member_of(i, "url")
        },
        None => None,
    }
}

/// Keys that JSON-LD reading handles itself.
fn is_ld_key(key: &str) -> (res: bool)
    ensures
        res == ld_keys().contains(key@),
{
    let keys = vec![
        "@context", "@type", "name", "headline", "description", "author", "datePublished", "url",
        "image",
    ];
    let ghost kv = keys@.map_values(|k: &str| k@);
    assert(kv =~= ld_keys());
    let mut k: usize = 0;
    while k < keys.len()
        invariant
            k <= keys.len(),
            kv == keys@.map_values(|k: &str| k@),
            kv == ld_keys(),
            forall|j: int| 0 <= j < k ==> kv[j] != key@,
        decreases keys.len() - k,
    {
        if eq_str(keys[k], key) {
            assert(kv[k as int] == key@);
            assert(ld_keys()[k as int] == key@);
            return true;
        }
        k = k + 1;
    }
    false
}

/// Appends the nodes of the members that JSON-LD reading leaves over (see
/// [`ld_rest_nodes`]).
fn push_ld_rest(members: &Vec<(String, JsonValue)>, nodes: &mut Vec<ContentNode>)
    ensures
        nodes_view(final(nodes)@) == nodes_view(old(nodes)@) + ld_rest_nodes(members_view(members@)),
{
    let ghost mv = members_view(members@);
    let ghost start = nodes_view(nodes@);
    assert(start =~= start + ld_rest_nodes(mv.take(0)));
    let mut i: usize = 0;
    while i < members.len()
        invariant
            i <= members.len(),
            mv == members_view(members@),
            nodes_view(nodes@) == start + ld_rest_nodes(mv.take(i as int)),
        decreases members.len() - i,
    {
        let key = &members[i].0;
        let val = &members[i].1;
        assert(mv.take(i + 1).drop_last() =~= mv.take(i as int));
        assert(mv.take(i + 1).last() == (key@, json_view(*val)));
        let ghost before = nodes_view(nodes@);
        if is_ld_key(key.as_str()) {
            assert(nodes_view(nodes@) =~= before + Seq::<NodeView>::empty());
        } else {
            match val {
                JsonValue::Null => {
                    assert(nodes_view(nodes@) =~= before + Seq::<NodeView>::empty());
                },
                JsonValue::Array(items, t) => {
                    proof {
                        lemma_array_view(*items, *t);
                    }
                    let mut head = key.clone();
                    push_str(&mut head, ":");
                    push_node(nodes, ContentNode::Paragraph(head));
                    let texts = item_texts(items);
                    push_node(nodes, ContentNode::UnorderedList(texts));
                    assert(nodes_view(nodes@) =~= before + seq![
                        NodeView::Paragraph(key@ + ":"@),
                        NodeView::UnorderedList(items_view(items@).map_values(|x: JsonView| json_text(x))),
                    ]);
                },
                JsonValue::Object(m, t) => {
                    proof {
                        lemma_object_view(*m, *t);
                    }
                    push_node(nodes, ContentNode::Heading { level: 2, text: key.clone() });
                    json_value_to_nodes(val, 3, nodes);
                    assert(nodes_view(nodes@) =~= before + (seq![NodeView::Heading { level: 2, text: key@ }] + value_nodes(json_view(*val), 3)));
                },
                _ => {
                    let p = key_value_paragraph(key.as_str(), ": ", val);
                    push_node(nodes, p);
                    assert(nodes_view(nodes@) =~= before + seq![NodeView::Paragraph(key@ + ": "@ + json_text(json_view(*val)))]);
                },
            }
        }
        i = i + 1;
    }
    assert(mv.take(members.len() as int) =~= mv);
}

/// Reads a JSON-LD object into metadata and nodes (see [`ld_meta`] and
/// [`ld_nodes`]); a value that is not an object changes nothing.
pub fn extract_json_ld(value: &JsonValue, metadata: &mut PageMetadata, nodes: &mut Vec<ContentNode>)
    ensures
        value matches JsonValue::Object(..) ==> meta_view(*final(metadata)) == ld_meta(meta_view(*old(metadata)), members_of(json_view(*value))),
        value matches JsonValue::Object(..) ==> nodes_view(final(nodes)@) == nodes_view(old(nodes)@) + ld_nodes(members_of(json_view(*value))),
        !(value matches JsonValue::Object(..)) ==> *final(metadata) == *old(metadata) && final(nodes)@ == old(nodes)@,
{
    let members = match value {
        JsonValue::Object(m, t) => {
            proof {
                lemma_object_view(*m, *t);
            }
            m
        },
        _ => return,
    };
    let ghost mv = members_view(members@);
    let ghost start = nodes_view(nodes@);
    let title = ld_title_exec(members);
    match &title {
        Some(t) => {
            metadata.title = Some(t.clone());
            push_node(nodes, ContentNode::Heading { level: 1, text: t.clone() });
        },
        None => {},
    }
    let desc = str_member_exec(members, "description");
    match &desc {
        Some(d) => {
            metadata.description = Some(d.clone());
            push_node(nodes, ContentNode::Paragraph(d.clone()));
        },
        None => {},
    }
    let author = ld_author_exec(members);
    if author.is_some() {
        metadata.author = author;
    }
    let date = str_member_exec(members, "datePublished");
    if date.is_some() {
        metadata.published_date = date;
    }
    let image = ld_image_exec(members);
    match &image {
        Some(u) => {
            metadata.og_image = Some(u.clone());
            push_node(nodes, ContentNode::Image { alt: String::new(), src: u.clone() });
        },
        None => {},
    }
    let url = str_member_exec(members, "url");
    if url.is_some() {
        metadata.canonical_url = url;
    }
    assert(nodes_view(nodes@) =~= start + opt_node(ld_title(mv), |t: Seq<char>| NodeView::Heading { level: 1, text: t })
        + opt_node(str_member(mv, "description"@), |t: Seq<char>| NodeView::Paragraph(t))
        + opt_node(ld_image(mv), |t: Seq<char>| NodeView::Image { alt: Seq::empty(), src: t }));
    push_ld_rest(members, nodes);
    assert(nodes_view(nodes@) =~= start + ld_nodes(mv));
}

/// Whether an object has a member with this key.
fn has_member(members: &Vec<(String, JsonValue)>, key: &str) -> (res: bool)
    ensures
        res == member(members_view(members@), key@) is Some,
{
    member_exec(members, key).is_some()
}

/// The document of a parsed JSON value (see [`is_json_document`]).
pub fn json_document(value: &JsonValue) -> (res: ParsedDocument)
    ensures
        is_json_document(res, json_view(*value)),
{
    let mut nodes: Vec<ContentNode> = Vec::new();
    let mut metadata = PageMetadata::empty();
    assert(views(metadata.keywords@) =~= Seq::<Seq<char>>::empty());
    assert(nodes_view(nodes@) =~= Seq::<NodeView>::empty());
    let ld = match members_exec(value) {
        Some(m) => has_member(m, "@context") || has_member(m, "@type"),
        None => false,
    };
    if ld {
        extract_json_ld(value, &mut metadata, &mut nodes);
    } else {
        json_value_to_nodes(value, 1, &mut nodes);
    }
    ParsedDocument { metadata, content_nodes: nodes, content_type: ContentType::Json }
}

/// The result of parsing JSON text: the document of the value, or a parse
/// error `JSON parse error: <message>`.
pub open spec fn json_parse_result(res: Result<ParsedDocument, RehykeError>, parsed: Result<JsonView, Seq<char>>) -> bool {
    match parsed {
        Ok(v) => res is Ok && is_json_document(res->Ok_0, v),
        Err(m) => res is Err && is_parse_error(res->Err_0, "JSON parse error: "@ + m),
    }
}

/// Parse JSON content (see [`json_parse_result`]).
pub fn parse_json(json: &str) -> (res: Result<ParsedDocument, RehykeError>)
    ensures
        json_parse_result(res, json_parsed(json@)),
{
    match parse_json_text(json) {
        Ok(v) => Ok(json_document(&v)),
        Err(e) => {
            let mut message = String::new();
            push_str(&mut message, "JSON parse error: ");
            push_str(&mut message, e.as_str());
            proof {
                reveal_strlit("");
            }
            Err(RehykeError::ParseError { url: String::new(), message })
        },
    }
}

} // verus!
