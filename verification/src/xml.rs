//! XML as a stream of events, read with the `quick-xml` crate.
//!
//! The reader itself is the outside crate's; each event it yields is turned
//! into an [`XmlEvent`] of plain values, which the feed, sitemap and link
//! readers of this library consume.

use vstd::prelude::*;

use quick_xml::events::{BytesStart, Event};
use quick_xml::Reader;

verus! {

/// One event of an XML document.
#[derive(Debug, Clone)]
pub enum XmlEvent {
    /// An opening tag: its qualified name and its attributes (qualified name
    /// and raw value).
    Start(String, Vec<(String, String)>),
    /// A self-closing tag, as `Start`.
    Empty(String, Vec<(String, String)>),
    /// A closing tag and its qualified name.
    End(String),
    /// Character data with entities resolved (empty when they cannot be).
    Text(String),
    /// The content of a CDATA section.
    CData(String),
    /// Anything else (comments, declarations, processing instructions).
    Other,
    /// The end of the document.
    Eof,
    /// A syntax error, with its message.
    Error(String),
}

/// The mathematical value of an [`XmlEvent`].
pub ghost enum XmlEventView {
    Start(Seq<char>, Seq<(Seq<char>, Seq<char>)>),
    Empty(Seq<char>, Seq<(Seq<char>, Seq<char>)>),
    End(Seq<char>),
    Text(Seq<char>),
    CData(Seq<char>),
    Other,
    Eof,
    Error(Seq<char>),
}

pub open spec fn attrs_view(attrs: Seq<(String, String)>) -> Seq<(Seq<char>, Seq<char>)> {
    attrs.map_values(|a: (String, String)| (a.0@, a.1@))
}

impl View for XmlEvent {
    type V = XmlEventView;

    open spec fn view(&self) -> XmlEventView {
        match self {
            XmlEvent::Start(n, a) => XmlEventView::Start(n@, attrs_view(a@)),
            XmlEvent::Empty(n, a) => XmlEventView::Empty(n@, attrs_view(a@)),
            XmlEvent::End(n) => XmlEventView::End(n@),
            XmlEvent::Text(t) => XmlEventView::Text(t@),
            XmlEvent::CData(t) => XmlEventView::CData(t@),
            XmlEvent::Other => XmlEventView::Other,
            XmlEvent::Eof => XmlEventView::Eof,
            XmlEvent::Error(m) => XmlEventView::Error(m@),
        }
    }
}

pub open spec fn event_views(events: Seq<XmlEvent>) -> Seq<XmlEventView> {
    events.map_values(|e: XmlEvent| e@)
}

/// The event ends the stream.
pub open spec fn is_final(e: XmlEvent) -> bool {
    e is Eof || e is Error
}

/// The event ends the stream.
pub open spec fn is_final_view(e: XmlEventView) -> bool {
    e is Eof || e is Error
}

/// A complete stream: at least one event, and none but the last one an
/// `Eof` or `Error`.
pub open spec fn well_formed_stream(events: Seq<XmlEvent>) -> bool {
    &&& events.len() >= 1
    &&& forall|i: int| 0 <= i < events.len() - 1 ==> !is_final(#[trigger] events[i])
}

/// A stream read to its end: at least one event, the last an `Eof` or
/// `Error`, none before it.
pub open spec fn complete_stream(s: Seq<XmlEventView>) -> bool {
    &&& s.len() >= 1
    &&& is_final_view(s.last())
    &&& forall|i: int| 0 <= i < s.len() - 1 ==> !is_final_view(#[trigger] s[i])
}

#[verifier::external_type_specification]
#[verifier::external_body]
#[verifier::reject_recursive_types(R)]
pub struct ExXmlReader<R>(Reader<R>);

#[verifier::external_type_specification]
#[verifier::external_body]
pub struct ExBytesStart<'a>(BytesStart<'a>);

/// The events `quick-xml` reads from `xml` (with whitespace around text
/// trimmed, and whitespace-only text dropped, when `trim_text` is set), each
/// taken apart as [`next_xml_event`] says, up to and including the first
/// `Eof` or `Error`.
pub uninterp spec fn xml_stream(xml: Seq<char>, trim_text: bool) -> Seq<XmlEventView>;

/// The events a reader has yet to give, up to and including the first `Eof`
/// or `Error`.
pub uninterp spec fn pending_events(reader: Reader<&[u8]>) -> Seq<XmlEventView>;

/// `quick_xml::Reader::from_str`, then `Config::trim_text` as asked: a reader
/// whose events are those of [`xml_stream`]. Reading finite text ends with
/// an `Eof` (or an `Error`).
#[verifier::external_body]
fn xml_reader<'a>(xml: &'a str, trim_text: bool) -> (res: Reader<&'a [u8]>)
    ensures
        pending_events(res) == xml_stream(xml@, trim_text),
        complete_stream(pending_events(res)),
{
    let mut reader = Reader::from_str(xml);
    reader.config_mut().trim_text(trim_text);
    reader
}

/// `BytesStart::name`, read as UTF-8 with invalid bytes replaced. Its
/// result is part of the event that [`next_xml_event`] gives.
#[verifier::external_body]
fn tag_name(e: &BytesStart) -> (res: String) {
    String::from_utf8_lossy(e.name().as_ref()).into_owned()
}

/// `BytesStart::attributes`, skipping malformed ones; each key and raw
/// value read as UTF-8 with invalid bytes replaced. Its result is part of
/// the event that [`next_xml_event`] gives.
#[verifier::external_body]
fn tag_attributes(e: &BytesStart) -> (res: Vec<(String, String)>) {
    e.attributes().flatten().map(
        |a| (String::from_utf8_lossy(a.key.as_ref()).into_owned(), String::from_utf8_lossy(&a.value).into_owned()),
    ).collect()
}

/// `quick_xml::Reader::read_event`: the reader's next event, taken apart
/// into an [`XmlEvent`] (names and attributes as UTF-8 with invalid bytes
/// replaced, text unescaped with `BytesText::unescape`, an unescaping
/// failure giving empty text, the error's message for an error). While
/// events are pending, it is the first of them, and the rest remain.
#[verifier::external_body]
fn next_xml_event(reader: &mut Reader<&[u8]>) -> (res: XmlEvent)
    ensures
        pending_events(*old(reader)).len() > 0 ==> res@ == pending_events(*old(reader))[0]
            && pending_events(*final(reader)) == pending_events(*old(reader)).drop_first(),
{
    match reader.read_event() {
        Ok(Event::Start(e)) => XmlEvent::Start(tag_name(&e), tag_attributes(&e)),
        Ok(Event::Empty(e)) => XmlEvent::Empty(tag_name(&e), tag_attributes(&e)),
        Ok(Event::End(e)) => XmlEvent::End(String::from_utf8_lossy(e.name().as_ref()).into_owned()),
        Ok(Event::Text(e)) => XmlEvent::Text(e.unescape().unwrap_or_default().into_owned()),
        Ok(Event::CData(e)) => XmlEvent::CData(String::from_utf8_lossy(&e).into_owned()),
        Ok(Event::Eof) => XmlEvent::Eof,
        Ok(_) => XmlEvent::Other,
        Err(e) => XmlEvent::Error(e.to_string()),
    }
}

/// The events of `xml` in document order, ending with `Eof` or the first
/// `Error` (see [`xml_stream`]).
pub fn xml_events(xml: &str, trim_text: bool) -> (res: Vec<XmlEvent>)
    ensures
        well_formed_stream(res@),
        event_views(res@) == xml_stream(xml@, trim_text),
{
    let mut reader = xml_reader(xml, trim_text);
    let ghost stream = xml_stream(xml@, trim_text);
    let mut out: Vec<XmlEvent> = Vec::new();
    loop
        invariant
            stream == xml_stream(xml@, trim_text),
            complete_stream(pending_events(reader)),
            event_views(out@) + pending_events(reader) == stream,
            forall|i: int| 0 <= i < out@.len() ==> !is_final(#[trigger] out@[i]),
        decreases pending_events(reader).len(),
    {
        let ghost before = pending_events(reader);
        let ghost seen = out@;
        let ev = next_xml_event(&mut reader);
        let stop = match ev {
            XmlEvent::Eof => true,
            XmlEvent::Error(_) => true,
            _ => false,
        };
        out.push(ev);
        assert(event_views(out@) =~= event_views(seen).push(ev@));
        assert(event_views(out@) + pending_events(reader) =~= event_views(seen) + before);
        if stop {
            assert(before.len() == 1) by {
                if before.len() > 1 {
                    assert(!is_final_view(before[0]));
                }
            }
            assert(pending_events(reader).len() == 0);
            assert(event_views(out@) =~= stream);
            return out;
        }
        assert(!is_final_view(before[0]));
    }
}

} // verus!
