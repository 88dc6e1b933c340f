//! XML documents: what `quick_xml` reads, event by event, as plain values.

use quick_xml::events::Event;
use vstd::prelude::*;

verus! {

/// What a document holds at one place.
#[derive(Debug)]
pub enum XmlEvent {
    /// An opening tag: its name and its attributes.
    Start(String, Vec<(String, String)>),
    /// Text between tags.
    Text(String),
    /// A closing tag: its name.
    End(String),
    /// Anything else: an element without content, a comment, a declaration.
    Other,
}

/// The content of an event.
pub enum XmlEventView {
    Start(Seq<char>, Seq<(Seq<char>, Seq<char>)>),
    Text(Seq<char>),
    End(Seq<char>),
    Other,
}

impl View for XmlEvent {
    type V = XmlEventView;

    open spec fn view(&self) -> XmlEventView {
        match self {
            XmlEvent::Start(name, attributes) => XmlEventView::Start(
                name@,
                attributes@.map_values(|a: (String, String)| (a.0@, a.1@)),
            ),
            XmlEvent::Text(text) => XmlEventView::Text(text@),
            XmlEvent::End(name) => XmlEventView::End(name@),
            XmlEvent::Other => XmlEventView::Other,
        }
    }
}

/// The reader of `quick_xml`.
#[verifier::external_type_specification]
#[verifier::external_body]
#[verifier::reject_recursive_types(R)]
pub struct ExReader<R>(quick_xml::Reader<R>);

/// Why `quick_xml` cannot go on with a document.
#[verifier::external_type_specification]
#[verifier::external_body]
pub struct ExXmlError(quick_xml::Error);

/// What a document holds up to its end, or up to the first error in it.
pub struct XmlDocument {
    pub events: Seq<XmlEventView>,
    /// Whether the end was reached.
    pub whole: bool,
}

/// What a reader of `quick_xml` that trims text yields for a document.
pub uninterp spec fn xml_document(bytes: Seq<u8>) -> XmlDocument;

/// What a reader has yet to yield.
pub uninterp spec fn unread(reader: quick_xml::Reader<&[u8]>) -> XmlDocument;

/// `Reader::from_reader` on a slice, with text trimmed at both ends. The
/// contract claims that the reader yields the document from its start.
#[verifier::external_body]
pub(crate) fn open_xml<'a>(bytes: &'a [u8]) -> (r: quick_xml::Reader<&'a [u8]>)
    ensures
        unread(r) == xml_document(bytes@),
{
    let mut reader = quick_xml::Reader::from_reader(bytes);
    reader.config_mut().trim_text(true);
    reader
}

/// `Reader::read_event`. The contract claims that it takes the next event out
/// of what the reader has yet to yield, and that once nothing is left it tells
/// the end of the document or the error that stops it. Names and attribute
/// values are decoded as UTF-8 with replacement, an attribute that cannot be
/// read is left out, and text that cannot be unescaped is empty.
#[verifier::external_body]
pub(crate) fn next_event(reader: &mut quick_xml::Reader<&[u8]>) -> (r: Result<
    Option<XmlEvent>,
    quick_xml::Error,
>)
    ensures
        match r {
            Ok(Some(event)) => {
                &&& unread(*old(reader)).events.len() > 0
                &&& event@ == unread(*old(reader)).events[0]
                &&& unread(*final(reader)).events == unread(*old(reader)).events.skip(1)
                &&& unread(*final(reader)).whole == unread(*old(reader)).whole
            },
            Ok(None) => unread(*old(reader)).events.len() == 0 && unread(*old(reader)).whole,
            Err(_) => unread(*old(reader)).events.len() == 0 && !unread(*old(reader)).whole,
        },
{
    let text = |b: &[u8]| String::from_utf8_lossy(b).into_owned();
    Ok(match reader.read_event()? {
        Event::Start(e) => {
            let pairs = e.attributes().with_checks(false).flatten().map(|a| (text(a.key.as_ref()), text(&a.value))).collect();
            Some(XmlEvent::Start(text(e.name().as_ref()), pairs))
        },
        Event::Text(t) => Some(XmlEvent::Text(t.unescape().map(|s| s.into_owned()).unwrap_or_default())),
        Event::End(e) => Some(XmlEvent::End(text(e.name().as_ref()))),
        Event::Eof => None,
        _ => Some(XmlEvent::Other),
    })
}

} // verus!
