//! The boundary with `quick_xml`: its reader, its events and its writer, each
//! described by what the rest of the crate may rely on.

use crate::attribute::{items_view, Attribute, AttributeItem, Pair};
use quick_xml::events::attributes::Attribute as XmlAttribute;
use quick_xml::events::{BytesText, Event};
use quick_xml::{Reader, Writer};
use vstd::prelude::*;
use vstd::utf8::encode_utf8;

verus! {

/// `quick_xml::Reader`: a stream of events over an input.
#[verifier::external_type_specification]
#[verifier::external_body]
#[verifier::reject_recursive_types(R)]
pub struct ExReader<R>(Reader<R>);

/// `quick_xml::Writer`: a sink of events over an output.
#[verifier::external_type_specification]
#[verifier::external_body]
#[verifier::reject_recursive_types(W)]
pub struct ExWriter<W>(Writer<W>);

/// `quick_xml::events::Event`: a kind and the bytes of its content.
#[verifier::external_type_specification]
#[verifier::external_body]
pub struct ExEvent<'a>(Event<'a>);

/// `std::io::Error`: what a writer reports when a write fails.
#[verifier::external_type_specification]
#[verifier::external_body]
pub struct ExIoError(std::io::Error);

/// The lexical kinds of event that a document is made of, and the mark of
/// its end.
#[derive(Clone, Copy, Debug, PartialEq, Eq, Structural)]
pub enum EventKind {
    /// An opening tag: its name and its attributes.
    Start,
    /// A closing tag: its name.
    End,
    /// A self-closing tag: its name and its attributes.
    Empty,
    /// Character data, escaped as it stood in the document.
    Text,
    /// A `CDATA` section.
    CData,
    /// A comment.
    Comment,
    /// The XML declaration.
    Decl,
    /// A processing instruction.
    PI,
    /// A document type declaration.
    DocType,
    /// The end of the document, which holds nothing.
    Eof,
}

/// What the crate reads of an event.
pub struct EventModel {
    /// The event's variant.
    pub kind: EventKind,
    /// The tag name, of an element.
    pub name: Seq<u8>,
    /// The bytes between the event's delimiters.
    pub content: Seq<u8>,
    /// The items that walking the attributes gives, of an element.
    pub attributes: Seq<Option<Pair>>,
}

/// The variant of an event.
pub uninterp spec fn event_kind(event: Event) -> EventKind;

/// The bytes that an event holds: those between its delimiters.
pub uninterp spec fn event_content(event: Event) -> Seq<u8>;

/// The tag name of a `Start` or `Empty` event.
pub uninterp spec fn event_name(event: Event) -> Seq<u8>;

/// The items that a walk through the attributes of a `Start` or `Empty`
/// event yields when keys are not held to be unique: each attribute, however
/// often its key stands, and `None` where the text is no attribute.
pub uninterp spec fn event_attributes(event: Event) -> Seq<Option<Pair>>;

/// An event as the crate reads it.
pub open spec fn model(event: Event) -> EventModel {
    EventModel {
        kind: event_kind(event),
        name: event_name(event),
        content: event_content(event),
        attributes: event_attributes(event),
    }
}

/// The events that a reader will still yield before its input ends or a read
/// fails.
pub uninterp spec fn pending(reader: Reader<&[u8]>) -> Seq<EventModel>;

/// The events that a fresh reader over `input` yields before the input ends
/// or a read fails.
pub uninterp spec fn xml_events(input: Seq<u8>) -> Seq<EventModel>;

/// The bytes that a writer has taken so far.
pub uninterp spec fn written(writer: Writer<Vec<u8>>) -> Seq<u8>;

/// The outcome of one read.
pub(crate) enum Read {
    /// The next event of the document.
    Event(Event<'static>),
    /// The input has ended.
    Eof,
    /// What stands next in the input is no event.
    Failed,
}

/// `quick_xml::Reader::from_reader` on a byte slice. Trusted: the reader's
/// events are those of the input.
#[verifier::external_body]
pub(crate) fn open_reader<'a>(input: &'a [u8]) -> (reader: Reader<&'a [u8]>)
    ensures
        pending(reader) == xml_events(input@),
{
    Reader::from_reader(input)
}

/// `quick_xml::Reader::read_event`. Trusted: an event that is returned is the
/// first of those pending and leaves the rest pending; the end of input and a
/// failed read come only when none is pending.
#[verifier::external_body]
pub(crate) fn read_event(reader: &mut Reader<&[u8]>) -> (read: Read)
    ensures
        match read {
            Read::Event(event) => pending(*old(reader)).len() > 0 && model(event) == pending(
                *old(reader),
            )[0] && pending(*final(reader)) == pending(*old(reader)).skip(1),
            Read::Eof => pending(*old(reader)).len() == 0,
            Read::Failed => pending(*old(reader)).len() == 0,
        },
{
    match reader.read_event() {
        Ok(Event::Eof) => Read::Eof,
        Ok(event) => Read::Event(event.into_owned()),
        Err(_) => Read::Failed,
    }
}

/// The variant of a `quick_xml::events::Event`. Trusted: the kind that is
/// returned is the event's.
#[verifier::external_body]
pub(crate) fn kind_of(event: &Event<'static>) -> (kind: EventKind)
    ensures
        kind == event_kind(*event),
{
    match event {
        Event::Start(_) => EventKind::Start,
        Event::End(_) => EventKind::End,
        Event::Empty(_) => EventKind::Empty,
        Event::Text(_) => EventKind::Text,
        Event::CData(_) => EventKind::CData,
        Event::Comment(_) => EventKind::Comment,
        Event::Decl(_) => EventKind::Decl,
        Event::PI(_) => EventKind::PI,
        Event::DocType(_) => EventKind::DocType,
        Event::Eof => EventKind::Eof,
    }
}

/// `Deref` of a `quick_xml::events::Event`, which gives the bytes between
/// the event's delimiters. Trusted: the bytes returned are the event's
/// content.
#[verifier::external_body]
pub(crate) fn content_of(event: &Event<'static>) -> (content: Vec<u8>)
    ensures
        content@ == event_content(*event),
{
    event.to_vec()
}

/// `quick_xml::events::BytesStart::name`. Trusted: the bytes returned are the
/// element's tag name.
#[verifier::external_body]
pub(crate) fn element_name(event: &Event<'static>) -> (name: Vec<u8>)
    requires
        event_kind(*event) == EventKind::Start || event_kind(*event) == EventKind::Empty,
    ensures
        name@ == event_name(*event),
{
    match event {
        Event::Start(e) | Event::Empty(e) => e.name().as_ref().to_vec(),
        _ => Vec::new(),
    }
}

/// `quick_xml::events::BytesStart::attributes`, walked to its end with
/// `Attributes::with_checks(false)`, so that a key that stands twice is no
/// error. Trusted: the items returned are those that the walk yields, in its
/// order, an item that the walk reports as an error standing as `None`.
#[verifier::external_body]
pub(crate) fn element_attributes(event: &Event<'static>) -> (items: Vec<AttributeItem>)
    requires
        event_kind(*event) == EventKind::Start || event_kind(*event) == EventKind::Empty,
    ensures
        items_view(items@) == event_attributes(*event),
{
    match event {
        Event::Start(e) | Event::Empty(e) => e.attributes().with_checks(false).map(
            |item| item.ok().map(|a| Attribute { key: a.key.as_ref().to_vec(), value: a.value.to_vec() }),
        ).collect(),
        _ => Vec::new(),
    }
}

/// `quick_xml::events::BytesStart::clear_attributes`. Trusted: the element
/// keeps its kind and its name, and its content becomes the name alone.
#[verifier::external_body]
pub(crate) fn clear_attributes(event: &mut Event<'static>)
    requires
        event_kind(*old(event)) == EventKind::Start || event_kind(*old(event)) == EventKind::Empty,
    ensures
        event_kind(*final(event)) == event_kind(*old(event)),
        event_name(*final(event)) == event_name(*old(event)),
        event_content(*final(event)) == event_name(*old(event)),
{
    if let Event::Start(e) | Event::Empty(e) = event {
        e.clear_attributes();
    }
}

/// The bytes that one attribute adds to an element's content: a space, the
/// key, an equals sign, and the value between double quotes.
pub open spec fn attribute_bytes(key: Seq<u8>, value: Seq<u8>) -> Seq<u8> {
    encode_utf8(" "@) + key + encode_utf8("=\""@) + value + encode_utf8("\""@)
}

/// `quick_xml::events::BytesStart::push_attribute` with a pair of byte
/// slices, which are taken as they are. Trusted: the element keeps its kind
/// and its name, and its content grows by the attribute's bytes.
#[verifier::external_body]
pub(crate) fn push_attribute(event: &mut Event<'static>, key: &[u8], value: &[u8])
    requires
        event_kind(*old(event)) == EventKind::Start || event_kind(*old(event)) == EventKind::Empty,
    ensures
        event_kind(*final(event)) == event_kind(*old(event)),
        event_name(*final(event)) == event_name(*old(event)),
        event_content(*final(event)) == event_content(*old(event)) + attribute_bytes(key@, value@),
{
    if let Event::Start(e) | Event::Empty(e) = event {
        e.push_attribute(XmlAttribute::from((key, value)));
    }
}

/// What unescaping makes of a text event's content: the text with its
/// entities and character references resolved, or `None` where the content
/// is no UTF-8 or holds a reference that cannot be resolved.
pub uninterp spec fn xml_unescaped(content: Seq<u8>) -> Option<Seq<char>>;

/// `quick_xml::events::BytesText::unescape`. Trusted: the result is a
/// function of the event's content.
#[verifier::external_body]
pub(crate) fn unescape_text(event: &Event<'static>) -> (text: Option<String>)
    requires
        event_kind(*event) == EventKind::Text,
    ensures
        match text {
            Some(s) => xml_unescaped(event_content(*event)) == Some(s@),
            None => xml_unescaped(event_content(*event)).is_none(),
        },
{
    match event {
        Event::Text(e) => e.unescape().ok().map(|s| s.into_owned()),
        _ => None,
    }
}

/// `quick_xml::events::BytesText::from_escaped`. Trusted: the event is a text
/// event whose content is the string's bytes.
#[verifier::external_body]
pub(crate) fn text_event(text: String) -> (event: Event<'static>)
    ensures
        event_kind(event) == EventKind::Text,
        event_content(event) == encode_utf8(text@),
{
    Event::Text(BytesText::from_escaped(text))
}

/// The bytes that stand before an event's content in a document.
pub open spec fn opening(kind: EventKind) -> Seq<u8> {
    match kind {
        EventKind::Start | EventKind::Empty => encode_utf8("<"@),
        EventKind::End => encode_utf8("</"@),
        EventKind::CData => encode_utf8("<![CDATA["@),
        EventKind::Comment => encode_utf8("<!--"@),
        EventKind::Decl | EventKind::PI => encode_utf8("<?"@),
        EventKind::DocType => encode_utf8("<!DOCTYPE "@),
        EventKind::Text | EventKind::Eof => Seq::empty(),
    }
}

/// The bytes that stand behind an event's content in a document.
pub open spec fn closing(kind: EventKind) -> Seq<u8> {
    match kind {
        EventKind::Start | EventKind::End | EventKind::DocType => encode_utf8(">"@),
        EventKind::Empty => encode_utf8("/>"@),
        EventKind::CData => encode_utf8("]]>"@),
        EventKind::Comment => encode_utf8("-->"@),
        EventKind::Decl | EventKind::PI => encode_utf8("?>"@),
        EventKind::Text | EventKind::Eof => Seq::empty(),
    }
}

/// An event as it is written: its content between its delimiters.
pub open spec fn event_bytes(kind: EventKind, content: Seq<u8>) -> Seq<u8> {
    opening(kind) + content + closing(kind)
}

/// `quick_xml::Writer::new` over an empty vector. Trusted: nothing is written
/// yet.
#[verifier::external_body]
pub(crate) fn new_writer() -> (writer: Writer<Vec<u8>>)
    ensures
        written(writer) == Seq::<u8>::empty(),
{
    Writer::new(Vec::new())
}

/// `quick_xml::Writer::write_event` on a writer without indentation over a
/// vector. Trusted: the event's content between the delimiters of its kind
/// is added behind what was written before, the end mark adding nothing; and
/// the result is `Ok`, since the writer fails only where a write to what it
/// writes to fails, and a write to a vector appends to it.
#[verifier::external_body]
pub(crate) fn write_event(writer: &mut Writer<Vec<u8>>, event: &Event<'static>) -> (result: Result<
    (),
    std::io::Error,
>)
    ensures
        result is Ok,
        written(*final(writer)) == written(*old(writer)) + event_bytes(
            event_kind(*event),
            event_content(*event),
        ),
{
    writer.write_event(event.borrow())
}

/// `quick_xml::Writer::into_inner`. Trusted: the vector holds what was
/// written.
#[verifier::external_body]
pub(crate) fn into_bytes(writer: Writer<Vec<u8>>) -> (bytes: Vec<u8>)
    ensures
        bytes@ == written(writer),
{
    writer.into_inner()
}

} // verus!
