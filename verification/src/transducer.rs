//! The three transducers: each reads a document event by event, rewrites the
//! elements and the text that it is about, and writes every event back.

use crate::attribute::{
    attributes_view, items_view, pad_attributes, padded, replace_attribute, replaced,
    resize_attributes, resized, well_formed, Attribute, AttributeItem, Pair,
};
use crate::css::{declaration_rewritten, rewrite_declaration};
use crate::property::{root_tag, Property};
use crate::search::{bytes_equal, contains, mentions};
use crate::xml::{
    attribute_bytes, clear_attributes, content_of, element_attributes, element_name, event_bytes,
    event_content, event_kind, event_name, into_bytes, kind_of, model, new_writer, open_reader,
    pending, push_attribute, read_event, text_event, unescape_text, write_event, written,
    xml_events, xml_unescaped, EventKind, EventModel, Read,
};
use quick_xml::events::Event;
use vstd::prelude::*;
use vstd::utf8::*;

verus! {

/// Which of the three values a pass sets.
#[derive(Clone, Copy, Debug, PartialEq, Eq, Structural)]
pub enum Transducer {
    /// `width` and `height` of the root element, and both declarations.
    Size,
    /// `stroke-width` of every element, and its declarations.
    StrokeWidth,
    /// `stroke` of every element, and its declarations.
    Colour,
}

/// The bytes that a list of attributes adds to an element's name.
pub open spec fn rendered(pairs: Seq<Pair>) -> Seq<u8>
    decreases pairs.len(),
{
    if pairs.len() == 0 {
        Seq::empty()
    } else {
        rendered(pairs.drop_last()) + attribute_bytes(pairs.last().0, pairs.last().1)
    }
}

/// The text that unescaping gives, and the empty text where it gives none.
pub open spec fn unescaped_or_empty(content: Seq<u8>) -> Seq<char> {
    match xml_unescaped(content) {
        Some(text) => text,
        None => Seq::empty(),
    }
}

impl Transducer {
    /// Whether the pass rewrites the attributes of an element of this name:
    /// the size pass only those of the root element, the others those of
    /// every element.
    pub open spec fn element_targeted(self, name: Seq<u8>) -> bool {
        self == Transducer::Size ==> name == root_tag()
    }

    /// The attributes that the pass gives an element in place of `pairs`.
    pub open spec fn attributes_after(
        self,
        self_closing: bool,
        pairs: Seq<Pair>,
        value: Seq<u8>,
    ) -> Seq<Pair> {
        match self {
            Transducer::Size => if self_closing {
                resized(pairs, value)
            } else {
                padded(pairs, value)
            },
            Transducer::StrokeWidth => replaced(pairs, Property::StrokeWidth.key(), value),
            Transducer::Colour => replaced(pairs, Property::Stroke.key(), value),
        }
    }

    /// Whether the pass rewrites a text of this content: only one that holds
    /// the name of a property that the pass sets.
    pub open spec fn text_targeted(self, content: Seq<u8>) -> bool {
        match self {
            Transducer::Size => mentions(content, Property::Width.key()) || mentions(
                content,
                Property::Height.key(),
            ),
            Transducer::StrokeWidth => mentions(content, Property::StrokeWidth.key()),
            Transducer::Colour => mentions(content, Property::Stroke.key()),
        }
    }

    /// The text that the pass makes of an unescaped text.
    pub open spec fn text_after(self, text: Seq<char>, value: Seq<char>) -> Seq<char> {
        match self {
            Transducer::Size => declaration_rewritten(
                declaration_rewritten(text, Property::Width.spec_name(), value),
                Property::Height.spec_name(),
                value,
            ),
            Transducer::StrokeWidth => declaration_rewritten(
                text,
                Property::StrokeWidth.spec_name(),
                value,
            ),
            Transducer::Colour => declaration_rewritten(text, Property::Stroke.spec_name(), value),
        }
    }

    /// The content of the event that the pass writes for `event`. The kind
    /// of the event stays.
    pub open spec fn content_after(self, event: EventModel, value: Seq<char>) -> Seq<u8> {
        match event.kind {
            EventKind::Start | EventKind::Empty => if self.element_targeted(event.name) {
                event.name + rendered(
                    self.attributes_after(
                        event.kind == EventKind::Empty,
                        well_formed(event.attributes),
                        encode_utf8(value),
                    ),
                )
            } else {
                event.content
            },
            EventKind::Text => if self.text_targeted(event.content) {
                encode_utf8(self.text_after(unescaped_or_empty(event.content), value))
            } else {
                event.content
            },
            _ => event.content,
        }
    }

    /// The bytes that the pass writes for a sequence of events.
    pub open spec fn document(self, events: Seq<EventModel>, value: Seq<char>) -> Seq<u8>
        decreases events.len(),
    {
        if events.len() == 0 {
            Seq::empty()
        } else {
            self.document(events.drop_last(), value) + event_bytes(
                events.last().kind,
                self.content_after(events.last(), value),
            )
        }
    }

    /// Whether the pass rewrites the attributes of an element named `name`.
    pub fn targets_element(self, name: &[u8]) -> (targeted: bool)
        ensures
            targeted == self.element_targeted(name@),
    {
        match self {
            Transducer::Size => bytes_equal(name, "svg".as_bytes()),
            _ => true,
        }
    }

    /// The attributes that the pass gives an element whose attribute items
    /// are `items`. Items that are no attribute are left out.
    pub fn restyle_attributes(
        self,
        self_closing: bool,
        items: &Vec<AttributeItem>,
        value: &[u8],
    ) -> (out: Vec<Attribute>)
        ensures
            attributes_view(out@) == self.attributes_after(
                self_closing,
                well_formed(items_view(items@)),
                value@,
            ),
    {
        match self {
            Transducer::Size => if self_closing {
                resize_attributes(items, value)
            } else {
                pad_attributes(items, value)
            },
            Transducer::StrokeWidth => replace_attribute(
                items,
                Property::StrokeWidth.name().as_bytes(),
                value,
            ),
            Transducer::Colour => replace_attribute(
                items,
                Property::Stroke.name().as_bytes(),
                value,
            ),
        }
    }

    /// Whether the pass rewrites a text whose content is `content`.
    pub fn targets_text(self, content: &[u8]) -> (targeted: bool)
        ensures
            targeted == self.text_targeted(content@),
    {
        match self {
            Transducer::Size => contains(content, Property::Width.name().as_bytes()) || contains(
                content,
                Property::Height.name().as_bytes(),
            ),
            Transducer::StrokeWidth => contains(content, Property::StrokeWidth.name().as_bytes()),
            Transducer::Colour => contains(content, Property::Stroke.name().as_bytes()),
        }
    }

    /// The text that the pass makes of the unescaped text `text`.
    pub fn restyle_text(self, text: &str, new_value: &str) -> (out: String)
        ensures
            out@ == self.text_after(text@, new_value@),
    {
        match self {
            Transducer::Size => {
                let widened = rewrite_declaration(text, Property::Width.name(), new_value);
                rewrite_declaration(widened.as_str(), Property::Height.name(), new_value)
            },
            Transducer::StrokeWidth => rewrite_declaration(
                text,
                Property::StrokeWidth.name(),
                new_value,
            ),
            Transducer::Colour => rewrite_declaration(text, Property::Stroke.name(), new_value),
        }
    }
}

/// The element `event` with `attributes` in place of its own.
fn with_attributes(event: Event<'static>, attributes: &Vec<Attribute>) -> (out: Event<'static>)
    requires
        event_kind(event) == EventKind::Start || event_kind(event) == EventKind::Empty,
    ensures
        event_kind(out) == event_kind(event),
        event_name(out) == event_name(event),
        event_content(out) == event_name(event) + rendered(attributes_view(attributes@)),
{
    let mut element = event;
    clear_attributes(&mut element);
    let mut i: usize = 0;
    assert(attributes@.take(0) =~= Seq::empty());
    assert(event_name(event) + rendered(Seq::empty()) =~= event_name(event));
    while i < attributes.len()
        invariant
            i <= attributes.len(),
            event_kind(event) == EventKind::Start || event_kind(event) == EventKind::Empty,
            event_kind(element) == event_kind(event),
            event_name(element) == event_name(event),
            event_content(element) == event_name(event) + rendered(
                attributes_view(attributes@.take(i as int)),
            ),
        decreases attributes.len() - i,
    {
        proof {
            let longer = attributes_view(attributes@.take(i + 1));
            assert(longer.drop_last() =~= attributes_view(attributes@.take(i as int)));
            assert(longer.last() == attributes@[i as int]@);
        }
        let attribute = &attributes[i];
        push_attribute(&mut element, attribute.key.as_slice(), attribute.value.as_slice());
        assert(event_content(element) =~= event_name(event) + rendered(
            attributes_view(attributes@.take(i + 1)),
        ));
        i += 1;
    }
    assert(attributes@.take(attributes.len() as int) =~= attributes@);
    element
}

/// The event that the pass writes for `event`.
fn rewrite_event(transducer: Transducer, event: Event<'static>, new_value: &str) -> (out: Event<
    'static,
>)
    ensures
        event_kind(out) == event_kind(event),
        event_content(out) == transducer.content_after(model(event), new_value@),
{
    let kind = kind_of(&event);
    if kind == EventKind::Start || kind == EventKind::Empty {
        let name = element_name(&event);
        if !transducer.targets_element(name.as_slice()) {
            return event;
        }
        let items = element_attributes(&event);
        let attributes = transducer.restyle_attributes(
            kind == EventKind::Empty,
            &items,
            new_value.as_bytes(),
        );
        with_attributes(event, &attributes)
    } else if kind == EventKind::Text {
        let content = content_of(&event);
        if !transducer.targets_text(content.as_slice()) {
            return event;
        }
        let text = match unescape_text(&event) {
            Some(text) => text,
            None => String::new(),
        };
        text_event(transducer.restyle_text(text.as_str(), new_value))
    } else {
        event
    }
}

/// One pass over a document: every event of `input`, up to its end or to the
/// first that cannot be read, is rewritten and written out. The pass
/// succeeds on every input: it writes to memory, and an input that cannot be
/// read to its end gives what was read of it.
pub fn transduce(transducer: Transducer, input: &[u8], new_value: &str) -> (result: Result<
    Vec<u8>,
    std::io::Error,
>)
    ensures
        result matches Ok(output) && output@ == transducer.document(
            xml_events(input@),
            new_value@,
        ),
{
    let mut reader = open_reader(input);
    let mut writer = new_writer();
    let ghost mut done: Seq<EventModel> = Seq::empty();
    assert(done + pending(reader) =~= xml_events(input@));
    loop
        invariant_except_break
            done + pending(reader) == xml_events(input@),
        invariant
            written(writer) == transducer.document(done, new_value@),
        ensures
            done == xml_events(input@),
        decreases pending(reader).len(),
    {
        let ghost before = pending(reader);
        match read_event(&mut reader) {
            Read::Event(event) => {
                let rewritten = rewrite_event(transducer, event, new_value);
                proof {
                    assert(done.push(before[0]).drop_last() =~= done);
                    assert(done.push(before[0]) + before.skip(1) =~= done + before);
                    done = done.push(before[0]);
                }
                match write_event(&mut writer, &rewritten) {
                    Ok(()) => {},
                    Err(error) => {
                        return Err(error);
                    },
                }
            },
            Read::Eof => {
                assert(done =~= xml_events(input@));
                break ;
            },
            Read::Failed => {
                assert(done =~= xml_events(input@));
                break ;
            },
        }
    }
    Ok(into_bytes(writer))
}

} // verus!
