//! What holds of the passes whatever the document and the values.

use crate::attribute::{padded, replaced, replaced_pair, resized, resized_pair, well_formed, Pair};
use crate::property::{lemma_keys_distinct, Property};
use crate::transducer::{rendered, Transducer};
use crate::xml::{event_bytes, EventKind, EventModel};
use vstd::prelude::*;
use vstd::utf8::*;

verus! {

/// Some pair of the list stands under `key`.
pub open spec fn keyed(pairs: Seq<Pair>, key: Seq<u8>) -> bool {
    exists|i: int| 0 <= i < pairs.len() && (#[trigger] pairs[i]).0 == key
}

/// The pass would write these attributes back as they are: none stands under
/// a key that the pass sets, and the size pass, which pads an opening tag
/// for each attribute it finds, finds none there.
pub open spec fn attributes_untouched(
    transducer: Transducer,
    self_closing: bool,
    pairs: Seq<Pair>,
) -> bool {
    match transducer {
        Transducer::Size => if self_closing {
            !keyed(pairs, Property::Height.key()) && !keyed(pairs, Property::Width.key())
        } else {
            pairs.len() == 0
        },
        Transducer::StrokeWidth => !keyed(pairs, Property::StrokeWidth.key()),
        Transducer::Colour => !keyed(pairs, Property::Stroke.key()),
    }
}

/// The pass has nothing to rewrite in the event: it is no element and no
/// text; or an element that the pass does not look into; or an element whose
/// content is spelled as the writer spells it, every attribute well formed,
/// separated by one space and in double quotes, with no attribute for the
/// pass to set; or a text that holds none of the pass's property names.
pub open spec fn passes_through(transducer: Transducer, event: EventModel) -> bool {
    match event.kind {
        EventKind::Start | EventKind::Empty => !transducer.element_targeted(event.name) || (
        event.content == event.name + rendered(well_formed(event.attributes))
            && attributes_untouched(
            transducer,
            event.kind == EventKind::Empty,
            well_formed(event.attributes),
        )),
        EventKind::Text => !transducer.text_targeted(event.content),
        _ => true,
    }
}

/// The events as the writer spells them when none is rewritten.
pub open spec fn verbatim(events: Seq<EventModel>) -> Seq<u8>
    decreases events.len(),
{
    if events.len() == 0 {
        Seq::empty()
    } else {
        verbatim(events.drop_last()) + event_bytes(events.last().kind, events.last().content)
    }
}

/// An event `again` is what a reader finds where the pass wrote its event
/// for the element `event`: the same kind and name, the content that was
/// written, and the attributes that stand in it, which are those that the
/// pass put there or, in an element that the pass does not look into, those
/// that were there.
pub open spec fn reads_back(
    transducer: Transducer,
    event: EventModel,
    again: EventModel,
    value: Seq<char>,
) -> bool {
    &&& again.kind == event.kind
    &&& again.name == event.name
    &&& again.content == transducer.content_after(event, value)
    &&& well_formed(again.attributes) == if transducer.element_targeted(event.name) {
        transducer.attributes_after(
            event.kind == EventKind::Empty,
            well_formed(event.attributes),
            encode_utf8(value),
        )
    } else {
        well_formed(event.attributes)
    }
}

/// A padded list holds three pairs for each pair of the list.
pub proof fn lemma_padded_len(pairs: Seq<Pair>, value: Seq<u8>)
    ensures
        padded(pairs, value).len() == 3 * pairs.len(),
    decreases pairs.len(),
{
    if pairs.len() > 0 {
        lemma_padded_len(pairs.drop_last(), value);
    }
}

/// Rewriting attributes a second time with the same value changes nothing:
/// for the stroke width, for the colour, and for the size on a self-closing
/// element.
pub proof fn lemma_attributes_fixed_point(
    transducer: Transducer,
    self_closing: bool,
    pairs: Seq<Pair>,
    value: Seq<u8>,
)
    requires
        transducer != Transducer::Size || self_closing,
    ensures
        transducer.attributes_after(
            self_closing,
            transducer.attributes_after(self_closing, pairs, value),
            value,
        ) == transducer.attributes_after(self_closing, pairs, value),
{
    let once = transducer.attributes_after(self_closing, pairs, value);
    let twice = transducer.attributes_after(self_closing, once, value);
    assert(twice =~= once);
}

/// On an opening tag the size pass has no fixed point but the empty list:
/// each pass puts two more attributes before every attribute it finds.
pub proof fn lemma_padding_grows(pairs: Seq<Pair>, value: Seq<u8>)
    requires
        pairs.len() > 0,
    ensures
        Transducer::Size.attributes_after(
            false,
            Transducer::Size.attributes_after(false, pairs, value),
            value,
        ) != Transducer::Size.attributes_after(false, pairs, value),
{
    lemma_padded_len(pairs, value);
    lemma_padded_len(padded(pairs, value), value);
}

/// A pass that reads back the element it wrote writes the same element
/// again, unless it is the size pass on an opening tag with attributes.
pub proof fn lemma_element_fixed_point(
    transducer: Transducer,
    event: EventModel,
    again: EventModel,
    value: Seq<char>,
)
    requires
        event.kind == EventKind::Start || event.kind == EventKind::Empty,
        reads_back(transducer, event, again, value),
        transducer != Transducer::Size || event.kind == EventKind::Empty || well_formed(
            event.attributes,
        ).len() == 0,
    ensures
        transducer.content_after(again, value) == again.content,
{
    if transducer.element_targeted(event.name) {
        let self_closing = event.kind == EventKind::Empty;
        let pairs = well_formed(event.attributes);
        if transducer != Transducer::Size || self_closing {
            lemma_attributes_fixed_point(transducer, self_closing, pairs, encode_utf8(value));
        } else {
            assert(padded(pairs, encode_utf8(value)) =~= pairs);
        }
    }
}

/// Attributes that hold nothing for the pass to set are rewritten to
/// themselves.
pub proof fn lemma_attributes_pass_through(
    transducer: Transducer,
    self_closing: bool,
    pairs: Seq<Pair>,
    value: Seq<u8>,
)
    requires
        attributes_untouched(transducer, self_closing, pairs),
    ensures
        transducer.attributes_after(self_closing, pairs, value) == pairs,
{
    assert(transducer.attributes_after(self_closing, pairs, value) =~= pairs);
}

/// An event in which the pass has nothing to rewrite is written with the
/// content it was read with.
pub proof fn lemma_event_passes_through(
    transducer: Transducer,
    event: EventModel,
    value: Seq<char>,
)
    requires
        passes_through(transducer, event),
    ensures
        transducer.content_after(event, value) == event.content,
{
    if (event.kind == EventKind::Start || event.kind == EventKind::Empty)
        && transducer.element_targeted(event.name) {
        lemma_attributes_pass_through(
            transducer,
            event.kind == EventKind::Empty,
            well_formed(event.attributes),
            encode_utf8(value),
        );
    }
}

/// A document in whose events the pass has nothing to rewrite is written as
/// its events spell it, whatever the value.
pub proof fn lemma_document_passes_through(
    transducer: Transducer,
    events: Seq<EventModel>,
    value: Seq<char>,
)
    requires
        forall|i: int| 0 <= i < events.len() ==> passes_through(transducer, #[trigger] events[i]),
    ensures
        transducer.document(events, value) == verbatim(events),
    decreases events.len(),
{
    if events.len() > 0 {
        lemma_document_passes_through(transducer, events.drop_last(), value);
        lemma_event_passes_through(transducer, events.last(), value);
    }
}

/// Replacing under a key and padding for the size can be done in either
/// order, where the key is neither `height` nor `width`.
pub proof fn lemma_replace_commutes_with_padding(
    pairs: Seq<Pair>,
    key: Seq<u8>,
    value: Seq<u8>,
    size: Seq<u8>,
)
    requires
        key != Property::Height.key(),
        key != Property::Width.key(),
    ensures
        replaced(padded(pairs, size), key, value) == padded(replaced(pairs, key, value), size),
    decreases pairs.len(),
{
    if pairs.len() > 0 {
        let shorter = pairs.drop_last();
        lemma_replace_commutes_with_padding(shorter, key, value, size);
        assert(replaced(pairs, key, value).drop_last() =~= replaced(shorter, key, value));
        assert(replaced(padded(pairs, size), key, value) =~= replaced(
            padded(shorter, size),
            key,
            value,
        ).push((Property::Height.key(), size)).push((Property::Width.key(), size)).push(
            replaced_pair(pairs.last(), key, value),
        ));
    } else {
        assert(replaced(padded(pairs, size), key, value) =~= padded(
            replaced(pairs, key, value),
            size,
        ));
    }
}

/// Two different passes rewrite the attributes of an element independently:
/// whichever comes first, the attributes that result are the same.
pub proof fn lemma_attribute_passes_commute(
    first: Transducer,
    second: Transducer,
    self_closing: bool,
    pairs: Seq<Pair>,
    first_value: Seq<u8>,
    second_value: Seq<u8>,
)
    requires
        first != second,
    ensures
        second.attributes_after(
            self_closing,
            first.attributes_after(self_closing, pairs, first_value),
            second_value,
        ) == first.attributes_after(
            self_closing,
            second.attributes_after(self_closing, pairs, second_value),
            first_value,
        ),
{
    lemma_keys_distinct(Property::Stroke, Property::StrokeWidth);
    lemma_keys_distinct(Property::Stroke, Property::Height);
    lemma_keys_distinct(Property::Stroke, Property::Width);
    lemma_keys_distinct(Property::StrokeWidth, Property::Height);
    lemma_keys_distinct(Property::StrokeWidth, Property::Width);
    let a = second.attributes_after(
        self_closing,
        first.attributes_after(self_closing, pairs, first_value),
        second_value,
    );
    let b = first.attributes_after(
        self_closing,
        second.attributes_after(self_closing, pairs, second_value),
        first_value,
    );
    if (first == Transducer::Size || second == Transducer::Size) && !self_closing {
        if first == Transducer::Size {
            let key = if second == Transducer::Colour {
                Property::Stroke.key()
            } else {
                Property::StrokeWidth.key()
            };
            lemma_replace_commutes_with_padding(pairs, key, second_value, first_value);
        } else {
            let key = if first == Transducer::Colour {
                Property::Stroke.key()
            } else {
                Property::StrokeWidth.key()
            };
            lemma_replace_commutes_with_padding(pairs, key, first_value, second_value);
        }
    } else {
        assert(a =~= b);
    }
}

/// Two different passes rewrite an element independently: whichever comes
/// first, the pass that comes second and reads back what the first wrote
/// writes the same element.
pub proof fn lemma_element_passes_commute(
    first: Transducer,
    second: Transducer,
    event: EventModel,
    after_first: EventModel,
    after_second: EventModel,
    first_value: Seq<char>,
    second_value: Seq<char>,
)
    requires
        first != second,
        event.kind == EventKind::Start || event.kind == EventKind::Empty,
        reads_back(first, event, after_first, first_value),
        reads_back(second, event, after_second, second_value),
    ensures
        second.content_after(after_first, second_value) == first.content_after(
            after_second,
            first_value,
        ),
{
    if first.element_targeted(event.name) && second.element_targeted(event.name) {
        lemma_attribute_passes_commute(
            first,
            second,
            event.kind == EventKind::Empty,
            well_formed(event.attributes),
            encode_utf8(first_value),
            encode_utf8(second_value),
        );
    }
}

/// The event that a pass writes for `event`: of the same kind, with the
/// content that the pass gives it.
pub open spec fn written_for(
    transducer: Transducer,
    event: EventModel,
    value: Seq<char>,
) -> EventModel {
    EventModel {
        kind: event.kind,
        name: event.name,
        content: transducer.content_after(event, value),
        attributes: event.attributes,
    }
}

/// A pass writes one event for each event it reads, of the same kind and in
/// the same order: its output spells the events read, each with the content
/// that the pass gives it.
pub proof fn lemma_document_is_one_event_for_each(
    transducer: Transducer,
    events: Seq<EventModel>,
    value: Seq<char>,
)
    ensures
        transducer.document(events, value) == verbatim(
            events.map_values(|event: EventModel| written_for(transducer, event, value)),
        ),
    decreases events.len(),
{
    let out = events.map_values(|event: EventModel| written_for(transducer, event, value));
    if events.len() > 0 {
        lemma_document_is_one_event_for_each(transducer, events.drop_last(), value);
        assert(out.drop_last() =~= events.drop_last().map_values(
            |event: EventModel| written_for(transducer, event, value),
        ));
    }
}

/// A pass rewrites each event by itself: the bytes written for two runs of
/// events, one behind the other, are the bytes written for the first run
/// and then those written for the second.
pub proof fn lemma_document_is_eventwise(
    transducer: Transducer,
    front: Seq<EventModel>,
    back: Seq<EventModel>,
    value: Seq<char>,
)
    ensures
        transducer.document(front + back, value) == transducer.document(front, value)
            + transducer.document(back, value),
    decreases back.len(),
{
    if back.len() == 0 {
        assert(front + back =~= front);
        assert(transducer.document(front, value) + transducer.document(back, value)
            =~= transducer.document(front, value));
    } else {
        lemma_document_is_eventwise(transducer, front, back.drop_last(), value);
        assert((front + back).drop_last() =~= front + back.drop_last());
        assert((front + back).last() == back.last());
        assert(transducer.document(front + back, value) =~= transducer.document(front, value)
            + transducer.document(back, value));
    }
}

} // verus!
