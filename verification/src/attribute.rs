//! Attributes of an element, and the three ways in which a transducer
//! rewrites a list of them.

use crate::property::Property;
use crate::search::bytes_equal;
use vstd::prelude::*;
use vstd::slice::slice_to_vec;

verus! {

/// One attribute of an element: its name and its value as they stand in the
/// document, the value still escaped and without its quotes.
#[derive(Clone, Debug)]
pub struct Attribute {
    pub key: Vec<u8>,
    pub value: Vec<u8>,
}

/// A key and a value.
pub type Pair = (Seq<u8>, Seq<u8>);

impl View for Attribute {
    type V = Pair;

    open spec fn view(&self) -> Pair {
        (self.key@, self.value@)
    }
}

/// What one step through an element's attributes gives: an attribute, or
/// `None` where the text at that place is no well-formed attribute.
pub type AttributeItem = Option<Attribute>;

pub open spec fn item_view(item: AttributeItem) -> Option<Pair> {
    match item {
        Some(a) => Some(a@),
        None => None,
    }
}

pub open spec fn items_view(items: Seq<AttributeItem>) -> Seq<Option<Pair>> {
    items.map_values(|item: AttributeItem| item_view(item))
}

pub open spec fn attributes_view(attributes: Seq<Attribute>) -> Seq<Pair> {
    attributes.map_values(|a: Attribute| a@)
}

/// The attributes among the items, in their order.
pub open spec fn well_formed(items: Seq<Option<Pair>>) -> Seq<Pair>
    decreases items.len(),
{
    if items.len() == 0 {
        Seq::empty()
    } else {
        match items.last() {
            Some(pair) => well_formed(items.drop_last()).push(pair),
            None => well_formed(items.drop_last()),
        }
    }
}

/// A pair with its value replaced where its key is `key`.
pub open spec fn replaced_pair(pair: Pair, key: Seq<u8>, value: Seq<u8>) -> Pair {
    if pair.0 == key {
        (key, value)
    } else {
        pair
    }
}

/// The list with the value of every pair under `key` replaced by `value`,
/// every other pair kept, all in place.
pub open spec fn replaced(pairs: Seq<Pair>, key: Seq<u8>, value: Seq<u8>) -> Seq<Pair> {
    pairs.map_values(|pair: Pair| replaced_pair(pair, key, value))
}

/// A pair with its value replaced where its key is `height` or `width`.
pub open spec fn resized_pair(pair: Pair, value: Seq<u8>) -> Pair {
    if pair.0 == Property::Height.key() {
        (Property::Height.key(), value)
    } else if pair.0 == Property::Width.key() {
        (Property::Width.key(), value)
    } else {
        pair
    }
}

/// The list with the value of every `height` and `width` replaced by `value`.
pub open spec fn resized(pairs: Seq<Pair>, value: Seq<u8>) -> Seq<Pair> {
    pairs.map_values(|pair: Pair| resized_pair(pair, value))
}

/// The list with a new `height` and a new `width` put before each pair.
pub open spec fn padded(pairs: Seq<Pair>, value: Seq<u8>) -> Seq<Pair>
    decreases pairs.len(),
{
    if pairs.len() == 0 {
        Seq::empty()
    } else {
        padded(pairs.drop_last(), value).push((Property::Height.key(), value)).push(
            (Property::Width.key(), value),
        ).push(pairs.last())
    }
}

/// The attributes of `items` with every value under `key` set to `value`.
/// Items that are no attribute are left out.
pub fn replace_attribute(items: &Vec<AttributeItem>, key: &[u8], value: &[u8]) -> (out: Vec<
    Attribute,
>)
    ensures
        attributes_view(out@) == replaced(well_formed(items_view(items@)), key@, value@),
{
    let mut out: Vec<Attribute> = Vec::new();
    let mut i: usize = 0;
    assert(items@.take(0) =~= Seq::empty());
    assert(attributes_view(out@) =~= Seq::empty());
    while i < items.len()
        invariant
            i <= items.len(),
            attributes_view(out@) == replaced(
                well_formed(items_view(items@.take(i as int))),
                key@,
                value@,
            ),
        decreases items.len() - i,
    {
        let ghost before = out@;
        proof {
            lemma_items_step(items@, i as int);
        }
        match &items[i] {
            Some(attribute) => {
                let kept = if bytes_equal(attribute.key.as_slice(), key) {
                    Attribute { key: slice_to_vec(key), value: slice_to_vec(value) }
                } else {
                    Attribute {
                        key: slice_to_vec(attribute.key.as_slice()),
                        value: slice_to_vec(attribute.value.as_slice()),
                    }
                };
                out.push(kept);
                assert(attributes_view(out@) =~= attributes_view(before).push(kept@));
                assert(replaced(
                    well_formed(items_view(items@.take(i as int))).push(attribute@),
                    key@,
                    value@,
                ) =~= replaced(well_formed(items_view(items@.take(i as int))), key@, value@).push(
                    kept@,
                ));
            },
            None => {},
        }
        i += 1;
    }
    assert(items@.take(items.len() as int) =~= items@);
    out
}

/// The attributes of `items` with every `height` and `width` set to `value`.
/// Items that are no attribute are left out.
pub fn resize_attributes(items: &Vec<AttributeItem>, value: &[u8]) -> (out: Vec<Attribute>)
    ensures
        attributes_view(out@) == resized(well_formed(items_view(items@)), value@),
{
    let mut out: Vec<Attribute> = Vec::new();
    let mut i: usize = 0;
    assert(items@.take(0) =~= Seq::empty());
    assert(attributes_view(out@) =~= Seq::empty());
    while i < items.len()
        invariant
            i <= items.len(),
            attributes_view(out@) == resized(well_formed(items_view(items@.take(i as int))), value@),
        decreases items.len() - i,
    {
        let ghost before = out@;
        proof {
            lemma_items_step(items@, i as int);
        }
        match &items[i] {
            Some(attribute) => {
                let height = Property::Height.name().as_bytes();
                let width = Property::Width.name().as_bytes();
                let kept = if bytes_equal(attribute.key.as_slice(), height) {
                    Attribute { key: slice_to_vec(height), value: slice_to_vec(value) }
                } else if bytes_equal(attribute.key.as_slice(), width) {
                    Attribute { key: slice_to_vec(width), value: slice_to_vec(value) }
                } else {
                    Attribute {
                        key: slice_to_vec(attribute.key.as_slice()),
                        value: slice_to_vec(attribute.value.as_slice()),
                    }
                };
                out.push(kept);
                assert(attributes_view(out@) =~= attributes_view(before).push(kept@));
                assert(resized(
                    well_formed(items_view(items@.take(i as int))).push(attribute@),
                    value@,
                ) =~= resized(well_formed(items_view(items@.take(i as int))), value@).push(kept@));
            },
            None => {},
        }
        i += 1;
    }
    assert(items@.take(items.len() as int) =~= items@);
    out
}

/// The attributes of `items`, each behind a new `height` and a new `width`
/// that hold `value`. Items that are no attribute are left out.
pub fn pad_attributes(items: &Vec<AttributeItem>, value: &[u8]) -> (out: Vec<Attribute>)
    ensures
        attributes_view(out@) == padded(well_formed(items_view(items@)), value@),
{
    let mut out: Vec<Attribute> = Vec::new();
    let mut i: usize = 0;
    assert(items@.take(0) =~= Seq::empty());
    assert(attributes_view(out@) =~= Seq::empty());
    while i < items.len()
        invariant
            i <= items.len(),
            attributes_view(out@) == padded(well_formed(items_view(items@.take(i as int))), value@),
        decreases items.len() - i,
    {
        let ghost before = out@;
        proof {
            lemma_items_step(items@, i as int);
        }
        match &items[i] {
            Some(attribute) => {
                let height = Attribute {
                    key: slice_to_vec(Property::Height.name().as_bytes()),
                    value: slice_to_vec(value),
                };
                let width = Attribute {
                    key: slice_to_vec(Property::Width.name().as_bytes()),
                    value: slice_to_vec(value),
                };
                let kept = Attribute {
                    key: slice_to_vec(attribute.key.as_slice()),
                    value: slice_to_vec(attribute.value.as_slice()),
                };
                out.push(height);
                out.push(width);
                out.push(kept);
                assert(attributes_view(out@) =~= attributes_view(before).push(height@).push(
                    width@,
                ).push(kept@));
                assert(well_formed(items_view(items@.take(i as int))).push(
                    attribute@,
                ).drop_last() =~= well_formed(items_view(items@.take(i as int))));
            },
            None => {},
        }
        i += 1;
    }
    assert(items@.take(items.len() as int) =~= items@);
    out
}

/// Taking one item more adds that item's attribute, if it is one.
pub proof fn lemma_items_step(items: Seq<AttributeItem>, i: int)
    requires
        0 <= i < items.len(),
    ensures
        well_formed(items_view(items.take(i + 1))) == match items[i] {
            Some(a) => well_formed(items_view(items.take(i))).push(a@),
            None => well_formed(items_view(items.take(i))),
        },
{
    let longer = items_view(items.take(i + 1));
    assert(longer.drop_last() =~= items_view(items.take(i)));
    assert(longer.last() == item_view(items[i]));
}

} // verus!
