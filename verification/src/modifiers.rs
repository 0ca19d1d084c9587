//! The three passes by name, and all three in their fixed order.

use crate::transducer::{transduce, Transducer};
use crate::xml::xml_events;
use vstd::prelude::*;

verus! {

/// The three values that a document is restyled with.
#[derive(Clone, Debug)]
pub struct Targets {
    /// The width and the height of the root element.
    pub size: String,
    /// The stroke width.
    pub stroke_width: String,
    /// The stroke colour.
    pub colour: String,
}

/// The bytes that the three passes make of `input`, the size first, then the
/// stroke width, then the colour, each pass reading what the pass before it
/// wrote.
pub open spec fn restyled(
    input: Seq<u8>,
    size: Seq<char>,
    stroke_width: Seq<char>,
    colour: Seq<char>,
) -> Seq<u8> {
    let sized = Transducer::Size.document(xml_events(input), size);
    let stroked = Transducer::StrokeWidth.document(xml_events(sized), stroke_width);
    Transducer::Colour.document(xml_events(stroked), colour)
}

/// Sets `width` and `height` of the root element, and the value of every
/// `width` and `height` declaration in text, to `new_value`. The result is
/// always `Ok`.
pub fn update_size_bytes(input: &[u8], new_value: &str) -> (result: Result<
    Vec<u8>,
    std::io::Error,
>)
    ensures
        result matches Ok(output) && output@ == Transducer::Size.document(
            xml_events(input@),
            new_value@,
        ),
{
    transduce(Transducer::Size, input, new_value)
}

/// Sets `stroke-width` of every element, and the value of every
/// `stroke-width` declaration in text, to `new_value`. The result is always
/// `Ok`.
pub fn update_stroke_width_bytes(input: &[u8], new_value: &str) -> (result: Result<
    Vec<u8>,
    std::io::Error,
>)
    ensures
        result matches Ok(output) && output@ == Transducer::StrokeWidth.document(
            xml_events(input@),
            new_value@,
        ),
{
    transduce(Transducer::StrokeWidth, input, new_value)
}

/// Sets `stroke` of every element, and the value of every `stroke`
/// declaration in text, to `new_value`. The result is always `Ok`.
pub fn update_colour_bytes(input: &[u8], new_value: &str) -> (result: Result<
    Vec<u8>,
    std::io::Error,
>)
    ensures
        result matches Ok(output) && output@ == Transducer::Colour.document(
            xml_events(input@),
            new_value@,
        ),
{
    transduce(Transducer::Colour, input, new_value)
}

/// A pass that did not end, and the writer's error that ended it.
#[derive(Debug)]
pub struct Failure {
    /// The pass that failed.
    pub pass: Transducer,
    /// What the writer reported.
    pub error: std::io::Error,
}

/// Restyles a document: the size pass, then the stroke-width pass, then the
/// colour pass. A pass that failed would end the work and be named in the
/// failure; as each pass writes to memory, none does, and the result is
/// always `Ok`.
pub fn restyle(input: &[u8], targets: &Targets) -> (result: Result<Vec<u8>, Failure>)
    ensures
        result matches Ok(output) && output@ == restyled(
            input@,
            targets.size@,
            targets.stroke_width@,
            targets.colour@,
        ),
{
    let sized = match update_size_bytes(input, targets.size.as_str()) {
        Ok(bytes) => bytes,
        Err(error) => {
            return Err(Failure { pass: Transducer::Size, error });
        },
    };
    let stroked = match update_stroke_width_bytes(
        sized.as_slice(),
        targets.stroke_width.as_str(),
    ) {
        Ok(bytes) => bytes,
        Err(error) => {
            return Err(Failure { pass: Transducer::StrokeWidth, error });
        },
    };
    match update_colour_bytes(stroked.as_slice(), targets.colour.as_str()) {
        Ok(bytes) => Ok(bytes),
        Err(error) => Err(Failure { pass: Transducer::Colour, error }),
    }
}

} // verus!
