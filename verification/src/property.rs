//! The names that the transducers look for.

use vstd::prelude::*;
use vstd::utf8::*;

verus! {

/// A presentational property, set as an attribute or as a style declaration.
#[derive(Clone, Copy, Debug, PartialEq, Eq, Structural)]
pub enum Property {
    Width,
    Height,
    StrokeWidth,
    Stroke,
}

impl Property {
    /// The property's name as text.
    pub open spec fn spec_name(self) -> Seq<char> {
        match self {
            Property::Width => "width"@,
            Property::Height => "height"@,
            Property::StrokeWidth => "stroke-width"@,
            Property::Stroke => "stroke"@,
        }
    }

    /// The property's name as the bytes of an attribute key.
    pub open spec fn key(self) -> Seq<u8> {
        encode_utf8(self.spec_name())
    }

    /// The property's name.
    pub fn name(self) -> (name: &'static str)
        ensures
            name@ == self.spec_name(),
    {
        match self {
            Property::Width => "width",
            Property::Height => "height",
            Property::StrokeWidth => "stroke-width",
            Property::Stroke => "stroke",
        }
    }
}

/// The tag name of the element whose size is set.
pub open spec fn root_tag() -> Seq<u8> {
    encode_utf8("svg"@)
}

/// The key of `width` spelled out.
pub proof fn lemma_width_key()
    ensures
        Property::Width.key() == seq![0x77u8, 0x69u8, 0x64u8, 0x74u8, 0x68u8],
{
    reveal_strlit("width");
    is_ascii_chars_encode_utf8("width"@);
    assert(Property::Width.key() =~= seq![0x77u8, 0x69u8, 0x64u8, 0x74u8, 0x68u8]);
}

/// The key of `height` spelled out.
pub proof fn lemma_height_key()
    ensures
        Property::Height.key() == seq![0x68u8, 0x65u8, 0x69u8, 0x67u8, 0x68u8, 0x74u8],
{
    reveal_strlit("height");
    is_ascii_chars_encode_utf8("height"@);
    assert(Property::Height.key() =~= seq![0x68u8, 0x65u8, 0x69u8, 0x67u8, 0x68u8, 0x74u8]);
}

/// The key of `stroke` spelled out.
pub proof fn lemma_stroke_key()
    ensures
        Property::Stroke.key() == seq![0x73u8, 0x74u8, 0x72u8, 0x6fu8, 0x6bu8, 0x65u8],
{
    reveal_strlit("stroke");
    is_ascii_chars_encode_utf8("stroke"@);
    assert(Property::Stroke.key() =~= seq![0x73u8, 0x74u8, 0x72u8, 0x6fu8, 0x6bu8, 0x65u8]);
}

/// The key of `stroke-width` spelled out.
pub proof fn lemma_stroke_width_key()
    ensures
        Property::StrokeWidth.key() == seq![
            0x73u8,
            0x74u8,
            0x72u8,
            0x6fu8,
            0x6bu8,
            0x65u8,
            0x2du8,
            0x77u8,
            0x69u8,
            0x64u8,
            0x74u8,
            0x68u8,
        ],
{
    reveal_strlit("stroke-width");
    is_ascii_chars_encode_utf8("stroke-width"@);
    assert(Property::StrokeWidth.key() =~= seq![
        0x73u8,
        0x74u8,
        0x72u8,
        0x6fu8,
        0x6bu8,
        0x65u8,
        0x2du8,
        0x77u8,
        0x69u8,
        0x64u8,
        0x74u8,
        0x68u8,
    ]);
}

/// No two properties share a key.
pub proof fn lemma_keys_distinct(p: Property, q: Property)
    requires
        p != q,
    ensures
        p.key() != q.key(),
{
    lemma_width_key();
    lemma_height_key();
    lemma_stroke_key();
    lemma_stroke_width_key();
    assert(Property::Width.key().len() == 5);
    assert(Property::Height.key().len() == 6);
    assert(Property::Stroke.key().len() == 6);
    assert(Property::StrokeWidth.key().len() == 12);
    assert(Property::Stroke.key()[0] != Property::Height.key()[0]);
}

} // verus!
