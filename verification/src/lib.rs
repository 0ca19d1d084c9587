//! Restyling of SVG documents: the root element's size, the stroke width and
//! the stroke colour are set to caller-supplied values, in attributes and in
//! style declarations found in text, while every other event of the document
//! is written back as it was read.

pub mod attribute;
pub mod css;
pub mod laws;
pub mod modifiers;
pub mod property;
pub mod search;
pub mod transducer;
pub mod xml;
