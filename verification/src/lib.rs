//! Line-oriented markdown to HTML.
//!
//! Every input line becomes one HTML element: a line that starts with `#`
//! becomes a heading whose level is the number of leading `#` characters,
//! any other line becomes a paragraph, and an empty line becomes nothing.
//! The conversion is a small state machine over [`tag::TagState`]; its
//! behaviour is stated over sequences of characters and proved.

pub mod document;
pub mod heading;
pub mod tag;
pub mod tagger;
