//! Translation of font-embedded color-glyph programs and alternate glyph
//! representations into a flattened vector-document subtree.
//!
//! Coordinates and matrix entries are fixed-point numbers: an `i64` counts
//! ten-thousandths, so `15000` stands for `1.5`. Markup is produced as a
//! sequence of typed events; a host renders the events as XML text.

pub mod num;
pub mod transform;
pub mod color;
pub mod path;
pub mod xml;
pub mod painter;
pub mod doc;
pub mod flatten;
