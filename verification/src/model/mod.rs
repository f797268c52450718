//! The document IR that the serializers and renderers read.
//!
//! Only what the library's logic reads is modelled: the fields compared by the
//! round-trip diff, the track-change state, and the object layout attributes.

pub mod control;
pub mod document;
pub mod image;
pub mod page;
pub mod paragraph;
pub mod shape;
pub mod style;
