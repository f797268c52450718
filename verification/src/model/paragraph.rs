//! Paragraphs and their per-character data.

use crate::model::control::Control;
use vstd::prelude::*;

verus! {

/// A character-shape run: from `start_pos` (UTF-16 position) on, `char_shape_id` applies.
#[derive(Clone, Copy, Debug, PartialEq, Eq)]
pub struct CharShapeRef {
    pub start_pos: u32,
    pub char_shape_id: u32,
}

/// One laid-out line of a paragraph (the nine stored fields of a line segment).
#[derive(Clone, Copy, Debug, PartialEq, Eq)]
pub struct LineSeg {
    pub text_start: u32,
    pub vertical_pos: i32,
    pub line_height: i32,
    pub text_height: i32,
    pub baseline_distance: i32,
    pub line_spacing: i32,
    pub column_start: i32,
    pub segment_width: i32,
    pub tag: u32,
}

impl LineSeg {
    /// The tag bit of a segment the program made itself rather than read from a file.
    pub const TAG_IMPLEMENTATION_PROPERTY: u32 = 0x8000_0000;
}

/// A tracked change applied to a range of a paragraph (UTF-16 positions).
#[derive(Clone, Copy, Debug, PartialEq, Eq)]
pub struct TrackMark {
    pub start_pos: u32,
    pub end_pos: u32,
    pub tc_id: u32,
}

/// A paragraph: its text, the UTF-16 position of each character, the shape
/// runs, the laid-out lines, the inline controls and the change marks.
pub struct Paragraph {
    pub text: String,
    pub char_offsets: Vec<u32>,
    pub char_shapes: Vec<CharShapeRef>,
    pub line_segs: Vec<LineSeg>,
    pub controls: Vec<Control>,
    pub track_marks: Vec<TrackMark>,
}

} // verus!
