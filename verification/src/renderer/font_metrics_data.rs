//! Embedded font metrics: per font, the advance widths of its Latin glyphs
//! in runs of consecutive code points.

use vstd::prelude::*;

verus! {

/// The widths of the glyphs for code points `start..=end`, one per code
/// point from `start` on (0 where the font has no glyph).
pub struct LatinRange {
    pub start: u32,
    pub end: u32,
    pub widths: Vec<u16>,
}

/// The metrics of one font face: its em size and its Latin width runs.
pub struct FontMetric {
    pub em_size: u16,
    pub latin_ranges: Vec<LatinRange>,
}

} // verus!
