//! The parts of the paint model that the renderers' decisions read.

use crate::renderer::layer_renderer::{VariantGlyphOutlineFacts, VariantGlyphRunFacts};
use crate::renderer::skia::renderer::FontResourceFacts;
use vstd::prelude::*;

verus! {

/// The kind of one variant of a text run.
#[derive(Clone, Copy, Debug, PartialEq, Eq, Structural)]
pub enum TextVariantKind {
    TextRun,
    GlyphRun,
    GlyphOutline,
}

/// How the glyphs of a run are oriented.
#[derive(Clone, Copy, Debug, PartialEq, Eq, Structural)]
pub enum GlyphRunOrientation {
    Horizontal,
    VerticalUpright,
    VerticalSideways,
    MixedPerGlyph,
}

/// Whether a glyph run can be replayed elsewhere.
#[derive(Clone, Copy, Debug, PartialEq, Eq, Structural)]
pub enum GlyphRunReplayEligibility {
    Portable,
    ConditionalExternalFont,
    LocalDiagnosticOnly,
    NotReplayable,
}

/// How faithful a glyph variant is to the text it stands for.
#[derive(Clone, Copy, Debug, PartialEq, Eq, Structural)]
pub enum TextVariantQuality {
    Exact,
    PositionAdjusted,
    Approximate,
    DiagnosticOnly,
    Omitted,
}

/// Which text a glyph run or outline stands for: its group of equivalent
/// variants, the variant, its kind, and which part of the variant it is.
pub struct TextVariantRef {
    pub equivalence_group: String,
    pub variant_id: String,
    pub variant_kind: TextVariantKind,
    pub part_count: u32,
    pub part_index: u32,
}

/// A paint operation, as far as text variants are concerned: a plain text
/// run, a glyph run or outline of a variant, or anything else.
pub enum PaintOp {
    TextRun,
    GlyphRun { variant: TextVariantRef, run: VariantGlyphRunFacts },
    GlyphOutline { variant: TextVariantRef, outline: VariantGlyphOutlineFacts },
    Other,
}

/// The kind of a layer node: a group of children, a clip around one child,
/// or a leaf of paint operations.
pub enum LayerNodeKind {
    Group { children: Vec<LayerNode> },
    ClipRect { child: Box<LayerNode> },
    Leaf { ops: Vec<PaintOp> },
}

/// A node of a page's layer tree.
pub struct LayerNode {
    pub kind: LayerNodeKind,
}

/// A page's layer tree and the font resources its glyph runs name.
pub struct PageLayerTree {
    pub root: LayerNode,
    pub resources: FontResourceFacts,
}

} // verus!
