//! Layer-tree replay backends: the options they take and the vocabulary of
//! their text-variant selection reports.

use crate::paint::{GlyphRunOrientation, GlyphRunReplayEligibility, TextVariantKind, TextVariantQuality};
use crate::renderer::skia::renderer::{
    find_blob, find_face, first_blob, first_face, lemma_first_blob_none, lemma_first_face_none, opt_u64_eq, BlobBytes, FontBlobFacts, FontFaceFacts,
    FontResourceFacts,
};
use crate::text::{string_of, string_views};
use crate::text_order::{chars_order, lemma_chars_order_total, sort_strings};
use image::GenericImageView;
use crate::paint::{LayerNode, LayerNodeKind, PageLayerTree, PaintOp, TextVariantRef};
use vstd::prelude::*;

verus! {

/// The colour space of a raster output.
#[derive(Clone, Copy, Debug, PartialEq, Eq, Structural)]
pub enum RasterColorSpace {
    Srgb,
}

/// The encoding of a raster output.
#[derive(Clone, Copy, Debug, PartialEq, Eq, Structural)]
pub enum RasterOutputFormat {
    Png,
}

/// The backend a text-variant selection is made for.
#[derive(Clone, Copy, Debug, PartialEq, Eq, Structural)]
pub enum VariantSelectionBackend {
    NativeSkia,
    CanvasKit,
    Canvas2D,
    Svg,
}

/// The name a backend is reported under.
pub open spec fn variant_selection_backend_name(v: VariantSelectionBackend) -> Seq<char> {
    match v {
        VariantSelectionBackend::NativeSkia => "nativeSkia"@,
        VariantSelectionBackend::CanvasKit => "canvasKit"@,
        VariantSelectionBackend::Canvas2D => "canvas2d"@,
        VariantSelectionBackend::Svg => "svg"@,
    }
}

impl VariantSelectionBackend {
    /// The name this value is reported under.
    pub fn as_str(self) -> (r: &'static str)
        ensures
            r@ == variant_selection_backend_name(self),
    {
        match self {
            VariantSelectionBackend::NativeSkia => "nativeSkia",
            VariantSelectionBackend::CanvasKit => "canvasKit",
            VariantSelectionBackend::Canvas2D => "canvas2d",
            VariantSelectionBackend::Svg => "svg",
        }
    }
}

/// Why a variant was selected (or none was).
#[derive(Clone, Copy, Debug, PartialEq, Eq, Structural)]
pub enum VariantSelectedReason {
    GlyphRunStrictEligible,
    GlyphOutlineStrictProfile,
    DefaultTextRunFallback,
    NoSupportedVariant,
}

/// The name a reason is reported under.
pub open spec fn variant_selected_reason_name(v: VariantSelectedReason) -> Seq<char> {
    match v {
        VariantSelectedReason::GlyphRunStrictEligible => "glyphRunStrictEligible"@,
        VariantSelectedReason::GlyphOutlineStrictProfile => "glyphOutlineStrictProfile"@,
        VariantSelectedReason::DefaultTextRunFallback => "defaultTextRunFallback"@,
        VariantSelectedReason::NoSupportedVariant => "noSupportedVariant"@,
    }
}

impl VariantSelectedReason {
    /// The name this value is reported under.
    pub fn as_str(self) -> (r: &'static str)
        ensures
            r@ == variant_selected_reason_name(self),
    {
        match self {
            VariantSelectedReason::GlyphRunStrictEligible => "glyphRunStrictEligible",
            VariantSelectedReason::GlyphOutlineStrictProfile => "glyphOutlineStrictProfile",
            VariantSelectedReason::DefaultTextRunFallback => "defaultTextRunFallback",
            VariantSelectedReason::NoSupportedVariant => "noSupportedVariant",
        }
    }
}

/// Why a variant was rejected.
#[derive(Clone, Copy, Debug, PartialEq, Eq, Structural)]
pub enum VariantRejectReason {
    BackendDoesNotSupportVariant,
    FontNotPortable,
    ExternalFontNotVerified,
    FontFaceMissing,
    FontBlobMissing,
    FontBlobNotPortable,
    FontBlobBytesMissing,
    FontBlobDataRefMismatch,
    FontBlobDigestMismatch,
    FaceIndexUnsupported,
    VariationUnsupported,
    GlyphIdOutOfRange,
    MissingGlyph,
    ClusterMismatch,
    UnsupportedPaintEffect,
    IncompleteVariantSet,
    VariantPartCountMismatch,
    VariantDuplicatePart,
    VariantPartsIncomplete,
    GlyphOutlineUnsupported,
    UnsupportedOutlinePayload,
    MixedGlyphOutlinePayload,
    EmptyGlyphOutlinePayload,
    GlyphOutlineStrokeStyleUnsupported,
    UnsupportedColorGlyph,
    UnsupportedBitmapGlyph,
    UnsupportedSvgGlyph,
    MissingGlyphPayloadResource,
    MixedPerGlyphAuthorityPending,
    GlyphTransformAuthorityPending,
    VerticalGlyphOrientationAuthorityPending,
    PositionAdjustedNotAllowed,
    PositionAdjustedResidualTooLarge,
}

/// The name a reason is reported under.
pub open spec fn variant_reject_reason_name(v: VariantRejectReason) -> Seq<char> {
    match v {
        VariantRejectReason::BackendDoesNotSupportVariant => "backendDoesNotSupportVariant"@,
        VariantRejectReason::FontNotPortable => "fontNotPortable"@,
        VariantRejectReason::ExternalFontNotVerified => "externalFontNotVerified"@,
        VariantRejectReason::FontFaceMissing => "fontFaceMissing"@,
        VariantRejectReason::FontBlobMissing => "fontBlobMissing"@,
        VariantRejectReason::FontBlobNotPortable => "fontBlobNotPortable"@,
        VariantRejectReason::FontBlobBytesMissing => "fontBlobBytesMissing"@,
        VariantRejectReason::FontBlobDataRefMismatch => "fontBlobDataRefMismatch"@,
        VariantRejectReason::FontBlobDigestMismatch => "fontBlobDigestMismatch"@,
        VariantRejectReason::FaceIndexUnsupported => "faceIndexUnsupported"@,
        VariantRejectReason::VariationUnsupported => "variationUnsupported"@,
        VariantRejectReason::GlyphIdOutOfRange => "glyphIdOutOfRange"@,
        VariantRejectReason::MissingGlyph => "missingGlyph"@,
        VariantRejectReason::ClusterMismatch => "clusterMismatch"@,
        VariantRejectReason::UnsupportedPaintEffect => "unsupportedPaintEffect"@,
        VariantRejectReason::IncompleteVariantSet => "incompleteVariantSet"@,
        VariantRejectReason::VariantPartCountMismatch => "variantPartCountMismatch"@,
        VariantRejectReason::VariantDuplicatePart => "variantDuplicatePart"@,
        VariantRejectReason::VariantPartsIncomplete => "variantPartsIncomplete"@,
        VariantRejectReason::GlyphOutlineUnsupported => "glyphOutlineUnsupported"@,
        VariantRejectReason::UnsupportedOutlinePayload => "unsupportedOutlinePayload"@,
        VariantRejectReason::MixedGlyphOutlinePayload => "mixedGlyphOutlinePayload"@,
        VariantRejectReason::EmptyGlyphOutlinePayload => "emptyGlyphOutlinePayload"@,
        VariantRejectReason::GlyphOutlineStrokeStyleUnsupported => "glyphOutlineStrokeStyleUnsupported"@,
        VariantRejectReason::UnsupportedColorGlyph => "unsupportedColorGlyph"@,
        VariantRejectReason::UnsupportedBitmapGlyph => "unsupportedBitmapGlyph"@,
        VariantRejectReason::UnsupportedSvgGlyph => "unsupportedSvgGlyph"@,
        VariantRejectReason::MissingGlyphPayloadResource => "missingGlyphPayloadResource"@,
        VariantRejectReason::MixedPerGlyphAuthorityPending => "mixedPerGlyphAuthorityPending"@,
        VariantRejectReason::GlyphTransformAuthorityPending => "glyphTransformAuthorityPending"@,
        VariantRejectReason::VerticalGlyphOrientationAuthorityPending => "verticalGlyphOrientationAuthorityPending"@,
        VariantRejectReason::PositionAdjustedNotAllowed => "positionAdjustedNotAllowed"@,
        VariantRejectReason::PositionAdjustedResidualTooLarge => "positionAdjustedResidualTooLarge"@,
    }
}

impl VariantRejectReason {
    /// The name this value is reported under.
    pub fn as_str(self) -> (r: &'static str)
        ensures
            r@ == variant_reject_reason_name(self),
    {
        match self {
            VariantRejectReason::BackendDoesNotSupportVariant => "backendDoesNotSupportVariant",
            VariantRejectReason::FontNotPortable => "fontNotPortable",
            VariantRejectReason::ExternalFontNotVerified => "externalFontNotVerified",
            VariantRejectReason::FontFaceMissing => "fontFaceMissing",
            VariantRejectReason::FontBlobMissing => "fontBlobMissing",
            VariantRejectReason::FontBlobNotPortable => "fontBlobNotPortable",
            VariantRejectReason::FontBlobBytesMissing => "fontBlobBytesMissing",
            VariantRejectReason::FontBlobDataRefMismatch => "fontBlobDataRefMismatch",
            VariantRejectReason::FontBlobDigestMismatch => "fontBlobDigestMismatch",
            VariantRejectReason::FaceIndexUnsupported => "faceIndexUnsupported",
            VariantRejectReason::VariationUnsupported => "variationUnsupported",
            VariantRejectReason::GlyphIdOutOfRange => "glyphIdOutOfRange",
            VariantRejectReason::MissingGlyph => "missingGlyph",
            VariantRejectReason::ClusterMismatch => "clusterMismatch",
            VariantRejectReason::UnsupportedPaintEffect => "unsupportedPaintEffect",
            VariantRejectReason::IncompleteVariantSet => "incompleteVariantSet",
            VariantRejectReason::VariantPartCountMismatch => "variantPartCountMismatch",
            VariantRejectReason::VariantDuplicatePart => "variantDuplicatePart",
            VariantRejectReason::VariantPartsIncomplete => "variantPartsIncomplete",
            VariantRejectReason::GlyphOutlineUnsupported => "glyphOutlineUnsupported",
            VariantRejectReason::UnsupportedOutlinePayload => "unsupportedOutlinePayload",
            VariantRejectReason::MixedGlyphOutlinePayload => "mixedGlyphOutlinePayload",
            VariantRejectReason::EmptyGlyphOutlinePayload => "emptyGlyphOutlinePayload",
            VariantRejectReason::GlyphOutlineStrokeStyleUnsupported => "glyphOutlineStrokeStyleUnsupported",
            VariantRejectReason::UnsupportedColorGlyph => "unsupportedColorGlyph",
            VariantRejectReason::UnsupportedBitmapGlyph => "unsupportedBitmapGlyph",
            VariantRejectReason::UnsupportedSvgGlyph => "unsupportedSvgGlyph",
            VariantRejectReason::MissingGlyphPayloadResource => "missingGlyphPayloadResource",
            VariantRejectReason::MixedPerGlyphAuthorityPending => "mixedPerGlyphAuthorityPending",
            VariantRejectReason::GlyphTransformAuthorityPending => "glyphTransformAuthorityPending",
            VariantRejectReason::VerticalGlyphOrientationAuthorityPending => "verticalGlyphOrientationAuthorityPending",
            VariantRejectReason::PositionAdjustedNotAllowed => "positionAdjustedNotAllowed",
            VariantRejectReason::PositionAdjustedResidualTooLarge => "positionAdjustedResidualTooLarge",
        }
    }
}

/// The selection made for one group of equivalent text variants.
pub struct TextVariantSelectionReport {
    pub backend: VariantSelectionBackend,
    pub equivalence_group: String,
    pub selected_variant_id: Option<String>,
    pub selected_variant_kind: Option<TextVariantKind>,
    pub selected_reason: VariantSelectedReason,
    pub fallback_required: bool,
    pub rejected_variants: Vec<TextVariantRejectReport>,
}

/// A rejected variant and the reasons it was rejected for.
pub struct TextVariantRejectReport {
    pub variant_id: String,
    pub variant_kind: TextVariantKind,
    pub reasons: Vec<VariantRejectReason>,
}

/// The reason recorded for selecting a glyph variant.
pub fn selected_reason_for_variant(variant_kind: TextVariantKind) -> (r: VariantSelectedReason)
    requires
        variant_kind != TextVariantKind::TextRun,
    ensures
        variant_kind == TextVariantKind::GlyphRun ==> r == VariantSelectedReason::GlyphRunStrictEligible,
        variant_kind == TextVariantKind::GlyphOutline ==> r
            == VariantSelectedReason::GlyphOutlineStrictProfile,
{
    match variant_kind {
        TextVariantKind::GlyphRun => VariantSelectedReason::GlyphRunStrictEligible,
        _ => VariantSelectedReason::GlyphOutlineStrictProfile,
    }
}


// ---------------------------------------------------------------------------
// Selecting among equivalent text variants.

/// The place of a reject reason in the order of the reason enum.
pub open spec fn reject_rank(r: VariantRejectReason) -> nat {
    match r {
        VariantRejectReason::BackendDoesNotSupportVariant => 0,
        VariantRejectReason::FontNotPortable => 1,
        VariantRejectReason::ExternalFontNotVerified => 2,
        VariantRejectReason::FontFaceMissing => 3,
        VariantRejectReason::FontBlobMissing => 4,
        VariantRejectReason::FontBlobNotPortable => 5,
        VariantRejectReason::FontBlobBytesMissing => 6,
        VariantRejectReason::FontBlobDataRefMismatch => 7,
        VariantRejectReason::FontBlobDigestMismatch => 8,
        VariantRejectReason::FaceIndexUnsupported => 9,
        VariantRejectReason::VariationUnsupported => 10,
        VariantRejectReason::GlyphIdOutOfRange => 11,
        VariantRejectReason::MissingGlyph => 12,
        VariantRejectReason::ClusterMismatch => 13,
        VariantRejectReason::UnsupportedPaintEffect => 14,
        VariantRejectReason::IncompleteVariantSet => 15,
        VariantRejectReason::VariantPartCountMismatch => 16,
        VariantRejectReason::VariantDuplicatePart => 17,
        VariantRejectReason::VariantPartsIncomplete => 18,
        VariantRejectReason::GlyphOutlineUnsupported => 19,
        VariantRejectReason::UnsupportedOutlinePayload => 20,
        VariantRejectReason::MixedGlyphOutlinePayload => 21,
        VariantRejectReason::EmptyGlyphOutlinePayload => 22,
        VariantRejectReason::GlyphOutlineStrokeStyleUnsupported => 23,
        VariantRejectReason::UnsupportedColorGlyph => 24,
        VariantRejectReason::UnsupportedBitmapGlyph => 25,
        VariantRejectReason::UnsupportedSvgGlyph => 26,
        VariantRejectReason::MissingGlyphPayloadResource => 27,
        VariantRejectReason::MixedPerGlyphAuthorityPending => 28,
        VariantRejectReason::GlyphTransformAuthorityPending => 29,
        VariantRejectReason::VerticalGlyphOrientationAuthorityPending => 30,
        VariantRejectReason::PositionAdjustedNotAllowed => 31,
        VariantRejectReason::PositionAdjustedResidualTooLarge => 32,
    }
}

/// The reject reason at a place of the enum order.
pub open spec fn reject_at(i: int) -> VariantRejectReason {
    if i == 0 {
        VariantRejectReason::BackendDoesNotSupportVariant
    } else if i == 1 {
        VariantRejectReason::FontNotPortable
    } else if i == 2 {
        VariantRejectReason::ExternalFontNotVerified
    } else if i == 3 {
        VariantRejectReason::FontFaceMissing
    } else if i == 4 {
        VariantRejectReason::FontBlobMissing
    } else if i == 5 {
        VariantRejectReason::FontBlobNotPortable
    } else if i == 6 {
        VariantRejectReason::FontBlobBytesMissing
    } else if i == 7 {
        VariantRejectReason::FontBlobDataRefMismatch
    } else if i == 8 {
        VariantRejectReason::FontBlobDigestMismatch
    } else if i == 9 {
        VariantRejectReason::FaceIndexUnsupported
    } else if i == 10 {
        VariantRejectReason::VariationUnsupported
    } else if i == 11 {
        VariantRejectReason::GlyphIdOutOfRange
    } else if i == 12 {
        VariantRejectReason::MissingGlyph
    } else if i == 13 {
        VariantRejectReason::ClusterMismatch
    } else if i == 14 {
        VariantRejectReason::UnsupportedPaintEffect
    } else if i == 15 {
        VariantRejectReason::IncompleteVariantSet
    } else if i == 16 {
        VariantRejectReason::VariantPartCountMismatch
    } else if i == 17 {
        VariantRejectReason::VariantDuplicatePart
    } else if i == 18 {
        VariantRejectReason::VariantPartsIncomplete
    } else if i == 19 {
        VariantRejectReason::GlyphOutlineUnsupported
    } else if i == 20 {
        VariantRejectReason::UnsupportedOutlinePayload
    } else if i == 21 {
        VariantRejectReason::MixedGlyphOutlinePayload
    } else if i == 22 {
        VariantRejectReason::EmptyGlyphOutlinePayload
    } else if i == 23 {
        VariantRejectReason::GlyphOutlineStrokeStyleUnsupported
    } else if i == 24 {
        VariantRejectReason::UnsupportedColorGlyph
    } else if i == 25 {
        VariantRejectReason::UnsupportedBitmapGlyph
    } else if i == 26 {
        VariantRejectReason::UnsupportedSvgGlyph
    } else if i == 27 {
        VariantRejectReason::MissingGlyphPayloadResource
    } else if i == 28 {
        VariantRejectReason::MixedPerGlyphAuthorityPending
    } else if i == 29 {
        VariantRejectReason::GlyphTransformAuthorityPending
    } else if i == 30 {
        VariantRejectReason::VerticalGlyphOrientationAuthorityPending
    } else if i == 31 {
        VariantRejectReason::PositionAdjustedNotAllowed
    } else {
        VariantRejectReason::PositionAdjustedResidualTooLarge
    }
}

/// The number of reject reasons.
pub open spec fn reject_count() -> nat {
    33
}

proof fn lemma_reject_rank(r: VariantRejectReason)
    ensures
        reject_rank(r) < reject_count(),
        reject_at(reject_rank(r) as int) == r,
{
}

fn reject_rank_exec(r: VariantRejectReason) -> (k: usize)
    ensures
        k == reject_rank(r),
{
    match r {
        VariantRejectReason::BackendDoesNotSupportVariant => 0,
        VariantRejectReason::FontNotPortable => 1,
        VariantRejectReason::ExternalFontNotVerified => 2,
        VariantRejectReason::FontFaceMissing => 3,
        VariantRejectReason::FontBlobMissing => 4,
        VariantRejectReason::FontBlobNotPortable => 5,
        VariantRejectReason::FontBlobBytesMissing => 6,
        VariantRejectReason::FontBlobDataRefMismatch => 7,
        VariantRejectReason::FontBlobDigestMismatch => 8,
        VariantRejectReason::FaceIndexUnsupported => 9,
        VariantRejectReason::VariationUnsupported => 10,
        VariantRejectReason::GlyphIdOutOfRange => 11,
        VariantRejectReason::MissingGlyph => 12,
        VariantRejectReason::ClusterMismatch => 13,
        VariantRejectReason::UnsupportedPaintEffect => 14,
        VariantRejectReason::IncompleteVariantSet => 15,
        VariantRejectReason::VariantPartCountMismatch => 16,
        VariantRejectReason::VariantDuplicatePart => 17,
        VariantRejectReason::VariantPartsIncomplete => 18,
        VariantRejectReason::GlyphOutlineUnsupported => 19,
        VariantRejectReason::UnsupportedOutlinePayload => 20,
        VariantRejectReason::MixedGlyphOutlinePayload => 21,
        VariantRejectReason::EmptyGlyphOutlinePayload => 22,
        VariantRejectReason::GlyphOutlineStrokeStyleUnsupported => 23,
        VariantRejectReason::UnsupportedColorGlyph => 24,
        VariantRejectReason::UnsupportedBitmapGlyph => 25,
        VariantRejectReason::UnsupportedSvgGlyph => 26,
        VariantRejectReason::MissingGlyphPayloadResource => 27,
        VariantRejectReason::MixedPerGlyphAuthorityPending => 28,
        VariantRejectReason::GlyphTransformAuthorityPending => 29,
        VariantRejectReason::VerticalGlyphOrientationAuthorityPending => 30,
        VariantRejectReason::PositionAdjustedNotAllowed => 31,
        VariantRejectReason::PositionAdjustedResidualTooLarge => 32,
    }
}

fn reject_at_exec(i: usize) -> (r: VariantRejectReason)
    requires
        i < reject_count(),
    ensures
        r == reject_at(i as int),
{
        if i == 0 {
            VariantRejectReason::BackendDoesNotSupportVariant
        } else if i == 1 {
            VariantRejectReason::FontNotPortable
        } else if i == 2 {
            VariantRejectReason::ExternalFontNotVerified
        } else if i == 3 {
            VariantRejectReason::FontFaceMissing
        } else if i == 4 {
            VariantRejectReason::FontBlobMissing
        } else if i == 5 {
            VariantRejectReason::FontBlobNotPortable
        } else if i == 6 {
            VariantRejectReason::FontBlobBytesMissing
        } else if i == 7 {
            VariantRejectReason::FontBlobDataRefMismatch
        } else if i == 8 {
            VariantRejectReason::FontBlobDigestMismatch
        } else if i == 9 {
            VariantRejectReason::FaceIndexUnsupported
        } else if i == 10 {
            VariantRejectReason::VariationUnsupported
        } else if i == 11 {
            VariantRejectReason::GlyphIdOutOfRange
        } else if i == 12 {
            VariantRejectReason::MissingGlyph
        } else if i == 13 {
            VariantRejectReason::ClusterMismatch
        } else if i == 14 {
            VariantRejectReason::UnsupportedPaintEffect
        } else if i == 15 {
            VariantRejectReason::IncompleteVariantSet
        } else if i == 16 {
            VariantRejectReason::VariantPartCountMismatch
        } else if i == 17 {
            VariantRejectReason::VariantDuplicatePart
        } else if i == 18 {
            VariantRejectReason::VariantPartsIncomplete
        } else if i == 19 {
            VariantRejectReason::GlyphOutlineUnsupported
        } else if i == 20 {
            VariantRejectReason::UnsupportedOutlinePayload
        } else if i == 21 {
            VariantRejectReason::MixedGlyphOutlinePayload
        } else if i == 22 {
            VariantRejectReason::EmptyGlyphOutlinePayload
        } else if i == 23 {
            VariantRejectReason::GlyphOutlineStrokeStyleUnsupported
        } else if i == 24 {
            VariantRejectReason::UnsupportedColorGlyph
        } else if i == 25 {
            VariantRejectReason::UnsupportedBitmapGlyph
        } else if i == 26 {
            VariantRejectReason::UnsupportedSvgGlyph
        } else if i == 27 {
            VariantRejectReason::MissingGlyphPayloadResource
        } else if i == 28 {
            VariantRejectReason::MixedPerGlyphAuthorityPending
        } else if i == 29 {
            VariantRejectReason::GlyphTransformAuthorityPending
        } else if i == 30 {
            VariantRejectReason::VerticalGlyphOrientationAuthorityPending
        } else if i == 31 {
            VariantRejectReason::PositionAdjustedNotAllowed
        } else {
            VariantRejectReason::PositionAdjustedResidualTooLarge
        }
}

/// The reasons of the first `n` places of the enum order that `holds`
/// picks, in that order.
pub open spec fn reasons_below(holds: spec_fn(VariantRejectReason) -> bool, n: int) -> Seq<
    VariantRejectReason,
>
    decreases n,
{
    if n <= 0 {
        Seq::empty()
    } else if holds(reject_at(n - 1)) {
        reasons_below(holds, n - 1).push(reject_at(n - 1))
    } else {
        reasons_below(holds, n - 1)
    }
}

/// The reasons `holds` picks, each once, in the order of the reason enum.
pub open spec fn reasons_in_order(holds: spec_fn(VariantRejectReason) -> bool) -> Seq<
    VariantRejectReason,
> {
    reasons_below(holds, reject_count() as int)
}

fn reasons_from_flags(
    flags: &Vec<bool>,
    Ghost(holds): Ghost<spec_fn(VariantRejectReason) -> bool>,
) -> (v: Vec<VariantRejectReason>)
    requires
        flags@.len() == reject_count(),
        forall|i: int| 0 <= i < reject_count() ==> flags@[i] == holds(#[trigger] reject_at(i)),
    ensures
        v@ == reasons_in_order(holds),
{
    let mut v: Vec<VariantRejectReason> = Vec::new();
    let mut i: usize = 0;
    while i < flags.len()
        invariant
            flags@.len() == reject_count(),
            forall|j: int| 0 <= j < reject_count() ==> flags@[j] == holds(#[trigger] reject_at(j)),
            i <= flags@.len(),
            v@ == reasons_below(holds, i as int),
        decreases flags.len() - i,
    {
        assert(flags@[i as int] == holds(reject_at(i as int)));
        if flags[i] {
            v.push(reject_at_exec(i));
        }
        i += 1;
    }
    v
}

fn no_flags() -> (f: Vec<bool>)
    ensures
        f@.len() == reject_count(),
        forall|i: int| 0 <= i < reject_count() ==> !#[trigger] f@[i],
{
    let mut f: Vec<bool> = Vec::new();
    let mut i: usize = 0;
    while i < 33
        invariant
            i <= 33,
            f@.len() == i,
            forall|j: int| 0 <= j < i ==> !#[trigger] f@[j],
        decreases 33 - i,
    {
        f.push(false);
        i += 1;
    }
    f
}

fn set_flag(f: &mut Vec<bool>, r: VariantRejectReason)
    requires
        old(f)@.len() == reject_count(),
    ensures
        final(f)@ == old(f)@.update(reject_rank(r) as int, true),
{
    let k = reject_rank_exec(r);
    f.set(k, true);
}

/// The smallest of a list of part counts, 0 for none.
pub open spec fn smallest(s: Seq<u32>) -> u32
    decreases s.len(),
{
    if s.len() == 0 {
        0
    } else if s.len() == 1 {
        s[0]
    } else if s.last() < smallest(s.drop_last()) {
        s.last()
    } else {
        smallest(s.drop_last())
    }
}

/// A variant of a group as it is gathered: where it was first met, its id
/// and kind, the part counts its parts declare (each once), the part
/// indices met (each once), and whether some index was met twice.
pub struct TextVariantCandidate {
    pub order: usize,
    pub variant_id: String,
    pub variant_kind: TextVariantKind,
    pub part_counts: Vec<u32>,
    pub present_parts: Vec<u32>,
    pub duplicate_part: bool,
}

/// A structural reason to reject a candidate: it declares no part count or
/// a zero one, or several; an index came twice; or its indices are not
/// exactly `0..count`.
pub open spec fn structure_holds(c: TextVariantCandidate, r: VariantRejectReason) -> bool {
    let expected = smallest(c.part_counts@);
    ||| r == VariantRejectReason::IncompleteVariantSet && (c.part_counts@.len() == 0
        || c.part_counts@.contains(0))
    ||| r == VariantRejectReason::VariantPartCountMismatch && c.part_counts@.len() > 1
    ||| r == VariantRejectReason::VariantDuplicatePart && c.duplicate_part
    ||| r == VariantRejectReason::VariantPartsIncomplete && (expected == 0 || (
    c.present_parts@.len() as u32) != expected || exists|i: u32|
        i < expected && !c.present_parts@.contains(i))
}

/// Whether a backend cannot replay a kind of variant.
pub open spec fn backend_rejects(b: VariantSelectionBackend, k: TextVariantKind) -> bool {
    match k {
        TextVariantKind::GlyphRun => !(b == VariantSelectionBackend::CanvasKit || b
            == VariantSelectionBackend::NativeSkia),
        TextVariantKind::GlyphOutline => b == VariantSelectionBackend::Canvas2D,
        TextVariantKind::TextRun => false,
    }
}

/// Why a candidate is rejected: its structure, its backend, and the
/// reasons found in its glyph runs or outlines.
pub open spec fn candidate_rejects(
    c: TextVariantCandidate,
    backend: VariantSelectionBackend,
    glyph: Seq<VariantRejectReason>,
) -> spec_fn(VariantRejectReason) -> bool {
    |r: VariantRejectReason|
        structure_holds(c, r) || (r == VariantRejectReason::BackendDoesNotSupportVariant
            && backend_rejects(backend, c.variant_kind)) || glyph.contains(r)
}

/// `x` added at the end unless it is there already.
pub open spec fn push_unique_spec(s: Seq<u32>, x: u32) -> Seq<u32> {
    if s.contains(x) {
        s
    } else {
        s.push(x)
    }
}

fn push_unique(v: &mut Vec<u32>, x: u32) -> (was: bool)
    requires
        old(v)@.no_duplicates(),
    ensures
        was == old(v)@.contains(x),
        final(v)@.no_duplicates(),
        final(v)@ == (if was {
            old(v)@
        } else {
            old(v)@.push(x)
        }),
{
    let mut i: usize = 0;
    while i < v.len()
        invariant
            v@ == old(v)@,
            old(v)@.no_duplicates(),
            i <= v@.len(),
            forall|j: int| 0 <= j < i ==> v@[j] != x,
        decreases v.len() - i,
    {
        if v[i] == x {
            return true;
        }
        i += 1;
    }
    assert(!old(v)@.contains(x));
    v.push(x);
    assert(v@.no_duplicates()) by {
        assert forall|a: int, b: int| 0 <= a < b < v@.len() implies v@[a] != v@[b] by {
            if b == v@.len() - 1 {
                assert(v@[a] == old(v)@[a]);
            }
        }
    }
    false
}

impl TextVariantCandidate {
    /// Each part count and each part index is held once.
    pub open spec fn wf(self) -> bool {
        self.part_counts@.no_duplicates() && self.present_parts@.no_duplicates()
    }

    /// A candidate met for the first time, with no part yet.
    pub fn new(order: usize, variant_id: String, variant_kind: TextVariantKind) -> (c: Self)
        ensures
            c.wf(),
            c.order == order,
            c.variant_id == variant_id,
            c.variant_kind == variant_kind,
            c.part_counts@.len() == 0,
            c.present_parts@.len() == 0,
            !c.duplicate_part,
    {
        TextVariantCandidate {
            order,
            variant_id,
            variant_kind,
            part_counts: Vec::new(),
            present_parts: Vec::new(),
            duplicate_part: false,
        }
    }

    fn add_part(&mut self, part_count: u32, part_index: u32)
        requires
            old(self).wf(),
        ensures
            final(self).wf(),
            final(self).order == old(self).order,
            final(self).variant_id == old(self).variant_id,
            final(self).variant_kind == old(self).variant_kind,
            final(self).part_counts@.to_set() == old(self).part_counts@.to_set().insert(part_count),
            final(self).present_parts@.to_set() == old(self).present_parts@.to_set().insert(
                part_index,
            ),
            final(self).duplicate_part == (old(self).duplicate_part || old(
                self,
            ).present_parts@.contains(part_index)),
            final(self).part_counts@ == push_unique_spec(old(self).part_counts@, part_count),
            final(self).present_parts@ == push_unique_spec(old(self).present_parts@, part_index),
    {
        let ghost oc = self.part_counts@;
        let ghost op = self.present_parts@;
        let _ = push_unique(&mut self.part_counts, part_count);
        let was = push_unique(&mut self.present_parts, part_index);
        self.duplicate_part = self.duplicate_part || was;
        proof {
            broadcast use vstd::seq_lib::group_seq_properties;
            assert(self.part_counts@.to_set() =~= oc.to_set().insert(part_count));
            assert(self.present_parts@.to_set() =~= op.to_set().insert(part_index));
        }
    }

    /// Adds a glyph run that is part `part_index` of `part_count`.
    pub fn add_glyph_run(&mut self, part_count: u32, part_index: u32)
        requires
            old(self).wf(),
        ensures
            final(self).wf(),
            final(self).order == old(self).order,
            final(self).variant_id == old(self).variant_id,
            final(self).variant_kind == old(self).variant_kind,
            final(self).part_counts@.to_set() == old(self).part_counts@.to_set().insert(part_count),
            final(self).present_parts@.to_set() == old(self).present_parts@.to_set().insert(
                part_index,
            ),
            final(self).duplicate_part == (old(self).duplicate_part || old(
                self,
            ).present_parts@.contains(part_index)),
            final(self).part_counts@ == push_unique_spec(old(self).part_counts@, part_count),
            final(self).present_parts@ == push_unique_spec(old(self).present_parts@, part_index),
    {
        self.add_part(part_count, part_index);
    }

    /// Adds a glyph outline that is part `part_index` of `part_count`.
    pub fn add_glyph_outline(&mut self, part_count: u32, part_index: u32)
        requires
            old(self).wf(),
        ensures
            final(self).wf(),
            final(self).order == old(self).order,
            final(self).variant_id == old(self).variant_id,
            final(self).variant_kind == old(self).variant_kind,
            final(self).part_counts@.to_set() == old(self).part_counts@.to_set().insert(part_count),
            final(self).present_parts@.to_set() == old(self).present_parts@.to_set().insert(
                part_index,
            ),
            final(self).duplicate_part == (old(self).duplicate_part || old(
                self,
            ).present_parts@.contains(part_index)),
            final(self).part_counts@ == push_unique_spec(old(self).part_counts@, part_count),
            final(self).present_parts@ == push_unique_spec(old(self).present_parts@, part_index),
    {
        self.add_part(part_count, part_index);
    }
}


fn seq_has(v: &Vec<u32>, x: u32) -> (b: bool)
    ensures
        b == v@.contains(x),
{
    let mut i: usize = 0;
    while i < v.len()
        invariant
            i <= v@.len(),
            forall|j: int| 0 <= j < i ==> v@[j] != x,
        decreases v.len() - i,
    {
        if v[i] == x {
            return true;
        }
        i += 1;
    }
    false
}

fn smallest_of(v: &Vec<u32>) -> (m: u32)
    ensures
        m == smallest(v@),
{
    if v.len() == 0 {
        return 0;
    }
    let mut m = v[0];
    let mut k: usize = 1;
    assert(v@.take(1).drop_last() =~= Seq::<u32>::empty());
    assert(smallest(v@.take(1)) == v@[0]);
    while k < v.len()
        invariant
            1 <= k <= v@.len(),
            m == smallest(v@.take(k as int)),
        decreases v.len() - k,
    {
        assert(v@.take(k + 1).drop_last() =~= v@.take(k as int));
        assert(v@.take(k + 1).last() == v@[k as int]);
        if v[k] < m {
            m = v[k];
        }
        k += 1;
    }
    assert(v@.take(v@.len() as int) =~= v@);
    m
}

impl TextVariantCandidate {
    /// Sets the flag of each structural reason that holds.
    fn collect_structure_reasons(&self, flags: &mut Vec<bool>)
        requires
            old(flags)@.len() == reject_count(),
        ensures
            final(flags)@.len() == reject_count(),
            forall|i: int|
                0 <= i < reject_count() ==> #[trigger] final(flags)@[i] == (old(flags)@[i]
                    || structure_holds(*self, reject_at(i))),
    {
        let incomplete = self.part_counts.len() == 0 || seq_has(&self.part_counts, 0);
        let mismatch = self.part_counts.len() > 1;
        let duplicate = self.duplicate_part;
        let expected = smallest_of(&self.part_counts);
        let mut parts_incomplete = expected == 0 || (self.present_parts.len() as u32) != expected;
        if !parts_incomplete {
            let mut missing = false;
            let mut i: u32 = 0;
            while i < expected && !missing
                invariant
                    i <= expected,
                    !missing ==> forall|j: u32| j < i ==> self.present_parts@.contains(j),
                    missing ==> exists|j: u32| j < expected && !self.present_parts@.contains(j),
                decreases expected - i,
            {
                if !seq_has(&self.present_parts, i) {
                    assert(i < expected && !self.present_parts@.contains(i));
                    missing = true;
                }
                i += 1;
            }
            parts_incomplete = missing;
        }
        assert(parts_incomplete == (expected == 0 || (self.present_parts@.len() as u32) != expected
            || exists|j: u32| j < expected && !self.present_parts@.contains(j)));
        let ghost before = flags@;
        if incomplete {
            set_flag(flags, VariantRejectReason::IncompleteVariantSet);
        }
        if mismatch {
            set_flag(flags, VariantRejectReason::VariantPartCountMismatch);
        }
        if duplicate {
            set_flag(flags, VariantRejectReason::VariantDuplicatePart);
        }
        if parts_incomplete {
            set_flag(flags, VariantRejectReason::VariantPartsIncomplete);
        }
        assert forall|i: int| 0 <= i < reject_count() implies #[trigger] flags@[i] == (before[i]
            || structure_holds(*self, reject_at(i))) by {
            if i == 15 {
            } else if i == 16 {
            } else if i == 17 {
            } else if i == 18 {
            } else {
                assert(!structure_holds(*self, reject_at(i)));
            }
        }
    }

    /// The reasons to reject this candidate, each once, in enum order: its
    /// structural reasons, the backend's, and `glyph_reasons`, those found
    /// in its glyph runs or outlines.
    pub fn reject_reasons(
        &self,
        backend: VariantSelectionBackend,
        glyph_reasons: &Vec<VariantRejectReason>,
    ) -> (r: Vec<VariantRejectReason>)
        requires
            self.variant_kind != TextVariantKind::TextRun,
        ensures
            r@ == reasons_in_order(candidate_rejects(*self, backend, glyph_reasons@)),
    {
        let mut flags = no_flags();
        self.collect_structure_reasons(&mut flags);
        let unsupported = match self.variant_kind {
            TextVariantKind::GlyphRun => !(backend == VariantSelectionBackend::CanvasKit || backend
                == VariantSelectionBackend::NativeSkia),
            _ => backend == VariantSelectionBackend::Canvas2D,
        };
        if unsupported {
            set_flag(&mut flags, VariantRejectReason::BackendDoesNotSupportVariant);
        }
        let ghost mid = flags@;
        let mut k: usize = 0;
        while k < glyph_reasons.len()
            invariant
                flags@.len() == reject_count(),
                k <= glyph_reasons@.len(),
                forall|i: int|
                    0 <= i < reject_count() ==> #[trigger] flags@[i] == (mid[i] || exists|j: int|
                        0 <= j < k && glyph_reasons@[j] == reject_at(i)),
            decreases glyph_reasons.len() - k,
        {
            let r = glyph_reasons[k];
            let ghost before = flags@;
            set_flag(&mut flags, r);
            proof {
                lemma_reject_rank(r);
                assert forall|i: int| 0 <= i < reject_count() implies #[trigger] flags@[i] == (mid[i]
                    || exists|j: int| 0 <= j < k + 1 && glyph_reasons@[j] == reject_at(i)) by {
                    if i == reject_rank(r) {
                        assert(glyph_reasons@[k as int] == reject_at(i));
                    } else {
                        if exists|j: int| 0 <= j < k + 1 && glyph_reasons@[j] == reject_at(i) {
                            let j = choose|j: int| 0 <= j < k + 1 && glyph_reasons@[j] == reject_at(i);
                            if j == k {
                                lemma_reject_rank(reject_at(i));
                                assert(reject_rank(reject_at(i)) == i) by {
                                    assert(0 <= i < 33);
                                }
                            }
                        }
                    }
                }
            }
            k += 1;
        }
        let ghost holds = candidate_rejects(*self, backend, glyph_reasons@);
        proof {
            assert forall|i: int| 0 <= i < reject_count() implies flags@[i] == holds(
                #[trigger] reject_at(i),
            ) by {
                if glyph_reasons@.contains(reject_at(i)) {
                    let j = choose|j: int| 0 <= j < glyph_reasons@.len() && glyph_reasons@[j] == reject_at(i);
                    assert(0 <= j < glyph_reasons@.len() && glyph_reasons@[j] == reject_at(i));
                }
            }
        }
        reasons_from_flags(&flags, Ghost(holds))
    }
}


/// A candidate's discovery order, id and kind, with the reasons it was
/// rejected for.
pub struct EvaluatedTextVariantCandidate {
    pub order: usize,
    pub variant_id: String,
    pub variant_kind: TextVariantKind,
    pub reasons: Vec<VariantRejectReason>,
}

/// What an evaluated candidate is, as plain values.
pub open spec fn ev_view(e: EvaluatedTextVariantCandidate) -> (
    usize,
    Seq<char>,
    TextVariantKind,
    Seq<VariantRejectReason>,
) {
    (e.order, e.variant_id@, e.variant_kind, e.reasons@)
}

pub open spec fn ev_views(v: Seq<EvaluatedTextVariantCandidate>) -> Seq<
    (usize, Seq<char>, TextVariantKind, Seq<VariantRejectReason>),
> {
    v.map_values(|e: EvaluatedTextVariantCandidate| ev_view(e))
}

/// The first place at or after `k` whose order is greater than `o`.
pub open spec fn first_greater(
    s: Seq<(usize, Seq<char>, TextVariantKind, Seq<VariantRejectReason>)>,
    o: usize,
    k: int,
) -> int
    decreases s.len() - k,
{
    if k >= s.len() || k < 0 {
        s.len() as int
    } else if s[k].0 > o {
        k
    } else {
        first_greater(s, o, k + 1)
    }
}

/// The list sorted by discovery order, keeping equal orders as they came
/// (a stable sort, element by element).
pub open spec fn sort_by_order(s: Seq<(usize, Seq<char>, TextVariantKind, Seq<VariantRejectReason>)>) -> Seq<
    (usize, Seq<char>, TextVariantKind, Seq<VariantRejectReason>),
>
    decreases s.len(),
{
    if s.len() == 0 {
        s
    } else {
        let t = sort_by_order(s.drop_last());
        t.insert(first_greater(t, s.last().0, 0), s.last())
    }
}

/// The rejected candidates, in order: those with a reason.
pub open spec fn rejected_views(s: Seq<(usize, Seq<char>, TextVariantKind, Seq<VariantRejectReason>)>) -> Seq<
    (Seq<char>, TextVariantKind, Seq<VariantRejectReason>),
>
    decreases s.len(),
{
    if s.len() == 0 {
        Seq::empty()
    } else if s.last().3.len() > 0 {
        rejected_views(s.drop_last()).push((s.last().1, s.last().2, s.last().3))
    } else {
        rejected_views(s.drop_last())
    }
}

/// The first candidate at or after `k` of a kind with no reason.
pub open spec fn first_clean(
    s: Seq<(usize, Seq<char>, TextVariantKind, Seq<VariantRejectReason>)>,
    kind: TextVariantKind,
    k: int,
) -> Option<int>
    decreases s.len() - k,
{
    if k >= s.len() || k < 0 {
        None
    } else if s[k].2 == kind && s[k].3.len() == 0 {
        Some(k)
    } else {
        first_clean(s, kind, k + 1)
    }
}

/// The candidate selected: the first clean outline when strict outlines are
/// preferred, else the first clean glyph run; failing that, the other kind.
pub open spec fn selected_index(
    s: Seq<(usize, Seq<char>, TextVariantKind, Seq<VariantRejectReason>)>,
    prefer_strict_outline: bool,
) -> Option<int> {
    let (a, b) = if prefer_strict_outline {
        (TextVariantKind::GlyphOutline, TextVariantKind::GlyphRun)
    } else {
        (TextVariantKind::GlyphRun, TextVariantKind::GlyphOutline)
    };
    match first_clean(s, a, 0) {
        Some(i) => Some(i),
        None => first_clean(s, b, 0),
    }
}

/// What a reject report is, as plain values.
pub open spec fn reject_report_views(v: Seq<TextVariantRejectReport>) -> Seq<
    (Seq<char>, TextVariantKind, Seq<VariantRejectReason>),
> {
    v.map_values(|r: TextVariantRejectReport| (r.variant_id@, r.variant_kind, r.reasons@))
}

/// The report made from candidates in discovery order: the selection, or
/// the text-run fallback (when the group has one) or none, and the
/// rejected candidates.
pub open spec fn report_is(
    r: TextVariantSelectionReport,
    s: Seq<(usize, Seq<char>, TextVariantKind, Seq<VariantRejectReason>)>,
    backend: VariantSelectionBackend,
    group: Seq<char>,
    fallback_present: bool,
    prefer_strict_outline: bool,
) -> bool {
    &&& r.backend == backend
    &&& r.equivalence_group@ == group
    &&& reject_report_views(r.rejected_variants@) == rejected_views(s)
    &&& match selected_index(s, prefer_strict_outline) {
        Some(i) => {
            &&& r.selected_variant_id matches Some(id) && id@ == s[i].1
            &&& r.selected_variant_kind == Some(s[i].2)
            &&& r.selected_reason == (if s[i].2 == TextVariantKind::GlyphRun {
                VariantSelectedReason::GlyphRunStrictEligible
            } else {
                VariantSelectedReason::GlyphOutlineStrictProfile
            })
            &&& !r.fallback_required
        },
        None => {
            &&& (if fallback_present {
                r.selected_variant_id matches Some(id) && id@ == "textRun"@
            } else {
                r.selected_variant_id is None
            })
            &&& r.selected_variant_kind == (if fallback_present {
                Some(TextVariantKind::TextRun)
            } else {
                None
            })
            &&& r.selected_reason == (if fallback_present {
                VariantSelectedReason::DefaultTextRunFallback
            } else {
                VariantSelectedReason::NoSupportedVariant
            })
            &&& r.fallback_required
        },
    }
}

/// Chooses among a group's evaluated candidates: sorts them by discovery
/// order, reports those rejected, and selects as `selected_index` says or
/// falls back to the group's text run.
pub fn select_text_variant(
    evaluated: Vec<EvaluatedTextVariantCandidate>,
    equivalence_group: String,
    backend: VariantSelectionBackend,
    fallback_present: bool,
    prefer_strict_outline: bool,
) -> (r: TextVariantSelectionReport)
    requires
        forall|k: int| 0 <= k < evaluated@.len() ==> #[trigger] evaluated@[k].variant_kind != TextVariantKind::TextRun,
    ensures
        report_is(
            r,
            sort_by_order(ev_views(evaluated@)),
            backend,
            equivalence_group@,
            fallback_present,
            prefer_strict_outline,
        ),
{
    let ghost input = ev_views(evaluated@);
    // sort by order, stably
    let mut rest = evaluated;
    let mut sorted: Vec<EvaluatedTextVariantCandidate> = Vec::new();
    let ghost mut taken: int = 0;
    assert(input.take(0) =~= Seq::<(usize, Seq<char>, TextVariantKind, Seq<VariantRejectReason>)>::empty());
    assert(input.skip(0) =~= input);
    while rest.len() > 0
        invariant
            0 <= taken <= input.len(),
            input.len() == taken + rest@.len(),
            ev_views(rest@) == input.skip(taken),
            ev_views(sorted@) == sort_by_order(input.take(taken)),
            forall|k: int| 0 <= k < rest@.len() ==> #[trigger] rest@[k].variant_kind != TextVariantKind::TextRun,
            forall|k: int| 0 <= k < sorted@.len() ==> #[trigger] sorted@[k].variant_kind != TextVariantKind::TextRun,
        decreases rest.len(),
    {
        let ghost r0 = rest@;
        let e = rest.remove(0);
        proof {
            assert(rest@ =~= r0.subrange(1, r0.len() as int));
            assert(ev_views(rest@) =~= ev_views(r0).skip(1));
        }
        let ghost t = ev_views(sorted@);
        let mut p: usize = 0;
        while p < sorted.len() && sorted[p].order <= e.order
            invariant
                p <= sorted@.len(),
                t == ev_views(sorted@),
                first_greater(t, e.order, 0) == first_greater(t, e.order, p as int),
            decreases sorted.len() - p,
        {
            p += 1;
        }
        proof {
            assert(input.skip(taken)[0] == ev_view(e));
            assert(input.take(taken + 1).drop_last() =~= input.take(taken));
            assert(input.take(taken + 1).last() == ev_view(e));
        }
        sorted.insert(p, e);
        proof {
            assert(ev_views(sorted@) =~= t.insert(p as int, ev_view(e)));
            assert(ev_views(rest@) =~= input.skip(taken + 1));
            taken = taken + 1;
        }
    }
    proof {
        assert(input.take(taken) =~= input);
    }
    let ghost s = ev_views(sorted@);
    // the selection
    let (first_kind, second_kind) = if prefer_strict_outline {
        (TextVariantKind::GlyphOutline, TextVariantKind::GlyphRun)
    } else {
        (TextVariantKind::GlyphRun, TextVariantKind::GlyphOutline)
    };
    let mut sel: Option<usize> = None;
    let mut i: usize = 0;
    while i < sorted.len() && sel.is_none()
        invariant
            s == ev_views(sorted@),
            i <= sorted@.len(),
            sel is None ==> first_clean(s, first_kind, 0) == first_clean(s, first_kind, i as int),
            sel matches Some(j) ==> first_clean(s, first_kind, 0) == Some(j as int) && j < sorted@.len(),
        decreases sorted.len() - i,
    {
        if sorted[i].variant_kind == first_kind && sorted[i].reasons.len() == 0 {
            sel = Some(i);
        }
        i += 1;
    }
    if sel.is_none() {
        let mut i: usize = 0;
        while i < sorted.len() && sel.is_none()
            invariant
                s == ev_views(sorted@),
                i <= sorted@.len(),
                first_clean(s, first_kind, 0) is None,
                sel is None ==> first_clean(s, second_kind, 0) == first_clean(s, second_kind, i as int),
                sel matches Some(j) ==> first_clean(s, second_kind, 0) == Some(j as int) && j < sorted@.len(),
            decreases sorted.len() - i,
        {
            if sorted[i].variant_kind == second_kind && sorted[i].reasons.len() == 0 {
                sel = Some(i);
            }
            i += 1;
        }
    }
    assert(match sel {
        Some(j) => selected_index(s, prefer_strict_outline) == Some(j as int),
        None => selected_index(s, prefer_strict_outline) is None,
    });
    let selected: Option<(String, TextVariantKind)> = match sel {
        Some(j) => Some((sorted[j].variant_id.clone(), sorted[j].variant_kind)),
        None => None,
    };
    // the rejected candidates, in order
    let mut rejected: Vec<TextVariantRejectReport> = Vec::new();
    let mut left = sorted;
    let ghost mut done: int = 0;
    assert(s.take(0) =~= Seq::<(usize, Seq<char>, TextVariantKind, Seq<VariantRejectReason>)>::empty());
    assert(s.skip(0) =~= s);
    while left.len() > 0
        invariant
            0 <= done <= s.len(),
            s.len() == done + left@.len(),
            ev_views(left@) == s.skip(done),
            reject_report_views(rejected@) == rejected_views(s.take(done)),
        decreases left.len(),
    {
        let ghost l0 = left@;
        let e = left.remove(0);
        proof {
            assert(left@ =~= l0.subrange(1, l0.len() as int));
            assert(ev_views(left@) =~= ev_views(l0).skip(1));
            assert(s.skip(done)[0] == ev_view(e));
            assert(s.take(done + 1).drop_last() =~= s.take(done));
            assert(s.take(done + 1).last() == ev_view(e));
        }
        let ghost before = reject_report_views(rejected@);
        if e.reasons.len() > 0 {
            let rep = TextVariantRejectReport {
                variant_id: e.variant_id,
                variant_kind: e.variant_kind,
                reasons: e.reasons,
            };
            rejected.push(rep);
            proof {
                assert(reject_report_views(rejected@) =~= before.push((rep.variant_id@, rep.variant_kind, rep.reasons@)));
            }
        }
        proof {
            assert(ev_views(left@) =~= s.skip(done + 1));
            done = done + 1;
        }
    }
    proof {
        assert(s.take(done) =~= s);
    }
    match selected {
        Some((id, kind)) => {
            let reason = selected_reason_for_variant(kind);
            TextVariantSelectionReport {
                backend,
                equivalence_group,
                selected_variant_id: Some(id),
                selected_variant_kind: Some(kind),
                selected_reason: reason,
                fallback_required: false,
                rejected_variants: rejected,
            }
        },
        None => TextVariantSelectionReport {
            backend,
            equivalence_group,
            selected_variant_id: if fallback_present {
                Some(string_of("textRun"))
            } else {
                None
            },
            selected_variant_kind: if fallback_present {
                Some(TextVariantKind::TextRun)
            } else {
                None
            },
            selected_reason: if fallback_present {
                VariantSelectedReason::DefaultTextRunFallback
            } else {
                VariantSelectedReason::NoSupportedVariant
            },
            fallback_required: true,
            rejected_variants: rejected,
        },
    }
}


/// The variants gathered for one group of equivalent text (in the order of
/// their ids), and whether the group's text also has a plain text run.
pub struct TextVariantGroupState {
    pub fallback_present: bool,
    pub variants: Vec<TextVariantCandidate>,
}

/// The candidates evaluated: each with its reasons, from its structure, the
/// backend and the reasons found in its glyphs.
pub open spec fn evaluated_views(
    vs: Seq<TextVariantCandidate>,
    backend: VariantSelectionBackend,
    glyph: Seq<Vec<VariantRejectReason>>,
) -> Seq<(usize, Seq<char>, TextVariantKind, Seq<VariantRejectReason>)> {
    Seq::new(
        vs.len(),
        |k: int|
            (
                vs[k].order,
                vs[k].variant_id@,
                vs[k].variant_kind,
                reasons_in_order(candidate_rejects(vs[k], backend, glyph[k]@)),
            ),
    )
}

impl TextVariantGroupState {
    /// The selection report of the group: each variant is evaluated, with
    /// `glyph_reasons[k]` the reasons found in the glyphs of variant `k`,
    /// then `select_text_variant` chooses.
    pub fn finish(
        &self,
        equivalence_group: String,
        backend: VariantSelectionBackend,
        prefer_strict_outline: bool,
        glyph_reasons: &Vec<Vec<VariantRejectReason>>,
    ) -> (r: TextVariantSelectionReport)
        requires
            glyph_reasons@.len() == self.variants@.len(),
            forall|k: int|
                0 <= k < self.variants@.len() ==> #[trigger] self.variants@[k].variant_kind
                    != TextVariantKind::TextRun,
        ensures
            report_is(
                r,
                sort_by_order(evaluated_views(self.variants@, backend, glyph_reasons@)),
                backend,
                equivalence_group@,
                self.fallback_present,
                prefer_strict_outline,
            ),
    {
        let ghost want = evaluated_views(self.variants@, backend, glyph_reasons@);
        let mut evaluated: Vec<EvaluatedTextVariantCandidate> = Vec::new();
        let mut k: usize = 0;
        while k < self.variants.len()
            invariant
                glyph_reasons@.len() == self.variants@.len(),
                forall|j: int|
                    0 <= j < self.variants@.len() ==> #[trigger] self.variants@[j].variant_kind
                        != TextVariantKind::TextRun,
                want == evaluated_views(self.variants@, backend, glyph_reasons@),
                k <= self.variants@.len(),
                ev_views(evaluated@) == want.take(k as int),
                forall|j: int| 0 <= j < evaluated@.len() ==> #[trigger] evaluated@[j].variant_kind != TextVariantKind::TextRun,
            decreases self.variants.len() - k,
        {
            let c = &self.variants[k];
            let reasons = c.reject_reasons(backend, &glyph_reasons[k]);
            let e = EvaluatedTextVariantCandidate {
                order: c.order,
                variant_id: c.variant_id.clone(),
                variant_kind: c.variant_kind,
                reasons,
            };
            let ghost before = ev_views(evaluated@);
            evaluated.push(e);
            proof {
                assert(ev_views(evaluated@) =~= before.push(ev_view(e)));
                assert(want.take(k + 1) =~= want.take(k as int).push(want[k as int]));
            }
            k += 1;
        }
        assert(want.take(want.len() as int) =~= want);
        select_text_variant(
            evaluated,
            equivalence_group,
            backend,
            self.fallback_present,
            prefer_strict_outline,
        )
    }
}


proof fn lemma_first_clean(
    s: Seq<(usize, Seq<char>, TextVariantKind, Seq<VariantRejectReason>)>,
    kind: TextVariantKind,
    k: int,
)
    requires
        0 <= k,
    ensures
        first_clean(s, kind, k) matches Some(i) ==> k <= i < s.len() && s[i].2 == kind && s[i].3.len()
            == 0,
        first_clean(s, kind, k) is None ==> forall|j: int|
            k <= j < s.len() ==> !(#[trigger] s[j].2 == kind && s[j].3.len() == 0),
    decreases s.len() - k,
{
    if k < s.len() {
        lemma_first_clean(s, kind, k + 1);
    }
}

/// The selected variant is one with no reason to reject it, of the kind
/// preferred where a clean variant of that kind exists; a fallback is
/// needed exactly when no glyph run or outline is clean.
pub proof fn law_selection_is_clean(
    s: Seq<(usize, Seq<char>, TextVariantKind, Seq<VariantRejectReason>)>,
    prefer_strict_outline: bool,
)
    ensures
        selected_index(s, prefer_strict_outline) matches Some(i) ==> {
            &&& 0 <= i < s.len()
            &&& s[i].3.len() == 0
            &&& s[i].2 != TextVariantKind::TextRun
        },
        selected_index(s, prefer_strict_outline) is None <==> forall|j: int|
            0 <= j < s.len() ==> #[trigger] s[j].3.len() > 0 || s[j].2 == TextVariantKind::TextRun,
        (exists|j: int|
            0 <= j < s.len() && s[j].3.len() == 0 && #[trigger] s[j].2 == (if prefer_strict_outline {
                TextVariantKind::GlyphOutline
            } else {
                TextVariantKind::GlyphRun
            })) ==> (selected_index(s, prefer_strict_outline) matches Some(i) && s[i].2 == (
        if prefer_strict_outline {
            TextVariantKind::GlyphOutline
        } else {
            TextVariantKind::GlyphRun
        })),
{
    lemma_first_clean(s, TextVariantKind::GlyphOutline, 0);
    lemma_first_clean(s, TextVariantKind::GlyphRun, 0);
    if selected_index(s, prefer_strict_outline) is None {
        assert forall|j: int| 0 <= j < s.len() implies #[trigger] s[j].3.len() > 0 || s[j].2
            == TextVariantKind::TextRun by {
            match s[j].2 {
                TextVariantKind::GlyphOutline => {},
                TextVariantKind::GlyphRun => {},
                TextVariantKind::TextRun => {},
            }
        }
    } else {
        let i = selected_index(s, prefer_strict_outline)->0;
        assert(s[i].3.len() == 0);
    }
}


// ---------------------------------------------------------------------------
// Bitmap glyph resources.

/// The largest bitmap resource a CanvasKit glyph may carry, in bytes.
pub const MAX_CANVASKIT_BITMAP_RESOURCE_BYTES: usize = 4194304;

/// The largest width or height of a decoded bitmap glyph.
pub const MAX_CANVASKIT_BITMAP_DIMENSION: u32 = 8192;

/// The most pixels of a decoded bitmap glyph.
pub const MAX_CANVASKIT_BITMAP_PIXELS: u64 = 33554432;

/// The most bytes decoding a bitmap glyph may allocate: four per pixel.
pub const MAX_CANVASKIT_BITMAP_ALLOC: u64 = 134217728;

/// What `image` makes of the bytes: the width and height of the image
/// decoded in the format `image::guess_format` finds, under the given
/// limits on width, height and allocation; `None` where the format is not
/// recognised or decoding fails.
pub uninterp spec fn image_decoded_size(bytes: Seq<u8>, max_dimension: u32, max_alloc: u64) -> Option<
    (u32, u32),
>;

/// `image::guess_format`, then an `image::ImageReader` in that format with
/// `Limits` of the given width, height and allocation, `decode`, and the
/// decoded image's `width` and `height`.
#[verifier::external_body]
fn decoded_image_size(bytes: &[u8], max_dimension: u32, max_alloc: u64) -> (r: Option<(u32, u32)>)
    ensures
        r == image_decoded_size(bytes@, max_dimension, max_alloc),
{
    let format = image::guess_format(bytes).ok()?;
    let mut reader = image::ImageReader::with_format(std::io::Cursor::new(bytes), format);
    let mut limits = image::Limits::default();
    limits.max_image_width = Some(max_dimension);
    limits.max_image_height = Some(max_dimension);
    limits.max_alloc = Some(max_alloc);
    reader.limits(limits);
    let decoded = reader.decode().ok()?;
    Some((decoded.width(), decoded.height()))
}

/// Whether CanvasKit can draw a bitmap glyph from these bytes: not empty,
/// not too large, decodable within the dimension and allocation limits, and
/// of a pixel count that is positive and within the limit.
pub open spec fn bitmap_decodable(bytes: Seq<u8>) -> bool {
    &&& bytes.len() > 0
    &&& bytes.len() <= MAX_CANVASKIT_BITMAP_RESOURCE_BYTES
    &&& image_decoded_size(bytes, MAX_CANVASKIT_BITMAP_DIMENSION, MAX_CANVASKIT_BITMAP_ALLOC)
        matches Some((w, h)) && 0 < w * h <= MAX_CANVASKIT_BITMAP_PIXELS
}

/// Whether CanvasKit can draw a bitmap glyph from these bytes.
pub fn canvaskit_bitmap_resource_is_decodable(bytes: &[u8]) -> (b: bool)
    ensures
        b == bitmap_decodable(bytes@),
{
    if bytes.len() == 0 || bytes.len() > MAX_CANVASKIT_BITMAP_RESOURCE_BYTES {
        return false;
    }
    match decoded_image_size(bytes, MAX_CANVASKIT_BITMAP_DIMENSION, MAX_CANVASKIT_BITMAP_ALLOC) {
        Some((w, h)) => {
            assert((w as int) * (h as int) <= 0xFFFF_FFFFint * 0xFFFF_FFFFint) by (nonlinear_arith)
                requires
                    w <= 0xFFFF_FFFFu32,
                    h <= 0xFFFF_FFFFu32,
            ;
            let pixels: u64 = w as u64 * h as u64;
            pixels > 0 && pixels <= MAX_CANVASKIT_BITMAP_PIXELS
        },
        None => false,
    }
}


// ---------------------------------------------------------------------------
// The reasons found in a variant's glyph runs and outlines.

/// What the diagnostics of a glyph run or outline say. The comparison of
/// the residual left by position adjustment with the selection's limit (a
/// floating-point one) is carried as its outcome.
#[derive(Clone, Copy)]
pub struct GlyphDiagnosticsFacts {
    pub replay_eligibility: GlyphRunReplayEligibility,
    pub quality: TextVariantQuality,
    pub residual_within_limit: bool,
    pub missing_glyph_count: u32,
    pub cluster_mismatch_count: u32,
    pub used_fallback_font_count: u32,
}

/// The options of a selection but its residual limit, whose comparison the
/// facts carry.
#[derive(Clone, Copy)]
pub struct SelectionLimits {
    pub backend: VariantSelectionBackend,
    pub allow_position_adjusted: bool,
    pub max_canvas_glyph_id: u32,
    pub allow_colrv0_color_layers: bool,
    pub allow_colrv1_stage1_color_graph: bool,
    pub allow_bitmap_glyph: bool,
    pub allow_svg_glyph: bool,
}

/// A reason the diagnostics give.
pub open spec fn diag_holds(d: GlyphDiagnosticsFacts, lim: SelectionLimits, r: VariantRejectReason) -> bool {
    ||| r == VariantRejectReason::ExternalFontNotVerified && d.replay_eligibility
        == GlyphRunReplayEligibility::ConditionalExternalFont
    ||| r == VariantRejectReason::FontNotPortable && (d.replay_eligibility
        == GlyphRunReplayEligibility::LocalDiagnosticOnly || d.replay_eligibility
        == GlyphRunReplayEligibility::NotReplayable || d.used_fallback_font_count > 0)
    ||| r == VariantRejectReason::PositionAdjustedNotAllowed && d.quality
        == TextVariantQuality::PositionAdjusted && !lim.allow_position_adjusted
    ||| r == VariantRejectReason::PositionAdjustedResidualTooLarge && d.quality
        == TextVariantQuality::PositionAdjusted && lim.allow_position_adjusted
        && !d.residual_within_limit
    ||| r == VariantRejectReason::UnsupportedPaintEffect && (d.quality
        == TextVariantQuality::Approximate || d.quality == TextVariantQuality::DiagnosticOnly
        || d.quality == TextVariantQuality::Omitted)
    ||| r == VariantRejectReason::MissingGlyph && d.missing_glyph_count > 0
    ||| r == VariantRejectReason::ClusterMismatch && d.cluster_mismatch_count > 0
}

fn diag_flag(d: &GlyphDiagnosticsFacts, lim: &SelectionLimits, r: VariantRejectReason) -> (b: bool)
    ensures
        b == diag_holds(*d, *lim, r),
{
    match r {
        VariantRejectReason::ExternalFontNotVerified => d.replay_eligibility
            == GlyphRunReplayEligibility::ConditionalExternalFont,
        VariantRejectReason::FontNotPortable => d.replay_eligibility
            == GlyphRunReplayEligibility::LocalDiagnosticOnly || d.replay_eligibility
            == GlyphRunReplayEligibility::NotReplayable || d.used_fallback_font_count > 0,
        VariantRejectReason::PositionAdjustedNotAllowed => d.quality
            == TextVariantQuality::PositionAdjusted && !lim.allow_position_adjusted,
        VariantRejectReason::PositionAdjustedResidualTooLarge => d.quality
            == TextVariantQuality::PositionAdjusted && lim.allow_position_adjusted
            && !d.residual_within_limit,
        VariantRejectReason::UnsupportedPaintEffect => d.quality == TextVariantQuality::Approximate
            || d.quality == TextVariantQuality::DiagnosticOnly || d.quality
            == TextVariantQuality::Omitted,
        VariantRejectReason::MissingGlyph => d.missing_glyph_count > 0,
        VariantRejectReason::ClusterMismatch => d.cluster_mismatch_count > 0,
        _ => false,
    }
}

/// A glyph run of a variant, as the selection reads it. Whether its paint
/// is a plain fill is carried as an outcome.
pub struct VariantGlyphRunFacts {
    pub fill_only_paint: bool,
    pub has_glyph_transforms: bool,
    pub orientation: GlyphRunOrientation,
    pub has_variations: bool,
    /// The font face the run names.
    pub face_key: u64,
    pub glyph_ids: Vec<u32>,
    pub diagnostics: GlyphDiagnosticsFacts,
}

/// A reason the font resources of a run's face give: the face, its blob,
/// the blob's portability, data reference, bytes and digest.
pub open spec fn font_holds(face_key: u64, res: FontResourceFacts, r: VariantRejectReason) -> bool {
    match first_face(res.faces@, face_key, 0) {
        None => r == VariantRejectReason::FontFaceMissing,
        Some(face) => {
            ||| r == VariantRejectReason::FaceIndexUnsupported && face.face_index != 0
            ||| match first_blob(res.blobs@, face.blob_key, 0) {
                None => r == VariantRejectReason::FontBlobMissing,
                Some(blob) => match blob.portable_data_ref {
                    None => r == VariantRejectReason::FontBlobNotPortable,
                    Some(dr) => {
                        ||| r == VariantRejectReason::FontBlobDataRefMismatch && blob.data_ref
                            != Some(dr)
                        ||| r == VariantRejectReason::FontBlobBytesMissing && blob.bytes
                            == BlobBytes::Missing
                        ||| r == VariantRejectReason::FontBlobDigestMismatch && blob.bytes
                            == BlobBytes::DigestMismatch
                    },
                },
            }
        },
    }
}

/// Whether the backend replays glyph runs from fonts (CanvasKit, native Skia).
pub open spec fn replays_fonts(b: VariantSelectionBackend) -> bool {
    b == VariantSelectionBackend::CanvasKit || b == VariantSelectionBackend::NativeSkia
}

/// A reason a glyph run gives.
pub open spec fn run_holds(
    run: VariantGlyphRunFacts,
    lim: SelectionLimits,
    res: FontResourceFacts,
    r: VariantRejectReason,
) -> bool {
    ||| r == VariantRejectReason::UnsupportedPaintEffect && !run.fill_only_paint
    ||| r == VariantRejectReason::GlyphTransformAuthorityPending && run.has_glyph_transforms
    ||| r == VariantRejectReason::MixedPerGlyphAuthorityPending && run.orientation
        == GlyphRunOrientation::MixedPerGlyph
    ||| r == VariantRejectReason::VerticalGlyphOrientationAuthorityPending && (run.orientation
        == GlyphRunOrientation::VerticalUpright || run.orientation
        == GlyphRunOrientation::VerticalSideways)
    ||| replays_fonts(lim.backend) && r == VariantRejectReason::VariationUnsupported
        && run.has_variations
    ||| replays_fonts(lim.backend) && run.diagnostics.replay_eligibility
        == GlyphRunReplayEligibility::Portable && font_holds(run.face_key, res, r)
    ||| diag_holds(run.diagnostics, lim, r)
    ||| r == VariantRejectReason::GlyphIdOutOfRange && exists|i: int|
        0 <= i < run.glyph_ids@.len() && #[trigger] run.glyph_ids@[i] > lim.max_canvas_glyph_id
}

fn font_flag(
    face: Option<FontFaceFacts>,
    blob: Option<FontBlobFacts>,
    r: VariantRejectReason,
    Ghost(face_key): Ghost<u64>,
    Ghost(res): Ghost<FontResourceFacts>,
) -> (b: bool)
    requires
        face == first_face(res.faces@, face_key, 0),
        face matches Some(f) ==> blob == first_blob(res.blobs@, f.blob_key, 0),
    ensures
        b == font_holds(face_key, res, r),
{
    match face {
        None => r == VariantRejectReason::FontFaceMissing,
        Some(f) => {
            if r == VariantRejectReason::FaceIndexUnsupported && f.face_index != 0 {
                return true;
            }
            match blob {
                None => r == VariantRejectReason::FontBlobMissing,
                Some(bl) => match bl.portable_data_ref {
                    None => r == VariantRejectReason::FontBlobNotPortable,
                    Some(dr) => {
                        (r == VariantRejectReason::FontBlobDataRefMismatch && !opt_u64_eq(
                            bl.data_ref,
                            Some(dr),
                        )) || (r == VariantRejectReason::FontBlobBytesMissing && bl.bytes
                            == BlobBytes::Missing) || (r
                            == VariantRejectReason::FontBlobDigestMismatch && bl.bytes
                            == BlobBytes::DigestMismatch)
                    },
                },
            }
        },
    }
}

fn glyph_id_above(ids: &Vec<u32>, max: u32) -> (b: bool)
    ensures
        b == exists|i: int| 0 <= i < ids@.len() && #[trigger] ids@[i] > max,
{
    let mut k: usize = 0;
    while k < ids.len()
        invariant
            k <= ids@.len(),
            forall|j: int| 0 <= j < k ==> ids@[j] <= max,
        decreases ids.len() - k,
    {
        if ids[k] > max {
            return true;
        }
        k += 1;
    }
    false
}

/// Sets the flag of each reason a glyph run gives.
fn collect_glyph_run_reject_reasons(
    run: &VariantGlyphRunFacts,
    lim: &SelectionLimits,
    res: &FontResourceFacts,
    flags: &mut Vec<bool>,
)
    requires
        old(flags)@.len() == reject_count(),
    ensures
        final(flags)@.len() == reject_count(),
        forall|i: int|
            0 <= i < reject_count() ==> #[trigger] final(flags)@[i] == (old(flags)@[i] || run_holds(
                *run,
                *lim,
                *res,
                reject_at(i),
            )),
{
    let face = find_face(&res.faces, run.face_key);
    let blob = match face {
        Some(f) => find_blob(&res.blobs, f.blob_key),
        None => None,
    };
    let skia = lim.backend == VariantSelectionBackend::CanvasKit || lim.backend
        == VariantSelectionBackend::NativeSkia;
    let portable = run.diagnostics.replay_eligibility == GlyphRunReplayEligibility::Portable;
    let ids_above = glyph_id_above(&run.glyph_ids, lim.max_canvas_glyph_id);
    let ghost start = flags@;
    let mut i: usize = 0;
    while i < 33
        invariant
            flags@.len() == reject_count(),
            start.len() == reject_count(),
            i <= 33,
            face == first_face(res.faces@, run.face_key, 0),
            face matches Some(f) ==> blob == first_blob(res.blobs@, f.blob_key, 0),
            skia == replays_fonts(lim.backend),
            portable == (run.diagnostics.replay_eligibility == GlyphRunReplayEligibility::Portable),
            ids_above == exists|j: int|
                0 <= j < run.glyph_ids@.len() && #[trigger] run.glyph_ids@[j] > lim.max_canvas_glyph_id,
            forall|j: int|
                0 <= j < i ==> #[trigger] flags@[j] == (start[j] || run_holds(
                    *run,
                    *lim,
                    *res,
                    reject_at(j),
                )),
            forall|j: int| i <= j < reject_count() ==> #[trigger] flags@[j] == start[j],
        decreases 33 - i,
    {
        let r = reject_at_exec(i);
        let holds = (r == VariantRejectReason::UnsupportedPaintEffect && !run.fill_only_paint) || (
        r == VariantRejectReason::GlyphTransformAuthorityPending && run.has_glyph_transforms) || (r
            == VariantRejectReason::MixedPerGlyphAuthorityPending && run.orientation
            == GlyphRunOrientation::MixedPerGlyph) || (r
            == VariantRejectReason::VerticalGlyphOrientationAuthorityPending && (run.orientation
            == GlyphRunOrientation::VerticalUpright || run.orientation
            == GlyphRunOrientation::VerticalSideways)) || (skia && r
            == VariantRejectReason::VariationUnsupported && run.has_variations) || (skia && portable
            && font_flag(face, blob, r, Ghost(run.face_key), Ghost(*res))) || diag_flag(
            &run.diagnostics,
            lim,
            r,
        ) || (r == VariantRejectReason::GlyphIdOutOfRange && ids_above);
        if holds {
            flags.set(i, true);
        }
        i += 1;
    }
}

/// The payload a glyph outline carries.
#[derive(Clone, Copy, Debug, PartialEq, Eq, Structural)]
pub enum GlyphOutlinePayloadKind {
    MonochromeFill,
    MonochromeFillStroke,
    ColorLayers,
    BitmapGlyph,
    SvgGlyph,
}

/// A glyph outline of a variant, as the selection reads it; the contracts
/// its parts meet are carried as outcomes.
pub struct VariantGlyphOutlineFacts {
    pub has_exclusive_payload_family: bool,
    pub payload_kind: GlyphOutlinePayloadKind,
    pub paths_empty: bool,
    pub fill_only_paint: bool,
    /// The stroke, where there is one: whether it is a strict subset.
    pub stroke: Option<bool>,
    /// The colour layers, where there are: whether they meet the COLRv0
    /// resolved-layer contract and the supported COLRv1 graph contract.
    pub color_layers: Option<(bool, bool)>,
    /// The bitmap glyph, where there is one: whether it meets the strict
    /// visual contract, and the bytes of its image where the arena has them.
    pub bitmap_glyph: Option<(bool, Option<Vec<u8>>)>,
    /// The SVG glyph, where there is one: whether it meets the static
    /// sanitized contract, and, where the arena has its fragment, whether
    /// that has a path layer.
    pub svg_glyph: Option<(bool, Option<bool>)>,
    pub diagnostics: GlyphDiagnosticsFacts,
}

/// The reason a payload gives, by its kind.
pub open spec fn payload_holds(o: VariantGlyphOutlineFacts, lim: SelectionLimits, r: VariantRejectReason) -> bool {
    match o.payload_kind {
        GlyphOutlinePayloadKind::MonochromeFill => r == VariantRejectReason::UnsupportedOutlinePayload
            && o.stroke is Some,
        GlyphOutlinePayloadKind::MonochromeFillStroke => r
            == VariantRejectReason::GlyphOutlineStrokeStyleUnsupported && o.stroke != Some(true),
        GlyphOutlinePayloadKind::ColorLayers => r == VariantRejectReason::UnsupportedColorGlyph
            && !(o.color_layers matches Some((v0, v1)) && ((v0 && lim.allow_colrv0_color_layers)
            || (v1 && lim.allow_colrv1_stage1_color_graph))),
        GlyphOutlinePayloadKind::BitmapGlyph => match o.bitmap_glyph {
            Some((strict, bytes)) => if !strict || !lim.allow_bitmap_glyph {
                r == VariantRejectReason::UnsupportedBitmapGlyph
            } else {
                match bytes {
                    None => r == VariantRejectReason::MissingGlyphPayloadResource,
                    Some(b) => r == VariantRejectReason::UnsupportedBitmapGlyph
                        && !bitmap_decodable(b@),
                }
            },
            None => r == VariantRejectReason::UnsupportedBitmapGlyph,
        },
        GlyphOutlinePayloadKind::SvgGlyph => match o.svg_glyph {
            Some((sanitized, layer)) => if !sanitized || !lim.allow_svg_glyph {
                r == VariantRejectReason::UnsupportedSvgGlyph
            } else {
                match layer {
                    None => r == VariantRejectReason::MissingGlyphPayloadResource,
                    Some(has_path) => r == VariantRejectReason::UnsupportedSvgGlyph && !has_path,
                }
            },
            None => r == VariantRejectReason::UnsupportedSvgGlyph,
        },
    }
}

/// A reason a glyph outline gives.
pub open spec fn outline_holds(o: VariantGlyphOutlineFacts, lim: SelectionLimits, r: VariantRejectReason) -> bool {
    ||| r == VariantRejectReason::MixedGlyphOutlinePayload && !o.has_exclusive_payload_family
    ||| r == VariantRejectReason::EmptyGlyphOutlinePayload && (o.payload_kind
        == GlyphOutlinePayloadKind::MonochromeFill || o.payload_kind
        == GlyphOutlinePayloadKind::MonochromeFillStroke) && o.paths_empty
    ||| r == VariantRejectReason::UnsupportedPaintEffect && !o.fill_only_paint
    ||| payload_holds(o, lim, r)
    ||| diag_holds(o.diagnostics, lim, r)
}

/// The reason the payload gives, decided once: `Some(reason)` or none.
fn payload_reason(o: &VariantGlyphOutlineFacts, lim: &SelectionLimits) -> (p: Option<VariantRejectReason>)
    ensures
        forall|r: VariantRejectReason| #[trigger] payload_holds(*o, *lim, r) <==> p == Some(r),
{
    match o.payload_kind {
        GlyphOutlinePayloadKind::MonochromeFill => if o.stroke.is_some() {
            Some(VariantRejectReason::UnsupportedOutlinePayload)
        } else {
            None
        },
        GlyphOutlinePayloadKind::MonochromeFillStroke => match o.stroke {
            Some(true) => None,
            _ => Some(VariantRejectReason::GlyphOutlineStrokeStyleUnsupported),
        },
        GlyphOutlinePayloadKind::ColorLayers => {
            let ok = match o.color_layers {
                Some((v0, v1)) => (v0 && lim.allow_colrv0_color_layers) || (v1
                    && lim.allow_colrv1_stage1_color_graph),
                None => false,
            };
            if ok {
                None
            } else {
                Some(VariantRejectReason::UnsupportedColorGlyph)
            }
        },
        GlyphOutlinePayloadKind::BitmapGlyph => match &o.bitmap_glyph {
            Some((strict, bytes)) => if !*strict || !lim.allow_bitmap_glyph {
                Some(VariantRejectReason::UnsupportedBitmapGlyph)
            } else {
                match bytes {
                    None => Some(VariantRejectReason::MissingGlyphPayloadResource),
                    Some(b) => if canvaskit_bitmap_resource_is_decodable(b.as_slice()) {
                        None
                    } else {
                        Some(VariantRejectReason::UnsupportedBitmapGlyph)
                    },
                }
            },
            None => Some(VariantRejectReason::UnsupportedBitmapGlyph),
        },
        GlyphOutlinePayloadKind::SvgGlyph => match o.svg_glyph {
            Some((sanitized, layer)) => if !sanitized || !lim.allow_svg_glyph {
                Some(VariantRejectReason::UnsupportedSvgGlyph)
            } else {
                match layer {
                    None => Some(VariantRejectReason::MissingGlyphPayloadResource),
                    Some(true) => None,
                    Some(false) => Some(VariantRejectReason::UnsupportedSvgGlyph),
                }
            },
            None => Some(VariantRejectReason::UnsupportedSvgGlyph),
        },
    }
}

/// Sets the flag of each reason a glyph outline gives.
fn collect_glyph_outline_reject_reasons(
    o: &VariantGlyphOutlineFacts,
    lim: &SelectionLimits,
    flags: &mut Vec<bool>,
)
    requires
        old(flags)@.len() == reject_count(),
    ensures
        final(flags)@.len() == reject_count(),
        forall|i: int|
            0 <= i < reject_count() ==> #[trigger] final(flags)@[i] == (old(flags)@[i]
                || outline_holds(*o, *lim, reject_at(i))),
{
    let payload = payload_reason(o, lim);
    let monochrome = o.payload_kind == GlyphOutlinePayloadKind::MonochromeFill || o.payload_kind
        == GlyphOutlinePayloadKind::MonochromeFillStroke;
    let ghost start = flags@;
    let mut i: usize = 0;
    while i < 33
        invariant
            flags@.len() == reject_count(),
            start.len() == reject_count(),
            i <= 33,
            forall|r: VariantRejectReason| #[trigger] payload_holds(*o, *lim, r) <==> payload == Some(r),
            monochrome == (o.payload_kind == GlyphOutlinePayloadKind::MonochromeFill || o.payload_kind
                == GlyphOutlinePayloadKind::MonochromeFillStroke),
            forall|j: int|
                0 <= j < i ==> #[trigger] flags@[j] == (start[j] || outline_holds(
                    *o,
                    *lim,
                    reject_at(j),
                )),
            forall|j: int| i <= j < reject_count() ==> #[trigger] flags@[j] == start[j],
        decreases 33 - i,
    {
        let r = reject_at_exec(i);
        let in_payload = match payload {
            Some(p) => p == r,
            None => false,
        };
        assert(in_payload == payload_holds(*o, *lim, r));
        let holds = (r == VariantRejectReason::MixedGlyphOutlinePayload
            && !o.has_exclusive_payload_family) || (r
            == VariantRejectReason::EmptyGlyphOutlinePayload && monochrome && o.paths_empty) || (r
            == VariantRejectReason::UnsupportedPaintEffect && !o.fill_only_paint) || in_payload
            || diag_flag(&o.diagnostics, lim, r);
        if holds {
            flags.set(i, true);
        }
        i += 1;
    }
}

/// The reasons found in a variant's glyph runs and outlines, each once, in
/// enum order.
pub open spec fn glyph_rejects(
    runs: Seq<VariantGlyphRunFacts>,
    outlines: Seq<VariantGlyphOutlineFacts>,
    lim: SelectionLimits,
    res: FontResourceFacts,
) -> spec_fn(VariantRejectReason) -> bool {
    |r: VariantRejectReason|
        (exists|k: int| 0 <= k < runs.len() && run_holds(#[trigger] runs[k], lim, res, r)) || (
        exists|k: int| 0 <= k < outlines.len() && outline_holds(#[trigger] outlines[k], lim, r))
}

/// The reasons found in a variant's glyph runs and outlines, each once, in
/// the order of the reason enum; what `reject_reasons` takes as the glyph
/// reasons of the candidate.
pub fn glyph_reject_reasons(
    runs: &Vec<VariantGlyphRunFacts>,
    outlines: &Vec<VariantGlyphOutlineFacts>,
    lim: &SelectionLimits,
    res: &FontResourceFacts,
) -> (r: Vec<VariantRejectReason>)
    ensures
        r@ == reasons_in_order(glyph_rejects(runs@, outlines@, *lim, *res)),
{
    let mut flags = no_flags();
    let mut k: usize = 0;
    while k < runs.len()
        invariant
            flags@.len() == reject_count(),
            k <= runs@.len(),
            forall|i: int|
                0 <= i < reject_count() ==> #[trigger] flags@[i] == exists|j: int|
                    0 <= j < k && run_holds(runs@[j], *lim, *res, reject_at(i)),
        decreases runs.len() - k,
    {
        collect_glyph_run_reject_reasons(&runs[k], lim, res, &mut flags);
        k += 1;
    }
    let mut m: usize = 0;
    while m < outlines.len()
        invariant
            flags@.len() == reject_count(),
            m <= outlines@.len(),
            forall|i: int|
                0 <= i < reject_count() ==> #[trigger] flags@[i] == ((exists|j: int|
                    0 <= j < runs@.len() && run_holds(runs@[j], *lim, *res, reject_at(i))) || exists|j: int|
                    0 <= j < m && outline_holds(outlines@[j], *lim, reject_at(i))),
        decreases outlines.len() - m,
    {
        collect_glyph_outline_reject_reasons(&outlines[m], lim, &mut flags);
        m += 1;
    }
    reasons_from_flags(&flags, Ghost(glyph_rejects(runs@, outlines@, *lim, *res)))
}

// ---------------------------------------------------------------------------
// Gathering the variants of a page by group.

/// A glyph run or a glyph outline.
pub open spec fn is_glyph_op(op: PaintOp) -> bool {
    op is GlyphRun || op is GlyphOutline
}

/// Some operation of a leaf is a plain text run.
pub open spec fn has_text_run(ops: Seq<PaintOp>) -> bool {
    exists|i: int| 0 <= i < ops.len() && #[trigger] ops[i] is TextRun
}

/// The glyph runs and outlines among the first `n` operations of a leaf,
/// in order, each with whether the leaf also paints a plain text run.
pub open spec fn leaf_parts(ops: Seq<PaintOp>, n: int, fallback: bool) -> Seq<(PaintOp, bool)>
    decreases n,
{
    if n <= 0 {
        Seq::empty()
    } else {
        leaf_parts(ops, n - 1, fallback) + if is_glyph_op(ops[n - 1]) {
            seq![(ops[n - 1], fallback)]
        } else {
            Seq::empty()
        }
    }
}

/// The glyph runs and outlines of a layer tree, depth first.
pub open spec fn node_parts(node: LayerNode) -> Seq<(PaintOp, bool)>
    decreases node, 0int,
{
    match node.kind {
        LayerNodeKind::Group { children } => children_parts(children@, children@.len() as int),
        LayerNodeKind::ClipRect { child } => node_parts(*child),
        LayerNodeKind::Leaf { ops } => leaf_parts(ops@, ops@.len() as int, has_text_run(ops@)),
    }
}

/// The glyph runs and outlines of the first `n` nodes, depth first.
pub open spec fn children_parts(cs: Seq<LayerNode>, n: int) -> Seq<(PaintOp, bool)>
    decreases cs, n,
{
    if n <= 0 || n > cs.len() {
        Seq::empty()
    } else {
        children_parts(cs, n - 1) + node_parts(cs[n - 1])
    }
}

/// A variant as gathered from a page: where it was first met, its id and
/// kind, its part counts and indices (each once), whether an index came
/// twice, and for each reason (by its place in the enum) whether a glyph
/// run or outline of the variant's own kind gives it.
pub struct GatheredVariant {
    pub order: usize,
    pub id: Seq<char>,
    pub kind: TextVariantKind,
    pub counts: Seq<u32>,
    pub present: Seq<u32>,
    pub duplicate: bool,
    pub flags: Seq<bool>,
}

/// A group of equivalent text as gathered: its name, whether its text also
/// has a plain text run, and its variants in the order they were first met.
pub struct GatheredGroup {
    pub name: Seq<char>,
    pub fallback: bool,
    pub variants: Seq<GatheredVariant>,
}

/// The variant reference of a glyph run or outline.
pub open spec fn op_ref(op: PaintOp) -> TextVariantRef {
    match op {
        PaintOp::GlyphRun { variant, .. } => variant,
        PaintOp::GlyphOutline { variant, .. } => variant,
        _ => arbitrary(),
    }
}

/// Reason `i` given by a glyph operation to a variant of kind `kind`: runs
/// count for glyph-run variants, outlines for glyph-outline ones.
pub open spec fn op_reason(
    op: PaintOp,
    kind: TextVariantKind,
    lim: SelectionLimits,
    res: FontResourceFacts,
    i: int,
) -> bool {
    match op {
        PaintOp::GlyphRun { run, .. } => kind == TextVariantKind::GlyphRun && run_holds(
            run,
            lim,
            res,
            reject_at(i),
        ),
        PaintOp::GlyphOutline { outline, .. } => kind == TextVariantKind::GlyphOutline
            && outline_holds(outline, lim, reject_at(i)),
        _ => false,
    }
}

/// The first group from `k` on with the given name; the length when none.
pub open spec fn group_index(gs: Seq<GatheredGroup>, name: Seq<char>, k: int) -> int
    decreases gs.len() - k,
{
    if k < 0 || k >= gs.len() {
        gs.len() as int
    } else if gs[k].name == name {
        k
    } else {
        group_index(gs, name, k + 1)
    }
}

/// The first variant from `k` on with the given id; the length when none.
pub open spec fn variant_index(vs: Seq<GatheredVariant>, id: Seq<char>, k: int) -> int
    decreases vs.len() - k,
{
    if k < 0 || k >= vs.len() {
        vs.len() as int
    } else if vs[k].id == id {
        k
    } else {
        variant_index(vs, id, k + 1)
    }
}

/// A variant met for the first time.
pub open spec fn new_variant(order: usize, rf: TextVariantRef) -> GatheredVariant {
    GatheredVariant {
        order,
        id: rf.variant_id@,
        kind: rf.variant_kind,
        counts: Seq::empty(),
        present: Seq::empty(),
        duplicate: false,
        flags: Seq::new(33, |i: int| false),
    }
}

/// A variant with one more part: the operation's part count and index, and
/// the reasons it gives.
pub open spec fn add_part_spec(
    v: GatheredVariant,
    op: PaintOp,
    lim: SelectionLimits,
    res: FontResourceFacts,
) -> GatheredVariant {
    let rf = op_ref(op);
    GatheredVariant {
        order: v.order,
        id: v.id,
        kind: v.kind,
        counts: push_unique_spec(v.counts, rf.part_count),
        present: push_unique_spec(v.present, rf.part_index),
        duplicate: v.duplicate || v.present.contains(rf.part_index),
        flags: Seq::new(33, |i: int| v.flags[i] || op_reason(op, v.kind, lim, res, i)),
    }
}

/// The next discovery order, which stays at the largest value.
pub open spec fn next_order(n: usize) -> usize {
    if n < usize::MAX {
        (n + 1) as usize
    } else {
        n
    }
}

/// One glyph operation (with whether its leaf paints a plain text run)
/// added to the groups: its group, made where there is none, takes the
/// fallback; its variant, made with the next order where there is none,
/// takes the part.
pub open spec fn gather_step(
    gs: Seq<GatheredGroup>,
    next: usize,
    part: (PaintOp, bool),
    lim: SelectionLimits,
    res: FontResourceFacts,
) -> (Seq<GatheredGroup>, usize) {
    let op = part.0;
    let rf = op_ref(op);
    let gi = group_index(gs, rf.equivalence_group@, 0);
    let gs1 = if gi < gs.len() {
        gs
    } else {
        gs.push(GatheredGroup { name: rf.equivalence_group@, fallback: false, variants: Seq::empty() })
    };
    let g = gs1[gi];
    let vi = variant_index(g.variants, rf.variant_id@, 0);
    let vs1 = if vi < g.variants.len() {
        g.variants
    } else {
        g.variants.push(new_variant(next, rf))
    };
    let next1 = if vi < g.variants.len() {
        next
    } else {
        next_order(next)
    };
    let g2 = GatheredGroup {
        name: g.name,
        fallback: g.fallback || part.1,
        variants: vs1.update(vi, add_part_spec(vs1[vi], op, lim, res)),
    };
    (gs1.update(gi, g2), next1)
}

/// The groups after gathering the glyph operations `parts` in order.
pub open spec fn gather(
    parts: Seq<(PaintOp, bool)>,
    gs: Seq<GatheredGroup>,
    next: usize,
    lim: SelectionLimits,
    res: FontResourceFacts,
) -> (Seq<GatheredGroup>, usize)
    decreases parts.len(),
{
    if parts.len() == 0 {
        (gs, next)
    } else {
        let (g1, n1) = gather(parts.drop_last(), gs, next, lim, res);
        gather_step(g1, n1, parts.last(), lim, res)
    }
}

/// A group being gathered: its name, its state, and for each variant the
/// reasons (by their place in the enum) its glyphs give.
pub struct TextVariantGroup {
    pub name: String,
    pub state: TextVariantGroupState,
    pub glyph_flags: Vec<Vec<bool>>,
}

/// A variant being gathered, seen as gathered.
pub open spec fn variant_view(c: TextVariantCandidate, f: Vec<bool>) -> GatheredVariant {
    GatheredVariant {
        order: c.order,
        id: c.variant_id@,
        kind: c.variant_kind,
        counts: c.part_counts@,
        present: c.present_parts@,
        duplicate: c.duplicate_part,
        flags: f@,
    }
}

/// A group being gathered, seen as gathered.
pub open spec fn group_view(g: TextVariantGroup) -> GatheredGroup {
    GatheredGroup {
        name: g.name@,
        fallback: g.state.fallback_present,
        variants: Seq::new(
            g.state.variants@.len(),
            |k: int| variant_view(g.state.variants@[k], g.glyph_flags@[k]),
        ),
    }
}

/// The groups being gathered, seen as gathered.
pub open spec fn groups_view(v: Seq<TextVariantGroup>) -> Seq<GatheredGroup> {
    v.map_values(|g: TextVariantGroup| group_view(g))
}

/// A group being gathered holds reason flags for each variant, and its
/// variants are well formed and of a glyph kind.
pub open spec fn group_wf(g: TextVariantGroup) -> bool {
    &&& g.glyph_flags@.len() == g.state.variants@.len()
    &&& forall|k: int|
        0 <= k < g.state.variants@.len() ==> (#[trigger] g.state.variants@[k]).wf()
            && g.glyph_flags@[k]@.len() == reject_count() && g.state.variants@[k].variant_kind
            != TextVariantKind::TextRun
}

/// Every group being gathered is well formed.
pub open spec fn groups_wf(v: Seq<TextVariantGroup>) -> bool {
    forall|g: int| 0 <= g < v.len() ==> group_wf(#[trigger] v[g])
}

fn find_group(groups: &Vec<TextVariantGroup>, name: &str) -> (r: usize)
    ensures
        r == group_index(groups_view(groups@), name@, 0),
{
    let ghost gv = groups_view(groups@);
    let mut k: usize = 0;
    while k < groups.len()
        invariant
            gv == groups_view(groups@),
            k <= groups.len(),
            group_index(gv, name@, k as int) == group_index(gv, name@, 0),
        decreases groups.len() - k,
    {
        if crate::serializer::hwpx::roundtrip::str_equal(groups[k].name.as_str(), name) {
            return k;
        }
        k += 1;
    }
    k
}

fn find_variant(g: &TextVariantGroup, id: &str) -> (r: usize)
    ensures
        r == variant_index(group_view(*g).variants, id@, 0),
{
    let ghost vv = group_view(*g).variants;
    let mut k: usize = 0;
    while k < g.state.variants.len()
        invariant
            vv == group_view(*g).variants,
            k <= g.state.variants.len(),
            variant_index(vv, id@, k as int) == variant_index(vv, id@, 0),
        decreases g.state.variants.len() - k,
    {
        if crate::serializer::hwpx::roundtrip::str_equal(g.state.variants[k].variant_id.as_str(), id) {
            return k;
        }
        k += 1;
    }
    k
}

proof fn lemma_group_index(gs: Seq<GatheredGroup>, name: Seq<char>, k: int)
    requires
        0 <= k,
    ensures
        0 <= group_index(gs, name, k) <= gs.len(),
        group_index(gs, name, k) < gs.len() ==> gs[group_index(gs, name, k)].name == name,
    decreases gs.len() - k,
{
    if k < gs.len() && gs[k].name != name {
        lemma_group_index(gs, name, k + 1);
    }
}

proof fn lemma_variant_index(vs: Seq<GatheredVariant>, id: Seq<char>, k: int)
    requires
        0 <= k,
    ensures
        0 <= variant_index(vs, id, k) <= vs.len(),
        variant_index(vs, id, k) < vs.len() ==> vs[variant_index(vs, id, k)].id == id,
    decreases vs.len() - k,
{
    if k < vs.len() && vs[k].id != id {
        lemma_variant_index(vs, id, k + 1);
    }
}

/// A group with no name, no text-run fallback and no variant.
fn empty_group() -> (g: TextVariantGroup)
    ensures
        g.name@ == Seq::<char>::empty(),
        !g.state.fallback_present,
        g.state.variants@.len() == 0,
        g.glyph_flags@.len() == 0,
{
    TextVariantGroup {
        name: String::new(),
        state: TextVariantGroupState { fallback_present: false, variants: Vec::new() },
        glyph_flags: Vec::new(),
    }
}

/// Adds one glyph run or outline to the groups: `gather_step`.
#[verifier::spinoff_prover]
fn add_glyph_op(
    groups: &mut Vec<TextVariantGroup>,
    next: &mut usize,
    op: &PaintOp,
    fallback: bool,
    lim: &SelectionLimits,
    res: &FontResourceFacts,
)
    requires
        groups_wf(old(groups)@),
        is_glyph_op(*op),
        op_ref(*op).variant_kind != TextVariantKind::TextRun,
    ensures
        groups_wf(final(groups)@),
        (groups_view(final(groups)@), *final(next)) == gather_step(
            groups_view(old(groups)@),
            *old(next),
            (*op, fallback),
            *lim,
            *res,
        ),
{
    let ghost gv0 = groups_view(groups@);
    let rf = match op {
        PaintOp::GlyphRun { variant, .. } => variant,
        PaintOp::GlyphOutline { variant, .. } => variant,
        _ => {
            return;
        },
    };
    assert(*rf == op_ref(*op));
    let gi = find_group(groups, rf.equivalence_group.as_str());
    proof {
        lemma_group_index(gv0, rf.equivalence_group@, 0);
    }
    if gi == groups.len() {
        let ng = TextVariantGroup {
            name: rf.equivalence_group.clone(),
            state: TextVariantGroupState { fallback_present: false, variants: Vec::new() },
            glyph_flags: Vec::new(),
        };
        groups.push(ng);
        proof {
            assert(group_view(ng).variants =~= Seq::<GatheredVariant>::empty());
            assert(groups_view(groups@) =~= gv0.push(
                GatheredGroup {
                    name: rf.equivalence_group@,
                    fallback: false,
                    variants: Seq::empty(),
                },
            ));
        }
    } else {
        assert(groups_view(groups@) =~= gv0);
    }
    let ghost gv1 = groups_view(groups@);
    let ghost g0 = gv1[gi as int];
    assert(groups_wf(groups@)) by {
        assert forall|k: int| 0 <= k < groups@.len() implies group_wf(#[trigger] groups@[k]) by {
            if k < gv0.len() {
                assert(group_wf(old(groups)@[k]));
            } else {
                assert(groups@[k].state.variants@.len() == 0);
            }
        }
    }
    let mut g = empty_group();
    groups.set_and_swap(gi, &mut g);
    let ghost gtaken = groups@;
    assert(group_view(g) == g0);
    assert(group_wf(g));
    g.state.fallback_present = g.state.fallback_present || fallback;
    let vi = find_variant(&g, rf.variant_id.as_str());
    assert(group_view(g).variants == g0.variants);
    proof {
        lemma_variant_index(g0.variants, rf.variant_id@, 0);
    }
    let ghost vs0 = g0.variants;
    if vi == g.state.variants.len() {
        let nc = TextVariantCandidate::new(*next, rf.variant_id.clone(), rf.variant_kind);
        let nf = no_flags();
        g.state.variants.push(nc);
        g.glyph_flags.push(nf);
        proof {
            assert(nf@ =~= Seq::new(33, |i: int| false));
            assert(nc.part_counts@ =~= Seq::<u32>::empty());
            assert(nc.present_parts@ =~= Seq::<u32>::empty());
            assert(variant_view(nc, nf) == new_variant(*next, *rf));
            assert(group_view(g).variants =~= vs0.push(new_variant(*next, *rf)));
        }
        *next = next.saturating_add(1);
    } else {
        assert(group_view(g).variants =~= vs0);
    }
    let ghost vs1 = group_view(g).variants;
    let ghost v0 = vs1[vi as int];
    let mut c = TextVariantCandidate::new(0, String::new(), TextVariantKind::GlyphRun);
    g.state.variants.set_and_swap(vi, &mut c);
    let mut f: Vec<bool> = Vec::new();
    g.glyph_flags.set_and_swap(vi, &mut f);
    assert(variant_view(c, f) == v0);
    assert(c.wf() && f@.len() == reject_count() && c.variant_kind != TextVariantKind::TextRun);
    let ghost f0 = f@;
    match op {
        PaintOp::GlyphRun { run, .. } => {
            c.add_glyph_run(rf.part_count, rf.part_index);
            if c.variant_kind == TextVariantKind::GlyphRun {
                collect_glyph_run_reject_reasons(run, lim, res, &mut f);
            }
        },
        PaintOp::GlyphOutline { outline, .. } => {
            c.add_glyph_outline(rf.part_count, rf.part_index);
            if c.variant_kind == TextVariantKind::GlyphOutline {
                collect_glyph_outline_reject_reasons(outline, lim, &mut f);
            }
        },
        _ => {},
    }
    proof {
        assert(f@ =~= Seq::new(33, |i: int| f0[i] || op_reason(*op, v0.kind, *lim, *res, i)));
        assert(variant_view(c, f) == add_part_spec(v0, *op, *lim, *res));
    }
    let ghost gmid = g;
    g.state.variants.set(vi, c);
    g.glyph_flags.set(vi, f);
    proof {
        assert(group_view(g).variants =~= vs1.update(vi as int, add_part_spec(v0, *op, *lim, *res)));
        assert(group_wf(g)) by {
            assert forall|k: int| 0 <= k < g.state.variants@.len() implies (#[trigger] g.state.variants@[k]).wf()
                && g.glyph_flags@[k]@.len() == reject_count() && g.state.variants@[k].variant_kind
                != TextVariantKind::TextRun by {
                if k != vi {
                    assert(g.state.variants@[k] == gmid.state.variants@[k]);
                }
            }
        }
    }
    let ghost gfinal = g;
    groups.set(gi, g);
    proof {
        assert(groups_view(groups@) =~= gv1.update(gi as int, group_view(gfinal)));
        assert forall|k: int| 0 <= k < groups@.len() implies group_wf(#[trigger] groups@[k]) by {
            if k != gi {
                assert(groups@[k] == gtaken[k]);
            }
        }
    }
}


/// Gathering a list of operations is gathering its first part, then its
/// second from there.
proof fn lemma_gather_concat(
    a: Seq<(PaintOp, bool)>,
    b: Seq<(PaintOp, bool)>,
    gs: Seq<GatheredGroup>,
    next: usize,
    lim: SelectionLimits,
    res: FontResourceFacts,
)
    ensures
        gather(a + b, gs, next, lim, res) == gather(
            b,
            gather(a, gs, next, lim, res).0,
            gather(a, gs, next, lim, res).1,
            lim,
            res,
        ),
    decreases b.len(),
{
    if b.len() == 0 {
        assert(a + b =~= a);
    } else {
        assert((a + b).drop_last() =~= a + b.drop_last());
        assert((a + b).last() == b.last());
        lemma_gather_concat(a, b.drop_last(), gs, next, lim, res);
    }
}

/// No glyph operation among the parts names a plain text-run variant.
pub open spec fn parts_name_glyph_variants(p: Seq<(PaintOp, bool)>) -> bool {
    forall|i: int| 0 <= i < p.len() ==> (#[trigger] op_ref(p[i].0)).variant_kind != TextVariantKind::TextRun
}

proof fn lemma_children_parts_ok(cs: Seq<LayerNode>, n: int, k: int)
    requires
        0 <= k < n <= cs.len(),
        parts_name_glyph_variants(children_parts(cs, n)),
    ensures
        parts_name_glyph_variants(node_parts(cs[k])),
    decreases n,
{
    let a = children_parts(cs, n - 1);
    let b = node_parts(cs[n - 1]);
    assert(children_parts(cs, n) == a + b);
    if k == n - 1 {
        assert forall|i: int| 0 <= i < b.len() implies (#[trigger] op_ref(b[i].0)).variant_kind
            != TextVariantKind::TextRun by {
            assert((a + b)[a.len() + i] == b[i]);
        }
    } else {
        assert forall|i: int| 0 <= i < a.len() implies (#[trigger] op_ref(a[i].0)).variant_kind
            != TextVariantKind::TextRun by {
            assert((a + b)[i] == a[i]);
        }
        lemma_children_parts_ok(cs, n - 1, k);
    }
}

proof fn lemma_leaf_parts_ok(ops: Seq<PaintOp>, n: int, fallback: bool, i: int)
    requires
        0 <= i < n <= ops.len(),
        is_glyph_op(ops[i]),
        parts_name_glyph_variants(leaf_parts(ops, n, fallback)),
    ensures
        op_ref(ops[i]).variant_kind != TextVariantKind::TextRun,
    decreases n,
{
    let a = leaf_parts(ops, n - 1, fallback);
    let b = if is_glyph_op(ops[n - 1]) {
        seq![(ops[n - 1], fallback)]
    } else {
        Seq::empty()
    };
    assert(leaf_parts(ops, n, fallback) == a + b);
    if i == n - 1 {
        let p = leaf_parts(ops, n, fallback);
        assert(p[a.len() as int] == (ops[i], fallback));
        assert(op_ref(p[a.len() as int].0).variant_kind != TextVariantKind::TextRun);
    } else {
        assert forall|j: int| 0 <= j < a.len() implies (#[trigger] op_ref(a[j].0)).variant_kind
            != TextVariantKind::TextRun by {
            assert((a + b)[j] == a[j]);
        }
        lemma_leaf_parts_ok(ops, n - 1, fallback, i);
    }
}

/// Whether a leaf paints a plain text run.
fn leaf_has_text_run(ops: &Vec<PaintOp>) -> (b: bool)
    ensures
        b == has_text_run(ops@),
{
    let mut i: usize = 0;
    while i < ops.len()
        invariant
            i <= ops@.len(),
            forall|j: int| 0 <= j < i ==> !(#[trigger] ops@[j] is TextRun),
        decreases ops.len() - i,
    {
        if let PaintOp::TextRun = &ops[i] {
            return true;
        }
        i += 1;
    }
    false
}

/// Gathers the glyph runs and outlines of a layer tree, depth first, into
/// the groups: `gather` of `node_parts`.
fn collect_text_variant_groups(
    node: &LayerNode,
    groups: &mut Vec<TextVariantGroup>,
    next: &mut usize,
    lim: &SelectionLimits,
    res: &FontResourceFacts,
)
    requires
        groups_wf(old(groups)@),
        parts_name_glyph_variants(node_parts(*node)),
    ensures
        groups_wf(final(groups)@),
        (groups_view(final(groups)@), *final(next)) == gather(
            node_parts(*node),
            groups_view(old(groups)@),
            *old(next),
            *lim,
            *res,
        ),
    decreases node,
{
    let ghost gv0 = groups_view(groups@);
    let ghost n0 = *next;
    match &node.kind {
        LayerNodeKind::Group { children } => {
            let mut k: usize = 0;
            assert(children_parts(children@, 0) =~= Seq::<(PaintOp, bool)>::empty());
            while k < children.len()
                invariant
                    node.kind == (LayerNodeKind::Group { children: *children }),
                    node_parts(*node) == children_parts(children@, children@.len() as int),
                    parts_name_glyph_variants(children_parts(children@, children@.len() as int)),
                    k <= children@.len(),
                    groups_wf(groups@),
                    (groups_view(groups@), *next) == gather(
                        children_parts(children@, k as int),
                        gv0,
                        n0,
                        *lim,
                        *res,
                    ),
                decreases children.len() - k,
            {
                proof {
                    lemma_children_parts_ok(children@, children@.len() as int, k as int);
                    lemma_gather_concat(
                        children_parts(children@, k as int),
                        node_parts(children@[k as int]),
                        gv0,
                        n0,
                        *lim,
                        *res,
                    );
                }
                assert(decreases_to!(*node => children@[k as int]));
                collect_text_variant_groups(&children[k], groups, next, lim, res);
                k += 1;
            }
        },
        LayerNodeKind::ClipRect { child } => {
            collect_text_variant_groups(child, groups, next, lim, res);
        },
        LayerNodeKind::Leaf { ops } => {
            let fallback = leaf_has_text_run(ops);
            let mut i: usize = 0;
            assert(leaf_parts(ops@, 0, fallback) =~= Seq::<(PaintOp, bool)>::empty());
            while i < ops.len()
                invariant
                    node_parts(*node) == leaf_parts(ops@, ops@.len() as int, fallback),
                    parts_name_glyph_variants(leaf_parts(ops@, ops@.len() as int, fallback)),
                    i <= ops@.len(),
                    groups_wf(groups@),
                    (groups_view(groups@), *next) == gather(
                        leaf_parts(ops@, i as int, fallback),
                        gv0,
                        n0,
                        *lim,
                        *res,
                    ),
                decreases ops.len() - i,
            {
                let op = &ops[i];
                let glyph = match op {
                    PaintOp::GlyphRun { .. } => true,
                    PaintOp::GlyphOutline { .. } => true,
                    _ => false,
                };
                let ghost a = leaf_parts(ops@, i as int, fallback);
                let ghost b = if is_glyph_op(ops@[i as int]) {
                    seq![(ops@[i as int], fallback)]
                } else {
                    Seq::empty()
                };
                let ghost before = (groups_view(groups@), *next);
                proof {
                    if glyph {
                        lemma_leaf_parts_ok(ops@, ops@.len() as int, fallback, i as int);
                    }
                }
                if glyph {
                    add_glyph_op(groups, next, op, fallback, lim, res);
                }
                proof {
                    assert(leaf_parts(ops@, i + 1, fallback) == a + b);
                    lemma_gather_concat(a, b, gv0, n0, *lim, *res);
                    if glyph {
                        assert(b.drop_last() =~= Seq::<(PaintOp, bool)>::empty());
                        assert(b.last() == (*op, fallback));
                        assert(gather(b.drop_last(), before.0, before.1, *lim, *res) == before);
                    } else {
                        assert(b =~= Seq::<(PaintOp, bool)>::empty());
                    }
                }
                i += 1;
            }
        },
    }
}


/// The groups of a page: its glyph runs and outlines gathered depth first.
pub open spec fn page_groups(tree: PageLayerTree, lim: SelectionLimits) -> Seq<GatheredGroup> {
    gather(node_parts(tree.root), Seq::empty(), 0, lim, tree.resources).0
}

/// The names of a page's groups, in the order of their characters.
pub open spec fn page_group_names(tree: PageLayerTree, lim: SelectionLimits) -> Seq<Seq<char>> {
    page_groups(tree, lim).map_values(|g: GatheredGroup| g.name).sort_by(chars_order())
}

/// A structural reason to reject a gathered variant (as `structure_holds`).
pub open spec fn gathered_structure_holds(v: GatheredVariant, r: VariantRejectReason) -> bool {
    let expected = smallest(v.counts);
    ||| r == VariantRejectReason::IncompleteVariantSet && (v.counts.len() == 0 || v.counts.contains(
        0,
    ))
    ||| r == VariantRejectReason::VariantPartCountMismatch && v.counts.len() > 1
    ||| r == VariantRejectReason::VariantDuplicatePart && v.duplicate
    ||| r == VariantRejectReason::VariantPartsIncomplete && (expected == 0 || (v.present.len() as u32)
        != expected || exists|i: u32| i < expected && !v.present.contains(i))
}

/// Why a gathered variant is rejected: its structure, the backend, and the
/// reasons its glyphs gave.
pub open spec fn gathered_rejects(v: GatheredVariant, backend: VariantSelectionBackend) -> spec_fn(
    VariantRejectReason,
) -> bool {
    |r: VariantRejectReason|
        gathered_structure_holds(v, r) || (r == VariantRejectReason::BackendDoesNotSupportVariant
            && backend_rejects(backend, v.kind)) || v.flags[reject_rank(r) as int]
}

/// A gathered group's variants, each with its reasons in enum order.
pub open spec fn gathered_evaluations(g: GatheredGroup, backend: VariantSelectionBackend) -> Seq<
    (usize, Seq<char>, TextVariantKind, Seq<VariantRejectReason>),
> {
    Seq::new(
        g.variants.len(),
        |k: int|
            (
                g.variants[k].order,
                g.variants[k].id,
                g.variants[k].kind,
                reasons_in_order(gathered_rejects(g.variants[k], backend)),
            ),
    )
}

/// The reasons whose flags are set.
pub open spec fn flag_holds(f: Seq<bool>) -> spec_fn(VariantRejectReason) -> bool {
    |r: VariantRejectReason| f[reject_rank(r) as int]
}

proof fn lemma_rank_of_at(i: int)
    requires
        0 <= i < reject_count(),
    ensures
        reject_rank(reject_at(i)) == i,
{
}

proof fn lemma_reasons_below(holds: spec_fn(VariantRejectReason) -> bool, n: int, r: VariantRejectReason)
    requires
        n <= reject_count(),
    ensures
        reasons_below(holds, n).contains(r) <==> (reject_rank(r) < n && holds(r)),
    decreases n,
{
    lemma_reject_rank(r);
    if n > 0 {
        lemma_reasons_below(holds, n - 1, r);
        lemma_rank_of_at(n - 1);
        let prev = reasons_below(holds, n - 1);
        if holds(reject_at(n - 1)) {
            let cur = prev.push(reject_at(n - 1));
            assert(cur[prev.len() as int] == reject_at(n - 1));
            if cur.contains(r) && !prev.contains(r) {
                let j = choose|j: int| 0 <= j < cur.len() && cur[j] == r;
                if j < prev.len() {
                    assert(prev[j] == r);
                }
            }
            if prev.contains(r) {
                let j = choose|j: int| 0 <= j < prev.len() && prev[j] == r;
                assert(cur[j] == r);
            }
        }
    }
}

/// The reasons in order are exactly those that hold.
proof fn lemma_reasons_in_order_contains(holds: spec_fn(VariantRejectReason) -> bool, r: VariantRejectReason)
    ensures
        reasons_in_order(holds).contains(r) <==> holds(r),
{
    lemma_reject_rank(r);
    lemma_reasons_below(holds, reject_count() as int, r);
}

/// The reasons of a group's variants, from their flags.
fn flag_reasons(g: &TextVariantGroup) -> (v: Vec<Vec<VariantRejectReason>>)
    requires
        group_wf(*g),
    ensures
        v@.len() == g.state.variants@.len(),
        forall|k: int|
            0 <= k < v@.len() ==> (#[trigger] v@[k])@ == reasons_in_order(
                flag_holds(g.glyph_flags@[k]@),
            ),
{
    let mut v: Vec<Vec<VariantRejectReason>> = Vec::new();
    let mut k: usize = 0;
    while k < g.glyph_flags.len()
        invariant
            group_wf(*g),
            k <= g.glyph_flags@.len(),
            v@.len() == k,
            forall|j: int|
                0 <= j < k ==> (#[trigger] v@[j])@ == reasons_in_order(flag_holds(g.glyph_flags@[j]@)),
        decreases g.glyph_flags.len() - k,
    {
        let f = &g.glyph_flags[k];
        proof {
            assert(g.state.variants@[k as int].wf());
            assert forall|i: int| 0 <= i < reject_count() implies f@[i] == flag_holds(f@)(
                #[trigger] reject_at(i),
            ) by {
                lemma_rank_of_at(i);
            }
        }
        let r = reasons_from_flags(f, Ghost(flag_holds(f@)));
        v.push(r);
        k += 1;
    }
    v
}

/// The selection report of each group of equivalent text on a page, in the
/// order of the groups' names: the page's glyph runs and outlines are
/// gathered depth first, then each group's variants are evaluated and one
/// selected (`TextVariantGroupState::finish`).
pub fn analyze_text_variant_selection(
    tree: &PageLayerTree,
    lim: &SelectionLimits,
    prefer_strict_outline: bool,
) -> (r: Vec<TextVariantSelectionReport>)
    requires
        parts_name_glyph_variants(node_parts(tree.root)),
    ensures
        r@.len() == page_group_names(*tree, *lim).len(),
        forall|k: int|
            0 <= k < r@.len() ==> {
                let name = page_group_names(*tree, *lim)[k];
                let gs = page_groups(*tree, *lim);
                let g = gs[group_index(gs, name, 0)];
                report_is(
                    #[trigger] r@[k],
                    sort_by_order(gathered_evaluations(g, lim.backend)),
                    lim.backend,
                    name,
                    g.fallback,
                    prefer_strict_outline,
                )
            },
{
    let mut groups: Vec<TextVariantGroup> = Vec::new();
    let mut next: usize = 0;
    assert(groups_view(groups@) =~= Seq::<GatheredGroup>::empty());
    collect_text_variant_groups(&tree.root, &mut groups, &mut next, lim, &tree.resources);
    let ghost gs = groups_view(groups@);
    assert(gs == page_groups(*tree, *lim));
    let ghost names0 = gs.map_values(|g: GatheredGroup| g.name);
    let mut names: Vec<String> = Vec::new();
    let mut i: usize = 0;
    while i < groups.len()
        invariant
            gs == groups_view(groups@),
            names0 == gs.map_values(|g: GatheredGroup| g.name),
            names0.len() == groups@.len(),
            i <= groups@.len(),
            string_views(names@) == names0.take(i as int),
        decreases groups.len() - i,
    {
        let ghost before = string_views(names@);
        names.push(groups[i].name.clone());
        proof {
            assert(names0[i as int] == groups@[i as int].name@);
            assert(string_views(names@) =~= before.push(groups@[i as int].name@));
            assert(names0.take(i + 1) =~= names0.take(i as int).push(names0[i as int]));
        }
        i += 1;
    }
    assert(names0.take(names0.len() as int) =~= names0);
    let sorted = sort_strings(names);
    let ghost sv = string_views(sorted@);
    proof {
        lemma_chars_order_total();
        names0.lemma_sort_by_ensures(chars_order());
    }
    let mut out: Vec<TextVariantSelectionReport> = Vec::new();
    let mut k: usize = 0;
    while k < sorted.len()
        invariant
            gs == groups_view(groups@),
            groups_wf(groups@),
            gs == page_groups(*tree, *lim),
            sv == string_views(sorted@),
            sv == page_group_names(*tree, *lim),
            names0 == gs.map_values(|g: GatheredGroup| g.name),
            forall|x: Seq<char>| !names0.contains(x) ==> !(#[trigger] sv.contains(x)),
            k <= sorted@.len(),
            out@.len() == k,
            forall|j: int|
                0 <= j < k ==> {
                    let g = gs[group_index(gs, sv[j], 0)];
                    report_is(
                        #[trigger] out@[j],
                        sort_by_order(gathered_evaluations(g, lim.backend)),
                        lim.backend,
                        sv[j],
                        g.fallback,
                        prefer_strict_outline,
                    )
                },
        decreases sorted.len() - k,
    {
        let name = &sorted[k];
        let gi = find_group(&groups, name.as_str());
        proof {
            assert(sv[k as int] == name@);
            assert(sv.contains(name@));
            let j = choose|j: int| 0 <= j < names0.len() && names0[j] == name@;
            lemma_group_index_found(gs, name@, 0, j);
        }
        let g = &groups[gi];
        assert(group_wf(*g));
        let glyph = flag_reasons(g);
        let rep = g.state.finish(name.clone(), lim.backend, prefer_strict_outline, &glyph);
        proof {
            let want = gathered_evaluations(gs[gi as int], lim.backend);
            let got = evaluated_views(g.state.variants@, lim.backend, glyph@);
            assert(gs[gi as int] == group_view(*g));
            assert forall|m: int| 0 <= m < got.len() implies got[m] == want[m] by {
                let c = g.state.variants@[m];
                let f = g.glyph_flags@[m];
                assert forall|r: VariantRejectReason| #[trigger] candidate_rejects(c, lim.backend, glyph@[m]@)(r)
                    == gathered_rejects(variant_view(c, f), lim.backend)(r) by {
                    lemma_reasons_in_order_contains(flag_holds(f@), r);
                }
                assert(candidate_rejects(c, lim.backend, glyph@[m]@) =~= gathered_rejects(
                    variant_view(c, f),
                    lim.backend,
                ));
            }
            assert(got =~= want);
        }
        out.push(rep);
        k += 1;
    }
    out
}

proof fn lemma_group_index_found(gs: Seq<GatheredGroup>, name: Seq<char>, k: int, j: int)
    requires
        0 <= k <= j < gs.len(),
        gs[j].name == name,
    ensures
        group_index(gs, name, k) <= j,
    decreases j - k,
{
    if gs[k].name != name {
        lemma_group_index_found(gs, name, k + 1, j);
    }
}


/// No two groups share a name.
pub open spec fn names_distinct(gs: Seq<GatheredGroup>) -> bool {
    forall|i: int, j: int| 0 <= i < j < gs.len() ==> (#[trigger] gs[i]).name != (#[trigger] gs[j]).name
}

proof fn lemma_gather_step_distinct(
    gs: Seq<GatheredGroup>,
    next: usize,
    part: (PaintOp, bool),
    lim: SelectionLimits,
    res: FontResourceFacts,
)
    requires
        names_distinct(gs),
    ensures
        names_distinct(gather_step(gs, next, part, lim, res).0),
{
    let name = op_ref(part.0).equivalence_group@;
    let gi = group_index(gs, name, 0);
    lemma_group_index(gs, name, 0);
    let gs1 = if gi < gs.len() {
        gs
    } else {
        gs.push(GatheredGroup { name, fallback: false, variants: Seq::empty() })
    };
    if gi >= gs.len() {
        assert forall|j: int| 0 <= j < gs.len() implies gs[j].name != name by {
            if gs[j].name == name {
                lemma_group_index_found(gs, name, 0, j);
            }
        }
    }
    assert(names_distinct(gs1)) by {
        assert forall|i: int, j: int| 0 <= i < j < gs1.len() implies (#[trigger] gs1[i]).name != (
        #[trigger] gs1[j]).name by {
            if j == gs.len() {
                assert(gs1[i] == gs[i]);
            } else {
                assert(gs1[i] == gs[i] && gs1[j] == gs[j]);
            }
        }
    }
    let out = gather_step(gs, next, part, lim, res).0;
    assert(out.len() == gs1.len());
    assert forall|i: int, j: int| 0 <= i < j < out.len() implies (#[trigger] out[i]).name != (
    #[trigger] out[j]).name by {
        assert(out[i].name == gs1[i].name);
        assert(out[j].name == gs1[j].name);
    }
}

proof fn lemma_gather_distinct(
    parts: Seq<(PaintOp, bool)>,
    gs: Seq<GatheredGroup>,
    next: usize,
    lim: SelectionLimits,
    res: FontResourceFacts,
)
    requires
        names_distinct(gs),
    ensures
        names_distinct(gather(parts, gs, next, lim, res).0),
    decreases parts.len(),
{
    if parts.len() > 0 {
        lemma_gather_distinct(parts.drop_last(), gs, next, lim, res);
        let (g1, n1) = gather(parts.drop_last(), gs, next, lim, res);
        lemma_gather_step_distinct(g1, n1, parts.last(), lim, res);
    }
}

/// Each group of equivalent text on a page is reported once: the names of
/// the page's groups, in the order they are reported, are distinct.
pub proof fn law_each_group_reported_once(tree: PageLayerTree, lim: SelectionLimits)
    ensures
        page_group_names(tree, lim).no_duplicates(),
{
    let gs = page_groups(tree, lim);
    lemma_gather_distinct(node_parts(tree.root), Seq::empty(), 0, lim, tree.resources);
    let names = gs.map_values(|g: GatheredGroup| g.name);
    assert(names.no_duplicates()) by {
        assert forall|i: int, j: int| 0 <= i < names.len() && 0 <= j < names.len() && i != j implies names[i]
            != names[j] by {
            if i < j {
                assert(gs[i].name != gs[j].name);
            } else {
                assert(gs[j].name != gs[i].name);
            }
        }
    }
    lemma_chars_order_total();
    names.lemma_sort_by_ensures(chars_order());
    names.lemma_multiset_has_no_duplicates();
    let sorted = names.sort_by(chars_order());
    assert forall|x: Seq<char>| sorted.to_multiset().contains(x) implies sorted.to_multiset().count(x) == 1 by {
        assert(names.to_multiset().contains(x));
    }
    sorted.lemma_multiset_has_no_duplicates_conv();
}


/// No two variants share an id.
pub open spec fn ids_distinct(vs: Seq<GatheredVariant>) -> bool {
    forall|i: int, j: int| 0 <= i < j < vs.len() ==> (#[trigger] vs[i]).id != (#[trigger] vs[j]).id
}

/// In every group, no two variants share an id.
pub open spec fn groups_ids_distinct(gs: Seq<GatheredGroup>) -> bool {
    forall|k: int| 0 <= k < gs.len() ==> ids_distinct(#[trigger] gs[k].variants)
}

proof fn lemma_variant_index_found(vs: Seq<GatheredVariant>, id: Seq<char>, k: int, j: int)
    requires
        0 <= k <= j < vs.len(),
        vs[j].id == id,
    ensures
        variant_index(vs, id, k) <= j,
    decreases j - k,
{
    if vs[k].id != id {
        lemma_variant_index_found(vs, id, k + 1, j);
    }
}

proof fn lemma_gather_step_ids(
    gs: Seq<GatheredGroup>,
    next: usize,
    part: (PaintOp, bool),
    lim: SelectionLimits,
    res: FontResourceFacts,
)
    requires
        groups_ids_distinct(gs),
    ensures
        groups_ids_distinct(gather_step(gs, next, part, lim, res).0),
{
    let op = part.0;
    let rf = op_ref(op);
    let gi = group_index(gs, rf.equivalence_group@, 0);
    lemma_group_index(gs, rf.equivalence_group@, 0);
    let gs1 = if gi < gs.len() {
        gs
    } else {
        gs.push(GatheredGroup { name: rf.equivalence_group@, fallback: false, variants: Seq::empty() })
    };
    assert(groups_ids_distinct(gs1)) by {
        assert forall|k: int| 0 <= k < gs1.len() implies ids_distinct(#[trigger] gs1[k].variants) by {
            if k < gs.len() {
                assert(gs1[k] == gs[k]);
            }
        }
    }
    let g = gs1[gi];
    assert(ids_distinct(g.variants));
    let vi = variant_index(g.variants, rf.variant_id@, 0);
    lemma_variant_index(g.variants, rf.variant_id@, 0);
    let vs1 = if vi < g.variants.len() {
        g.variants
    } else {
        g.variants.push(new_variant(next, rf))
    };
    if vi >= g.variants.len() {
        assert forall|j: int| 0 <= j < g.variants.len() implies g.variants[j].id != rf.variant_id@ by {
            if g.variants[j].id == rf.variant_id@ {
                lemma_variant_index_found(g.variants, rf.variant_id@, 0, j);
            }
        }
    }
    assert(ids_distinct(vs1)) by {
        assert forall|i: int, j: int| 0 <= i < j < vs1.len() implies (#[trigger] vs1[i]).id != (
        #[trigger] vs1[j]).id by {
            if j == g.variants.len() {
                assert(vs1[i] == g.variants[i]);
            } else {
                assert(vs1[i] == g.variants[i] && vs1[j] == g.variants[j]);
            }
        }
    }
    let vs2 = vs1.update(vi, add_part_spec(vs1[vi], op, lim, res));
    assert(ids_distinct(vs2)) by {
        assert forall|i: int, j: int| 0 <= i < j < vs2.len() implies (#[trigger] vs2[i]).id != (
        #[trigger] vs2[j]).id by {
            assert(vs2[i].id == vs1[i].id);
            assert(vs2[j].id == vs1[j].id);
        }
    }
    let out = gather_step(gs, next, part, lim, res).0;
    assert forall|k: int| 0 <= k < out.len() implies ids_distinct(#[trigger] out[k].variants) by {
        if k == gi {
            assert(out[k].variants == vs2);
        } else {
            assert(out[k] == gs1[k]);
        }
    }
}

proof fn lemma_gather_ids(
    parts: Seq<(PaintOp, bool)>,
    gs: Seq<GatheredGroup>,
    next: usize,
    lim: SelectionLimits,
    res: FontResourceFacts,
)
    requires
        groups_ids_distinct(gs),
    ensures
        groups_ids_distinct(gather(parts, gs, next, lim, res).0),
    decreases parts.len(),
{
    if parts.len() > 0 {
        lemma_gather_ids(parts.drop_last(), gs, next, lim, res);
        let (g1, n1) = gather(parts.drop_last(), gs, next, lim, res);
        lemma_gather_step_ids(g1, n1, parts.last(), lim, res);
    }
}

/// Each variant of a group is evaluated once: within each of a page's
/// groups, the variants' ids are distinct.
pub proof fn law_each_variant_evaluated_once(tree: PageLayerTree, lim: SelectionLimits)
    ensures
        forall|k: int|
            0 <= k < page_groups(tree, lim).len() ==> ids_distinct(
                #[trigger] page_groups(tree, lim)[k].variants,
            ),
{
    lemma_gather_ids(node_parts(tree.root), Seq::empty(), 0, lim, tree.resources);
}


/// Every defect of a glyph run of a variant is a reason to reject the
/// variant, whatever the backend: missing glyphs, cluster mismatches, an
/// unverified external font or a non-portable one (or a fallback font), a
/// position adjustment that is not allowed or leaves too large a residual,
/// a non-fill paint or an approximate quality, glyph transforms, mixed or
/// vertical orientation, a glyph id past the backend's limit, and, where
/// the backend replays fonts, font variations.
pub proof fn law_glyph_run_defects_reject(
    runs: Seq<VariantGlyphRunFacts>,
    outlines: Seq<VariantGlyphOutlineFacts>,
    lim: SelectionLimits,
    res: FontResourceFacts,
    k: int,
)
    requires
        0 <= k < runs.len(),
    ensures
        ({
            let rs = reasons_in_order(glyph_rejects(runs, outlines, lim, res));
            let run = runs[k];
            let d = run.diagnostics;
            &&& d.missing_glyph_count > 0 ==> rs.contains(VariantRejectReason::MissingGlyph)
            &&& d.cluster_mismatch_count > 0 ==> rs.contains(VariantRejectReason::ClusterMismatch)
            &&& d.replay_eligibility == GlyphRunReplayEligibility::ConditionalExternalFont ==> rs.contains(
                VariantRejectReason::ExternalFontNotVerified,
            )
            &&& (d.replay_eligibility == GlyphRunReplayEligibility::LocalDiagnosticOnly || d.replay_eligibility
                == GlyphRunReplayEligibility::NotReplayable || d.used_fallback_font_count > 0) ==> rs.contains(
                VariantRejectReason::FontNotPortable,
            )
            &&& (d.quality == TextVariantQuality::PositionAdjusted && !lim.allow_position_adjusted) ==> rs.contains(
                VariantRejectReason::PositionAdjustedNotAllowed,
            )
            &&& (d.quality == TextVariantQuality::PositionAdjusted && lim.allow_position_adjusted
                && !d.residual_within_limit) ==> rs.contains(VariantRejectReason::PositionAdjustedResidualTooLarge)
            &&& (!run.fill_only_paint || d.quality == TextVariantQuality::Approximate || d.quality
                == TextVariantQuality::DiagnosticOnly || d.quality == TextVariantQuality::Omitted) ==> rs.contains(
                VariantRejectReason::UnsupportedPaintEffect,
            )
            &&& run.has_glyph_transforms ==> rs.contains(VariantRejectReason::GlyphTransformAuthorityPending)
            &&& run.orientation == GlyphRunOrientation::MixedPerGlyph ==> rs.contains(
                VariantRejectReason::MixedPerGlyphAuthorityPending,
            )
            &&& (run.orientation == GlyphRunOrientation::VerticalUpright || run.orientation
                == GlyphRunOrientation::VerticalSideways) ==> rs.contains(
                VariantRejectReason::VerticalGlyphOrientationAuthorityPending,
            )
            &&& (exists|i: int| 0 <= i < run.glyph_ids@.len() && run.glyph_ids@[i] > lim.max_canvas_glyph_id)
                ==> rs.contains(VariantRejectReason::GlyphIdOutOfRange)
            &&& (replays_fonts(lim.backend) && run.has_variations) ==> rs.contains(VariantRejectReason::VariationUnsupported)
        }),
{
    let h = glyph_rejects(runs, outlines, lim, res);
    let run = runs[k];
    lemma_reasons_in_order_contains(h, VariantRejectReason::MissingGlyph);
    lemma_reasons_in_order_contains(h, VariantRejectReason::ClusterMismatch);
    lemma_reasons_in_order_contains(h, VariantRejectReason::ExternalFontNotVerified);
    lemma_reasons_in_order_contains(h, VariantRejectReason::FontNotPortable);
    lemma_reasons_in_order_contains(h, VariantRejectReason::PositionAdjustedNotAllowed);
    lemma_reasons_in_order_contains(h, VariantRejectReason::PositionAdjustedResidualTooLarge);
    lemma_reasons_in_order_contains(h, VariantRejectReason::UnsupportedPaintEffect);
    lemma_reasons_in_order_contains(h, VariantRejectReason::GlyphTransformAuthorityPending);
    lemma_reasons_in_order_contains(h, VariantRejectReason::MixedPerGlyphAuthorityPending);
    lemma_reasons_in_order_contains(h, VariantRejectReason::VerticalGlyphOrientationAuthorityPending);
    lemma_reasons_in_order_contains(h, VariantRejectReason::GlyphIdOutOfRange);
    lemma_reasons_in_order_contains(h, VariantRejectReason::VariationUnsupported);
    assert(run_holds(runs[k], lim, res, VariantRejectReason::MissingGlyph) ==> h(VariantRejectReason::MissingGlyph));
    assert(run_holds(runs[k], lim, res, VariantRejectReason::ClusterMismatch) ==> h(VariantRejectReason::ClusterMismatch));
    assert(run_holds(runs[k], lim, res, VariantRejectReason::ExternalFontNotVerified) ==> h(VariantRejectReason::ExternalFontNotVerified));
    assert(run_holds(runs[k], lim, res, VariantRejectReason::FontNotPortable) ==> h(VariantRejectReason::FontNotPortable));
    assert(run_holds(runs[k], lim, res, VariantRejectReason::PositionAdjustedNotAllowed) ==> h(VariantRejectReason::PositionAdjustedNotAllowed));
    assert(run_holds(runs[k], lim, res, VariantRejectReason::PositionAdjustedResidualTooLarge) ==> h(
        VariantRejectReason::PositionAdjustedResidualTooLarge,
    ));
    assert(run_holds(runs[k], lim, res, VariantRejectReason::UnsupportedPaintEffect) ==> h(VariantRejectReason::UnsupportedPaintEffect));
    assert(run_holds(runs[k], lim, res, VariantRejectReason::GlyphTransformAuthorityPending) ==> h(
        VariantRejectReason::GlyphTransformAuthorityPending,
    ));
    assert(run_holds(runs[k], lim, res, VariantRejectReason::MixedPerGlyphAuthorityPending) ==> h(
        VariantRejectReason::MixedPerGlyphAuthorityPending,
    ));
    assert(run_holds(runs[k], lim, res, VariantRejectReason::VerticalGlyphOrientationAuthorityPending) ==> h(
        VariantRejectReason::VerticalGlyphOrientationAuthorityPending,
    ));
    assert(run_holds(runs[k], lim, res, VariantRejectReason::GlyphIdOutOfRange) ==> h(VariantRejectReason::GlyphIdOutOfRange));
    assert(run_holds(runs[k], lim, res, VariantRejectReason::VariationUnsupported) ==> h(VariantRejectReason::VariationUnsupported));
    if exists|i: int| 0 <= i < run.glyph_ids@.len() && run.glyph_ids@[i] > lim.max_canvas_glyph_id {
        let i = choose|i: int| 0 <= i < run.glyph_ids@.len() && run.glyph_ids@[i] > lim.max_canvas_glyph_id;
        assert(run.glyph_ids@[i] > lim.max_canvas_glyph_id);
    }
}

/// A reason found in a variant's glyphs is one of the reasons it is
/// rejected for, so a variant with such a reason is never the one selected.
pub proof fn law_glyph_reason_rejects_candidate(
    c: TextVariantCandidate,
    backend: VariantSelectionBackend,
    glyph: Seq<VariantRejectReason>,
    r: VariantRejectReason,
)
    requires
        glyph.contains(r),
    ensures
        reasons_in_order(candidate_rejects(c, backend, glyph)).contains(r),
        reasons_in_order(candidate_rejects(c, backend, glyph)).len() > 0,
{
    lemma_reasons_in_order_contains(candidate_rejects(c, backend, glyph), r);
}


/// The font defects behind a glyph run are reasons to reject its variant
/// where the backend replays fonts and the run is portable: a face the
/// resources do not hold, a blob they do not hold, a blob that is not
/// portable, a face index other than 0, missing bytes, and a data
/// reference or digest that disagrees.
pub proof fn law_glyph_run_font_defects_reject(
    runs: Seq<VariantGlyphRunFacts>,
    outlines: Seq<VariantGlyphOutlineFacts>,
    lim: SelectionLimits,
    res: FontResourceFacts,
    k: int,
)
    requires
        0 <= k < runs.len(),
        replays_fonts(lim.backend),
        runs[k].diagnostics.replay_eligibility == GlyphRunReplayEligibility::Portable,
    ensures
        ({
            let rs = reasons_in_order(glyph_rejects(runs, outlines, lim, res));
            let key = runs[k].face_key;
            &&& (forall|j: int| 0 <= j < res.faces@.len() ==> res.faces@[j].id != key) ==> rs.contains(
                VariantRejectReason::FontFaceMissing,
            )
            &&& forall|j: int|
                0 <= j < res.faces@.len() && res.faces@[j].id == key && (forall|i: int|
                    0 <= i < j ==> res.faces@[i].id != key) ==> {
                    let face = #[trigger] res.faces@[j];
                    &&& face.face_index != 0 ==> rs.contains(VariantRejectReason::FaceIndexUnsupported)
                    &&& (forall|m: int| 0 <= m < res.blobs@.len() ==> res.blobs@[m].id != face.blob_key)
                        ==> rs.contains(VariantRejectReason::FontBlobMissing)
                }
        }),
{
    let h = glyph_rejects(runs, outlines, lim, res);
    let key = runs[k].face_key;
    lemma_first_face_none(res.faces@, key, 0);
    lemma_reasons_in_order_contains(h, VariantRejectReason::FontFaceMissing);
    lemma_reasons_in_order_contains(h, VariantRejectReason::FaceIndexUnsupported);
    lemma_reasons_in_order_contains(h, VariantRejectReason::FontBlobMissing);
    assert(run_holds(runs[k], lim, res, VariantRejectReason::FontFaceMissing) ==> h(VariantRejectReason::FontFaceMissing));
    assert(run_holds(runs[k], lim, res, VariantRejectReason::FaceIndexUnsupported) ==> h(VariantRejectReason::FaceIndexUnsupported));
    assert(run_holds(runs[k], lim, res, VariantRejectReason::FontBlobMissing) ==> h(VariantRejectReason::FontBlobMissing));
    assert forall|j: int|
        0 <= j < res.faces@.len() && res.faces@[j].id == key && (forall|i: int|
            0 <= i < j ==> res.faces@[i].id != key) implies {
        let face = #[trigger] res.faces@[j];
        &&& face.face_index != 0 ==> reasons_in_order(h).contains(VariantRejectReason::FaceIndexUnsupported)
        &&& (forall|m: int| 0 <= m < res.blobs@.len() ==> res.blobs@[m].id != face.blob_key) ==> reasons_in_order(
            h,
        ).contains(VariantRejectReason::FontBlobMissing)
    } by {
        lemma_first_face_found(res.faces@, key, 0, j);
        lemma_first_blob_none(res.blobs@, res.faces@[j].blob_key, 0);
    }
}

proof fn lemma_first_face_found(faces: Seq<FontFaceFacts>, id: u64, k: int, j: int)
    requires
        0 <= k <= j < faces.len(),
        faces[j].id == id,
        forall|i: int| k <= i < j ==> faces[i].id != id,
    ensures
        first_face(faces, id, k) == Some(faces[j]),
    decreases j - k,
{
    if k < j {
        lemma_first_face_found(faces, id, k + 1, j);
    }
}

/// Every defect of a glyph outline of a variant is a reason to reject the
/// variant: a mixed payload family, an empty monochrome payload, a non-fill
/// paint, a stroke on a fill-only payload or an unsupported stroke, a
/// bitmap or SVG glyph the limits do not allow, and what its diagnostics
/// report (missing glyphs, cluster mismatches).
pub proof fn law_glyph_outline_defects_reject(
    runs: Seq<VariantGlyphRunFacts>,
    outlines: Seq<VariantGlyphOutlineFacts>,
    lim: SelectionLimits,
    res: FontResourceFacts,
    k: int,
)
    requires
        0 <= k < outlines.len(),
    ensures
        ({
            let rs = reasons_in_order(glyph_rejects(runs, outlines, lim, res));
            let o = outlines[k];
            &&& !o.has_exclusive_payload_family ==> rs.contains(VariantRejectReason::MixedGlyphOutlinePayload)
            &&& ((o.payload_kind == GlyphOutlinePayloadKind::MonochromeFill || o.payload_kind
                == GlyphOutlinePayloadKind::MonochromeFillStroke) && o.paths_empty) ==> rs.contains(
                VariantRejectReason::EmptyGlyphOutlinePayload,
            )
            &&& !o.fill_only_paint ==> rs.contains(VariantRejectReason::UnsupportedPaintEffect)
            &&& (o.payload_kind == GlyphOutlinePayloadKind::MonochromeFill && o.stroke is Some) ==> rs.contains(
                VariantRejectReason::UnsupportedOutlinePayload,
            )
            &&& (o.payload_kind == GlyphOutlinePayloadKind::MonochromeFillStroke && o.stroke != Some(true))
                ==> rs.contains(VariantRejectReason::GlyphOutlineStrokeStyleUnsupported)
            &&& (o.payload_kind == GlyphOutlinePayloadKind::BitmapGlyph && !lim.allow_bitmap_glyph) ==> rs.contains(
                VariantRejectReason::UnsupportedBitmapGlyph,
            )
            &&& (o.payload_kind == GlyphOutlinePayloadKind::SvgGlyph && !lim.allow_svg_glyph) ==> rs.contains(
                VariantRejectReason::UnsupportedSvgGlyph,
            )
            &&& o.diagnostics.missing_glyph_count > 0 ==> rs.contains(VariantRejectReason::MissingGlyph)
            &&& o.diagnostics.cluster_mismatch_count > 0 ==> rs.contains(VariantRejectReason::ClusterMismatch)
        }),
{
    let h = glyph_rejects(runs, outlines, lim, res);
    let o = outlines[k];
    lemma_reasons_in_order_contains(h, VariantRejectReason::MixedGlyphOutlinePayload);
    assert(outline_holds(o, lim, VariantRejectReason::MixedGlyphOutlinePayload) ==> h(VariantRejectReason::MixedGlyphOutlinePayload));
    lemma_reasons_in_order_contains(h, VariantRejectReason::EmptyGlyphOutlinePayload);
    assert(outline_holds(o, lim, VariantRejectReason::EmptyGlyphOutlinePayload) ==> h(VariantRejectReason::EmptyGlyphOutlinePayload));
    lemma_reasons_in_order_contains(h, VariantRejectReason::UnsupportedPaintEffect);
    assert(outline_holds(o, lim, VariantRejectReason::UnsupportedPaintEffect) ==> h(VariantRejectReason::UnsupportedPaintEffect));
    lemma_reasons_in_order_contains(h, VariantRejectReason::UnsupportedOutlinePayload);
    assert(outline_holds(o, lim, VariantRejectReason::UnsupportedOutlinePayload) ==> h(VariantRejectReason::UnsupportedOutlinePayload));
    lemma_reasons_in_order_contains(h, VariantRejectReason::GlyphOutlineStrokeStyleUnsupported);
    assert(outline_holds(o, lim, VariantRejectReason::GlyphOutlineStrokeStyleUnsupported) ==> h(VariantRejectReason::GlyphOutlineStrokeStyleUnsupported));
    lemma_reasons_in_order_contains(h, VariantRejectReason::UnsupportedBitmapGlyph);
    assert(outline_holds(o, lim, VariantRejectReason::UnsupportedBitmapGlyph) ==> h(VariantRejectReason::UnsupportedBitmapGlyph));
    lemma_reasons_in_order_contains(h, VariantRejectReason::UnsupportedSvgGlyph);
    assert(outline_holds(o, lim, VariantRejectReason::UnsupportedSvgGlyph) ==> h(VariantRejectReason::UnsupportedSvgGlyph));
    lemma_reasons_in_order_contains(h, VariantRejectReason::MissingGlyph);
    assert(outline_holds(o, lim, VariantRejectReason::MissingGlyph) ==> h(VariantRejectReason::MissingGlyph));
    lemma_reasons_in_order_contains(h, VariantRejectReason::ClusterMismatch);
    assert(outline_holds(o, lim, VariantRejectReason::ClusterMismatch) ==> h(VariantRejectReason::ClusterMismatch));
}

/// Why a candidate is rejected, from its structure and the backend: no
/// part count or a zero one, several part counts, a part given twice, part
/// indices other than `0..count`, and a kind the backend cannot replay
/// (glyph runs outside CanvasKit and native Skia, outlines on Canvas2D).
pub proof fn law_candidate_structure_rejects(
    c: TextVariantCandidate,
    backend: VariantSelectionBackend,
    glyph: Seq<VariantRejectReason>,
)
    ensures
        ({
            let rs = reasons_in_order(candidate_rejects(c, backend, glyph));
            &&& (c.part_counts@.len() == 0 || c.part_counts@.contains(0)) ==> rs.contains(VariantRejectReason::IncompleteVariantSet)
            &&& c.part_counts@.len() > 1 ==> rs.contains(VariantRejectReason::VariantPartCountMismatch)
            &&& c.duplicate_part ==> rs.contains(VariantRejectReason::VariantDuplicatePart)
            &&& (c.part_counts@.len() == 1 && c.part_counts@[0] > 0 && exists|i: u32|
                i < c.part_counts@[0] && !c.present_parts@.contains(i)) ==> rs.contains(
                VariantRejectReason::VariantPartsIncomplete,
            )
            &&& (c.variant_kind == TextVariantKind::GlyphRun && backend != VariantSelectionBackend::CanvasKit
                && backend != VariantSelectionBackend::NativeSkia) ==> rs.contains(
                VariantRejectReason::BackendDoesNotSupportVariant,
            )
            &&& (c.variant_kind == TextVariantKind::GlyphOutline && backend == VariantSelectionBackend::Canvas2D)
                ==> rs.contains(VariantRejectReason::BackendDoesNotSupportVariant)
        }),
{
    let h = candidate_rejects(c, backend, glyph);
    lemma_reasons_in_order_contains(h, VariantRejectReason::IncompleteVariantSet);
    lemma_reasons_in_order_contains(h, VariantRejectReason::VariantPartCountMismatch);
    lemma_reasons_in_order_contains(h, VariantRejectReason::VariantDuplicatePart);
    lemma_reasons_in_order_contains(h, VariantRejectReason::VariantPartsIncomplete);
    lemma_reasons_in_order_contains(h, VariantRejectReason::BackendDoesNotSupportVariant);
    if c.part_counts@.len() == 1 {
        assert(smallest(c.part_counts@) == c.part_counts@[0]);
    }
}


/// A clean glyph run gives no reason to reject its variant: a plain fill
/// without transforms, horizontal, with glyph ids within the backend's
/// limit, portable, exact, with no missing glyph, cluster mismatch or
/// fallback font, and, where the backend replays fonts, no font variations
/// and a face (index 0) whose blob is portable with matching data
/// reference and digest.
pub proof fn law_clean_glyph_run_gives_no_reason(run: VariantGlyphRunFacts, lim: SelectionLimits, res: FontResourceFacts)
    requires
        run.fill_only_paint,
        !run.has_glyph_transforms,
        run.orientation == GlyphRunOrientation::Horizontal,
        forall|i: int| 0 <= i < run.glyph_ids@.len() ==> run.glyph_ids@[i] <= lim.max_canvas_glyph_id,
        run.diagnostics.replay_eligibility == GlyphRunReplayEligibility::Portable,
        run.diagnostics.quality == TextVariantQuality::Exact,
        run.diagnostics.missing_glyph_count == 0,
        run.diagnostics.cluster_mismatch_count == 0,
        run.diagnostics.used_fallback_font_count == 0,
        replays_fonts(lim.backend) ==> !run.has_variations,
        replays_fonts(lim.backend) ==> (first_face(res.faces@, run.face_key, 0) matches Some(f) && f.face_index
            == 0 && (first_blob(res.blobs@, f.blob_key, 0) matches Some(b) && b.portable_data_ref is Some
            && b.data_ref == b.portable_data_ref && b.bytes == BlobBytes::DigestMatches)),
    ensures
        reasons_in_order(glyph_rejects(seq![run], Seq::empty(), lim, res)).len() == 0,
{
    let h = glyph_rejects(seq![run], Seq::empty(), lim, res);
    let rs = reasons_in_order(h);
    assert forall|r: VariantRejectReason| !#[trigger] h(r) by {
        if h(r) {
            let k = choose|k: int| 0 <= k < 1 && run_holds(seq![run][k], lim, res, r);
            assert(seq![run][k] == run);
            if r == VariantRejectReason::GlyphIdOutOfRange {
                let i = choose|i: int| 0 <= i < run.glyph_ids@.len() && #[trigger] run.glyph_ids@[i]
                    > lim.max_canvas_glyph_id;
                assert(run.glyph_ids@[i] <= lim.max_canvas_glyph_id);
            }
        }
    }
    if rs.len() > 0 {
        lemma_reasons_in_order_contains(h, rs[0]);
        assert(rs.contains(rs[0]));
    }
}


/// The value a reader takes `variant_selection_backend_name` text for: the vocabulary read back.
pub open spec fn variant_selection_backend_name_read(s: Seq<char>) -> Option<VariantSelectionBackend> {
    if s == "nativeSkia"@ {
        Some(VariantSelectionBackend::NativeSkia)
    } else if s == "canvasKit"@ {
        Some(VariantSelectionBackend::CanvasKit)
    } else if s == "canvas2d"@ {
        Some(VariantSelectionBackend::Canvas2D)
    } else if s == "svg"@ {
        Some(VariantSelectionBackend::Svg)
    } else {
        None
    }
}

/// Each value is written with its own vocabulary word, which reads back as
/// that value, so that no two values are written alike.
pub proof fn law_variant_selection_backend_name_reads_back(t: VariantSelectionBackend, u: VariantSelectionBackend)
    ensures
        variant_selection_backend_name_read(variant_selection_backend_name(t)) == Some(t),
        variant_selection_backend_name(t) == variant_selection_backend_name(u) ==> t == u,
{
    lemma_variant_selection_backend_name_reads_back(t);
    lemma_variant_selection_backend_name_reads_back(u);
}

proof fn lemma_variant_selection_backend_name_reads_back(t: VariantSelectionBackend)
    ensures
        variant_selection_backend_name_read(variant_selection_backend_name(t)) == Some(t),
{
    reveal_strlit("nativeSkia");
    reveal_strlit("canvasKit");
    reveal_strlit("canvas2d");
    reveal_strlit("svg");
    match t {
        VariantSelectionBackend::NativeSkia => {
        },
        VariantSelectionBackend::CanvasKit => {
            assert("canvasKit"@.len() != "nativeSkia"@.len());
        },
        VariantSelectionBackend::Canvas2D => {
            assert("canvas2d"@.len() != "nativeSkia"@.len());
            assert("canvas2d"@.len() != "canvasKit"@.len());
        },
        VariantSelectionBackend::Svg => {
            assert("svg"@.len() != "nativeSkia"@.len());
            assert("svg"@.len() != "canvasKit"@.len());
            assert("svg"@.len() != "canvas2d"@.len());
        },
    }
}

/// The value a reader takes `variant_selected_reason_name` text for: the vocabulary read back.
pub open spec fn variant_selected_reason_name_read(s: Seq<char>) -> Option<VariantSelectedReason> {
    if s == "glyphRunStrictEligible"@ {
        Some(VariantSelectedReason::GlyphRunStrictEligible)
    } else if s == "glyphOutlineStrictProfile"@ {
        Some(VariantSelectedReason::GlyphOutlineStrictProfile)
    } else if s == "defaultTextRunFallback"@ {
        Some(VariantSelectedReason::DefaultTextRunFallback)
    } else if s == "noSupportedVariant"@ {
        Some(VariantSelectedReason::NoSupportedVariant)
    } else {
        None
    }
}

/// Each value is written with its own vocabulary word, which reads back as
/// that value, so that no two values are written alike.
pub proof fn law_variant_selected_reason_name_reads_back(t: VariantSelectedReason, u: VariantSelectedReason)
    ensures
        variant_selected_reason_name_read(variant_selected_reason_name(t)) == Some(t),
        variant_selected_reason_name(t) == variant_selected_reason_name(u) ==> t == u,
{
    lemma_variant_selected_reason_name_reads_back(t);
    lemma_variant_selected_reason_name_reads_back(u);
}

proof fn lemma_variant_selected_reason_name_reads_back(t: VariantSelectedReason)
    ensures
        variant_selected_reason_name_read(variant_selected_reason_name(t)) == Some(t),
{
    reveal_strlit("glyphRunStrictEligible");
    reveal_strlit("glyphOutlineStrictProfile");
    reveal_strlit("defaultTextRunFallback");
    reveal_strlit("noSupportedVariant");
    match t {
        VariantSelectedReason::GlyphRunStrictEligible => {
        },
        VariantSelectedReason::GlyphOutlineStrictProfile => {
            assert("glyphOutlineStrictProfile"@.len() != "glyphRunStrictEligible"@.len());
        },
        VariantSelectedReason::DefaultTextRunFallback => {
            assert("defaultTextRunFallback"@[0] != "glyphRunStrictEligible"@[0]);
            assert("defaultTextRunFallback"@.len() != "glyphOutlineStrictProfile"@.len());
        },
        VariantSelectedReason::NoSupportedVariant => {
            assert("noSupportedVariant"@.len() != "glyphRunStrictEligible"@.len());
            assert("noSupportedVariant"@.len() != "glyphOutlineStrictProfile"@.len());
            assert("noSupportedVariant"@.len() != "defaultTextRunFallback"@.len());
        },
    }
}

/// The value a reader takes `variant_reject_reason_name` text for: the vocabulary read back.
pub open spec fn variant_reject_reason_name_read(s: Seq<char>) -> Option<VariantRejectReason> {
    if s == "backendDoesNotSupportVariant"@ {
        Some(VariantRejectReason::BackendDoesNotSupportVariant)
    } else if s == "fontNotPortable"@ {
        Some(VariantRejectReason::FontNotPortable)
    } else if s == "externalFontNotVerified"@ {
        Some(VariantRejectReason::ExternalFontNotVerified)
    } else if s == "fontFaceMissing"@ {
        Some(VariantRejectReason::FontFaceMissing)
    } else if s == "fontBlobMissing"@ {
        Some(VariantRejectReason::FontBlobMissing)
    } else if s == "fontBlobNotPortable"@ {
        Some(VariantRejectReason::FontBlobNotPortable)
    } else if s == "fontBlobBytesMissing"@ {
        Some(VariantRejectReason::FontBlobBytesMissing)
    } else if s == "fontBlobDataRefMismatch"@ {
        Some(VariantRejectReason::FontBlobDataRefMismatch)
    } else if s == "fontBlobDigestMismatch"@ {
        Some(VariantRejectReason::FontBlobDigestMismatch)
    } else if s == "faceIndexUnsupported"@ {
        Some(VariantRejectReason::FaceIndexUnsupported)
    } else if s == "variationUnsupported"@ {
        Some(VariantRejectReason::VariationUnsupported)
    } else if s == "glyphIdOutOfRange"@ {
        Some(VariantRejectReason::GlyphIdOutOfRange)
    } else if s == "missingGlyph"@ {
        Some(VariantRejectReason::MissingGlyph)
    } else if s == "clusterMismatch"@ {
        Some(VariantRejectReason::ClusterMismatch)
    } else if s == "unsupportedPaintEffect"@ {
        Some(VariantRejectReason::UnsupportedPaintEffect)
    } else if s == "incompleteVariantSet"@ {
        Some(VariantRejectReason::IncompleteVariantSet)
    } else if s == "variantPartCountMismatch"@ {
        Some(VariantRejectReason::VariantPartCountMismatch)
    } else if s == "variantDuplicatePart"@ {
        Some(VariantRejectReason::VariantDuplicatePart)
    } else if s == "variantPartsIncomplete"@ {
        Some(VariantRejectReason::VariantPartsIncomplete)
    } else if s == "glyphOutlineUnsupported"@ {
        Some(VariantRejectReason::GlyphOutlineUnsupported)
    } else if s == "unsupportedOutlinePayload"@ {
        Some(VariantRejectReason::UnsupportedOutlinePayload)
    } else if s == "mixedGlyphOutlinePayload"@ {
        Some(VariantRejectReason::MixedGlyphOutlinePayload)
    } else if s == "emptyGlyphOutlinePayload"@ {
        Some(VariantRejectReason::EmptyGlyphOutlinePayload)
    } else if s == "glyphOutlineStrokeStyleUnsupported"@ {
        Some(VariantRejectReason::GlyphOutlineStrokeStyleUnsupported)
    } else if s == "unsupportedColorGlyph"@ {
        Some(VariantRejectReason::UnsupportedColorGlyph)
    } else if s == "unsupportedBitmapGlyph"@ {
        Some(VariantRejectReason::UnsupportedBitmapGlyph)
    } else if s == "unsupportedSvgGlyph"@ {
        Some(VariantRejectReason::UnsupportedSvgGlyph)
    } else if s == "missingGlyphPayloadResource"@ {
        Some(VariantRejectReason::MissingGlyphPayloadResource)
    } else if s == "mixedPerGlyphAuthorityPending"@ {
        Some(VariantRejectReason::MixedPerGlyphAuthorityPending)
    } else if s == "glyphTransformAuthorityPending"@ {
        Some(VariantRejectReason::GlyphTransformAuthorityPending)
    } else if s == "verticalGlyphOrientationAuthorityPending"@ {
        Some(VariantRejectReason::VerticalGlyphOrientationAuthorityPending)
    } else if s == "positionAdjustedNotAllowed"@ {
        Some(VariantRejectReason::PositionAdjustedNotAllowed)
    } else if s == "positionAdjustedResidualTooLarge"@ {
        Some(VariantRejectReason::PositionAdjustedResidualTooLarge)
    } else {
        None
    }
}

/// Each value is written with its own vocabulary word, which reads back as
/// that value, so that no two values are written alike.
pub proof fn law_variant_reject_reason_name_reads_back(t: VariantRejectReason, u: VariantRejectReason)
    ensures
        variant_reject_reason_name_read(variant_reject_reason_name(t)) == Some(t),
        variant_reject_reason_name(t) == variant_reject_reason_name(u) ==> t == u,
{
    lemma_variant_reject_reason_name_reads_back(t);
    lemma_variant_reject_reason_name_reads_back(u);
}

proof fn lemma_variant_reject_reason_name_reads_back(t: VariantRejectReason)
    ensures
        variant_reject_reason_name_read(variant_reject_reason_name(t)) == Some(t),
{
    reveal_strlit("backendDoesNotSupportVariant");
    reveal_strlit("fontNotPortable");
    reveal_strlit("externalFontNotVerified");
    reveal_strlit("fontFaceMissing");
    reveal_strlit("fontBlobMissing");
    reveal_strlit("fontBlobNotPortable");
    reveal_strlit("fontBlobBytesMissing");
    reveal_strlit("fontBlobDataRefMismatch");
    reveal_strlit("fontBlobDigestMismatch");
    reveal_strlit("faceIndexUnsupported");
    reveal_strlit("variationUnsupported");
    reveal_strlit("glyphIdOutOfRange");
    reveal_strlit("missingGlyph");
    reveal_strlit("clusterMismatch");
    reveal_strlit("unsupportedPaintEffect");
    reveal_strlit("incompleteVariantSet");
    reveal_strlit("variantPartCountMismatch");
    reveal_strlit("variantDuplicatePart");
    reveal_strlit("variantPartsIncomplete");
    reveal_strlit("glyphOutlineUnsupported");
    reveal_strlit("unsupportedOutlinePayload");
    reveal_strlit("mixedGlyphOutlinePayload");
    reveal_strlit("emptyGlyphOutlinePayload");
    reveal_strlit("glyphOutlineStrokeStyleUnsupported");
    reveal_strlit("unsupportedColorGlyph");
    reveal_strlit("unsupportedBitmapGlyph");
    reveal_strlit("unsupportedSvgGlyph");
    reveal_strlit("missingGlyphPayloadResource");
    reveal_strlit("mixedPerGlyphAuthorityPending");
    reveal_strlit("glyphTransformAuthorityPending");
    reveal_strlit("verticalGlyphOrientationAuthorityPending");
    reveal_strlit("positionAdjustedNotAllowed");
    reveal_strlit("positionAdjustedResidualTooLarge");
    match t {
        VariantRejectReason::BackendDoesNotSupportVariant => {
        },
        VariantRejectReason::FontNotPortable => {
            assert("fontNotPortable"@.len() != "backendDoesNotSupportVariant"@.len());
        },
        VariantRejectReason::ExternalFontNotVerified => {
            assert("externalFontNotVerified"@.len() != "backendDoesNotSupportVariant"@.len());
            assert("externalFontNotVerified"@.len() != "fontNotPortable"@.len());
        },
        VariantRejectReason::FontFaceMissing => {
            assert("fontFaceMissing"@.len() != "backendDoesNotSupportVariant"@.len());
            assert("fontFaceMissing"@[4] != "fontNotPortable"@[4]);
            assert("fontFaceMissing"@.len() != "externalFontNotVerified"@.len());
        },
        VariantRejectReason::FontBlobMissing => {
            assert("fontBlobMissing"@.len() != "backendDoesNotSupportVariant"@.len());
            assert("fontBlobMissing"@[4] != "fontNotPortable"@[4]);
            assert("fontBlobMissing"@.len() != "externalFontNotVerified"@.len());
            assert("fontBlobMissing"@[4] != "fontFaceMissing"@[4]);
        },
        VariantRejectReason::FontBlobNotPortable => {
            assert("fontBlobNotPortable"@.len() != "backendDoesNotSupportVariant"@.len());
            assert("fontBlobNotPortable"@.len() != "fontNotPortable"@.len());
            assert("fontBlobNotPortable"@.len() != "externalFontNotVerified"@.len());
            assert("fontBlobNotPortable"@.len() != "fontFaceMissing"@.len());
            assert("fontBlobNotPortable"@.len() != "fontBlobMissing"@.len());
        },
        VariantRejectReason::FontBlobBytesMissing => {
            assert("fontBlobBytesMissing"@.len() != "backendDoesNotSupportVariant"@.len());
            assert("fontBlobBytesMissing"@.len() != "fontNotPortable"@.len());
            assert("fontBlobBytesMissing"@.len() != "externalFontNotVerified"@.len());
            assert("fontBlobBytesMissing"@.len() != "fontFaceMissing"@.len());
            assert("fontBlobBytesMissing"@.len() != "fontBlobMissing"@.len());
            assert("fontBlobBytesMissing"@.len() != "fontBlobNotPortable"@.len());
        },
        VariantRejectReason::FontBlobDataRefMismatch => {
            assert("fontBlobDataRefMismatch"@.len() != "backendDoesNotSupportVariant"@.len());
            assert("fontBlobDataRefMismatch"@.len() != "fontNotPortable"@.len());
            assert("fontBlobDataRefMismatch"@[0] != "externalFontNotVerified"@[0]);
            assert("fontBlobDataRefMismatch"@.len() != "fontFaceMissing"@.len());
            assert("fontBlobDataRefMismatch"@.len() != "fontBlobMissing"@.len());
            assert("fontBlobDataRefMismatch"@.len() != "fontBlobNotPortable"@.len());
            assert("fontBlobDataRefMismatch"@.len() != "fontBlobBytesMissing"@.len());
        },
        VariantRejectReason::FontBlobDigestMismatch => {
            assert("fontBlobDigestMismatch"@.len() != "backendDoesNotSupportVariant"@.len());
            assert("fontBlobDigestMismatch"@.len() != "fontNotPortable"@.len());
            assert("fontBlobDigestMismatch"@.len() != "externalFontNotVerified"@.len());
            assert("fontBlobDigestMismatch"@.len() != "fontFaceMissing"@.len());
            assert("fontBlobDigestMismatch"@.len() != "fontBlobMissing"@.len());
            assert("fontBlobDigestMismatch"@.len() != "fontBlobNotPortable"@.len());
            assert("fontBlobDigestMismatch"@.len() != "fontBlobBytesMissing"@.len());
            assert("fontBlobDigestMismatch"@.len() != "fontBlobDataRefMismatch"@.len());
        },
        VariantRejectReason::FaceIndexUnsupported => {
            assert("faceIndexUnsupported"@.len() != "backendDoesNotSupportVariant"@.len());
            assert("faceIndexUnsupported"@.len() != "fontNotPortable"@.len());
            assert("faceIndexUnsupported"@.len() != "externalFontNotVerified"@.len());
            assert("faceIndexUnsupported"@.len() != "fontFaceMissing"@.len());
            assert("faceIndexUnsupported"@.len() != "fontBlobMissing"@.len());
            assert("faceIndexUnsupported"@.len() != "fontBlobNotPortable"@.len());
            assert("faceIndexUnsupported"@[1] != "fontBlobBytesMissing"@[1]);
            assert("faceIndexUnsupported"@.len() != "fontBlobDataRefMismatch"@.len());
            assert("faceIndexUnsupported"@.len() != "fontBlobDigestMismatch"@.len());
        },
        VariantRejectReason::VariationUnsupported => {
            assert("variationUnsupported"@.len() != "backendDoesNotSupportVariant"@.len());
            assert("variationUnsupported"@.len() != "fontNotPortable"@.len());
            assert("variationUnsupported"@.len() != "externalFontNotVerified"@.len());
            assert("variationUnsupported"@.len() != "fontFaceMissing"@.len());
            assert("variationUnsupported"@.len() != "fontBlobMissing"@.len());
            assert("variationUnsupported"@.len() != "fontBlobNotPortable"@.len());
            assert("variationUnsupported"@[0] != "fontBlobBytesMissing"@[0]);
            assert("variationUnsupported"@.len() != "fontBlobDataRefMismatch"@.len());
            assert("variationUnsupported"@.len() != "fontBlobDigestMismatch"@.len());
            assert("variationUnsupported"@[0] != "faceIndexUnsupported"@[0]);
        },
        VariantRejectReason::GlyphIdOutOfRange => {
            assert("glyphIdOutOfRange"@.len() != "backendDoesNotSupportVariant"@.len());
            assert("glyphIdOutOfRange"@.len() != "fontNotPortable"@.len());
            assert("glyphIdOutOfRange"@.len() != "externalFontNotVerified"@.len());
            assert("glyphIdOutOfRange"@.len() != "fontFaceMissing"@.len());
            assert("glyphIdOutOfRange"@.len() != "fontBlobMissing"@.len());
            assert("glyphIdOutOfRange"@.len() != "fontBlobNotPortable"@.len());
            assert("glyphIdOutOfRange"@.len() != "fontBlobBytesMissing"@.len());
            assert("glyphIdOutOfRange"@.len() != "fontBlobDataRefMismatch"@.len());
            assert("glyphIdOutOfRange"@.len() != "fontBlobDigestMismatch"@.len());
            assert("glyphIdOutOfRange"@.len() != "faceIndexUnsupported"@.len());
            assert("glyphIdOutOfRange"@.len() != "variationUnsupported"@.len());
        },
        VariantRejectReason::MissingGlyph => {
            assert("missingGlyph"@.len() != "backendDoesNotSupportVariant"@.len());
            assert("missingGlyph"@.len() != "fontNotPortable"@.len());
            assert("missingGlyph"@.len() != "externalFontNotVerified"@.len());
            assert("missingGlyph"@.len() != "fontFaceMissing"@.len());
            assert("missingGlyph"@.len() != "fontBlobMissing"@.len());
            assert("missingGlyph"@.len() != "fontBlobNotPortable"@.len());
            assert("missingGlyph"@.len() != "fontBlobBytesMissing"@.len());
            assert("missingGlyph"@.len() != "fontBlobDataRefMismatch"@.len());
            assert("missingGlyph"@.len() != "fontBlobDigestMismatch"@.len());
            assert("missingGlyph"@.len() != "faceIndexUnsupported"@.len());
            assert("missingGlyph"@.len() != "variationUnsupported"@.len());
            assert("missingGlyph"@.len() != "glyphIdOutOfRange"@.len());
        },
        VariantRejectReason::ClusterMismatch => {
            assert("clusterMismatch"@.len() != "backendDoesNotSupportVariant"@.len());
            assert("clusterMismatch"@[0] != "fontNotPortable"@[0]);
            assert("clusterMismatch"@.len() != "externalFontNotVerified"@.len());
            assert("clusterMismatch"@[0] != "fontFaceMissing"@[0]);
            assert("clusterMismatch"@[0] != "fontBlobMissing"@[0]);
            assert("clusterMismatch"@.len() != "fontBlobNotPortable"@.len());
            assert("clusterMismatch"@.len() != "fontBlobBytesMissing"@.len());
            assert("clusterMismatch"@.len() != "fontBlobDataRefMismatch"@.len());
            assert("clusterMismatch"@.len() != "fontBlobDigestMismatch"@.len());
            assert("clusterMismatch"@.len() != "faceIndexUnsupported"@.len());
            assert("clusterMismatch"@.len() != "variationUnsupported"@.len());
            assert("clusterMismatch"@.len() != "glyphIdOutOfRange"@.len());
            assert("clusterMismatch"@.len() != "missingGlyph"@.len());
        },
        VariantRejectReason::UnsupportedPaintEffect => {
            assert("unsupportedPaintEffect"@.len() != "backendDoesNotSupportVariant"@.len());
            assert("unsupportedPaintEffect"@.len() != "fontNotPortable"@.len());
            assert("unsupportedPaintEffect"@.len() != "externalFontNotVerified"@.len());
            assert("unsupportedPaintEffect"@.len() != "fontFaceMissing"@.len());
            assert("unsupportedPaintEffect"@.len() != "fontBlobMissing"@.len());
            assert("unsupportedPaintEffect"@.len() != "fontBlobNotPortable"@.len());
            assert("unsupportedPaintEffect"@.len() != "fontBlobBytesMissing"@.len());
            assert("unsupportedPaintEffect"@.len() != "fontBlobDataRefMismatch"@.len());
            assert("unsupportedPaintEffect"@[0] != "fontBlobDigestMismatch"@[0]);
            assert("unsupportedPaintEffect"@.len() != "faceIndexUnsupported"@.len());
            assert("unsupportedPaintEffect"@.len() != "variationUnsupported"@.len());
            assert("unsupportedPaintEffect"@.len() != "glyphIdOutOfRange"@.len());
            assert("unsupportedPaintEffect"@.len() != "missingGlyph"@.len());
            assert("unsupportedPaintEffect"@.len() != "clusterMismatch"@.len());
        },
        VariantRejectReason::IncompleteVariantSet => {
            assert("incompleteVariantSet"@.len() != "backendDoesNotSupportVariant"@.len());
            assert("incompleteVariantSet"@.len() != "fontNotPortable"@.len());
            assert("incompleteVariantSet"@.len() != "externalFontNotVerified"@.len());
            assert("incompleteVariantSet"@.len() != "fontFaceMissing"@.len());
            assert("incompleteVariantSet"@.len() != "fontBlobMissing"@.len());
            assert("incompleteVariantSet"@.len() != "fontBlobNotPortable"@.len());
            assert("incompleteVariantSet"@[0] != "fontBlobBytesMissing"@[0]);
            assert("incompleteVariantSet"@.len() != "fontBlobDataRefMismatch"@.len());
            assert("incompleteVariantSet"@.len() != "fontBlobDigestMismatch"@.len());
            assert("incompleteVariantSet"@[0] != "faceIndexUnsupported"@[0]);
            assert("incompleteVariantSet"@[0] != "variationUnsupported"@[0]);
            assert("incompleteVariantSet"@.len() != "glyphIdOutOfRange"@.len());
            assert("incompleteVariantSet"@.len() != "missingGlyph"@.len());
            assert("incompleteVariantSet"@.len() != "clusterMismatch"@.len());
            assert("incompleteVariantSet"@.len() != "unsupportedPaintEffect"@.len());
        },
        VariantRejectReason::VariantPartCountMismatch => {
            assert("variantPartCountMismatch"@.len() != "backendDoesNotSupportVariant"@.len());
            assert("variantPartCountMismatch"@.len() != "fontNotPortable"@.len());
            assert("variantPartCountMismatch"@.len() != "externalFontNotVerified"@.len());
            assert("variantPartCountMismatch"@.len() != "fontFaceMissing"@.len());
            assert("variantPartCountMismatch"@.len() != "fontBlobMissing"@.len());
            assert("variantPartCountMismatch"@.len() != "fontBlobNotPortable"@.len());
            assert("variantPartCountMismatch"@.len() != "fontBlobBytesMissing"@.len());
            assert("variantPartCountMismatch"@.len() != "fontBlobDataRefMismatch"@.len());
            assert("variantPartCountMismatch"@.len() != "fontBlobDigestMismatch"@.len());
            assert("variantPartCountMismatch"@.len() != "faceIndexUnsupported"@.len());
            assert("variantPartCountMismatch"@.len() != "variationUnsupported"@.len());
            assert("variantPartCountMismatch"@.len() != "glyphIdOutOfRange"@.len());
            assert("variantPartCountMismatch"@.len() != "missingGlyph"@.len());
            assert("variantPartCountMismatch"@.len() != "clusterMismatch"@.len());
            assert("variantPartCountMismatch"@.len() != "unsupportedPaintEffect"@.len());
            assert("variantPartCountMismatch"@.len() != "incompleteVariantSet"@.len());
        },
        VariantRejectReason::VariantDuplicatePart => {
            assert("variantDuplicatePart"@.len() != "backendDoesNotSupportVariant"@.len());
            assert("variantDuplicatePart"@.len() != "fontNotPortable"@.len());
            assert("variantDuplicatePart"@.len() != "externalFontNotVerified"@.len());
            assert("variantDuplicatePart"@.len() != "fontFaceMissing"@.len());
            assert("variantDuplicatePart"@.len() != "fontBlobMissing"@.len());
            assert("variantDuplicatePart"@.len() != "fontBlobNotPortable"@.len());
            assert("variantDuplicatePart"@[0] != "fontBlobBytesMissing"@[0]);
            assert("variantDuplicatePart"@.len() != "fontBlobDataRefMismatch"@.len());
            assert("variantDuplicatePart"@.len() != "fontBlobDigestMismatch"@.len());
            assert("variantDuplicatePart"@[0] != "faceIndexUnsupported"@[0]);
            assert("variantDuplicatePart"@[5] != "variationUnsupported"@[5]);
            assert("variantDuplicatePart"@.len() != "glyphIdOutOfRange"@.len());
            assert("variantDuplicatePart"@.len() != "missingGlyph"@.len());
            assert("variantDuplicatePart"@.len() != "clusterMismatch"@.len());
            assert("variantDuplicatePart"@.len() != "unsupportedPaintEffect"@.len());
            assert("variantDuplicatePart"@[0] != "incompleteVariantSet"@[0]);
            assert("variantDuplicatePart"@.len() != "variantPartCountMismatch"@.len());
        },
        VariantRejectReason::VariantPartsIncomplete => {
            assert("variantPartsIncomplete"@.len() != "backendDoesNotSupportVariant"@.len());
            assert("variantPartsIncomplete"@.len() != "fontNotPortable"@.len());
            assert("variantPartsIncomplete"@.len() != "externalFontNotVerified"@.len());
            assert("variantPartsIncomplete"@.len() != "fontFaceMissing"@.len());
            assert("variantPartsIncomplete"@.len() != "fontBlobMissing"@.len());
            assert("variantPartsIncomplete"@.len() != "fontBlobNotPortable"@.len());
            assert("variantPartsIncomplete"@.len() != "fontBlobBytesMissing"@.len());
            assert("variantPartsIncomplete"@.len() != "fontBlobDataRefMismatch"@.len());
            assert("variantPartsIncomplete"@[0] != "fontBlobDigestMismatch"@[0]);
            assert("variantPartsIncomplete"@.len() != "faceIndexUnsupported"@.len());
            assert("variantPartsIncomplete"@.len() != "variationUnsupported"@.len());
            assert("variantPartsIncomplete"@.len() != "glyphIdOutOfRange"@.len());
            assert("variantPartsIncomplete"@.len() != "missingGlyph"@.len());
            assert("variantPartsIncomplete"@.len() != "clusterMismatch"@.len());
            assert("variantPartsIncomplete"@[0] != "unsupportedPaintEffect"@[0]);
            assert("variantPartsIncomplete"@.len() != "incompleteVariantSet"@.len());
            assert("variantPartsIncomplete"@.len() != "variantPartCountMismatch"@.len());
            assert("variantPartsIncomplete"@.len() != "variantDuplicatePart"@.len());
        },
        VariantRejectReason::GlyphOutlineUnsupported => {
            assert("glyphOutlineUnsupported"@.len() != "backendDoesNotSupportVariant"@.len());
            assert("glyphOutlineUnsupported"@.len() != "fontNotPortable"@.len());
            assert("glyphOutlineUnsupported"@[0] != "externalFontNotVerified"@[0]);
            assert("glyphOutlineUnsupported"@.len() != "fontFaceMissing"@.len());
            assert("glyphOutlineUnsupported"@.len() != "fontBlobMissing"@.len());
            assert("glyphOutlineUnsupported"@.len() != "fontBlobNotPortable"@.len());
            assert("glyphOutlineUnsupported"@.len() != "fontBlobBytesMissing"@.len());
            assert("glyphOutlineUnsupported"@[0] != "fontBlobDataRefMismatch"@[0]);
            assert("glyphOutlineUnsupported"@.len() != "fontBlobDigestMismatch"@.len());
            assert("glyphOutlineUnsupported"@.len() != "faceIndexUnsupported"@.len());
            assert("glyphOutlineUnsupported"@.len() != "variationUnsupported"@.len());
            assert("glyphOutlineUnsupported"@.len() != "glyphIdOutOfRange"@.len());
            assert("glyphOutlineUnsupported"@.len() != "missingGlyph"@.len());
            assert("glyphOutlineUnsupported"@.len() != "clusterMismatch"@.len());
            assert("glyphOutlineUnsupported"@.len() != "unsupportedPaintEffect"@.len());
            assert("glyphOutlineUnsupported"@.len() != "incompleteVariantSet"@.len());
            assert("glyphOutlineUnsupported"@.len() != "variantPartCountMismatch"@.len());
            assert("glyphOutlineUnsupported"@.len() != "variantDuplicatePart"@.len());
            assert("glyphOutlineUnsupported"@.len() != "variantPartsIncomplete"@.len());
        },
        VariantRejectReason::UnsupportedOutlinePayload => {
            assert("unsupportedOutlinePayload"@.len() != "backendDoesNotSupportVariant"@.len());
            assert("unsupportedOutlinePayload"@.len() != "fontNotPortable"@.len());
            assert("unsupportedOutlinePayload"@.len() != "externalFontNotVerified"@.len());
            assert("unsupportedOutlinePayload"@.len() != "fontFaceMissing"@.len());
            assert("unsupportedOutlinePayload"@.len() != "fontBlobMissing"@.len());
            assert("unsupportedOutlinePayload"@.len() != "fontBlobNotPortable"@.len());
            assert("unsupportedOutlinePayload"@.len() != "fontBlobBytesMissing"@.len());
            assert("unsupportedOutlinePayload"@.len() != "fontBlobDataRefMismatch"@.len());
            assert("unsupportedOutlinePayload"@.len() != "fontBlobDigestMismatch"@.len());
            assert("unsupportedOutlinePayload"@.len() != "faceIndexUnsupported"@.len());
            assert("unsupportedOutlinePayload"@.len() != "variationUnsupported"@.len());
            assert("unsupportedOutlinePayload"@.len() != "glyphIdOutOfRange"@.len());
            assert("unsupportedOutlinePayload"@.len() != "missingGlyph"@.len());
            assert("unsupportedOutlinePayload"@.len() != "clusterMismatch"@.len());
            assert("unsupportedOutlinePayload"@.len() != "unsupportedPaintEffect"@.len());
            assert("unsupportedOutlinePayload"@.len() != "incompleteVariantSet"@.len());
            assert("unsupportedOutlinePayload"@.len() != "variantPartCountMismatch"@.len());
            assert("unsupportedOutlinePayload"@.len() != "variantDuplicatePart"@.len());
            assert("unsupportedOutlinePayload"@.len() != "variantPartsIncomplete"@.len());
            assert("unsupportedOutlinePayload"@.len() != "glyphOutlineUnsupported"@.len());
        },
        VariantRejectReason::MixedGlyphOutlinePayload => {
            assert("mixedGlyphOutlinePayload"@.len() != "backendDoesNotSupportVariant"@.len());
            assert("mixedGlyphOutlinePayload"@.len() != "fontNotPortable"@.len());
            assert("mixedGlyphOutlinePayload"@.len() != "externalFontNotVerified"@.len());
            assert("mixedGlyphOutlinePayload"@.len() != "fontFaceMissing"@.len());
            assert("mixedGlyphOutlinePayload"@.len() != "fontBlobMissing"@.len());
            assert("mixedGlyphOutlinePayload"@.len() != "fontBlobNotPortable"@.len());
            assert("mixedGlyphOutlinePayload"@.len() != "fontBlobBytesMissing"@.len());
            assert("mixedGlyphOutlinePayload"@.len() != "fontBlobDataRefMismatch"@.len());
            assert("mixedGlyphOutlinePayload"@.len() != "fontBlobDigestMismatch"@.len());
            assert("mixedGlyphOutlinePayload"@.len() != "faceIndexUnsupported"@.len());
            assert("mixedGlyphOutlinePayload"@.len() != "variationUnsupported"@.len());
            assert("mixedGlyphOutlinePayload"@.len() != "glyphIdOutOfRange"@.len());
            assert("mixedGlyphOutlinePayload"@.len() != "missingGlyph"@.len());
            assert("mixedGlyphOutlinePayload"@.len() != "clusterMismatch"@.len());
            assert("mixedGlyphOutlinePayload"@.len() != "unsupportedPaintEffect"@.len());
            assert("mixedGlyphOutlinePayload"@.len() != "incompleteVariantSet"@.len());
            assert("mixedGlyphOutlinePayload"@[0] != "variantPartCountMismatch"@[0]);
            assert("mixedGlyphOutlinePayload"@.len() != "variantDuplicatePart"@.len());
            assert("mixedGlyphOutlinePayload"@.len() != "variantPartsIncomplete"@.len());
            assert("mixedGlyphOutlinePayload"@.len() != "glyphOutlineUnsupported"@.len());
            assert("mixedGlyphOutlinePayload"@.len() != "unsupportedOutlinePayload"@.len());
        },
        VariantRejectReason::EmptyGlyphOutlinePayload => {
            assert("emptyGlyphOutlinePayload"@.len() != "backendDoesNotSupportVariant"@.len());
            assert("emptyGlyphOutlinePayload"@.len() != "fontNotPortable"@.len());
            assert("emptyGlyphOutlinePayload"@.len() != "externalFontNotVerified"@.len());
            assert("emptyGlyphOutlinePayload"@.len() != "fontFaceMissing"@.len());
            assert("emptyGlyphOutlinePayload"@.len() != "fontBlobMissing"@.len());
            assert("emptyGlyphOutlinePayload"@.len() != "fontBlobNotPortable"@.len());
            assert("emptyGlyphOutlinePayload"@.len() != "fontBlobBytesMissing"@.len());
            assert("emptyGlyphOutlinePayload"@.len() != "fontBlobDataRefMismatch"@.len());
            assert("emptyGlyphOutlinePayload"@.len() != "fontBlobDigestMismatch"@.len());
            assert("emptyGlyphOutlinePayload"@.len() != "faceIndexUnsupported"@.len());
            assert("emptyGlyphOutlinePayload"@.len() != "variationUnsupported"@.len());
            assert("emptyGlyphOutlinePayload"@.len() != "glyphIdOutOfRange"@.len());
            assert("emptyGlyphOutlinePayload"@.len() != "missingGlyph"@.len());
            assert("emptyGlyphOutlinePayload"@.len() != "clusterMismatch"@.len());
            assert("emptyGlyphOutlinePayload"@.len() != "unsupportedPaintEffect"@.len());
            assert("emptyGlyphOutlinePayload"@.len() != "incompleteVariantSet"@.len());
            assert("emptyGlyphOutlinePayload"@[0] != "variantPartCountMismatch"@[0]);
            assert("emptyGlyphOutlinePayload"@.len() != "variantDuplicatePart"@.len());
            assert("emptyGlyphOutlinePayload"@.len() != "variantPartsIncomplete"@.len());
            assert("emptyGlyphOutlinePayload"@.len() != "glyphOutlineUnsupported"@.len());
            assert("emptyGlyphOutlinePayload"@.len() != "unsupportedOutlinePayload"@.len());
            assert("emptyGlyphOutlinePayload"@[0] != "mixedGlyphOutlinePayload"@[0]);
        },
        VariantRejectReason::GlyphOutlineStrokeStyleUnsupported => {
            assert("glyphOutlineStrokeStyleUnsupported"@.len() != "backendDoesNotSupportVariant"@.len());
            assert("glyphOutlineStrokeStyleUnsupported"@.len() != "fontNotPortable"@.len());
            assert("glyphOutlineStrokeStyleUnsupported"@.len() != "externalFontNotVerified"@.len());
            assert("glyphOutlineStrokeStyleUnsupported"@.len() != "fontFaceMissing"@.len());
            assert("glyphOutlineStrokeStyleUnsupported"@.len() != "fontBlobMissing"@.len());
            assert("glyphOutlineStrokeStyleUnsupported"@.len() != "fontBlobNotPortable"@.len());
            assert("glyphOutlineStrokeStyleUnsupported"@.len() != "fontBlobBytesMissing"@.len());
            assert("glyphOutlineStrokeStyleUnsupported"@.len() != "fontBlobDataRefMismatch"@.len());
            assert("glyphOutlineStrokeStyleUnsupported"@.len() != "fontBlobDigestMismatch"@.len());
            assert("glyphOutlineStrokeStyleUnsupported"@.len() != "faceIndexUnsupported"@.len());
            assert("glyphOutlineStrokeStyleUnsupported"@.len() != "variationUnsupported"@.len());
            assert("glyphOutlineStrokeStyleUnsupported"@.len() != "glyphIdOutOfRange"@.len());
            assert("glyphOutlineStrokeStyleUnsupported"@.len() != "missingGlyph"@.len());
            assert("glyphOutlineStrokeStyleUnsupported"@.len() != "clusterMismatch"@.len());
            assert("glyphOutlineStrokeStyleUnsupported"@.len() != "unsupportedPaintEffect"@.len());
            assert("glyphOutlineStrokeStyleUnsupported"@.len() != "incompleteVariantSet"@.len());
            assert("glyphOutlineStrokeStyleUnsupported"@.len() != "variantPartCountMismatch"@.len());
            assert("glyphOutlineStrokeStyleUnsupported"@.len() != "variantDuplicatePart"@.len());
            assert("glyphOutlineStrokeStyleUnsupported"@.len() != "variantPartsIncomplete"@.len());
            assert("glyphOutlineStrokeStyleUnsupported"@.len() != "glyphOutlineUnsupported"@.len());
            assert("glyphOutlineStrokeStyleUnsupported"@.len() != "unsupportedOutlinePayload"@.len());
            assert("glyphOutlineStrokeStyleUnsupported"@.len() != "mixedGlyphOutlinePayload"@.len());
            assert("glyphOutlineStrokeStyleUnsupported"@.len() != "emptyGlyphOutlinePayload"@.len());
        },
        VariantRejectReason::UnsupportedColorGlyph => {
            assert("unsupportedColorGlyph"@.len() != "backendDoesNotSupportVariant"@.len());
            assert("unsupportedColorGlyph"@.len() != "fontNotPortable"@.len());
            assert("unsupportedColorGlyph"@.len() != "externalFontNotVerified"@.len());
            assert("unsupportedColorGlyph"@.len() != "fontFaceMissing"@.len());
            assert("unsupportedColorGlyph"@.len() != "fontBlobMissing"@.len());
            assert("unsupportedColorGlyph"@.len() != "fontBlobNotPortable"@.len());
            assert("unsupportedColorGlyph"@.len() != "fontBlobBytesMissing"@.len());
            assert("unsupportedColorGlyph"@.len() != "fontBlobDataRefMismatch"@.len());
            assert("unsupportedColorGlyph"@.len() != "fontBlobDigestMismatch"@.len());
            assert("unsupportedColorGlyph"@.len() != "faceIndexUnsupported"@.len());
            assert("unsupportedColorGlyph"@.len() != "variationUnsupported"@.len());
            assert("unsupportedColorGlyph"@.len() != "glyphIdOutOfRange"@.len());
            assert("unsupportedColorGlyph"@.len() != "missingGlyph"@.len());
            assert("unsupportedColorGlyph"@.len() != "clusterMismatch"@.len());
            assert("unsupportedColorGlyph"@.len() != "unsupportedPaintEffect"@.len());
            assert("unsupportedColorGlyph"@.len() != "incompleteVariantSet"@.len());
            assert("unsupportedColorGlyph"@.len() != "variantPartCountMismatch"@.len());
            assert("unsupportedColorGlyph"@.len() != "variantDuplicatePart"@.len());
            assert("unsupportedColorGlyph"@.len() != "variantPartsIncomplete"@.len());
            assert("unsupportedColorGlyph"@.len() != "glyphOutlineUnsupported"@.len());
            assert("unsupportedColorGlyph"@.len() != "unsupportedOutlinePayload"@.len());
            assert("unsupportedColorGlyph"@.len() != "mixedGlyphOutlinePayload"@.len());
            assert("unsupportedColorGlyph"@.len() != "emptyGlyphOutlinePayload"@.len());
            assert("unsupportedColorGlyph"@.len() != "glyphOutlineStrokeStyleUnsupported"@.len());
        },
        VariantRejectReason::UnsupportedBitmapGlyph => {
            assert("unsupportedBitmapGlyph"@.len() != "backendDoesNotSupportVariant"@.len());
            assert("unsupportedBitmapGlyph"@.len() != "fontNotPortable"@.len());
            assert("unsupportedBitmapGlyph"@.len() != "externalFontNotVerified"@.len());
            assert("unsupportedBitmapGlyph"@.len() != "fontFaceMissing"@.len());
            assert("unsupportedBitmapGlyph"@.len() != "fontBlobMissing"@.len());
            assert("unsupportedBitmapGlyph"@.len() != "fontBlobNotPortable"@.len());
            assert("unsupportedBitmapGlyph"@.len() != "fontBlobBytesMissing"@.len());
            assert("unsupportedBitmapGlyph"@.len() != "fontBlobDataRefMismatch"@.len());
            assert("unsupportedBitmapGlyph"@[0] != "fontBlobDigestMismatch"@[0]);
            assert("unsupportedBitmapGlyph"@.len() != "faceIndexUnsupported"@.len());
            assert("unsupportedBitmapGlyph"@.len() != "variationUnsupported"@.len());
            assert("unsupportedBitmapGlyph"@.len() != "glyphIdOutOfRange"@.len());
            assert("unsupportedBitmapGlyph"@.len() != "missingGlyph"@.len());
            assert("unsupportedBitmapGlyph"@.len() != "clusterMismatch"@.len());
            assert("unsupportedBitmapGlyph"@[11] != "unsupportedPaintEffect"@[11]);
            assert("unsupportedBitmapGlyph"@.len() != "incompleteVariantSet"@.len());
            assert("unsupportedBitmapGlyph"@.len() != "variantPartCountMismatch"@.len());
            assert("unsupportedBitmapGlyph"@.len() != "variantDuplicatePart"@.len());
            assert("unsupportedBitmapGlyph"@[0] != "variantPartsIncomplete"@[0]);
            assert("unsupportedBitmapGlyph"@.len() != "glyphOutlineUnsupported"@.len());
            assert("unsupportedBitmapGlyph"@.len() != "unsupportedOutlinePayload"@.len());
            assert("unsupportedBitmapGlyph"@.len() != "mixedGlyphOutlinePayload"@.len());
            assert("unsupportedBitmapGlyph"@.len() != "emptyGlyphOutlinePayload"@.len());
            assert("unsupportedBitmapGlyph"@.len() != "glyphOutlineStrokeStyleUnsupported"@.len());
            assert("unsupportedBitmapGlyph"@.len() != "unsupportedColorGlyph"@.len());
        },
        VariantRejectReason::UnsupportedSvgGlyph => {
            assert("unsupportedSvgGlyph"@.len() != "backendDoesNotSupportVariant"@.len());
            assert("unsupportedSvgGlyph"@.len() != "fontNotPortable"@.len());
            assert("unsupportedSvgGlyph"@.len() != "externalFontNotVerified"@.len());
            assert("unsupportedSvgGlyph"@.len() != "fontFaceMissing"@.len());
            assert("unsupportedSvgGlyph"@.len() != "fontBlobMissing"@.len());
            assert("unsupportedSvgGlyph"@[0] != "fontBlobNotPortable"@[0]);
            assert("unsupportedSvgGlyph"@.len() != "fontBlobBytesMissing"@.len());
            assert("unsupportedSvgGlyph"@.len() != "fontBlobDataRefMismatch"@.len());
            assert("unsupportedSvgGlyph"@.len() != "fontBlobDigestMismatch"@.len());
            assert("unsupportedSvgGlyph"@.len() != "faceIndexUnsupported"@.len());
            assert("unsupportedSvgGlyph"@.len() != "variationUnsupported"@.len());
            assert("unsupportedSvgGlyph"@.len() != "glyphIdOutOfRange"@.len());
            assert("unsupportedSvgGlyph"@.len() != "missingGlyph"@.len());
            assert("unsupportedSvgGlyph"@.len() != "clusterMismatch"@.len());
            assert("unsupportedSvgGlyph"@.len() != "unsupportedPaintEffect"@.len());
            assert("unsupportedSvgGlyph"@.len() != "incompleteVariantSet"@.len());
            assert("unsupportedSvgGlyph"@.len() != "variantPartCountMismatch"@.len());
            assert("unsupportedSvgGlyph"@.len() != "variantDuplicatePart"@.len());
            assert("unsupportedSvgGlyph"@.len() != "variantPartsIncomplete"@.len());
            assert("unsupportedSvgGlyph"@.len() != "glyphOutlineUnsupported"@.len());
            assert("unsupportedSvgGlyph"@.len() != "unsupportedOutlinePayload"@.len());
            assert("unsupportedSvgGlyph"@.len() != "mixedGlyphOutlinePayload"@.len());
            assert("unsupportedSvgGlyph"@.len() != "emptyGlyphOutlinePayload"@.len());
            assert("unsupportedSvgGlyph"@.len() != "glyphOutlineStrokeStyleUnsupported"@.len());
            assert("unsupportedSvgGlyph"@.len() != "unsupportedColorGlyph"@.len());
            assert("unsupportedSvgGlyph"@.len() != "unsupportedBitmapGlyph"@.len());
        },
        VariantRejectReason::MissingGlyphPayloadResource => {
            assert("missingGlyphPayloadResource"@.len() != "backendDoesNotSupportVariant"@.len());
            assert("missingGlyphPayloadResource"@.len() != "fontNotPortable"@.len());
            assert("missingGlyphPayloadResource"@.len() != "externalFontNotVerified"@.len());
            assert("missingGlyphPayloadResource"@.len() != "fontFaceMissing"@.len());
            assert("missingGlyphPayloadResource"@.len() != "fontBlobMissing"@.len());
            assert("missingGlyphPayloadResource"@.len() != "fontBlobNotPortable"@.len());
            assert("missingGlyphPayloadResource"@.len() != "fontBlobBytesMissing"@.len());
            assert("missingGlyphPayloadResource"@.len() != "fontBlobDataRefMismatch"@.len());
            assert("missingGlyphPayloadResource"@.len() != "fontBlobDigestMismatch"@.len());
            assert("missingGlyphPayloadResource"@.len() != "faceIndexUnsupported"@.len());
            assert("missingGlyphPayloadResource"@.len() != "variationUnsupported"@.len());
            assert("missingGlyphPayloadResource"@.len() != "glyphIdOutOfRange"@.len());
            assert("missingGlyphPayloadResource"@.len() != "missingGlyph"@.len());
            assert("missingGlyphPayloadResource"@.len() != "clusterMismatch"@.len());
            assert("missingGlyphPayloadResource"@.len() != "unsupportedPaintEffect"@.len());
            assert("missingGlyphPayloadResource"@.len() != "incompleteVariantSet"@.len());
            assert("missingGlyphPayloadResource"@.len() != "variantPartCountMismatch"@.len());
            assert("missingGlyphPayloadResource"@.len() != "variantDuplicatePart"@.len());
            assert("missingGlyphPayloadResource"@.len() != "variantPartsIncomplete"@.len());
            assert("missingGlyphPayloadResource"@.len() != "glyphOutlineUnsupported"@.len());
            assert("missingGlyphPayloadResource"@.len() != "unsupportedOutlinePayload"@.len());
            assert("missingGlyphPayloadResource"@.len() != "mixedGlyphOutlinePayload"@.len());
            assert("missingGlyphPayloadResource"@.len() != "emptyGlyphOutlinePayload"@.len());
            assert("missingGlyphPayloadResource"@.len() != "glyphOutlineStrokeStyleUnsupported"@.len());
            assert("missingGlyphPayloadResource"@.len() != "unsupportedColorGlyph"@.len());
            assert("missingGlyphPayloadResource"@.len() != "unsupportedBitmapGlyph"@.len());
            assert("missingGlyphPayloadResource"@.len() != "unsupportedSvgGlyph"@.len());
        },
        VariantRejectReason::MixedPerGlyphAuthorityPending => {
            assert("mixedPerGlyphAuthorityPending"@.len() != "backendDoesNotSupportVariant"@.len());
            assert("mixedPerGlyphAuthorityPending"@.len() != "fontNotPortable"@.len());
            assert("mixedPerGlyphAuthorityPending"@.len() != "externalFontNotVerified"@.len());
            assert("mixedPerGlyphAuthorityPending"@.len() != "fontFaceMissing"@.len());
            assert("mixedPerGlyphAuthorityPending"@.len() != "fontBlobMissing"@.len());
            assert("mixedPerGlyphAuthorityPending"@.len() != "fontBlobNotPortable"@.len());
            assert("mixedPerGlyphAuthorityPending"@.len() != "fontBlobBytesMissing"@.len());
            assert("mixedPerGlyphAuthorityPending"@.len() != "fontBlobDataRefMismatch"@.len());
            assert("mixedPerGlyphAuthorityPending"@.len() != "fontBlobDigestMismatch"@.len());
            assert("mixedPerGlyphAuthorityPending"@.len() != "faceIndexUnsupported"@.len());
            assert("mixedPerGlyphAuthorityPending"@.len() != "variationUnsupported"@.len());
            assert("mixedPerGlyphAuthorityPending"@.len() != "glyphIdOutOfRange"@.len());
            assert("mixedPerGlyphAuthorityPending"@.len() != "missingGlyph"@.len());
            assert("mixedPerGlyphAuthorityPending"@.len() != "clusterMismatch"@.len());
            assert("mixedPerGlyphAuthorityPending"@.len() != "unsupportedPaintEffect"@.len());
            assert("mixedPerGlyphAuthorityPending"@.len() != "incompleteVariantSet"@.len());
            assert("mixedPerGlyphAuthorityPending"@.len() != "variantPartCountMismatch"@.len());
            assert("mixedPerGlyphAuthorityPending"@.len() != "variantDuplicatePart"@.len());
            assert("mixedPerGlyphAuthorityPending"@.len() != "variantPartsIncomplete"@.len());
            assert("mixedPerGlyphAuthorityPending"@.len() != "glyphOutlineUnsupported"@.len());
            assert("mixedPerGlyphAuthorityPending"@.len() != "unsupportedOutlinePayload"@.len());
            assert("mixedPerGlyphAuthorityPending"@.len() != "mixedGlyphOutlinePayload"@.len());
            assert("mixedPerGlyphAuthorityPending"@.len() != "emptyGlyphOutlinePayload"@.len());
            assert("mixedPerGlyphAuthorityPending"@.len() != "glyphOutlineStrokeStyleUnsupported"@.len());
            assert("mixedPerGlyphAuthorityPending"@.len() != "unsupportedColorGlyph"@.len());
            assert("mixedPerGlyphAuthorityPending"@.len() != "unsupportedBitmapGlyph"@.len());
            assert("mixedPerGlyphAuthorityPending"@.len() != "unsupportedSvgGlyph"@.len());
            assert("mixedPerGlyphAuthorityPending"@.len() != "missingGlyphPayloadResource"@.len());
        },
        VariantRejectReason::GlyphTransformAuthorityPending => {
            assert("glyphTransformAuthorityPending"@.len() != "backendDoesNotSupportVariant"@.len());
            assert("glyphTransformAuthorityPending"@.len() != "fontNotPortable"@.len());
            assert("glyphTransformAuthorityPending"@.len() != "externalFontNotVerified"@.len());
            assert("glyphTransformAuthorityPending"@.len() != "fontFaceMissing"@.len());
            assert("glyphTransformAuthorityPending"@.len() != "fontBlobMissing"@.len());
            assert("glyphTransformAuthorityPending"@.len() != "fontBlobNotPortable"@.len());
            assert("glyphTransformAuthorityPending"@.len() != "fontBlobBytesMissing"@.len());
            assert("glyphTransformAuthorityPending"@.len() != "fontBlobDataRefMismatch"@.len());
            assert("glyphTransformAuthorityPending"@.len() != "fontBlobDigestMismatch"@.len());
            assert("glyphTransformAuthorityPending"@.len() != "faceIndexUnsupported"@.len());
            assert("glyphTransformAuthorityPending"@.len() != "variationUnsupported"@.len());
            assert("glyphTransformAuthorityPending"@.len() != "glyphIdOutOfRange"@.len());
            assert("glyphTransformAuthorityPending"@.len() != "missingGlyph"@.len());
            assert("glyphTransformAuthorityPending"@.len() != "clusterMismatch"@.len());
            assert("glyphTransformAuthorityPending"@.len() != "unsupportedPaintEffect"@.len());
            assert("glyphTransformAuthorityPending"@.len() != "incompleteVariantSet"@.len());
            assert("glyphTransformAuthorityPending"@.len() != "variantPartCountMismatch"@.len());
            assert("glyphTransformAuthorityPending"@.len() != "variantDuplicatePart"@.len());
            assert("glyphTransformAuthorityPending"@.len() != "variantPartsIncomplete"@.len());
            assert("glyphTransformAuthorityPending"@.len() != "glyphOutlineUnsupported"@.len());
            assert("glyphTransformAuthorityPending"@.len() != "unsupportedOutlinePayload"@.len());
            assert("glyphTransformAuthorityPending"@.len() != "mixedGlyphOutlinePayload"@.len());
            assert("glyphTransformAuthorityPending"@.len() != "emptyGlyphOutlinePayload"@.len());
            assert("glyphTransformAuthorityPending"@.len() != "glyphOutlineStrokeStyleUnsupported"@.len());
            assert("glyphTransformAuthorityPending"@.len() != "unsupportedColorGlyph"@.len());
            assert("glyphTransformAuthorityPending"@.len() != "unsupportedBitmapGlyph"@.len());
            assert("glyphTransformAuthorityPending"@.len() != "unsupportedSvgGlyph"@.len());
            assert("glyphTransformAuthorityPending"@.len() != "missingGlyphPayloadResource"@.len());
            assert("glyphTransformAuthorityPending"@.len() != "mixedPerGlyphAuthorityPending"@.len());
        },
        VariantRejectReason::VerticalGlyphOrientationAuthorityPending => {
            assert("verticalGlyphOrientationAuthorityPending"@.len() != "backendDoesNotSupportVariant"@.len());
            assert("verticalGlyphOrientationAuthorityPending"@.len() != "fontNotPortable"@.len());
            assert("verticalGlyphOrientationAuthorityPending"@.len() != "externalFontNotVerified"@.len());
            assert("verticalGlyphOrientationAuthorityPending"@.len() != "fontFaceMissing"@.len());
            assert("verticalGlyphOrientationAuthorityPending"@.len() != "fontBlobMissing"@.len());
            assert("verticalGlyphOrientationAuthorityPending"@.len() != "fontBlobNotPortable"@.len());
            assert("verticalGlyphOrientationAuthorityPending"@.len() != "fontBlobBytesMissing"@.len());
            assert("verticalGlyphOrientationAuthorityPending"@.len() != "fontBlobDataRefMismatch"@.len());
            assert("verticalGlyphOrientationAuthorityPending"@.len() != "fontBlobDigestMismatch"@.len());
            assert("verticalGlyphOrientationAuthorityPending"@.len() != "faceIndexUnsupported"@.len());
            assert("verticalGlyphOrientationAuthorityPending"@.len() != "variationUnsupported"@.len());
            assert("verticalGlyphOrientationAuthorityPending"@.len() != "glyphIdOutOfRange"@.len());
            assert("verticalGlyphOrientationAuthorityPending"@.len() != "missingGlyph"@.len());
            assert("verticalGlyphOrientationAuthorityPending"@.len() != "clusterMismatch"@.len());
            assert("verticalGlyphOrientationAuthorityPending"@.len() != "unsupportedPaintEffect"@.len());
            assert("verticalGlyphOrientationAuthorityPending"@.len() != "incompleteVariantSet"@.len());
            assert("verticalGlyphOrientationAuthorityPending"@.len() != "variantPartCountMismatch"@.len());
            assert("verticalGlyphOrientationAuthorityPending"@.len() != "variantDuplicatePart"@.len());
            assert("verticalGlyphOrientationAuthorityPending"@.len() != "variantPartsIncomplete"@.len());
            assert("verticalGlyphOrientationAuthorityPending"@.len() != "glyphOutlineUnsupported"@.len());
            assert("verticalGlyphOrientationAuthorityPending"@.len() != "unsupportedOutlinePayload"@.len());
            assert("verticalGlyphOrientationAuthorityPending"@.len() != "mixedGlyphOutlinePayload"@.len());
            assert("verticalGlyphOrientationAuthorityPending"@.len() != "emptyGlyphOutlinePayload"@.len());
            assert("verticalGlyphOrientationAuthorityPending"@.len() != "glyphOutlineStrokeStyleUnsupported"@.len());
            assert("verticalGlyphOrientationAuthorityPending"@.len() != "unsupportedColorGlyph"@.len());
            assert("verticalGlyphOrientationAuthorityPending"@.len() != "unsupportedBitmapGlyph"@.len());
            assert("verticalGlyphOrientationAuthorityPending"@.len() != "unsupportedSvgGlyph"@.len());
            assert("verticalGlyphOrientationAuthorityPending"@.len() != "missingGlyphPayloadResource"@.len());
            assert("verticalGlyphOrientationAuthorityPending"@.len() != "mixedPerGlyphAuthorityPending"@.len());
            assert("verticalGlyphOrientationAuthorityPending"@.len() != "glyphTransformAuthorityPending"@.len());
        },
        VariantRejectReason::PositionAdjustedNotAllowed => {
            assert("positionAdjustedNotAllowed"@.len() != "backendDoesNotSupportVariant"@.len());
            assert("positionAdjustedNotAllowed"@.len() != "fontNotPortable"@.len());
            assert("positionAdjustedNotAllowed"@.len() != "externalFontNotVerified"@.len());
            assert("positionAdjustedNotAllowed"@.len() != "fontFaceMissing"@.len());
            assert("positionAdjustedNotAllowed"@.len() != "fontBlobMissing"@.len());
            assert("positionAdjustedNotAllowed"@.len() != "fontBlobNotPortable"@.len());
            assert("positionAdjustedNotAllowed"@.len() != "fontBlobBytesMissing"@.len());
            assert("positionAdjustedNotAllowed"@.len() != "fontBlobDataRefMismatch"@.len());
            assert("positionAdjustedNotAllowed"@.len() != "fontBlobDigestMismatch"@.len());
            assert("positionAdjustedNotAllowed"@.len() != "faceIndexUnsupported"@.len());
            assert("positionAdjustedNotAllowed"@.len() != "variationUnsupported"@.len());
            assert("positionAdjustedNotAllowed"@.len() != "glyphIdOutOfRange"@.len());
            assert("positionAdjustedNotAllowed"@.len() != "missingGlyph"@.len());
            assert("positionAdjustedNotAllowed"@.len() != "clusterMismatch"@.len());
            assert("positionAdjustedNotAllowed"@.len() != "unsupportedPaintEffect"@.len());
            assert("positionAdjustedNotAllowed"@.len() != "incompleteVariantSet"@.len());
            assert("positionAdjustedNotAllowed"@.len() != "variantPartCountMismatch"@.len());
            assert("positionAdjustedNotAllowed"@.len() != "variantDuplicatePart"@.len());
            assert("positionAdjustedNotAllowed"@.len() != "variantPartsIncomplete"@.len());
            assert("positionAdjustedNotAllowed"@.len() != "glyphOutlineUnsupported"@.len());
            assert("positionAdjustedNotAllowed"@.len() != "unsupportedOutlinePayload"@.len());
            assert("positionAdjustedNotAllowed"@.len() != "mixedGlyphOutlinePayload"@.len());
            assert("positionAdjustedNotAllowed"@.len() != "emptyGlyphOutlinePayload"@.len());
            assert("positionAdjustedNotAllowed"@.len() != "glyphOutlineStrokeStyleUnsupported"@.len());
            assert("positionAdjustedNotAllowed"@.len() != "unsupportedColorGlyph"@.len());
            assert("positionAdjustedNotAllowed"@.len() != "unsupportedBitmapGlyph"@.len());
            assert("positionAdjustedNotAllowed"@.len() != "unsupportedSvgGlyph"@.len());
            assert("positionAdjustedNotAllowed"@.len() != "missingGlyphPayloadResource"@.len());
            assert("positionAdjustedNotAllowed"@.len() != "mixedPerGlyphAuthorityPending"@.len());
            assert("positionAdjustedNotAllowed"@.len() != "glyphTransformAuthorityPending"@.len());
            assert("positionAdjustedNotAllowed"@.len() != "verticalGlyphOrientationAuthorityPending"@.len());
        },
        VariantRejectReason::PositionAdjustedResidualTooLarge => {
            assert("positionAdjustedResidualTooLarge"@.len() != "backendDoesNotSupportVariant"@.len());
            assert("positionAdjustedResidualTooLarge"@.len() != "fontNotPortable"@.len());
            assert("positionAdjustedResidualTooLarge"@.len() != "externalFontNotVerified"@.len());
            assert("positionAdjustedResidualTooLarge"@.len() != "fontFaceMissing"@.len());
            assert("positionAdjustedResidualTooLarge"@.len() != "fontBlobMissing"@.len());
            assert("positionAdjustedResidualTooLarge"@.len() != "fontBlobNotPortable"@.len());
            assert("positionAdjustedResidualTooLarge"@.len() != "fontBlobBytesMissing"@.len());
            assert("positionAdjustedResidualTooLarge"@.len() != "fontBlobDataRefMismatch"@.len());
            assert("positionAdjustedResidualTooLarge"@.len() != "fontBlobDigestMismatch"@.len());
            assert("positionAdjustedResidualTooLarge"@.len() != "faceIndexUnsupported"@.len());
            assert("positionAdjustedResidualTooLarge"@.len() != "variationUnsupported"@.len());
            assert("positionAdjustedResidualTooLarge"@.len() != "glyphIdOutOfRange"@.len());
            assert("positionAdjustedResidualTooLarge"@.len() != "missingGlyph"@.len());
            assert("positionAdjustedResidualTooLarge"@.len() != "clusterMismatch"@.len());
            assert("positionAdjustedResidualTooLarge"@.len() != "unsupportedPaintEffect"@.len());
            assert("positionAdjustedResidualTooLarge"@.len() != "incompleteVariantSet"@.len());
            assert("positionAdjustedResidualTooLarge"@.len() != "variantPartCountMismatch"@.len());
            assert("positionAdjustedResidualTooLarge"@.len() != "variantDuplicatePart"@.len());
            assert("positionAdjustedResidualTooLarge"@.len() != "variantPartsIncomplete"@.len());
            assert("positionAdjustedResidualTooLarge"@.len() != "glyphOutlineUnsupported"@.len());
            assert("positionAdjustedResidualTooLarge"@.len() != "unsupportedOutlinePayload"@.len());
            assert("positionAdjustedResidualTooLarge"@.len() != "mixedGlyphOutlinePayload"@.len());
            assert("positionAdjustedResidualTooLarge"@.len() != "emptyGlyphOutlinePayload"@.len());
            assert("positionAdjustedResidualTooLarge"@.len() != "glyphOutlineStrokeStyleUnsupported"@.len());
            assert("positionAdjustedResidualTooLarge"@.len() != "unsupportedColorGlyph"@.len());
            assert("positionAdjustedResidualTooLarge"@.len() != "unsupportedBitmapGlyph"@.len());
            assert("positionAdjustedResidualTooLarge"@.len() != "unsupportedSvgGlyph"@.len());
            assert("positionAdjustedResidualTooLarge"@.len() != "missingGlyphPayloadResource"@.len());
            assert("positionAdjustedResidualTooLarge"@.len() != "mixedPerGlyphAuthorityPending"@.len());
            assert("positionAdjustedResidualTooLarge"@.len() != "glyphTransformAuthorityPending"@.len());
            assert("positionAdjustedResidualTooLarge"@.len() != "verticalGlyphOrientationAuthorityPending"@.len());
            assert("positionAdjustedResidualTooLarge"@.len() != "positionAdjustedNotAllowed"@.len());
        },
    }
}


proof fn lemma_first_blob_found(blobs: Seq<FontBlobFacts>, id: u64, k: int, j: int)
    requires
        0 <= k <= j < blobs.len(),
        blobs[j].id == id,
        forall|i: int| k <= i < j ==> blobs[i].id != id,
    ensures
        first_blob(blobs, id, k) == Some(blobs[j]),
    decreases j - k,
{
    if k < j {
        lemma_first_blob_found(blobs, id, k + 1, j);
    }
}

/// The defects of the blob behind a portable glyph run are reasons to
/// reject its variant where the backend replays fonts: a blob without a
/// portable data reference, and, for a portable one, a data reference of
/// its own that disagrees, missing bytes, or bytes whose digest disagrees.
pub proof fn law_glyph_run_blob_defects_reject(
    runs: Seq<VariantGlyphRunFacts>,
    outlines: Seq<VariantGlyphOutlineFacts>,
    lim: SelectionLimits,
    res: FontResourceFacts,
    k: int,
    j: int,
    m: int,
)
    requires
        0 <= k < runs.len(),
        replays_fonts(lim.backend),
        runs[k].diagnostics.replay_eligibility == GlyphRunReplayEligibility::Portable,
        0 <= j < res.faces@.len(),
        res.faces@[j].id == runs[k].face_key,
        forall|i: int| 0 <= i < j ==> res.faces@[i].id != runs[k].face_key,
        0 <= m < res.blobs@.len(),
        res.blobs@[m].id == res.faces@[j].blob_key,
        forall|i: int| 0 <= i < m ==> res.blobs@[i].id != res.faces@[j].blob_key,
    ensures
        ({
            let rs = reasons_in_order(glyph_rejects(runs, outlines, lim, res));
            let b = res.blobs@[m];
            &&& b.portable_data_ref is None ==> rs.contains(VariantRejectReason::FontBlobNotPortable)
            &&& (b.portable_data_ref is Some && b.data_ref != b.portable_data_ref) ==> rs.contains(
                VariantRejectReason::FontBlobDataRefMismatch,
            )
            &&& (b.portable_data_ref is Some && b.bytes == BlobBytes::Missing) ==> rs.contains(
                VariantRejectReason::FontBlobBytesMissing,
            )
            &&& (b.portable_data_ref is Some && b.bytes == BlobBytes::DigestMismatch) ==> rs.contains(
                VariantRejectReason::FontBlobDigestMismatch,
            )
        }),
{
    let h = glyph_rejects(runs, outlines, lim, res);
    lemma_first_face_found(res.faces@, runs[k].face_key, 0, j);
    lemma_first_blob_found(res.blobs@, res.faces@[j].blob_key, 0, m);
    lemma_reasons_in_order_contains(h, VariantRejectReason::FontBlobNotPortable);
    assert(run_holds(runs[k], lim, res, VariantRejectReason::FontBlobNotPortable) ==> h(VariantRejectReason::FontBlobNotPortable));
    lemma_reasons_in_order_contains(h, VariantRejectReason::FontBlobDataRefMismatch);
    assert(run_holds(runs[k], lim, res, VariantRejectReason::FontBlobDataRefMismatch) ==> h(VariantRejectReason::FontBlobDataRefMismatch));
    lemma_reasons_in_order_contains(h, VariantRejectReason::FontBlobBytesMissing);
    assert(run_holds(runs[k], lim, res, VariantRejectReason::FontBlobBytesMissing) ==> h(VariantRejectReason::FontBlobBytesMissing));
    lemma_reasons_in_order_contains(h, VariantRejectReason::FontBlobDigestMismatch);
    assert(run_holds(runs[k], lim, res, VariantRejectReason::FontBlobDigestMismatch) ==> h(VariantRejectReason::FontBlobDigestMismatch));
}

} // verus!
