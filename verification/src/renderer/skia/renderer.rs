//! The native Skia replay proof: whether a glyph run can be replayed from
//! its own font bytes, and every reason it cannot.

use crate::paint::{GlyphRunOrientation, GlyphRunReplayEligibility, TextVariantQuality};
use vstd::prelude::*;

verus! {

/// A reason a glyph run cannot be replayed natively.
#[derive(Clone, Copy, Debug, PartialEq, Eq, Structural)]
pub enum NativeGlyphRunReplayProofReason {
    EmptyGlyphIds,
    GlyphPositionCountMismatch,
    AdvanceCountMismatch,
    GlyphTransformUnsupported,
    VerticalOrientationUnsupported,
    StrictVisualIneligible,
    MissingGlyph,
    ClusterMismatch,
    UnsupportedQuality,
    PositionAdjustedResidualTooLarge,
    ReplayEligibilityNotPortable,
    UnsupportedPaintEffect,
    GlyphIdOutOfRange,
    PlacementNotFinite,
    PositionNotFinite,
    FontFaceMissing,
    FontBlobMissing,
    FontBlobNotPortable,
    FontBlobBytesMissing,
    FontBlobDataRefMismatch,
    FontBlobDigestMismatch,
    FaceIndexUnsupported,
    FontVariationUnsupported,
    TypefaceConstructionNotImplemented,
}

/// The name a replay reason is reported under.
pub open spec fn proof_reason_name(r: NativeGlyphRunReplayProofReason) -> Seq<char> {
    match r {
        NativeGlyphRunReplayProofReason::EmptyGlyphIds => "emptyGlyphIds"@,
        NativeGlyphRunReplayProofReason::GlyphPositionCountMismatch => "glyphPositionCountMismatch"@,
        NativeGlyphRunReplayProofReason::AdvanceCountMismatch => "advanceCountMismatch"@,
        NativeGlyphRunReplayProofReason::GlyphTransformUnsupported => "glyphTransformUnsupported"@,
        NativeGlyphRunReplayProofReason::VerticalOrientationUnsupported => "verticalOrientationUnsupported"@,
        NativeGlyphRunReplayProofReason::StrictVisualIneligible => "strictVisualIneligible"@,
        NativeGlyphRunReplayProofReason::MissingGlyph => "missingGlyph"@,
        NativeGlyphRunReplayProofReason::ClusterMismatch => "clusterMismatch"@,
        NativeGlyphRunReplayProofReason::UnsupportedQuality => "unsupportedQuality"@,
        NativeGlyphRunReplayProofReason::PositionAdjustedResidualTooLarge => "positionAdjustedResidualTooLarge"@,
        NativeGlyphRunReplayProofReason::ReplayEligibilityNotPortable => "replayEligibilityNotPortable"@,
        NativeGlyphRunReplayProofReason::UnsupportedPaintEffect => "unsupportedPaintEffect"@,
        NativeGlyphRunReplayProofReason::GlyphIdOutOfRange => "glyphIdOutOfRange"@,
        NativeGlyphRunReplayProofReason::PlacementNotFinite => "placementNotFinite"@,
        NativeGlyphRunReplayProofReason::PositionNotFinite => "positionNotFinite"@,
        NativeGlyphRunReplayProofReason::FontFaceMissing => "fontFaceMissing"@,
        NativeGlyphRunReplayProofReason::FontBlobMissing => "fontBlobMissing"@,
        NativeGlyphRunReplayProofReason::FontBlobNotPortable => "fontBlobNotPortable"@,
        NativeGlyphRunReplayProofReason::FontBlobBytesMissing => "fontBlobBytesMissing"@,
        NativeGlyphRunReplayProofReason::FontBlobDataRefMismatch => "fontBlobDataRefMismatch"@,
        NativeGlyphRunReplayProofReason::FontBlobDigestMismatch => "fontBlobDigestMismatch"@,
        NativeGlyphRunReplayProofReason::FaceIndexUnsupported => "faceIndexUnsupported"@,
        NativeGlyphRunReplayProofReason::FontVariationUnsupported => "fontVariationUnsupported"@,
        NativeGlyphRunReplayProofReason::TypefaceConstructionNotImplemented => "typefaceConstructionNotImplemented"@,
    }
}

impl NativeGlyphRunReplayProofReason {
    /// The name this reason is reported under.
    pub fn as_str(self) -> (r: &'static str)
        ensures
            r@ == proof_reason_name(self),
    {
        match self {
            NativeGlyphRunReplayProofReason::EmptyGlyphIds => "emptyGlyphIds",
            NativeGlyphRunReplayProofReason::GlyphPositionCountMismatch => "glyphPositionCountMismatch",
            NativeGlyphRunReplayProofReason::AdvanceCountMismatch => "advanceCountMismatch",
            NativeGlyphRunReplayProofReason::GlyphTransformUnsupported => "glyphTransformUnsupported",
            NativeGlyphRunReplayProofReason::VerticalOrientationUnsupported => "verticalOrientationUnsupported",
            NativeGlyphRunReplayProofReason::StrictVisualIneligible => "strictVisualIneligible",
            NativeGlyphRunReplayProofReason::MissingGlyph => "missingGlyph",
            NativeGlyphRunReplayProofReason::ClusterMismatch => "clusterMismatch",
            NativeGlyphRunReplayProofReason::UnsupportedQuality => "unsupportedQuality",
            NativeGlyphRunReplayProofReason::PositionAdjustedResidualTooLarge => "positionAdjustedResidualTooLarge",
            NativeGlyphRunReplayProofReason::ReplayEligibilityNotPortable => "replayEligibilityNotPortable",
            NativeGlyphRunReplayProofReason::UnsupportedPaintEffect => "unsupportedPaintEffect",
            NativeGlyphRunReplayProofReason::GlyphIdOutOfRange => "glyphIdOutOfRange",
            NativeGlyphRunReplayProofReason::PlacementNotFinite => "placementNotFinite",
            NativeGlyphRunReplayProofReason::PositionNotFinite => "positionNotFinite",
            NativeGlyphRunReplayProofReason::FontFaceMissing => "fontFaceMissing",
            NativeGlyphRunReplayProofReason::FontBlobMissing => "fontBlobMissing",
            NativeGlyphRunReplayProofReason::FontBlobNotPortable => "fontBlobNotPortable",
            NativeGlyphRunReplayProofReason::FontBlobBytesMissing => "fontBlobBytesMissing",
            NativeGlyphRunReplayProofReason::FontBlobDataRefMismatch => "fontBlobDataRefMismatch",
            NativeGlyphRunReplayProofReason::FontBlobDigestMismatch => "fontBlobDigestMismatch",
            NativeGlyphRunReplayProofReason::FaceIndexUnsupported => "faceIndexUnsupported",
            NativeGlyphRunReplayProofReason::FontVariationUnsupported => "fontVariationUnsupported",
            NativeGlyphRunReplayProofReason::TypefaceConstructionNotImplemented => "typefaceConstructionNotImplemented",
        }
    }
}

/// The outcome of the replay check.
pub struct NativeGlyphRunReplayProof {
    /// The run meets the replay contract.
    pub contract_replayable: bool,
    /// A typeface can be built for it.
    pub typeface_constructible: bool,
    /// Every reason found, in the order of the reason enum, each once.
    pub reasons: Vec<NativeGlyphRunReplayProofReason>,
}

/// What the replay check reads of a glyph run. The floating-point checks are
/// carried as their outcomes.
pub struct GlyphRunFacts {
    pub glyph_ids: Vec<u32>,
    pub position_count: usize,
    pub advance_count: Option<usize>,
    pub has_glyph_transforms: bool,
    pub orientation: GlyphRunOrientation,
    pub strict_visual_eligible: bool,
    pub missing_glyph_count: u32,
    pub cluster_mismatch_count: u32,
    pub quality: TextVariantQuality,
    /// The residual left by position adjustment is finite and within the
    /// tolerance for the run's font size.
    pub residual_within_tolerance: bool,
    pub replay_eligibility: GlyphRunReplayEligibility,
    pub fill_only_paint: bool,
    /// The font face the run names.
    pub face_key: u64,
    pub has_variations: bool,
    /// The run-to-page transform and the baseline are finite.
    pub placement_finite: bool,
    /// Every glyph position is finite.
    pub positions_finite: bool,
}

/// A font face of the resource arena.
#[derive(Clone, Copy, Debug)]
pub struct FontFaceFacts {
    pub id: u64,
    pub face_index: u32,
    pub blob_key: u64,
}

/// What was found of a portable blob's bytes.
#[derive(Clone, Copy, Debug, PartialEq, Eq, Structural)]
pub enum BlobBytes {
    Missing,
    DigestMatches,
    DigestMismatch,
}

/// A font blob of the resource arena.
#[derive(Clone, Copy, Debug)]
pub struct FontBlobFacts {
    pub id: u64,
    /// The blob can be replayed from its own bytes.
    pub self_contained_replayable: bool,
    /// The data reference its portability record names, when it is a
    /// portable blob.
    pub portable_data_ref: Option<u64>,
    /// The data reference stored on the blob itself.
    pub data_ref: Option<u64>,
    /// The bytes found under the portable data reference, and whether they
    /// match the recorded digests.
    pub bytes: BlobBytes,
}

/// The font resources of a resource arena.
pub struct FontResourceFacts {
    pub faces: Vec<FontFaceFacts>,
    pub blobs: Vec<FontBlobFacts>,
}

/// The first face with the given id.
pub open spec fn first_face(faces: Seq<FontFaceFacts>, id: u64, k: int) -> Option<FontFaceFacts>
    decreases faces.len() - k,
{
    if k < 0 || k >= faces.len() {
        None
    } else if faces[k].id == id {
        Some(faces[k])
    } else {
        first_face(faces, id, k + 1)
    }
}

/// The first blob with the given id.
pub open spec fn first_blob(blobs: Seq<FontBlobFacts>, id: u64, k: int) -> Option<FontBlobFacts>
    decreases blobs.len() - k,
{
    if k < 0 || k >= blobs.len() {
        None
    } else if blobs[k].id == id {
        Some(blobs[k])
    } else {
        first_blob(blobs, id, k + 1)
    }
}

/// The face the run names.
pub open spec fn face_of(run: GlyphRunFacts, res: FontResourceFacts) -> Option<FontFaceFacts> {
    first_face(res.faces@, run.face_key, 0)
}

/// The blob of the face the run names.
pub open spec fn blob_of(run: GlyphRunFacts, res: FontResourceFacts) -> Option<FontBlobFacts> {
    match face_of(run, res) {
        Some(f) => first_blob(res.blobs@, f.blob_key, 0),
        None => None,
    }
}

/// That blob, when it is a self-contained portable blob.
pub open spec fn portable_blob(run: GlyphRunFacts, res: FontResourceFacts) -> Option<FontBlobFacts> {
    match blob_of(run, res) {
        Some(b) => if b.self_contained_replayable && b.portable_data_ref is Some {
            Some(b)
        } else {
            None
        },
        None => None,
    }
}

/// Whether a reason other than the missing typeface construction holds.
pub open spec fn reason_holds(
    run: GlyphRunFacts,
    res: FontResourceFacts,
    r: NativeGlyphRunReplayProofReason,
) -> bool {
    match r {
        NativeGlyphRunReplayProofReason::EmptyGlyphIds => run.glyph_ids@.len() == 0,
        NativeGlyphRunReplayProofReason::GlyphPositionCountMismatch => run.glyph_ids@.len() != run.position_count,
        NativeGlyphRunReplayProofReason::AdvanceCountMismatch => run.advance_count matches Some(n) && n != run.glyph_ids@.len(),
        NativeGlyphRunReplayProofReason::GlyphTransformUnsupported => run.has_glyph_transforms,
        NativeGlyphRunReplayProofReason::VerticalOrientationUnsupported => run.orientation != GlyphRunOrientation::Horizontal,
        NativeGlyphRunReplayProofReason::StrictVisualIneligible => !run.strict_visual_eligible,
        NativeGlyphRunReplayProofReason::MissingGlyph => run.missing_glyph_count != 0,
        NativeGlyphRunReplayProofReason::ClusterMismatch => run.cluster_mismatch_count != 0,
        NativeGlyphRunReplayProofReason::UnsupportedQuality => !(run.quality == TextVariantQuality::Exact || run.quality == TextVariantQuality::PositionAdjusted),
        NativeGlyphRunReplayProofReason::PositionAdjustedResidualTooLarge => run.quality == TextVariantQuality::PositionAdjusted && !run.residual_within_tolerance,
        NativeGlyphRunReplayProofReason::ReplayEligibilityNotPortable => run.replay_eligibility != GlyphRunReplayEligibility::Portable,
        NativeGlyphRunReplayProofReason::UnsupportedPaintEffect => !run.fill_only_paint,
        NativeGlyphRunReplayProofReason::GlyphIdOutOfRange => exists|i: int| 0 <= i < run.glyph_ids@.len() && #[trigger] run.glyph_ids@[i] > 0xFFFF,
        NativeGlyphRunReplayProofReason::PlacementNotFinite => !run.placement_finite,
        NativeGlyphRunReplayProofReason::PositionNotFinite => !run.positions_finite,
        NativeGlyphRunReplayProofReason::FontFaceMissing => face_of(run, res) is None,
        NativeGlyphRunReplayProofReason::FontBlobMissing => face_of(run, res) is Some && blob_of(run, res) is None,
        NativeGlyphRunReplayProofReason::FontBlobNotPortable => blob_of(run, res) matches Some(b) && !b.self_contained_replayable,
        NativeGlyphRunReplayProofReason::FontBlobBytesMissing => portable_blob(run, res) matches Some(b) && b.bytes == BlobBytes::Missing,
        NativeGlyphRunReplayProofReason::FontBlobDataRefMismatch => portable_blob(run, res) matches Some(b) && b.data_ref != b.portable_data_ref,
        NativeGlyphRunReplayProofReason::FontBlobDigestMismatch => portable_blob(run, res) matches Some(b) && b.bytes == BlobBytes::DigestMismatch,
        NativeGlyphRunReplayProofReason::FaceIndexUnsupported => face_of(run, res) matches Some(f) && f.face_index != 0,
        NativeGlyphRunReplayProofReason::FontVariationUnsupported => run.has_variations,
        NativeGlyphRunReplayProofReason::TypefaceConstructionNotImplemented => false,
    }
}

/// A reason that concerns building the typeface rather than the run's contract.
pub open spec fn is_construction_reason(r: NativeGlyphRunReplayProofReason) -> bool {
    r == NativeGlyphRunReplayProofReason::FaceIndexUnsupported || r
        == NativeGlyphRunReplayProofReason::FontVariationUnsupported || r
        == NativeGlyphRunReplayProofReason::TypefaceConstructionNotImplemented
}

/// The reason at position `i` of the enum.
pub open spec fn reason_at(i: int) -> NativeGlyphRunReplayProofReason {
    if i == 0 {
        NativeGlyphRunReplayProofReason::EmptyGlyphIds
    } else if i == 1 {
        NativeGlyphRunReplayProofReason::GlyphPositionCountMismatch
    } else if i == 2 {
        NativeGlyphRunReplayProofReason::AdvanceCountMismatch
    } else if i == 3 {
        NativeGlyphRunReplayProofReason::GlyphTransformUnsupported
    } else if i == 4 {
        NativeGlyphRunReplayProofReason::VerticalOrientationUnsupported
    } else if i == 5 {
        NativeGlyphRunReplayProofReason::StrictVisualIneligible
    } else if i == 6 {
        NativeGlyphRunReplayProofReason::MissingGlyph
    } else if i == 7 {
        NativeGlyphRunReplayProofReason::ClusterMismatch
    } else if i == 8 {
        NativeGlyphRunReplayProofReason::UnsupportedQuality
    } else if i == 9 {
        NativeGlyphRunReplayProofReason::PositionAdjustedResidualTooLarge
    } else if i == 10 {
        NativeGlyphRunReplayProofReason::ReplayEligibilityNotPortable
    } else if i == 11 {
        NativeGlyphRunReplayProofReason::UnsupportedPaintEffect
    } else if i == 12 {
        NativeGlyphRunReplayProofReason::GlyphIdOutOfRange
    } else if i == 13 {
        NativeGlyphRunReplayProofReason::PlacementNotFinite
    } else if i == 14 {
        NativeGlyphRunReplayProofReason::PositionNotFinite
    } else if i == 15 {
        NativeGlyphRunReplayProofReason::FontFaceMissing
    } else if i == 16 {
        NativeGlyphRunReplayProofReason::FontBlobMissing
    } else if i == 17 {
        NativeGlyphRunReplayProofReason::FontBlobNotPortable
    } else if i == 18 {
        NativeGlyphRunReplayProofReason::FontBlobBytesMissing
    } else if i == 19 {
        NativeGlyphRunReplayProofReason::FontBlobDataRefMismatch
    } else if i == 20 {
        NativeGlyphRunReplayProofReason::FontBlobDigestMismatch
    } else if i == 21 {
        NativeGlyphRunReplayProofReason::FaceIndexUnsupported
    } else if i == 22 {
        NativeGlyphRunReplayProofReason::FontVariationUnsupported
    } else {
        NativeGlyphRunReplayProofReason::TypefaceConstructionNotImplemented
    }
}

/// The run meets the replay contract: no contract reason holds.
pub open spec fn contract_ok(run: GlyphRunFacts, res: FontResourceFacts) -> bool {
    forall|i: int|
        0 <= i < 24 && !is_construction_reason(reason_at(i)) ==> !reason_holds(
            run,
            res,
            #[trigger] reason_at(i),
        )
}

/// A reason is reported.
pub open spec fn reported(
    run: GlyphRunFacts,
    res: FontResourceFacts,
    r: NativeGlyphRunReplayProofReason,
) -> bool {
    if r == NativeGlyphRunReplayProofReason::TypefaceConstructionNotImplemented {
        contract_ok(run, res) && !reason_holds(
            run,
            res,
            NativeGlyphRunReplayProofReason::FaceIndexUnsupported,
        ) && !reason_holds(run, res, NativeGlyphRunReplayProofReason::FontVariationUnsupported)
    } else {
        reason_holds(run, res, r)
    }
}

/// The reported reasons among the first `n` of the enum, in enum order.
pub open spec fn reported_prefix(run: GlyphRunFacts, res: FontResourceFacts, n: int) -> Seq<
    NativeGlyphRunReplayProofReason,
>
    decreases n,
{
    if n <= 0 {
        Seq::empty()
    } else if reported(run, res, reason_at(n - 1)) {
        reported_prefix(run, res, n - 1).push(reason_at(n - 1))
    } else {
        reported_prefix(run, res, n - 1)
    }
}

/// The reported reasons, in enum order.
pub open spec fn reported_reasons(run: GlyphRunFacts, res: FontResourceFacts) -> Seq<
    NativeGlyphRunReplayProofReason,
> {
    reported_prefix(run, res, 24)
}

fn reason_value(i: usize) -> (r: NativeGlyphRunReplayProofReason)
    requires
        i < 24,
    ensures
        r == reason_at(i as int),
{
    if i == 0 {
        NativeGlyphRunReplayProofReason::EmptyGlyphIds
    } else if i == 1 {
        NativeGlyphRunReplayProofReason::GlyphPositionCountMismatch
    } else if i == 2 {
        NativeGlyphRunReplayProofReason::AdvanceCountMismatch
    } else if i == 3 {
        NativeGlyphRunReplayProofReason::GlyphTransformUnsupported
    } else if i == 4 {
        NativeGlyphRunReplayProofReason::VerticalOrientationUnsupported
    } else if i == 5 {
        NativeGlyphRunReplayProofReason::StrictVisualIneligible
    } else if i == 6 {
        NativeGlyphRunReplayProofReason::MissingGlyph
    } else if i == 7 {
        NativeGlyphRunReplayProofReason::ClusterMismatch
    } else if i == 8 {
        NativeGlyphRunReplayProofReason::UnsupportedQuality
    } else if i == 9 {
        NativeGlyphRunReplayProofReason::PositionAdjustedResidualTooLarge
    } else if i == 10 {
        NativeGlyphRunReplayProofReason::ReplayEligibilityNotPortable
    } else if i == 11 {
        NativeGlyphRunReplayProofReason::UnsupportedPaintEffect
    } else if i == 12 {
        NativeGlyphRunReplayProofReason::GlyphIdOutOfRange
    } else if i == 13 {
        NativeGlyphRunReplayProofReason::PlacementNotFinite
    } else if i == 14 {
        NativeGlyphRunReplayProofReason::PositionNotFinite
    } else if i == 15 {
        NativeGlyphRunReplayProofReason::FontFaceMissing
    } else if i == 16 {
        NativeGlyphRunReplayProofReason::FontBlobMissing
    } else if i == 17 {
        NativeGlyphRunReplayProofReason::FontBlobNotPortable
    } else if i == 18 {
        NativeGlyphRunReplayProofReason::FontBlobBytesMissing
    } else if i == 19 {
        NativeGlyphRunReplayProofReason::FontBlobDataRefMismatch
    } else if i == 20 {
        NativeGlyphRunReplayProofReason::FontBlobDigestMismatch
    } else if i == 21 {
        NativeGlyphRunReplayProofReason::FaceIndexUnsupported
    } else if i == 22 {
        NativeGlyphRunReplayProofReason::FontVariationUnsupported
    } else {
        NativeGlyphRunReplayProofReason::TypefaceConstructionNotImplemented
    }
}

fn glyph_id_out_of_range(ids: &Vec<u32>) -> (b: bool)
    ensures
        b == exists|i: int| 0 <= i < ids@.len() && #[trigger] ids@[i] > 0xFFFF,
{
    for i in 0..ids.len()
        invariant
            forall|j: int| 0 <= j < i ==> ids@[j] <= 0xFFFF,
    {
        if ids[i] > 0xFFFF {
            return true;
        }
    }
    false
}

pub(crate) fn find_face(faces: &Vec<FontFaceFacts>, id: u64) -> (r: Option<FontFaceFacts>)
    ensures
        r == first_face(faces@, id, 0),
{
    let mut k: usize = 0;
    while k < faces.len()
        invariant
            k <= faces@.len(),
            first_face(faces@, id, k as int) == first_face(faces@, id, 0),
        decreases faces.len() - k,
    {
        if faces[k].id == id {
            return Some(faces[k]);
        }
        k += 1;
    }
    None
}

pub(crate) fn find_blob(blobs: &Vec<FontBlobFacts>, id: u64) -> (r: Option<FontBlobFacts>)
    ensures
        r == first_blob(blobs@, id, 0),
{
    let mut k: usize = 0;
    while k < blobs.len()
        invariant
            k <= blobs@.len(),
            first_blob(blobs@, id, k as int) == first_blob(blobs@, id, 0),
        decreases blobs.len() - k,
    {
        if blobs[k].id == id {
            return Some(blobs[k]);
        }
        k += 1;
    }
    None
}

pub(crate) fn opt_u64_eq(a: Option<u64>, b: Option<u64>) -> (r: bool)
    ensures
        r == (a == b),
{
    match (a, b) {
        (Some(x), Some(y)) => x == y,
        (None, None) => true,
        _ => false,
    }
}

fn reason_flag(
    run: &GlyphRunFacts,
    res: &FontResourceFacts,
    face: Option<FontFaceFacts>,
    blob: Option<FontBlobFacts>,
    portable: Option<FontBlobFacts>,
    i: usize,
) -> (b: bool)
    requires
        i < 23,
        face == face_of(*run, *res),
        blob == blob_of(*run, *res),
        portable == portable_blob(*run, *res),
    ensures
        b == reason_holds(*run, *res, reason_at(i as int)),
{
    if i == 0 {
        run.glyph_ids.len() == 0
    } else if i == 1 {
        run.glyph_ids.len() != run.position_count
    } else if i == 2 {
        match run.advance_count {
            Some(n) => n != run.glyph_ids.len(),
            None => false,
        }
    } else if i == 3 {
        run.has_glyph_transforms
    } else if i == 4 {
        run.orientation != GlyphRunOrientation::Horizontal
    } else if i == 5 {
        !run.strict_visual_eligible
    } else if i == 6 {
        run.missing_glyph_count != 0
    } else if i == 7 {
        run.cluster_mismatch_count != 0
    } else if i == 8 {
        !(run.quality == TextVariantQuality::Exact || run.quality == TextVariantQuality::PositionAdjusted)
    } else if i == 9 {
        run.quality == TextVariantQuality::PositionAdjusted && !run.residual_within_tolerance
    } else if i == 10 {
        run.replay_eligibility != GlyphRunReplayEligibility::Portable
    } else if i == 11 {
        !run.fill_only_paint
    } else if i == 12 {
        glyph_id_out_of_range(&run.glyph_ids)
    } else if i == 13 {
        !run.placement_finite
    } else if i == 14 {
        !run.positions_finite
    } else if i == 15 {
        face.is_none()
    } else if i == 16 {
        face.is_some() && blob.is_none()
    } else if i == 17 {
        match blob {
            Some(b) => !b.self_contained_replayable,
            None => false,
        }
    } else if i == 18 {
        match portable {
            Some(b) => b.bytes == BlobBytes::Missing,
            None => false,
        }
    } else if i == 19 {
        match portable {
            Some(b) => !opt_u64_eq(b.data_ref, b.portable_data_ref),
            None => false,
        }
    } else if i == 20 {
        match portable {
            Some(b) => b.bytes == BlobBytes::DigestMismatch,
            None => false,
        }
    } else if i == 21 {
        match face {
            Some(f) => f.face_index != 0,
            None => false,
        }
    } else {
        run.has_variations
    }
}

/// Checks whether a glyph run can be replayed natively and lists every
/// reason it cannot, in enum order. A typeface is never built yet: when
/// nothing else stands in the way, the missing construction is the reason.
pub fn native_skia_glyph_run_replay_proof(
    run: &GlyphRunFacts,
    resources: &FontResourceFacts,
) -> (p: NativeGlyphRunReplayProof)
    ensures
        p.contract_replayable == contract_ok(*run, *resources),
        !p.typeface_constructible,
        p.reasons@ == reported_reasons(*run, *resources),
{
    let face = find_face(&resources.faces, run.face_key);
    let blob = match face {
        Some(f) => find_blob(&resources.blobs, f.blob_key),
        None => None,
    };
    let portable = match blob {
        Some(b) => if b.self_contained_replayable && b.portable_data_ref.is_some() {
            Some(b)
        } else {
            None
        },
        None => None,
    };
    let mut contract = true;
    for i in 0..23
        invariant
            face == face_of(*run, *resources),
            blob == blob_of(*run, *resources),
            portable == portable_blob(*run, *resources),
            contract == forall|j: int|
                0 <= j < i && !is_construction_reason(reason_at(j)) ==> !reason_holds(
                    *run,
                    *resources,
                    #[trigger] reason_at(j),
                ),
    {
        let construction = i == 21 || i == 22;
        if !construction && reason_flag(run, resources, face, blob, portable, i) {
            contract = false;
        }
    }
    let face_index = reason_flag(run, resources, face, blob, portable, 21);
    let variations = reason_flag(run, resources, face, blob, portable, 22);
    let not_implemented = contract && !face_index && !variations;
    let mut reasons: Vec<NativeGlyphRunReplayProofReason> = Vec::new();
    for i in 0..24
        invariant
            face == face_of(*run, *resources),
            blob == blob_of(*run, *resources),
            portable == portable_blob(*run, *resources),
            not_implemented == reported(
                *run,
                *resources,
                NativeGlyphRunReplayProofReason::TypefaceConstructionNotImplemented,
            ),
            reasons@ == reported_prefix(*run, *resources, i as int),
    {
        let f = if i < 23 {
            reason_flag(run, resources, face, blob, portable, i)
        } else {
            not_implemented
        };
        if f {
            reasons.push(reason_value(i));
        }
    }
    let typeface_constructible = contract && !(face_index || variations || not_implemented);
    NativeGlyphRunReplayProof { contract_replayable: contract, typeface_constructible, reasons }
}


/// The position of a reason in the enum.
pub open spec fn reason_rank(r: NativeGlyphRunReplayProofReason) -> int {
    match r {
        NativeGlyphRunReplayProofReason::EmptyGlyphIds => 0,
        NativeGlyphRunReplayProofReason::GlyphPositionCountMismatch => 1,
        NativeGlyphRunReplayProofReason::AdvanceCountMismatch => 2,
        NativeGlyphRunReplayProofReason::GlyphTransformUnsupported => 3,
        NativeGlyphRunReplayProofReason::VerticalOrientationUnsupported => 4,
        NativeGlyphRunReplayProofReason::StrictVisualIneligible => 5,
        NativeGlyphRunReplayProofReason::MissingGlyph => 6,
        NativeGlyphRunReplayProofReason::ClusterMismatch => 7,
        NativeGlyphRunReplayProofReason::UnsupportedQuality => 8,
        NativeGlyphRunReplayProofReason::PositionAdjustedResidualTooLarge => 9,
        NativeGlyphRunReplayProofReason::ReplayEligibilityNotPortable => 10,
        NativeGlyphRunReplayProofReason::UnsupportedPaintEffect => 11,
        NativeGlyphRunReplayProofReason::GlyphIdOutOfRange => 12,
        NativeGlyphRunReplayProofReason::PlacementNotFinite => 13,
        NativeGlyphRunReplayProofReason::PositionNotFinite => 14,
        NativeGlyphRunReplayProofReason::FontFaceMissing => 15,
        NativeGlyphRunReplayProofReason::FontBlobMissing => 16,
        NativeGlyphRunReplayProofReason::FontBlobNotPortable => 17,
        NativeGlyphRunReplayProofReason::FontBlobBytesMissing => 18,
        NativeGlyphRunReplayProofReason::FontBlobDataRefMismatch => 19,
        NativeGlyphRunReplayProofReason::FontBlobDigestMismatch => 20,
        NativeGlyphRunReplayProofReason::FaceIndexUnsupported => 21,
        NativeGlyphRunReplayProofReason::FontVariationUnsupported => 22,
        NativeGlyphRunReplayProofReason::TypefaceConstructionNotImplemented => 23,
    }
}

proof fn lemma_reason_rank(r: NativeGlyphRunReplayProofReason)
    ensures
        0 <= reason_rank(r) < 24,
        reason_at(reason_rank(r)) == r,
{
}

proof fn lemma_rank_at(i: int)
    requires
        0 <= i < 24,
    ensures
        reason_rank(reason_at(i)) == i,
{
}

proof fn lemma_reported_prefix(run: GlyphRunFacts, res: FontResourceFacts, n: int)
    requires
        0 <= n <= 24,
    ensures
        forall|i: int, j: int|
            0 <= i < j < reported_prefix(run, res, n).len() ==> reason_rank(
                #[trigger] reported_prefix(run, res, n)[i],
            ) < reason_rank(#[trigger] reported_prefix(run, res, n)[j]),
        forall|i: int|
            0 <= i < reported_prefix(run, res, n).len() ==> reason_rank(#[trigger] reported_prefix(run, res, n)[i])
                < n,
        forall|r: NativeGlyphRunReplayProofReason|
            #[trigger] reported_prefix(run, res, n).contains(r) <==> (reported(run, res, r) && reason_rank(r) < n),
    decreases n,
{
    if n > 0 {
        lemma_reported_prefix(run, res, n - 1);
        lemma_rank_at(n - 1);
        let prev = reported_prefix(run, res, n - 1);
        if reported(run, res, reason_at(n - 1)) {
            let cur = prev.push(reason_at(n - 1));
            assert forall|r: NativeGlyphRunReplayProofReason| #[trigger] cur.contains(r) <==> (reported(run, res, r)
                && reason_rank(r) < n) by {
                lemma_reason_rank(r);
                if cur.contains(r) && !prev.contains(r) {
                    let j = choose|j: int| 0 <= j < cur.len() && cur[j] == r;
                    if j < prev.len() {
                        assert(prev[j] == r);
                    }
                }
                if prev.contains(r) {
                    let j = choose|j: int| 0 <= j < prev.len() && prev[j] == r;
                    assert(cur[j] == r);
                }
                if reported(run, res, r) && reason_rank(r) == n - 1 {
                    assert(cur[prev.len() as int] == r);
                }
            }
        } else {
            assert forall|r: NativeGlyphRunReplayProofReason| #[trigger] prev.contains(r) <==> (reported(run, res, r)
                && reason_rank(r) < n) by {
                lemma_reason_rank(r);
            }
        }
    }
}

/// The reasons a glyph run cannot be replayed come in enum order, each
/// once, and are exactly those that hold; the run meets the replay contract
/// exactly when every reason given concerns building the typeface.
pub proof fn law_replay_reasons_sorted(run: GlyphRunFacts, res: FontResourceFacts)
    ensures
        forall|i: int, j: int|
            0 <= i < j < reported_reasons(run, res).len() ==> reason_rank(
                #[trigger] reported_reasons(run, res)[i],
            ) < reason_rank(#[trigger] reported_reasons(run, res)[j]),
        forall|r: NativeGlyphRunReplayProofReason|
            #[trigger] reported_reasons(run, res).contains(r) <==> reported(run, res, r),
        contract_ok(run, res) <==> forall|i: int|
            0 <= i < reported_reasons(run, res).len() ==> is_construction_reason(
                #[trigger] reported_reasons(run, res)[i],
            ),
{
    lemma_reported_prefix(run, res, 24);
    let rs = reported_reasons(run, res);
    assert forall|r: NativeGlyphRunReplayProofReason| #[trigger] rs.contains(r) <==> reported(run, res, r) by {
        lemma_reason_rank(r);
    }
    if contract_ok(run, res) {
        assert forall|i: int| 0 <= i < rs.len() implies is_construction_reason(#[trigger] rs[i]) by {
            let r = rs[i];
            assert(rs.contains(r));
            lemma_reason_rank(r);
            if !is_construction_reason(r) {
                assert(!reason_holds(run, res, reason_at(reason_rank(r))));
            }
        }
    } else {
        let i = choose|i: int|
            0 <= i < 24 && !is_construction_reason(reason_at(i)) && reason_holds(run, res, #[trigger] reason_at(i));
        let r = reason_at(i);
        assert(reported(run, res, r));
        assert(rs.contains(r));
        let j = choose|j: int| 0 <= j < rs.len() && rs[j] == r;
        assert(!is_construction_reason(rs[j]));
    }
}


pub(crate) proof fn lemma_first_face_none(faces: Seq<FontFaceFacts>, id: u64, k: int)
    requires
        0 <= k,
    ensures
        first_face(faces, id, k) is None <==> forall|j: int| k <= j < faces.len() ==> faces[j].id != id,
    decreases faces.len() - k,
{
    if k < faces.len() {
        lemma_first_face_none(faces, id, k + 1);
    }
}

pub(crate) proof fn lemma_first_blob_none(blobs: Seq<FontBlobFacts>, id: u64, k: int)
    requires
        0 <= k,
    ensures
        first_blob(blobs, id, k) is None <==> forall|j: int| k <= j < blobs.len() ==> blobs[j].id != id,
    decreases blobs.len() - k,
{
    if k < blobs.len() {
        lemma_first_blob_none(blobs, id, k + 1);
    }
}

/// What each reason says of the run and its font: a reason is given
/// exactly when its defect is there (no glyphs, counts that disagree,
/// transforms, vertical text, strict-visual ineligibility, missing glyphs,
/// cluster mismatches, an approximate quality, a residual out of tolerance,
/// a non-portable run, a non-fill paint, a glyph id past 0xFFFF, non-finite
/// placement or positions, a face or blob that is not found, a blob that
/// is not self-contained, whose bytes are missing, whose data reference or
/// digest disagrees, a collection face index or font variations); the run
/// meets the replay contract exactly when none of the run and font defects
/// is there; and the missing typeface construction is given exactly when
/// the contract is met and nothing else stands in the way of building it.
pub proof fn law_replay_reasons_from_run(run: GlyphRunFacts, res: FontResourceFacts)
    ensures
        reported_reasons(run, res).contains(NativeGlyphRunReplayProofReason::EmptyGlyphIds) <==> run.glyph_ids@.len() == 0,
        reported_reasons(run, res).contains(NativeGlyphRunReplayProofReason::GlyphPositionCountMismatch) <==> run.position_count != run.glyph_ids@.len(),
        reported_reasons(run, res).contains(NativeGlyphRunReplayProofReason::AdvanceCountMismatch) <==> (run.advance_count is Some && run.advance_count->0 != run.glyph_ids@.len()),
        reported_reasons(run, res).contains(NativeGlyphRunReplayProofReason::GlyphTransformUnsupported) <==> run.has_glyph_transforms,
        reported_reasons(run, res).contains(NativeGlyphRunReplayProofReason::VerticalOrientationUnsupported) <==> run.orientation != GlyphRunOrientation::Horizontal,
        reported_reasons(run, res).contains(NativeGlyphRunReplayProofReason::StrictVisualIneligible) <==> !run.strict_visual_eligible,
        reported_reasons(run, res).contains(NativeGlyphRunReplayProofReason::MissingGlyph) <==> run.missing_glyph_count > 0,
        reported_reasons(run, res).contains(NativeGlyphRunReplayProofReason::ClusterMismatch) <==> run.cluster_mismatch_count > 0,
        reported_reasons(run, res).contains(NativeGlyphRunReplayProofReason::UnsupportedQuality) <==> (run.quality == TextVariantQuality::Approximate || run.quality == TextVariantQuality::DiagnosticOnly || run.quality == TextVariantQuality::Omitted),
        reported_reasons(run, res).contains(NativeGlyphRunReplayProofReason::PositionAdjustedResidualTooLarge) <==> (run.quality == TextVariantQuality::PositionAdjusted && !run.residual_within_tolerance),
        reported_reasons(run, res).contains(NativeGlyphRunReplayProofReason::ReplayEligibilityNotPortable) <==> run.replay_eligibility != GlyphRunReplayEligibility::Portable,
        reported_reasons(run, res).contains(NativeGlyphRunReplayProofReason::UnsupportedPaintEffect) <==> !run.fill_only_paint,
        reported_reasons(run, res).contains(NativeGlyphRunReplayProofReason::GlyphIdOutOfRange) <==> (exists|k: int| 0 <= k < run.glyph_ids@.len() && run.glyph_ids@[k] >= 0x10000),
        reported_reasons(run, res).contains(NativeGlyphRunReplayProofReason::PlacementNotFinite) <==> !run.placement_finite,
        reported_reasons(run, res).contains(NativeGlyphRunReplayProofReason::PositionNotFinite) <==> !run.positions_finite,
        reported_reasons(run, res).contains(NativeGlyphRunReplayProofReason::FontFaceMissing) <==> (forall|k: int| 0 <= k < res.faces@.len() ==> res.faces@[k].id != run.face_key),
        reported_reasons(run, res).contains(NativeGlyphRunReplayProofReason::FontBlobMissing) <==> (face_of(run, res) matches Some(f) && forall|k: int| 0 <= k < res.blobs@.len() ==> res.blobs@[k].id != f.blob_key),
        reported_reasons(run, res).contains(NativeGlyphRunReplayProofReason::FontBlobNotPortable) <==> (blob_of(run, res) matches Some(b) && !b.self_contained_replayable),
        reported_reasons(run, res).contains(NativeGlyphRunReplayProofReason::FontBlobBytesMissing) <==> (blob_of(run, res) matches Some(b) && b.self_contained_replayable && b.portable_data_ref is Some && b.bytes == BlobBytes::Missing),
        reported_reasons(run, res).contains(NativeGlyphRunReplayProofReason::FontBlobDataRefMismatch) <==> (blob_of(run, res) matches Some(b) && b.self_contained_replayable && b.portable_data_ref is Some && b.data_ref != b.portable_data_ref),
        reported_reasons(run, res).contains(NativeGlyphRunReplayProofReason::FontBlobDigestMismatch) <==> (blob_of(run, res) matches Some(b) && b.self_contained_replayable && b.portable_data_ref is Some && b.bytes == BlobBytes::DigestMismatch),
        reported_reasons(run, res).contains(NativeGlyphRunReplayProofReason::FaceIndexUnsupported) <==> (face_of(run, res) matches Some(f) && f.face_index != 0),
        reported_reasons(run, res).contains(NativeGlyphRunReplayProofReason::FontVariationUnsupported) <==> run.has_variations,
        contract_ok(run, res) <==> (!(run.glyph_ids@.len() == 0) && !(run.position_count != run.glyph_ids@.len()) && !((run.advance_count is Some && run.advance_count->0 != run.glyph_ids@.len())) && !(run.has_glyph_transforms) && !(run.orientation != GlyphRunOrientation::Horizontal) && !(!run.strict_visual_eligible) && !(run.missing_glyph_count > 0) && !(run.cluster_mismatch_count > 0) && !((run.quality == TextVariantQuality::Approximate || run.quality == TextVariantQuality::DiagnosticOnly || run.quality == TextVariantQuality::Omitted)) && !((run.quality == TextVariantQuality::PositionAdjusted) && !(run.residual_within_tolerance)) && !(run.replay_eligibility != GlyphRunReplayEligibility::Portable) && !(!run.fill_only_paint) && !((exists|k: int| 0 <= k < run.glyph_ids@.len() && run.glyph_ids@[k] >= 0x10000)) && !(!run.placement_finite) && !(!run.positions_finite) && !((forall|k: int| 0 <= k < res.faces@.len() ==> res.faces@[k].id != run.face_key)) && !((face_of(run, res) matches Some(f) && forall|k: int| 0 <= k < res.blobs@.len() ==> res.blobs@[k].id != f.blob_key)) && !((blob_of(run, res) matches Some(b) && !b.self_contained_replayable)) && !((blob_of(run, res) matches Some(b) && b.self_contained_replayable && b.portable_data_ref is Some && b.bytes == BlobBytes::Missing)) && !((blob_of(run, res) matches Some(b) && b.self_contained_replayable && b.portable_data_ref is Some && b.data_ref != b.portable_data_ref)) && !((blob_of(run, res) matches Some(b) && b.self_contained_replayable && b.portable_data_ref is Some && b.bytes == BlobBytes::DigestMismatch))),
        reported_reasons(run, res).contains(NativeGlyphRunReplayProofReason::TypefaceConstructionNotImplemented) <==> (contract_ok(run, res) && !((face_of(run, res) matches Some(f) && f.face_index != 0)) && !(run.has_variations)),
{
    law_replay_reasons_sorted(run, res);
    assert(reason_at(0) == NativeGlyphRunReplayProofReason::EmptyGlyphIds);
    assert(reason_at(1) == NativeGlyphRunReplayProofReason::GlyphPositionCountMismatch);
    assert(reason_at(2) == NativeGlyphRunReplayProofReason::AdvanceCountMismatch);
    assert(reason_at(3) == NativeGlyphRunReplayProofReason::GlyphTransformUnsupported);
    assert(reason_at(4) == NativeGlyphRunReplayProofReason::VerticalOrientationUnsupported);
    assert(reason_at(5) == NativeGlyphRunReplayProofReason::StrictVisualIneligible);
    assert(reason_at(6) == NativeGlyphRunReplayProofReason::MissingGlyph);
    assert(reason_at(7) == NativeGlyphRunReplayProofReason::ClusterMismatch);
    assert(reason_at(8) == NativeGlyphRunReplayProofReason::UnsupportedQuality);
    assert(reason_at(9) == NativeGlyphRunReplayProofReason::PositionAdjustedResidualTooLarge);
    assert(reason_at(10) == NativeGlyphRunReplayProofReason::ReplayEligibilityNotPortable);
    assert(reason_at(11) == NativeGlyphRunReplayProofReason::UnsupportedPaintEffect);
    assert(reason_at(12) == NativeGlyphRunReplayProofReason::GlyphIdOutOfRange);
    assert(reason_at(13) == NativeGlyphRunReplayProofReason::PlacementNotFinite);
    assert(reason_at(14) == NativeGlyphRunReplayProofReason::PositionNotFinite);
    assert(reason_at(15) == NativeGlyphRunReplayProofReason::FontFaceMissing);
    assert(reason_at(16) == NativeGlyphRunReplayProofReason::FontBlobMissing);
    assert(reason_at(17) == NativeGlyphRunReplayProofReason::FontBlobNotPortable);
    assert(reason_at(18) == NativeGlyphRunReplayProofReason::FontBlobBytesMissing);
    assert(reason_at(19) == NativeGlyphRunReplayProofReason::FontBlobDataRefMismatch);
    assert(reason_at(20) == NativeGlyphRunReplayProofReason::FontBlobDigestMismatch);
    assert(reason_at(21) == NativeGlyphRunReplayProofReason::FaceIndexUnsupported);
    assert(reason_at(22) == NativeGlyphRunReplayProofReason::FontVariationUnsupported);
    assert(reason_at(23) == NativeGlyphRunReplayProofReason::TypefaceConstructionNotImplemented);
    lemma_first_face_none(res.faces@, run.face_key, 0);
    if let Some(f) = face_of(run, res) {
        lemma_first_blob_none(res.blobs@, f.blob_key, 0);
    }
    assert(contract_ok(run, res) <==> (!(run.glyph_ids@.len() == 0) && !(run.position_count != run.glyph_ids@.len()) && !((run.advance_count is Some && run.advance_count->0 != run.glyph_ids@.len())) && !(run.has_glyph_transforms) && !(run.orientation != GlyphRunOrientation::Horizontal) && !(!run.strict_visual_eligible) && !(run.missing_glyph_count > 0) && !(run.cluster_mismatch_count > 0) && !((run.quality == TextVariantQuality::Approximate || run.quality == TextVariantQuality::DiagnosticOnly || run.quality == TextVariantQuality::Omitted)) && !((run.quality == TextVariantQuality::PositionAdjusted) && !(run.residual_within_tolerance)) && !(run.replay_eligibility != GlyphRunReplayEligibility::Portable) && !(!run.fill_only_paint) && !((exists|k: int| 0 <= k < run.glyph_ids@.len() && run.glyph_ids@[k] >= 0x10000)) && !(!run.placement_finite) && !(!run.positions_finite) && !((forall|k: int| 0 <= k < res.faces@.len() ==> res.faces@[k].id != run.face_key)) && !((face_of(run, res) matches Some(f) && forall|k: int| 0 <= k < res.blobs@.len() ==> res.blobs@[k].id != f.blob_key)) && !((blob_of(run, res) matches Some(b) && !b.self_contained_replayable)) && !((blob_of(run, res) matches Some(b) && b.self_contained_replayable && b.portable_data_ref is Some && b.bytes == BlobBytes::Missing)) && !((blob_of(run, res) matches Some(b) && b.self_contained_replayable && b.portable_data_ref is Some && b.data_ref != b.portable_data_ref)) && !((blob_of(run, res) matches Some(b) && b.self_contained_replayable && b.portable_data_ref is Some && b.bytes == BlobBytes::DigestMismatch)))) by {
        if contract_ok(run, res) {
            assert(!reason_holds(run, res, reason_at(0)));
            assert(!reason_holds(run, res, reason_at(1)));
            assert(!reason_holds(run, res, reason_at(2)));
            assert(!reason_holds(run, res, reason_at(3)));
            assert(!reason_holds(run, res, reason_at(4)));
            assert(!reason_holds(run, res, reason_at(5)));
            assert(!reason_holds(run, res, reason_at(6)));
            assert(!reason_holds(run, res, reason_at(7)));
            assert(!reason_holds(run, res, reason_at(8)));
            assert(!reason_holds(run, res, reason_at(9)));
            assert(!reason_holds(run, res, reason_at(10)));
            assert(!reason_holds(run, res, reason_at(11)));
            assert(!reason_holds(run, res, reason_at(12)));
            assert(!reason_holds(run, res, reason_at(13)));
            assert(!reason_holds(run, res, reason_at(14)));
            assert(!reason_holds(run, res, reason_at(15)));
            assert(!reason_holds(run, res, reason_at(16)));
            assert(!reason_holds(run, res, reason_at(17)));
            assert(!reason_holds(run, res, reason_at(18)));
            assert(!reason_holds(run, res, reason_at(19)));
            assert(!reason_holds(run, res, reason_at(20)));
        }
        if !(run.glyph_ids@.len() == 0) && !(run.position_count != run.glyph_ids@.len()) && !((run.advance_count is Some && run.advance_count->0 != run.glyph_ids@.len())) && !(run.has_glyph_transforms) && !(run.orientation != GlyphRunOrientation::Horizontal) && !(!run.strict_visual_eligible) && !(run.missing_glyph_count > 0) && !(run.cluster_mismatch_count > 0) && !((run.quality == TextVariantQuality::Approximate || run.quality == TextVariantQuality::DiagnosticOnly || run.quality == TextVariantQuality::Omitted)) && !((run.quality == TextVariantQuality::PositionAdjusted) && !(run.residual_within_tolerance)) && !(run.replay_eligibility != GlyphRunReplayEligibility::Portable) && !(!run.fill_only_paint) && !((exists|k: int| 0 <= k < run.glyph_ids@.len() && run.glyph_ids@[k] >= 0x10000)) && !(!run.placement_finite) && !(!run.positions_finite) && !((forall|k: int| 0 <= k < res.faces@.len() ==> res.faces@[k].id != run.face_key)) && !((face_of(run, res) matches Some(f) && forall|k: int| 0 <= k < res.blobs@.len() ==> res.blobs@[k].id != f.blob_key)) && !((blob_of(run, res) matches Some(b) && !b.self_contained_replayable)) && !((blob_of(run, res) matches Some(b) && b.self_contained_replayable && b.portable_data_ref is Some && b.bytes == BlobBytes::Missing)) && !((blob_of(run, res) matches Some(b) && b.self_contained_replayable && b.portable_data_ref is Some && b.data_ref != b.portable_data_ref)) && !((blob_of(run, res) matches Some(b) && b.self_contained_replayable && b.portable_data_ref is Some && b.bytes == BlobBytes::DigestMismatch)) {
            assert forall|i: int| 0 <= i < 24 && !is_construction_reason(reason_at(i)) implies !reason_holds(
                run,
                res,
                #[trigger] reason_at(i),
            ) by {
                if i == 0 {
                } else if i == 1 {
                } else if i == 2 {
                } else if i == 3 {
                } else if i == 4 {
                } else if i == 5 {
                } else if i == 6 {
                } else if i == 7 {
                } else if i == 8 {
                } else if i == 9 {
                } else if i == 10 {
                } else if i == 11 {
                } else if i == 12 {
                } else if i == 13 {
                } else if i == 14 {
                } else if i == 15 {
                } else if i == 16 {
                } else if i == 17 {
                } else if i == 18 {
                } else if i == 19 {
                } else if i == 20 {
                } else if i == 21 {
                } else if i == 22 {
                } else if i == 23 {
                }
            }
        }
    }
}


/// The value a reader takes `proof_reason_name` text for: the vocabulary read back.
pub open spec fn proof_reason_name_read(s: Seq<char>) -> Option<NativeGlyphRunReplayProofReason> {
    if s == "emptyGlyphIds"@ {
        Some(NativeGlyphRunReplayProofReason::EmptyGlyphIds)
    } else if s == "glyphPositionCountMismatch"@ {
        Some(NativeGlyphRunReplayProofReason::GlyphPositionCountMismatch)
    } else if s == "advanceCountMismatch"@ {
        Some(NativeGlyphRunReplayProofReason::AdvanceCountMismatch)
    } else if s == "glyphTransformUnsupported"@ {
        Some(NativeGlyphRunReplayProofReason::GlyphTransformUnsupported)
    } else if s == "verticalOrientationUnsupported"@ {
        Some(NativeGlyphRunReplayProofReason::VerticalOrientationUnsupported)
    } else if s == "strictVisualIneligible"@ {
        Some(NativeGlyphRunReplayProofReason::StrictVisualIneligible)
    } else if s == "missingGlyph"@ {
        Some(NativeGlyphRunReplayProofReason::MissingGlyph)
    } else if s == "clusterMismatch"@ {
        Some(NativeGlyphRunReplayProofReason::ClusterMismatch)
    } else if s == "unsupportedQuality"@ {
        Some(NativeGlyphRunReplayProofReason::UnsupportedQuality)
    } else if s == "positionAdjustedResidualTooLarge"@ {
        Some(NativeGlyphRunReplayProofReason::PositionAdjustedResidualTooLarge)
    } else if s == "replayEligibilityNotPortable"@ {
        Some(NativeGlyphRunReplayProofReason::ReplayEligibilityNotPortable)
    } else if s == "unsupportedPaintEffect"@ {
        Some(NativeGlyphRunReplayProofReason::UnsupportedPaintEffect)
    } else if s == "glyphIdOutOfRange"@ {
        Some(NativeGlyphRunReplayProofReason::GlyphIdOutOfRange)
    } else if s == "placementNotFinite"@ {
        Some(NativeGlyphRunReplayProofReason::PlacementNotFinite)
    } else if s == "positionNotFinite"@ {
        Some(NativeGlyphRunReplayProofReason::PositionNotFinite)
    } else if s == "fontFaceMissing"@ {
        Some(NativeGlyphRunReplayProofReason::FontFaceMissing)
    } else if s == "fontBlobMissing"@ {
        Some(NativeGlyphRunReplayProofReason::FontBlobMissing)
    } else if s == "fontBlobNotPortable"@ {
        Some(NativeGlyphRunReplayProofReason::FontBlobNotPortable)
    } else if s == "fontBlobBytesMissing"@ {
        Some(NativeGlyphRunReplayProofReason::FontBlobBytesMissing)
    } else if s == "fontBlobDataRefMismatch"@ {
        Some(NativeGlyphRunReplayProofReason::FontBlobDataRefMismatch)
    } else if s == "fontBlobDigestMismatch"@ {
        Some(NativeGlyphRunReplayProofReason::FontBlobDigestMismatch)
    } else if s == "faceIndexUnsupported"@ {
        Some(NativeGlyphRunReplayProofReason::FaceIndexUnsupported)
    } else if s == "fontVariationUnsupported"@ {
        Some(NativeGlyphRunReplayProofReason::FontVariationUnsupported)
    } else if s == "typefaceConstructionNotImplemented"@ {
        Some(NativeGlyphRunReplayProofReason::TypefaceConstructionNotImplemented)
    } else {
        None
    }
}

/// Each value is written with its own vocabulary word, which reads back as
/// that value, so that no two values are written alike.
pub proof fn law_proof_reason_name_reads_back(t: NativeGlyphRunReplayProofReason, u: NativeGlyphRunReplayProofReason)
    ensures
        proof_reason_name_read(proof_reason_name(t)) == Some(t),
        proof_reason_name(t) == proof_reason_name(u) ==> t == u,
{
    lemma_proof_reason_name_reads_back(t);
    lemma_proof_reason_name_reads_back(u);
}

proof fn lemma_proof_reason_name_reads_back(t: NativeGlyphRunReplayProofReason)
    ensures
        proof_reason_name_read(proof_reason_name(t)) == Some(t),
{
    reveal_strlit("emptyGlyphIds");
    reveal_strlit("glyphPositionCountMismatch");
    reveal_strlit("advanceCountMismatch");
    reveal_strlit("glyphTransformUnsupported");
    reveal_strlit("verticalOrientationUnsupported");
    reveal_strlit("strictVisualIneligible");
    reveal_strlit("missingGlyph");
    reveal_strlit("clusterMismatch");
    reveal_strlit("unsupportedQuality");
    reveal_strlit("positionAdjustedResidualTooLarge");
    reveal_strlit("replayEligibilityNotPortable");
    reveal_strlit("unsupportedPaintEffect");
    reveal_strlit("glyphIdOutOfRange");
    reveal_strlit("placementNotFinite");
    reveal_strlit("positionNotFinite");
    reveal_strlit("fontFaceMissing");
    reveal_strlit("fontBlobMissing");
    reveal_strlit("fontBlobNotPortable");
    reveal_strlit("fontBlobBytesMissing");
    reveal_strlit("fontBlobDataRefMismatch");
    reveal_strlit("fontBlobDigestMismatch");
    reveal_strlit("faceIndexUnsupported");
    reveal_strlit("fontVariationUnsupported");
    reveal_strlit("typefaceConstructionNotImplemented");
    match t {
        NativeGlyphRunReplayProofReason::EmptyGlyphIds => {
        },
        NativeGlyphRunReplayProofReason::GlyphPositionCountMismatch => {
            assert("glyphPositionCountMismatch"@.len() != "emptyGlyphIds"@.len());
        },
        NativeGlyphRunReplayProofReason::AdvanceCountMismatch => {
            assert("advanceCountMismatch"@.len() != "emptyGlyphIds"@.len());
            assert("advanceCountMismatch"@.len() != "glyphPositionCountMismatch"@.len());
        },
        NativeGlyphRunReplayProofReason::GlyphTransformUnsupported => {
            assert("glyphTransformUnsupported"@.len() != "emptyGlyphIds"@.len());
            assert("glyphTransformUnsupported"@.len() != "glyphPositionCountMismatch"@.len());
            assert("glyphTransformUnsupported"@.len() != "advanceCountMismatch"@.len());
        },
        NativeGlyphRunReplayProofReason::VerticalOrientationUnsupported => {
            assert("verticalOrientationUnsupported"@.len() != "emptyGlyphIds"@.len());
            assert("verticalOrientationUnsupported"@.len() != "glyphPositionCountMismatch"@.len());
            assert("verticalOrientationUnsupported"@.len() != "advanceCountMismatch"@.len());
            assert("verticalOrientationUnsupported"@.len() != "glyphTransformUnsupported"@.len());
        },
        NativeGlyphRunReplayProofReason::StrictVisualIneligible => {
            assert("strictVisualIneligible"@.len() != "emptyGlyphIds"@.len());
            assert("strictVisualIneligible"@.len() != "glyphPositionCountMismatch"@.len());
            assert("strictVisualIneligible"@.len() != "advanceCountMismatch"@.len());
            assert("strictVisualIneligible"@.len() != "glyphTransformUnsupported"@.len());
            assert("strictVisualIneligible"@.len() != "verticalOrientationUnsupported"@.len());
        },
        NativeGlyphRunReplayProofReason::MissingGlyph => {
            assert("missingGlyph"@.len() != "emptyGlyphIds"@.len());
            assert("missingGlyph"@.len() != "glyphPositionCountMismatch"@.len());
            assert("missingGlyph"@.len() != "advanceCountMismatch"@.len());
            assert("missingGlyph"@.len() != "glyphTransformUnsupported"@.len());
            assert("missingGlyph"@.len() != "verticalOrientationUnsupported"@.len());
            assert("missingGlyph"@.len() != "strictVisualIneligible"@.len());
        },
        NativeGlyphRunReplayProofReason::ClusterMismatch => {
            assert("clusterMismatch"@.len() != "emptyGlyphIds"@.len());
            assert("clusterMismatch"@.len() != "glyphPositionCountMismatch"@.len());
            assert("clusterMismatch"@.len() != "advanceCountMismatch"@.len());
            assert("clusterMismatch"@.len() != "glyphTransformUnsupported"@.len());
            assert("clusterMismatch"@.len() != "verticalOrientationUnsupported"@.len());
            assert("clusterMismatch"@.len() != "strictVisualIneligible"@.len());
            assert("clusterMismatch"@.len() != "missingGlyph"@.len());
        },
        NativeGlyphRunReplayProofReason::UnsupportedQuality => {
            assert("unsupportedQuality"@.len() != "emptyGlyphIds"@.len());
            assert("unsupportedQuality"@.len() != "glyphPositionCountMismatch"@.len());
            assert("unsupportedQuality"@.len() != "advanceCountMismatch"@.len());
            assert("unsupportedQuality"@.len() != "glyphTransformUnsupported"@.len());
            assert("unsupportedQuality"@.len() != "verticalOrientationUnsupported"@.len());
            assert("unsupportedQuality"@.len() != "strictVisualIneligible"@.len());
            assert("unsupportedQuality"@.len() != "missingGlyph"@.len());
            assert("unsupportedQuality"@.len() != "clusterMismatch"@.len());
        },
        NativeGlyphRunReplayProofReason::PositionAdjustedResidualTooLarge => {
            assert("positionAdjustedResidualTooLarge"@.len() != "emptyGlyphIds"@.len());
            assert("positionAdjustedResidualTooLarge"@.len() != "glyphPositionCountMismatch"@.len());
            assert("positionAdjustedResidualTooLarge"@.len() != "advanceCountMismatch"@.len());
            assert("positionAdjustedResidualTooLarge"@.len() != "glyphTransformUnsupported"@.len());
            assert("positionAdjustedResidualTooLarge"@.len() != "verticalOrientationUnsupported"@.len());
            assert("positionAdjustedResidualTooLarge"@.len() != "strictVisualIneligible"@.len());
            assert("positionAdjustedResidualTooLarge"@.len() != "missingGlyph"@.len());
            assert("positionAdjustedResidualTooLarge"@.len() != "clusterMismatch"@.len());
            assert("positionAdjustedResidualTooLarge"@.len() != "unsupportedQuality"@.len());
        },
        NativeGlyphRunReplayProofReason::ReplayEligibilityNotPortable => {
            assert("replayEligibilityNotPortable"@.len() != "emptyGlyphIds"@.len());
            assert("replayEligibilityNotPortable"@.len() != "glyphPositionCountMismatch"@.len());
            assert("replayEligibilityNotPortable"@.len() != "advanceCountMismatch"@.len());
            assert("replayEligibilityNotPortable"@.len() != "glyphTransformUnsupported"@.len());
            assert("replayEligibilityNotPortable"@.len() != "verticalOrientationUnsupported"@.len());
            assert("replayEligibilityNotPortable"@.len() != "strictVisualIneligible"@.len());
            assert("replayEligibilityNotPortable"@.len() != "missingGlyph"@.len());
            assert("replayEligibilityNotPortable"@.len() != "clusterMismatch"@.len());
            assert("replayEligibilityNotPortable"@.len() != "unsupportedQuality"@.len());
            assert("replayEligibilityNotPortable"@.len() != "positionAdjustedResidualTooLarge"@.len());
        },
        NativeGlyphRunReplayProofReason::UnsupportedPaintEffect => {
            assert("unsupportedPaintEffect"@.len() != "emptyGlyphIds"@.len());
            assert("unsupportedPaintEffect"@.len() != "glyphPositionCountMismatch"@.len());
            assert("unsupportedPaintEffect"@.len() != "advanceCountMismatch"@.len());
            assert("unsupportedPaintEffect"@.len() != "glyphTransformUnsupported"@.len());
            assert("unsupportedPaintEffect"@.len() != "verticalOrientationUnsupported"@.len());
            assert("unsupportedPaintEffect"@[0] != "strictVisualIneligible"@[0]);
            assert("unsupportedPaintEffect"@.len() != "missingGlyph"@.len());
            assert("unsupportedPaintEffect"@.len() != "clusterMismatch"@.len());
            assert("unsupportedPaintEffect"@.len() != "unsupportedQuality"@.len());
            assert("unsupportedPaintEffect"@.len() != "positionAdjustedResidualTooLarge"@.len());
            assert("unsupportedPaintEffect"@.len() != "replayEligibilityNotPortable"@.len());
        },
        NativeGlyphRunReplayProofReason::GlyphIdOutOfRange => {
            assert("glyphIdOutOfRange"@.len() != "emptyGlyphIds"@.len());
            assert("glyphIdOutOfRange"@.len() != "glyphPositionCountMismatch"@.len());
            assert("glyphIdOutOfRange"@.len() != "advanceCountMismatch"@.len());
            assert("glyphIdOutOfRange"@.len() != "glyphTransformUnsupported"@.len());
            assert("glyphIdOutOfRange"@.len() != "verticalOrientationUnsupported"@.len());
            assert("glyphIdOutOfRange"@.len() != "strictVisualIneligible"@.len());
            assert("glyphIdOutOfRange"@.len() != "missingGlyph"@.len());
            assert("glyphIdOutOfRange"@.len() != "clusterMismatch"@.len());
            assert("glyphIdOutOfRange"@.len() != "unsupportedQuality"@.len());
            assert("glyphIdOutOfRange"@.len() != "positionAdjustedResidualTooLarge"@.len());
            assert("glyphIdOutOfRange"@.len() != "replayEligibilityNotPortable"@.len());
            assert("glyphIdOutOfRange"@.len() != "unsupportedPaintEffect"@.len());
        },
        NativeGlyphRunReplayProofReason::PlacementNotFinite => {
            assert("placementNotFinite"@.len() != "emptyGlyphIds"@.len());
            assert("placementNotFinite"@.len() != "glyphPositionCountMismatch"@.len());
            assert("placementNotFinite"@.len() != "advanceCountMismatch"@.len());
            assert("placementNotFinite"@.len() != "glyphTransformUnsupported"@.len());
            assert("placementNotFinite"@.len() != "verticalOrientationUnsupported"@.len());
            assert("placementNotFinite"@.len() != "strictVisualIneligible"@.len());
            assert("placementNotFinite"@.len() != "missingGlyph"@.len());
            assert("placementNotFinite"@.len() != "clusterMismatch"@.len());
            assert("placementNotFinite"@[0] != "unsupportedQuality"@[0]);
            assert("placementNotFinite"@.len() != "positionAdjustedResidualTooLarge"@.len());
            assert("placementNotFinite"@.len() != "replayEligibilityNotPortable"@.len());
            assert("placementNotFinite"@.len() != "unsupportedPaintEffect"@.len());
            assert("placementNotFinite"@.len() != "glyphIdOutOfRange"@.len());
        },
        NativeGlyphRunReplayProofReason::PositionNotFinite => {
            assert("positionNotFinite"@.len() != "emptyGlyphIds"@.len());
            assert("positionNotFinite"@.len() != "glyphPositionCountMismatch"@.len());
            assert("positionNotFinite"@.len() != "advanceCountMismatch"@.len());
            assert("positionNotFinite"@.len() != "glyphTransformUnsupported"@.len());
            assert("positionNotFinite"@.len() != "verticalOrientationUnsupported"@.len());
            assert("positionNotFinite"@.len() != "strictVisualIneligible"@.len());
            assert("positionNotFinite"@.len() != "missingGlyph"@.len());
            assert("positionNotFinite"@.len() != "clusterMismatch"@.len());
            assert("positionNotFinite"@.len() != "unsupportedQuality"@.len());
            assert("positionNotFinite"@.len() != "positionAdjustedResidualTooLarge"@.len());
            assert("positionNotFinite"@.len() != "replayEligibilityNotPortable"@.len());
            assert("positionNotFinite"@.len() != "unsupportedPaintEffect"@.len());
            assert("positionNotFinite"@[0] != "glyphIdOutOfRange"@[0]);
            assert("positionNotFinite"@.len() != "placementNotFinite"@.len());
        },
        NativeGlyphRunReplayProofReason::FontFaceMissing => {
            assert("fontFaceMissing"@.len() != "emptyGlyphIds"@.len());
            assert("fontFaceMissing"@.len() != "glyphPositionCountMismatch"@.len());
            assert("fontFaceMissing"@.len() != "advanceCountMismatch"@.len());
            assert("fontFaceMissing"@.len() != "glyphTransformUnsupported"@.len());
            assert("fontFaceMissing"@.len() != "verticalOrientationUnsupported"@.len());
            assert("fontFaceMissing"@.len() != "strictVisualIneligible"@.len());
            assert("fontFaceMissing"@.len() != "missingGlyph"@.len());
            assert("fontFaceMissing"@[0] != "clusterMismatch"@[0]);
            assert("fontFaceMissing"@.len() != "unsupportedQuality"@.len());
            assert("fontFaceMissing"@.len() != "positionAdjustedResidualTooLarge"@.len());
            assert("fontFaceMissing"@.len() != "replayEligibilityNotPortable"@.len());
            assert("fontFaceMissing"@.len() != "unsupportedPaintEffect"@.len());
            assert("fontFaceMissing"@.len() != "glyphIdOutOfRange"@.len());
            assert("fontFaceMissing"@.len() != "placementNotFinite"@.len());
            assert("fontFaceMissing"@.len() != "positionNotFinite"@.len());
        },
        NativeGlyphRunReplayProofReason::FontBlobMissing => {
            assert("fontBlobMissing"@.len() != "emptyGlyphIds"@.len());
            assert("fontBlobMissing"@.len() != "glyphPositionCountMismatch"@.len());
            assert("fontBlobMissing"@.len() != "advanceCountMismatch"@.len());
            assert("fontBlobMissing"@.len() != "glyphTransformUnsupported"@.len());
            assert("fontBlobMissing"@.len() != "verticalOrientationUnsupported"@.len());
            assert("fontBlobMissing"@.len() != "strictVisualIneligible"@.len());
            assert("fontBlobMissing"@.len() != "missingGlyph"@.len());
            assert("fontBlobMissing"@[0] != "clusterMismatch"@[0]);
            assert("fontBlobMissing"@.len() != "unsupportedQuality"@.len());
            assert("fontBlobMissing"@.len() != "positionAdjustedResidualTooLarge"@.len());
            assert("fontBlobMissing"@.len() != "replayEligibilityNotPortable"@.len());
            assert("fontBlobMissing"@.len() != "unsupportedPaintEffect"@.len());
            assert("fontBlobMissing"@.len() != "glyphIdOutOfRange"@.len());
            assert("fontBlobMissing"@.len() != "placementNotFinite"@.len());
            assert("fontBlobMissing"@.len() != "positionNotFinite"@.len());
            assert("fontBlobMissing"@[4] != "fontFaceMissing"@[4]);
        },
        NativeGlyphRunReplayProofReason::FontBlobNotPortable => {
            assert("fontBlobNotPortable"@.len() != "emptyGlyphIds"@.len());
            assert("fontBlobNotPortable"@.len() != "glyphPositionCountMismatch"@.len());
            assert("fontBlobNotPortable"@.len() != "advanceCountMismatch"@.len());
            assert("fontBlobNotPortable"@.len() != "glyphTransformUnsupported"@.len());
            assert("fontBlobNotPortable"@.len() != "verticalOrientationUnsupported"@.len());
            assert("fontBlobNotPortable"@.len() != "strictVisualIneligible"@.len());
            assert("fontBlobNotPortable"@.len() != "missingGlyph"@.len());
            assert("fontBlobNotPortable"@.len() != "clusterMismatch"@.len());
            assert("fontBlobNotPortable"@.len() != "unsupportedQuality"@.len());
            assert("fontBlobNotPortable"@.len() != "positionAdjustedResidualTooLarge"@.len());
            assert("fontBlobNotPortable"@.len() != "replayEligibilityNotPortable"@.len());
            assert("fontBlobNotPortable"@.len() != "unsupportedPaintEffect"@.len());
            assert("fontBlobNotPortable"@.len() != "glyphIdOutOfRange"@.len());
            assert("fontBlobNotPortable"@.len() != "placementNotFinite"@.len());
            assert("fontBlobNotPortable"@.len() != "positionNotFinite"@.len());
            assert("fontBlobNotPortable"@.len() != "fontFaceMissing"@.len());
            assert("fontBlobNotPortable"@.len() != "fontBlobMissing"@.len());
        },
        NativeGlyphRunReplayProofReason::FontBlobBytesMissing => {
            assert("fontBlobBytesMissing"@.len() != "emptyGlyphIds"@.len());
            assert("fontBlobBytesMissing"@.len() != "glyphPositionCountMismatch"@.len());
            assert("fontBlobBytesMissing"@[0] != "advanceCountMismatch"@[0]);
            assert("fontBlobBytesMissing"@.len() != "glyphTransformUnsupported"@.len());
            assert("fontBlobBytesMissing"@.len() != "verticalOrientationUnsupported"@.len());
            assert("fontBlobBytesMissing"@.len() != "strictVisualIneligible"@.len());
            assert("fontBlobBytesMissing"@.len() != "missingGlyph"@.len());
            assert("fontBlobBytesMissing"@.len() != "clusterMismatch"@.len());
            assert("fontBlobBytesMissing"@.len() != "unsupportedQuality"@.len());
            assert("fontBlobBytesMissing"@.len() != "positionAdjustedResidualTooLarge"@.len());
            assert("fontBlobBytesMissing"@.len() != "replayEligibilityNotPortable"@.len());
            assert("fontBlobBytesMissing"@.len() != "unsupportedPaintEffect"@.len());
            assert("fontBlobBytesMissing"@.len() != "glyphIdOutOfRange"@.len());
            assert("fontBlobBytesMissing"@.len() != "placementNotFinite"@.len());
            assert("fontBlobBytesMissing"@.len() != "positionNotFinite"@.len());
            assert("fontBlobBytesMissing"@.len() != "fontFaceMissing"@.len());
            assert("fontBlobBytesMissing"@.len() != "fontBlobMissing"@.len());
            assert("fontBlobBytesMissing"@.len() != "fontBlobNotPortable"@.len());
        },
        NativeGlyphRunReplayProofReason::FontBlobDataRefMismatch => {
            assert("fontBlobDataRefMismatch"@.len() != "emptyGlyphIds"@.len());
            assert("fontBlobDataRefMismatch"@.len() != "glyphPositionCountMismatch"@.len());
            assert("fontBlobDataRefMismatch"@.len() != "advanceCountMismatch"@.len());
            assert("fontBlobDataRefMismatch"@.len() != "glyphTransformUnsupported"@.len());
            assert("fontBlobDataRefMismatch"@.len() != "verticalOrientationUnsupported"@.len());
            assert("fontBlobDataRefMismatch"@.len() != "strictVisualIneligible"@.len());
            assert("fontBlobDataRefMismatch"@.len() != "missingGlyph"@.len());
            assert("fontBlobDataRefMismatch"@.len() != "clusterMismatch"@.len());
            assert("fontBlobDataRefMismatch"@.len() != "unsupportedQuality"@.len());
            assert("fontBlobDataRefMismatch"@.len() != "positionAdjustedResidualTooLarge"@.len());
            assert("fontBlobDataRefMismatch"@.len() != "replayEligibilityNotPortable"@.len());
            assert("fontBlobDataRefMismatch"@.len() != "unsupportedPaintEffect"@.len());
            assert("fontBlobDataRefMismatch"@.len() != "glyphIdOutOfRange"@.len());
            assert("fontBlobDataRefMismatch"@.len() != "placementNotFinite"@.len());
            assert("fontBlobDataRefMismatch"@.len() != "positionNotFinite"@.len());
            assert("fontBlobDataRefMismatch"@.len() != "fontFaceMissing"@.len());
            assert("fontBlobDataRefMismatch"@.len() != "fontBlobMissing"@.len());
            assert("fontBlobDataRefMismatch"@.len() != "fontBlobNotPortable"@.len());
            assert("fontBlobDataRefMismatch"@.len() != "fontBlobBytesMissing"@.len());
        },
        NativeGlyphRunReplayProofReason::FontBlobDigestMismatch => {
            assert("fontBlobDigestMismatch"@.len() != "emptyGlyphIds"@.len());
            assert("fontBlobDigestMismatch"@.len() != "glyphPositionCountMismatch"@.len());
            assert("fontBlobDigestMismatch"@.len() != "advanceCountMismatch"@.len());
            assert("fontBlobDigestMismatch"@.len() != "glyphTransformUnsupported"@.len());
            assert("fontBlobDigestMismatch"@.len() != "verticalOrientationUnsupported"@.len());
            assert("fontBlobDigestMismatch"@[0] != "strictVisualIneligible"@[0]);
            assert("fontBlobDigestMismatch"@.len() != "missingGlyph"@.len());
            assert("fontBlobDigestMismatch"@.len() != "clusterMismatch"@.len());
            assert("fontBlobDigestMismatch"@.len() != "unsupportedQuality"@.len());
            assert("fontBlobDigestMismatch"@.len() != "positionAdjustedResidualTooLarge"@.len());
            assert("fontBlobDigestMismatch"@.len() != "replayEligibilityNotPortable"@.len());
            assert("fontBlobDigestMismatch"@[0] != "unsupportedPaintEffect"@[0]);
            assert("fontBlobDigestMismatch"@.len() != "glyphIdOutOfRange"@.len());
            assert("fontBlobDigestMismatch"@.len() != "placementNotFinite"@.len());
            assert("fontBlobDigestMismatch"@.len() != "positionNotFinite"@.len());
            assert("fontBlobDigestMismatch"@.len() != "fontFaceMissing"@.len());
            assert("fontBlobDigestMismatch"@.len() != "fontBlobMissing"@.len());
            assert("fontBlobDigestMismatch"@.len() != "fontBlobNotPortable"@.len());
            assert("fontBlobDigestMismatch"@.len() != "fontBlobBytesMissing"@.len());
            assert("fontBlobDigestMismatch"@.len() != "fontBlobDataRefMismatch"@.len());
        },
        NativeGlyphRunReplayProofReason::FaceIndexUnsupported => {
            assert("faceIndexUnsupported"@.len() != "emptyGlyphIds"@.len());
            assert("faceIndexUnsupported"@.len() != "glyphPositionCountMismatch"@.len());
            assert("faceIndexUnsupported"@[0] != "advanceCountMismatch"@[0]);
            assert("faceIndexUnsupported"@.len() != "glyphTransformUnsupported"@.len());
            assert("faceIndexUnsupported"@.len() != "verticalOrientationUnsupported"@.len());
            assert("faceIndexUnsupported"@.len() != "strictVisualIneligible"@.len());
            assert("faceIndexUnsupported"@.len() != "missingGlyph"@.len());
            assert("faceIndexUnsupported"@.len() != "clusterMismatch"@.len());
            assert("faceIndexUnsupported"@.len() != "unsupportedQuality"@.len());
            assert("faceIndexUnsupported"@.len() != "positionAdjustedResidualTooLarge"@.len());
            assert("faceIndexUnsupported"@.len() != "replayEligibilityNotPortable"@.len());
            assert("faceIndexUnsupported"@.len() != "unsupportedPaintEffect"@.len());
            assert("faceIndexUnsupported"@.len() != "glyphIdOutOfRange"@.len());
            assert("faceIndexUnsupported"@.len() != "placementNotFinite"@.len());
            assert("faceIndexUnsupported"@.len() != "positionNotFinite"@.len());
            assert("faceIndexUnsupported"@.len() != "fontFaceMissing"@.len());
            assert("faceIndexUnsupported"@.len() != "fontBlobMissing"@.len());
            assert("faceIndexUnsupported"@.len() != "fontBlobNotPortable"@.len());
            assert("faceIndexUnsupported"@[1] != "fontBlobBytesMissing"@[1]);
            assert("faceIndexUnsupported"@.len() != "fontBlobDataRefMismatch"@.len());
            assert("faceIndexUnsupported"@.len() != "fontBlobDigestMismatch"@.len());
        },
        NativeGlyphRunReplayProofReason::FontVariationUnsupported => {
            assert("fontVariationUnsupported"@.len() != "emptyGlyphIds"@.len());
            assert("fontVariationUnsupported"@.len() != "glyphPositionCountMismatch"@.len());
            assert("fontVariationUnsupported"@.len() != "advanceCountMismatch"@.len());
            assert("fontVariationUnsupported"@.len() != "glyphTransformUnsupported"@.len());
            assert("fontVariationUnsupported"@.len() != "verticalOrientationUnsupported"@.len());
            assert("fontVariationUnsupported"@.len() != "strictVisualIneligible"@.len());
            assert("fontVariationUnsupported"@.len() != "missingGlyph"@.len());
            assert("fontVariationUnsupported"@.len() != "clusterMismatch"@.len());
            assert("fontVariationUnsupported"@.len() != "unsupportedQuality"@.len());
            assert("fontVariationUnsupported"@.len() != "positionAdjustedResidualTooLarge"@.len());
            assert("fontVariationUnsupported"@.len() != "replayEligibilityNotPortable"@.len());
            assert("fontVariationUnsupported"@.len() != "unsupportedPaintEffect"@.len());
            assert("fontVariationUnsupported"@.len() != "glyphIdOutOfRange"@.len());
            assert("fontVariationUnsupported"@.len() != "placementNotFinite"@.len());
            assert("fontVariationUnsupported"@.len() != "positionNotFinite"@.len());
            assert("fontVariationUnsupported"@.len() != "fontFaceMissing"@.len());
            assert("fontVariationUnsupported"@.len() != "fontBlobMissing"@.len());
            assert("fontVariationUnsupported"@.len() != "fontBlobNotPortable"@.len());
            assert("fontVariationUnsupported"@.len() != "fontBlobBytesMissing"@.len());
            assert("fontVariationUnsupported"@.len() != "fontBlobDataRefMismatch"@.len());
            assert("fontVariationUnsupported"@.len() != "fontBlobDigestMismatch"@.len());
            assert("fontVariationUnsupported"@.len() != "faceIndexUnsupported"@.len());
        },
        NativeGlyphRunReplayProofReason::TypefaceConstructionNotImplemented => {
            assert("typefaceConstructionNotImplemented"@.len() != "emptyGlyphIds"@.len());
            assert("typefaceConstructionNotImplemented"@.len() != "glyphPositionCountMismatch"@.len());
            assert("typefaceConstructionNotImplemented"@.len() != "advanceCountMismatch"@.len());
            assert("typefaceConstructionNotImplemented"@.len() != "glyphTransformUnsupported"@.len());
            assert("typefaceConstructionNotImplemented"@.len() != "verticalOrientationUnsupported"@.len());
            assert("typefaceConstructionNotImplemented"@.len() != "strictVisualIneligible"@.len());
            assert("typefaceConstructionNotImplemented"@.len() != "missingGlyph"@.len());
            assert("typefaceConstructionNotImplemented"@.len() != "clusterMismatch"@.len());
            assert("typefaceConstructionNotImplemented"@.len() != "unsupportedQuality"@.len());
            assert("typefaceConstructionNotImplemented"@.len() != "positionAdjustedResidualTooLarge"@.len());
            assert("typefaceConstructionNotImplemented"@.len() != "replayEligibilityNotPortable"@.len());
            assert("typefaceConstructionNotImplemented"@.len() != "unsupportedPaintEffect"@.len());
            assert("typefaceConstructionNotImplemented"@.len() != "glyphIdOutOfRange"@.len());
            assert("typefaceConstructionNotImplemented"@.len() != "placementNotFinite"@.len());
            assert("typefaceConstructionNotImplemented"@.len() != "positionNotFinite"@.len());
            assert("typefaceConstructionNotImplemented"@.len() != "fontFaceMissing"@.len());
            assert("typefaceConstructionNotImplemented"@.len() != "fontBlobMissing"@.len());
            assert("typefaceConstructionNotImplemented"@.len() != "fontBlobNotPortable"@.len());
            assert("typefaceConstructionNotImplemented"@.len() != "fontBlobBytesMissing"@.len());
            assert("typefaceConstructionNotImplemented"@.len() != "fontBlobDataRefMismatch"@.len());
            assert("typefaceConstructionNotImplemented"@.len() != "fontBlobDigestMismatch"@.len());
            assert("typefaceConstructionNotImplemented"@.len() != "faceIndexUnsupported"@.len());
            assert("typefaceConstructionNotImplemented"@.len() != "fontVariationUnsupported"@.len());
        },
    }
}

} // verus!
