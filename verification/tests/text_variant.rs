use rhwp::paint::TextVariantKind;
use rhwp::renderer::layer_renderer::{
    TextVariantCandidate, TextVariantGroupState, VariantRejectReason, VariantSelectedReason,
    VariantSelectionBackend,
};

fn complete(order: usize, id: &str, kind: TextVariantKind) -> TextVariantCandidate {
    let mut c = TextVariantCandidate::new(order, id.to_string(), kind);
    c.add_glyph_run(2, 0);
    c.add_glyph_run(2, 1);
    c
}

#[test]
fn complete_candidate_has_no_reason() {
    let c = complete(0, "run", TextVariantKind::GlyphRun);
    assert!(c.reject_reasons(VariantSelectionBackend::CanvasKit, &vec![]).is_empty());
    assert!(c.reject_reasons(VariantSelectionBackend::NativeSkia, &vec![]).is_empty());
}

#[test]
fn structure_reasons_come_in_enum_order() {
    let mut c = TextVariantCandidate::new(0, "run".to_string(), TextVariantKind::GlyphRun);
    c.add_glyph_run(3, 0);
    c.add_glyph_run(3, 0);
    c.add_glyph_outline(2, 1);
    let reasons = c.reject_reasons(
        VariantSelectionBackend::Svg,
        &vec![VariantRejectReason::UnsupportedPaintEffect, VariantRejectReason::GlyphIdOutOfRange],
    );
    assert_eq!(
        reasons,
        vec![
            VariantRejectReason::BackendDoesNotSupportVariant,
            VariantRejectReason::GlyphIdOutOfRange,
            VariantRejectReason::UnsupportedPaintEffect,
            VariantRejectReason::VariantPartCountMismatch,
            VariantRejectReason::VariantDuplicatePart,
        ]
    );
    let empty = TextVariantCandidate::new(1, "o".to_string(), TextVariantKind::GlyphOutline);
    assert_eq!(
        empty.reject_reasons(VariantSelectionBackend::Canvas2D, &vec![]),
        vec![
            VariantRejectReason::BackendDoesNotSupportVariant,
            VariantRejectReason::IncompleteVariantSet,
            VariantRejectReason::VariantPartsIncomplete,
        ]
    );
}

#[test]
fn glyph_run_wins_unless_strict_outline_is_preferred() {
    let group = || TextVariantGroupState {
        fallback_present: true,
        variants: vec![
            complete(1, "outline", TextVariantKind::GlyphOutline),
            complete(0, "run", TextVariantKind::GlyphRun),
        ],
    };
    let r = group().finish("g".to_string(), VariantSelectionBackend::CanvasKit, false, &vec![vec![], vec![]]);
    assert_eq!(r.selected_variant_id, Some("run".to_string()));
    assert_eq!(r.selected_variant_kind, Some(TextVariantKind::GlyphRun));
    assert_eq!(r.selected_reason, VariantSelectedReason::GlyphRunStrictEligible);
    assert!(!r.fallback_required);
    assert!(r.rejected_variants.is_empty());
    let r = group().finish("g".to_string(), VariantSelectionBackend::CanvasKit, true, &vec![vec![], vec![]]);
    assert_eq!(r.selected_variant_id, Some("outline".to_string()));
    assert_eq!(r.selected_reason, VariantSelectedReason::GlyphOutlineStrictProfile);
    assert_eq!(r.equivalence_group, "g");
}

#[test]
fn all_rejected_falls_back_to_the_text_run() {
    let group = TextVariantGroupState {
        fallback_present: true,
        variants: vec![
            complete(5, "late", TextVariantKind::GlyphOutline),
            complete(2, "early", TextVariantKind::GlyphRun),
        ],
    };
    let r = group.finish(
        "g".to_string(),
        VariantSelectionBackend::Svg,
        false,
        &vec![vec![VariantRejectReason::EmptyGlyphOutlinePayload], vec![]],
    );
    assert_eq!(r.selected_variant_id, Some("textRun".to_string()));
    assert_eq!(r.selected_variant_kind, Some(TextVariantKind::TextRun));
    assert_eq!(r.selected_reason, VariantSelectedReason::DefaultTextRunFallback);
    assert!(r.fallback_required);
    // rejected in discovery order: the glyph run (order 2) first
    assert_eq!(r.rejected_variants.len(), 2);
    assert_eq!(r.rejected_variants[0].variant_id, "early");
    assert_eq!(r.rejected_variants[0].reasons, vec![VariantRejectReason::BackendDoesNotSupportVariant]);
    assert_eq!(r.rejected_variants[1].variant_id, "late");
    assert_eq!(r.rejected_variants[1].reasons, vec![VariantRejectReason::EmptyGlyphOutlinePayload]);
    let none = TextVariantGroupState { fallback_present: false, variants: vec![] };
    let r = none.finish("h".to_string(), VariantSelectionBackend::CanvasKit, false, &vec![]);
    assert_eq!(r.selected_variant_id, None);
    assert_eq!(r.selected_reason, VariantSelectedReason::NoSupportedVariant);
    assert!(r.fallback_required);
}
