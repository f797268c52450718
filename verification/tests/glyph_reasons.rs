use rhwp::paint::{
    GlyphRunOrientation, GlyphRunReplayEligibility, LayerNode, LayerNodeKind, PageLayerTree,
    PaintOp, TextVariantKind, TextVariantQuality, TextVariantRef,
};
use rhwp::renderer::layer_renderer::{
    analyze_text_variant_selection, canvaskit_bitmap_resource_is_decodable, glyph_reject_reasons,
    GlyphDiagnosticsFacts, VariantSelectedReason,
    GlyphOutlinePayloadKind, SelectionLimits, VariantGlyphOutlineFacts, VariantGlyphRunFacts,
    VariantRejectReason, VariantSelectionBackend,
};
use rhwp::renderer::skia::renderer::{BlobBytes, FontBlobFacts, FontFaceFacts, FontResourceFacts};
use std::io::Cursor;

fn diagnostics() -> GlyphDiagnosticsFacts {
    GlyphDiagnosticsFacts {
        replay_eligibility: GlyphRunReplayEligibility::Portable,
        quality: TextVariantQuality::Exact,
        residual_within_limit: true,
        missing_glyph_count: 0,
        cluster_mismatch_count: 0,
        used_fallback_font_count: 0,
    }
}

fn limits(backend: VariantSelectionBackend) -> SelectionLimits {
    SelectionLimits {
        backend,
        allow_position_adjusted: true,
        max_canvas_glyph_id: 0xFFFF,
        allow_colrv0_color_layers: false,
        allow_colrv1_stage1_color_graph: false,
        allow_bitmap_glyph: true,
        allow_svg_glyph: false,
    }
}

fn resources(bytes: BlobBytes) -> FontResourceFacts {
    FontResourceFacts {
        faces: vec![FontFaceFacts { id: 1, face_index: 0, blob_key: 9 }],
        blobs: vec![FontBlobFacts {
            id: 9,
            self_contained_replayable: true,
            portable_data_ref: Some(4),
            data_ref: Some(4),
            bytes,
        }],
    }
}

fn run(face_key: u64) -> VariantGlyphRunFacts {
    VariantGlyphRunFacts {
        fill_only_paint: true,
        has_glyph_transforms: false,
        orientation: GlyphRunOrientation::Horizontal,
        has_variations: false,
        face_key,
        glyph_ids: vec![3, 40],
        diagnostics: diagnostics(),
    }
}

fn png_bytes(w: u32, h: u32) -> Vec<u8> {
    let img = image::DynamicImage::ImageRgba8(image::RgbaImage::new(w, h));
    let mut out = Cursor::new(Vec::new());
    img.write_to(&mut out, image::ImageFormat::Png).unwrap();
    out.into_inner()
}

#[test]
fn clean_run_gives_no_reason() {
    let r = glyph_reject_reasons(&vec![run(1)], &vec![], &limits(VariantSelectionBackend::CanvasKit), &resources(BlobBytes::DigestMatches));
    assert!(r.is_empty());
}

#[test]
fn run_reasons_from_font_and_diagnostics() {
    let mut a = run(7);
    a.orientation = GlyphRunOrientation::VerticalUpright;
    a.glyph_ids = vec![1, 0x1_0000];
    a.diagnostics.quality = TextVariantQuality::PositionAdjusted;
    a.diagnostics.residual_within_limit = false;
    let b = run(1);
    let lim = limits(VariantSelectionBackend::NativeSkia);
    let r = glyph_reject_reasons(&vec![a, b], &vec![], &lim, &resources(BlobBytes::DigestMismatch));
    assert_eq!(
        r,
        vec![
            VariantRejectReason::FontFaceMissing,
            VariantRejectReason::FontBlobDigestMismatch,
            VariantRejectReason::GlyphIdOutOfRange,
            VariantRejectReason::VerticalGlyphOrientationAuthorityPending,
            VariantRejectReason::PositionAdjustedResidualTooLarge,
        ]
    );
    // an SVG backend does not look at fonts
    let r = glyph_reject_reasons(&vec![run(7)], &vec![], &limits(VariantSelectionBackend::Svg), &resources(BlobBytes::Missing));
    assert!(r.is_empty());
}

fn outline(kind: GlyphOutlinePayloadKind) -> VariantGlyphOutlineFacts {
    VariantGlyphOutlineFacts {
        has_exclusive_payload_family: true,
        payload_kind: kind,
        paths_empty: false,
        fill_only_paint: true,
        stroke: None,
        color_layers: None,
        bitmap_glyph: None,
        svg_glyph: None,
        diagnostics: diagnostics(),
    }
}

#[test]
fn outline_payload_reasons() {
    let lim = limits(VariantSelectionBackend::CanvasKit);
    let res = resources(BlobBytes::DigestMatches);
    let mut stroke = outline(GlyphOutlinePayloadKind::MonochromeFillStroke);
    stroke.paths_empty = true;
    let color = outline(GlyphOutlinePayloadKind::ColorLayers);
    let r = glyph_reject_reasons(&vec![], &vec![stroke, color], &lim, &res);
    assert_eq!(
        r,
        vec![
            VariantRejectReason::EmptyGlyphOutlinePayload,
            VariantRejectReason::GlyphOutlineStrokeStyleUnsupported,
            VariantRejectReason::UnsupportedColorGlyph,
        ]
    );
    let mut bitmap = outline(GlyphOutlinePayloadKind::BitmapGlyph);
    bitmap.bitmap_glyph = Some((true, Some(png_bytes(4, 3))));
    assert!(glyph_reject_reasons(&vec![], &vec![bitmap], &lim, &res).is_empty());
    let mut broken = outline(GlyphOutlinePayloadKind::BitmapGlyph);
    broken.bitmap_glyph = Some((true, Some(vec![1, 2, 3])));
    let mut missing = outline(GlyphOutlinePayloadKind::BitmapGlyph);
    missing.bitmap_glyph = Some((true, None));
    let r = glyph_reject_reasons(&vec![], &vec![broken, missing], &lim, &res);
    assert_eq!(
        r,
        vec![VariantRejectReason::UnsupportedBitmapGlyph, VariantRejectReason::MissingGlyphPayloadResource]
    );
}

#[test]
fn bitmap_resources_must_decode_within_limits() {
    assert!(canvaskit_bitmap_resource_is_decodable(&png_bytes(16, 16)));
    assert!(!canvaskit_bitmap_resource_is_decodable(&[]));
    assert!(!canvaskit_bitmap_resource_is_decodable(b"definitely not an image"));
    assert!(!canvaskit_bitmap_resource_is_decodable(&vec![0u8; 4 * 1024 * 1024 + 1]));
}

fn glyph_op(group: &str, id: &str, count: u32, index: u32, face_key: u64) -> PaintOp {
    PaintOp::GlyphRun {
        variant: TextVariantRef {
            equivalence_group: group.to_string(),
            variant_id: id.to_string(),
            variant_kind: TextVariantKind::GlyphRun,
            part_count: count,
            part_index: index,
        },
        run: run(face_key),
    }
}

fn leaf(ops: Vec<PaintOp>) -> LayerNode {
    LayerNode { kind: LayerNodeKind::Leaf { ops } }
}

#[test]
fn page_groups_are_reported_by_name_with_parts_gathered_across_leaves() {
    let tree = PageLayerTree {
        root: LayerNode {
            kind: LayerNodeKind::Group {
                children: vec![
                    leaf(vec![PaintOp::TextRun, glyph_op("b", "g1", 2, 0, 1), PaintOp::Other]),
                    LayerNode {
                        kind: LayerNodeKind::ClipRect {
                            child: Box::new(leaf(vec![glyph_op("b", "g1", 2, 1, 1)])),
                        },
                    },
                    leaf(vec![glyph_op("a", "h", 2, 0, 1)]),
                ],
            },
        },
        resources: resources(BlobBytes::DigestMatches),
    };
    let r = analyze_text_variant_selection(&tree, &limits(VariantSelectionBackend::CanvasKit), false);
    assert_eq!(r.len(), 2);
    assert_eq!(r[0].equivalence_group, "a");
    assert_eq!(r[0].selected_variant_id, None);
    assert_eq!(r[0].selected_reason, VariantSelectedReason::NoSupportedVariant);
    assert!(r[0].fallback_required);
    assert_eq!(r[0].rejected_variants.len(), 1);
    assert_eq!(r[0].rejected_variants[0].variant_id, "h");
    assert_eq!(r[0].rejected_variants[0].reasons, vec![VariantRejectReason::VariantPartsIncomplete]);
    assert_eq!(r[1].equivalence_group, "b");
    assert_eq!(r[1].selected_variant_id, Some("g1".to_string()));
    assert_eq!(r[1].selected_variant_kind, Some(TextVariantKind::GlyphRun));
    assert_eq!(r[1].selected_reason, VariantSelectedReason::GlyphRunStrictEligible);
    assert!(!r[1].fallback_required);
    assert!(r[1].rejected_variants.is_empty());
}

#[test]
fn a_group_whose_glyphs_fail_falls_back_to_its_text_run() {
    let tree = PageLayerTree {
        root: leaf(vec![PaintOp::TextRun, glyph_op("t", "g", 1, 0, 7)]),
        resources: resources(BlobBytes::DigestMatches),
    };
    let r = analyze_text_variant_selection(&tree, &limits(VariantSelectionBackend::Canvas2D), false);
    assert_eq!(r.len(), 1);
    assert_eq!(r[0].selected_variant_id, Some("textRun".to_string()));
    assert_eq!(r[0].selected_variant_kind, Some(TextVariantKind::TextRun));
    assert_eq!(r[0].selected_reason, VariantSelectedReason::DefaultTextRunFallback);
    assert!(r[0].fallback_required);
    assert_eq!(r[0].rejected_variants.len(), 1);
    assert_eq!(
        r[0].rejected_variants[0].reasons,
        vec![VariantRejectReason::BackendDoesNotSupportVariant]
    );
}

#[test]
fn a_page_without_glyphs_has_no_group() {
    let tree = PageLayerTree {
        root: leaf(vec![PaintOp::TextRun, PaintOp::Other]),
        resources: resources(BlobBytes::DigestMatches),
    };
    assert!(analyze_text_variant_selection(&tree, &limits(VariantSelectionBackend::CanvasKit), true).is_empty());
}
