use rhwp::renderer::font_metrics_data::{FontMetric, LatinRange};
use rhwp::renderer::layout::text_measurement::{
    inline_tab_type, is_monospace_metric, right_leader_tab_fill, TabStopKind,
};
use rhwp::model::paragraph::{LineSeg, Paragraph};
use rhwp::paint::{GlyphRunOrientation, GlyphRunReplayEligibility, TextVariantKind, TextVariantQuality};
use rhwp::renderer::composer::line_breaking::{
    condense_space_savings_hwp, condensed_line_width_hwp, is_hangul, is_line_end_forbidden,
    is_line_start_forbidden, paragraph_flow_end, saturating_add_i32,
};
use rhwp::renderer::form_caption::display_form_caption;
use rhwp::renderer::layer_renderer::{
    selected_reason_for_variant, VariantRejectReason, VariantSelectedReason,
    VariantSelectionBackend,
};
use rhwp::renderer::layout::text_measurement::{
    build_cluster_len, is_cjk_char, is_dash_leader_run, is_emoji_presentation, is_emoji_wide,
    is_emoji_zero_width, is_fullwidth_symbol, is_halfwidth_cjk_quote, is_narrow_paren_for_font,
    is_narrow_punctuation, is_vertical_rotate_char, split_into_clusters,
    tab_suffix_is_ascii_page_number, vertical_substitute_char,
};
use rhwp::renderer::page_number::PageNumberAssigner;
use rhwp::renderer::pagination::{ColumnContent, PageContent, PageItem};
use rhwp::renderer::skia::renderer::{
    native_skia_glyph_run_replay_proof, BlobBytes, FontBlobFacts, FontFaceFacts,
    FontResourceFacts, GlyphRunFacts, NativeGlyphRunReplayProofReason,
};
use rhwp::renderer::svg_fragment::{
    decode_base64_data_url, find_svg_attr_value, is_svg_prefix, split_base64_data_url,
    try_parse_single_image_data_url,
};

fn page(items: Vec<PageItem>) -> PageContent {
    PageContent { column_contents: vec![ColumnContent { items }] }
}

#[test]
fn pages_count_on_from_initial() {
    let nn: Vec<(usize, u16)> = vec![];
    let mut a = PageNumberAssigner::new(&nn, 1);
    assert!(!a.should_hide_page_number());
    assert_eq!(a.assign(&page(vec![PageItem::FullParagraph { para_index: 0 }])), 1);
    assert_eq!(a.assign(&page(vec![])), 2);
    assert_eq!(a.next_counter(), 3);
}

#[test]
fn new_number_applies_once_where_its_paragraph_starts() {
    let nn: Vec<(usize, u16)> = vec![(3, 10)];
    let mut a = PageNumberAssigner::new(&nn, 1);
    assert!(a.should_hide_page_number());
    // paragraph 3 continues from an earlier page: no reset
    let cont = page(vec![PageItem::PartialParagraph { para_index: 3, start_line: 2, end_line: 5 }]);
    assert_eq!(a.assign(&cont), 1);
    assert!(a.should_hide_page_number());
    // first lines of paragraph 3: reset to 10
    let first = page(vec![PageItem::PartialParagraph { para_index: 3, start_line: 0, end_line: 2 }]);
    assert_eq!(a.assign(&first), 10);
    assert!(!a.should_hide_page_number());
    // the same paragraph again does not reset a second time
    assert_eq!(a.assign(&first), 11);
    assert_eq!(a.next_counter(), 12);
}

#[test]
fn last_new_number_on_a_page_wins() {
    let nn: Vec<(usize, u16)> = vec![(1, 5), (2, 20)];
    let mut a = PageNumberAssigner::new(&nn, 1);
    let p = page(vec![
        PageItem::Table { para_index: 1, control_index: 0 },
        PageItem::PartialTable { para_index: 2, control_index: 0, start_row: 0, end_row: 3, is_continuation: false },
        PageItem::EndnoteSeparator { height: 10 },
    ]);
    assert_eq!(a.assign(&p), 20);
    let continuation = page(vec![PageItem::PartialTable {
        para_index: 2,
        control_index: 0,
        start_row: 3,
        end_row: 5,
        is_continuation: true,
    }]);
    assert_eq!(a.assign(&continuation), 21);
}

#[test]
fn reason_names() {
    assert_eq!(VariantSelectionBackend::NativeSkia.as_str(), "nativeSkia");
    assert_eq!(VariantSelectionBackend::Canvas2D.as_str(), "canvas2d");
    assert_eq!(VariantSelectedReason::NoSupportedVariant.as_str(), "noSupportedVariant");
    assert_eq!(
        VariantRejectReason::VerticalGlyphOrientationAuthorityPending.as_str(),
        "verticalGlyphOrientationAuthorityPending"
    );
    assert_eq!(VariantRejectReason::FontBlobDigestMismatch.as_str(), "fontBlobDigestMismatch");
    assert_eq!(
        selected_reason_for_variant(TextVariantKind::GlyphOutline),
        VariantSelectedReason::GlyphOutlineStrictProfile
    );
    assert_eq!(
        selected_reason_for_variant(TextVariantKind::GlyphRun),
        VariantSelectedReason::GlyphRunStrictEligible
    );
    assert_eq!(NativeGlyphRunReplayProofReason::FontVariationUnsupported.as_str(), "fontVariationUnsupported");
}

fn good_run() -> GlyphRunFacts {
    GlyphRunFacts {
        glyph_ids: vec![10, 20],
        position_count: 2,
        advance_count: Some(2),
        has_glyph_transforms: false,
        orientation: GlyphRunOrientation::Horizontal,
        strict_visual_eligible: true,
        missing_glyph_count: 0,
        cluster_mismatch_count: 0,
        quality: TextVariantQuality::Exact,
        residual_within_tolerance: true,
        replay_eligibility: GlyphRunReplayEligibility::Portable,
        fill_only_paint: true,
        face_key: 1,
        has_variations: false,
        placement_finite: true,
        positions_finite: true,
    }
}

fn resources() -> FontResourceFacts {
    FontResourceFacts {
        faces: vec![FontFaceFacts { id: 1, face_index: 0, blob_key: 9 }],
        blobs: vec![FontBlobFacts {
            id: 9,
            self_contained_replayable: true,
            portable_data_ref: Some(4),
            data_ref: Some(4),
            bytes: BlobBytes::DigestMatches,
        }],
    }
}

#[test]
fn replayable_run_still_lacks_typeface_construction() {
    let proof = native_skia_glyph_run_replay_proof(&good_run(), &resources());
    assert!(proof.contract_replayable);
    assert!(!proof.typeface_constructible);
    assert_eq!(proof.reasons, vec![NativeGlyphRunReplayProofReason::TypefaceConstructionNotImplemented]);
}

#[test]
fn replay_reasons_come_in_enum_order() {
    let mut run = good_run();
    run.glyph_ids = vec![70000];
    run.quality = TextVariantQuality::PositionAdjusted;
    run.residual_within_tolerance = false;
    run.has_variations = true;
    let mut res = resources();
    res.blobs[0].bytes = BlobBytes::DigestMismatch;
    res.blobs[0].data_ref = None;
    let proof = native_skia_glyph_run_replay_proof(&run, &res);
    assert!(!proof.contract_replayable);
    assert_eq!(
        proof.reasons,
        vec![
            NativeGlyphRunReplayProofReason::GlyphPositionCountMismatch,
            NativeGlyphRunReplayProofReason::AdvanceCountMismatch,
            NativeGlyphRunReplayProofReason::PositionAdjustedResidualTooLarge,
            NativeGlyphRunReplayProofReason::GlyphIdOutOfRange,
            NativeGlyphRunReplayProofReason::FontBlobDataRefMismatch,
            NativeGlyphRunReplayProofReason::FontBlobDigestMismatch,
            NativeGlyphRunReplayProofReason::FontVariationUnsupported,
        ]
    );
}

#[test]
fn replay_missing_face_and_blob() {
    let mut run = good_run();
    run.face_key = 2;
    let proof = native_skia_glyph_run_replay_proof(&run, &resources());
    assert_eq!(proof.reasons, vec![NativeGlyphRunReplayProofReason::FontFaceMissing]);
    let mut res = resources();
    res.faces[0].blob_key = 8;
    res.faces[0].face_index = 1;
    let proof = native_skia_glyph_run_replay_proof(&good_run(), &res);
    assert_eq!(
        proof.reasons,
        vec![NativeGlyphRunReplayProofReason::FontBlobMissing, NativeGlyphRunReplayProofReason::FaceIndexUnsupported]
    );
}

#[test]
fn character_classes() {
    assert!(is_cjk_char('가') && is_cjk_char('漢') && is_cjk_char('あ') && !is_cjk_char('a'));
    assert!(is_emoji_presentation('\u{2705}') && !is_emoji_presentation('\u{2708}'));
    assert!(is_emoji_wide('\u{2708}') && is_emoji_wide('😀') && !is_emoji_wide('A'));
    assert!(is_emoji_zero_width('\u{200D}') && is_emoji_zero_width('\u{FE0F}'));
    assert!(is_narrow_punctuation(',') && is_narrow_punctuation('\u{2027}') && !is_narrow_punctuation('A'));
    assert!(is_halfwidth_cjk_quote('「') && !is_halfwidth_cjk_quote('『'));
    assert!(is_fullwidth_symbol('₩') && is_fullwidth_symbol('①') && !is_fullwidth_symbol('$'));
    assert!(is_vertical_rotate_char('(') && is_vertical_rotate_char('…') && !is_vertical_rotate_char('가'));
    assert_eq!(vertical_substitute_char('('), Some('\u{FE35}'));
    assert_eq!(vertical_substitute_char('\u{2015}'), Some('\u{FE31}'));
    assert_eq!(vertical_substitute_char('가'), None);
}

#[test]
fn narrow_paren_only_for_measured_fonts() {
    assert!(is_narrow_paren_for_font("  휴먼명조 , 바탕", '('));
    assert!(is_narrow_paren_for_font("HY중고딕", ')'));
    assert!(!is_narrow_paren_for_font("바탕, 휴먼명조", '('));
    assert!(!is_narrow_paren_for_font("휴먼명조", '['));
}

#[test]
fn jamo_sequences_form_clusters() {
    // ᄒ ᆞ ᆫ (old Hangul) then a plain syllable and a lone vowel jamo
    let text = "\u{1112}\u{119E}\u{11AB}가\u{1161}";
    let clusters = split_into_clusters(text);
    assert_eq!(
        clusters,
        vec![
            (0, "\u{1112}\u{119E}\u{11AB}".to_string()),
            (3, "가".to_string()),
            (4, "\u{1161}".to_string()),
        ]
    );
    let chars: Vec<char> = text.chars().collect();
    assert_eq!(build_cluster_len(&chars), vec![3, 0, 0, 1, 1]);
    // a leading jamo without a vowel stays alone
    assert_eq!(split_into_clusters("\u{1100}a"), vec![(0, "\u{1100}".to_string()), (1, "a".to_string())]);
}

#[test]
fn dash_leaders_need_three() {
    let chars: Vec<char> = "a--b---c".chars().collect();
    assert!(!is_dash_leader_run(&chars, 1));
    assert!(!is_dash_leader_run(&chars, 0));
    assert!(is_dash_leader_run(&chars, 4));
    assert!(is_dash_leader_run(&chars, 6));
}

#[test]
fn page_number_tab_suffix() {
    let chars: Vec<char> = "Title\t 12 ".chars().collect();
    assert!(tab_suffix_is_ascii_page_number(&chars, 6));
    assert!(!tab_suffix_is_ascii_page_number(&chars, 5));
    assert!(!tab_suffix_is_ascii_page_number(&chars, 9));
    assert!(!tab_suffix_is_ascii_page_number(&chars, 20));
    let roman: Vec<char> = " iv".chars().collect();
    assert!(!tab_suffix_is_ascii_page_number(&roman, 0));
}

#[test]
fn line_break_prohibitions() {
    assert!(is_line_start_forbidden(')') && is_line_start_forbidden('。') && is_line_start_forbidden('%'));
    assert!(!is_line_start_forbidden('('));
    assert!(is_line_end_forbidden('(') && is_line_end_forbidden('$') && is_line_end_forbidden('“'));
    assert!(!is_line_end_forbidden(')'));
    assert!(is_hangul('한') && is_hangul('ㄱ') && !is_hangul('漢'));
}

#[test]
fn condense_arithmetic() {
    assert_eq!(condense_space_savings_hwp(1000, 0), 0);
    assert_eq!(condense_space_savings_hwp(-5, 50), 0);
    assert_eq!(condense_space_savings_hwp(1000, 50), 500);
    assert_eq!(condense_space_savings_hwp(1000, 90), 750);
    assert_eq!(condense_space_savings_hwp(333, 10), 33);
    assert_eq!(condensed_line_width_hwp(5000, 750), 4250);
    assert_eq!(saturating_add_i32(i32::MAX, 1), i32::MAX);
    assert_eq!(saturating_add_i32(i32::MIN, -1), i32::MIN);
}

#[test]
fn flow_end_uses_last_line() {
    let mut p = Paragraph {
        text: String::new(),
        char_offsets: vec![],
        char_shapes: vec![],
        line_segs: vec![],
        controls: vec![],
        track_marks: vec![],
    };
    assert_eq!(paragraph_flow_end(&p), None);
    let seg = |vpos: i32, lh: i32, th: i32, sp: i32| LineSeg {
        text_start: 0,
        vertical_pos: vpos,
        line_height: lh,
        text_height: th,
        baseline_distance: 0,
        line_spacing: sp,
        column_start: 0,
        segment_width: 0,
        tag: 0,
    };
    p.line_segs.push(seg(0, 1000, 1000, 600));
    p.line_segs.push(seg(1600, 3000, 1000, 600));
    // an inline object makes the line taller than its text: the text height advances
    assert_eq!(paragraph_flow_end(&p), Some(1600 + 1000 + 600));
    p.line_segs.push(seg(i32::MAX - 10, 1000, 0, 600));
    assert_eq!(paragraph_flow_end(&p), Some(i32::MAX));
}

#[test]
fn form_caption_ampersands() {
    assert_eq!(display_form_caption("A&&B"), "A&B");
    assert_eq!(display_form_caption("A&&&B"), "A&&B");
    assert_eq!(display_form_caption("&&&&"), "&&");
    assert_eq!(display_form_caption("A&B"), "A&B");
    assert_eq!(display_form_caption(""), "");
}

#[test]
fn svg_attribute_at_word_start() {
    let s = "<image xlink:href=\"data:a\" href=\"data:b\" w=\"1\"/>";
    assert_eq!(find_svg_attr_value(s, "href").as_deref(), Some("data:b"));
    assert_eq!(find_svg_attr_value(s, "xlink:href").as_deref(), Some("data:a"));
    assert_eq!(find_svg_attr_value(s, "h"), None);
    assert_eq!(find_svg_attr_value("href=\"x\"", "href"), None);
    assert_eq!(find_svg_attr_value(" a=\"open", "a"), None);
}

#[test]
fn single_image_data_url() {
    assert_eq!(
        try_parse_single_image_data_url("  <image href=\"data:image/png;base64,AA==\"/>\n").as_deref(),
        Some("data:image/png;base64,AA==")
    );
    assert_eq!(try_parse_single_image_data_url("<image href=\"http://x\"/>"), None);
    assert_eq!(try_parse_single_image_data_url("<g><image href=\"data:x\"/></g>"), None);
    assert_eq!(try_parse_single_image_data_url("<image href=\"data:x\">"), None);
}

#[test]
fn svg_prefix_detection() {
    assert!(is_svg_prefix(b"  \n<svg width=\"1\"/>"));
    assert!(is_svg_prefix(b"<?xml version=\"1.0\"?>\n<svg/>"));
    assert!(!is_svg_prefix(b"<?xml version=\"1.0\"?><html/>"));
    assert!(!is_svg_prefix(b"<sv"));
    assert!(!is_svg_prefix(b"\x89PNG\r\n"));
}

#[test]
fn base64_data_urls_decode() {
    let (mime, bytes) = decode_base64_data_url("data:image/png;base64,aGVsbG8=").unwrap();
    assert_eq!(mime, "image/png");
    assert_eq!(bytes, b"hello".to_vec());
    assert!(decode_base64_data_url("data:text/plain,hello").is_none());
    assert!(decode_base64_data_url("data:image/png;base64,!!!").is_none());
    assert!(decode_base64_data_url("image/png;base64,aGVsbG8=").is_none());
    assert_eq!(
        split_base64_data_url("data:;base64,QQ=="),
        Some((String::new(), "QQ==".to_string()))
    );
}

#[test]
fn inline_tab_kind_is_the_high_byte() {
    assert_eq!(inline_tab_type(&[0, 0, 0x0201, 0, 0, 0, 0]), 2);
    assert_eq!(inline_tab_type(&[0, 7, 0x00FF, 0, 0, 0, 0]), 0);
    assert_eq!(inline_tab_type(&[0, 0, 0xFFFF, 0, 0, 0, 0]), 255);
}

#[test]
fn right_leader_fill_comes_from_the_last_right_tab_with_one() {
    let tabs = [
        TabStopKind { tab_type: 1, fill_type: 2 },
        TabStopKind { tab_type: 1, fill_type: 3 },
        TabStopKind { tab_type: 1, fill_type: 0 },
        TabStopKind { tab_type: 0, fill_type: 5 },
    ];
    assert_eq!(right_leader_tab_fill(&tabs), Some(3));
    assert_eq!(right_leader_tab_fill(&tabs[2..]), None);
    assert_eq!(right_leader_tab_fill(&[]), None);
}

#[test]
fn monospace_needs_sixteen_equal_ascii_widths() {
    let run = |start: u32, widths: Vec<u16>| LatinRange { start, end: start + widths.len() as u32 - 1, widths };
    // space (not sampled) is narrower; all of '!'..'~' share one width
    let mut widths = vec![300u16];
    widths.extend(std::iter::repeat(600u16).take(94));
    let mono = FontMetric { em_size: 1000, latin_ranges: vec![run(0x20, widths.clone())] };
    assert!(is_monospace_metric(&mono));
    // one glyph differs
    let mut uneven = widths.clone();
    uneven[40] = 550;
    let prop = FontMetric { em_size: 1000, latin_ranges: vec![run(0x20, uneven)] };
    assert!(!is_monospace_metric(&prop));
    // zero widths are no samples; fifteen samples are too few
    let mut sparse = vec![0u16; 95];
    for w in sparse.iter_mut().skip(1).take(15) {
        *w = 600;
    }
    let few = FontMetric { em_size: 1000, latin_ranges: vec![run(0x20, sparse)] };
    assert!(!is_monospace_metric(&few));
    // runs outside printable ASCII are ignored
    let mut mixed = mono.latin_ranges;
    mixed.push(run(0x100, vec![900, 100]));
    assert!(is_monospace_metric(&FontMetric { em_size: 1000, latin_ranges: mixed }));
}

#[test]
fn clusters_cover_the_text_in_order() {
    let text = "a\u{1100}\u{1161}\u{11A8}b\u{1100}\u{1161}";
    let clusters = split_into_clusters(text);
    let joined: String = clusters.iter().map(|c| c.1.as_str()).collect();
    assert_eq!(joined, text);
    let mut next = 0usize;
    for (start, s) in &clusters {
        assert_eq!(*start, next);
        let n = s.chars().count();
        assert!((1..=3).contains(&n));
        next += n;
    }
    let chars: Vec<char> = text.chars().collect();
    assert_eq!(build_cluster_len(&chars), vec![1, 3, 0, 0, 1, 2, 0]);
}
