use rhwp::model::control::{Cell, Control, Table, TablePageBreak};
use rhwp::model::document::{
    DocInfo, Document, Section, SectionDef, TrackChangeRec, TrackKind,
};
use rhwp::model::page::{BindingMethod, PageDef};
use rhwp::model::paragraph::{CharShapeRef, LineSeg, Paragraph, TrackMark};
use rhwp::model::shape::{CommonObjAttr, Padding};
use rhwp::serializer::hwpx::roundtrip::{diff_documents, diff_linesegs, IrDiffAllow, IrDifference};
use rhwp::serializer::track_sidecar::{build_track_sidecar, restore_track_sidecar};

fn page_def() -> PageDef {
    PageDef {
        width: 59528,
        height: 84188,
        margin_left: 8504,
        margin_right: 8504,
        margin_top: 5668,
        margin_bottom: 4252,
        margin_header: 4252,
        margin_footer: 4252,
        margin_gutter: 0,
        landscape: false,
        binding: BindingMethod::SingleSided,
    }
}

fn section(paragraphs: Vec<Paragraph>) -> Section {
    Section {
        section_def: SectionDef {
            page_def: page_def(),
            hide_header: false,
            hide_footer: false,
            hide_master_page: false,
            hide_border: false,
            hide_fill: false,
            hide_empty_line: false,
            master_pages: vec![],
        },
        paragraphs,
    }
}

fn para(text: &str) -> Paragraph {
    let mut offsets = Vec::new();
    let mut pos = 0u32;
    for c in text.chars() {
        offsets.push(pos);
        pos += c.len_utf16() as u32;
    }
    Paragraph {
        text: text.to_string(),
        char_offsets: offsets,
        char_shapes: vec![],
        line_segs: vec![],
        controls: vec![],
        track_marks: vec![],
    }
}

const NO_PADDING: Padding = Padding { left: 0, right: 0, top: 0, bottom: 0 };

fn cell(p: Paragraph) -> Cell {
    Cell { row: 0, col: 0, row_span: 1, col_span: 1, width: 0, height: 0, padding: NO_PADDING, paragraphs: vec![p] }
}

fn doc(sections: Vec<Section>) -> Document {
    Document {
        sections,
        doc_info: DocInfo {
            char_shapes: 1,
            para_shapes: 1,
            border_fills: 1,
            tab_defs: 1,
            numberings: 0,
            styles: 1,
        },
        bin_data_content: vec![],
        track_changes: vec![],
        next_track_id: 0,
    }
}

fn seg(vpos: i32) -> LineSeg {
    LineSeg {
        text_start: 0,
        vertical_pos: vpos,
        line_height: 1000,
        text_height: 1000,
        baseline_distance: 850,
        line_spacing: 600,
        column_start: 0,
        segment_width: 42520,
        tag: 0x60000,
    }
}

#[test]
fn sidecar_absent_without_tracking() {
    let d = doc(vec![section(vec![para("abc")])]);
    assert!(build_track_sidecar(&d).is_none());
}

#[test]
fn sidecar_writes_records_and_marks() {
    let mut p = para("가나다");
    p.track_marks.push(TrackMark { start_pos: 1, end_pos: 3, tc_id: 7 });
    let mut d = doc(vec![section(vec![p])]);
    d.track_changes.push(TrackChangeRec {
        id: 7,
        kind: TrackKind::Delete,
        author: "Kim \"K\"\n".to_string(),
        date: "2026-01-02".to_string(),
    });
    d.next_track_id = 8;
    let json = build_track_sidecar(&d).unwrap();
    assert_eq!(
        json,
        "{\"v\":1,\"next\":8,\"changes\":[{\"id\":7,\"kind\":\"delete\",\"author\":\"Kim \\\"K\\\"\\n\",\"date\":\"2026-01-02\"}],\"marks\":[{\"sec\":0,\"para\":0,\"start\":1,\"end\":3,\"tc\":7}]}"
    );
}

#[test]
fn sidecar_escapes_control_characters() {
    let mut d = doc(vec![section(vec![para("x")])]);
    d.track_changes.push(TrackChangeRec {
        id: 1,
        kind: TrackKind::Insert,
        author: "a\u{1}b\\".to_string(),
        date: String::new(),
    });
    let json = build_track_sidecar(&d).unwrap();
    assert!(json.contains("\"author\":\"a\\u0001b\\\\\""));
    assert!(json.contains("\"kind\":\"insert\""));
}

#[test]
fn sidecar_roundtrips_into_a_clean_document() {
    let mut cell_para = para("xy");
    cell_para.track_marks.push(TrackMark { start_pos: 1, end_pos: 2, tc_id: 2 });
    let table = Table {
        page_break: TablePageBreak::CellBreak,
        common: CommonObjAttr::default(),
        outer_margin_left: 0,
        outer_margin_right: 0,
        outer_margin_top: 0,
        outer_margin_bottom: 0,
        padding: NO_PADDING,
        zones: vec![],
        cells: vec![cell(cell_para)],
        caption: None,
    };
    let mut host = para("hello");
    host.controls.push(Control::Table(Box::new(table)));
    host.track_marks.push(TrackMark { start_pos: 0, end_pos: 5, tc_id: 1 });
    let mut d = doc(vec![section(vec![para("first"), host])]);
    d.track_changes.push(TrackChangeRec {
        id: 1,
        kind: TrackKind::Insert,
        author: "Lee".to_string(),
        date: "2026".to_string(),
    });
    d.track_changes.push(TrackChangeRec {
        id: 2,
        kind: TrackKind::Delete,
        author: "Park \"P\"".to_string(),
        date: "2027".to_string(),
    });
    let json = build_track_sidecar(&d).unwrap();

    // a copy of the document without its tracking state
    let mut cell_copy = para("xy");
    cell_copy.track_marks.clear();
    let table_copy = Table {
        page_break: TablePageBreak::CellBreak,
        common: CommonObjAttr::default(),
        outer_margin_left: 0,
        outer_margin_right: 0,
        outer_margin_top: 0,
        outer_margin_bottom: 0,
        padding: NO_PADDING,
        zones: vec![],
        cells: vec![cell(cell_copy)],
        caption: None,
    };
    let mut host_copy = para("hello");
    host_copy.controls.push(Control::Table(Box::new(table_copy)));
    let mut fresh = doc(vec![section(vec![para("first"), host_copy])]);

    restore_track_sidecar(&mut fresh, &json);
    assert_eq!(fresh.track_changes.len(), 2);
    assert_eq!(fresh.track_changes[0].id, 1);
    assert_eq!(fresh.track_changes[0].kind, TrackKind::Insert);
    assert_eq!(fresh.track_changes[0].author, "Lee");
    assert_eq!(fresh.track_changes[1].kind, TrackKind::Delete);
    assert_eq!(fresh.track_changes[1].author, "Park \"P\"");
    assert_eq!(fresh.track_changes[1].date, "2027");
    assert_eq!(fresh.next_track_id, 3);
    let host_marks = &fresh.sections[0].paragraphs[1].track_marks;
    assert_eq!(host_marks, &vec![TrackMark { start_pos: 0, end_pos: 5, tc_id: 1 }]);
    let Control::Table(t) = &fresh.sections[0].paragraphs[1].controls[0] else {
        panic!("table expected")
    };
    assert_eq!(
        t.cells[0].paragraphs[0].track_marks,
        vec![TrackMark { start_pos: 1, end_pos: 2, tc_id: 2 }]
    );
    assert!(fresh.sections[0].paragraphs[0].track_marks.is_empty());
}

#[test]
fn restore_skips_incomplete_and_dangling_entries() {
    let mut d = doc(vec![section(vec![para("ab")])]);
    d.next_track_id = 10;
    let json = "{\"v\":1,\"changes\":[{\"id\":3,\"kind\":\"insert\",\"author\":\"a\"},{\"id\":4,\"kind\":\"other\",\"author\":\"b\",\"date\":\"d\"}],\"marks\":[{\"sec\":5,\"para\":0,\"start\":0,\"end\":1,\"tc\":4},{\"sec\":0,\"para\":0,\"start\":1,\"end\":9,\"tc\":4}]}";
    restore_track_sidecar(&mut d, json);
    // the first record lacks a date and is skipped; an unknown kind reads as an insertion
    assert_eq!(d.track_changes.len(), 1);
    assert_eq!(d.track_changes[0].id, 4);
    assert_eq!(d.track_changes[0].kind, TrackKind::Insert);
    // next id stays above the restored ones
    assert_eq!(d.next_track_id, 10);
    // an index past the text maps past the last character
    assert_eq!(
        d.sections[0].paragraphs[0].track_marks,
        vec![TrackMark { start_pos: 1, end_pos: 2, tc_id: 4 }]
    );
}

#[test]
fn diff_of_identical_documents_is_empty() {
    let mut p = para("abc");
    p.line_segs.push(seg(0));
    let a = doc(vec![section(vec![p])]);
    let mut q = para("abc");
    q.line_segs.push(seg(0));
    let b = doc(vec![section(vec![q])]);
    let diff = diff_documents(&a, &b);
    assert!(diff.is_empty());
    assert!(diff.allowed(IrDiffAllow { shape_raw: false }));
    assert!(diff_linesegs(&a, &b).is_empty());
}

#[test]
fn diff_reports_section_and_paragraph_counts() {
    let a = doc(vec![section(vec![para("a"), para("b")]), section(vec![])]);
    let b = doc(vec![section(vec![para("a")])]);
    let diff = diff_documents(&a, &b);
    assert!(!diff.is_empty());
    let texts: Vec<String> = diff.differences.iter().map(|d| d.to_string()).collect();
    assert_eq!(texts[0], "section count: expected=2 actual=1");
    assert!(texts.iter().any(|t| t == "section[0] paragraph count: expected=2 actual=1"));
}

#[test]
fn diff_reports_lineseg_values() {
    let mut p = para("abc");
    p.line_segs.push(seg(0));
    let a = doc(vec![section(vec![p])]);
    let mut q = para("abc");
    q.line_segs.push(seg(1600));
    let b = doc(vec![section(vec![q])]);
    let ls = diff_linesegs(&a, &b);
    assert_eq!(ls.len(), 1);
    assert_eq!(ls[0].kind.to_string(), "[0].vertpos: expected=0 actual=1600");
    let diff = diff_documents(&a, &b);
    assert!(diff
        .differences
        .iter()
        .any(|d| matches!(d, IrDifference::ParagraphLinesegs { .. })));
}

#[test]
fn ir_diff_push_appends() {
    let mut diff = diff_documents(&doc(vec![]), &doc(vec![]));
    assert!(diff.is_empty());
    diff.push(IrDifference::StyleCount { expected: 1, actual: 2 });
    assert_eq!(diff.differences.len(), 1);
    assert_eq!(diff.differences[0].to_string(), "styles count: expected=1 actual=2");
}

#[test]
fn sidecar_keeps_utf16_positions_around_wide_characters() {
    let mut src = para("a\u{1F600}b");
    src.track_marks.push(TrackMark { start_pos: 1, end_pos: 3, tc_id: 7 });
    src.track_marks.push(TrackMark { start_pos: 3, end_pos: 4, tc_id: 8 });
    let d = doc(vec![section(vec![src])]);
    let json = build_track_sidecar(&d).unwrap();
    assert!(json.contains("\"start\":1,\"end\":2,\"tc\":7"));
    assert!(json.contains("\"start\":2,\"end\":3,\"tc\":8"));
    let mut fresh = doc(vec![section(vec![para("a\u{1F600}b")])]);
    restore_track_sidecar(&mut fresh, &json);
    assert_eq!(
        fresh.sections[0].paragraphs[0].track_marks,
        vec![
            TrackMark { start_pos: 1, end_pos: 3, tc_id: 7 },
            TrackMark { start_pos: 3, end_pos: 4, tc_id: 8 },
        ]
    );
}

#[test]
fn sidecar_moves_a_position_inside_a_character_to_its_end() {
    let mut src = para("a\u{1F600}b");
    src.track_marks.push(TrackMark { start_pos: 2, end_pos: 4, tc_id: 9 });
    let d = doc(vec![section(vec![src])]);
    let json = build_track_sidecar(&d).unwrap();
    let mut fresh = doc(vec![section(vec![para("a\u{1F600}b")])]);
    restore_track_sidecar(&mut fresh, &json);
    assert_eq!(
        fresh.sections[0].paragraphs[0].track_marks,
        vec![TrackMark { start_pos: 3, end_pos: 4, tc_id: 9 }]
    );
}

#[test]
fn sidecar_carries_marks_that_sit_only_in_table_cells() {
    let mut cell_para = para("xy");
    cell_para.track_marks.push(TrackMark { start_pos: 1, end_pos: 2, tc_id: 4 });
    let table = Table {
        page_break: TablePageBreak::CellBreak,
        common: CommonObjAttr::default(),
        outer_margin_left: 0,
        outer_margin_right: 0,
        outer_margin_top: 0,
        outer_margin_bottom: 0,
        padding: NO_PADDING,
        zones: vec![],
        cells: vec![cell(cell_para)],
        caption: None,
    };
    let mut host = para("hello");
    host.controls.push(Control::Table(Box::new(table)));
    let d = doc(vec![section(vec![host])]);
    assert_eq!(
        build_track_sidecar(&d),
        Some(
            "{\"v\":1,\"next\":0,\"changes\":[],\"marks\":[{\"sec\":0,\"para\":0,\"start\":1,\"end\":2,\"tc\":4,\"ci\":0,\"cei\":0,\"cpi\":0}]}"
                .to_string()
        )
    );
}

#[test]
fn lineseg_differences_come_after_all_others() {
    let mut p = para("abc");
    p.line_segs.push(seg(0));
    let a = doc(vec![section(vec![p]), section(vec![])]);
    let mut q = para("abc");
    q.line_segs.push(seg(1600));
    q.char_shapes.push(CharShapeRef { start_pos: 0, char_shape_id: 3 });
    let mut b = doc(vec![section(vec![q])]);
    b.doc_info.styles = 2;
    let diff = diff_documents(&a, &b);
    let n = diff.differences.len();
    assert!(n >= 4);
    assert!(matches!(diff.differences[0], IrDifference::SectionCount { expected: 2, actual: 1 }));
    assert!(matches!(diff.differences[n - 1], IrDifference::ParagraphLinesegs { .. }));
    assert!(diff.differences[..n - 1]
        .iter()
        .all(|d| !matches!(d, IrDifference::ParagraphLinesegs { .. })));
    assert!(matches!(diff.differences[n - 2], IrDifference::StyleCount { expected: 1, actual: 2 }));
}
