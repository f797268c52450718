//! Laws of the round-trip IR diff: a document compared with itself, where
//! each kind of difference comes from, and the order in which they come.

use crate::model::control::{Cell, Control, Table};
use crate::model::document::{Document, Section, SectionDef};
use crate::model::image::Picture;
use crate::model::page::PageDef;
use crate::model::paragraph::{LineSeg, Paragraph};
use crate::model::shape::{Caption, ShapeObject};
use crate::serializer::hwpx::roundtrip::{
    caption_detail, caption_parts, cs_cells, cs_children, cs_control_pair, cs_controls, cs_own,
    cs_paragraph, cs_paras, slot_names, cs_picture, cs_shape, cs_table, cs_top, document_diffs, field_entries,
    lemma_shape_parts_smaller, ls_captions, ls_cells, ls_children, ls_control_pair, ls_controls, ls_count,
    ls_document, ls_paragraph, ls_paras, ls_sections, ls_segs, ls_shape, ls_top, min_len, page_def_parts,
    picture_size_parts, resource_diffs, section_diffs, sections_diffs, seg_fields, shape_caption,
    shape_common, shape_text_box, object_comment_detail, joined_detail, flag_detail, table_attr_entries,
    visibility_parts, num_part, bool_part, entry, ls_kind_text, LsKind, lineseg_as_diff, count_entry, Diff, DiffKind, LsDiff, CountKind,
};
use crate::text::{decimal, idx_seg, join_seq};
use vstd::prelude::*;

verus! {

proof fn lemma_ls_segs_same(sec: usize, para: usize, path: Seq<char>, l: Seq<LineSeg>, n: int)
    ensures
        ls_segs(sec, para, path, l, l, n) == Seq::<LsDiff>::empty(),
    decreases n,
{
    if 0 < n <= l.len() {
        lemma_ls_segs_same(sec, para, path, l, n - 1);
        let s = l[n - 1];
        assert(seg_fields(sec, para, path, (n - 1) as usize, s, s) =~= Seq::<LsDiff>::empty());
        assert(ls_segs(sec, para, path, l, l, n) =~= Seq::<LsDiff>::empty());
    }
}

proof fn lemma_ls_paragraph_same(sec: usize, para: usize, path: Seq<char>, p: Paragraph)
    ensures
        ls_paragraph(sec, para, path, p, p) == Seq::<LsDiff>::empty(),
    decreases p, 0int,
{
    let l = p.line_segs@;
    lemma_ls_segs_same(sec, para, path, l, min_len(l.len(), l.len()));
    lemma_ls_controls_same(sec, para, path, p.controls@, min_len(p.controls@.len(), p.controls@.len()));
    assert(ls_count(sec, para, path, l, l) =~= Seq::<LsDiff>::empty());
    assert(ls_paragraph(sec, para, path, p, p) =~= Seq::<LsDiff>::empty());
}

proof fn lemma_ls_controls_same(sec: usize, para: usize, path: Seq<char>, c: Seq<Control>, n: int)
    ensures
        ls_controls(sec, para, path, c, c, n) == Seq::<LsDiff>::empty(),
    decreases c, n,
{
    if 0 < n <= c.len() {
        lemma_ls_controls_same(sec, para, path, c, n - 1);
        lemma_ls_control_pair_same(sec, para, path, (n - 1) as nat, c[n - 1]);
        assert(ls_controls(sec, para, path, c, c, n) =~= Seq::<LsDiff>::empty());
    }
}

proof fn lemma_ls_paras_same(sec: usize, para: usize, base: Seq<char>, ps: Seq<Paragraph>, k: int)
    ensures
        ls_paras(sec, para, base, ps, ps, k) == Seq::<LsDiff>::empty(),
    decreases ps, k,
{
    if 0 < k <= ps.len() {
        lemma_ls_paras_same(sec, para, base, ps, k - 1);
        lemma_ls_paragraph_same(sec, para, idx_seg(base, (k - 1) as nat), ps[k - 1]);
        assert(ls_paras(sec, para, base, ps, ps, k) =~= Seq::<LsDiff>::empty());
    }
}

proof fn lemma_ls_cells_same(sec: usize, para: usize, base: Seq<char>, cs: Seq<Cell>, m: int)
    ensures
        ls_cells(sec, para, base, cs, cs, m) == Seq::<LsDiff>::empty(),
    decreases cs, m,
{
    if 0 < m <= cs.len() {
        lemma_ls_cells_same(sec, para, base, cs, m - 1);
        let ps = cs[m - 1].paragraphs@;
        lemma_ls_paras_same(sec, para, idx_seg(base, (m - 1) as nat) + ".p"@, ps, min_len(ps.len(), ps.len()));
        assert(ls_cells(sec, para, base, cs, cs, m) =~= Seq::<LsDiff>::empty());
    }
}

proof fn lemma_ls_captions_same(sec: usize, para: usize, base: Seq<char>, a: Option<Caption>)
    ensures
        ls_captions(sec, para, base, a, a) == Seq::<LsDiff>::empty(),
    decreases a, 0int,
{
    if let Some(x) = a {
        let ps = x.paragraphs@;
        lemma_ls_paras_same(sec, para, base, ps, min_len(ps.len(), ps.len()));
    }
}

proof fn lemma_ls_control_pair_same(sec: usize, para: usize, path: Seq<char>, ci: nat, a: Control)
    ensures
        ls_control_pair(sec, para, path, ci, a, a) == Seq::<LsDiff>::empty(),
    decreases a, 0int,
{
    let base = path + idx_seg("/ctrl"@, ci);
    match a {
        Control::Table(t) => {
            lemma_ls_cells_same(sec, para, base + "tbl.cell"@, t.cells@, min_len(t.cells@.len(), t.cells@.len()));
            lemma_ls_captions_same(sec, para, base + "tbl.caption.p"@, t.caption);
            assert(ls_control_pair(sec, para, path, ci, a, a) =~= Seq::<LsDiff>::empty());
        },
        Control::Picture(p) => {
            lemma_ls_captions_same(sec, para, base + "pic.caption.p"@, p.caption);
        },
        Control::Shape(s) => {
            lemma_ls_shape_same(sec, para, base + "shape"@, *s);
        },
        Control::Footnote(n) => {
            let ps = n.paragraphs@;
            lemma_ls_paras_same(sec, para, base + "fn.p"@, ps, min_len(ps.len(), ps.len()));
        },
        Control::Endnote(n) => {
            let ps = n.paragraphs@;
            lemma_ls_paras_same(sec, para, base + "en.p"@, ps, min_len(ps.len(), ps.len()));
        },
        Control::Field(f) => {
            let ps = f.memo_paragraphs@;
            lemma_ls_paras_same(sec, para, base + "field.memo.p"@, ps, min_len(ps.len(), ps.len()));
        },
        _ => {},
    }
}

proof fn lemma_ls_shape_same(sec: usize, para: usize, path: Seq<char>, s: ShapeObject)
    ensures
        ls_shape(sec, para, path, s, s) == Seq::<LsDiff>::empty(),
    decreases s, 0int,
{
    lemma_shape_parts_smaller(s);
    if let Some(x) = shape_text_box(s) {
        let ps = x.paragraphs@;
        lemma_ls_paras_same(sec, para, path + ".tb.p"@, ps, min_len(ps.len(), ps.len()));
    }
    if let Some(x) = shape_caption(s) {
        let ps = x.paragraphs@;
        lemma_ls_paras_same(sec, para, path + ".caption.p"@, ps, min_len(ps.len(), ps.len()));
    }
    if let ShapeObject::Group(g) = s {
        let cs = g.children@;
        lemma_ls_children_same(sec, para, path + ".child"@, cs, min_len(cs.len(), cs.len()));
    }
    assert(ls_shape(sec, para, path, s, s) =~= Seq::<LsDiff>::empty());
}

proof fn lemma_ls_children_same(sec: usize, para: usize, base: Seq<char>, cs: Seq<ShapeObject>, m: int)
    ensures
        ls_children(sec, para, base, cs, cs, m) == Seq::<LsDiff>::empty(),
    decreases cs, m,
{
    if 0 < m <= cs.len() {
        lemma_ls_children_same(sec, para, base, cs, m - 1);
        lemma_ls_shape_same(sec, para, idx_seg(base, (m - 1) as nat), cs[m - 1]);
        assert(ls_children(sec, para, base, cs, cs, m) =~= Seq::<LsDiff>::empty());
    }
}

proof fn lemma_ls_top_same(i: usize, ps: Seq<Paragraph>, m: int)
    ensures
        ls_top(i, ps, ps, m) == Seq::<LsDiff>::empty(),
    decreases m,
{
    if 0 < m <= ps.len() {
        lemma_ls_top_same(i, ps, m - 1);
        lemma_ls_paragraph_same(i, (m - 1) as usize, ""@, ps[m - 1]);
        assert(ls_top(i, ps, ps, m) =~= Seq::<LsDiff>::empty());
    }
}

proof fn lemma_ls_sections_same(ss: Seq<Section>, n: int)
    ensures
        ls_sections(ss, ss, n) == Seq::<LsDiff>::empty(),
    decreases n,
{
    if 0 < n <= ss.len() {
        lemma_ls_sections_same(ss, n - 1);
        let ps = ss[n - 1].paragraphs@;
        lemma_ls_top_same((n - 1) as usize, ps, min_len(ps.len(), ps.len()));
        assert(ls_sections(ss, ss, n) =~= Seq::<LsDiff>::empty());
    }
}

/// A document compared with itself has no line-segment mismatch.
pub proof fn law_linesegs_of_a_document_with_itself(a: Document)
    ensures
        ls_document(a, a) == Seq::<LsDiff>::empty(),
{
    lemma_ls_sections_same(a.sections@, min_len(a.sections@.len(), a.sections@.len()));
}


proof fn lemma_caption_same(c: Option<Caption>)
    ensures
        caption_detail(c, c) is None,
{
    if let Some(x) = c {
        assert(caption_parts(x, x) =~= Seq::<Seq<char>>::empty());
    }
}

proof fn lemma_cs_paragraph_same(sec: usize, para: usize, path: Seq<char>, p: Paragraph)
    ensures
        cs_paragraph(sec, para, path, p, p) == Seq::<Diff>::empty(),
    decreases p, 0int,
{
    assert(cs_own(sec, para, path, p, p) =~= Seq::<Diff>::empty());
    lemma_cs_controls_same(sec, para, path, p.controls@, min_len(p.controls@.len(), p.controls@.len()));
    assert(cs_paragraph(sec, para, path, p, p) =~= Seq::<Diff>::empty());
}

proof fn lemma_cs_controls_same(sec: usize, para: usize, path: Seq<char>, c: Seq<Control>, n: int)
    ensures
        cs_controls(sec, para, path, c, c, n) == Seq::<Diff>::empty(),
    decreases c, n,
{
    if 0 < n <= c.len() {
        lemma_cs_controls_same(sec, para, path, c, n - 1);
        lemma_cs_control_pair_same(sec, para, path, (n - 1) as nat, c[n - 1]);
        assert(cs_controls(sec, para, path, c, c, n) =~= Seq::<Diff>::empty());
    }
}

proof fn lemma_cs_paras_same(sec: usize, para: usize, base: Seq<char>, ps: Seq<Paragraph>, k: int)
    ensures
        cs_paras(sec, para, base, ps, ps, k) == Seq::<Diff>::empty(),
    decreases ps, k,
{
    if 0 < k <= ps.len() {
        lemma_cs_paras_same(sec, para, base, ps, k - 1);
        lemma_cs_paragraph_same(sec, para, idx_seg(base, (k - 1) as nat), ps[k - 1]);
        assert(cs_paras(sec, para, base, ps, ps, k) =~= Seq::<Diff>::empty());
    }
}

proof fn lemma_cs_cells_same(sec: usize, para: usize, base: Seq<char>, cs: Seq<Cell>, m: int)
    ensures
        cs_cells(sec, para, base, cs, cs, m) == Seq::<Diff>::empty(),
    decreases cs, m,
{
    if 0 < m <= cs.len() {
        lemma_cs_cells_same(sec, para, base, cs, m - 1);
        let ps = cs[m - 1].paragraphs@;
        lemma_cs_paras_same(sec, para, idx_seg(base, (m - 1) as nat) + ".p"@, ps, min_len(ps.len(), ps.len()));
        assert(cs_cells(sec, para, base, cs, cs, m) =~= Seq::<Diff>::empty());
    }
}

proof fn lemma_cs_table_same(sec: usize, para: usize, base: Seq<char>, t: Table)
    ensures
        cs_table(sec, para, base, t, t) == Seq::<Diff>::empty(),
    decreases t, 0int,
{
    assert(table_attr_entries(sec, para, base + "tbl"@, t, t) =~= Seq::<Diff>::empty());
    lemma_cs_cells_same(sec, para, base + "tbl.cell"@, t.cells@, min_len(t.cells@.len(), t.cells@.len()));
    lemma_caption_same(t.caption);
    if let Some(x) = t.caption {
        let ps = x.paragraphs@;
        lemma_cs_paras_same(sec, para, base + "tbl.caption.p"@, ps, min_len(ps.len(), ps.len()));
    }
    assert(cs_table(sec, para, base, t, t) =~= Seq::<Diff>::empty());
}

proof fn lemma_cs_picture_same(sec: usize, para: usize, base: Seq<char>, p: Picture)
    ensures
        cs_picture(sec, para, base, p, p) == Seq::<Diff>::empty(),
    decreases p, 0int,
{
    assert(picture_size_parts(p, p) =~= Seq::<Seq<char>>::empty());
    lemma_caption_same(p.caption);
    if let Some(x) = p.caption {
        let ps = x.paragraphs@;
        lemma_cs_paras_same(sec, para, base + "pic.caption.p"@, ps, min_len(ps.len(), ps.len()));
    }
    assert(cs_picture(sec, para, base, p, p) =~= Seq::<Diff>::empty());
}

proof fn lemma_cs_control_pair_same(sec: usize, para: usize, path: Seq<char>, ci: nat, a: Control)
    ensures
        cs_control_pair(sec, para, path, ci, a, a) == Seq::<Diff>::empty(),
    decreases a, 0int,
{
    let base = path + idx_seg("/ctrl"@, ci);
    match a {
        Control::Table(t) => {
            lemma_cs_table_same(sec, para, base, *t);
        },
        Control::Picture(p) => {
            lemma_cs_picture_same(sec, para, base, *p);
        },
        Control::Equation(e) => {
            assert(cs_control_pair(sec, para, path, ci, a, a) =~= Seq::<Diff>::empty());
        },
        Control::Shape(s) => {
            lemma_cs_shape_same(sec, para, base + "shape"@, *s);
        },
        Control::Footnote(n) => {
            let ps = n.paragraphs@;
            lemma_cs_paras_same(sec, para, base + "fn.p"@, ps, min_len(ps.len(), ps.len()));
        },
        Control::Endnote(n) => {
            let ps = n.paragraphs@;
            lemma_cs_paras_same(sec, para, base + "en.p"@, ps, min_len(ps.len(), ps.len()));
        },
        Control::Field(f) => {
            let ps = f.memo_paragraphs@;
            assert(field_entries(sec, para, base + "field"@, *f, *f) =~= Seq::<Diff>::empty());
            lemma_cs_paras_same(sec, para, base + "field.memo.p"@, ps, min_len(ps.len(), ps.len()));
            assert(cs_control_pair(sec, para, path, ci, a, a) =~= Seq::<Diff>::empty());
        },
        _ => {},
    }
}

proof fn lemma_cs_shape_same(sec: usize, para: usize, path: Seq<char>, s: ShapeObject)
    ensures
        cs_shape(sec, para, path, s, s) == Seq::<Diff>::empty(),
    decreases s, 0int,
{
    lemma_shape_parts_smaller(s);
    if let Some(x) = shape_text_box(s) {
        let ps = x.paragraphs@;
        lemma_cs_paras_same(sec, para, path + ".tb.p"@, ps, min_len(ps.len(), ps.len()));
    }
    lemma_caption_same(shape_caption(s));
    if let Some(x) = shape_caption(s) {
        let ps = x.paragraphs@;
        lemma_cs_paras_same(sec, para, path + ".caption.p"@, ps, min_len(ps.len(), ps.len()));
    }
    if let ShapeObject::Group(g) = s {
        let cs = g.children@;
        lemma_cs_children_same(sec, para, path + ".child"@, cs, min_len(cs.len(), cs.len()));
    }
    assert(cs_shape(sec, para, path, s, s) =~= Seq::<Diff>::empty());
}

proof fn lemma_cs_children_same(sec: usize, para: usize, base: Seq<char>, cs: Seq<ShapeObject>, m: int)
    ensures
        cs_children(sec, para, base, cs, cs, m) == Seq::<Diff>::empty(),
    decreases cs, m,
{
    if 0 < m <= cs.len() {
        lemma_cs_children_same(sec, para, base, cs, m - 1);
        lemma_cs_shape_same(sec, para, idx_seg(base, (m - 1) as nat), cs[m - 1]);
        assert(cs_children(sec, para, base, cs, cs, m) =~= Seq::<Diff>::empty());
    }
}

proof fn lemma_cs_top_same(i: usize, ps: Seq<Paragraph>, m: int)
    ensures
        cs_top(i, ps, ps, m) == Seq::<Diff>::empty(),
    decreases m,
{
    if 0 < m <= ps.len() {
        lemma_cs_top_same(i, ps, m - 1);
        lemma_cs_paragraph_same(i, (m - 1) as usize, ""@, ps[m - 1]);
        assert(cs_top(i, ps, ps, m) =~= Seq::<Diff>::empty());
    }
}

proof fn lemma_sections_diffs_same(ss: Seq<Section>, n: int)
    ensures
        sections_diffs(ss, ss, n) == Seq::<Diff>::empty(),
    decreases n,
{
    if 0 < n <= ss.len() {
        lemma_sections_diffs_same(ss, n - 1);
        let sc = ss[n - 1];
        let ps = sc.paragraphs@;
        assert(page_def_parts(sc.section_def.page_def, sc.section_def.page_def) =~= Seq::<Seq<char>>::empty());
        assert(visibility_parts(sc.section_def, sc.section_def) =~= Seq::<Seq<char>>::empty());
        lemma_cs_top_same((n - 1) as usize, ps, min_len(ps.len(), ps.len()));
        assert(section_diffs((n - 1) as usize, sc, sc) =~= Seq::<Diff>::empty());
        assert(sections_diffs(ss, ss, n) =~= Seq::<Diff>::empty());
    }
}

/// A document compared with itself has no difference at all.
pub proof fn law_document_with_itself_has_no_difference(a: Document)
    ensures
        document_diffs(a, a) == Seq::<Diff>::empty(),
{
    reveal(document_diffs);
    lemma_sections_diffs_same(a.sections@, min_len(a.sections@.len(), a.sections@.len()));
    law_linesegs_of_a_document_with_itself(a);
    assert(resource_diffs(a, a) =~= Seq::<Diff>::empty());
    assert(document_diffs(a, a) =~= Seq::<Diff>::empty());
}


// ---------------------------------------------------------------------------
// Where each kind of difference comes from.

/// A difference found inside a paragraph pair: character shapes, the
/// control sequence, field content, or an object attribute.
pub open spec fn is_nested(d: Diff) -> bool {
    ||| d is ParagraphCharShapes
    ||| d is ParagraphControls
    ||| d is FieldContent
    ||| d is TableCaption
    ||| d is ObjectCaption
    ||| d is ObjectComment
    ||| d is PictureSize
    ||| d is TablePageBreak
    ||| d is ObjectHoldAnchor
    ||| d is ObjectFlowWithText
}

/// Every difference of the list was found inside a paragraph pair.
pub open spec fn all_nested(s: Seq<Diff>) -> bool {
    forall|i: int| 0 <= i < s.len() ==> is_nested(#[trigger] s[i])
}

proof fn lemma_nested_concat(a: Seq<Diff>, b: Seq<Diff>)
    requires
        all_nested(a),
        all_nested(b),
    ensures
        all_nested(a + b),
{
    assert forall|i: int| 0 <= i < (a + b).len() implies is_nested(#[trigger] (a + b)[i]) by {
        if i < a.len() {
            assert((a + b)[i] == a[i]);
        } else {
            assert((a + b)[i] == b[i - a.len()]);
        }
    }
}

proof fn lemma_entry_nested(kind: DiffKind, sec: usize, para: usize, path: Seq<char>, detail: Option<Seq<char>>)
    ensures
        all_nested(entry(kind, sec, para, path, detail)),
{
}

proof fn lemma_cs_paragraph_nested(sec: usize, para: usize, path: Seq<char>, pa: Paragraph, pb: Paragraph)
    ensures
        all_nested(cs_paragraph(sec, para, path, pa, pb)),
    decreases pa, 0int,
{
    let own = cs_own(sec, para, path, pa, pb);
    assert(all_nested(own));
    let n = min_len(pa.controls@.len(), pb.controls@.len());
    lemma_cs_controls_nested(sec, para, path, pa.controls@, pb.controls@, n);
    lemma_nested_concat(own, cs_controls(sec, para, path, pa.controls@, pb.controls@, n));
}

proof fn lemma_cs_controls_nested(sec: usize, para: usize, path: Seq<char>, ca: Seq<Control>, cb: Seq<Control>, n: int)
    ensures
        all_nested(cs_controls(sec, para, path, ca, cb, n)),
    decreases ca, n,
{
    if 0 < n <= ca.len() && n <= cb.len() {
        lemma_cs_controls_nested(sec, para, path, ca, cb, n - 1);
        lemma_cs_control_pair_nested(sec, para, path, (n - 1) as nat, ca[n - 1], cb[n - 1]);
        lemma_nested_concat(
            cs_controls(sec, para, path, ca, cb, n - 1),
            cs_control_pair(sec, para, path, (n - 1) as nat, ca[n - 1], cb[n - 1]),
        );
    }
}

proof fn lemma_cs_paras_nested(sec: usize, para: usize, base: Seq<char>, pa: Seq<Paragraph>, pb: Seq<Paragraph>, k: int)
    ensures
        all_nested(cs_paras(sec, para, base, pa, pb, k)),
    decreases pa, k,
{
    if 0 < k <= pa.len() && k <= pb.len() {
        lemma_cs_paras_nested(sec, para, base, pa, pb, k - 1);
        lemma_cs_paragraph_nested(sec, para, idx_seg(base, (k - 1) as nat), pa[k - 1], pb[k - 1]);
        lemma_nested_concat(
            cs_paras(sec, para, base, pa, pb, k - 1),
            cs_paragraph(sec, para, idx_seg(base, (k - 1) as nat), pa[k - 1], pb[k - 1]),
        );
    }
}

proof fn lemma_cs_cells_nested(sec: usize, para: usize, base: Seq<char>, ca: Seq<Cell>, cb: Seq<Cell>, m: int)
    ensures
        all_nested(cs_cells(sec, para, base, ca, cb, m)),
    decreases ca, m,
{
    if 0 < m <= ca.len() && m <= cb.len() {
        lemma_cs_cells_nested(sec, para, base, ca, cb, m - 1);
        let pa = ca[m - 1].paragraphs@;
        let pb = cb[m - 1].paragraphs@;
        let b2 = idx_seg(base, (m - 1) as nat) + ".p"@;
        lemma_cs_paras_nested(sec, para, b2, pa, pb, min_len(pa.len(), pb.len()));
        lemma_nested_concat(
            cs_cells(sec, para, base, ca, cb, m - 1),
            cs_paras(sec, para, b2, pa, pb, min_len(pa.len(), pb.len())),
        );
    }
}

proof fn lemma_cs_table_nested(sec: usize, para: usize, base: Seq<char>, ta: Table, tb: Table)
    ensures
        all_nested(cs_table(sec, para, base, ta, tb)),
    decreases ta, 0int,
{
    let attrs = table_attr_entries(sec, para, base + "tbl"@, ta, tb);
    assert(all_nested(attrs));
    let n = min_len(ta.cells@.len(), tb.cells@.len());
    lemma_cs_cells_nested(sec, para, base + "tbl.cell"@, ta.cells@, tb.cells@, n);
    let cells = cs_cells(sec, para, base + "tbl.cell"@, ta.cells@, tb.cells@, n);
    let cap = entry(DiffKind::TableCaption, sec, para, base + "tbl.caption"@, caption_detail(ta.caption, tb.caption));
    let paras: Seq<Diff> = match (ta.caption, tb.caption) {
        (Some(x), Some(y)) => cs_paras(
            sec,
            para,
            base + "tbl.caption.p"@,
            x.paragraphs@,
            y.paragraphs@,
            min_len(x.paragraphs@.len(), y.paragraphs@.len()),
        ),
        _ => Seq::empty(),
    };
    if let (Some(x), Some(y)) = (ta.caption, tb.caption) {
        lemma_cs_paras_nested(
            sec,
            para,
            base + "tbl.caption.p"@,
            x.paragraphs@,
            y.paragraphs@,
            min_len(x.paragraphs@.len(), y.paragraphs@.len()),
        );
    }
    assert(all_nested(paras));
    assert(all_nested(cap));
    lemma_nested_concat(attrs, cells);
    lemma_nested_concat(attrs + cells, cap);
    lemma_nested_concat(attrs + cells + cap, paras);
    assert(cs_table(sec, para, base, ta, tb) == attrs + cells + cap + paras);
}

proof fn lemma_cs_picture_nested(sec: usize, para: usize, base: Seq<char>, pa: Picture, pb: Picture)
    ensures
        all_nested(cs_picture(sec, para, base, pa, pb)),
    decreases pa, 0int,
{
    let paras: Seq<Diff> = match (pa.caption, pb.caption) {
        (Some(x), Some(y)) => cs_paras(
            sec,
            para,
            base + "pic.caption.p"@,
            x.paragraphs@,
            y.paragraphs@,
            min_len(x.paragraphs@.len(), y.paragraphs@.len()),
        ),
        _ => Seq::empty(),
    };
    if let (Some(x), Some(y)) = (pa.caption, pb.caption) {
        lemma_cs_paras_nested(
            sec,
            para,
            base + "pic.caption.p"@,
            x.paragraphs@,
            y.paragraphs@,
            min_len(x.paragraphs@.len(), y.paragraphs@.len()),
        );
    }
    assert(all_nested(paras));
    let p = base + "pic"@;
    let e1 = entry(DiffKind::PictureSize, sec, para, p, joined_detail(picture_size_parts(pa, pb)));
    let e2 = entry(DiffKind::ObjectCaption, sec, para, base + "pic.caption"@, caption_detail(pa.caption, pb.caption));
    let e3 = entry(DiffKind::ObjectComment, sec, para, p, object_comment_detail(pa.common.description@, pb.common.description@));
    let e4 = entry(DiffKind::ObjectHoldAnchor, sec, para, p, flag_detail(pa.common.prevent_page_break, pb.common.prevent_page_break));
    lemma_entry_nested(DiffKind::PictureSize, sec, para, p, joined_detail(picture_size_parts(pa, pb)));
    lemma_entry_nested(DiffKind::ObjectCaption, sec, para, base + "pic.caption"@, caption_detail(pa.caption, pb.caption));
    lemma_entry_nested(DiffKind::ObjectComment, sec, para, p, object_comment_detail(pa.common.description@, pb.common.description@));
    lemma_entry_nested(DiffKind::ObjectHoldAnchor, sec, para, p, flag_detail(pa.common.prevent_page_break, pb.common.prevent_page_break));
    lemma_nested_concat(e1, e2);
    lemma_nested_concat(e1 + e2, e3);
    lemma_nested_concat(e1 + e2 + e3, e4);
    lemma_nested_concat(e1 + e2 + e3 + e4, paras);
    assert(cs_picture(sec, para, base, pa, pb) == e1 + e2 + e3 + e4 + paras);
}

proof fn lemma_cs_control_pair_nested(sec: usize, para: usize, path: Seq<char>, ci: nat, a: Control, b: Control)
    ensures
        all_nested(cs_control_pair(sec, para, path, ci, a, b)),
    decreases a, 0int,
{
    let base = path + idx_seg("/ctrl"@, ci);
    match (a, b) {
        (Control::Table(ta), Control::Table(tb)) => {
            lemma_cs_table_nested(sec, para, base, *ta, *tb);
        },
        (Control::Picture(pa), Control::Picture(pb)) => {
            lemma_cs_picture_nested(sec, para, base, *pa, *pb);
        },
        (Control::Equation(ea), Control::Equation(eb)) => {},
        (Control::Shape(sa), Control::Shape(sb)) => {
            lemma_cs_shape_nested(sec, para, base + "shape"@, *sa, *sb);
        },
        (Control::Footnote(na), Control::Footnote(nb)) => {
            lemma_cs_paras_nested(
                sec,
                para,
                base + "fn.p"@,
                na.paragraphs@,
                nb.paragraphs@,
                min_len(na.paragraphs@.len(), nb.paragraphs@.len()),
            );
        },
        (Control::Endnote(na), Control::Endnote(nb)) => {
            lemma_cs_paras_nested(
                sec,
                para,
                base + "en.p"@,
                na.paragraphs@,
                nb.paragraphs@,
                min_len(na.paragraphs@.len(), nb.paragraphs@.len()),
            );
        },
        (Control::Field(fa), Control::Field(fb)) => {
            let fe = field_entries(sec, para, base + "field"@, *fa, *fb);
            assert(all_nested(fe));
            let n = min_len(fa.memo_paragraphs@.len(), fb.memo_paragraphs@.len());
            lemma_cs_paras_nested(sec, para, base + "field.memo.p"@, fa.memo_paragraphs@, fb.memo_paragraphs@, n);
            lemma_nested_concat(
                fe,
                cs_paras(sec, para, base + "field.memo.p"@, fa.memo_paragraphs@, fb.memo_paragraphs@, n),
            );
        },
        _ => {},
    }
}

proof fn lemma_cs_shape_nested(sec: usize, para: usize, path: Seq<char>, sa: ShapeObject, sb: ShapeObject)
    ensures
        all_nested(cs_shape(sec, para, path, sa, sb)),
    decreases sa, 0int,
{
    lemma_shape_parts_smaller(sa);
    let tb: Seq<Diff> = match (shape_text_box(sa), shape_text_box(sb)) {
        (Some(x), Some(y)) => cs_paras(
            sec,
            para,
            path + ".tb.p"@,
            x.paragraphs@,
            y.paragraphs@,
            min_len(x.paragraphs@.len(), y.paragraphs@.len()),
        ),
        _ => Seq::empty(),
    };
    if let (Some(x), Some(y)) = (shape_text_box(sa), shape_text_box(sb)) {
        lemma_cs_paras_nested(sec, para, path + ".tb.p"@, x.paragraphs@, y.paragraphs@, min_len(x.paragraphs@.len(), y.paragraphs@.len()));
    }
    let cap_paras: Seq<Diff> = match (shape_caption(sa), shape_caption(sb)) {
        (Some(x), Some(y)) => cs_paras(
            sec,
            para,
            path + ".caption.p"@,
            x.paragraphs@,
            y.paragraphs@,
            min_len(x.paragraphs@.len(), y.paragraphs@.len()),
        ),
        _ => Seq::empty(),
    };
    if let (Some(x), Some(y)) = (shape_caption(sa), shape_caption(sb)) {
        lemma_cs_paras_nested(sec, para, path + ".caption.p"@, x.paragraphs@, y.paragraphs@, min_len(x.paragraphs@.len(), y.paragraphs@.len()));
    }
    let children: Seq<Diff> = match (sa, sb) {
        (ShapeObject::Group(ga), ShapeObject::Group(gb)) => cs_children(
            sec,
            para,
            path + ".child"@,
            ga.children@,
            gb.children@,
            min_len(ga.children@.len(), gb.children@.len()),
        ),
        _ => Seq::empty(),
    };
    if let (ShapeObject::Group(ga), ShapeObject::Group(gb)) = (sa, sb) {
        lemma_cs_children_nested(sec, para, path + ".child"@, ga.children@, gb.children@, min_len(ga.children@.len(), gb.children@.len()));
    }
    assert(all_nested(tb));
    assert(all_nested(cap_paras));
    assert(all_nested(children));
    let e1 = entry(DiffKind::ObjectCaption, sec, para, path + ".caption"@, caption_detail(shape_caption(sa), shape_caption(sb)));
    let e2 = entry(
        DiffKind::ObjectComment,
        sec,
        para,
        path,
        object_comment_detail(shape_common(sa).description@, shape_common(sb).description@),
    );
    lemma_entry_nested(DiffKind::ObjectCaption, sec, para, path + ".caption"@, caption_detail(shape_caption(sa), shape_caption(sb)));
    lemma_entry_nested(
        DiffKind::ObjectComment,
        sec,
        para,
        path,
        object_comment_detail(shape_common(sa).description@, shape_common(sb).description@),
    );
    lemma_nested_concat(tb, e1);
    lemma_nested_concat(tb + e1, cap_paras);
    lemma_nested_concat(tb + e1 + cap_paras, e2);
    lemma_nested_concat(tb + e1 + cap_paras + e2, children);
    assert(cs_shape(sec, para, path, sa, sb) == tb + e1 + cap_paras + e2 + children);
}

proof fn lemma_cs_children_nested(sec: usize, para: usize, base: Seq<char>, ca: Seq<ShapeObject>, cb: Seq<ShapeObject>, m: int)
    ensures
        all_nested(cs_children(sec, para, base, ca, cb, m)),
    decreases ca, m,
{
    if 0 < m <= ca.len() && m <= cb.len() {
        lemma_cs_children_nested(sec, para, base, ca, cb, m - 1);
        lemma_cs_shape_nested(sec, para, idx_seg(base, (m - 1) as nat), ca[m - 1], cb[m - 1]);
        lemma_nested_concat(
            cs_children(sec, para, base, ca, cb, m - 1),
            cs_shape(sec, para, idx_seg(base, (m - 1) as nat), ca[m - 1], cb[m - 1]),
        );
    }
}


// ---------------------------------------------------------------------------
// The layout of a document comparison.

/// A section-count difference.
pub open spec fn section_count_pred() -> spec_fn(Diff) -> bool {
    |d: Diff| d is SectionCount
}

/// A paragraph-count difference.
pub open spec fn paragraph_count_pred() -> spec_fn(Diff) -> bool {
    |d: Diff| d is ParagraphCount
}

/// A resource-table or binary-data count difference.
pub open spec fn resource_count_pred() -> spec_fn(Diff) -> bool {
    |d: Diff|
        d is CharShapeCount || d is ParaShapeCount || d is BorderFillCount || d is TabDefCount
            || d is NumberingCount || d is StyleCount || d is BinDataContentCount
}

/// A line-segment difference.
pub open spec fn lineseg_pred() -> spec_fn(Diff) -> bool {
    |d: Diff| d is ParagraphLinesegs
}

/// The paragraph-count differences of the first `n` section pairs: one for
/// each section whose paragraph counts differ.
pub open spec fn paragraph_counts(sa: Seq<Section>, sb: Seq<Section>, n: int) -> Seq<Diff>
    decreases n,
{
    if n <= 0 || n > sa.len() || n > sb.len() {
        Seq::empty()
    } else {
        let ap = sa[n - 1].paragraphs@.len() as usize;
        let bp = sb[n - 1].paragraphs@.len() as usize;
        paragraph_counts(sa, sb, n - 1) + if ap != bp {
            seq![Diff::ParagraphCount { section: (n - 1) as usize, expected: ap, actual: bp }]
        } else {
            Seq::<Diff>::empty()
        }
    }
}

proof fn lemma_filter_none(s: Seq<Diff>, pred: spec_fn(Diff) -> bool)
    requires
        forall|i: int| 0 <= i < s.len() ==> !pred(#[trigger] s[i]),
    ensures
        s.filter(pred) == Seq::<Diff>::empty(),
    decreases s.len(),
{
    reveal(Seq::filter);
    if s.len() > 0 {
        assert forall|i: int| 0 <= i < s.drop_last().len() implies !pred(#[trigger] s.drop_last()[i]) by {
            assert(s.drop_last()[i] == s[i]);
        }
        lemma_filter_none(s.drop_last(), pred);
        assert(!pred(s[s.len() - 1]));
    }
}

proof fn lemma_filter_all(s: Seq<Diff>, pred: spec_fn(Diff) -> bool)
    requires
        forall|i: int| 0 <= i < s.len() ==> pred(#[trigger] s[i]),
    ensures
        s.filter(pred) == s,
    decreases s.len(),
{
    reveal(Seq::filter);
    if s.len() > 0 {
        assert forall|i: int| 0 <= i < s.drop_last().len() implies pred(#[trigger] s.drop_last()[i]) by {
            assert(s.drop_last()[i] == s[i]);
        }
        lemma_filter_all(s.drop_last(), pred);
        assert(pred(s[s.len() - 1]));
        assert(s.drop_last().push(s.last()) =~= s);
    }
}

proof fn lemma_cs_top_nested(i: usize, pa: Seq<Paragraph>, pb: Seq<Paragraph>, m: int)
    ensures
        all_nested(cs_top(i, pa, pb, m)),
    decreases m,
{
    if 0 < m <= pa.len() && m <= pb.len() {
        lemma_cs_top_nested(i, pa, pb, m - 1);
        lemma_cs_paragraph_nested(i, (m - 1) as usize, ""@, pa[m - 1], pb[m - 1]);
        lemma_nested_concat(cs_top(i, pa, pb, m - 1), cs_paragraph(i, (m - 1) as usize, ""@, pa[m - 1], pb[m - 1]));
    }
}

/// A difference that a section pair gives: its paragraph count, page
/// geometry or visibility, or one found inside its paragraphs.
pub open spec fn is_section_level(d: Diff) -> bool {
    d is ParagraphCount || d is SectionPageDef || d is SectionVisibility || is_nested(d)
}

/// The paragraph-count difference of one section pair, if any.
pub open spec fn paragraph_count_of(i: usize, x: Section, y: Section) -> Seq<Diff> {
    let ap = x.paragraphs@.len() as usize;
    let bp = y.paragraphs@.len() as usize;
    if ap != bp {
        seq![Diff::ParagraphCount { section: i, expected: ap, actual: bp }]
    } else {
        Seq::<Diff>::empty()
    }
}

/// Every difference of the list is one a section pair gives.
pub open spec fn all_section_level(s: Seq<Diff>) -> bool {
    forall|k: int| 0 <= k < s.len() ==> is_section_level(#[trigger] s[k])
}

#[verifier::spinoff_prover]
proof fn lemma_section_diffs_parts(i: usize, x: Section, y: Section)
    ensures
        all_section_level(section_diffs(i, x, y)),
        section_diffs(i, x, y).filter(paragraph_count_pred()) == paragraph_count_of(i, x, y),
{
    let count = paragraph_count_of(i, x, y);
    let page: Seq<Diff> = match joined_detail(page_def_parts(x.section_def.page_def, y.section_def.page_def)) {
        Some(d) => seq![Diff::SectionPageDef { section: i, detail: d }],
        None => Seq::empty(),
    };
    let vis: Seq<Diff> = match joined_detail(visibility_parts(x.section_def, y.section_def)) {
        Some(d) => seq![Diff::SectionVisibility { section: i, detail: d }],
        None => Seq::empty(),
    };
    let m = min_len(x.paragraphs@.len(), y.paragraphs@.len());
    let top = cs_top(i, x.paragraphs@, y.paragraphs@, m);
    lemma_cs_top_nested(i, x.paragraphs@, y.paragraphs@, m);
    let sd = section_diffs(i, x, y);
    assert(sd == count + page + vis + top);
    assert forall|k: int| 0 <= k < sd.len() implies is_section_level(#[trigger] sd[k]) by {
        if k >= count.len() + page.len() + vis.len() {
            assert(sd[k] == top[k - count.len() - page.len() - vis.len()]);
        } else if k >= count.len() + page.len() {
            assert(sd[k] == vis[k - count.len() - page.len()]);
        } else if k >= count.len() {
            assert(sd[k] == page[k - count.len()]);
        } else {
            assert(sd[k] == count[k]);
        }
    }
    lemma_filter_all(count, paragraph_count_pred());
    lemma_filter_none(page, paragraph_count_pred());
    lemma_filter_none(vis, paragraph_count_pred());
    assert forall|k: int| 0 <= k < top.len() implies !paragraph_count_pred()(#[trigger] top[k]) by {
        assert(is_nested(top[k]));
    }
    lemma_filter_none(top, paragraph_count_pred());
    Seq::filter_distributes_over_add(count, page, paragraph_count_pred());
    Seq::filter_distributes_over_add(count + page, vis, paragraph_count_pred());
    Seq::filter_distributes_over_add(count + page + vis, top, paragraph_count_pred());
    assert(sd.filter(paragraph_count_pred()) =~= count);
}

proof fn lemma_section_level_concat(a: Seq<Diff>, b: Seq<Diff>)
    requires
        all_section_level(a),
        all_section_level(b),
    ensures
        all_section_level(a + b),
{
    assert forall|k: int| 0 <= k < (a + b).len() implies is_section_level(#[trigger] (a + b)[k]) by {
        if k < a.len() {
            assert((a + b)[k] == a[k]);
        } else {
            assert((a + b)[k] == b[k - a.len()]);
        }
    }
}

proof fn lemma_sections_diffs_step(sa: Seq<Section>, sb: Seq<Section>, n: int)
    requires
        0 < n <= sa.len(),
        n <= sb.len(),
    ensures
        sections_diffs(sa, sb, n) == sections_diffs(sa, sb, n - 1) + section_diffs((n - 1) as usize, sa[n - 1], sb[n - 1]),
        paragraph_counts(sa, sb, n) == paragraph_counts(sa, sb, n - 1) + paragraph_count_of(
            (n - 1) as usize,
            sa[n - 1],
            sb[n - 1],
        ),
{
}

proof fn lemma_sections_diffs_parts(sa: Seq<Section>, sb: Seq<Section>, n: int)
    ensures
        all_section_level(sections_diffs(sa, sb, n)),
        sections_diffs(sa, sb, n).filter(paragraph_count_pred()) == paragraph_counts(sa, sb, n),
    decreases n,
{
    if 0 < n <= sa.len() && n <= sb.len() {
        lemma_sections_diffs_parts(sa, sb, n - 1);
        let i = (n - 1) as usize;
        lemma_section_diffs_parts(i, sa[n - 1], sb[n - 1]);
        lemma_sections_diffs_step(sa, sb, n);
        let prev = sections_diffs(sa, sb, n - 1);
        let sd = section_diffs(i, sa[n - 1], sb[n - 1]);
        lemma_section_level_concat(prev, sd);
        Seq::filter_distributes_over_add(prev, sd, paragraph_count_pred());
    } else {
        reveal(Seq::filter);
        assert(sections_diffs(sa, sb, n) == Seq::<Diff>::empty());
    }
}

proof fn lemma_resource_diffs_parts(a: Document, b: Document)
    ensures
        forall|k: int| 0 <= k < resource_diffs(a, b).len() ==> resource_count_pred()(#[trigger] resource_diffs(a, b)[k]),
{
    let r = resource_diffs(a, b);
    assert forall|k: int| 0 <= k < r.len() implies resource_count_pred()(#[trigger] r[k]) by {
        let c1 = count_entry(CountKind::CharShape, a.doc_info.char_shapes, b.doc_info.char_shapes);
        let c2 = count_entry(CountKind::ParaShape, a.doc_info.para_shapes, b.doc_info.para_shapes);
        let c3 = count_entry(CountKind::BorderFill, a.doc_info.border_fills, b.doc_info.border_fills);
        let c4 = count_entry(CountKind::TabDef, a.doc_info.tab_defs, b.doc_info.tab_defs);
        let c5 = count_entry(CountKind::Numbering, a.doc_info.numberings, b.doc_info.numberings);
        let c6 = count_entry(CountKind::Style, a.doc_info.styles, b.doc_info.styles);
        let c7 = count_entry(
            CountKind::BinDataContent,
            a.bin_data_content@.len() as usize,
            b.bin_data_content@.len() as usize,
        );
        let all = c1 + c2 + c3 + c4 + c5 + c6 + c7;
        assert(r == all);
        assert forall|j: int| 0 <= j < all.len() implies resource_count_pred()(#[trigger] all[j]) by {
            let l1 = c1.len();
            let l2 = l1 + c2.len();
            let l3 = l2 + c3.len();
            let l4 = l3 + c4.len();
            let l5 = l4 + c5.len();
            let l6 = l5 + c6.len();
            if j < l1 {
                assert(all[j] == c1[j]);
            } else if j < l2 {
                assert(all[j] == c2[j - l1]);
            } else if j < l3 {
                assert(all[j] == c3[j - l2]);
            } else if j < l4 {
                assert(all[j] == c4[j - l3]);
            } else if j < l5 {
                assert(all[j] == c5[j - l4]);
            } else if j < l6 {
                assert(all[j] == c6[j - l5]);
            } else {
                assert(all[j] == c7[j - l6]);
            }
        }
    }
}


/// The section-count difference of a comparison, if any.
pub open spec fn section_count_of(a: Document, b: Document) -> Seq<Diff> {
    if a.sections@.len() != b.sections@.len() {
        seq![Diff::SectionCount { expected: a.sections@.len() as usize, actual: b.sections@.len() as usize }]
    } else {
        Seq::<Diff>::empty()
    }
}

/// The line-segment differences of a comparison, as differences.
#[verifier::opaque]
pub open spec fn lineseg_part(a: Document, b: Document) -> Seq<Diff> {
    ls_document(a, b).map_values(|x: LsDiff| lineseg_as_diff(x))
}

/// The differences of the matched section pairs of a comparison.
#[verifier::opaque]
pub open spec fn sections_part(a: Document, b: Document) -> Seq<Diff> {
    sections_diffs(a.sections@, b.sections@, min_len(a.sections@.len(), b.sections@.len()))
}

/// The resource and binary-data count differences of a comparison.
#[verifier::opaque]
pub open spec fn resource_part(a: Document, b: Document) -> Seq<Diff> {
    resource_diffs(a, b)
}

proof fn lemma_document_diffs_split(a: Document, b: Document)
    ensures
        document_diffs(a, b) == section_count_of(a, b) + sections_part(a, b) + resource_part(a, b)
            + lineseg_part(a, b),
{
    reveal(document_diffs);
    reveal(lineseg_part);
    reveal(sections_part);
    reveal(resource_part);
}

proof fn lemma_sections_part(a: Document, b: Document)
    ensures
        all_section_level(sections_part(a, b)),
        sections_part(a, b).filter(paragraph_count_pred()) == paragraph_counts(
            a.sections@,
            b.sections@,
            min_len(a.sections@.len(), b.sections@.len()),
        ),
{
    reveal(sections_part);
    lemma_sections_diffs_parts(a.sections@, b.sections@, min_len(a.sections@.len(), b.sections@.len()));
}

proof fn lemma_resource_part(a: Document, b: Document)
    ensures
        resource_part(a, b) == resource_diffs(a, b),
        forall|k: int| 0 <= k < resource_part(a, b).len() ==> resource_count_pred()(#[trigger] resource_part(a, b)[k]),
{
    reveal(resource_part);
    lemma_resource_diffs_parts(a, b);
}

proof fn lemma_lineseg_part_kinds(a: Document, b: Document)
    ensures
        forall|k: int| 0 <= k < lineseg_part(a, b).len() ==> (#[trigger] lineseg_part(a, b)[k]) is ParagraphLinesegs,
{
    reveal(lineseg_part);
}

/// A comparison laid out as its section count, its section pairs, its
/// resource counts and its line-segment differences.
#[verifier::opaque]
pub open spec fn laid_out(d: Seq<Diff>, c: Seq<Diff>, s: Seq<Diff>, r: Seq<Diff>, l: Seq<Diff>) -> bool {
    &&& d == c + s + r + l
    &&& forall|k: int| 0 <= k < c.len() ==> (#[trigger] c[k]) is SectionCount
    &&& all_section_level(s)
    &&& forall|k: int| 0 <= k < r.len() ==> resource_count_pred()(#[trigger] r[k])
    &&& forall|k: int| 0 <= k < l.len() ==> (#[trigger] l[k]) is ParagraphLinesegs
}

proof fn lemma_document_laid_out(a: Document, b: Document)
    ensures
        laid_out(document_diffs(a, b), section_count_of(a, b), sections_part(a, b), resource_part(a, b), lineseg_part(a, b)),
{
    reveal(laid_out);
    lemma_document_diffs_split(a, b);
    lemma_sections_part(a, b);
    lemma_resource_part(a, b);
    lemma_lineseg_part_kinds(a, b);
}

proof fn lemma_layout(d: Seq<Diff>, c: Seq<Diff>, s: Seq<Diff>, r: Seq<Diff>, l: Seq<Diff>)
    requires
        laid_out(d, c, s, r, l),
    ensures
        d.filter(section_count_pred()) == c,
        d.filter(paragraph_count_pred()) == s.filter(paragraph_count_pred()),
        d.filter(resource_count_pred()) == r,
        l.len() <= d.len(),
        d.skip(d.len() - l.len()) == l,
        forall|i: int| 0 <= i < d.len() - l.len() ==> !(#[trigger] d[i] is ParagraphLinesegs),
{
    reveal(laid_out);
    let pre = c + s + r;
    assert forall|k: int| 0 <= k < s.len() implies !section_count_pred()(#[trigger] s[k])
        && !resource_count_pred()(s[k]) by {
        assert(is_section_level(s[k]));
    }
    assert forall|k: int| 0 <= k < c.len() implies !paragraph_count_pred()(#[trigger] c[k])
        && !resource_count_pred()(c[k]) && section_count_pred()(c[k]) by {}
    assert forall|k: int| 0 <= k < r.len() implies !paragraph_count_pred()(#[trigger] r[k])
        && !section_count_pred()(r[k]) by {}
    assert forall|k: int| 0 <= k < l.len() implies !paragraph_count_pred()(#[trigger] l[k])
        && !section_count_pred()(l[k]) && !resource_count_pred()(l[k]) by {}
    Seq::filter_distributes_over_add(c, s, section_count_pred());
    Seq::filter_distributes_over_add(c + s, r, section_count_pred());
    Seq::filter_distributes_over_add(pre, l, section_count_pred());
    Seq::filter_distributes_over_add(c, s, paragraph_count_pred());
    Seq::filter_distributes_over_add(c + s, r, paragraph_count_pred());
    Seq::filter_distributes_over_add(pre, l, paragraph_count_pred());
    Seq::filter_distributes_over_add(c, s, resource_count_pred());
    Seq::filter_distributes_over_add(c + s, r, resource_count_pred());
    Seq::filter_distributes_over_add(pre, l, resource_count_pred());
    lemma_filter_all(c, section_count_pred());
    lemma_filter_none(s, section_count_pred());
    lemma_filter_none(r, section_count_pred());
    lemma_filter_none(l, section_count_pred());
    lemma_filter_none(c, paragraph_count_pred());
    lemma_filter_none(r, paragraph_count_pred());
    lemma_filter_none(l, paragraph_count_pred());
    lemma_filter_none(c, resource_count_pred());
    lemma_filter_none(s, resource_count_pred());
    lemma_filter_all(r, resource_count_pred());
    lemma_filter_none(l, resource_count_pred());
    assert(c + Seq::<Diff>::empty() + Seq::<Diff>::empty() + Seq::<Diff>::empty() =~= c);
    assert(Seq::<Diff>::empty() + s.filter(paragraph_count_pred()) + Seq::<Diff>::empty()
        + Seq::<Diff>::empty() =~= s.filter(paragraph_count_pred()));
    assert(Seq::<Diff>::empty() + Seq::<Diff>::empty() + r + Seq::<Diff>::empty() =~= r);
    assert(d.skip(d.len() - l.len()) =~= l);
    assert forall|i: int| 0 <= i < d.len() - l.len() implies !(#[trigger] d[i] is ParagraphLinesegs) by {
        assert(d[i] == pre[i]);
        if i < c.len() {
            assert(pre[i] == c[i]);
        } else if i < c.len() + s.len() {
            assert(pre[i] == s[i - c.len()]);
            assert(is_section_level(s[i - c.len()]));
        } else {
            assert(pre[i] == r[i - c.len() - s.len()]);
            assert(resource_count_pred()(r[i - c.len() - s.len()]));
        }
    }
}

/// The count differences of a comparison: a section-count difference
/// exactly when the section counts differ; one paragraph-count difference
/// for each matched section whose paragraph counts differ, in section
/// order; and the resource and binary-data count differences, each when
/// its counts differ, in a fixed order.
#[verifier::spinoff_prover]
pub proof fn law_document_diff_counts(a: Document, b: Document)
    ensures
        document_diffs(a, b).filter(section_count_pred()) == section_count_of(a, b),
        document_diffs(a, b).filter(paragraph_count_pred()) == paragraph_counts(
            a.sections@,
            b.sections@,
            min_len(a.sections@.len(), b.sections@.len()),
        ),
        document_diffs(a, b).filter(resource_count_pred()) == resource_diffs(a, b),
{
    lemma_document_laid_out(a, b);
    lemma_sections_part(a, b);
    lemma_resource_part(a, b);
    lemma_layout(document_diffs(a, b), section_count_of(a, b), sections_part(a, b), resource_part(a, b), lineseg_part(a, b));
}

/// The line-segment differences come last: they end the comparison, in the
/// order `diff_linesegs` finds them, and no earlier difference is one.
#[verifier::spinoff_prover]
pub proof fn law_lineseg_differences_come_last(a: Document, b: Document)
    ensures
        lineseg_part(a, b).len() <= document_diffs(a, b).len(),
        document_diffs(a, b).skip(document_diffs(a, b).len() - lineseg_part(a, b).len()) == lineseg_part(a, b),
        forall|i: int|
            0 <= i < document_diffs(a, b).len() - lineseg_part(a, b).len() ==> !(#[trigger] document_diffs(
                a,
                b,
            )[i] is ParagraphLinesegs),
{
    lemma_document_laid_out(a, b);
    lemma_sections_part(a, b);
    lemma_resource_part(a, b);
    lemma_layout(document_diffs(a, b), section_count_of(a, b), sections_part(a, b), resource_part(a, b), lineseg_part(a, b));
}


// ---------------------------------------------------------------------------
// Where line-segment mismatches are located.

/// Every mismatch of the list is located at section `sec`, paragraph `para`.
pub open spec fn all_at(s: Seq<LsDiff>, sec: usize, para: usize) -> bool {
    forall|i: int| 0 <= i < s.len() ==> (#[trigger] s[i]).section == sec && s[i].paragraph == para
}

proof fn lemma_at_concat(a: Seq<LsDiff>, b: Seq<LsDiff>, sec: usize, para: usize)
    requires
        all_at(a, sec, para),
        all_at(b, sec, para),
    ensures
        all_at(a + b, sec, para),
{
    assert forall|i: int| 0 <= i < (a + b).len() implies (#[trigger] (a + b)[i]).section == sec && (a
        + b)[i].paragraph == para by {
        if i < a.len() {
            assert((a + b)[i] == a[i]);
        } else {
            assert((a + b)[i] == b[i - a.len()]);
        }
    }
}

proof fn lemma_ls_segs_at(sec: usize, para: usize, path: Seq<char>, la: Seq<LineSeg>, lb: Seq<LineSeg>, n: int)
    ensures
        all_at(ls_segs(sec, para, path, la, lb, n), sec, para),
    decreases n,
{
    if 0 < n <= la.len() && n <= lb.len() {
        lemma_ls_segs_at(sec, para, path, la, lb, n - 1);
        let f = seg_fields(sec, para, path, (n - 1) as usize, la[n - 1], lb[n - 1]);
        assert(all_at(f, sec, para));
        lemma_at_concat(ls_segs(sec, para, path, la, lb, n - 1), f, sec, para);
    }
}

proof fn lemma_ls_paragraph_at(sec: usize, para: usize, path: Seq<char>, pa: Paragraph, pb: Paragraph)
    ensures
        all_at(ls_paragraph(sec, para, path, pa, pb), sec, para),
    decreases pa, 0int,
{
    let c = ls_count(sec, para, path, pa.line_segs@, pb.line_segs@);
    let n = min_len(pa.line_segs@.len(), pb.line_segs@.len());
    let m = min_len(pa.controls@.len(), pb.controls@.len());
    lemma_ls_segs_at(sec, para, path, pa.line_segs@, pb.line_segs@, n);
    lemma_ls_controls_at(sec, para, path, pa.controls@, pb.controls@, m);
    assert(all_at(c, sec, para));
    lemma_at_concat(c, ls_segs(sec, para, path, pa.line_segs@, pb.line_segs@, n), sec, para);
    lemma_at_concat(
        c + ls_segs(sec, para, path, pa.line_segs@, pb.line_segs@, n),
        ls_controls(sec, para, path, pa.controls@, pb.controls@, m),
        sec,
        para,
    );
}

proof fn lemma_ls_controls_at(sec: usize, para: usize, path: Seq<char>, ca: Seq<Control>, cb: Seq<Control>, n: int)
    ensures
        all_at(ls_controls(sec, para, path, ca, cb, n), sec, para),
    decreases ca, n,
{
    if 0 < n <= ca.len() && n <= cb.len() {
        lemma_ls_controls_at(sec, para, path, ca, cb, n - 1);
        lemma_ls_control_pair_at(sec, para, path, (n - 1) as nat, ca[n - 1], cb[n - 1]);
        lemma_at_concat(
            ls_controls(sec, para, path, ca, cb, n - 1),
            ls_control_pair(sec, para, path, (n - 1) as nat, ca[n - 1], cb[n - 1]),
            sec,
            para,
        );
    }
}

proof fn lemma_ls_paras_at(sec: usize, para: usize, base: Seq<char>, pa: Seq<Paragraph>, pb: Seq<Paragraph>, k: int)
    ensures
        all_at(ls_paras(sec, para, base, pa, pb, k), sec, para),
    decreases pa, k,
{
    if 0 < k <= pa.len() && k <= pb.len() {
        lemma_ls_paras_at(sec, para, base, pa, pb, k - 1);
        lemma_ls_paragraph_at(sec, para, idx_seg(base, (k - 1) as nat), pa[k - 1], pb[k - 1]);
        lemma_at_concat(
            ls_paras(sec, para, base, pa, pb, k - 1),
            ls_paragraph(sec, para, idx_seg(base, (k - 1) as nat), pa[k - 1], pb[k - 1]),
            sec,
            para,
        );
    }
}

proof fn lemma_ls_cells_at(sec: usize, para: usize, base: Seq<char>, ca: Seq<Cell>, cb: Seq<Cell>, m: int)
    ensures
        all_at(ls_cells(sec, para, base, ca, cb, m), sec, para),
    decreases ca, m,
{
    if 0 < m <= ca.len() && m <= cb.len() {
        lemma_ls_cells_at(sec, para, base, ca, cb, m - 1);
        let pa = ca[m - 1].paragraphs@;
        let pb = cb[m - 1].paragraphs@;
        let b2 = idx_seg(base, (m - 1) as nat) + ".p"@;
        lemma_ls_paras_at(sec, para, b2, pa, pb, min_len(pa.len(), pb.len()));
        lemma_at_concat(
            ls_cells(sec, para, base, ca, cb, m - 1),
            ls_paras(sec, para, b2, pa, pb, min_len(pa.len(), pb.len())),
            sec,
            para,
        );
    }
}

proof fn lemma_ls_captions_at(sec: usize, para: usize, base: Seq<char>, a: Option<Caption>, b: Option<Caption>)
    ensures
        all_at(ls_captions(sec, para, base, a, b), sec, para),
    decreases a, 0int,
{
    if let (Some(x), Some(y)) = (a, b) {
        lemma_ls_paras_at(sec, para, base, x.paragraphs@, y.paragraphs@, min_len(x.paragraphs@.len(), y.paragraphs@.len()));
    }
}

proof fn lemma_ls_control_pair_at(sec: usize, para: usize, path: Seq<char>, ci: nat, a: Control, b: Control)
    ensures
        all_at(ls_control_pair(sec, para, path, ci, a, b), sec, para),
    decreases a, 0int,
{
    let base = path + idx_seg("/ctrl"@, ci);
    match (a, b) {
        (Control::Table(ta), Control::Table(tb)) => {
            let n = min_len(ta.cells@.len(), tb.cells@.len());
            lemma_ls_cells_at(sec, para, base + "tbl.cell"@, ta.cells@, tb.cells@, n);
            lemma_ls_captions_at(sec, para, base + "tbl.caption.p"@, ta.caption, tb.caption);
            lemma_at_concat(
                ls_cells(sec, para, base + "tbl.cell"@, ta.cells@, tb.cells@, n),
                ls_captions(sec, para, base + "tbl.caption.p"@, ta.caption, tb.caption),
                sec,
                para,
            );
        },
        (Control::Picture(pa), Control::Picture(pb)) => {
            lemma_ls_captions_at(sec, para, base + "pic.caption.p"@, pa.caption, pb.caption);
        },
        (Control::Shape(sa), Control::Shape(sb)) => {
            lemma_ls_shape_at(sec, para, base + "shape"@, *sa, *sb);
        },
        (Control::Footnote(na), Control::Footnote(nb)) => {
            lemma_ls_paras_at(sec, para, base + "fn.p"@, na.paragraphs@, nb.paragraphs@, min_len(na.paragraphs@.len(), nb.paragraphs@.len()));
        },
        (Control::Endnote(na), Control::Endnote(nb)) => {
            lemma_ls_paras_at(sec, para, base + "en.p"@, na.paragraphs@, nb.paragraphs@, min_len(na.paragraphs@.len(), nb.paragraphs@.len()));
        },
        (Control::Field(fa), Control::Field(fb)) => {
            lemma_ls_paras_at(
                sec,
                para,
                base + "field.memo.p"@,
                fa.memo_paragraphs@,
                fb.memo_paragraphs@,
                min_len(fa.memo_paragraphs@.len(), fb.memo_paragraphs@.len()),
            );
        },
        _ => {},
    }
}

proof fn lemma_ls_shape_at(sec: usize, para: usize, path: Seq<char>, sa: ShapeObject, sb: ShapeObject)
    ensures
        all_at(ls_shape(sec, para, path, sa, sb), sec, para),
    decreases sa, 0int,
{
    lemma_shape_parts_smaller(sa);
    let tb: Seq<LsDiff> = match (shape_text_box(sa), shape_text_box(sb)) {
        (Some(x), Some(y)) => ls_paras(sec, para, path + ".tb.p"@, x.paragraphs@, y.paragraphs@, min_len(x.paragraphs@.len(), y.paragraphs@.len())),
        _ => Seq::empty(),
    };
    if let (Some(x), Some(y)) = (shape_text_box(sa), shape_text_box(sb)) {
        lemma_ls_paras_at(sec, para, path + ".tb.p"@, x.paragraphs@, y.paragraphs@, min_len(x.paragraphs@.len(), y.paragraphs@.len()));
    }
    let cap: Seq<LsDiff> = match (shape_caption(sa), shape_caption(sb)) {
        (Some(x), Some(y)) => ls_paras(sec, para, path + ".caption.p"@, x.paragraphs@, y.paragraphs@, min_len(x.paragraphs@.len(), y.paragraphs@.len())),
        _ => Seq::empty(),
    };
    if let (Some(x), Some(y)) = (shape_caption(sa), shape_caption(sb)) {
        lemma_ls_paras_at(sec, para, path + ".caption.p"@, x.paragraphs@, y.paragraphs@, min_len(x.paragraphs@.len(), y.paragraphs@.len()));
    }
    let children: Seq<LsDiff> = match (sa, sb) {
        (ShapeObject::Group(ga), ShapeObject::Group(gb)) => ls_children(sec, para, path + ".child"@, ga.children@, gb.children@, min_len(ga.children@.len(), gb.children@.len())),
        _ => Seq::empty(),
    };
    if let (ShapeObject::Group(ga), ShapeObject::Group(gb)) = (sa, sb) {
        lemma_ls_children_at(sec, para, path + ".child"@, ga.children@, gb.children@, min_len(ga.children@.len(), gb.children@.len()));
    }
    assert(all_at(tb, sec, para));
    assert(all_at(cap, sec, para));
    assert(all_at(children, sec, para));
    lemma_at_concat(tb, cap, sec, para);
    lemma_at_concat(tb + cap, children, sec, para);
    assert(ls_shape(sec, para, path, sa, sb) == tb + cap + children);
}

proof fn lemma_ls_children_at(sec: usize, para: usize, base: Seq<char>, ca: Seq<ShapeObject>, cb: Seq<ShapeObject>, m: int)
    ensures
        all_at(ls_children(sec, para, base, ca, cb, m), sec, para),
    decreases ca, m,
{
    if 0 < m <= ca.len() && m <= cb.len() {
        lemma_ls_children_at(sec, para, base, ca, cb, m - 1);
        lemma_ls_shape_at(sec, para, idx_seg(base, (m - 1) as nat), ca[m - 1], cb[m - 1]);
        lemma_at_concat(
            ls_children(sec, para, base, ca, cb, m - 1),
            ls_shape(sec, para, idx_seg(base, (m - 1) as nat), ca[m - 1], cb[m - 1]),
            sec,
            para,
        );
    }
}

proof fn lemma_ls_top_at(i: usize, pa: Seq<Paragraph>, pb: Seq<Paragraph>, m: int)
    requires
        m <= pa.len(),
        m <= pb.len(),
    ensures
        forall|k: int|
            0 <= k < ls_top(i, pa, pb, m).len() ==> (#[trigger] ls_top(i, pa, pb, m)[k]).section == i
                && ls_top(i, pa, pb, m)[k].paragraph < m,
    decreases m,
{
    if 0 < m {
        lemma_ls_top_at(i, pa, pb, m - 1);
        let prev = ls_top(i, pa, pb, m - 1);
        let cur = ls_paragraph(i, (m - 1) as usize, ""@, pa[m - 1], pb[m - 1]);
        lemma_ls_paragraph_at(i, (m - 1) as usize, ""@, pa[m - 1], pb[m - 1]);
        assert(ls_top(i, pa, pb, m) == prev + cur);
        assert forall|k: int| 0 <= k < (prev + cur).len() implies (#[trigger] (prev + cur)[k]).section == i
            && (prev + cur)[k].paragraph < m by {
            if k < prev.len() {
                assert((prev + cur)[k] == prev[k]);
            } else {
                assert((prev + cur)[k] == cur[k - prev.len()]);
            }
        }
    }
}

/// A mismatch located at a section pair and a paragraph pair both
/// documents have.
pub open spec fn ls_in_range(x: LsDiff, sa: Seq<Section>, sb: Seq<Section>) -> bool {
    &&& x.section < sa.len() && x.section < sb.len()
    &&& x.paragraph < sa[x.section as int].paragraphs@.len() && x.paragraph < sb[x.section as int].paragraphs@.len()
}

proof fn lemma_ls_sections_at(sa: Seq<Section>, sb: Seq<Section>, n: int)
    requires
        n <= sa.len(),
        n <= sb.len(),
        n <= usize::MAX,
    ensures
        forall|k: int|
            0 <= k < ls_sections(sa, sb, n).len() ==> ls_in_range(#[trigger] ls_sections(sa, sb, n)[k], sa, sb)
                && ls_sections(sa, sb, n)[k].section < n,
    decreases n,
{
    if 0 < n {
        lemma_ls_sections_at(sa, sb, n - 1);
        let pa = sa[n - 1].paragraphs@;
        let pb = sb[n - 1].paragraphs@;
        let m = min_len(pa.len(), pb.len());
        lemma_ls_top_at((n - 1) as usize, pa, pb, m);
        let prev = ls_sections(sa, sb, n - 1);
        let cur = ls_top((n - 1) as usize, pa, pb, m);
        assert(ls_sections(sa, sb, n) == prev + cur);
        assert forall|k: int| 0 <= k < (prev + cur).len() implies ls_in_range(#[trigger] (prev + cur)[k], sa, sb)
            && (prev + cur)[k].section < n by {
            if k < prev.len() {
                assert((prev + cur)[k] == prev[k]);
            } else {
                assert((prev + cur)[k] == cur[k - prev.len()]);
                assert(cur[k - prev.len()].section == (n - 1) as usize);
                assert(cur[k - prev.len()].paragraph < m);
            }
        }
    }
}

/// Every line-segment mismatch is located at a section pair and a
/// paragraph pair that both documents have (for a section count that fits
/// in a `usize`, as that of any document in memory does).
pub proof fn law_lineseg_mismatches_are_in_range(a: Document, b: Document)
    requires
        a.sections@.len() <= usize::MAX,
    ensures
        forall|k: int|
            0 <= k < ls_document(a, b).len() ==> ls_in_range(#[trigger] ls_document(a, b)[k], a.sections@, b.sections@),
{
    lemma_ls_sections_at(a.sections@, b.sections@, min_len(a.sections@.len(), b.sections@.len()));
}


// ---------------------------------------------------------------------------
// Page geometry.

/// The number of page-geometry fields on which two page definitions differ.
pub open spec fn page_fields_differing(a: PageDef, b: PageDef) -> int {
    (if a.width != b.width { 1int } else { 0int }) + (if a.height != b.height { 1int } else { 0int }) + (
    if a.margin_left != b.margin_left { 1int } else { 0int }) + (if a.margin_right != b.margin_right {
        1int
    } else {
        0int
    }) + (if a.margin_top != b.margin_top { 1int } else { 0int }) + (if a.margin_bottom
        != b.margin_bottom { 1int } else { 0int }) + (if a.margin_header != b.margin_header {
        1int
    } else {
        0int
    }) + (if a.margin_footer != b.margin_footer { 1int } else { 0int }) + (if a.margin_gutter
        != b.margin_gutter { 1int } else { 0int }) + (if a.landscape != b.landscape { 1int } else { 0int })
        + (if a.binding != b.binding { 1int } else { 0int })
}

/// Two page definitions are compared field by field: one mismatch entry for
/// each field (width, height, the six margins, gutter, orientation,
/// binding) on which they differ, so that there is none exactly when the
/// page definitions are equal.
pub proof fn law_page_def_parts_count(a: PageDef, b: PageDef)
    ensures
        page_def_parts(a, b).len() == page_fields_differing(a, b),
        page_def_parts(a, b).len() == 0 <==> a == b,
{
    assert(num_part("width"@, a.width as nat, b.width as nat).len() == (if a.width != b.width { 1int } else { 0int }));
}

/// Page definitions that differ only in width give one entry, naming the
/// width and both values.
pub proof fn law_page_width_difference(a: PageDef, b: PageDef)
    requires
        a.width != b.width,
        a.height == b.height,
        a.margin_left == b.margin_left,
        a.margin_right == b.margin_right,
        a.margin_top == b.margin_top,
        a.margin_bottom == b.margin_bottom,
        a.margin_header == b.margin_header,
        a.margin_footer == b.margin_footer,
        a.margin_gutter == b.margin_gutter,
        a.landscape == b.landscape,
        a.binding == b.binding,
    ensures
        page_def_parts(a, b) == seq!["width"@ + ": expected="@ + decimal(a.width as nat) + " actual="@ + decimal(b.width as nat)],
{
    assert(page_def_parts(a, b) =~= seq!["width"@ + ": expected="@ + decimal(a.width as nat) + " actual="@ + decimal(b.width as nat)]);
}


/// A page-geometry difference.
pub open spec fn page_def_pred() -> spec_fn(Diff) -> bool {
    |d: Diff| d is SectionPageDef
}

/// The page-geometry difference of section pair `i`: one, with the
/// mismatching fields joined, when the two page definitions differ.
pub open spec fn page_def_entry(i: usize, x: Section, y: Section) -> Seq<Diff> {
    if x.section_def.page_def != y.section_def.page_def {
        seq![
            Diff::SectionPageDef {
                section: i,
                detail: join_seq(page_def_parts(x.section_def.page_def, y.section_def.page_def), "; "@),
            },
        ]
    } else {
        Seq::<Diff>::empty()
    }
}

/// The page-geometry differences of the first `n` section pairs.
pub open spec fn page_def_entries(sa: Seq<Section>, sb: Seq<Section>, n: int) -> Seq<Diff>
    decreases n,
{
    if n <= 0 || n > sa.len() || n > sb.len() {
        Seq::empty()
    } else {
        page_def_entries(sa, sb, n - 1) + page_def_entry((n - 1) as usize, sa[n - 1], sb[n - 1])
    }
}

#[verifier::spinoff_prover]
proof fn lemma_section_diffs_page(i: usize, x: Section, y: Section)
    ensures
        section_diffs(i, x, y).filter(page_def_pred()) == page_def_entry(i, x, y),
{
    let count = paragraph_count_of(i, x, y);
    let page: Seq<Diff> = match joined_detail(page_def_parts(x.section_def.page_def, y.section_def.page_def)) {
        Some(d) => seq![Diff::SectionPageDef { section: i, detail: d }],
        None => Seq::empty(),
    };
    let vis: Seq<Diff> = match joined_detail(visibility_parts(x.section_def, y.section_def)) {
        Some(d) => seq![Diff::SectionVisibility { section: i, detail: d }],
        None => Seq::empty(),
    };
    let m = min_len(x.paragraphs@.len(), y.paragraphs@.len());
    let top = cs_top(i, x.paragraphs@, y.paragraphs@, m);
    lemma_cs_top_nested(i, x.paragraphs@, y.paragraphs@, m);
    law_page_def_parts_count(x.section_def.page_def, y.section_def.page_def);
    let sd = section_diffs(i, x, y);
    assert(sd == count + page + vis + top);
    assert(page == page_def_entry(i, x, y));
    lemma_filter_none(count, page_def_pred());
    lemma_filter_all(page, page_def_pred());
    lemma_filter_none(vis, page_def_pred());
    assert forall|k: int| 0 <= k < top.len() implies !page_def_pred()(#[trigger] top[k]) by {
        assert(is_nested(top[k]));
    }
    lemma_filter_none(top, page_def_pred());
    Seq::filter_distributes_over_add(count, page, page_def_pred());
    Seq::filter_distributes_over_add(count + page, vis, page_def_pred());
    Seq::filter_distributes_over_add(count + page + vis, top, page_def_pred());
    assert(sd.filter(page_def_pred()) =~= page);
}

proof fn lemma_sections_diffs_page(sa: Seq<Section>, sb: Seq<Section>, n: int)
    ensures
        sections_diffs(sa, sb, n).filter(page_def_pred()) == page_def_entries(sa, sb, n),
    decreases n,
{
    if 0 < n <= sa.len() && n <= sb.len() {
        lemma_sections_diffs_page(sa, sb, n - 1);
        let i = (n - 1) as usize;
        lemma_section_diffs_page(i, sa[n - 1], sb[n - 1]);
        lemma_sections_diffs_step(sa, sb, n);
        Seq::filter_distributes_over_add(sections_diffs(sa, sb, n - 1), section_diffs(i, sa[n - 1], sb[n - 1]), page_def_pred());
    } else {
        reveal(Seq::filter);
        assert(sections_diffs(sa, sb, n) == Seq::<Diff>::empty());
    }
}

proof fn lemma_sections_part_page(a: Document, b: Document)
    ensures
        sections_part(a, b).filter(page_def_pred()) == page_def_entries(
            a.sections@,
            b.sections@,
            min_len(a.sections@.len(), b.sections@.len()),
        ),
{
    reveal(sections_part);
    lemma_sections_diffs_page(a.sections@, b.sections@, min_len(a.sections@.len(), b.sections@.len()));
}

proof fn lemma_layout_page(d: Seq<Diff>, c: Seq<Diff>, s: Seq<Diff>, r: Seq<Diff>, l: Seq<Diff>)
    requires
        laid_out(d, c, s, r, l),
    ensures
        d.filter(page_def_pred()) == s.filter(page_def_pred()),
{
    reveal(laid_out);
    assert forall|k: int| 0 <= k < c.len() implies !page_def_pred()(#[trigger] c[k]) by {}
    assert forall|k: int| 0 <= k < r.len() implies !page_def_pred()(#[trigger] r[k]) by {
        assert(resource_count_pred()(r[k]));
    }
    assert forall|k: int| 0 <= k < l.len() implies !page_def_pred()(#[trigger] l[k]) by {}
    lemma_filter_none(c, page_def_pred());
    lemma_filter_none(r, page_def_pred());
    lemma_filter_none(l, page_def_pred());
    Seq::filter_distributes_over_add(c, s, page_def_pred());
    Seq::filter_distributes_over_add(c + s, r, page_def_pred());
    Seq::filter_distributes_over_add(c + s + r, l, page_def_pred());
    assert(Seq::<Diff>::empty() + s.filter(page_def_pred()) + Seq::<Diff>::empty() + Seq::<Diff>::empty()
        =~= s.filter(page_def_pred()));
}

/// The page-geometry differences of a comparison: for each matched section
/// pair in order, one exactly when the two page definitions differ, with
/// the mismatching fields joined by `; `.
#[verifier::spinoff_prover]
pub proof fn law_page_geometry_differences(a: Document, b: Document)
    ensures
        document_diffs(a, b).filter(page_def_pred()) == page_def_entries(
            a.sections@,
            b.sections@,
            min_len(a.sections@.len(), b.sections@.len()),
        ),
{
    lemma_document_laid_out(a, b);
    lemma_sections_part_page(a, b);
    lemma_layout_page(document_diffs(a, b), section_count_of(a, b), sections_part(a, b), resource_part(a, b), lineseg_part(a, b));
}

proof fn lemma_page_def_entries_sections(sa: Seq<Section>, sb: Seq<Section>, n: int, i: int)
    requires
        0 <= i < n <= sa.len(),
        n <= sb.len(),
        n <= usize::MAX,
    ensures
        (exists|k: int|
            0 <= k < page_def_entries(sa, sb, n).len() && (#[trigger] page_def_entries(sa, sb, n)[k])
                == Diff::SectionPageDef {
                section: i as usize,
                detail: join_seq(page_def_parts(sa[i].section_def.page_def, sb[i].section_def.page_def), "; "@),
            }) <==> sa[i].section_def.page_def != sb[i].section_def.page_def,
        forall|k: int|
            0 <= k < page_def_entries(sa, sb, n).len() ==> (#[trigger] page_def_entries(sa, sb, n)[k]) is SectionPageDef
                && page_def_entries(sa, sb, n)[k]->SectionPageDef_section < n,
    decreases n,
{
    let prev = page_def_entries(sa, sb, n - 1);
    let cur = page_def_entry((n - 1) as usize, sa[n - 1], sb[n - 1]);
    assert(page_def_entries(sa, sb, n) == prev + cur);
    let e = Diff::SectionPageDef {
        section: i as usize,
        detail: join_seq(page_def_parts(sa[i].section_def.page_def, sb[i].section_def.page_def), "; "@),
    };
    if i < n - 1 {
        lemma_page_def_entries_sections(sa, sb, n - 1, i);
        if exists|k: int| 0 <= k < (prev + cur).len() && (#[trigger] (prev + cur)[k]) == e {
            let k = choose|k: int| 0 <= k < (prev + cur).len() && (#[trigger] (prev + cur)[k]) == e;
            if k >= prev.len() {
                assert(cur[k - prev.len()] == e);
                assert(false);
            } else {
                assert(prev[k] == e);
            }
        }
        if sa[i].section_def.page_def != sb[i].section_def.page_def {
            let k = choose|k: int| 0 <= k < prev.len() && (#[trigger] prev[k]) == e;
            assert((prev + cur)[k] == e);
        }
    } else {
        if n - 1 > 0 {
            lemma_page_def_entries_sections(sa, sb, n - 1, 0);
        }
        if exists|k: int| 0 <= k < (prev + cur).len() && (#[trigger] (prev + cur)[k]) == e {
            let k = choose|k: int| 0 <= k < (prev + cur).len() && (#[trigger] (prev + cur)[k]) == e;
            if k < prev.len() {
                assert(prev[k] == e);
                assert(false);
            }
        }
        if sa[i].section_def.page_def != sb[i].section_def.page_def {
            assert((prev + cur)[prev.len() as int] == e);
        }
    }
    if n - 1 > 0 && i >= n - 1 {
    }
    assert forall|k: int| 0 <= k < (prev + cur).len() implies (#[trigger] (prev + cur)[k]) is SectionPageDef
        && (prev + cur)[k]->SectionPageDef_section < n by {
        if k < prev.len() {
            assert((prev + cur)[k] == prev[k]);
            if n - 1 > 0 {
                lemma_page_def_entries_sections(sa, sb, n - 1, 0);
            }
        } else {
            assert((prev + cur)[k] == cur[k - prev.len()]);
        }
    }
}

/// A matched section pair whose page definitions differ in any field gets
/// a page-geometry difference in the comparison, and one whose page
/// definitions are equal gets none (for a section count that fits in a
/// `usize`, as that of any document in memory does).
pub proof fn law_page_geometry_change_reported(a: Document, b: Document, i: int)
    requires
        a.sections@.len() <= usize::MAX,
        0 <= i < a.sections@.len(),
        i < b.sections@.len(),
    ensures
        (exists|k: int|
            0 <= k < document_diffs(a, b).len() && (#[trigger] document_diffs(a, b)[k]) is SectionPageDef
                && document_diffs(a, b)[k]->SectionPageDef_section == i) <==> a.sections@[i].section_def.page_def
            != b.sections@[i].section_def.page_def,
{
    let n = min_len(a.sections@.len(), b.sections@.len());
    let d = document_diffs(a, b);
    let es = page_def_entries(a.sections@, b.sections@, n);
    law_page_geometry_differences(a, b);
    lemma_page_def_entries_sections(a.sections@, b.sections@, n, i);
    reveal(Seq::filter);
    d.filter_lemma(page_def_pred());
    if exists|k: int| 0 <= k < d.len() && (#[trigger] d[k]) is SectionPageDef && d[k]->SectionPageDef_section == i {
        let k = choose|k: int| 0 <= k < d.len() && (#[trigger] d[k]) is SectionPageDef && d[k]->SectionPageDef_section == i;
        assert(d.filter(page_def_pred()).contains(d[k]));
        let j = choose|j: int| 0 <= j < es.len() && es[j] == d[k];
        assert(es[j] is SectionPageDef && es[j]->SectionPageDef_section == i);
        lemma_entry_at_is(a.sections@, b.sections@, n, j);
    }
    if a.sections@[i].section_def.page_def != b.sections@[i].section_def.page_def {
        let e = Diff::SectionPageDef {
            section: i as usize,
            detail: join_seq(page_def_parts(a.sections@[i].section_def.page_def, b.sections@[i].section_def.page_def), "; "@),
        };
        let j = choose|j: int| 0 <= j < es.len() && (#[trigger] es[j]) == e;
        assert(d.filter(page_def_pred())[j] == e);
        assert(d.filter(page_def_pred()).contains(e));
        d.lemma_filter_contains_rev(page_def_pred(), e);
        assert(d.contains(e));
        let k = choose|k: int| 0 <= k < d.len() && d[k] == e;
        assert(d[k] is SectionPageDef && d[k]->SectionPageDef_section == i);
    }
}

proof fn lemma_entry_at_is(sa: Seq<Section>, sb: Seq<Section>, n: int, j: int)
    requires
        0 <= n <= sa.len(),
        n <= sb.len(),
        n <= usize::MAX,
        0 <= j < page_def_entries(sa, sb, n).len(),
    ensures
        ({
            let e = page_def_entries(sa, sb, n)[j];
            let i = e->SectionPageDef_section as int;
            &&& e is SectionPageDef
            &&& 0 <= i < n
            &&& sa[i].section_def.page_def != sb[i].section_def.page_def
        }),
    decreases n,
{
    let prev = page_def_entries(sa, sb, n - 1);
    let cur = page_def_entry((n - 1) as usize, sa[n - 1], sb[n - 1]);
    assert(page_def_entries(sa, sb, n) == prev + cur);
    if j < prev.len() {
        assert((prev + cur)[j] == prev[j]);
        lemma_entry_at_is(sa, sb, n - 1, j);
    } else {
        assert((prev + cur)[j] == cur[j - prev.len()]);
    }
}


/// The visibility flags are compared one by one: one mismatch entry for
/// each of the six flags (header, footer, master page, border, fill, empty
/// line) on which two sections differ.
pub proof fn law_visibility_parts_count(a: SectionDef, b: SectionDef)
    ensures
        visibility_parts(a, b).len() == (if a.hide_header != b.hide_header { 1int } else { 0int }) + (if a.hide_footer != b.hide_footer { 1int } else { 0int }) + (if a.hide_master_page != b.hide_master_page { 1int } else { 0int }) + (if a.hide_border != b.hide_border { 1int } else { 0int }) + (if a.hide_fill != b.hide_fill { 1int } else { 0int }) + (if a.hide_empty_line != b.hide_empty_line { 1int } else { 0int }),
{
}

/// Two captions are compared attribute by attribute: one mismatch entry for
/// each of side, margin inclusion, width, gap, last width and paragraph
/// count on which they differ.
pub proof fn law_caption_parts_count(a: Caption, b: Caption)
    ensures
        caption_parts(a, b).len() == (if a.direction != b.direction { 1int } else { 0int }) + (if a.include_margin != b.include_margin { 1int } else { 0int }) + (if a.width != b.width { 1int } else { 0int }) + (if a.spacing != b.spacing { 1int } else { 0int }) + (if a.max_width != b.max_width { 1int } else { 0int }) + (if a.paragraphs@.len() != b.paragraphs@.len() { 1int } else { 0int }),
{
}

/// Two pictures' sizes are compared in three parts: the current size, the
/// image rectangle and the image dimensions, one entry for each that
/// differs.
pub proof fn law_picture_size_parts_count(a: Picture, b: Picture)
    ensures
        picture_size_parts(a, b).len() == (if a.shape_attr.current_width != b.shape_attr.current_width || a.shape_attr.current_height != b.shape_attr.current_height { 1int } else { 0int }) + (if a.border_x@ != b.border_x@ || a.border_y@ != b.border_y@ { 1int } else { 0int }) + (if a.img_dim != b.img_dim { 1int } else { 0int }),
{
}


/// Two line segments are compared field by field: one mismatch for each of
/// the nine fields (text start, vertical position, line height, text
/// height, baseline, spacing, column start, segment width, flags) on which
/// they differ.
pub proof fn law_seg_fields_count(sec: usize, para: usize, path: Seq<char>, index: usize, a: LineSeg, b: LineSeg)
    ensures
        seg_fields(sec, para, path, index, a, b).len() == (if a.text_start != b.text_start { 1int } else { 0int }) + (if a.vertical_pos != b.vertical_pos { 1int } else { 0int }) + (if a.line_height != b.line_height { 1int } else { 0int }) + (if a.text_height != b.text_height { 1int } else { 0int }) + (if a.baseline_distance != b.baseline_distance { 1int } else { 0int }) + (if a.line_spacing != b.line_spacing { 1int } else { 0int }) + (if a.column_start != b.column_start { 1int } else { 0int }) + (if a.segment_width != b.segment_width { 1int } else { 0int }) + (if a.tag != b.tag { 1int } else { 0int }),
{
}

/// A paragraph pair whose line-segment counts differ gets a count mismatch,
/// and one whose counts agree gets none.
pub proof fn law_ls_count_mismatch(sec: usize, para: usize, path: Seq<char>, la: Seq<LineSeg>, lb: Seq<LineSeg>)
    ensures
        ls_count(sec, para, path, la, lb).len() == (if la.len() != lb.len() { 1int } else { 0int }),
{
}

/// A paragraph pair with different character-shape runs gets a
/// character-shape difference, and one whose inline controls differ gets a
/// control difference; a pair that agrees on both gets neither.
pub proof fn law_paragraph_own_differences(sec: usize, para: usize, path: Seq<char>, pa: Paragraph, pb: Paragraph)
    ensures
        (exists|k: int|
            0 <= k < cs_own(sec, para, path, pa, pb).len() && (#[trigger] cs_own(sec, para, path, pa, pb)[k])
                is ParagraphCharShapes) <==> pa.char_shapes@ != pb.char_shapes@,
        cs_own(sec, para, path, pa, pb).len() == (if pa.char_shapes@ != pb.char_shapes@ { 1int } else { 0int }) + (
        if slot_names(pa.controls@) != slot_names(pb.controls@) { 1int } else { 0int }),
{
    let o = cs_own(sec, para, path, pa, pb);
    if pa.char_shapes@ != pb.char_shapes@ {
        assert(o[0] is ParagraphCharShapes);
    }
}

} // verus!
