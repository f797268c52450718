//! Where the marks of a written sidecar land when it is restored: into a
//! document with the same text, every mark comes back at the paragraph and
//! UTF-16 positions it was written from.

use crate::model::control::{Cell, Control};
use crate::model::document::Document;
use crate::model::paragraph::{Paragraph, TrackMark};
use crate::serializer::sidecar_laws::{cell_u32, change_tuple, law_mark_record_reads_back, plain_text};
use crate::serializer::sidecar_scan::law_sidecar_changes_read_back;
use crate::serializer::sidecar_scan::law_sidecar_marks_read_back;
use crate::serializer::track_sidecar::{
    added_at, cell_paras_marks, cells_marks, char_pos, ctrl_marks, ctrls_marks, doc_marks,
    entry_cell, entry_mark, first_ge, host_marks, lemma_same_para_at, mark_entries, mark_entry,
    marks_at, para_at, para_marks, same_but_marks, sec_marks, sidecar, sidecar_marks, tm_json,
    MarkEntry, max_id, rec_is, restored, sidecar_changes,
};
use crate::model::document::TrackChangeRec;
use vstd::prelude::*;

verus! {

/// A UTF-16 position of a paragraph survives being written as a character
/// index and read back: it is the offset of a character, or the end of the text.
pub open spec fn pos_reads_back(q: Paragraph, x: u32) -> bool {
    char_pos(q, first_ge(q.char_offsets@, x, 0) as u32) == x
}

/// Both ends of every mark of a paragraph survive the trip through
/// character indices, and those indices fit in a `u32`.
pub open spec fn marks_read_back(q: Paragraph) -> bool {
    q.char_offsets@.len() <= u32::MAX && forall|i: int|
        0 <= i < q.track_marks@.len() ==> pos_reads_back(q, #[trigger] q.track_marks@[i].start_pos)
            && pos_reads_back(q, q.track_marks@[i].end_pos)
}

/// The coordinates of a location fit in a `u32`.
pub open spec fn loc_fits(s: int, p: int, c: Option<(int, int, int)>) -> bool {
    s <= u32::MAX && p <= u32::MAX && match c {
        Some((a, b, k)) => a <= u32::MAX && b <= u32::MAX && k <= u32::MAX,
        None => true,
    }
}

/// Every paragraph of a document that a mark can name has coordinates that
/// fit in a `u32` and marks whose positions survive the trip.
pub open spec fn marks_restorable(d: Document) -> bool {
    forall|s: int, p: int, c: Option<(int, int, int)>|
        #[trigger] para_at(d, s, p, c) is Some ==> loc_fits(s, p, c) && marks_read_back(
            para_at(d, s, p, c)->0,
        )
}

/// A cell location with natural coordinates, as a location.
pub open spec fn cell_int(cell: Option<(nat, nat, nat)>) -> Option<(int, int, int)> {
    match cell {
        Some((a, b, k)) => Some((a as int, b as int, k as int)),
        None => None,
    }
}

proof fn lemma_entries_concat(a: Seq<Seq<char>>, b: Seq<Seq<char>>)
    ensures
        mark_entries(a + b) == mark_entries(a) + mark_entries(b),
    decreases b.len(),
{
    if b.len() == 0 {
        assert(a + b =~= a);
        assert(mark_entries(a) + mark_entries(b) =~= mark_entries(a));
    } else {
        assert((a + b).drop_last() =~= a + b.drop_last());
        assert((a + b).last() == b.last());
        lemma_entries_concat(a, b.drop_last());
        match mark_entry(b.last()) {
            Some(e) => {
                assert((mark_entries(a) + mark_entries(b.drop_last())).push(e) =~= mark_entries(a)
                    + mark_entries(b.drop_last()).push(e));
            },
            None => {},
        }
    }
}

proof fn lemma_added_concat(
    t: Document,
    a: Seq<MarkEntry>,
    b: Seq<MarkEntry>,
    s: int,
    p: int,
    c: Option<(int, int, int)>,
)
    ensures
        added_at(t, a + b, s, p, c) == added_at(t, a, s, p, c) + added_at(t, b, s, p, c),
    decreases b.len(),
{
    if b.len() == 0 {
        assert(a + b =~= a);
        assert(added_at(t, a, s, p, c) + added_at(t, b, s, p, c) =~= added_at(t, a, s, p, c));
    } else {
        assert((a + b).drop_last() =~= a + b.drop_last());
        assert((a + b).last() == b.last());
        lemma_added_concat(t, a, b.drop_last(), s, p, c);
        let e = b.last();
        if e.sec == s && e.para == p && entry_cell(e) == c && para_at(t, s, p, c) is Some {
            let m = entry_mark(para_at(t, s, p, c)->0, e);
            assert((added_at(t, a, s, p, c) + added_at(t, b.drop_last(), s, p, c)).push(m)
                =~= added_at(t, a, s, p, c) + added_at(t, b.drop_last(), s, p, c).push(m));
        }
    }
}

proof fn lemma_first_ge_range(offs: Seq<u32>, x: u32, k: int)
    requires
        0 <= k,
    ensures
        0 <= first_ge(offs, x, k) <= offs.len(),
    decreases offs.len() - k,
{
    if k < offs.len() && offs[k] < x {
        lemma_first_ge_range(offs, x, k + 1);
    }
}

/// The first `n` marks of a paragraph, written and read back, land at its
/// own location in the other document and nowhere else.
proof fn lemma_marks_prefix(
    d: Document,
    t: Document,
    q: Paragraph,
    sec: nat,
    para: nat,
    cell: Option<(nat, nat, nat)>,
    n: int,
    s: int,
    p: int,
    c: Option<(int, int, int)>,
)
    requires
        same_but_marks(d, t),
        marks_restorable(d),
        para_at(d, sec as int, para as int, cell_int(cell)) == Some(q),
        0 <= n <= q.track_marks@.len(),
    ensures
        added_at(t, mark_entries(para_marks(q, sec, para, cell).take(n)), s, p, c) == (if s == sec
            && p == para && c == cell_int(cell) {
            q.track_marks@.take(n)
        } else {
            Seq::empty()
        }),
    decreases n,
{
    let loc = cell_int(cell);
    let ms = para_marks(q, sec, para, cell);
    if n == 0 {
        assert(ms.take(0) =~= Seq::<Seq<char>>::empty());
        assert(q.track_marks@.take(0) =~= Seq::<TrackMark>::empty());
    } else {
        lemma_marks_prefix(d, t, q, sec, para, cell, n - 1, s, p, c);
        assert(ms.take(n).drop_last() =~= ms.take(n - 1));
        let tm = q.track_marks@[n - 1];
        assert(ms.take(n).last() == tm_json(q, tm, sec, para, cell));
        assert(loc_fits(sec as int, para as int, loc) && marks_read_back(q));
        lemma_first_ge_range(q.char_offsets@, tm.start_pos, 0);
        lemma_first_ge_range(q.char_offsets@, tm.end_pos, 0);
        let st = first_ge(q.char_offsets@, tm.start_pos, 0);
        let en = first_ge(q.char_offsets@, tm.end_pos, 0);
        law_mark_record_reads_back(sec, para, st as nat, en as nat, tm.tc_id, cell);
        let e = MarkEntry {
            sec: sec as u32,
            para: para as u32,
            start: st as u32,
            end: en as u32,
            tc: tm.tc_id,
            cell: cell_u32(cell),
        };
        assert(mark_entry(ms.take(n).last()) == Some(e));
        assert(mark_entries(ms.take(n)) == mark_entries(ms.take(n - 1)).push(e));
        assert(entry_cell(e) == loc);
        let prev = added_at(t, mark_entries(ms.take(n - 1)), s, p, c);
        assert(mark_entries(ms.take(n)).drop_last() =~= mark_entries(ms.take(n - 1)));
        assert(mark_entries(ms.take(n)).last() == e);
        lemma_same_para_at(d, t, s, p, c);
        if s == sec && p == para && c == loc {
            let qt = para_at(t, s, p, c)->0;
            assert(pos_reads_back(q, tm.start_pos) && pos_reads_back(q, tm.end_pos));
            assert(char_pos(qt, e.start) == char_pos(q, e.start));
            assert(char_pos(qt, e.end) == char_pos(q, e.end));
            assert(entry_mark(qt, e) == tm);
            assert(q.track_marks@.take(n) =~= q.track_marks@.take(n - 1).push(tm));
        }
    }
}

/// The marks of one paragraph, written and read back, land at its own
/// location in the other document and nowhere else.
proof fn lemma_para_added(
    d: Document,
    t: Document,
    q: Paragraph,
    sec: nat,
    para: nat,
    cell: Option<(nat, nat, nat)>,
    s: int,
    p: int,
    c: Option<(int, int, int)>,
)
    requires
        same_but_marks(d, t),
        marks_restorable(d),
        para_at(d, sec as int, para as int, cell_int(cell)) == Some(q),
    ensures
        added_at(t, mark_entries(para_marks(q, sec, para, cell)), s, p, c) == (if s == sec && p
            == para && c == cell_int(cell) {
            marks_at(d, s, p, c)
        } else {
            Seq::empty()
        }),
{
    let n = q.track_marks@.len() as int;
    lemma_marks_prefix(d, t, q, sec, para, cell, n, s, p, c);
    assert(para_marks(q, sec, para, cell).take(n) =~= para_marks(q, sec, para, cell));
    assert(q.track_marks@.take(n) =~= q.track_marks@);
}

/// The location is a paragraph of cell `cei` of control `ci`, among its first `n`.
pub open spec fn in_cell(c: Option<(int, int, int)>, ci: int, cei: int, n: int) -> bool {
    match c {
        Some((a, b, k)) => a == ci && b == cei && 0 <= k < n,
        None => false,
    }
}

/// The location is in one of the first `n` cells of control `ci`.
pub open spec fn in_table(c: Option<(int, int, int)>, ci: int, n: int) -> bool {
    match c {
        Some((a, b, _)) => a == ci && 0 <= b < n,
        None => false,
    }
}

/// The location is inside one of the first `n` controls.
pub open spec fn in_ctrls(c: Option<(int, int, int)>, n: int) -> bool {
    match c {
        Some((a, _, _)) => 0 <= a < n,
        None => false,
    }
}

proof fn lemma_cell_paras_added(
    d: Document,
    t: Document,
    ps: Seq<Paragraph>,
    sec: nat,
    para: nat,
    ci: nat,
    cei: nat,
    n: int,
    s: int,
    p: int,
    c: Option<(int, int, int)>,
)
    requires
        same_but_marks(d, t),
        marks_restorable(d),
        0 <= n <= ps.len(),
        forall|k: int|
            0 <= k < ps.len() ==> #[trigger] para_at(
                d,
                sec as int,
                para as int,
                Some((ci as int, cei as int, k)),
            ) == Some(ps[k]),
    ensures
        added_at(t, mark_entries(cell_paras_marks(ps, n, sec, para, ci, cei)), s, p, c) == (if s
            == sec && p == para && in_cell(c, ci as int, cei as int, n) {
            marks_at(d, s, p, c)
        } else {
            Seq::empty()
        }),
    decreases n,
{
    if n > 0 {
        let cell = Some((ci, cei, (n - 1) as nat));
        let a = cell_paras_marks(ps, n - 1, sec, para, ci, cei);
        let b = para_marks(ps[n - 1], sec, para, cell);
        lemma_cell_paras_added(d, t, ps, sec, para, ci, cei, n - 1, s, p, c);
        assert(para_at(d, sec as int, para as int, Some((ci as int, cei as int, n - 1))) == Some(
            ps[n - 1],
        ));
        lemma_para_added(d, t, ps[n - 1], sec, para, cell, s, p, c);
        lemma_entries_concat(a, b);
        lemma_added_concat(t, mark_entries(a), mark_entries(b), s, p, c);
        let x = added_at(t, mark_entries(a), s, p, c);
        let y = added_at(t, mark_entries(b), s, p, c);
        assert(x + Seq::<TrackMark>::empty() =~= x);
        assert(Seq::<TrackMark>::empty() + y =~= y);
    }
}

proof fn lemma_cells_added(
    d: Document,
    t: Document,
    cells: Seq<Cell>,
    sec: nat,
    para: nat,
    ci: nat,
    n: int,
    s: int,
    p: int,
    c: Option<(int, int, int)>,
)
    requires
        same_but_marks(d, t),
        marks_restorable(d),
        sec < d.sections@.len(),
        para < d.sections@[sec as int].paragraphs@.len(),
        ci < d.sections@[sec as int].paragraphs@[para as int].controls@.len(),
        d.sections@[sec as int].paragraphs@[para as int].controls@[ci as int] matches Control::Table(
            tb,
        ) && tb.cells@ == cells,
        0 <= n <= cells.len(),
    ensures
        added_at(t, mark_entries(cells_marks(cells, n, sec, para, ci)), s, p, c) == (if s == sec
            && p == para && in_table(c, ci as int, n) {
            marks_at(d, s, p, c)
        } else {
            Seq::empty()
        }),
    decreases n,
{
    if n > 0 {
        let ps = cells[n - 1].paragraphs@;
        let a = cells_marks(cells, n - 1, sec, para, ci);
        let b = cell_paras_marks(ps, ps.len() as int, sec, para, ci, (n - 1) as nat);
        lemma_cells_added(d, t, cells, sec, para, ci, n - 1, s, p, c);
        assert forall|k: int| 0 <= k < ps.len() implies #[trigger] para_at(
            d,
            sec as int,
            para as int,
            Some((ci as int, n - 1, k)),
        ) == Some(ps[k]) by {}
        lemma_cell_paras_added(d, t, ps, sec, para, ci, (n - 1) as nat, ps.len() as int, s, p, c);
        lemma_entries_concat(a, b);
        lemma_added_concat(t, mark_entries(a), mark_entries(b), s, p, c);
        let x = added_at(t, mark_entries(a), s, p, c);
        let y = added_at(t, mark_entries(b), s, p, c);
        assert(x + Seq::<TrackMark>::empty() =~= x);
        assert(Seq::<TrackMark>::empty() + y =~= y);
        if s == sec && p == para && in_table(c, ci as int, n) && !in_table(c, ci as int, n - 1) {
            let (_, _, k) = c->0;
            if !(0 <= k < ps.len()) {
                assert(para_at(d, s, p, c) is None);
            }
        }
    }
}

proof fn lemma_ctrls_added(
    d: Document,
    t: Document,
    sec: nat,
    para: nat,
    n: int,
    s: int,
    p: int,
    c: Option<(int, int, int)>,
)
    requires
        same_but_marks(d, t),
        marks_restorable(d),
        sec < d.sections@.len(),
        para < d.sections@[sec as int].paragraphs@.len(),
        0 <= n <= d.sections@[sec as int].paragraphs@[para as int].controls@.len(),
    ensures
        added_at(
            t,
            mark_entries(
                ctrls_marks(d.sections@[sec as int].paragraphs@[para as int].controls@, n, sec, para),
            ),
            s,
            p,
            c,
        ) == (if s == sec && p == para && in_ctrls(c, n) {
            marks_at(d, s, p, c)
        } else {
            Seq::empty()
        }),
    decreases n,
{
    if n > 0 {
        let ctrls = d.sections@[sec as int].paragraphs@[para as int].controls@;
        let a = ctrls_marks(ctrls, n - 1, sec, para);
        let b = ctrl_marks(ctrls[n - 1], sec, para, (n - 1) as nat);
        lemma_ctrls_added(d, t, sec, para, n - 1, s, p, c);
        let inside = s == sec && p == para && in_ctrls(c, n) && !in_ctrls(c, n - 1);
        match ctrls[n - 1] {
            Control::Table(tb) => {
                let cells = tb.cells@;
                lemma_cells_added(d, t, cells, sec, para, (n - 1) as nat, cells.len() as int, s, p, c);
                if inside {
                    let (_, e, _) = c->0;
                    if !(0 <= e < cells.len()) {
                        assert(para_at(d, s, p, c) is None);
                    }
                }
            },
            _ => {
                assert(b =~= Seq::<Seq<char>>::empty());
                assert(mark_entries(b) =~= Seq::<MarkEntry>::empty());
                if inside {
                    assert(para_at(d, s, p, c) is None);
                }
            },
        }
        lemma_entries_concat(a, b);
        lemma_added_concat(t, mark_entries(a), mark_entries(b), s, p, c);
        let x = added_at(t, mark_entries(a), s, p, c);
        let y = added_at(t, mark_entries(b), s, p, c);
        assert(x + Seq::<TrackMark>::empty() =~= x);
        assert(Seq::<TrackMark>::empty() + y =~= y);
    }
}

proof fn lemma_host_added(
    d: Document,
    t: Document,
    sec: nat,
    para: nat,
    s: int,
    p: int,
    c: Option<(int, int, int)>,
)
    requires
        same_but_marks(d, t),
        marks_restorable(d),
        sec < d.sections@.len(),
        para < d.sections@[sec as int].paragraphs@.len(),
    ensures
        added_at(
            t,
            mark_entries(host_marks(d.sections@[sec as int].paragraphs@[para as int], sec, para)),
            s,
            p,
            c,
        ) == (if s == sec && p == para {
            marks_at(d, s, p, c)
        } else {
            Seq::empty()
        }),
{
    let host = d.sections@[sec as int].paragraphs@[para as int];
    let n = host.controls@.len() as int;
    let a = ctrls_marks(host.controls@, n, sec, para);
    let b = para_marks(host, sec, para, None);
    lemma_ctrls_added(d, t, sec, para, n, s, p, c);
    assert(para_at(d, sec as int, para as int, cell_int(None)) == Some(host));
    lemma_para_added(d, t, host, sec, para, None, s, p, c);
    lemma_entries_concat(a, b);
    lemma_added_concat(t, mark_entries(a), mark_entries(b), s, p, c);
    let x = added_at(t, mark_entries(a), s, p, c);
    let y = added_at(t, mark_entries(b), s, p, c);
    assert(x + Seq::<TrackMark>::empty() =~= x);
    assert(Seq::<TrackMark>::empty() + y =~= y);
    if s == sec && p == para && c is Some && !in_ctrls(c, n) {
        assert(para_at(d, s, p, c) is None);
    }
}

proof fn lemma_sec_added(
    d: Document,
    t: Document,
    sec: nat,
    n: int,
    s: int,
    p: int,
    c: Option<(int, int, int)>,
)
    requires
        same_but_marks(d, t),
        marks_restorable(d),
        sec < d.sections@.len(),
        0 <= n <= d.sections@[sec as int].paragraphs@.len(),
    ensures
        added_at(t, mark_entries(sec_marks(d.sections@[sec as int].paragraphs@, n, sec)), s, p, c)
            == (if s == sec && 0 <= p < n {
            marks_at(d, s, p, c)
        } else {
            Seq::empty()
        }),
    decreases n,
{
    if n > 0 {
        let paras = d.sections@[sec as int].paragraphs@;
        let a = sec_marks(paras, n - 1, sec);
        let b = host_marks(paras[n - 1], sec, (n - 1) as nat);
        lemma_sec_added(d, t, sec, n - 1, s, p, c);
        lemma_host_added(d, t, sec, (n - 1) as nat, s, p, c);
        lemma_entries_concat(a, b);
        lemma_added_concat(t, mark_entries(a), mark_entries(b), s, p, c);
        let x = added_at(t, mark_entries(a), s, p, c);
        let y = added_at(t, mark_entries(b), s, p, c);
        assert(x + Seq::<TrackMark>::empty() =~= x);
        assert(Seq::<TrackMark>::empty() + y =~= y);
    }
}

proof fn lemma_doc_added(d: Document, t: Document, n: int, s: int, p: int, c: Option<(int, int, int)>)
    requires
        same_but_marks(d, t),
        marks_restorable(d),
        0 <= n <= d.sections@.len(),
    ensures
        added_at(t, mark_entries(doc_marks(d.sections@, n)), s, p, c) == (if 0 <= s < n {
            marks_at(d, s, p, c)
        } else {
            Seq::empty()
        }),
    decreases n,
{
    if n > 0 {
        let paras = d.sections@[n - 1].paragraphs@;
        let a = doc_marks(d.sections@, n - 1);
        let b = sec_marks(paras, paras.len() as int, (n - 1) as nat);
        lemma_doc_added(d, t, n - 1, s, p, c);
        lemma_sec_added(d, t, (n - 1) as nat, paras.len() as int, s, p, c);
        lemma_entries_concat(a, b);
        lemma_added_concat(t, mark_entries(a), mark_entries(b), s, p, c);
        let x = added_at(t, mark_entries(a), s, p, c);
        let y = added_at(t, mark_entries(b), s, p, c);
        assert(x + Seq::<TrackMark>::empty() =~= x);
        assert(Seq::<TrackMark>::empty() + y =~= y);
        if s == n - 1 && !(0 <= p < paras.len()) {
            assert(para_at(d, s, p, c) is None);
        }
    }
}

/// A written sidecar restores the marks it was written from: restored into
/// a document with the same text, paragraphs and tables, the marks it adds
/// at each location (body paragraph, or paragraph of a table cell) are the
/// marks the source document held there, in the same order and at the same
/// UTF-16 positions. It asks that the change records' author and date hold
/// no bracket or brace, that every location fits in a `u32`, and that every
/// mark position is the start of a character or the end of the text.
pub proof fn law_sidecar_restores_marks(
    d: Document,
    t: Document,
    s: int,
    p: int,
    c: Option<(int, int, int)>,
)
    requires
        forall|k: int|
            0 <= k < d.track_changes@.len() ==> plain_text(#[trigger] d.track_changes@[k].author@)
                && plain_text(d.track_changes@[k].date@),
        sidecar(d) is Some,
        same_but_marks(d, t),
        marks_restorable(d),
    ensures
        added_at(t, sidecar_marks(sidecar(d)->0), s, p, c) == marks_at(d, s, p, c),
{
    law_sidecar_marks_read_back(d);
    let n = d.sections@.len() as int;
    lemma_doc_added(d, t, n, s, p, c);
    if !(0 <= s < n) {
        assert(para_at(d, s, p, c) is None);
    }
}


/// A written sidecar restores the tracking state it was written from:
/// restored into the same document stripped of its tracking state (same
/// text, paragraphs and tables and next id, no change record, no mark), it
/// gives back every change record (id, kind, author, date) in order, the
/// marks at every location, and a next id past every record's id. It asks
/// what `law_sidecar_restores_marks` asks.
pub proof fn law_sidecar_roundtrip(d: Document, t: Document, r: Document)
    requires
        forall|k: int|
            0 <= k < d.track_changes@.len() ==> plain_text(#[trigger] d.track_changes@[k].author@)
                && plain_text(d.track_changes@[k].date@),
        sidecar(d) is Some,
        marks_restorable(d),
        same_but_marks(d, t),
        t.track_changes@.len() == 0,
        t.next_track_id == d.next_track_id,
        forall|s: int, p: int, c: Option<(int, int, int)>| (#[trigger] marks_at(t, s, p, c)).len() == 0,
        restored(t, sidecar(d)->0, r),
    ensures
        r.track_changes@.len() == d.track_changes@.len(),
        forall|k: int|
            0 <= k < d.track_changes@.len() ==> rec_is(
                #[trigger] r.track_changes@[k],
                change_tuple(d.track_changes@[k]),
            ),
        forall|s: int, p: int, c: Option<(int, int, int)>|
            #[trigger] marks_at(r, s, p, c) == marks_at(d, s, p, c),
        r.next_track_id == (if max_id(d.track_changes@.map_values(|x: TrackChangeRec| change_tuple(x))) + 1
            > d.next_track_id {
            (max_id(d.track_changes@.map_values(|x: TrackChangeRec| change_tuple(x))) + 1) as u32
        } else {
            d.next_track_id
        }),
{
    let json = sidecar(d)->0;
    law_sidecar_changes_read_back(d);
    assert(sidecar_changes(json) == d.track_changes@.map_values(|x: TrackChangeRec| change_tuple(x)));
    assert forall|k: int| 0 <= k < d.track_changes@.len() implies rec_is(
        #[trigger] r.track_changes@[k],
        change_tuple(d.track_changes@[k]),
    ) by {
        assert(r.track_changes@[t.track_changes@.len() + k] == r.track_changes@[k]);
        assert(sidecar_changes(json)[k] == change_tuple(d.track_changes@[k]));
    }
    assert forall|s: int, p: int, c: Option<(int, int, int)>| #[trigger] marks_at(r, s, p, c) == marks_at(d, s, p, c) by {
        law_sidecar_restores_marks(d, t, s, p, c);
        assert(marks_at(t, s, p, c).len() == 0);
        assert(marks_at(t, s, p, c) + added_at(t, sidecar_marks(json), s, p, c) =~= added_at(
            t,
            sidecar_marks(json),
            s,
            p,
            c,
        ));
    }
}

} // verus!
