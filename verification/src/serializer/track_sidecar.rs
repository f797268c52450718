//! Tracked-change sidecar: a small JSON document stored next to the HWPX
//! package that carries the tracked-change records and the change marks.
//!
//! Format: `{"v":1,"next":N,"changes":[{id,kind,author,date}],"marks":[{sec,para,start,end,tc}]}`,
//! where a mark inside a table cell also carries `ci`, `cei` and `cpi`.
//! Mark positions are stored as text character indices, which survive a
//! re-parse of the same body, and are mapped back to UTF-16 positions on restore.

use crate::model::control::{Cell, Control};
use crate::model::document::{Document, Section, TrackChangeRec, TrackKind};
use crate::model::paragraph::{Paragraph, TrackMark};
use crate::text::{
    chars_range, decimal, find_chars, find_from, hex4_lower, join_seq, join_strings, push_decimal,
    push_hex4_lower, str_chars, string_of, string_push, string_push_str, string_views,
};
use vstd::prelude::*;

verus! {

// ---------------------------------------------------------------------------
// Writing
// ---------------------------------------------------------------------------

/// One character as it appears inside a JSON string.
pub open spec fn esc_char(c: char) -> Seq<char> {
    if c == '"' {
        seq!['\\', '"']
    } else if c == '\\' {
        seq!['\\', '\\']
    } else if c == '\n' {
        seq!['\\', 'n']
    } else if (c as u32) < 0x20 {
        seq!['\\', 'u'] + hex4_lower(c as nat)
    } else {
        seq![c]
    }
}

/// A string escaped for a JSON string literal.
pub open spec fn esc(s: Seq<char>) -> Seq<char>
    decreases s.len(),
{
    if s.len() == 0 {
        Seq::empty()
    } else {
        esc(s.drop_last()) + esc_char(s.last())
    }
}

fn push_esc_char(out: &mut String, c: char)
    ensures
        final(out)@ == old(out)@ + esc_char(c),
{
    if c == '"' {
        string_push_str(out, "\\\"");
        proof {
            reveal_strlit("\\\"");
        }
    } else if c == '\\' {
        string_push_str(out, "\\\\");
        proof {
            reveal_strlit("\\\\");
        }
    } else if c == '\n' {
        string_push_str(out, "\\n");
        proof {
            reveal_strlit("\\n");
        }
    } else if (c as u32) < 0x20 {
        string_push_str(out, "\\u");
        proof {
            reveal_strlit("\\u");
        }
        push_hex4_lower(out, c as u32);
        proof {
            assert(out@ == old(out)@ + esc_char(c));
        }
    } else {
        string_push(out, c);
    }
}

fn push_esc(out: &mut String, s: &str)
    ensures
        final(out)@ == old(out)@ + esc(s@),
{
    let ghost start = out@;
    for c in it: s.chars()
        invariant
            it.seq() == s@,
            out@ == start + esc(it.seq().take(it.index() as int)),
    {
        let ghost k = it.index() as int;
        let ghost before = out@;
        push_esc_char(out, c);
        proof {
            assert(s@.take(k + 1).drop_last() == s@.take(k));
            assert(s@.take(k + 1).last() == c);
            assert(esc(s@.take(k + 1)) == esc(s@.take(k)) + esc_char(c));
            assert(out@ == start + esc(s@.take(k)) + esc_char(c));
        }
    }
    proof {
        assert(s@.take(s@.len() as int) == s@);
    }
}

/// The name a change kind is written with.
pub open spec fn kind_text(k: TrackKind) -> Seq<char> {
    match k {
        TrackKind::Insert => "insert"@,
        TrackKind::Delete => "delete"@,
    }
}

/// The JSON object of one tracked-change record.
#[verifier::opaque]
pub open spec fn change_json(r: TrackChangeRec) -> Seq<char> {
    "{\"id\":"@ + decimal(r.id as nat) + ",\"kind\":\""@ + kind_text(r.kind) + "\",\"author\":\""@
        + esc(r.author@) + "\",\"date\":\""@ + esc(r.date@) + "\"}"@
}

/// The JSON objects of a list of records.
pub open spec fn changes_json(recs: Seq<TrackChangeRec>) -> Seq<Seq<char>> {
    recs.map_values(|r: TrackChangeRec| change_json(r))
}

fn change_text(r: &TrackChangeRec) -> (s: String)
    ensures
        s@ == change_json(*r),
{
    let mut s = string_of("{\"id\":");
    push_decimal(&mut s, r.id as u64);
    string_push_str(&mut s, ",\"kind\":\"");
    match r.kind {
        TrackKind::Insert => string_push_str(&mut s, "insert"),
        TrackKind::Delete => string_push_str(&mut s, "delete"),
    }
    string_push_str(&mut s, "\",\"author\":\"");
    push_esc(&mut s, r.author.as_str());
    string_push_str(&mut s, "\",\"date\":\"");
    push_esc(&mut s, r.date.as_str());
    string_push_str(&mut s, "\"}");
    proof {
        reveal(change_json);
    }
    s
}

/// The index of the first entry of `offs`, from `k` on, that is at least `x`;
/// the length of `offs` when there is none.
pub open spec fn first_ge(offs: Seq<u32>, x: u32, k: int) -> int
    decreases offs.len() - k,
{
    if k < 0 || k >= offs.len() {
        offs.len() as int
    } else if offs[k] >= x {
        k
    } else {
        first_ge(offs, x, k + 1)
    }
}

fn first_ge_index(offs: &Vec<u32>, x: u32) -> (r: usize)
    ensures
        r == first_ge(offs@, x, 0),
{
    let mut k: usize = 0;
    while k < offs.len()
        invariant
            k <= offs.len(),
            first_ge(offs@, x, k as int) == first_ge(offs@, x, 0),
        decreases offs.len() - k,
    {
        if offs[k] >= x {
            return k;
        }
        k += 1;
    }
    k
}

/// The cell coordinates of a mark as natural numbers.
pub open spec fn cell_nat(cell: Option<(usize, usize, usize)>) -> Option<(nat, nat, nat)> {
    match cell {
        Some((a, b, c)) => Some((a as nat, b as nat, c as nat)),
        None => None,
    }
}

/// The table-cell part of a mark: `,"ci":..,"cei":..,"cpi":..`.
pub open spec fn cell_text(cell: Option<(nat, nat, nat)>) -> Seq<char> {
    match cell {
        Some((ci, cei, cpi)) => ",\"ci\":"@ + decimal(ci) + ",\"cei\":"@ + decimal(cei) + ",\"cpi\":"@
            + decimal(cpi),
        None => Seq::empty(),
    }
}

/// The JSON object of one mark.
pub open spec fn mark_json(
    sec: nat,
    para: nat,
    start: nat,
    end: nat,
    tc: u32,
    cell: Option<(nat, nat, nat)>,
) -> Seq<char> {
    "{\"sec\":"@ + decimal(sec) + ",\"para\":"@ + decimal(para) + ",\"start\":"@ + decimal(start)
        + ",\"end\":"@ + decimal(end) + ",\"tc\":"@ + decimal(tc as nat) + cell_text(cell) + "}"@
}

/// The JSON object of mark `tm` of paragraph `p`, its positions turned into
/// character indices.
pub open spec fn tm_json(
    p: Paragraph,
    tm: TrackMark,
    sec: nat,
    para: nat,
    cell: Option<(nat, nat, nat)>,
) -> Seq<char> {
    mark_json(
        sec,
        para,
        first_ge(p.char_offsets@, tm.start_pos, 0) as nat,
        first_ge(p.char_offsets@, tm.end_pos, 0) as nat,
        tm.tc_id,
        cell,
    )
}

/// The mark objects of one paragraph.
pub open spec fn para_marks(p: Paragraph, sec: nat, para: nat, cell: Option<(nat, nat, nat)>) -> Seq<
    Seq<char>,
> {
    p.track_marks@.map_values(|tm: TrackMark| tm_json(p, tm, sec, para, cell))
}

/// The mark objects of the first `n` paragraphs of cell `cei` of control `ci`.
pub open spec fn cell_paras_marks(
    paras: Seq<Paragraph>,
    n: int,
    sec: nat,
    para: nat,
    ci: nat,
    cei: nat,
) -> Seq<Seq<char>>
    decreases n,
{
    if n <= 0 {
        Seq::empty()
    } else {
        cell_paras_marks(paras, n - 1, sec, para, ci, cei) + para_marks(
            paras[n - 1],
            sec,
            para,
            Some((ci, cei, (n - 1) as nat)),
        )
    }
}

/// The mark objects of the first `n` cells of table control `ci`.
pub open spec fn cells_marks(cells: Seq<Cell>, n: int, sec: nat, para: nat, ci: nat) -> Seq<
    Seq<char>,
>
    decreases n,
{
    if n <= 0 {
        Seq::empty()
    } else {
        let ps = cells[n - 1].paragraphs@;
        cells_marks(cells, n - 1, sec, para, ci) + cell_paras_marks(
            ps,
            ps.len() as int,
            sec,
            para,
            ci,
            (n - 1) as nat,
        )
    }
}

/// The mark objects inside control `c` (only tables carry any).
pub open spec fn ctrl_marks(c: Control, sec: nat, para: nat, ci: nat) -> Seq<Seq<char>> {
    match c {
        Control::Table(t) => cells_marks(t.cells@, t.cells@.len() as int, sec, para, ci),
        _ => Seq::empty(),
    }
}

/// The mark objects inside the first `n` controls.
pub open spec fn ctrls_marks(ctrls: Seq<Control>, n: int, sec: nat, para: nat) -> Seq<Seq<char>>
    decreases n,
{
    if n <= 0 {
        Seq::empty()
    } else {
        ctrls_marks(ctrls, n - 1, sec, para) + ctrl_marks(ctrls[n - 1], sec, para, (n - 1) as nat)
    }
}

/// The mark objects of a body paragraph: those of its table cells first,
/// then its own.
pub open spec fn host_marks(host: Paragraph, sec: nat, para: nat) -> Seq<Seq<char>> {
    ctrls_marks(host.controls@, host.controls@.len() as int, sec, para) + para_marks(
        host,
        sec,
        para,
        None,
    )
}

/// The mark objects of the first `n` body paragraphs of section `sec`.
pub open spec fn sec_marks(paras: Seq<Paragraph>, n: int, sec: nat) -> Seq<Seq<char>>
    decreases n,
{
    if n <= 0 {
        Seq::empty()
    } else {
        sec_marks(paras, n - 1, sec) + host_marks(paras[n - 1], sec, (n - 1) as nat)
    }
}

/// The mark objects of the first `n` sections.
pub open spec fn doc_marks(secs: Seq<Section>, n: int) -> Seq<Seq<char>>
    decreases n,
{
    if n <= 0 {
        Seq::empty()
    } else {
        let ps = secs[n - 1].paragraphs@;
        doc_marks(secs, n - 1) + sec_marks(ps, ps.len() as int, (n - 1) as nat)
    }
}

/// No paragraph in a table cell inside control `c` carries a mark (only
/// tables hold paragraphs with marks).
pub open spec fn ctrl_unmarked(c: Control) -> bool {
    match c {
        Control::Table(t) => forall|ce: int, k: int|
            0 <= ce < t.cells@.len() && 0 <= k < t.cells@[ce].paragraphs@.len()
                ==> #[trigger] t.cells@[ce].paragraphs@[k].track_marks@.len() == 0,
        _ => true,
    }
}

/// Neither a body paragraph nor any paragraph in a table cell of one of its
/// controls carries a mark.
pub open spec fn host_unmarked(p: Paragraph) -> bool {
    &&& p.track_marks@.len() == 0
    &&& forall|i: int| 0 <= i < p.controls@.len() ==> ctrl_unmarked(#[trigger] p.controls@[i])
}

/// The document carries a mark: in a body paragraph, or in a paragraph of a
/// table cell inside a body paragraph's control.
pub open spec fn has_track_marks(doc: Document) -> bool {
    exists|s: int, p: int|
        0 <= s < doc.sections@.len() && 0 <= p < doc.sections@[s].paragraphs@.len()
            && !host_unmarked(#[trigger] doc.sections@[s].paragraphs@[p])
}

proof fn lemma_cell_paras_empty(ps: Seq<Paragraph>, n: int, sec: nat, para: nat, ci: nat, cei: nat)
    requires
        0 <= n <= ps.len(),
    ensures
        cell_paras_marks(ps, n, sec, para, ci, cei).len() == 0 <==> forall|k: int|
            0 <= k < n ==> #[trigger] ps[k].track_marks@.len() == 0,
    decreases n,
{
    if n > 0 {
        lemma_cell_paras_empty(ps, n - 1, sec, para, ci, cei);
    }
}

proof fn lemma_cells_empty(cells: Seq<Cell>, n: int, sec: nat, para: nat, ci: nat)
    requires
        0 <= n <= cells.len(),
    ensures
        cells_marks(cells, n, sec, para, ci).len() == 0 <==> forall|ce: int, k: int|
            0 <= ce < n && 0 <= k < cells[ce].paragraphs@.len()
                ==> #[trigger] cells[ce].paragraphs@[k].track_marks@.len() == 0,
    decreases n,
{
    if n > 0 {
        lemma_cells_empty(cells, n - 1, sec, para, ci);
        let ps = cells[n - 1].paragraphs@;
        lemma_cell_paras_empty(ps, ps.len() as int, sec, para, ci, (n - 1) as nat);
        if cells_marks(cells, n, sec, para, ci).len() == 0 {
            assert forall|ce: int, k: int|
                0 <= ce < n && 0 <= k < cells[ce].paragraphs@.len() implies #[trigger] cells[ce].paragraphs@[k].track_marks@.len()
                == 0 by {
                if ce == n - 1 {
                    assert(ps[k].track_marks@.len() == 0);
                }
            }
        } else {
            if forall|ce: int, k: int|
                0 <= ce < n && 0 <= k < cells[ce].paragraphs@.len()
                    ==> #[trigger] cells[ce].paragraphs@[k].track_marks@.len() == 0 {
                assert forall|k: int| 0 <= k < ps.len() implies #[trigger] ps[k].track_marks@.len() == 0 by {
                    assert(cells[n - 1].paragraphs@[k].track_marks@.len() == 0);
                }
            }
        }
    }
}

proof fn lemma_ctrls_empty(ctrls: Seq<Control>, n: int, sec: nat, para: nat)
    requires
        0 <= n <= ctrls.len(),
    ensures
        ctrls_marks(ctrls, n, sec, para).len() == 0 <==> forall|i: int|
            0 <= i < n ==> ctrl_unmarked(#[trigger] ctrls[i]),
    decreases n,
{
    if n > 0 {
        lemma_ctrls_empty(ctrls, n - 1, sec, para);
        match ctrls[n - 1] {
            Control::Table(t) => {
                lemma_cells_empty(t.cells@, t.cells@.len() as int, sec, para, (n - 1) as nat);
            },
            _ => {},
        }
    }
}

proof fn lemma_sec_empty(paras: Seq<Paragraph>, n: int, sec: nat)
    requires
        0 <= n <= paras.len(),
    ensures
        sec_marks(paras, n, sec).len() == 0 <==> forall|p: int|
            0 <= p < n ==> host_unmarked(#[trigger] paras[p]),
    decreases n,
{
    if n > 0 {
        lemma_sec_empty(paras, n - 1, sec);
        let h = paras[n - 1];
        lemma_ctrls_empty(h.controls@, h.controls@.len() as int, sec, (n - 1) as nat);
    }
}

proof fn lemma_doc_empty(secs: Seq<Section>, n: int)
    requires
        0 <= n <= secs.len(),
    ensures
        doc_marks(secs, n).len() == 0 <==> forall|s: int, p: int|
            0 <= s < n && 0 <= p < secs[s].paragraphs@.len() ==> host_unmarked(
                #[trigger] secs[s].paragraphs@[p],
            ),
    decreases n,
{
    if n > 0 {
        lemma_doc_empty(secs, n - 1);
        let ps = secs[n - 1].paragraphs@;
        lemma_sec_empty(ps, ps.len() as int, (n - 1) as nat);
        if doc_marks(secs, n).len() != 0 && forall|s: int, p: int|
            0 <= s < n && 0 <= p < secs[s].paragraphs@.len() ==> host_unmarked(
                #[trigger] secs[s].paragraphs@[p],
            ) {
            assert forall|p: int| 0 <= p < ps.len() implies host_unmarked(#[trigger] ps[p]) by {
                assert(host_unmarked(secs[n - 1].paragraphs@[p]));
            }
        }
    }
}

/// A document writes no mark object exactly when it carries no mark.
pub proof fn lemma_no_mark_objects(doc: Document)
    ensures
        doc_marks(doc.sections@, doc.sections@.len() as int).len() == 0 <==> !has_track_marks(doc),
{
    lemma_doc_empty(doc.sections@, doc.sections@.len() as int);
}

/// The sidecar of a document: none exactly when its tracking state is empty,
/// with no change record and no mark anywhere.
pub open spec fn sidecar(doc: Document) -> Option<Seq<char>> {
    if doc.track_changes@.len() == 0 && !has_track_marks(doc) {
        None
    } else {
        Some(
            "{\"v\":1,\"next\":"@ + decimal(doc.next_track_id as nat) + ",\"changes\":["@ + join_seq(
                changes_json(doc.track_changes@),
                ","@,
            ) + "],\"marks\":["@ + join_seq(
                doc_marks(doc.sections@, doc.sections@.len() as int),
                ","@,
            ) + "]}"@,
        )
    }
}

fn cell_string(cell: Option<(usize, usize, usize)>) -> (s: String)
    ensures
        s@ == cell_text(
            cell_nat(cell),
        ),
{
    let mut s = String::new();
    match cell {
        Some((ci, cei, cpi)) => {
            string_push_str(&mut s, ",\"ci\":");
            push_decimal(&mut s, ci as u64);
            string_push_str(&mut s, ",\"cei\":");
            push_decimal(&mut s, cei as u64);
            string_push_str(&mut s, ",\"cpi\":");
            push_decimal(&mut s, cpi as u64);
        },
        None => {},
    }
    s
}

fn push_mark(
    marks: &mut Vec<String>,
    p: &Paragraph,
    tm: &TrackMark,
    sec: usize,
    para: usize,
    cell: Option<(usize, usize, usize)>,
)
    ensures
        string_views(final(marks)@) == string_views(old(marks)@).push(
            tm_json(
                *p,
                *tm,
                sec as nat,
                para as nat,
                cell_nat(cell),
            ),
        ),
{
    let start = first_ge_index(&p.char_offsets, tm.start_pos);
    let end = first_ge_index(&p.char_offsets, tm.end_pos);
    let mut s = string_of("{\"sec\":");
    push_decimal(&mut s, sec as u64);
    string_push_str(&mut s, ",\"para\":");
    push_decimal(&mut s, para as u64);
    string_push_str(&mut s, ",\"start\":");
    push_decimal(&mut s, start as u64);
    string_push_str(&mut s, ",\"end\":");
    push_decimal(&mut s, end as u64);
    string_push_str(&mut s, ",\"tc\":");
    push_decimal(&mut s, tm.tc_id as u64);
    let ct = cell_string(cell);
    string_push_str(&mut s, ct.as_str());
    string_push_str(&mut s, "}");
    let ghost before = string_views(marks@);
    marks.push(s);
    proof {
        assert(string_views(marks@) =~= before.push(s@));
    }
}

fn push_para_marks(
    marks: &mut Vec<String>,
    p: &Paragraph,
    sec: usize,
    para: usize,
    cell: Option<(usize, usize, usize)>,
)
    ensures
        string_views(final(marks)@) == string_views(old(marks)@) + para_marks(
            *p,
            sec as nat,
            para as nat,
            cell_nat(cell),
        ),
{
    let ghost base = string_views(marks@);
    let ghost cs = cell_nat(cell);
    let ghost all = para_marks(*p, sec as nat, para as nat, cs);
    for k in 0..p.track_marks.len()
        invariant
            cs == cell_nat(cell),
            all == para_marks(*p, sec as nat, para as nat, cs),
            all.len() == p.track_marks@.len(),
            string_views(marks@) == base + all.take(k as int),
    {
        let ghost before = string_views(marks@);
        push_mark(marks, p, &p.track_marks[k], sec, para, cell);
        proof {
            assert(all[k as int] == tm_json(*p, p.track_marks@[k as int], sec as nat, para as nat, cs));
            assert(all.take(k + 1) == all.take(k as int).push(all[k as int]));
            assert(before.push(all[k as int]) == base + all.take(k + 1));
            assert(string_views(marks@) == before.push(all[k as int]));
        }
    }
    proof {
        assert(all.take(p.track_marks@.len() as int) == all);
    }
}

fn push_cell_paras_marks(
    marks: &mut Vec<String>,
    cell: &Cell,
    sec: usize,
    para: usize,
    ci: usize,
    cei: usize,
)
    ensures
        string_views(final(marks)@) == string_views(old(marks)@) + cell_paras_marks(
            cell.paragraphs@,
            cell.paragraphs@.len() as int,
            sec as nat,
            para as nat,
            ci as nat,
            cei as nat,
        ),
{
    let ghost base = string_views(marks@);
    let ghost ps = cell.paragraphs@;
    for k in 0..cell.paragraphs.len()
        invariant
            ps == cell.paragraphs@,
            string_views(marks@) == base + cell_paras_marks(
                ps,
                k as int,
                sec as nat,
                para as nat,
                ci as nat,
                cei as nat,
            ),
    {
        push_para_marks(marks, &cell.paragraphs[k], sec, para, Some((ci, cei, k)));
        proof {
            let prev = cell_paras_marks(ps, k as int, sec as nat, para as nat, ci as nat, cei as nat);
            let add = para_marks(ps[k as int], sec as nat, para as nat, Some((ci as nat, cei as nat, k as nat)));
            assert(base + prev + add == base + (prev + add));
        }
    }
}

fn push_ctrl_marks(marks: &mut Vec<String>, c: &Control, sec: usize, para: usize, ci: usize)
    ensures
        string_views(final(marks)@) == string_views(old(marks)@) + ctrl_marks(
            *c,
            sec as nat,
            para as nat,
            ci as nat,
        ),
{
    match c {
        Control::Table(t) => {
            let ghost base = string_views(marks@);
            let ghost cells = t.cells@;
            for k in 0..t.cells.len()
                invariant
                    cells == t.cells@,
                    string_views(marks@) == base + cells_marks(
                        cells,
                        k as int,
                        sec as nat,
                        para as nat,
                        ci as nat,
                    ),
            {
                push_cell_paras_marks(marks, &t.cells[k], sec, para, ci, k);
                proof {
                    let prev = cells_marks(cells, k as int, sec as nat, para as nat, ci as nat);
                    let ps = cells[k as int].paragraphs@;
                    let add = cell_paras_marks(ps, ps.len() as int, sec as nat, para as nat, ci as nat, k as nat);
                    assert(base + prev + add == base + (prev + add));
                }
            }
        },
        _ => {
            proof {
                assert(string_views(marks@) == string_views(marks@) + Seq::<Seq<char>>::empty());
            }
        },
    }
}

fn push_host_marks(marks: &mut Vec<String>, host: &Paragraph, sec: usize, para: usize)
    ensures
        string_views(final(marks)@) == string_views(old(marks)@) + host_marks(
            *host,
            sec as nat,
            para as nat,
        ),
{
    let ghost base = string_views(marks@);
    let ghost cs = host.controls@;
    for k in 0..host.controls.len()
        invariant
            cs == host.controls@,
            string_views(marks@) == base + ctrls_marks(cs, k as int, sec as nat, para as nat),
    {
        push_ctrl_marks(marks, &host.controls[k], sec, para, k);
        proof {
            let prev = ctrls_marks(cs, k as int, sec as nat, para as nat);
            let add = ctrl_marks(cs[k as int], sec as nat, para as nat, k as nat);
            assert(base + prev + add == base + (prev + add));
        }
    }
    let ghost mid = string_views(marks@);
    push_para_marks(marks, host, sec, para, None);
    proof {
        let a = ctrls_marks(cs, cs.len() as int, sec as nat, para as nat);
        let b = para_marks(*host, sec as nat, para as nat, None);
        assert(base + a + b == base + (a + b));
    }
}

fn push_doc_marks(marks: &mut Vec<String>, doc: &Document)
    requires
        old(marks)@.len() == 0,
    ensures
        string_views(final(marks)@) == doc_marks(doc.sections@, doc.sections@.len() as int),
{
    let ghost secs = doc.sections@;
    proof {
        assert(string_views(marks@) =~= Seq::<Seq<char>>::empty());
    }
    for s in 0..doc.sections.len()
        invariant
            secs == doc.sections@,
            string_views(marks@) == doc_marks(secs, s as int),
    {
        let sec = &doc.sections[s];
        let ghost ps = sec.paragraphs@;
        let ghost base = string_views(marks@);
        for p in 0..sec.paragraphs.len()
            invariant
                ps == sec.paragraphs@,
                string_views(marks@) == base + sec_marks(ps, p as int, s as nat),
        {
            push_host_marks(marks, &sec.paragraphs[p], s, p);
            proof {
                let prev = sec_marks(ps, p as int, s as nat);
                let add = host_marks(ps[p as int], s as nat, p as nat);
                assert(base + prev + add == base + (prev + add));
            }
        }
    }
}

/// Builds the sidecar JSON; `None` when the document's tracking state is
/// empty (no change record, and no mark in a body paragraph or in a table
/// cell), so that nothing is written.
pub fn build_track_sidecar(doc: &Document) -> (r: Option<String>)
    ensures
        match r {
            Some(s) => sidecar(*doc) == Some(s@),
            None => sidecar(*doc) is None,
        },
{
    let mut marks: Vec<String> = Vec::new();
    push_doc_marks(&mut marks, doc);
    proof {
        lemma_no_mark_objects(*doc);
    }
    if doc.track_changes.len() == 0 && marks.len() == 0 {
        return None;
    }
    let mut changes: Vec<String> = Vec::new();
    let ghost recs = doc.track_changes@;
    for k in 0..doc.track_changes.len()
        invariant
            recs == doc.track_changes@,
            string_views(changes@) == changes_json(recs).take(k as int),
    {
        let c = change_text(&doc.track_changes[k]);
        let ghost before = string_views(changes@);
        changes.push(c);
        proof {
            assert(string_views(changes@) =~= before.push(c@));
            assert(changes_json(recs).take(k + 1) =~= changes_json(recs).take(k as int).push(
                change_json(recs[k as int]),
            ));
        }
    }
    proof {
        assert(changes_json(recs).take(recs.len() as int) =~= changes_json(recs));
    }
    let mut out = string_of("{\"v\":1,\"next\":");
    push_decimal(&mut out, doc.next_track_id as u64);
    string_push_str(&mut out, ",\"changes\":[");
    let cj = join_strings(&changes, ",");
    string_push_str(&mut out, cj.as_str());
    string_push_str(&mut out, "],\"marks\":[");
    let mj = join_strings(&marks, ",");
    string_push_str(&mut out, mj.as_str());
    string_push_str(&mut out, "]}");
    Some(out)
}

// ---------------------------------------------------------------------------
// Reading: a minimal scanner for the format written above
// ---------------------------------------------------------------------------

/// The pattern `"key` followed by `tail`.
pub open spec fn key_pat(key: Seq<char>, tail: Seq<char>) -> Seq<char> {
    "\""@ + key + tail
}

fn key_pattern(key: &str, tail: &str) -> (v: Vec<char>)
    ensures
        v@ == key_pat(key@, tail@),
{
    let mut s = string_of("\"");
    string_push_str(&mut s, key);
    string_push_str(&mut s, tail);
    str_chars(s.as_str())
}

/// Where the array opened before `k` closes: the scan keeps a bracket depth,
/// skips string literals (a quote preceded by a backslash does not end one)
/// and stops at the `]` that brings the depth to zero.
pub open spec fn close_from(s: Seq<char>, k: int, depth: int, in_str: bool, prev: char) -> Option<
    int,
>
    decreases s.len() - k,
{
    if k < 0 || k >= s.len() {
        None
    } else {
        let b = s[k];
        if in_str {
            close_from(s, k + 1, depth, !(b == '"' && prev != '\\'), b)
        } else if b == '"' {
            close_from(s, k + 1, depth, true, b)
        } else if b == '[' {
            close_from(s, k + 1, depth + 1, false, b)
        } else if b == ']' {
            if depth - 1 == 0 {
                Some(k)
            } else {
                close_from(s, k + 1, depth - 1, false, b)
            }
        } else {
            close_from(s, k + 1, depth, false, b)
        }
    }
}

/// The text between `"key":[` and its matching `]`.
pub open spec fn array_body(s: Seq<char>, key: Seq<char>) -> Option<Seq<char>> {
    let pat = key_pat(key, "\":["@);
    match find_from(s, pat, 0) {
        None => None,
        Some(p) => {
            let i = p + pat.len();
            match close_from(s, i, 1, false, '\0') {
                Some(j) => Some(s.subrange(i, j)),
                None => None,
            }
        },
    }
}

fn extract_array(json: &[char], key: &str) -> (r: Option<Vec<char>>)
    ensures
        match r {
            Some(v) => array_body(json@, key@) == Some(v@),
            None => array_body(json@, key@) is None,
        },
{
    let pat = key_pattern(key, "\":[");
    let found = find_chars(json, pat.as_slice(), 0);
    if found.is_none() {
        return None;
    }
    let p = found.unwrap();
    assert(p + pat@.len() <= json@.len());
    assert(pat.len() == pat@.len());
    assert(json@.len() == json.len());
    let i = p + pat.len();
    assert(array_body(json@, key@) == match close_from(json@, i as int, 1, false, '\0') {
        Some(e) => Some(json@.subrange(i as int, e)),
        None => None,
    });
    let mut depth: i128 = 1;
    let mut j = i;
    let mut in_str = false;
    let mut prev: char = '\0';
    while j < json.len()
        invariant
            i <= j <= json@.len(),
            1 <= depth <= j - i + 1,
            j <= usize::MAX,
            array_body(json@, key@) == match close_from(json@, i as int, 1, false, '\0') {
                Some(e) => Some(json@.subrange(i as int, e)),
                None => None,
            },
            close_from(json@, j as int, depth as int, in_str, prev) == close_from(
                json@,
                i as int,
                1,
                false,
                '\0',
            ),
        decreases json.len() - j,
    {
        let b = json[j];
        if in_str {
            if b == '"' && prev != '\\' {
                in_str = false;
            }
        } else if b == '"' {
            in_str = true;
        } else if b == '[' {
            depth = depth + 1;
        } else if b == ']' {
            depth = depth - 1;
            if depth == 0 {
                return Some(chars_range(json, i, j));
            }
        }
        prev = b;
        j += 1;
    }
    None
}

/// The top-level `{..}` objects of an array body, scanned as
/// `extract_array` scans: string literals are skipped, an object starts at a
/// `{` met at depth zero and is emitted at the `}` that brings the depth back
/// to zero.
pub open spec fn split_from(
    a: Seq<char>,
    i: int,
    depth: int,
    start: Option<int>,
    in_str: bool,
    prev: char,
) -> Seq<Seq<char>>
    decreases a.len() - i,
{
    if i < 0 || i >= a.len() {
        Seq::empty()
    } else {
        let b = a[i];
        if in_str {
            split_from(a, i + 1, depth, start, !(b == '"' && prev != '\\'), b)
        } else if b == '"' {
            split_from(a, i + 1, depth, start, true, b)
        } else if b == '{' {
            split_from(
                a,
                i + 1,
                depth + 1,
                if depth == 0 {
                    Some(i)
                } else {
                    start
                },
                false,
                b,
            )
        } else if b == '}' {
            let rest = split_from(a, i + 1, depth - 1, start, false, b);
            if depth - 1 == 0 && start is Some {
                seq![a.subrange(start->0, i + 1)] + rest
            } else {
                rest
            }
        } else {
            split_from(a, i + 1, depth, start, false, b)
        }
    }
}

/// The objects of an array body.
pub open spec fn objects(a: Seq<char>) -> Seq<Seq<char>> {
    split_from(a, 0, 0, None, false, '\0')
}

/// The views of a list of character vectors.
pub open spec fn char_views(v: Seq<Vec<char>>) -> Seq<Seq<char>> {
    v.map_values(|x: Vec<char>| x@)
}

fn split_objects(arr: &[char]) -> (out: Vec<Vec<char>>)
    ensures
        char_views(out@) == objects(arr@),
{
    let mut out: Vec<Vec<char>> = Vec::new();
    let mut depth: i128 = 0;
    let mut start: Option<usize> = None;
    let mut in_str = false;
    let mut prev: char = '\0';
    let mut i: usize = 0;
    while i < arr.len()
        invariant
            i <= arr@.len(),
            -(i as int) <= depth <= i,
            start matches Some(s0) ==> s0 < i,
            char_views(out@) + split_from(
                arr@,
                i as int,
                depth as int,
                match start {
                    Some(s0) => Some(s0 as int),
                    None => None,
                },
                in_str,
                prev,
            ) == objects(arr@),
        decreases arr.len() - i,
    {
        let ghost st: Option<int> = match start {
            Some(s0) => Some(s0 as int),
            None => None,
        };
        let ghost views = char_views(out@);
        let b = arr[i];
        if in_str {
            if b == '"' && prev != '\\' {
                in_str = false;
            }
        } else if b == '"' {
            in_str = true;
        } else if b == '{' {
            if depth == 0 {
                start = Some(i);
            }
            depth = depth + 1;
        } else if b == '}' {
            depth = depth - 1;
            if depth == 0 {
                if let Some(s0) = start {
                    let obj = chars_range(arr, s0, i + 1);
                    out.push(obj);
                    proof {
                        assert(char_views(out@) =~= views.push(obj@));
                        let rest = split_from(arr@, i + 1, depth as int, st, false, b);
                        assert(views.push(obj@) + rest =~= views + (seq![obj@] + rest));
                    }
                }
            }
        }
        prev = b;
        i += 1;
    }
    out
}

/// `c` is an ASCII digit.
pub open spec fn is_digit(c: char) -> bool {
    '0' <= c <= '9'
}

/// The end of the run of digits that starts at `k`.
pub open spec fn digit_end(s: Seq<char>, k: int) -> int
    decreases s.len() - k,
{
    if k < 0 || k >= s.len() || !is_digit(s[k]) {
        k
    } else {
        digit_end(s, k + 1)
    }
}

/// The value of a run of decimal digits.
pub open spec fn digits_value(d: Seq<char>) -> nat
    decreases d.len(),
{
    if d.len() == 0 {
        0
    } else {
        digits_value(d.drop_last()) * 10 + (d.last() as int - 48) as nat
    }
}

/// The number after `"key":`: `None` when the key is missing, no digit
/// follows, or the value does not fit in a `u32`.
pub open spec fn number_field(obj: Seq<char>, key: Seq<char>) -> Option<u32> {
    let pat = key_pat(key, "\":"@);
    match find_from(obj, pat, 0) {
        None => None,
        Some(p) => num_after(obj, p + pat.len()),
    }
}

/// The number whose digits start at `i`.
pub open spec fn num_after(obj: Seq<char>, i: int) -> Option<u32> {
    let e = digit_end(obj, i);
    if e == i || digits_value(obj.subrange(i, e)) > u32::MAX {
        None
    } else {
        Some(digits_value(obj.subrange(i, e)) as u32)
    }
}

fn num_field(obj: &[char], key: &str) -> (r: Option<u32>)
    ensures
        r == number_field(obj@, key@),
{
    let pat = key_pattern(key, "\":");
    let found = find_chars(obj, pat.as_slice(), 0);
    if found.is_none() {
        return None;
    }
    let p = found.unwrap();
    assert(p + pat@.len() <= obj@.len());
    assert(pat.len() == pat@.len());
    assert(obj@.len() == obj.len());
    let i = p + pat.len();
    assert(number_field(obj@, key@) == num_after(obj@, i as int));
    let mut k = i;
    let mut v: u64 = 0;
    let mut over = false;
    while k < obj.len() && '0' <= obj[k] && obj[k] <= '9'
        invariant
            i <= k <= obj@.len(),
            number_field(obj@, key@) == num_after(obj@, i as int),
            digit_end(obj@, k as int) == digit_end(obj@, i as int),
            over ==> digits_value(obj@.subrange(i as int, k as int)) > u32::MAX,
            !over ==> v == digits_value(obj@.subrange(i as int, k as int)) && v <= u32::MAX,
        decreases obj.len() - k,
    {
        let d = obj[k];
        proof {
            let sub = obj@.subrange(i as int, k + 1);
            assert(sub.drop_last() == obj@.subrange(i as int, k as int));
            assert(sub.last() == d);
        }
        if !over {
            let dv: u64 = (d as u32 - 48) as u64;
            v = v * 10 + dv;
            if v > 0xFFFF_FFFFu64 {
                over = true;
            }
        }
        k += 1;
    }
    if k == i || over {
        None
    } else {
        Some(v as u32)
    }
}

/// The character an escape `\c` stands for.
pub open spec fn unesc(c: char) -> char {
    if c == 'n' {
        '\n'
    } else {
        c
    }
}

/// The string that starts at `k` and ends at the next unescaped quote.
pub open spec fn unesc_from(s: Seq<char>, k: int) -> Option<Seq<char>>
    decreases s.len() - k,
{
    if k < 0 || k >= s.len() {
        None
    } else if s[k] == '"' {
        Some(Seq::empty())
    } else if s[k] == '\\' {
        if k + 1 >= s.len() {
            None
        } else {
            match unesc_from(s, k + 2) {
                Some(r) => Some(seq![unesc(s[k + 1])] + r),
                None => None,
            }
        }
    } else {
        match unesc_from(s, k + 1) {
            Some(r) => Some(seq![s[k]] + r),
            None => None,
        }
    }
}

/// The string after `"key":"`, with its escapes undone.
pub open spec fn string_field(obj: Seq<char>, key: Seq<char>) -> Option<Seq<char>> {
    let pat = key_pat(key, "\":\""@);
    match find_from(obj, pat, 0) {
        None => None,
        Some(p) => unesc_from(obj, p + pat.len()),
    }
}

fn str_field(obj: &[char], key: &str) -> (r: Option<String>)
    ensures
        match r {
            Some(v) => string_field(obj@, key@) == Some(v@),
            None => string_field(obj@, key@) is None,
        },
{
    let pat = key_pattern(key, "\":\"");
    let found = find_chars(obj, pat.as_slice(), 0);
    if found.is_none() {
        return None;
    }
    let p = found.unwrap();
    assert(p + pat@.len() <= obj@.len());
    assert(pat.len() == pat@.len());
    assert(obj@.len() == obj.len());
    let i = p + pat.len();
    assert(string_field(obj@, key@) == unesc_from(obj@, i as int));
    let mut out = String::new();
    let mut k = i;
    while k < obj.len()
        invariant
            i <= k <= obj@.len() + 1,
            string_field(obj@, key@) == unesc_from(obj@, i as int),
            unesc_from(obj@, i as int) == match unesc_from(obj@, k as int) {
                Some(r) => Some(out@ + r),
                None => None,
            },
        decreases obj.len() + 1 - k,
    {
        let c = obj[k];
        if c == '"' {
            assert(out@ + Seq::<char>::empty() == out@);
            return Some(out);
        } else if c == '\\' {
            if k + 1 < obj.len() {
                let n = obj[k + 1];
                let ghost before = out@;
                if n == 'n' {
                    string_push(&mut out, '\n');
                } else {
                    string_push(&mut out, n);
                }
                proof {
                    match unesc_from(obj@, k + 2) {
                        Some(r) => assert(before + (seq![unesc(n)] + r) == out@ + r),
                        None => {},
                    }
                }
                k += 2;
            } else {
                return None;
            }
        } else {
            let ghost before = out@;
            string_push(&mut out, c);
            proof {
                match unesc_from(obj@, k + 1) {
                    Some(r) => assert(before + (seq![c] + r) == out@ + r),
                    None => {},
                }
            }
            k += 1;
        }
    }
    None
}

fn str_eq(a: &str, b: &str) -> (r: bool)
    ensures
        r == (a@ == b@),
{
    let x = str_chars(a);
    let y = str_chars(b);
    if x.len() != y.len() {
        return false;
    }
    let mut k: usize = 0;
    while k < x.len()
        invariant
            x@ == a@,
            y@ == b@,
            x@.len() == y@.len(),
            k <= x@.len(),
            forall|m: int| 0 <= m < k ==> x@[m] == y@[m],
        decreases x.len() - k,
    {
        if x[k] != y[k] {
            return false;
        }
        k += 1;
    }
    assert(x@ =~= y@);
    true
}

// ---------------------------------------------------------------------------
// Parsed records and marks
// ---------------------------------------------------------------------------

/// The objects of the array stored under `key`; none when the array is missing.
pub open spec fn array_objects(json: Seq<char>, key: Seq<char>) -> Seq<Seq<char>> {
    match array_body(json, key) {
        Some(a) => objects(a),
        None => Seq::empty(),
    }
}

/// A change object read back: id, kind (anything but `delete` is an
/// insertion), author and date; `None` when one of the four is missing.
pub open spec fn change_entry(obj: Seq<char>) -> Option<(u32, TrackKind, Seq<char>, Seq<char>)> {
    match (
        number_field(obj, "id"@),
        string_field(obj, "kind"@),
        string_field(obj, "author"@),
        string_field(obj, "date"@),
    ) {
        (Some(id), Some(kind), Some(author), Some(date)) => Some(
            (
                id,
                if kind == "delete"@ {
                    TrackKind::Delete
                } else {
                    TrackKind::Insert
                },
                author,
                date,
            ),
        ),
        _ => None,
    }
}

/// The complete change objects, in order.
pub open spec fn change_entries(objs: Seq<Seq<char>>) -> Seq<(u32, TrackKind, Seq<char>, Seq<char>)>
    decreases objs.len(),
{
    if objs.len() == 0 {
        Seq::empty()
    } else {
        let rest = change_entries(objs.drop_last());
        match change_entry(objs.last()) {
            Some(e) => rest.push(e),
            None => rest,
        }
    }
}

/// The change records a sidecar holds.
pub open spec fn sidecar_changes(json: Seq<char>) -> Seq<(u32, TrackKind, Seq<char>, Seq<char>)> {
    change_entries(array_objects(json, "changes"@))
}

/// The largest id among the records, 0 when there are none.
pub open spec fn max_id(es: Seq<(u32, TrackKind, Seq<char>, Seq<char>)>) -> u32
    decreases es.len(),
{
    if es.len() == 0 {
        0
    } else {
        let m = max_id(es.drop_last());
        if es.last().0 > m {
            es.last().0
        } else {
            m
        }
    }
}

/// A record holds a parsed change.
pub open spec fn rec_is(r: TrackChangeRec, e: (u32, TrackKind, Seq<char>, Seq<char>)) -> bool {
    r.id == e.0 && r.kind == e.1 && r.author@ == e.2 && r.date@ == e.3
}

fn parse_changes(json: &[char], recs: &mut Vec<TrackChangeRec>) -> (m: u32)
    ensures
        final(recs)@.len() == old(recs)@.len() + sidecar_changes(json@).len(),
        forall|i: int| 0 <= i < old(recs)@.len() ==> final(recs)@[i] == old(recs)@[i],
        forall|k: int|
            0 <= k < sidecar_changes(json@).len() ==> rec_is(
                #[trigger] final(recs)@[old(recs)@.len() + k],
                sidecar_changes(json@)[k],
            ),
        m == max_id(sidecar_changes(json@)),
{
    let ghost base = recs@;
    let objs: Vec<Vec<char>> = match extract_array(json, "changes") {
        Some(arr) => split_objects(arr.as_slice()),
        None => Vec::new(),
    };
    let ghost ov = char_views(objs@);
    assert(ov == array_objects(json@, "changes"@));
    let mut m: u32 = 0;
    for k in 0..objs.len()
        invariant
            ov == char_views(objs@),
            recs@.len() == base.len() + change_entries(ov.take(k as int)).len(),
            forall|i: int| 0 <= i < base.len() ==> recs@[i] == base[i],
            forall|q: int|
                0 <= q < change_entries(ov.take(k as int)).len() ==> rec_is(
                    #[trigger] recs@[base.len() + q],
                    change_entries(ov.take(k as int))[q],
                ),
            m == max_id(change_entries(ov.take(k as int))),
    {
        let obj = objs[k].as_slice();
        let id = num_field(obj, "id");
        let kind = str_field(obj, "kind");
        let author = str_field(obj, "author");
        let date = str_field(obj, "date");
        proof {
            assert(ov.take(k + 1).drop_last() == ov.take(k as int));
            assert(ov.take(k + 1).last() == obj@);
        }
        let ghost before = recs@;
        match (id, kind, author, date) {
            (Some(id), Some(kind), Some(author), Some(date)) => {
                let kind = if str_eq(kind.as_str(), "delete") {
                    TrackKind::Delete
                } else {
                    TrackKind::Insert
                };
                if id > m {
                    m = id;
                }
                recs.push(TrackChangeRec { id, kind, author, date });
                proof {
                    let es = change_entries(ov.take(k + 1));
                    assert(es == change_entries(ov.take(k as int)).push(change_entry(obj@)->0));
                    assert(es.drop_last() =~= change_entries(ov.take(k as int)));
                    assert(es.last().0 == id);
                    assert forall|q: int| 0 <= q < es.len() implies rec_is(
                        #[trigger] recs@[base.len() + q],
                        es[q],
                    ) by {
                        if q < es.len() - 1 {
                            assert(recs@[base.len() + q] == before[base.len() + q]);
                        }
                    }
                }
            },
            _ => {},
        }
    }
    proof {
        assert(ov.take(ov.len() as int) == ov);
    }
    m
}

/// A mark object read back: section, paragraph, start and end character
/// indices, change id, and the cell coordinates when all three are present.
#[derive(Clone, Copy, Debug)]
pub struct MarkEntry {
    pub sec: u32,
    pub para: u32,
    pub start: u32,
    pub end: u32,
    pub tc: u32,
    pub cell: Option<(u32, u32, u32)>,
}

/// A mark object read back; `None` when one of its five numbers is missing.
pub open spec fn mark_entry(obj: Seq<char>) -> Option<MarkEntry> {
    match (
        number_field(obj, "sec"@),
        number_field(obj, "para"@),
        number_field(obj, "start"@),
        number_field(obj, "end"@),
        number_field(obj, "tc"@),
    ) {
        (Some(sec), Some(para), Some(start), Some(end), Some(tc)) => Some(
            MarkEntry {
                sec,
                para,
                start,
                end,
                tc,
                cell: match (
                    number_field(obj, "ci"@),
                    number_field(obj, "cei"@),
                    number_field(obj, "cpi"@),
                ) {
                    (Some(ci), Some(cei), Some(cpi)) => Some((ci, cei, cpi)),
                    _ => None,
                },
            },
        ),
        _ => None,
    }
}

/// The complete mark objects, in order.
pub open spec fn mark_entries(objs: Seq<Seq<char>>) -> Seq<MarkEntry>
    decreases objs.len(),
{
    if objs.len() == 0 {
        Seq::empty()
    } else {
        let rest = mark_entries(objs.drop_last());
        match mark_entry(objs.last()) {
            Some(e) => rest.push(e),
            None => rest,
        }
    }
}

/// The marks a sidecar holds.
pub open spec fn sidecar_marks(json: Seq<char>) -> Seq<MarkEntry> {
    mark_entries(array_objects(json, "marks"@))
}

fn parse_marks(json: &[char]) -> (v: Vec<MarkEntry>)
    ensures
        v@ == sidecar_marks(json@),
{
    let objs: Vec<Vec<char>> = match extract_array(json, "marks") {
        Some(arr) => split_objects(arr.as_slice()),
        None => Vec::new(),
    };
    let ghost ov = char_views(objs@);
    assert(ov == array_objects(json@, "marks"@));
    let mut v: Vec<MarkEntry> = Vec::new();
    for k in 0..objs.len()
        invariant
            ov == char_views(objs@),
            v@ == mark_entries(ov.take(k as int)),
    {
        let obj = objs[k].as_slice();
        proof {
            assert(ov.take(k + 1).drop_last() == ov.take(k as int));
            assert(ov.take(k + 1).last() == obj@);
        }
        let sec = num_field(obj, "sec");
        let para = num_field(obj, "para");
        let start = num_field(obj, "start");
        let end = num_field(obj, "end");
        let tc = num_field(obj, "tc");
        match (sec, para, start, end, tc) {
            (Some(sec), Some(para), Some(start), Some(end), Some(tc)) => {
                let ci = num_field(obj, "ci");
                let cei = num_field(obj, "cei");
                let cpi = num_field(obj, "cpi");
                let cell = match (ci, cei, cpi) {
                    (Some(ci), Some(cei), Some(cpi)) => Some((ci, cei, cpi)),
                    _ => None,
                };
                v.push(MarkEntry { sec, para, start, end, tc, cell });
            },
            _ => {},
        }
    }
    proof {
        assert(ov.take(ov.len() as int) == ov);
    }
    v
}

// ---------------------------------------------------------------------------
// Restoring marks into a document
// ---------------------------------------------------------------------------

/// The paragraph at a location: a body paragraph, or with cell coordinates
/// a paragraph of a cell of a table control of that body paragraph.
pub open spec fn para_at(doc: Document, s: int, p: int, cell: Option<(int, int, int)>) -> Option<
    Paragraph,
> {
    if 0 <= s < doc.sections@.len() && 0 <= p < doc.sections@[s].paragraphs@.len() {
        let host = doc.sections@[s].paragraphs@[p];
        match cell {
            None => Some(host),
            Some((ci, cei, cpi)) => {
                if 0 <= ci < host.controls@.len() {
                    match host.controls@[ci] {
                        Control::Table(t) => {
                            if 0 <= cei < t.cells@.len() && 0 <= cpi
                                < t.cells@[cei].paragraphs@.len() {
                                Some(t.cells@[cei].paragraphs@[cpi])
                            } else {
                                None
                            }
                        },
                        _ => None,
                    }
                } else {
                    None
                }
            },
        }
    } else {
        None
    }
}

/// The marks held at a location (none where there is no paragraph).
pub open spec fn marks_at(doc: Document, s: int, p: int, cell: Option<(int, int, int)>) -> Seq<
    TrackMark,
> {
    match para_at(doc, s, p, cell) {
        Some(q) => q.track_marks@,
        None => Seq::empty(),
    }
}

/// The location a mark entry points at.
pub open spec fn entry_cell(e: MarkEntry) -> Option<(int, int, int)> {
    match e.cell {
        Some((a, b, c)) => Some((a as int, b as int, c as int)),
        None => None,
    }
}

/// The number of UTF-16 units of a character.
pub open spec fn utf16_len(c: char) -> nat {
    if c as u32 >= 0x10000 {
        2
    } else {
        1
    }
}

/// The UTF-16 position of character index `idx` of a paragraph: its offset,
/// or past the end of the last character (0 for an empty paragraph).
pub open spec fn char_pos(q: Paragraph, idx: u32) -> int {
    let offs = q.char_offsets@;
    if idx < offs.len() {
        offs[idx as int] as int
    } else if offs.len() == 0 {
        0
    } else {
        offs.last() + utf16_len(
            if q.text@.len() == 0 {
                '\0'
            } else {
                q.text@.last()
            },
        )
    }
}

/// The mark an entry restores into paragraph `q`.
pub open spec fn entry_mark(q: Paragraph, e: MarkEntry) -> TrackMark {
    TrackMark {
        start_pos: char_pos(q, e.start) as u32,
        end_pos: char_pos(q, e.end) as u32,
        tc_id: e.tc,
    }
}

/// The positions of an entry fit in a `u32` (or it points nowhere).
pub open spec fn mark_fits(doc: Document, e: MarkEntry) -> bool {
    match para_at(doc, e.sec as int, e.para as int, entry_cell(e)) {
        Some(q) => char_pos(q, e.start) <= u32::MAX && char_pos(q, e.end) <= u32::MAX,
        None => true,
    }
}

/// The marks the entries add at a location, in order.
pub open spec fn added_at(
    doc: Document,
    es: Seq<MarkEntry>,
    s: int,
    p: int,
    cell: Option<(int, int, int)>,
) -> Seq<TrackMark>
    decreases es.len(),
{
    if es.len() == 0 {
        Seq::empty()
    } else {
        let rest = added_at(doc, es.drop_last(), s, p, cell);
        let e = es.last();
        if e.sec == s && e.para == p && entry_cell(e) == cell && para_at(doc, s, p, cell) is Some {
            rest.push(entry_mark(para_at(doc, s, p, cell)->0, e))
        } else {
            rest
        }
    }
}

/// Two cell paragraphs agree in everything but their marks.
pub open spec fn same_leaf(a: Paragraph, b: Paragraph) -> bool {
    a.text == b.text && a.char_offsets == b.char_offsets && a.char_shapes == b.char_shapes
        && a.line_segs == b.line_segs && a.controls == b.controls
}

/// Two cells agree in everything but the marks of their paragraphs.
pub open spec fn same_cell(a: Cell, b: Cell) -> bool {
    a.paragraphs@.len() == b.paragraphs@.len() && forall|k: int|
        0 <= k < a.paragraphs@.len() ==> #[trigger] same_leaf(a.paragraphs@[k], b.paragraphs@[k])
}

/// Two controls agree in everything but the marks inside table cells.
pub open spec fn same_ctrl(a: Control, b: Control) -> bool {
    match a {
        Control::Table(ta) => match b {
            Control::Table(tb) => ta.page_break == tb.page_break && ta.common == tb.common
                && ta.caption == tb.caption && ta.cells@.len() == tb.cells@.len() && forall|k: int|
                0 <= k < ta.cells@.len() ==> #[trigger] same_cell(ta.cells@[k], tb.cells@[k]),
            _ => false,
        },
        _ => a == b,
    }
}

/// Two body paragraphs agree in everything but marks.
pub open spec fn same_host(a: Paragraph, b: Paragraph) -> bool {
    a.text == b.text && a.char_offsets == b.char_offsets && a.char_shapes == b.char_shapes
        && a.line_segs == b.line_segs && a.controls@.len() == b.controls@.len() && forall|k: int|
        0 <= k < a.controls@.len() ==> #[trigger] same_ctrl(a.controls@[k], b.controls@[k])
}

/// Two sections agree in everything but marks.
pub open spec fn same_section(a: Section, b: Section) -> bool {
    a.section_def == b.section_def && a.paragraphs@.len() == b.paragraphs@.len() && forall|k: int|
        0 <= k < a.paragraphs@.len() ==> #[trigger] same_host(a.paragraphs@[k], b.paragraphs@[k])
}

/// Two documents agree in their sections, paragraphs and resources, marks
/// and change records aside.
pub open spec fn same_but_marks(a: Document, b: Document) -> bool {
    a.doc_info == b.doc_info && a.bin_data_content == b.bin_data_content && a.sections@.len()
        == b.sections@.len() && forall|k: int|
        0 <= k < a.sections@.len() ==> #[trigger] same_section(a.sections@[k], b.sections@[k])
}

proof fn lemma_same_refl(a: Document)
    ensures
        same_but_marks(a, a),
{
    assert forall|k: int| 0 <= k < a.sections@.len() implies #[trigger] same_section(
        a.sections@[k],
        a.sections@[k],
    ) by {
        let sc = a.sections@[k];
        assert forall|p: int| 0 <= p < sc.paragraphs@.len() implies #[trigger] same_host(
            sc.paragraphs@[p],
            sc.paragraphs@[p],
        ) by {
            let h = sc.paragraphs@[p];
            assert forall|c: int| 0 <= c < h.controls@.len() implies #[trigger] same_ctrl(
                h.controls@[c],
                h.controls@[c],
            ) by {
                match h.controls@[c] {
                    Control::Table(t) => {
                        assert forall|e: int| 0 <= e < t.cells@.len() implies #[trigger] same_cell(
                            t.cells@[e],
                            t.cells@[e],
                        ) by {}
                    },
                    _ => {},
                }
            }
        }
    }
}

proof fn lemma_same_trans(a: Document, b: Document, c: Document)
    requires
        same_but_marks(a, b),
        same_but_marks(b, c),
    ensures
        same_but_marks(a, c),
{
    assert forall|k: int| 0 <= k < a.sections@.len() implies #[trigger] same_section(
        a.sections@[k],
        c.sections@[k],
    ) by {
        let (sa, sb, sc) = (a.sections@[k], b.sections@[k], c.sections@[k]);
        assert(same_section(sa, sb));
        assert(same_section(sb, sc));
        assert forall|p: int| 0 <= p < sa.paragraphs@.len() implies #[trigger] same_host(
            sa.paragraphs@[p],
            sc.paragraphs@[p],
        ) by {
            let (ha, hb, hc) = (sa.paragraphs@[p], sb.paragraphs@[p], sc.paragraphs@[p]);
            assert(same_host(ha, hb));
            assert(same_host(hb, hc));
            assert forall|q: int| 0 <= q < ha.controls@.len() implies #[trigger] same_ctrl(
                ha.controls@[q],
                hc.controls@[q],
            ) by {
                assert(same_ctrl(ha.controls@[q], hb.controls@[q]));
                assert(same_ctrl(hb.controls@[q], hc.controls@[q]));
                match ha.controls@[q] {
                    Control::Table(ta) => {
                        let tb = match hb.controls@[q] {
                            Control::Table(t) => t,
                            _ => ta,
                        };
                        let tc = match hc.controls@[q] {
                            Control::Table(t) => t,
                            _ => ta,
                        };
                        assert forall|e: int| 0 <= e < ta.cells@.len() implies #[trigger] same_cell(
                            ta.cells@[e],
                            tc.cells@[e],
                        ) by {
                            assert(same_cell(ta.cells@[e], tb.cells@[e]));
                            assert(same_cell(tb.cells@[e], tc.cells@[e]));
                            assert forall|m: int|
                                0 <= m < ta.cells@[e].paragraphs@.len() implies #[trigger] same_leaf(
                                ta.cells@[e].paragraphs@[m],
                                tc.cells@[e].paragraphs@[m],
                            ) by {
                                assert(same_leaf(
                                    ta.cells@[e].paragraphs@[m],
                                    tb.cells@[e].paragraphs@[m],
                                ));
                                assert(same_leaf(
                                    tb.cells@[e].paragraphs@[m],
                                    tc.cells@[e].paragraphs@[m],
                                ));
                            }
                        }
                    },
                    _ => {},
                }
            }
        }
    }
}

/// Documents that agree but for marks have the same paragraphs at the same
/// locations, with the same text and offsets.
pub(crate) proof fn lemma_same_para_at(a: Document, b: Document, s: int, p: int, cell: Option<(int, int, int)>)
    requires
        same_but_marks(a, b),
    ensures
        para_at(a, s, p, cell) is Some <==> para_at(b, s, p, cell) is Some,
        para_at(a, s, p, cell) is Some ==> para_at(a, s, p, cell)->0.text == para_at(
            b,
            s,
            p,
            cell,
        )->0.text && para_at(a, s, p, cell)->0.char_offsets == para_at(b, s, p, cell)->0.char_offsets,
{
    if 0 <= s < a.sections@.len() {
        assert(same_section(a.sections@[s], b.sections@[s]));
    }
    if 0 <= s < a.sections@.len() && 0 <= p < a.sections@[s].paragraphs@.len() {
        let (ha, hb) = (a.sections@[s].paragraphs@[p], b.sections@[s].paragraphs@[p]);
        assert(same_host(ha, hb));
        match cell {
            Some((ci, cei, cpi)) => {
                if 0 <= ci < ha.controls@.len() {
                    assert(same_ctrl(ha.controls@[ci], hb.controls@[ci]));
                    match ha.controls@[ci] {
                        Control::Table(ta) => {
                            if 0 <= cei < ta.cells@.len() {
                                let tb = match hb.controls@[ci] {
                                    Control::Table(t) => t,
                                    _ => ta,
                                };
                                assert(same_cell(ta.cells@[cei], tb.cells@[cei]));
                                if 0 <= cpi < ta.cells@[cei].paragraphs@.len() {
                                    assert(same_leaf(
                                        ta.cells@[cei].paragraphs@[cpi],
                                        tb.cells@[cei].paragraphs@[cpi],
                                    ));
                                }
                            }
                        },
                        _ => {},
                    }
                }
            },
            None => {},
        }
    }
}

proof fn lemma_added_step(a: Document, b: Document, es: Seq<MarkEntry>, k: int)
    requires
        same_but_marks(a, b),
        0 <= k < es.len(),
    ensures
        forall|s: int, p: int, cell: Option<(int, int, int)>|
            #[trigger] added_at(a, es.take(k + 1), s, p, cell) == added_at(a, es.take(k), s, p, cell)
                + (if es[k].sec == s && es[k].para == p && entry_cell(es[k]) == cell && para_at(
                b,
                s,
                p,
                cell,
            ) is Some {
                seq![entry_mark(para_at(b, s, p, cell)->0, es[k])]
            } else {
                Seq::empty()
            }),
{
    assert forall|s: int, p: int, cell: Option<(int, int, int)>|
        #[trigger] added_at(a, es.take(k + 1), s, p, cell) == added_at(a, es.take(k), s, p, cell) + (
        if es[k].sec == s && es[k].para == p && entry_cell(es[k]) == cell && para_at(
            b,
            s,
            p,
            cell,
        ) is Some {
            seq![entry_mark(para_at(b, s, p, cell)->0, es[k])]
        } else {
            Seq::empty()
        }) by {
        lemma_same_para_at(a, b, s, p, cell);
        assert(es.take(k + 1).drop_last() == es.take(k));
        assert(es.take(k + 1).last() == es[k]);
        let rest = added_at(a, es.take(k), s, p, cell);
        if es[k].sec == s && es[k].para == p && entry_cell(es[k]) == cell && para_at(b, s, p, cell) is Some {
            assert(rest.push(entry_mark(para_at(a, s, p, cell)->0, es[k])) == rest + seq![
                entry_mark(para_at(b, s, p, cell)->0, es[k]),
            ]);
        } else {
            assert(rest == rest + Seq::<TrackMark>::empty());
        }
    }
}

fn utf16_len_exec(c: char) -> (n: u32)
    ensures
        n == utf16_len(c),
{
    if c as u32 >= 0x10000 {
        2
    } else {
        1
    }
}

fn char_pos_exec(q: &Paragraph, idx: u32) -> (r: u32)
    requires
        char_pos(*q, idx) <= u32::MAX,
    ensures
        r == char_pos(*q, idx),
{
    let i = idx as usize;
    if i < q.char_offsets.len() {
        q.char_offsets[i]
    } else if q.char_offsets.len() == 0 {
        0
    } else {
        let last = q.char_offsets[q.char_offsets.len() - 1];
        let chars = str_chars(q.text.as_str());
        let ch = if chars.len() == 0 {
            '\0'
        } else {
            chars[chars.len() - 1]
        };
        last + utf16_len_exec(ch)
    }
}

fn entry_mark_exec(q: &Paragraph, e: MarkEntry) -> (tm: TrackMark)
    requires
        char_pos(*q, e.start) <= u32::MAX,
        char_pos(*q, e.end) <= u32::MAX,
    ensures
        tm == entry_mark(*q, e),
{
    TrackMark { start_pos: char_pos_exec(q, e.start), end_pos: char_pos_exec(q, e.end), tc_id: e.tc }
}

fn apply_mark(doc: &mut Document, e: MarkEntry)
    requires
        mark_fits(*old(doc), e),
    ensures
        same_but_marks(*old(doc), *final(doc)),
        final(doc).track_changes == old(doc).track_changes,
        final(doc).next_track_id == old(doc).next_track_id,
        forall|s: int, p: int, cell: Option<(int, int, int)>|
            #[trigger] marks_at(*final(doc), s, p, cell) == marks_at(*old(doc), s, p, cell) + (
            if e.sec == s && e.para == p && entry_cell(e) == cell && para_at(
                *old(doc),
                s,
                p,
                cell,
            ) is Some {
                seq![entry_mark(para_at(*old(doc), s, p, cell)->0, e)]
            } else {
                Seq::empty()
            }),
{
    proof {
        lemma_same_refl(*doc);
    }
    let s = e.sec as usize;
    let p = e.para as usize;
    if s < doc.sections.len() && p < doc.sections[s].paragraphs.len() {
        match e.cell {
            Some((ci, cei, cpi)) => {
                let ci = ci as usize;
                let cei = cei as usize;
                let cpi = cpi as usize;
                if ci < doc.sections[s].paragraphs[p].controls.len() {
                    match &mut doc.sections[s].paragraphs[p].controls[ci] {
                        Control::Table(t) => {
                            if cei < t.cells.len() && cpi < t.cells[cei].paragraphs.len() {
                                let tm = entry_mark_exec(&t.cells[cei].paragraphs[cpi], e);
                                t.cells[cei].paragraphs[cpi].track_marks.push(tm);
                            }
                        },
                        _ => {},
                    }
                }
            },
            None => {
                let tm = entry_mark_exec(&doc.sections[s].paragraphs[p], e);
                doc.sections[s].paragraphs[p].track_marks.push(tm);
            },
        }
    }
}

/// What restoring needs to stay within `u32`: the largest record id is
/// below the maximum (the next free id is one past it), and every restored
/// mark position fits.
pub open spec fn restore_fits(doc: Document, json: Seq<char>) -> bool {
    max_id(sidecar_changes(json)) < u32::MAX && forall|k: int|
        0 <= k < sidecar_marks(json).len() ==> #[trigger] mark_fits(doc, sidecar_marks(json)[k])
}

/// What restoring `json` into `before` gives, as `restore_track_sidecar`
/// states it: the text and structure unchanged, the sidecar's change
/// records appended, the next free id raised past the largest restored id,
/// and at every location the sidecar's marks for it appended.
pub open spec fn restored(before: Document, json: Seq<char>, after: Document) -> bool {
    &&& same_but_marks(before, after)
    &&& after.track_changes@.len() == before.track_changes@.len() + sidecar_changes(json).len()
    &&& forall|i: int| 0 <= i < before.track_changes@.len() ==> after.track_changes@[i] == before.track_changes@[i]
    &&& forall|k: int|
        0 <= k < sidecar_changes(json).len() ==> rec_is(
            #[trigger] after.track_changes@[before.track_changes@.len() + k],
            sidecar_changes(json)[k],
        )
    &&& after.next_track_id == (if max_id(sidecar_changes(json)) + 1 > before.next_track_id {
        (max_id(sidecar_changes(json)) + 1) as u32
    } else {
        before.next_track_id
    })
    &&& forall|s: int, p: int, cell: Option<(int, int, int)>|
        #[trigger] marks_at(after, s, p, cell) == marks_at(before, s, p, cell) + added_at(
            before,
            sidecar_marks(json),
            s,
            p,
            cell,
        )
}

/// Restores a sidecar into a document: the change records are appended,
/// each mark is added to the paragraph it names (entries naming no paragraph
/// are skipped), its character indices turned back into UTF-16 positions,
/// and the next free change id is raised past the largest restored id.
pub fn restore_track_sidecar(doc: &mut Document, json: &str)
    requires
        restore_fits(*old(doc), json@),
    ensures
        same_but_marks(*old(doc), *final(doc)),
        final(doc).track_changes@.len() == old(doc).track_changes@.len() + sidecar_changes(
            json@,
        ).len(),
        forall|i: int|
            0 <= i < old(doc).track_changes@.len() ==> final(doc).track_changes@[i] == old(
                doc,
            ).track_changes@[i],
        forall|k: int|
            0 <= k < sidecar_changes(json@).len() ==> rec_is(
                #[trigger] final(doc).track_changes@[old(doc).track_changes@.len() + k],
                sidecar_changes(json@)[k],
            ),
        final(doc).next_track_id == (if max_id(sidecar_changes(json@)) + 1 > old(
            doc,
        ).next_track_id {
            (max_id(sidecar_changes(json@)) + 1) as u32
        } else {
            old(doc).next_track_id
        }),
        forall|s: int, p: int, cell: Option<(int, int, int)>|
            #[trigger] marks_at(*final(doc), s, p, cell) == marks_at(*old(doc), s, p, cell)
                + added_at(*old(doc), sidecar_marks(json@), s, p, cell),
        restored(*old(doc), json@, *final(doc)),
{
    let ghost d0 = *doc;
    let chars = str_chars(json);
    let max = parse_changes(chars.as_slice(), &mut doc.track_changes);
    let ghost d1 = *doc;
    let entries = parse_marks(chars.as_slice());
    let ghost es = entries@;
    proof {
        lemma_same_refl(d0);
        assert(same_but_marks(d0, d1));
        assert forall|s: int, p: int, cell: Option<(int, int, int)>|
            #[trigger] marks_at(d1, s, p, cell) == marks_at(d0, s, p, cell) + added_at(
                d0,
                es.take(0),
                s,
                p,
                cell,
            ) by {
            assert(marks_at(d0, s, p, cell) + Seq::<TrackMark>::empty() == marks_at(d0, s, p, cell));
        }
    }
    for k in 0..entries.len()
        invariant
            es == entries@,
            es == sidecar_marks(json@),
            restore_fits(d0, json@),
            same_but_marks(d0, *doc),
            doc.track_changes == d1.track_changes,
            doc.next_track_id == d1.next_track_id,
            forall|s: int, p: int, cell: Option<(int, int, int)>|
                #[trigger] marks_at(*doc, s, p, cell) == marks_at(d0, s, p, cell) + added_at(
                    d0,
                    es.take(k as int),
                    s,
                    p,
                    cell,
                ),
    {
        let e = entries[k];
        let ghost cur = *doc;
        proof {
            assert(mark_fits(d0, es[k as int]));
            lemma_same_para_at(d0, cur, e.sec as int, e.para as int, entry_cell(e));
        }
        apply_mark(doc, e);
        proof {
            lemma_same_trans(d0, cur, *doc);
            lemma_added_step(d0, cur, es, k as int);
            assert forall|s: int, p: int, cell: Option<(int, int, int)>|
                #[trigger] marks_at(*doc, s, p, cell) == marks_at(d0, s, p, cell) + added_at(
                    d0,
                    es.take(k + 1),
                    s,
                    p,
                    cell,
                ) by {
                let extra = if e.sec == s && e.para == p && entry_cell(e) == cell && para_at(
                    cur,
                    s,
                    p,
                    cell,
                ) is Some {
                    seq![entry_mark(para_at(cur, s, p, cell)->0, e)]
                } else {
                    Seq::empty()
                };
                assert(marks_at(*doc, s, p, cell) == marks_at(cur, s, p, cell) + extra);
                assert(added_at(d0, es.take(k + 1), s, p, cell) == added_at(d0, es.take(k as int), s, p, cell) + extra);
                assert(marks_at(d0, s, p, cell) + added_at(d0, es.take(k as int), s, p, cell) + extra
                    == marks_at(d0, s, p, cell) + (added_at(d0, es.take(k as int), s, p, cell) + extra));
            }
        }
    }
    proof {
        assert(es.take(es.len() as int) == es);
    }
    let ghost d2 = *doc;
    if (max as u64) + 1 > doc.next_track_id as u64 {
        doc.next_track_id = max + 1;
    }
    proof {
        assert(doc.sections == d2.sections);
        assert forall|s: int, p: int, cell: Option<(int, int, int)>|
            #[trigger] marks_at(*doc, s, p, cell) == marks_at(d0, s, p, cell) + added_at(
                d0,
                es,
                s,
                p,
                cell,
            ) by {
            assert(marks_at(*doc, s, p, cell) == marks_at(d2, s, p, cell));
        }
    }
}


/// The value a reader takes `kind_text` text for: the vocabulary read back.
pub open spec fn kind_text_read(s: Seq<char>) -> Option<TrackKind> {
    if s == "insert"@ {
        Some(TrackKind::Insert)
    } else if s == "delete"@ {
        Some(TrackKind::Delete)
    } else {
        None
    }
}

/// Each value is written with its own vocabulary word, which reads back as
/// that value, so that no two values are written alike.
pub proof fn law_kind_text_reads_back(t: TrackKind, u: TrackKind)
    ensures
        kind_text_read(kind_text(t)) == Some(t),
        kind_text(t) == kind_text(u) ==> t == u,
{
    lemma_kind_text_reads_back(t);
    lemma_kind_text_reads_back(u);
}

proof fn lemma_kind_text_reads_back(t: TrackKind)
    ensures
        kind_text_read(kind_text(t)) == Some(t),
{
    reveal_strlit("insert");
    reveal_strlit("delete");
    match t {
        TrackKind::Insert => {
        },
        TrackKind::Delete => {
            assert("delete"@[0] != "insert"@[0]);
        },
    }
}

} // verus!
