//! Line breaking: the characters a line may not begin or end with, the
//! space condensing arithmetic, the flow end of a laid-out paragraph, and
//! the moving of a section's paragraphs after one was laid out again.

use crate::model::paragraph::{LineSeg, Paragraph};
use vstd::prelude::*;

verus! {

/// A character that may not begin a line.
pub open spec fn line_start_forbidden(c: char) -> bool {
    let u = c as u32;
    u == 0x29
        || u == 0x5D
        || u == 0x7D
        || u == 0x2C
        || u == 0x2E
        || u == 0x21
        || u == 0x3F
        || u == 0x3B
        || u == 0x3A
        || u == 0x27
        || u == 0x22
        || u == 0x3001
        || u == 0x3002
        || u == 0x2026
        || u == 0xB7
        || u == 0x2015
        || u == 0x30FC
        || u == 0x300B
        || u == 0x300D
        || u == 0x300F
        || u == 0x3011
        || u == 0xFF09
        || u == 0xFF5D
        || u == 0x3015
        || u == 0x3009
        || u == 0xFF1E
        || u == 0x226B
        || u == 0xFF3D
        || u == 0xFE5E
        || u == 0x301E
        || u == 0x2019
        || u == 0x201D
        || u == 0xFF0C
        || u == 0xFF0E
        || u == 0xFF01
        || u == 0xFF1F
        || u == 0xFF1B
        || u == 0xFF1A
        || u == 0x25
        || u == 0x2030
        || u == 0x2103
        || u == 0xB0
        || u == 0xFF05
}

pub fn is_line_start_forbidden(ch: char) -> (b: bool)
    ensures
        b == line_start_forbidden(ch),
{
    let u = ch as u32;
    u == 0x29
        || u == 0x5D
        || u == 0x7D
        || u == 0x2C
        || u == 0x2E
        || u == 0x21
        || u == 0x3F
        || u == 0x3B
        || u == 0x3A
        || u == 0x27
        || u == 0x22
        || u == 0x3001
        || u == 0x3002
        || u == 0x2026
        || u == 0xB7
        || u == 0x2015
        || u == 0x30FC
        || u == 0x300B
        || u == 0x300D
        || u == 0x300F
        || u == 0x3011
        || u == 0xFF09
        || u == 0xFF5D
        || u == 0x3015
        || u == 0x3009
        || u == 0xFF1E
        || u == 0x226B
        || u == 0xFF3D
        || u == 0xFE5E
        || u == 0x301E
        || u == 0x2019
        || u == 0x201D
        || u == 0xFF0C
        || u == 0xFF0E
        || u == 0xFF01
        || u == 0xFF1F
        || u == 0xFF1B
        || u == 0xFF1A
        || u == 0x25
        || u == 0x2030
        || u == 0x2103
        || u == 0xB0
        || u == 0xFF05
}

/// A character that may not end a line.
pub open spec fn line_end_forbidden(c: char) -> bool {
    let u = c as u32;
    u == 0x28
        || u == 0x5B
        || u == 0x7B
        || u == 0x27
        || u == 0x22
        || u == 0x300A
        || u == 0x300C
        || u == 0x300E
        || u == 0x3010
        || u == 0xFF08
        || u == 0xFF5B
        || u == 0x3014
        || u == 0x3008
        || u == 0xFF1C
        || u == 0x226A
        || u == 0xFF3B
        || u == 0x301D
        || u == 0x2018
        || u == 0x201C
        || u == 0x24
        || u == 0x20A9
        || u == 0xA3
        || u == 0x20AC
        || u == 0xA5
        || u == 0xFF04
        || u == 0xFFE5
}

pub fn is_line_end_forbidden(ch: char) -> (b: bool)
    ensures
        b == line_end_forbidden(ch),
{
    let u = ch as u32;
    u == 0x28
        || u == 0x5B
        || u == 0x7B
        || u == 0x27
        || u == 0x22
        || u == 0x300A
        || u == 0x300C
        || u == 0x300E
        || u == 0x3010
        || u == 0xFF08
        || u == 0xFF5B
        || u == 0x3014
        || u == 0x3008
        || u == 0xFF1C
        || u == 0x226A
        || u == 0xFF3B
        || u == 0x301D
        || u == 0x2018
        || u == 0x201C
        || u == 0x24
        || u == 0x20A9
        || u == 0xA3
        || u == 0x20AC
        || u == 0xA5
        || u == 0xFF04
        || u == 0xFFE5
}

/// A Hangul syllable or jamo (old Hangul included).
pub open spec fn hangul(c: char) -> bool {
    let u = c as u32;
    (0xAC00 <= u && u <= 0xD7A3) || (0x1100 <= u && u <= 0x11FF) || (0x3130 <= u && u <= 0x318F)
        || (0xA960 <= u && u <= 0xA97F) || (0xD7B0 <= u && u <= 0xD7FF)
}

pub fn is_hangul(ch: char) -> (b: bool)
    ensures
        b == hangul(ch),
{
    let u = ch as u32;
    (0xAC00 <= u && u <= 0xD7A3) || (0x1100 <= u && u <= 0x11FF) || (0x3130 <= u && u <= 0x318F)
        || (0xA960 <= u && u <= 0xA97F) || (0xD7B0 <= u && u <= 0xD7FF)
}

/// The width a space may give up when the line is condensed: the condense
/// percentage (at most 75) of its width, rounded toward zero; nothing for
/// a zero percentage or a width that is not positive.
pub open spec fn space_savings(space_width_hwp: i32, condense_min_space: u8) -> int {
    if condense_min_space == 0 || space_width_hwp <= 0 {
        0
    } else {
        let pct: int = if condense_min_space < 75 {
            condense_min_space as int
        } else {
            75
        };
        (space_width_hwp * pct) / 100
    }
}

pub fn condense_space_savings_hwp(space_width_hwp: i32, condense_min_space: u8) -> (r: i32)
    requires
        condense_min_space == 0 || space_width_hwp <= 0 || space_width_hwp * (
        if condense_min_space < 75 {
            condense_min_space as int
        } else {
            75
        }) <= i32::MAX,
    ensures
        r == space_savings(space_width_hwp, condense_min_space),
{
    if condense_min_space == 0 || space_width_hwp <= 0 {
        return 0;
    }
    let shrink_percent: i32 = if condense_min_space < 75 {
        condense_min_space as i32
    } else {
        75
    };
    space_width_hwp * shrink_percent / 100
}

pub fn condensed_line_width_hwp(width_hwp: i32, space_savings_hwp: i32) -> (r: i32)
    requires
        i32::MIN <= width_hwp - space_savings_hwp <= i32::MAX,
    ensures
        r == width_hwp - space_savings_hwp,
{
    width_hwp - space_savings_hwp
}

/// `a + b`, clamped to the `i32` range.
pub open spec fn sat_add(a: i32, b: i32) -> i32 {
    if a + b > i32::MAX {
        i32::MAX
    } else if a + b < i32::MIN {
        i32::MIN
    } else {
        (a + b) as i32
    }
}

/// `i32::saturating_add`.
pub fn saturating_add_i32(a: i32, b: i32) -> (r: i32)
    ensures
        r == sat_add(a, b),
{
    let s: i64 = a as i64 + b as i64;
    if s > i32::MAX as i64 {
        i32::MAX
    } else if s < i32::MIN as i64 {
        i32::MIN
    } else {
        s as i32
    }
}

/// The height a line advances by: the text height when it is positive and
/// below the line height (an inline object's convention), else the line height.
pub open spec fn seg_height(ls: LineSeg) -> i32 {
    if ls.line_height > ls.text_height && ls.text_height > 0 {
        ls.text_height
    } else {
        ls.line_height
    }
}

/// The vertical advance of a line: its height plus its line spacing, saturating.
pub open spec fn seg_advance(ls: LineSeg) -> i32 {
    sat_add(seg_height(ls), ls.line_spacing)
}

/// Where a paragraph's flow ends: its last line's position plus its advance.
pub open spec fn flow_end(p: Paragraph) -> Option<i32> {
    if p.line_segs@.len() == 0 {
        None
    } else {
        let ls = p.line_segs@.last();
        Some(sat_add(ls.vertical_pos, seg_advance(ls)))
    }
}

fn seg_advance_exec(ls: &LineSeg) -> (r: i32)
    ensures
        r == seg_advance(*ls),
{
    let height = if ls.line_height > ls.text_height && ls.text_height > 0 {
        ls.text_height
    } else {
        ls.line_height
    };
    saturating_add_i32(height, ls.line_spacing)
}

/// The flow end of a paragraph (its last line's position plus advance),
/// captured before a reflow overwrites it.
pub fn paragraph_flow_end(para: &Paragraph) -> (r: Option<i32>)
    ensures
        r == flow_end(*para),
{
    let n = para.line_segs.len();
    if n == 0 {
        return None;
    }
    let ls = &para.line_segs[n - 1];
    Some(saturating_add_i32(ls.vertical_pos, seg_advance_exec(ls)))
}


/// The last paragraph before `k` that has laid-out lines.
pub open spec fn last_with_lines(ps: Seq<Paragraph>, k: int) -> Option<usize>
    decreases k,
{
    if k <= 0 {
        None
    } else if ps[k - 1].line_segs@.len() > 0 {
        Some((k - 1) as usize)
    } else {
        last_with_lines(ps, k - 1)
    }
}

/// The position of a paragraph's first line.
pub open spec fn first_pos(p: Paragraph) -> Option<i32> {
    if p.line_segs@.len() == 0 {
        None
    } else {
        Some(p.line_segs@[0].vertical_pos)
    }
}

/// Whether `pi` lies in the half-open range of new paragraphs.
pub open spec fn in_range(r: Option<(usize, usize)>, pi: int) -> bool {
    match r {
        Some((a, b)) => a <= pi < b,
        None => false,
    }
}

/// What the walk over a section carries from one paragraph with lines to
/// the next: the index of the last such paragraph, where the flow goes on,
/// that paragraph's stored first and end positions, whether it was one the
/// edit touched, and the shift it received.
#[derive(Clone, Copy)]
pub struct VposCarry {
    pub prev: Option<usize>,
    pub next_vpos: i32,
    pub prev_first: Option<i32>,
    pub prev_end: Option<i32>,
    pub prev_modified: bool,
    pub prev_delta: i32,
}

/// The carry before `start`: the last paragraph with lines before it, or,
/// where there is none, the first position of `start` itself.
pub open spec fn vpos_start(ps: Seq<Paragraph>, start: int) -> VposCarry {
    let prev = last_with_lines(ps, start);
    VposCarry {
        prev,
        next_vpos: match prev {
            Some(pp) => match flow_end(ps[pp as int]) {
                Some(e) => e,
                None => 0,
            },
            None => match first_pos(ps[start]) {
                Some(f) => f,
                None => 0,
            },
        },
        prev_first: match prev {
            Some(pp) => first_pos(ps[pp as int]),
            None => None,
        },
        prev_end: match prev {
            Some(pp) => flow_end(ps[pp as int]),
            None => None,
        },
        prev_modified: false,
        prev_delta: 0,
    }
}

/// Whether the edit touched paragraph `pi`: it is the edited one or a new one.
pub open spec fn vpos_modified(start: int, ign: Option<(usize, usize)>, pi: int) -> bool {
    pi == start || in_range(ign, pi)
}

/// The stored position the first line of `pi` is compared with to tell a
/// column or page reset: the stored end given for the edited paragraph (or
/// its first position), the first position of a touched paragraph, else the
/// stored end of the previous one.
pub open spec fn reset_bound(
    start: int,
    ign: Option<(usize, usize)>,
    sse: Option<i32>,
    c: VposCarry,
) -> Option<i32> {
    if c.prev == Some(start as usize) && !in_range(ign, start) {
        match sse {
            Some(e) => Some(e),
            None => c.prev_first,
        }
    } else if c.prev_modified {
        c.prev_first
    } else {
        c.prev_end
    }
}

/// Whether paragraph `pi` (with lines) starts a new column or page: a
/// stored segment, not new, whose first line lies above the bound.
pub open spec fn is_reset(
    ps: Seq<Paragraph>,
    start: int,
    ign: Option<(usize, usize)>,
    sse: Option<i32>,
    c: VposCarry,
    pi: int,
) -> bool {
    let first = ps[pi].line_segs@[0];
    &&& first.tag & LineSeg::TAG_IMPLEMENTATION_PROPERTY == 0
    &&& !in_range(ign, pi)
    &&& reset_bound(start, ign, sse, c) matches Some(b) && first.vertical_pos < b
}

/// The shift of paragraph `pi` (with lines): none at a reset; at a boundary
/// the edit touched, what joins it to the flow after the boundary gap; else
/// the shift of the previous paragraph, which keeps the stored spacing.
pub open spec fn vpos_delta(
    ps: Seq<Paragraph>,
    start: int,
    ign: Option<(usize, usize)>,
    sse: Option<i32>,
    gaps: Seq<i32>,
    c: VposCarry,
    pi: int,
) -> int {
    if is_reset(ps, start, ign, sse, c, pi) {
        0
    } else if vpos_modified(start, ign, pi) || c.prev_modified {
        let gap: i32 = if c.prev is Some {
            gaps[pi]
        } else {
            0
        };
        sat_add(c.next_vpos, gap) - ps[pi].line_segs@[0].vertical_pos
    } else {
        c.prev_delta as int
    }
}

/// The carry after paragraph `pi`.
pub open spec fn vpos_next(
    ps: Seq<Paragraph>,
    start: int,
    ign: Option<(usize, usize)>,
    sse: Option<i32>,
    gaps: Seq<i32>,
    c: VposCarry,
    pi: int,
) -> VposCarry {
    if ps[pi].line_segs@.len() == 0 {
        c
    } else {
        let d = vpos_delta(ps, start, ign, sse, gaps, c, pi) as i32;
        let e = flow_end(ps[pi]);
        VposCarry {
            prev: Some(pi as usize),
            next_vpos: match e {
                Some(x) => sat_add(x, d),
                None => c.next_vpos,
            },
            prev_first: first_pos(ps[pi]),
            prev_end: e,
            prev_modified: vpos_modified(start, ign, pi),
            prev_delta: d,
        }
    }
}

/// The carry when the walk reaches paragraph `k`.
pub open spec fn vpos_carry(
    ps: Seq<Paragraph>,
    start: int,
    ign: Option<(usize, usize)>,
    sse: Option<i32>,
    gaps: Seq<i32>,
    k: int,
) -> VposCarry
    decreases k - start,
{
    if k <= start {
        vpos_start(ps, start)
    } else {
        vpos_next(ps, start, ign, sse, gaps, vpos_carry(ps, start, ign, sse, gaps, k - 1), k - 1)
    }
}

/// Whether every shift of the walk fits in an `i32`.
pub open spec fn vpos_fits(
    ps: Seq<Paragraph>,
    start: int,
    ign: Option<(usize, usize)>,
    sse: Option<i32>,
    gaps: Seq<i32>,
) -> bool {
    forall|pi: int|
        start <= pi < ps.len() && ps[pi].line_segs@.len() > 0 ==> i32::MIN <= #[trigger] vpos_delta(
            ps,
            start,
            ign,
            sse,
            gaps,
            vpos_carry(ps, start, ign, sse, gaps, pi),
            pi,
        ) <= i32::MAX
}

/// The shift every line of paragraph `pi` receives.
pub open spec fn vpos_shift(
    ps: Seq<Paragraph>,
    start: int,
    ign: Option<(usize, usize)>,
    sse: Option<i32>,
    gaps: Seq<i32>,
    pi: int,
) -> int {
    if start >= ps.len() || pi < start || ps[pi].line_segs@.len() == 0 {
        0
    } else {
        vpos_delta(ps, start, ign, sse, gaps, vpos_carry(ps, start, ign, sse, gaps, pi), pi)
    }
}

/// A line moved to the position `v`.
pub open spec fn moved(ls: LineSeg, v: i32) -> LineSeg {
    LineSeg { vertical_pos: v, ..ls }
}

/// Two paragraphs alike but for the positions of their lines.
pub open spec fn same_but_vpos(a: Paragraph, b: Paragraph) -> bool {
    &&& a.text == b.text
    &&& a.char_offsets == b.char_offsets
    &&& a.char_shapes == b.char_shapes
    &&& a.controls == b.controls
    &&& a.track_marks == b.track_marks
    &&& a.line_segs@.len() == b.line_segs@.len()
    &&& forall|j: int|
        0 <= j < a.line_segs@.len() ==> moved(#[trigger] a.line_segs@[j], b.line_segs@[j].vertical_pos)
            == b.line_segs@[j]
}

fn shift_segs(segs: &mut Vec<LineSeg>, delta: i32)
    ensures
        final(segs)@.len() == old(segs)@.len(),
        forall|j: int|
            0 <= j < old(segs)@.len() ==> #[trigger] final(segs)@[j] == moved(
                old(segs)@[j],
                sat_add(old(segs)@[j].vertical_pos, delta),
            ),
{
    let n = segs.len();
    let mut j: usize = 0;
    while j < n
        invariant
            n == old(segs)@.len(),
            segs@.len() == n,
            j <= n,
            forall|i: int|
                0 <= i < j ==> #[trigger] segs@[i] == moved(
                    old(segs)@[i],
                    sat_add(old(segs)@[i].vertical_pos, delta),
                ),
            forall|i: int| j <= i < n ==> #[trigger] segs@[i] == old(segs)@[i],
        decreases n - j,
    {
        let mut s = segs[j];
        s.vertical_pos = saturating_add_i32(s.vertical_pos, delta);
        segs.set(j, s);
        j += 1;
    }
}

fn in_range_exec(r: Option<(usize, usize)>, pi: usize) -> (b: bool)
    ensures
        b == in_range(r, pi as int),
{
    match r {
        Some((a, b)) => a <= pi && pi < b,
        None => false,
    }
}

fn last_with_lines_exec(ps: &Vec<Paragraph>, k: usize) -> (r: Option<usize>)
    requires
        k <= ps@.len(),
    ensures
        r == last_with_lines(ps@, k as int),
        r matches Some(i) ==> i < k,
{
    let mut i: usize = k;
    while i > 0
        invariant
            i <= k <= ps@.len(),
            last_with_lines(ps@, k as int) == last_with_lines(ps@, i as int),
        decreases i,
    {
        if ps[i - 1].line_segs.len() > 0 {
            return Some(i - 1);
        }
        i -= 1;
    }
    None
}

proof fn lemma_last_with_lines_below(ps: Seq<Paragraph>, k: int)
    requires
        k <= usize::MAX,
    ensures
        last_with_lines(ps, k) matches Some(i) ==> 0 <= i < k && ps[i as int].line_segs@.len() > 0,
    decreases k,
{
    if k > 0 {
        lemma_last_with_lines_below(ps, k - 1);
    }
}

/// Moves the paragraphs of a section, from `start_para` on, after the
/// paragraph `start_para` was laid out again.
///
/// Each paragraph with lines moves all its lines by one amount: none where
/// its first line starts a new column or page (it lies above the stored end
/// of the previous paragraph); where the edit touched it or the previous
/// paragraph, the amount that puts it right after the previous paragraph's
/// new end plus `boundary_gaps[pi]`; else the previous paragraph's amount,
/// which keeps the stored spacing. `boundary_gaps[pi]` is the gap between
/// the last paragraph with lines before `pi` and `pi` (the first one's
/// spacing after plus the second one's spacing before). New paragraphs, the
/// range `ignore_reset_range`, never count as a reset, nor does a segment
/// tagged as made by the program; `start_stored_end` is the stored end of
/// `start_para` before it was laid out again, where the caller kept it.
pub fn recalculate_section_vpos(
    paragraphs: &mut Vec<Paragraph>,
    start_para: usize,
    ignore_reset_range: Option<(usize, usize)>,
    start_stored_end: Option<i32>,
    boundary_gaps: &Vec<i32>,
)
    requires
        boundary_gaps@.len() == old(paragraphs)@.len(),
        start_para < old(paragraphs)@.len() ==> vpos_fits(
            old(paragraphs)@,
            start_para as int,
            ignore_reset_range,
            start_stored_end,
            boundary_gaps@,
        ),
    ensures
        final(paragraphs)@.len() == old(paragraphs)@.len(),
        forall|i: int|
            0 <= i < old(paragraphs)@.len() ==> same_but_vpos(
                old(paragraphs)@[i],
                #[trigger] final(paragraphs)@[i],
            ),
        forall|i: int, j: int|
            0 <= i < old(paragraphs)@.len() && 0 <= j < old(paragraphs)@[i].line_segs@.len()
                ==> #[trigger] final(paragraphs)@[i].line_segs@[j].vertical_pos == sat_add(
                old(paragraphs)@[i].line_segs@[j].vertical_pos,
                vpos_shift(
                    old(paragraphs)@,
                    start_para as int,
                    ignore_reset_range,
                    start_stored_end,
                    boundary_gaps@,
                    i,
                ) as i32,
            ),
{
    let ghost ps = paragraphs@;
    let n = paragraphs.len();
    if n == 0 || start_para >= n {
        proof {
            assert forall|i: int| 0 <= i < ps.len() implies same_but_vpos(ps[i], #[trigger] paragraphs@[i]) by {
                assert forall|j: int| 0 <= j < ps[i].line_segs@.len() implies moved(
                    #[trigger] ps[i].line_segs@[j],
                    paragraphs@[i].line_segs@[j].vertical_pos,
                ) == paragraphs@[i].line_segs@[j] by {}
            }
        }
        return;
    }
    let ghost start = start_para as int;
    let ghost ign = ignore_reset_range;
    let ghost sse = start_stored_end;
    let ghost gaps = boundary_gaps@;
    let mut prev_idx = last_with_lines_exec(paragraphs, start_para);
    proof {
        lemma_last_with_lines_below(ps, start);
    }
    let mut next_vpos: i32 = match prev_idx {
        Some(pp) => match paragraph_flow_end(&paragraphs[pp]) {
            Some(e) => e,
            None => 0,
        },
        None => if paragraphs[start_para].line_segs.len() > 0 {
            paragraphs[start_para].line_segs[0].vertical_pos
        } else {
            0
        },
    };
    let mut orig_prev_first: Option<i32> = match prev_idx {
        Some(pp) => if paragraphs[pp].line_segs.len() > 0 {
            Some(paragraphs[pp].line_segs[0].vertical_pos)
        } else {
            None
        },
        None => None,
    };
    let mut orig_prev_end: Option<i32> = match prev_idx {
        Some(pp) => paragraph_flow_end(&paragraphs[pp]),
        None => None,
    };
    let mut prev_modified = false;
    let mut prev_delta: i32 = 0;
    let mut pi: usize = start_para;
    while pi < n
        invariant
            n == ps.len(),
            start == start_para,
            ign == ignore_reset_range,
            sse == start_stored_end,
            gaps == boundary_gaps@,
            gaps.len() == n,
            start_para <= pi <= n,
            vpos_fits(ps, start, ign, sse, gaps),
            paragraphs@.len() == n,
            (VposCarry {
                prev: prev_idx,
                next_vpos,
                prev_first: orig_prev_first,
                prev_end: orig_prev_end,
                prev_modified,
                prev_delta,
            }) == vpos_carry(ps, start, ign, sse, gaps, pi as int),
            forall|i: int| 0 <= i < n ==> same_but_vpos(ps[i], #[trigger] paragraphs@[i]),
            forall|i: int, j: int|
                0 <= i < n && 0 <= j < ps[i].line_segs@.len() ==> #[trigger] paragraphs@[i].line_segs@[j].vertical_pos
                    == sat_add(
                    ps[i].line_segs@[j].vertical_pos,
                    (if i < pi {
                        vpos_shift(ps, start, ign, sse, gaps, i)
                    } else {
                        0
                    }) as i32,
                ),
        decreases n - pi,
    {
        if paragraphs[pi].line_segs.len() > 0 {
            let ghost c = vpos_carry(ps, start, ign, sse, gaps, pi as int);
            let para_modified = pi == start_para || in_range_exec(ignore_reset_range, pi);
            let current_start = paragraphs[pi].line_segs[0].vertical_pos;
            let is_original = paragraphs[pi].line_segs[0].tag & LineSeg::TAG_IMPLEMENTATION_PROPERTY
                == 0;
            let prev_stored_bound = if prev_idx == Some(start_para) && !in_range_exec(
                ignore_reset_range,
                start_para,
            ) {
                match start_stored_end {
                    Some(e) => Some(e),
                    None => orig_prev_first,
                }
            } else if prev_modified {
                orig_prev_first
            } else {
                orig_prev_end
            };
            let reset = is_original && !in_range_exec(ignore_reset_range, pi) && match prev_stored_bound {
                Some(b) => current_start < b,
                None => false,
            };
            proof {
                assert(vpos_delta(ps, start, ign, sse, gaps, c, pi as int) == vpos_shift(ps, start, ign, sse, gaps, pi as int));
            }
            let delta: i32 = if reset {
                0
            } else if para_modified || prev_modified {
                let gap: i32 = match prev_idx {
                    Some(_) => boundary_gaps[pi],
                    None => 0,
                };
                saturating_add_i32(next_vpos, gap) - current_start
            } else {
                prev_delta
            };
            let orig_end = paragraph_flow_end(&paragraphs[pi]);
            if delta != 0 {
                shift_segs(&mut paragraphs[pi].line_segs, delta);
            }
            if let Some(end) = orig_end {
                next_vpos = saturating_add_i32(end, delta);
            }
            orig_prev_first = Some(current_start);
            orig_prev_end = orig_end;
            prev_modified = para_modified;
            prev_delta = delta;
            prev_idx = Some(pi);
        }
        pi += 1;
    }
}


/// Whether every shift of the walk from `start_para` fits in an `i32`, which
/// `recalculate_section_vpos` asks of its input.
pub fn section_vpos_fits(
    paragraphs: &Vec<Paragraph>,
    start_para: usize,
    ignore_reset_range: Option<(usize, usize)>,
    start_stored_end: Option<i32>,
    boundary_gaps: &Vec<i32>,
) -> (b: bool)
    requires
        boundary_gaps@.len() == paragraphs@.len(),
        start_para < paragraphs@.len(),
    ensures
        b == vpos_fits(
            paragraphs@,
            start_para as int,
            ignore_reset_range,
            start_stored_end,
            boundary_gaps@,
        ),
{
    let ghost ps = paragraphs@;
    let ghost start = start_para as int;
    let ghost ign = ignore_reset_range;
    let ghost sse = start_stored_end;
    let ghost gaps = boundary_gaps@;
    let n = paragraphs.len();
    let mut prev_idx = last_with_lines_exec(paragraphs, start_para);
    proof {
        lemma_last_with_lines_below(ps, start);
    }
    let mut next_vpos: i32 = match prev_idx {
        Some(pp) => match paragraph_flow_end(&paragraphs[pp]) {
            Some(e) => e,
            None => 0,
        },
        None => if paragraphs[start_para].line_segs.len() > 0 {
            paragraphs[start_para].line_segs[0].vertical_pos
        } else {
            0
        },
    };
    let mut orig_prev_first: Option<i32> = match prev_idx {
        Some(pp) => if paragraphs[pp].line_segs.len() > 0 {
            Some(paragraphs[pp].line_segs[0].vertical_pos)
        } else {
            None
        },
        None => None,
    };
    let mut orig_prev_end: Option<i32> = match prev_idx {
        Some(pp) => paragraph_flow_end(&paragraphs[pp]),
        None => None,
    };
    let mut prev_modified = false;
    let mut prev_delta: i32 = 0;
    let mut pi: usize = start_para;
    while pi < n
        invariant
            n == ps.len(),
            ps == paragraphs@,
            start == start_para,
            ign == ignore_reset_range,
            sse == start_stored_end,
            gaps == boundary_gaps@,
            gaps.len() == n,
            start_para <= pi <= n,
            (VposCarry {
                prev: prev_idx,
                next_vpos,
                prev_first: orig_prev_first,
                prev_end: orig_prev_end,
                prev_modified,
                prev_delta,
            }) == vpos_carry(ps, start, ign, sse, gaps, pi as int),
            forall|k: int|
                start <= k < pi && ps[k].line_segs@.len() > 0 ==> i32::MIN <= #[trigger] vpos_delta(
                    ps,
                    start,
                    ign,
                    sse,
                    gaps,
                    vpos_carry(ps, start, ign, sse, gaps, k),
                    k,
                ) <= i32::MAX,
        decreases n - pi,
    {
        if paragraphs[pi].line_segs.len() > 0 {
            let para_modified = pi == start_para || in_range_exec(ignore_reset_range, pi);
            let current_start = paragraphs[pi].line_segs[0].vertical_pos;
            let is_original = paragraphs[pi].line_segs[0].tag & LineSeg::TAG_IMPLEMENTATION_PROPERTY
                == 0;
            let prev_stored_bound = if prev_idx == Some(start_para) && !in_range_exec(
                ignore_reset_range,
                start_para,
            ) {
                match start_stored_end {
                    Some(e) => Some(e),
                    None => orig_prev_first,
                }
            } else if prev_modified {
                orig_prev_first
            } else {
                orig_prev_end
            };
            let reset = is_original && !in_range_exec(ignore_reset_range, pi) && match prev_stored_bound {
                Some(b) => current_start < b,
                None => false,
            };
            let wide: i64 = if reset {
                0
            } else if para_modified || prev_modified {
                let gap: i32 = match prev_idx {
                    Some(_) => boundary_gaps[pi],
                    None => 0,
                };
                saturating_add_i32(next_vpos, gap) as i64 - current_start as i64
            } else {
                prev_delta as i64
            };
            proof {
                let c = vpos_carry(ps, start, ign, sse, gaps, pi as int);
                assert(vpos_delta(ps, start, ign, sse, gaps, c, pi as int) == wide as int);
            }
            if wide < i32::MIN as i64 || wide > i32::MAX as i64 {
                return false;
            }
            let delta = wide as i32;
            let orig_end = paragraph_flow_end(&paragraphs[pi]);
            if let Some(end) = orig_end {
                next_vpos = saturating_add_i32(end, delta);
            }
            orig_prev_first = Some(current_start);
            orig_prev_end = orig_end;
            prev_modified = para_modified;
            prev_delta = delta;
            prev_idx = Some(pi);
        }
        pi += 1;
    }
    true
}

/// The stored position a paragraph `pi` is compared with when the last
/// paragraph with lines before it is `pp`.
pub open spec fn stored_bound(
    ps: Seq<Paragraph>,
    start: int,
    ign: Option<(usize, usize)>,
    sse: Option<i32>,
    pp: int,
) -> Option<i32> {
    if pp == start && !in_range(ign, start) {
        match sse {
            Some(e) => Some(e),
            None => first_pos(ps[pp]),
        }
    } else if pp >= start && vpos_modified(start, ign, pp) {
        first_pos(ps[pp])
    } else {
        flow_end(ps[pp])
    }
}

/// Whether `pi`, after `pp`, starts a new column or page: its first line is
/// a stored one, it is not new, and it lies above the stored bound of `pp`.
pub open spec fn starts_new_area(
    ps: Seq<Paragraph>,
    start: int,
    ign: Option<(usize, usize)>,
    sse: Option<i32>,
    pp: int,
    pi: int,
) -> bool {
    let first = ps[pi].line_segs@[0];
    &&& first.tag & LineSeg::TAG_IMPLEMENTATION_PROPERTY == 0
    &&& !in_range(ign, pi)
    &&& stored_bound(ps, start, ign, sse, pp) matches Some(b) && first.vertical_pos < b
}

/// What the walk carries into paragraph `k`: the last paragraph with lines
/// before `k`, its stored first and end positions, and, where it is at or
/// after `start`, whether the edit touched it, its shift and its new end.
proof fn lemma_vpos_carry(
    ps: Seq<Paragraph>,
    start: int,
    ign: Option<(usize, usize)>,
    sse: Option<i32>,
    gaps: Seq<i32>,
    k: int,
)
    requires
        0 <= start < ps.len(),
        start <= k <= ps.len(),
        ps.len() <= usize::MAX,
        vpos_fits(ps, start, ign, sse, gaps),
    ensures
        ({
            let c = vpos_carry(ps, start, ign, sse, gaps, k);
            &&& c.prev == last_with_lines(ps, k)
            &&& c.prev matches Some(pp) ==> {
                &&& c.prev_first == first_pos(ps[pp as int])
                &&& c.prev_end == flow_end(ps[pp as int])
                &&& flow_end(ps[pp as int]) is Some
                &&& c.prev_modified == (pp >= start && vpos_modified(start, ign, pp as int))
                &&& c.prev_delta == vpos_shift(ps, start, ign, sse, gaps, pp as int)
                &&& c.next_vpos == sat_add(
                    flow_end(ps[pp as int])->0,
                    vpos_shift(ps, start, ign, sse, gaps, pp as int) as i32,
                )
            }
            &&& c.prev is None ==> !c.prev_modified && c.prev_delta == 0
        }),
    decreases k - start,
{
    lemma_last_with_lines_below(ps, k);
    if k == start {
        lemma_last_with_lines_below(ps, start);
    } else {
        lemma_vpos_carry(ps, start, ign, sse, gaps, k - 1);
        lemma_last_with_lines_below(ps, k - 1);
    }
}

/// A paragraph that starts a new column or page keeps its stored position.
pub proof fn law_vpos_reset_keeps_position(
    ps: Seq<Paragraph>,
    start: int,
    ign: Option<(usize, usize)>,
    sse: Option<i32>,
    gaps: Seq<i32>,
    pi: int,
    pp: usize,
)
    requires
        0 <= start <= pi < ps.len(),
        ps.len() <= usize::MAX,
        vpos_fits(ps, start, ign, sse, gaps),
        ps[pi].line_segs@.len() > 0,
        last_with_lines(ps, pi) == Some(pp),
        starts_new_area(ps, start, ign, sse, pp as int, pi),
    ensures
        vpos_shift(ps, start, ign, sse, gaps, pi) == 0,
{
    lemma_vpos_carry(ps, start, ign, sse, gaps, pi);
}

/// Where neither a paragraph nor the one before it was touched by the edit,
/// and no new column or page starts, the paragraph moves by the same amount
/// as the one before it: the stored spacing between them is kept.
pub proof fn law_vpos_untouched_keeps_spacing(
    ps: Seq<Paragraph>,
    start: int,
    ign: Option<(usize, usize)>,
    sse: Option<i32>,
    gaps: Seq<i32>,
    pi: int,
    pp: usize,
)
    requires
        0 <= start <= pi < ps.len(),
        ps.len() <= usize::MAX,
        vpos_fits(ps, start, ign, sse, gaps),
        ps[pi].line_segs@.len() > 0,
        last_with_lines(ps, pi) == Some(pp),
        !vpos_modified(start, ign, pi),
        !(pp >= start && vpos_modified(start, ign, pp as int)),
        !starts_new_area(ps, start, ign, sse, pp as int, pi),
    ensures
        vpos_shift(ps, start, ign, sse, gaps, pi) == vpos_shift(ps, start, ign, sse, gaps, pp as int),
{
    lemma_vpos_carry(ps, start, ign, sse, gaps, pi);
}

/// Where the edit touched a paragraph or the one before it, and no new
/// column or page starts, the paragraph's first line is placed at the new
/// end of the one before it plus the boundary gap.
pub proof fn law_vpos_touched_joins_flow(
    ps: Seq<Paragraph>,
    start: int,
    ign: Option<(usize, usize)>,
    sse: Option<i32>,
    gaps: Seq<i32>,
    pi: int,
    pp: usize,
)
    requires
        0 <= start <= pi < ps.len(),
        ps.len() <= usize::MAX,
        gaps.len() == ps.len(),
        vpos_fits(ps, start, ign, sse, gaps),
        ps[pi].line_segs@.len() > 0,
        last_with_lines(ps, pi) == Some(pp),
        vpos_modified(start, ign, pi) || (pp >= start && vpos_modified(start, ign, pp as int)),
        !starts_new_area(ps, start, ign, sse, pp as int, pi),
    ensures
        flow_end(ps[pp as int]) is Some,
        sat_add(
            ps[pi].line_segs@[0].vertical_pos,
            vpos_shift(ps, start, ign, sse, gaps, pi) as i32,
        ) == sat_add(
            sat_add(flow_end(ps[pp as int])->0, vpos_shift(ps, start, ign, sse, gaps, pp as int) as i32),
            gaps[pi],
        ),
{
    lemma_vpos_carry(ps, start, ign, sse, gaps, pi);
}


/// Condensing saves at most three quarters of a space and never a negative
/// amount; it saves nothing for a zero percentage or a width that is not
/// positive; and a larger percentage never saves less.
pub proof fn law_space_savings_bounds(w: i32, m1: u8, m2: u8)
    ensures
        0 <= space_savings(w, m1),
        w > 0 ==> 4 * space_savings(w, m1) <= 3 * w,
        (m1 == 0 || w <= 0) ==> space_savings(w, m1) == 0,
        m1 <= m2 ==> space_savings(w, m1) <= space_savings(w, m2),
        (w > 0 && 0 < m1 <= 75) ==> space_savings(w, m1) == (w * m1) / 100,
{
    if w > 0 && m1 > 0 {
        let p1: int = if m1 < 75 { m1 as int } else { 75 };
        assert(0 <= (w * p1) / 100) by (nonlinear_arith)
            requires
                w > 0,
                0 < p1 <= 75,
        ;
        assert(4 * ((w * p1) / 100) <= 3 * w) by (nonlinear_arith)
            requires
                w > 0,
                0 < p1 <= 75,
        ;
        if m1 <= m2 {
            let p2: int = if m2 < 75 { m2 as int } else { 75 };
            assert((w * p1) / 100 <= (w * p2) / 100) by (nonlinear_arith)
                requires
                    w > 0,
                    0 < p1 <= p2,
            ;
        }
    }
}

} // verus!
