//! How the sidecar's array scanners walk what the writer produced: an array
//! of objects with no bracket or brace outside their string literals reads
//! back as exactly those objects, and a whole written sidecar reads back as
//! the change records and marks it was written from.

use crate::serializer::track_sidecar::{
    array_body, array_objects, close_from, key_pat, objects, split_from,
};
use crate::model::control::{Cell, Control};
use crate::model::document::{Document, Section, TrackChangeRec, TrackKind};
use crate::model::paragraph::Paragraph;
use crate::serializer::sidecar_laws::{
    change_tuple, field_len, law_change_record_reads_back, lemma_at, lemma_cell_layout,
    lemma_change_layout, lemma_decimal_digits, lemma_esc_quotes, lemma_first_match,
    lemma_head_layout, lemma_match_char, mark_field_at, mark_head, plain_text,
};
use crate::serializer::track_sidecar::{
    cell_paras_marks, cell_text, cells_marks, change_entries, change_json, changes_json,
    ctrl_marks, ctrls_marks, doc_marks, esc, first_ge, host_marks, is_digit, kind_text,
    mark_entries, mark_json, para_marks, sec_marks, sidecar, sidecar_changes, sidecar_marks,
    tm_json,
};
use crate::text::{decimal, find_from, join_seq, matches_at};
use vstd::prelude::*;

verus! {

/// The scan of `x[k..end]` as the array scanners make it, starting in the
/// given string state after `prev`: the string state and last character at
/// `end`, or `None` where a bracket or brace stands outside a string.
pub open spec fn flat_scan(x: Seq<char>, k: int, end: int, in_str: bool, prev: char) -> Option<
    (bool, char),
>
    decreases end - k,
{
    if k >= end {
        Some((in_str, prev))
    } else {
        let b = x[k];
        if in_str {
            flat_scan(x, k + 1, end, !(b == '"' && prev != '\\'), b)
        } else if b == '"' {
            flat_scan(x, k + 1, end, true, b)
        } else if b == '[' || b == ']' || b == '{' || b == '}' {
            None
        } else {
            flat_scan(x, k + 1, end, false, b)
        }
    }
}

/// The string state a scan ends in.
pub open spec fn scan_in(r: Option<(bool, char)>) -> bool {
    match r {
        Some((s, _)) => s,
        None => false,
    }
}

/// The last character a scan saw.
pub open spec fn scan_last(r: Option<(bool, char)>) -> char {
    match r {
        Some((_, c)) => c,
        None => '\0',
    }
}

/// An object the scanners read as one: `{`, a body with no bracket or brace
/// outside its string literals and no string left open, `}`.
pub open spec fn flat_object(obj: Seq<char>) -> bool {
    &&& obj.len() >= 2
    &&& obj[0] == '{'
    &&& obj.last() == '}'
    &&& flat_scan(obj, 1, obj.len() - 1, false, '{') matches Some((s, _)) && !s
}

/// Every object of a list is flat.
pub open spec fn all_flat(objs: Seq<Seq<char>>) -> bool {
    forall|k: int| 0 <= k < objs.len() ==> flat_object(#[trigger] objs[k])
}

/// Scanning in two parts.
pub proof fn lemma_scan_join(x: Seq<char>, a: int, b: int, c: int, s: bool, p: char)
    requires
        a <= b <= c,
        flat_scan(x, a, b, s, p) is Some,
    ensures
        flat_scan(x, a, c, s, p) == flat_scan(
            x,
            b,
            c,
            scan_in(flat_scan(x, a, b, s, p)),
            scan_last(flat_scan(x, a, b, s, p)),
        ),
    decreases b - a,
{
    if a < b {
        let ch = x[a];
        if s {
            lemma_scan_join(x, a + 1, b, c, !(ch == '"' && p != '\\'), ch);
        } else if ch == '"' {
            lemma_scan_join(x, a + 1, b, c, true, ch);
        } else if !(ch == '[' || ch == ']' || ch == '{' || ch == '}') {
            lemma_scan_join(x, a + 1, b, c, false, ch);
        }
    }
}

/// Scanning a part of a text is scanning the part.
pub proof fn lemma_scan_transfer(x: Seq<char>, o: int, t: Seq<char>, k: int, e: int, s: bool, p: char)
    requires
        0 <= o,
        o + t.len() <= x.len(),
        x.subrange(o, o + t.len()) == t,
        0 <= k <= e <= t.len(),
    ensures
        flat_scan(x, o + k, o + e, s, p) == flat_scan(t, k, e, s, p),
    decreases e - k,
{
    if k < e {
        assert(x[o + k] == t[k]) by {
            assert(x.subrange(o, o + t.len())[k] == x[o + k]);
        }
        let ch = t[k];
        if s {
            lemma_scan_transfer(x, o, t, k + 1, e, !(ch == '"' && p != '\\'), ch);
        } else if ch == '"' {
            lemma_scan_transfer(x, o, t, k + 1, e, true, ch);
        } else if !(ch == '[' || ch == ']' || ch == '{' || ch == '}') {
            lemma_scan_transfer(x, o, t, k + 1, e, false, ch);
        }
    }
}

/// Where the scan passes, the search for the closing bracket passes alike.
pub proof fn lemma_close_walk(x: Seq<char>, a: int, b: int, d: int, s: bool, p: char)
    requires
        0 <= a <= b <= x.len(),
        flat_scan(x, a, b, s, p) matches Some((s1, _)) && !s1,
    ensures
        close_from(x, a, d, s, p) == close_from(x, b, d, false, scan_last(flat_scan(x, a, b, s, p))),
    decreases b - a,
{
    if a < b {
        let ch = x[a];
        if s {
            lemma_close_walk(x, a + 1, b, d, !(ch == '"' && p != '\\'), ch);
        } else if ch == '"' {
            lemma_close_walk(x, a + 1, b, d, true, ch);
        } else {
            lemma_close_walk(x, a + 1, b, d, false, ch);
        }
    }
}

/// Where the scan passes, the splitting into objects passes alike.
pub proof fn lemma_split_walk(
    x: Seq<char>,
    a: int,
    b: int,
    depth: int,
    start: Option<int>,
    s: bool,
    p: char,
)
    requires
        0 <= a <= b <= x.len(),
        flat_scan(x, a, b, s, p) matches Some((s1, _)) && !s1,
    ensures
        split_from(x, a, depth, start, s, p) == split_from(
            x,
            b,
            depth,
            start,
            false,
            scan_last(flat_scan(x, a, b, s, p)),
        ),
    decreases b - a,
{
    if a < b {
        let ch = x[a];
        if s {
            lemma_split_walk(x, a + 1, b, depth, start, !(ch == '"' && p != '\\'), ch);
        } else if ch == '"' {
            lemma_split_walk(x, a + 1, b, depth, start, true, ch);
        } else {
            lemma_split_walk(x, a + 1, b, depth, start, false, ch);
        }
    }
}

/// The search for the closing bracket passes over a flat object.
pub proof fn lemma_object_close(x: Seq<char>, o: int, obj: Seq<char>, d: int, p: char)
    requires
        flat_object(obj),
        0 <= o,
        o + obj.len() <= x.len(),
        x.subrange(o, o + obj.len()) == obj,
    ensures
        close_from(x, o, d, false, p) == close_from(x, o + obj.len(), d, false, '}'),
{
    let n = obj.len() as int;
    assert(x[o] == obj[0]) by {
        assert(x.subrange(o, o + n)[0] == x[o]);
    }
    assert(x[o + n - 1] == obj[n - 1]) by {
        assert(x.subrange(o, o + n)[n - 1] == x[o + n - 1]);
    }
    lemma_scan_transfer(x, o, obj, 1, n - 1, false, '{');
    lemma_close_walk(x, o + 1, o + n - 1, d, false, '{');
}

/// Splitting at depth zero emits a flat object whole.
pub proof fn lemma_object_split(x: Seq<char>, o: int, obj: Seq<char>, start: Option<int>, p: char)
    requires
        flat_object(obj),
        0 <= o,
        o + obj.len() <= x.len(),
        x.subrange(o, o + obj.len()) == obj,
    ensures
        split_from(x, o, 0, start, false, p) == seq![obj] + split_from(
            x,
            o + obj.len(),
            0,
            Some(o),
            false,
            '}',
        ),
{
    let n = obj.len() as int;
    assert(x[o] == obj[0]) by {
        assert(x.subrange(o, o + n)[0] == x[o]);
    }
    assert(x[o + n - 1] == obj[n - 1]) by {
        assert(x.subrange(o, o + n)[n - 1] == x[o + n - 1]);
    }
    lemma_scan_transfer(x, o, obj, 1, n - 1, false, '{');
    lemma_split_walk(x, o + 1, o + n - 1, 1, Some(o), false, '{');
}

/// Where a joined text stands at offset `o` of `x`, so do its parts.
proof fn lemma_join_parts(x: Seq<char>, o: int, objs: Seq<Seq<char>>)
    requires
        objs.len() >= 2,
        0 <= o,
        o + join_seq(objs, ","@).len() <= x.len(),
        x.subrange(o, o + join_seq(objs, ","@).len()) == join_seq(objs, ","@),
    ensures
        ({
            let head = join_seq(objs.drop_last(), ","@);
            let h = head.len() as int;
            &&& join_seq(objs, ","@).len() == h + 1 + objs.last().len()
            &&& x.subrange(o, o + h) == head
            &&& x[o + h] == ','
            &&& x.subrange(o + h + 1, o + h + 1 + objs.last().len()) == objs.last()
        }),
{
    reveal_strlit(",");
    let head = join_seq(objs.drop_last(), ","@);
    let h = head.len() as int;
    let j = join_seq(objs, ","@);
    assert(j == head + ","@ + objs.last());
    let m = objs.last().len() as int;
    assert(x.subrange(o, o + h) =~= j.subrange(0, h));
    assert(j.subrange(0, h) =~= head);
    assert(x[o + h] == j[h]) by {
        assert(x.subrange(o, o + j.len())[h] == x[o + h]);
    }
    assert(x.subrange(o + h + 1, o + h + 1 + m) =~= j.subrange(h + 1, h + 1 + m));
    assert(j.subrange(h + 1, h + 1 + m) =~= objs.last());
}

/// The search for the closing bracket passes over flat objects joined by commas.
pub proof fn lemma_join_close(x: Seq<char>, o: int, objs: Seq<Seq<char>>, d: int, p: char)
    requires
        all_flat(objs),
        0 <= o,
        o + join_seq(objs, ","@).len() <= x.len(),
        x.subrange(o, o + join_seq(objs, ","@).len()) == join_seq(objs, ","@),
    ensures
        close_from(x, o, d, false, p) == close_from(
            x,
            o + join_seq(objs, ","@).len(),
            d,
            false,
            if objs.len() == 0 {
                p
            } else {
                '}'
            },
        ),
    decreases objs.len(),
{
    if objs.len() == 1 {
        assert(flat_object(objs[0]));
        lemma_object_close(x, o, objs[0], d, p);
    } else if objs.len() >= 2 {
        lemma_join_parts(x, o, objs);
        let head = join_seq(objs.drop_last(), ","@);
        let h = head.len() as int;
        assert(all_flat(objs.drop_last())) by {
            assert forall|k: int| 0 <= k < objs.drop_last().len() implies flat_object(
                #[trigger] objs.drop_last()[k],
            ) by {
                assert(objs.drop_last()[k] == objs[k]);
            }
        }
        lemma_join_close(x, o, objs.drop_last(), d, p);
        assert(flat_object(objs[objs.len() - 1]));
        lemma_object_close(x, o + h + 1, objs.last(), d, ',');
    }
}

/// Splitting flat objects joined by commas emits each of them.
pub proof fn lemma_join_split(x: Seq<char>, o: int, objs: Seq<Seq<char>>, start: Option<int>, p: char)
    requires
        all_flat(objs),
        0 <= o,
        o + join_seq(objs, ","@).len() <= x.len(),
        x.subrange(o, o + join_seq(objs, ","@).len()) == join_seq(objs, ","@),
    ensures
        split_from(x, o, 0, start, false, p) == objs + split_from(
            x,
            o + join_seq(objs, ","@).len(),
            0,
            if objs.len() == 0 {
                start
            } else {
                Some(o + join_seq(objs, ","@).len() - objs.last().len())
            },
            false,
            if objs.len() == 0 {
                p
            } else {
                '}'
            },
        ),
    decreases objs.len(),
{
    if objs.len() == 0 {
        assert(objs + split_from(x, o, 0, start, false, p) =~= split_from(x, o, 0, start, false, p));
    } else if objs.len() == 1 {
        assert(flat_object(objs[0]));
        lemma_object_split(x, o, objs[0], start, p);
        assert(seq![objs[0]] =~= objs);
    } else {
        lemma_join_parts(x, o, objs);
        let head = join_seq(objs.drop_last(), ","@);
        let h = head.len() as int;
        let m = objs.last().len() as int;
        assert(all_flat(objs.drop_last())) by {
            assert forall|k: int| 0 <= k < objs.drop_last().len() implies flat_object(
                #[trigger] objs.drop_last()[k],
            ) by {
                assert(objs.drop_last()[k] == objs[k]);
            }
        }
        lemma_join_split(x, o, objs.drop_last(), start, p);
        let st = Some(o + h - objs.drop_last().last().len());
        assert(flat_object(objs[objs.len() - 1]));
        lemma_object_split(x, o + h + 1, objs.last(), st, ',');
        let rest = split_from(x, o + h + 1 + m, 0, Some(o + h + 1), false, '}');
        assert(objs.drop_last() + (seq![objs.last()] + rest) =~= objs + rest);
    }
}

/// An array written as `"key":[` and flat objects joined by commas, then
/// `]`, where that is the first `"key":[` of the text, reads back as
/// exactly those objects.
pub proof fn lemma_array_reads_back(json: Seq<char>, key: Seq<char>, pos: int, objs: Seq<Seq<char>>)
    requires
        all_flat(objs),
        find_from(json, key_pat(key, "\":["@), 0) == Some(pos),
        ({
            let i = pos + key_pat(key, "\":["@).len();
            let j = join_seq(objs, ","@);
            &&& 0 <= pos
            &&& i + j.len() < json.len()
            &&& json.subrange(i, i + j.len()) == j
            &&& json[i + j.len()] == ']'
        }),
    ensures
        array_objects(json, key) == objs,
{
    let i = pos + key_pat(key, "\":["@).len();
    let j = join_seq(objs, ","@);
    lemma_join_close(json, i, objs, 1, '\0');
    assert(array_body(json, key) == Some(json.subrange(i, i + j.len())));
    assert(j.subrange(0, j.len() as int) =~= j);
    lemma_join_split(j, 0, objs, None, '\0');
}


/// A character that changes the scanners' state outside a string.
pub open spec fn scan_special(c: char) -> bool {
    c == '"' || c == '[' || c == ']' || c == '{' || c == '}'
}

/// Outside strings, ordinary characters leave the scan outside.
pub proof fn lemma_scan_out_plain(x: Seq<char>, a: int, b: int, p: char)
    requires
        a <= b,
        forall|k: int| a <= k < b ==> !scan_special(#[trigger] x[k]),
    ensures
        flat_scan(x, a, b, false, p) == Some((
            false,
            if a < b {
                x[b - 1]
            } else {
                p
            },
        )),
    decreases b - a,
{
    if a < b {
        lemma_scan_out_plain(x, a + 1, b, x[a]);
    }
}

/// Inside a string, characters whose every quote follows a backslash keep
/// the scan inside.
pub proof fn lemma_scan_in_escaped(x: Seq<char>, a: int, b: int, p: char)
    requires
        a <= b,
        forall|k: int|
            a <= k < b && #[trigger] x[k] == '"' ==> (if k == a {
                p
            } else {
                x[k - 1]
            }) == '\\',
    ensures
        flat_scan(x, a, b, true, p) == Some((
            true,
            if a < b {
                x[b - 1]
            } else {
                p
            },
        )),
    decreases b - a,
{
    if a < b {
        assert forall|k: int|
            a + 1 <= k < b && #[trigger] x[k] == '"' implies (if k == a + 1 {
                x[a]
            } else {
                x[k - 1]
            }) == '\\' by {}
        lemma_scan_in_escaped(x, a + 1, b, x[a]);
    }
}

proof fn lemma_lit_id(p: char)
    ensures
        flat_scan(seq!['{', '"', 'i', 'd', '"', ':'], 1, 6, false, p) == Some((false, ':')),
{
    reveal_with_fuel(flat_scan, 6);
}

proof fn lemma_lit_kind(p: char)
    requires
        !scan_special(p),
    ensures
        flat_scan(seq![',', '"', 'k', 'i', 'n', 'd', '"', ':', '"'], 0, 9, false, p) == Some(
            (true, '"'),
        ),
{
    reveal_with_fuel(flat_scan, 10);
}

proof fn lemma_lit_author(p: char)
    requires
        p != '\\',
    ensures
        flat_scan(
            seq!['"', ',', '"', 'a', 'u', 't', 'h', 'o', 'r', '"', ':', '"'],
            0,
            12,
            true,
            p,
        ) == Some((true, '"')),
{
    reveal_with_fuel(flat_scan, 13);
}

proof fn lemma_lit_date(p: char)
    requires
        p != '\\',
    ensures
        flat_scan(seq!['"', ',', '"', 'd', 'a', 't', 'e', '"', ':', '"'], 0, 10, true, p) == Some(
            (true, '"'),
        ),
{
    reveal_with_fuel(flat_scan, 11);
}

proof fn lemma_lit_close(p: char)
    requires
        p != '\\',
    ensures
        flat_scan(seq!['"', '}'], 0, 1, true, p) == Some((false, '"')),
{
    reveal_with_fuel(flat_scan, 2);
}


/// An escaped plain text, placed in `x` at `o`, keeps an open string open
/// and does not end in a backslash.
proof fn lemma_scan_esc_at(x: Seq<char>, o: int, t: Seq<char>, p: char)
    requires
        plain_text(t),
        0 <= o,
        o + esc(t).len() <= x.len(),
        x.subrange(o, o + esc(t).len()) == esc(t),
        p != '\\',
    ensures
        flat_scan(x, o, o + esc(t).len(), true, p) matches Some((s, c)) && s && c != '\\',
{
    let e = esc(t);
    let n = e.len() as int;
    lemma_esc_quotes(t);
    assert forall|k: int| o <= k < o + n && #[trigger] x[k] == '"' implies (if k == o {
        p
    } else {
        x[k - 1]
    }) == '\\' by {
        lemma_at(x, e, o, k);
        assert(e[k - o] == '"');
        assert(k - o > 0 && e[k - o - 1] == '\\');
        lemma_at(x, e, o, k - 1);
    }
    lemma_scan_in_escaped(x, o, o + n, p);
    if n > 0 {
        lemma_at(x, e, o, o + n - 1);
        assert(e.last() == e[n - 1]);
    }
}

/// A change record written into the sidecar is one object to the scanners,
/// where its author and date are plain texts.
pub proof fn lemma_change_flat(r: TrackChangeRec)
    requires
        plain_text(r.author@),
        plain_text(r.date@),
    ensures
        flat_object(change_json(r)),
{
    lemma_change_layout(r);
    reveal_strlit("insert");
    reveal_strlit("delete");
    let d = decimal(r.id as nat);
    let k = kind_text(r.kind);
    let ea = esc(r.author@);
    let ed = esc(r.date@);
    let x = change_json(r);
    let o2: int = 6 + d.len() as int;
    let ok: int = o2 + 9;
    let o3: int = ok + 6;
    let oa: int = o3 + 12;
    let o4: int = oa + ea.len() as int;
    let od: int = o4 + 10;
    let o5: int = od + ed.len() as int;
    lemma_decimal_digits(r.id as nat);
    // `"id":`
    let l1 = seq!['{', '"', 'i', 'd', '"', ':'];
    lemma_scan_transfer(x, 0, l1, 1, 6, false, '{');
    lemma_lit_id('{');
    // the id's digits
    assert forall|i: int| 6 <= i < o2 implies !scan_special(#[trigger] x[i]) by {
        lemma_at(x, d, 6, i);
        assert(is_digit(d[i - 6]));
    }
    lemma_scan_out_plain(x, 6, o2, ':');
    let dl = x[o2 - 1];
    assert(!scan_special(dl));
    lemma_scan_join(x, 1, 6, o2, false, '{');
    // `,"kind":"`
    let l2 = seq![',', '"', 'k', 'i', 'n', 'd', '"', ':', '"'];
    lemma_scan_transfer(x, o2, l2, 0, 9, false, dl);
    lemma_lit_kind(dl);
    lemma_scan_join(x, 1, o2, ok, false, '{');
    // the kind's letters
    assert(k == seq!['i', 'n', 's', 'e', 'r', 't'] || k == seq!['d', 'e', 'l', 'e', 't', 'e']);
    assert forall|i: int| ok <= i < o3 && #[trigger] x[i] == '"' implies (if i == ok {
        '"'
    } else {
        x[i - 1]
    }) == '\\' by {
        lemma_at(x, k, ok, i);
    }
    lemma_scan_in_escaped(x, ok, o3, '"');
    lemma_at(x, k, ok, o3 - 1);
    let kl = x[o3 - 1];
    assert(kl != '\\');
    lemma_scan_join(x, 1, ok, o3, false, '{');
    // `","author":"`
    let l3 = seq!['"', ',', '"', 'a', 'u', 't', 'h', 'o', 'r', '"', ':', '"'];
    lemma_scan_transfer(x, o3, l3, 0, 12, true, kl);
    lemma_lit_author(kl);
    lemma_scan_join(x, 1, o3, oa, false, '{');
    // the author
    lemma_scan_esc_at(x, oa, r.author@, '"');
    let q1 = scan_last(flat_scan(x, oa, o4, true, '"'));
    lemma_scan_join(x, 1, oa, o4, false, '{');
    // `","date":"`
    let l4 = seq!['"', ',', '"', 'd', 'a', 't', 'e', '"', ':', '"'];
    lemma_scan_transfer(x, o4, l4, 0, 10, true, q1);
    lemma_lit_date(q1);
    lemma_scan_join(x, 1, o4, od, false, '{');
    // the date
    lemma_scan_esc_at(x, od, r.date@, '"');
    let q2 = scan_last(flat_scan(x, od, o5, true, '"'));
    lemma_scan_join(x, 1, od, o5, false, '{');
    // the closing quote
    let l5 = seq!['"', '}'];
    lemma_scan_transfer(x, o5, l5, 0, 1, true, q2);
    lemma_lit_close(q2);
    lemma_scan_join(x, 1, o5, o5 + 1, false, '{');
    lemma_at(x, l1, 0, 0);
    lemma_at(x, l5, o5, o5 + 1);
}


proof fn lemma_scan_step(x: Seq<char>, k: int, s: bool, p: char)
    ensures
        flat_scan(x, k, k + 1, s, p) == (if s {
            Some((!(x[k] == '"' && p != '\\'), x[k]))
        } else if x[k] == '"' {
            Some((true, x[k]))
        } else if x[k] == '[' || x[k] == ']' || x[k] == '{' || x[k] == '}' {
            None
        } else {
            Some((false, x[k]))
        }),
{
    reveal_with_fuel(flat_scan, 2);
}

/// A numeric field of a mark is passed outside strings, ending at its last
/// digit; scanned from its leading comma, or from just after its lead.
proof fn lemma_field_scan(x: Seq<char>, o: int, lead: char, key: Seq<char>, v: nat, from_lead: bool, p: char)
    requires
        mark_field_at(x, o, lead, key, v),
        key.len() >= 1,
        forall|i: int| 0 <= i < key.len() ==> 'a' <= #[trigger] key[i] <= 'z',
        from_lead ==> lead == ',',
    ensures
        flat_scan(
            x,
            if from_lead {
                o
            } else {
                o + 1
            },
            o + field_len(key, v),
            false,
            p,
        ) == Some((false, x[o + field_len(key, v) - 1])),
        !scan_special(x[o + field_len(key, v) - 1]),
{
    let kl = key.len() as int;
    let head = seq![lead, '"'] + key + seq!['"', ':'];
    let e = o + field_len(key, v);
    let dstart = o + kl + 4;
    lemma_decimal_digits(v);
    lemma_at(x, head, o, o);
    lemma_at(x, head, o, o + 1);
    lemma_at(x, head, o, o + kl + 2);
    lemma_at(x, head, o, o + kl + 3);
    assert(head[kl + 2] == '"');
    assert(head[kl + 3] == ':');
    // the key, inside its quotes
    assert forall|i: int| o + 2 <= i < o + 2 + kl && #[trigger] x[i] == '"' implies (if i == o + 2 {
        '"'
    } else {
        x[i - 1]
    }) == '\\' by {
        lemma_at(x, head, o, i);
        assert(head[i - o] == key[i - o - 2]);
    }
    lemma_scan_in_escaped(x, o + 2, o + 2 + kl, '"');
    lemma_at(x, head, o, o + 1 + kl);
    assert(head[1 + kl] == key[kl - 1]);
    let kc = x[o + 1 + kl];
    assert('a' <= kc <= 'z');
    // the digits
    assert forall|i: int| dstart <= i < e implies !scan_special(#[trigger] x[i]) by {
        lemma_at(x, decimal(v), dstart, i);
        assert(is_digit(decimal(v)[i - dstart]));
    }
    lemma_scan_out_plain(x, dstart, e, ':');
    // chain: quote, key, quote, colon, digits
    lemma_scan_step(x, o + 1, false, if from_lead { ',' } else { p });
    lemma_scan_step(x, o + kl + 2, true, kc);
    lemma_scan_step(x, o + kl + 3, false, '"');
    lemma_scan_join(x, o + 1, o + 2, e, false, if from_lead { ',' } else { p });
    lemma_scan_join(x, o + 2, o + 2 + kl, e, true, '"');
    lemma_scan_join(x, o + 2 + kl, o + 3 + kl, e, true, kc);
    lemma_scan_join(x, o + 3 + kl, dstart, e, false, '"');
    if from_lead {
        lemma_scan_step(x, o, false, p);
        lemma_scan_join(x, o, o + 1, e, false, p);
    }
    lemma_at(x, decimal(v), dstart, e - 1);
    assert(is_digit(decimal(v)[e - 1 - dstart]));
}

/// The leading fields of a written mark are passed outside strings.
#[verifier::spinoff_prover]
#[verifier::rlimit(40)]
proof fn lemma_head_scan(x: Seq<char>, sec: nat, para: nat, start: nat, end: nat, tc: u32)
    requires
        mark_head(sec, para, start, end, tc).len() <= x.len(),
        x.subrange(0, mark_head(sec, para, start, end, tc).len() as int) == mark_head(
            sec,
            para,
            start,
            end,
            tc,
        ),
    ensures
        ({
            let hl = mark_head(sec, para, start, end, tc).len() as int;
            &&& hl >= 2
            &&& x[0] == '{'
            &&& flat_scan(x, 1, hl, false, '{') == Some((false, x[hl - 1]))
            &&& !scan_special(x[hl - 1])
        }),
{
    lemma_head_layout(x, sec, para, start, end, tc);
    let hl = mark_head(sec, para, start, end, tc).len() as int;
    let k1 = seq!['s', 'e', 'c'];
    let k2 = seq!['p', 'a', 'r', 'a'];
    let k3 = seq!['s', 't', 'a', 'r', 't'];
    let k4 = seq!['e', 'n', 'd'];
    let k5 = seq!['t', 'c'];
    assert(forall|i: int| 0 <= i < k1.len() ==> 'a' <= #[trigger] k1[i] <= 'z');
    assert(forall|i: int| 0 <= i < k2.len() ==> 'a' <= #[trigger] k2[i] <= 'z');
    assert(forall|i: int| 0 <= i < k3.len() ==> 'a' <= #[trigger] k3[i] <= 'z');
    assert(forall|i: int| 0 <= i < k4.len() ==> 'a' <= #[trigger] k4[i] <= 'z');
    assert(forall|i: int| 0 <= i < k5.len() ==> 'a' <= #[trigger] k5[i] <= 'z');
    let o1 = field_len(k1, sec);
    let o2 = o1 + field_len(k2, para);
    let o3 = o2 + field_len(k3, start);
    let o4 = o3 + field_len(k4, end);
    lemma_field_scan(x, 0, '{', k1, sec, false, '{');
    lemma_field_scan(x, o1, ',', k2, para, true, x[o1 - 1]);
    lemma_field_scan(x, o2, ',', k3, start, true, x[o2 - 1]);
    lemma_field_scan(x, o3, ',', k4, end, true, x[o3 - 1]);
    lemma_field_scan(x, o4, ',', k5, tc as nat, true, x[o4 - 1]);
    lemma_scan_join(x, 1, o1, hl, false, '{');
    lemma_scan_join(x, o1, o2, hl, false, x[o1 - 1]);
    lemma_scan_join(x, o2, o3, hl, false, x[o2 - 1]);
    lemma_scan_join(x, o3, o4, hl, false, x[o3 - 1]);
    lemma_at(x, seq!['{', '"'] + k1 + seq!['"', ':'], 0, 0);
}

/// The cell fields of a written mark are passed outside strings.
#[verifier::spinoff_prover]
#[verifier::rlimit(40)]
proof fn lemma_cell_scan(x: Seq<char>, o: int, a: nat, b: nat, c: nat, p: char)
    requires
        0 <= o,
        o + cell_text(Some((a, b, c))).len() <= x.len(),
        x.subrange(o, o + cell_text(Some((a, b, c))).len()) == cell_text(Some((a, b, c))),
    ensures
        ({
            let e = o + cell_text(Some((a, b, c))).len();
            &&& e > o
            &&& flat_scan(x, o, e, false, p) == Some((false, x[e - 1]))
            &&& !scan_special(x[e - 1])
        }),
{
    lemma_cell_layout(x, o, a, b, c);
    let k6 = seq!['c', 'i'];
    let k7 = seq!['c', 'e', 'i'];
    let k8 = seq!['c', 'p', 'i'];
    assert(forall|i: int| 0 <= i < k6.len() ==> 'a' <= #[trigger] k6[i] <= 'z');
    assert(forall|i: int| 0 <= i < k7.len() ==> 'a' <= #[trigger] k7[i] <= 'z');
    assert(forall|i: int| 0 <= i < k8.len() ==> 'a' <= #[trigger] k8[i] <= 'z');
    let o6 = o + field_len(k6, a);
    let o7 = o6 + field_len(k7, b);
    let e = o + cell_text(Some((a, b, c))).len();
    lemma_field_scan(x, o, ',', k6, a, true, p);
    lemma_field_scan(x, o6, ',', k7, b, true, x[o6 - 1]);
    lemma_field_scan(x, o7, ',', k8, c, true, x[o7 - 1]);
    lemma_scan_join(x, o, o6, e, false, p);
    lemma_scan_join(x, o6, o7, e, false, x[o6 - 1]);
}

/// Every written mark is one object to the scanners.
pub proof fn lemma_mark_flat(
    sec: nat,
    para: nat,
    start: nat,
    end: nat,
    tc: u32,
    cell: Option<(nat, nat, nat)>,
)
    ensures
        flat_object(mark_json(sec, para, start, end, tc, cell)),
{
    reveal_strlit("}");
    let h = mark_head(sec, para, start, end, tc);
    let ct = cell_text(cell);
    let x = mark_json(sec, para, start, end, tc, cell);
    assert(x == h + ct + "}"@);
    let hl = h.len() as int;
    assert(x.subrange(0, hl) =~= h);
    assert(x[hl + ct.len()] == '}');
    lemma_head_scan(x, sec, para, start, end, tc);
    match cell {
        Some((a, b, c)) => {
            assert(x.subrange(hl, hl + ct.len()) =~= ct);
            lemma_cell_scan(x, hl, a, b, c, x[hl - 1]);
            lemma_scan_join(x, 1, hl, hl + ct.len(), false, '{');
        },
        None => {
            assert(ct.len() == 0);
        },
    }
}


proof fn lemma_all_flat_concat(a: Seq<Seq<char>>, b: Seq<Seq<char>>)
    requires
        all_flat(a),
        all_flat(b),
    ensures
        all_flat(a + b),
{
    assert forall|k: int| 0 <= k < (a + b).len() implies flat_object(#[trigger] (a + b)[k]) by {
        if k < a.len() {
            assert((a + b)[k] == a[k]);
        } else {
            assert((a + b)[k] == b[k - a.len()]);
        }
    }
}

proof fn lemma_para_marks_flat(p: Paragraph, sec: nat, para: nat, cell: Option<(nat, nat, nat)>)
    ensures
        all_flat(para_marks(p, sec, para, cell)),
{
    let m = para_marks(p, sec, para, cell);
    assert forall|k: int| 0 <= k < m.len() implies flat_object(#[trigger] m[k]) by {
        let tm = p.track_marks@[k];
        assert(m[k] == tm_json(p, tm, sec, para, cell));
        lemma_mark_flat(
            sec,
            para,
            first_ge(p.char_offsets@, tm.start_pos, 0) as nat,
            first_ge(p.char_offsets@, tm.end_pos, 0) as nat,
            tm.tc_id,
            cell,
        );
    }
}

proof fn lemma_cell_paras_flat(paras: Seq<Paragraph>, n: int, sec: nat, para: nat, ci: nat, cei: nat)
    ensures
        all_flat(cell_paras_marks(paras, n, sec, para, ci, cei)),
    decreases n,
{
    if n > 0 {
        lemma_cell_paras_flat(paras, n - 1, sec, para, ci, cei);
        lemma_para_marks_flat(paras[n - 1], sec, para, Some((ci, cei, (n - 1) as nat)));
        lemma_all_flat_concat(
            cell_paras_marks(paras, n - 1, sec, para, ci, cei),
            para_marks(paras[n - 1], sec, para, Some((ci, cei, (n - 1) as nat))),
        );
    }
}

proof fn lemma_cells_flat(cells: Seq<Cell>, n: int, sec: nat, para: nat, ci: nat)
    ensures
        all_flat(cells_marks(cells, n, sec, para, ci)),
    decreases n,
{
    if n > 0 {
        let ps = cells[n - 1].paragraphs@;
        lemma_cells_flat(cells, n - 1, sec, para, ci);
        lemma_cell_paras_flat(ps, ps.len() as int, sec, para, ci, (n - 1) as nat);
        lemma_all_flat_concat(
            cells_marks(cells, n - 1, sec, para, ci),
            cell_paras_marks(ps, ps.len() as int, sec, para, ci, (n - 1) as nat),
        );
    }
}

proof fn lemma_ctrls_flat(ctrls: Seq<Control>, n: int, sec: nat, para: nat)
    ensures
        all_flat(ctrls_marks(ctrls, n, sec, para)),
    decreases n,
{
    if n > 0 {
        lemma_ctrls_flat(ctrls, n - 1, sec, para);
        match ctrls[n - 1] {
            Control::Table(t) => {
                lemma_cells_flat(t.cells@, t.cells@.len() as int, sec, para, (n - 1) as nat);
            },
            _ => {},
        }
        lemma_all_flat_concat(
            ctrls_marks(ctrls, n - 1, sec, para),
            ctrl_marks(ctrls[n - 1], sec, para, (n - 1) as nat),
        );
    }
}

proof fn lemma_sec_flat(paras: Seq<Paragraph>, n: int, sec: nat)
    ensures
        all_flat(sec_marks(paras, n, sec)),
    decreases n,
{
    if n > 0 {
        let host = paras[n - 1];
        lemma_sec_flat(paras, n - 1, sec);
        lemma_ctrls_flat(host.controls@, host.controls@.len() as int, sec, (n - 1) as nat);
        lemma_para_marks_flat(host, sec, (n - 1) as nat, None);
        lemma_all_flat_concat(
            ctrls_marks(host.controls@, host.controls@.len() as int, sec, (n - 1) as nat),
            para_marks(host, sec, (n - 1) as nat, None),
        );
        lemma_all_flat_concat(sec_marks(paras, n - 1, sec), host_marks(host, sec, (n - 1) as nat));
    }
}

/// Every mark object written for a document is one object to the scanners.
pub proof fn lemma_doc_marks_flat(secs: Seq<Section>, n: int)
    ensures
        all_flat(doc_marks(secs, n)),
    decreases n,
{
    if n > 0 {
        let ps = secs[n - 1].paragraphs@;
        lemma_doc_marks_flat(secs, n - 1);
        lemma_sec_flat(ps, ps.len() as int, (n - 1) as nat);
        lemma_all_flat_concat(doc_marks(secs, n - 1), sec_marks(ps, ps.len() as int, (n - 1) as nat));
    }
}

/// Every change object written for a list of records is one object to the
/// scanners, where the records' authors and dates are plain texts.
pub proof fn lemma_changes_flat(recs: Seq<TrackChangeRec>)
    requires
        forall|k: int|
            0 <= k < recs.len() ==> plain_text(#[trigger] recs[k].author@) && plain_text(
                recs[k].date@,
            ),
    ensures
        all_flat(changes_json(recs)),
{
    assert forall|k: int| 0 <= k < changes_json(recs).len() implies flat_object(
        #[trigger] changes_json(recs)[k],
    ) by {
        assert(plain_text(recs[k].author@));
        lemma_change_flat(recs[k]);
    }
}


/// The pattern the marks array is found by.
pub open spec fn marks_pat() -> Seq<char> {
    key_pat("marks"@, "\":["@)
}

proof fn lemma_marks_pat()
    ensures
        marks_pat() == seq!['"', 'm', 'a', 'r', 'k', 's', '"', ':', '['],
{
    reveal_strlit("\"");
    reveal_strlit("marks");
    reveal_strlit("\":[");
    assert(marks_pat() =~= seq!['"', 'm', 'a', 'r', 'k', 's', '"', ':', '[']);
}

/// No `"marks":[` starts at or just before an escaped region whose every
/// quote follows a backslash and whose closing quote is not followed by `:`.
proof fn lemma_region_no_marks(x: Seq<char>, rs: int, re: int, q: int)
    requires
        0 < rs <= re,
        re + 1 < x.len(),
        x[re] == '"',
        x[re + 1] != ':',
        forall|k: int| rs <= k < re && #[trigger] x[k] == '"' ==> k > rs && x[k - 1] == '\\',
        rs - 1 <= q < re,
    ensures
        !matches_at(x, marks_pat(), q),
{
    lemma_marks_pat();
    let mp = marks_pat();
    if matches_at(x, mp, q) {
        lemma_match_char(x, mp, q, 1);
        lemma_match_char(x, mp, q, 2);
        lemma_match_char(x, mp, q, 3);
        lemma_match_char(x, mp, q, 4);
        lemma_match_char(x, mp, q, 5);
        lemma_match_char(x, mp, q, 6);
        lemma_match_char(x, mp, q, 7);
        let r = q + 6;
        if r < re {
            assert(x[r] == '"');
            assert(x[r - 1] == '\\');
        } else if r == re {
        } else {
            assert(q + 1 <= re <= q + 5);
        }
    }
}

/// No `"marks":[` starts inside a written change record.
#[verifier::spinoff_prover]
#[verifier::rlimit(60)]
pub proof fn lemma_change_no_marks(x: Seq<char>, o: int, r: TrackChangeRec)
    requires
        plain_text(r.author@),
        plain_text(r.date@),
        0 <= o,
        o + change_json(r).len() <= x.len(),
        x.subrange(o, o + change_json(r).len()) == change_json(r),
    ensures
        forall|q: int| o <= q < o + change_json(r).len() ==> !matches_at(x, marks_pat(), q),
{
    lemma_change_layout(r);
    lemma_marks_pat();
    reveal_strlit("insert");
    reveal_strlit("delete");
    let y = change_json(r);
    let d = decimal(r.id as nat);
    let k = kind_text(r.kind);
    let ea = esc(r.author@);
    let ed = esc(r.date@);
    let o2: int = 6 + d.len() as int;
    let ok: int = o2 + 9;
    let o3: int = ok + 6;
    let oa: int = o3 + 12;
    let o4: int = oa + ea.len() as int;
    let od: int = o4 + 10;
    let o5: int = od + ed.len() as int;
    let l1 = seq!['{', '"', 'i', 'd', '"', ':'];
    let l2 = seq![',', '"', 'k', 'i', 'n', 'd', '"', ':', '"'];
    let l3 = seq!['"', ',', '"', 'a', 'u', 't', 'h', 'o', 'r', '"', ':', '"'];
    let l4 = seq!['"', ',', '"', 'd', 'a', 't', 'e', '"', ':', '"'];
    let l5 = seq!['"', '}'];
    let n = y.len() as int;
    lemma_decimal_digits(r.id as nat);
    assert(k == seq!['i', 'n', 's', 'e', 'r', 't'] || k == seq!['d', 'e', 'l', 'e', 't', 'e']);
    // the pieces, as characters of x
    assert forall|i: int| 0 <= i < n implies #[trigger] x[o + i] == y[i] by {
        lemma_at(x, y, o, o + i);
    }
    // the escaped regions
    lemma_esc_quotes(r.author@);
    lemma_esc_quotes(r.date@);
    assert forall|kk: int| o + oa <= kk < o + o4 && #[trigger] x[kk] == '"' implies kk > o + oa
        && x[kk - 1] == '\\' by {
        lemma_at(y, ea, oa, kk - o);
        assert(ea[kk - o - oa] == '"');
        lemma_at(y, ea, oa, kk - o - 1);
    }
    assert forall|kk: int| o + od <= kk < o + o5 && #[trigger] x[kk] == '"' implies kk > o + od
        && x[kk - 1] == '\\' by {
        lemma_at(y, ed, od, kk - o);
        assert(ed[kk - o - od] == '"');
        lemma_at(y, ed, od, kk - o - 1);
    }
    lemma_at(y, l4, o4, o4);
    lemma_at(y, l4, o4, o4 + 1);
    lemma_at(y, l5, o5, o5);
    lemma_at(y, l5, o5, o5 + 1);
    assert forall|q: int| o <= q < o + n implies !matches_at(x, marks_pat(), q) by {
        let mp = marks_pat();
        if matches_at(x, mp, q) {
            lemma_match_char(x, mp, q, 0);
            lemma_match_char(x, mp, q, 1);
            let j = q - o;
            assert(y[j] == '"');
            if j < 6 {
                lemma_at(y, l1, 0, j);
                lemma_at(y, l1, 0, j + 1);
            } else if j < o2 {
                lemma_at(y, d, 6, j);
                assert(is_digit(d[j - 6]));
            } else if j < ok {
                lemma_at(y, l2, o2, j);
                if j + 1 < ok {
                    lemma_at(y, l2, o2, j + 1);
                } else {
                    lemma_at(y, k, ok, ok);
                }
            } else if j < o3 {
                lemma_at(y, k, ok, j);
            } else if j < oa - 1 {
                lemma_at(y, l3, o3, j);
                lemma_at(y, l3, o3, j + 1);
            } else if j < o4 {
                lemma_region_no_marks(x, o + oa, o + o4, q);
            } else if j < od - 1 {
                lemma_at(y, l4, o4, j);
                lemma_at(y, l4, o4, j + 1);
            } else if j < o5 {
                lemma_region_no_marks(x, o + od, o + o5, q);
            } else {
                lemma_at(y, l5, o5, j);
                if j == o5 {
                }
            }
        }
    }
}


/// No `"marks":[` starts inside the written change records.
proof fn lemma_join_no_marks(x: Seq<char>, o: int, recs: Seq<TrackChangeRec>)
    requires
        forall|k: int|
            0 <= k < recs.len() ==> plain_text(#[trigger] recs[k].author@) && plain_text(
                recs[k].date@,
            ),
        0 <= o,
        o + join_seq(changes_json(recs), ","@).len() <= x.len(),
        x.subrange(o, o + join_seq(changes_json(recs), ","@).len()) == join_seq(
            changes_json(recs),
            ","@,
        ),
    ensures
        forall|q: int|
            o <= q < o + join_seq(changes_json(recs), ","@).len() ==> !matches_at(
                x,
                marks_pat(),
                q,
            ),
    decreases recs.len(),
{
    let objs = changes_json(recs);
    if recs.len() == 1 {
        assert(join_seq(objs, ","@) == objs[0]);
        assert(plain_text(recs[0].author@));
        lemma_change_no_marks(x, o, recs[0]);
    } else if recs.len() >= 2 {
        lemma_join_parts(x, o, objs);
        let rest = recs.drop_last();
        assert(changes_json(rest) =~= objs.drop_last());
        assert(forall|k: int|
            0 <= k < rest.len() ==> plain_text(#[trigger] rest[k].author@) && plain_text(
                rest[k].date@,
            )) by {
            assert forall|k: int| 0 <= k < rest.len() implies plain_text(
                #[trigger] rest[k].author@,
            ) && plain_text(rest[k].date@) by {
                assert(rest[k] == recs[k]);
                assert(plain_text(recs[k].author@));
            }
        }
        lemma_join_no_marks(x, o, rest);
        let last = recs.last();
        assert(objs.last() == change_json(last));
        assert(plain_text(recs[recs.len() - 1].author@));
        let h = join_seq(objs.drop_last(), ","@).len() as int;
        lemma_change_no_marks(x, o + h + 1, last);
        lemma_marks_pat();
        assert forall|q: int| o <= q < o + join_seq(objs, ","@).len() implies !matches_at(
            x,
            marks_pat(),
            q,
        ) by {
            if q == o + h {
                if matches_at(x, marks_pat(), q) {
                    lemma_match_char(x, marks_pat(), q, 0);
                }
            }
        }
    }
}

/// The text of a written sidecar.
pub open spec fn sidecar_text(doc: Document) -> Seq<char> {
    "{\"v\":1,\"next\":"@ + decimal(doc.next_track_id as nat) + ",\"changes\":["@ + join_seq(
        changes_json(doc.track_changes@),
        ","@,
    ) + "],\"marks\":["@ + join_seq(doc_marks(doc.sections@, doc.sections@.len() as int), ","@)
        + "]}"@
}

/// Where the parts of a written sidecar stand.
proof fn lemma_sidecar_layout(doc: Document)
    ensures
        ({
            let x = sidecar_text(doc);
            let dn = decimal(doc.next_track_id as nat);
            let j = join_seq(changes_json(doc.track_changes@), ","@);
            let m = join_seq(doc_marks(doc.sections@, doc.sections@.len() as int), ","@);
            let a2 = 14 + dn.len() as int;
            let a3 = a2 + 12;
            let a4 = a3 + j.len() as int;
            let a5 = a4 + 11;
            let a6 = a5 + m.len() as int;
            &&& x.len() == a6 + 2
            &&& x.subrange(0, 14) == sidecar_open()
            &&& x.subrange(14, a2) == dn
            &&& x.subrange(a2, a3) == changes_open()
            &&& x.subrange(a3, a4) == j
            &&& x.subrange(a4, a5) == marks_open()
            &&& x.subrange(a5, a6) == m
            &&& x[a6] == ']'
        }),
{
    reveal_strlit("{\"v\":1,\"next\":");
    reveal_strlit(",\"changes\":[");
    reveal_strlit("],\"marks\":[");
    reveal_strlit("]}");
    let dn = decimal(doc.next_track_id as nat);
    let j = join_seq(changes_json(doc.track_changes@), ","@);
    let m = join_seq(doc_marks(doc.sections@, doc.sections@.len() as int), ","@);
    let x1 = "{\"v\":1,\"next\":"@ + dn;
    let x2 = x1 + ",\"changes\":["@;
    let x3 = x2 + j;
    let x4 = x3 + "],\"marks\":["@;
    let x5 = x4 + m;
    let x = x5 + "]}"@;
    assert(x == sidecar_text(doc));
    assert(x.subrange(0, 14) =~= x1.subrange(0, 14));
    assert(x1.subrange(0, 14) =~= "{\"v\":1,\"next\":"@);
    assert(x.subrange(14, x1.len() as int) =~= dn);
    assert(x.subrange(x1.len() as int, x2.len() as int) =~= ",\"changes\":["@);
    assert(x.subrange(x2.len() as int, x3.len() as int) =~= j);
    assert(x.subrange(x3.len() as int, x4.len() as int) =~= "],\"marks\":["@);
    assert(x.subrange(x4.len() as int, x5.len() as int) =~= m);
    assert(x[x5.len() as int] == ']');
}

/// The opening of a sidecar, up to the number of the next change id.
pub open spec fn sidecar_open() -> Seq<char> {
    seq!['{', '"', 'v', '"', ':', '1', ',', '"', 'n', 'e', 'x', 't', '"', ':']
}

/// The text that opens the changes array.
pub open spec fn changes_open() -> Seq<char> {
    seq![',', '"', 'c', 'h', 'a', 'n', 'g', 'e', 's', '"', ':', '[']
}

/// The text between the arrays.
pub open spec fn marks_open() -> Seq<char> {
    seq![']', ',', '"', 'm', 'a', 'r', 'k', 's', '"', ':', '[']
}

/// Where a text opens as a sidecar does: the opening, a number, and the
/// opening of the changes array.
pub open spec fn opens_as_sidecar(x: Seq<char>, dn: Seq<char>) -> bool {
    &&& 14 + dn.len() + 12 <= x.len()
    &&& x.subrange(0, 14) == sidecar_open()
    &&& x.subrange(14, 14 + dn.len() as int) == dn
    &&& forall|i: int| 0 <= i < dn.len() ==> is_digit(#[trigger] dn[i])
    &&& x.subrange(14 + dn.len() as int, 26 + dn.len() as int) == changes_open()
}

/// Before the changes array, no quote is followed by `c` or `m`.
#[verifier::spinoff_prover]
#[verifier::rlimit(40)]
proof fn lemma_opening_quotes(x: Seq<char>, dn: Seq<char>, q: int)
    requires
        opens_as_sidecar(x, dn),
        0 <= q < 15 + dn.len(),
        x[q] == '"',
    ensures
        x[q + 1] != 'c' || q == 15 + dn.len(),
        x[q + 1] != 'm',
{
    let a2 = 14 + dn.len() as int;
    if q < 14 {
        lemma_at(x, sidecar_open(), 0, q);
        lemma_at(x, sidecar_open(), 0, q + 1);
    } else if q < a2 {
        lemma_at(x, dn, 14, q);
        assert(is_digit(dn[q - 14]));
    } else {
        lemma_at(x, changes_open(), a2, q);
    }
}

/// The changes array of such a text is its first `"changes":[`.
#[verifier::spinoff_prover]
#[verifier::rlimit(40)]
proof fn lemma_changes_key_at(x: Seq<char>, dn: Seq<char>)
    requires
        opens_as_sidecar(x, dn),
    ensures
        find_from(x, key_pat("changes"@, "\":["@), 0) == Some(15 + dn.len() as int),
{
    reveal_strlit("\"");
    reveal_strlit("changes");
    reveal_strlit("\":[");
    let a2 = 14 + dn.len() as int;
    let cp = key_pat("changes"@, "\":["@);
    assert(cp =~= seq!['"', 'c', 'h', 'a', 'n', 'g', 'e', 's', '"', ':', '[']);
    assert(x.subrange(a2 + 1, a2 + 12) =~= cp) by {
        assert forall|i: int| 0 <= i < 11 implies x.subrange(a2 + 1, a2 + 12)[i] == cp[i] by {
            lemma_at(x, changes_open(), a2, a2 + 1 + i);
        }
    }
    assert forall|q: int| 0 <= q < a2 + 1 implies !matches_at(x, cp, q) by {
        if matches_at(x, cp, q) {
            lemma_match_char(x, cp, q, 0);
            lemma_match_char(x, cp, q, 1);
            lemma_opening_quotes(x, dn, q);
        }
    }
    lemma_first_match(x, cp, a2 + 1);
}

/// The marks array of such a text, whose changes array holds written change
/// records of plain authors and dates, is its first `"marks":[`.
#[verifier::spinoff_prover]
#[verifier::rlimit(40)]
proof fn lemma_marks_key_at(x: Seq<char>, dn: Seq<char>, recs: Seq<TrackChangeRec>)
    requires
        opens_as_sidecar(x, dn),
        forall|k: int|
            0 <= k < recs.len() ==> plain_text(#[trigger] recs[k].author@) && plain_text(
                recs[k].date@,
            ),
        ({
            let a3 = 26 + dn.len() as int;
            let j = join_seq(changes_json(recs), ","@);
            &&& a3 + j.len() + 11 <= x.len()
            &&& x.subrange(a3, a3 + j.len()) == j
            &&& x.subrange(a3 + j.len(), a3 + j.len() + 11) == marks_open()
        }),
    ensures
        find_from(x, marks_pat(), 0) == Some(
            28 + dn.len() as int + join_seq(changes_json(recs), ","@).len() as int,
        ),
{
    lemma_marks_pat();
    let j = join_seq(changes_json(recs), ","@);
    let a2 = 14 + dn.len() as int;
    let a3 = a2 + 12;
    let a4 = a3 + j.len() as int;
    let mp = marks_pat();
    assert(x.subrange(a4 + 2, a4 + 11) =~= mp) by {
        assert forall|i: int| 0 <= i < 9 implies x.subrange(a4 + 2, a4 + 11)[i] == mp[i] by {
            lemma_at(x, marks_open(), a4, a4 + 2 + i);
        }
    }
    lemma_join_no_marks(x, a3, recs);
    assert forall|q: int| 0 <= q < a4 + 2 implies !matches_at(x, mp, q) by {
        if matches_at(x, mp, q) {
            lemma_match_char(x, mp, q, 0);
            lemma_match_char(x, mp, q, 1);
            if q < a2 + 1 {
                lemma_opening_quotes(x, dn, q);
            } else if q < a3 {
                lemma_at(x, changes_open(), a2, q);
                lemma_at(x, changes_open(), a2, q + 1);
            } else if q < a4 {
            } else {
                lemma_at(x, marks_open(), a4, q);
            }
        }
    }
    lemma_first_match(x, mp, a4 + 2);
}

proof fn lemma_change_entries(recs: Seq<TrackChangeRec>)
    requires
        forall|k: int|
            0 <= k < recs.len() ==> plain_text(#[trigger] recs[k].author@) && plain_text(
                recs[k].date@,
            ),
    ensures
        change_entries(changes_json(recs)) == recs.map_values(|r: TrackChangeRec| change_tuple(r)),
    decreases recs.len(),
{
    if recs.len() > 0 {
        let rest = recs.drop_last();
        assert(changes_json(rest) =~= changes_json(recs).drop_last());
        assert forall|k: int| 0 <= k < rest.len() implies plain_text(#[trigger] rest[k].author@)
            && plain_text(rest[k].date@) by {
            assert(rest[k] == recs[k]);
            assert(plain_text(recs[k].author@));
        }
        lemma_change_entries(rest);
        assert(plain_text(recs[recs.len() - 1].author@));
        law_change_record_reads_back(recs.last());
        assert(changes_json(recs).last() == change_json(recs.last()));
        assert(recs.map_values(|r: TrackChangeRec| change_tuple(r)) =~= rest.map_values(
            |r: TrackChangeRec| change_tuple(r),
        ).push(change_tuple(recs.last())));
    } else {
        assert(recs.map_values(|r: TrackChangeRec| change_tuple(r)) =~= Seq::<
            (u32, TrackKind, Seq<char>, Seq<char>),
        >::empty());
    }
}

/// A written sidecar reads back as the change records it was written from,
/// where their authors and dates are plain texts.
pub proof fn law_sidecar_changes_read_back(doc: Document)
    requires
        forall|k: int|
            0 <= k < doc.track_changes@.len() ==> plain_text(#[trigger] doc.track_changes@[k].author@)
                && plain_text(doc.track_changes@[k].date@),
    ensures
        sidecar(doc) matches Some(json) ==> sidecar_changes(json) == doc.track_changes@.map_values(
            |r: TrackChangeRec| change_tuple(r),
        ),
{
    if sidecar(doc) is Some {
        assert(sidecar(doc) == Some(sidecar_text(doc)));
        lemma_sidecar_layout(doc);
        lemma_decimal_digits(doc.next_track_id as nat);
        lemma_changes_key_at(sidecar_text(doc), decimal(doc.next_track_id as nat));
        lemma_changes_flat(doc.track_changes@);
        reveal_strlit("\"");
        reveal_strlit("changes");
        reveal_strlit("\":[");
        assert(key_pat("changes"@, "\":["@).len() == 11);
        lemma_array_reads_back(
            sidecar_text(doc),
            "changes"@,
            15 + decimal(doc.next_track_id as nat).len() as int,
            changes_json(doc.track_changes@),
        );
        lemma_change_entries(doc.track_changes@);
    }
}

/// The marks array of a sidecar-shaped text reads back as its objects.
#[verifier::spinoff_prover]
#[verifier::rlimit(40)]
proof fn lemma_marks_array_at(x: Seq<char>, dn: Seq<char>, recs: Seq<TrackChangeRec>, objs: Seq<Seq<char>>)
    requires
        opens_as_sidecar(x, dn),
        forall|k: int|
            0 <= k < recs.len() ==> plain_text(#[trigger] recs[k].author@) && plain_text(
                recs[k].date@,
            ),
        all_flat(objs),
        ({
            let a3 = 26 + dn.len() as int;
            let j = join_seq(changes_json(recs), ","@);
            let a5 = a3 + j.len() + 11;
            let m = join_seq(objs, ","@);
            &&& a5 + m.len() < x.len()
            &&& x.subrange(a3, a3 + j.len()) == j
            &&& x.subrange(a3 + j.len(), a5) == marks_open()
            &&& x.subrange(a5, a5 + m.len()) == m
            &&& x[a5 + m.len()] == ']'
        }),
    ensures
        array_objects(x, "marks"@) == objs,
{
    lemma_marks_key_at(x, dn, recs);
    lemma_marks_pat();
    lemma_array_reads_back(
        x,
        "marks"@,
        28 + dn.len() as int + join_seq(changes_json(recs), ","@).len() as int,
        objs,
    );
}

/// A written sidecar reads back as the marks it was written from: its
/// marks array holds exactly the written mark objects, in order, where the
/// change records' authors and dates are plain texts.
#[verifier::spinoff_prover]
pub proof fn law_sidecar_marks_read_back(doc: Document)
    requires
        forall|k: int|
            0 <= k < doc.track_changes@.len() ==> plain_text(#[trigger] doc.track_changes@[k].author@)
                && plain_text(doc.track_changes@[k].date@),
    ensures
        sidecar(doc) matches Some(json) ==> array_objects(json, "marks"@) == doc_marks(
            doc.sections@,
            doc.sections@.len() as int,
        ) && sidecar_marks(json) == mark_entries(
            doc_marks(doc.sections@, doc.sections@.len() as int),
        ),
{
    if sidecar(doc) is Some {
        assert(sidecar(doc) == Some(sidecar_text(doc)));
        lemma_sidecar_layout(doc);
        lemma_decimal_digits(doc.next_track_id as nat);
        lemma_doc_marks_flat(doc.sections@, doc.sections@.len() as int);
        lemma_marks_array_at(
            sidecar_text(doc),
            decimal(doc.next_track_id as nat),
            doc.track_changes@,
            doc_marks(doc.sections@, doc.sections@.len() as int),
        );
    }
}

} // verus!
