//! What reading a sidecar gives back of what writing it put there.
//!
//! A text field written escaped reads back unchanged when it holds no
//! backslash and no control character other than a line break; a number
//! written in decimal reads back as itself.

use crate::model::document::{TrackChangeRec, TrackKind};
use crate::serializer::track_sidecar::{
    cell_text, change_entry, change_json, digit_end, digits_value, esc, esc_char, is_digit,
    key_pat, kind_text, mark_entry, mark_json, num_after, number_field, string_field, unesc,
    unesc_from, MarkEntry,
};
use crate::text::{decimal, find_from, lemma_find_from, matches_at};
use vstd::prelude::*;

verus! {

/// A text that survives escaping and unescaping: no backslash, and no
/// control character other than a line break.
pub open spec fn plain_text(s: Seq<char>) -> bool {
    forall|i: int| 0 <= i < s.len() ==> #[trigger] s[i] != '\\' && (s[i] == '\n' || (s[i] as u32) >= 0x20)
}

proof fn lemma_esc_concat(a: Seq<char>, b: Seq<char>)
    ensures
        esc(a + b) == esc(a) + esc(b),
    decreases b.len(),
{
    if b.len() == 0 {
        assert(a + b =~= a);
        assert(esc(b) =~= Seq::<char>::empty());
        assert(esc(a) + esc(b) =~= esc(a));
    } else {
        lemma_esc_concat(a, b.drop_last());
        assert((a + b).drop_last() =~= a + b.drop_last());
        assert((a + b).last() == b.last());
        assert(esc(a) + esc(b.drop_last()) + esc_char(b.last()) =~= esc(a) + (esc(b.drop_last())
            + esc_char(b.last())));
    }
}

proof fn lemma_esc_front(s: Seq<char>)
    requires
        s.len() > 0,
    ensures
        esc(s) == esc_char(s[0]) + esc(s.drop_first()),
{
    let one = seq![s[0]];
    assert(one.drop_last() =~= Seq::<char>::empty());
    assert(esc(one) == esc(one.drop_last()) + esc_char(one.last()));
    assert(esc(one) =~= esc_char(s[0]));
    lemma_esc_concat(one, s.drop_first());
    assert(one + s.drop_first() =~= s);
}

/// Reading back an escaped plain text that is followed by its closing quote
/// gives the text.
pub proof fn law_escaped_text_reads_back(s: Seq<char>, x: Seq<char>, k: int)
    requires
        plain_text(s),
        0 <= k,
        k + esc(s).len() < x.len(),
        x.subrange(k, k + esc(s).len()) == esc(s),
        x[k + esc(s).len()] == '"',
    ensures
        unesc_from(x, k) == Some(s),
    decreases s.len(),
{
    if s.len() == 0 {
        assert(esc(s) =~= Seq::<char>::empty());
    } else {
        lemma_esc_front(s);
        let c = s[0];
        let rest = s.drop_first();
        let ec = esc_char(c);
        assert(plain_text(rest)) by {
            assert forall|i: int| 0 <= i < rest.len() implies #[trigger] rest[i] != '\\' && (rest[i]
                == '\n' || (rest[i] as u32) >= 0x20) by {
                assert(rest[i] == s[i + 1]);
            }
        }
        assert(c != '\\' && (c == '\n' || (c as u32) >= 0x20));
        let m = ec.len() as int;
        assert(x.subrange(k, k + m) == ec) by {
            assert(x.subrange(k, k + m) =~= esc(s).subrange(0, m));
        }
        assert(x.subrange(k + m, k + m + esc(rest).len()) =~= esc(rest)) by {
            assert(x.subrange(k + m, k + m + esc(rest).len()) =~= esc(s).subrange(
                m,
                m + esc(rest).len(),
            ));
        }
        law_escaped_text_reads_back(rest, x, k + m);
        if c == '"' {
            assert(x[k] == '\\' && x[k + 1] == '"');
            assert(unesc(x[k + 1]) == '"');
        } else if c == '\n' {
            assert(x[k] == '\\' && x[k + 1] == 'n');
        } else {
            assert(ec == seq![c]);
            assert(x.subrange(k, k + m)[0] == x[k]);
            assert(x[k] == c);
        }
        assert(seq![c] + rest =~= s);
    }
}

pub(crate) proof fn lemma_decimal_digits(n: nat)
    ensures
        forall|i: int| 0 <= i < decimal(n).len() ==> is_digit(#[trigger] decimal(n)[i]),
        decimal(n).len() >= 1,
    decreases n,
{
    if n >= 10 {
        lemma_decimal_digits(n / 10);
    }
}

/// A number written in decimal reads back as itself.
pub proof fn law_decimal_reads_back(n: nat)
    ensures
        digits_value(decimal(n)) == n,
    decreases n,
{
    let d = decimal(n);
    if n < 10 {
        assert(d.drop_last() =~= Seq::<char>::empty());
        assert(d.last() as int == 48 + n);
        assert(digits_value(d) == digits_value(d.drop_last()) * 10 + (d.last() as int - 48) as nat);
    } else {
        law_decimal_reads_back(n / 10);
        assert(d.drop_last() =~= decimal(n / 10));
        assert(d.last() as int == 48 + n % 10);
        assert(digits_value(d) == digits_value(d.drop_last()) * 10 + (d.last() as int - 48) as nat);
        assert((n / 10) * 10 + n % 10 == n) by (nonlinear_arith);
    }
}

/// The run of digits after position `k` of `decimal(n)` followed by a
/// non-digit ends right after the decimal.
pub proof fn lemma_digit_end_decimal(x: Seq<char>, k: int, n: nat)
    requires
        0 <= k,
        k + decimal(n).len() < x.len(),
        x.subrange(k, k + decimal(n).len()) == decimal(n),
        !is_digit(x[k + decimal(n).len()]),
    ensures
        digit_end(x, k) == k + decimal(n).len(),
{
    lemma_decimal_digits(n);
    assert forall|j: int| k <= j < k + decimal(n).len() implies is_digit(#[trigger] x[j]) by {
        assert(x[j] == x.subrange(k, k + decimal(n).len())[j - k]);
    }
    lemma_digit_end_step(x, k, k + decimal(n).len());
}

proof fn lemma_digit_end_step(x: Seq<char>, i: int, e: int)
    requires
        0 <= i <= e < x.len(),
        forall|j: int| i <= j < e ==> is_digit(#[trigger] x[j]),
        !is_digit(x[e]),
    ensures
        digit_end(x, i) == e,
    decreases e - i,
{
    if i < e {
        lemma_digit_end_step(x, i + 1, e);
    }
}

pub(crate) proof fn lemma_at(x: Seq<char>, piece: Seq<char>, off: int, i: int)
    requires
        0 <= off <= i < off + piece.len() <= x.len(),
        x.subrange(off, off + piece.len()) == piece,
    ensures
        x[i] == piece[i - off],
{
    assert(x.subrange(off, off + piece.len())[i - off] == x[i]);
}

/// The first match of a pattern is where it matches with no match before.
pub(crate) proof fn lemma_first_match(s: Seq<char>, pat: Seq<char>, p: int)
    requires
        0 <= p,
        matches_at(s, pat, p),
        forall|j: int| 0 <= j < p ==> !matches_at(s, pat, j),
    ensures
        find_from(s, pat, 0) == Some(p),
{
    lemma_find_from(s, pat, 0);
}

/// A match puts each pattern character in place.
pub(crate) proof fn lemma_match_char(s: Seq<char>, pat: Seq<char>, j: int, m: int)
    requires
        matches_at(s, pat, j),
        0 <= m < pat.len(),
    ensures
        s[j + m] == pat[m],
{
    assert(s.subrange(j, j + pat.len())[m] == s[j + m]);
}

/// Every quote of an escaped text follows a backslash, and the text does not
/// end in a backslash.
pub(crate) proof fn lemma_esc_quotes(a: Seq<char>)
    requires
        plain_text(a),
    ensures
        forall|i: int| 0 <= i < esc(a).len() && #[trigger] esc(a)[i] == '"' ==> i > 0 && esc(a)[i - 1]
            == '\\',
        esc(a).len() > 0 ==> esc(a).last() != '\\',
    decreases a.len(),
{
    if a.len() > 0 {
        let b = a.drop_last();
        assert(plain_text(b)) by {
            assert forall|i: int| 0 <= i < b.len() implies #[trigger] b[i] != '\\' && (b[i] == '\n'
                || (b[i] as u32) >= 0x20) by {
                assert(b[i] == a[i]);
            }
        }
        lemma_esc_quotes(b);
        let c = a.last();
        assert(c == a[a.len() - 1]);
        let e = esc(b);
        let ec = esc_char(c);
        assert(esc(a) == e + ec);
        assert forall|i: int| 0 <= i < esc(a).len() && #[trigger] esc(a)[i] == '"' implies i > 0 && esc(
            a,
        )[i - 1] == '\\' by {
            if i < e.len() {
                assert(esc(a)[i] == e[i]);
                assert(esc(a)[i - 1] == e[i - 1]);
            } else {
                assert(esc(a)[i] == ec[i - e.len()]);
                if c == '"' {
                    assert(i - e.len() == 1);
                    assert(esc(a)[i - 1] == ec[0]);
                } else if c == '\n' {
                } else if (c as u32) < 0x20 {
                    assert(false);
                } else {
                }
            }
        }
    }
}

/// The tuple a change record is read back as.
pub open spec fn change_tuple(r: TrackChangeRec) -> (u32, TrackKind, Seq<char>, Seq<char>) {
    (r.id, r.kind, r.author@, r.date@)
}

pub(crate) proof fn lemma_esc_letters(s: Seq<char>)
    requires
        forall|i: int| 0 <= i < s.len() ==> 'a' <= #[trigger] s[i] <= 'z',
    ensures
        esc(s) == s,
    decreases s.len(),
{
    if s.len() > 0 {
        lemma_esc_letters(s.drop_last());
        assert(s.drop_last() + seq![s.last()] =~= s);
    }
}

/// The pieces of a written change record and where they stand.
pub(crate) proof fn lemma_change_layout(r: TrackChangeRec)
    ensures
        ({
            let d = decimal(r.id as nat);
            let k = kind_text(r.kind);
            let ea = esc(r.author@);
            let ed = esc(r.date@);
            let x = change_json(r);
            let o2: int = 6 + d.len() as int;
            let ok: int = o2 + 9;
            let o3: int = ok + 6;
            let oa: int = o3 + 12;
            let o4: int = oa + ea.len() as int;
            let od: int = o4 + 10;
            let o5: int = od + ed.len() as int;
            &&& x.len() == o5 + 2
            &&& x.subrange(0, 6) == seq!['{', '"', 'i', 'd', '"', ':']
            &&& x.subrange(6, o2) == d
            &&& x.subrange(o2, ok) == seq![',', '"', 'k', 'i', 'n', 'd', '"', ':', '"']
            &&& x.subrange(ok, o3) == k
            &&& x.subrange(o3, oa) == seq![
                '"',
                ',',
                '"',
                'a',
                'u',
                't',
                'h',
                'o',
                'r',
                '"',
                ':',
                '"',
            ]
            &&& x.subrange(oa, o4) == ea
            &&& x.subrange(o4, od) == seq!['"', ',', '"', 'd', 'a', 't', 'e', '"', ':', '"']
            &&& x.subrange(od, o5) == ed
            &&& x.subrange(o5, o5 + 2) == seq!['"', '}']
            &&& k.len() == 6
        }),
{
    reveal_strlit("{\"id\":");
    reveal_strlit(",\"kind\":\"");
    reveal_strlit("\",\"author\":\"");
    reveal_strlit("\",\"date\":\"");
    reveal_strlit("\"}");
    reveal_strlit("insert");
    reveal_strlit("delete");
    let d = decimal(r.id as nat);
    let k = kind_text(r.kind);
    let ea = esc(r.author@);
    let ed = esc(r.date@);
    let x1 = "{\"id\":"@ + d;
    let x2 = x1 + ",\"kind\":\""@;
    let x3 = x2 + k;
    let x4 = x3 + "\",\"author\":\""@;
    let x5 = x4 + ea;
    let x6 = x5 + "\",\"date\":\""@;
    let x7 = x6 + ed;
    let x = x7 + "\"}"@;
    reveal(change_json);
    assert(x == change_json(r));
    assert(x.subrange(0, 6) =~= x1.subrange(0, 6));
    assert(x.subrange(6, 6 + d.len() as int) =~= x1.subrange(6, 6 + d.len() as int));
    assert(x.subrange(x1.len() as int, x2.len() as int) =~= x2.subrange(x1.len() as int, x2.len() as int));
    assert(x.subrange(x2.len() as int, x3.len() as int) =~= x3.subrange(x2.len() as int, x3.len() as int));
    assert(x.subrange(x3.len() as int, x4.len() as int) =~= x4.subrange(x3.len() as int, x4.len() as int));
    assert(x.subrange(x4.len() as int, x5.len() as int) =~= x5.subrange(x4.len() as int, x5.len() as int));
    assert(x.subrange(x5.len() as int, x6.len() as int) =~= x6.subrange(x5.len() as int, x6.len() as int));
    assert(x.subrange(x6.len() as int, x7.len() as int) =~= x7.subrange(x6.len() as int, x7.len() as int));
    assert(x.subrange(x7.len() as int, x.len() as int) =~= "\"}"@);
    assert(x1.subrange(0, 6) =~= "{\"id\":"@);
    assert(x1.subrange(6, 6 + d.len() as int) =~= d);
    assert(x2.subrange(x1.len() as int, x2.len() as int) =~= ",\"kind\":\""@);
    assert(x3.subrange(x2.len() as int, x3.len() as int) =~= k);
    assert(x4.subrange(x3.len() as int, x4.len() as int) =~= "\",\"author\":\""@);
    assert(x5.subrange(x4.len() as int, x5.len() as int) =~= ea);
    assert(x6.subrange(x5.len() as int, x6.len() as int) =~= "\",\"date\":\""@);
    assert(x7.subrange(x6.len() as int, x7.len() as int) =~= ed);
}

proof fn lemma_id_field(x: Seq<char>, id: u32)
    requires
        6 + decimal(id as nat).len() < x.len(),
        x.subrange(0, 6) == seq!['{', '"', 'i', 'd', '"', ':'],
        x.subrange(6, 6 + decimal(id as nat).len() as int) == decimal(id as nat),
        x[6 + decimal(id as nat).len() as int] == ',',
    ensures
        number_field(x, "id"@) == Some(id),
{
    reveal_strlit("\"");
    reveal_strlit("id");
    reveal_strlit("\":");
    let l1 = seq!['{', '"', 'i', 'd', '"', ':'];
    let pat = key_pat("id"@, "\":"@);
    assert(pat =~= seq!['"', 'i', 'd', '"', ':']);
    assert(x.subrange(1, 6) =~= pat) by {
        assert forall|m: int| 0 <= m < 5 implies x.subrange(1, 6)[m] == pat[m] by {
            lemma_at(x, l1, 0, 1 + m);
        }
    }
    assert forall|j: int| 0 <= j < 1 implies !matches_at(x, pat, j) by {
        if matches_at(x, pat, j) {
            lemma_match_char(x, pat, j, 0);
            lemma_at(x, l1, 0, 0);
        }
    }
    lemma_first_match(x, pat, 1);
    lemma_digit_end_decimal(x, 6, id as nat);
    law_decimal_reads_back(id as nat);
    assert(num_after(x, 6) == Some(id));
}

/// The start of a written change record, up to its kind value.
pub open spec fn record_head(x: Seq<char>, o2: int) -> bool {
    &&& 6 <= o2
    &&& o2 + 15 <= x.len()
    &&& x.subrange(0, 6) == seq!['{', '"', 'i', 'd', '"', ':']
    &&& forall|i: int| 6 <= i < o2 ==> is_digit(#[trigger] x[i])
    &&& x.subrange(o2, o2 + 9) == seq![',', '"', 'k', 'i', 'n', 'd', '"', ':', '"']
    &&& x[o2 + 9] == 'i' || x[o2 + 9] == 'd'
    &&& x[o2 + 10] == 'n' || x[o2 + 10] == 'e'
    &&& forall|i: int| o2 + 9 <= i < o2 + 15 ==> 'a' <= #[trigger] x[i] <= 'z'
}

proof fn lemma_head_quotes(x: Seq<char>, o2: int, j: int)
    requires
        record_head(x, o2),
        0 <= j < o2 + 15,
        x[j] == '"',
    ensures
        j == 1 || j == 4 || j == o2 + 1 || j == o2 + 6 || j == o2 + 8,
        j == 1 ==> x[j + 1] == 'i',
        j == 4 ==> x[j + 1] == ':',
        j == o2 + 1 ==> x[j + 1] == 'k',
        j == o2 + 6 ==> x[j + 1] == ':',
        j == o2 + 8 ==> x[j + 1] == x[o2 + 9] && x[j + 2] == x[o2 + 10],
{
    let l1 = seq!['{', '"', 'i', 'd', '"', ':'];
    let l2 = seq![',', '"', 'k', 'i', 'n', 'd', '"', ':', '"'];
    if j < 6 {
        lemma_at(x, l1, 0, j);
        lemma_at(x, l1, 0, j + 1);
    } else if j < o2 {
        assert(is_digit(x[j]));
    } else if j < o2 + 9 {
        lemma_at(x, l2, o2, j);
        if j + 1 < o2 + 9 {
            lemma_at(x, l2, o2, j + 1);
        }
    } else {
        assert('a' <= x[j] <= 'z');
    }
}

proof fn lemma_kind_field(x: Seq<char>, o2: int)
    requires
        record_head(x, o2),
        o2 + 15 < x.len(),
        x[o2 + 15] == '"',
    ensures
        string_field(x, "kind"@) == Some(x.subrange(o2 + 9, o2 + 15)),
{
    reveal_strlit("\"");
    reveal_strlit("kind");
    reveal_strlit("\":\"");
    let l2 = seq![',', '"', 'k', 'i', 'n', 'd', '"', ':', '"'];
    let pat = key_pat("kind"@, "\":\""@);
    assert(pat =~= seq!['"', 'k', 'i', 'n', 'd', '"', ':', '"']);
    assert(x.subrange(o2 + 1, o2 + 9) =~= pat) by {
        assert forall|m: int| 0 <= m < 8 implies x.subrange(o2 + 1, o2 + 9)[m] == pat[m] by {
            lemma_at(x, l2, o2, o2 + 1 + m);
        }
    }
    assert forall|j: int| 0 <= j < o2 + 1 implies !matches_at(x, pat, j) by {
        if matches_at(x, pat, j) {
            lemma_match_char(x, pat, j, 0);
            lemma_match_char(x, pat, j, 1);
            lemma_head_quotes(x, o2, j);
        }
    }
    lemma_first_match(x, pat, o2 + 1);
    let k = x.subrange(o2 + 9, o2 + 15);
    assert forall|i: int| 0 <= i < k.len() implies 'a' <= #[trigger] k[i] <= 'z' by {
        assert(k[i] == x[o2 + 9 + i]);
    }
    lemma_esc_letters(k);
    assert(plain_text(k));
    law_escaped_text_reads_back(k, x, o2 + 9);
}

proof fn lemma_author_field(x: Seq<char>, o2: int, a: Seq<char>)
    requires
        record_head(x, o2),
        plain_text(a),
        o2 + 27 + esc(a).len() < x.len(),
        x.subrange(o2 + 15, o2 + 27) == seq![
            '"',
            ',',
            '"',
            'a',
            'u',
            't',
            'h',
            'o',
            'r',
            '"',
            ':',
            '"',
        ],
        x.subrange(o2 + 27, o2 + 27 + esc(a).len()) == esc(a),
        x[o2 + 27 + esc(a).len()] == '"',
    ensures
        string_field(x, "author"@) == Some(a),
{
    reveal_strlit("\"");
    reveal_strlit("author");
    reveal_strlit("\":\"");
    let o3 = o2 + 15;
    let l3 = seq!['"', ',', '"', 'a', 'u', 't', 'h', 'o', 'r', '"', ':', '"'];
    let pat = key_pat("author"@, "\":\""@);
    assert(pat =~= seq!['"', 'a', 'u', 't', 'h', 'o', 'r', '"', ':', '"']);
    assert(x.subrange(o3 + 2, o3 + 12) =~= pat) by {
        assert forall|m: int| 0 <= m < 10 implies x.subrange(o3 + 2, o3 + 12)[m] == pat[m] by {
            lemma_at(x, l3, o3, o3 + 2 + m);
        }
    }
    assert forall|j: int| 0 <= j < o3 + 2 implies !matches_at(x, pat, j) by {
        if matches_at(x, pat, j) {
            lemma_match_char(x, pat, j, 0);
            lemma_match_char(x, pat, j, 1);
            if j < o3 {
                lemma_head_quotes(x, o2, j);
            } else {
                lemma_at(x, l3, o3, j);
                lemma_at(x, l3, o3, j + 1);
            }
        }
    }
    lemma_first_match(x, pat, o3 + 2);
    law_escaped_text_reads_back(a, x, o2 + 27);
}

proof fn lemma_date_field(x: Seq<char>, o2: int, a: Seq<char>, d: Seq<char>)
    requires
        record_head(x, o2),
        plain_text(a),
        plain_text(d),
        o2 + 37 + esc(a).len() + esc(d).len() < x.len(),
        x.subrange(o2 + 15, o2 + 27) == seq![
            '"',
            ',',
            '"',
            'a',
            'u',
            't',
            'h',
            'o',
            'r',
            '"',
            ':',
            '"',
        ],
        x.subrange(o2 + 27, o2 + 27 + esc(a).len()) == esc(a),
        x.subrange(o2 + 27 + esc(a).len(), o2 + 37 + esc(a).len()) == seq![
            '"',
            ',',
            '"',
            'd',
            'a',
            't',
            'e',
            '"',
            ':',
            '"',
        ],
        x.subrange(o2 + 37 + esc(a).len(), o2 + 37 + esc(a).len() + esc(d).len()) == esc(d),
        x[o2 + 37 + esc(a).len() + esc(d).len()] == '"',
    ensures
        string_field(x, "date"@) == Some(d),
{
    reveal_strlit("\"");
    reveal_strlit("date");
    reveal_strlit("\":\"");
    let o3 = o2 + 15;
    let oa = o2 + 27;
    let ea = esc(a);
    let o4 = oa + ea.len();
    let l3 = seq!['"', ',', '"', 'a', 'u', 't', 'h', 'o', 'r', '"', ':', '"'];
    let l4 = seq!['"', ',', '"', 'd', 'a', 't', 'e', '"', ':', '"'];
    lemma_esc_quotes(a);
    let pat = key_pat("date"@, "\":\""@);
    assert(pat =~= seq!['"', 'd', 'a', 't', 'e', '"', ':', '"']);
    assert(x.subrange(o4 + 2, o4 + 10) =~= pat) by {
        assert forall|m: int| 0 <= m < 8 implies x.subrange(o4 + 2, o4 + 10)[m] == pat[m] by {
            lemma_at(x, l4, o4, o4 + 2 + m);
        }
    }
    assert forall|j: int| 0 <= j < o4 + 2 implies !matches_at(x, pat, j) by {
        if matches_at(x, pat, j) {
            lemma_match_char(x, pat, j, 0);
            lemma_match_char(x, pat, j, 1);
            lemma_match_char(x, pat, j, 2);
            lemma_match_char(x, pat, j, 4);
            lemma_match_char(x, pat, j, 5);
            lemma_match_char(x, pat, j, 6);
            if j < o3 {
                lemma_head_quotes(x, o2, j);
            } else if j < oa - 1 {
                lemma_at(x, l3, o3, j);
                lemma_at(x, l3, o3, j + 1);
            } else {
                let t = j + 5;
                if t < o4 {
                    lemma_at(x, ea, oa, t);
                    lemma_at(x, ea, oa, t - 1);
                } else if t == o4 {
                    lemma_at(x, l4, o4, t + 1);
                } else if t <= o4 + 5 {
                    lemma_at(x, l4, o4, t);
                    lemma_at(x, l4, o4, t - 1);
                } else {
                    lemma_at(x, l4, o4, j);
                }
            }
        }
    }
    lemma_first_match(x, pat, o4 + 2);
    law_escaped_text_reads_back(d, x, o4 + 10);
}

/// A change record written into the sidecar reads back as itself, provided
/// its author and date are plain texts.
#[verifier::spinoff_prover]
#[verifier::rlimit(80)]
pub proof fn law_change_record_reads_back(r: TrackChangeRec)
    requires
        plain_text(r.author@),
        plain_text(r.date@),
    ensures
        change_entry(change_json(r)) == Some(change_tuple(r)),
{
    lemma_change_layout(r);
    reveal_strlit("insert");
    reveal_strlit("delete");
    let dd = decimal(r.id as nat);
    let k = kind_text(r.kind);
    let ea = esc(r.author@);
    let ed = esc(r.date@);
    let x = change_json(r);
    let o2: int = 6 + dd.len() as int;
    lemma_decimal_digits(r.id as nat);
    assert forall|i: int| 6 <= i < o2 implies is_digit(#[trigger] x[i]) by {
        lemma_at(x, dd, 6, i);
    }
    assert(k == seq!['i', 'n', 's', 'e', 'r', 't'] || k == seq!['d', 'e', 'l', 'e', 't', 'e']);
    assert forall|i: int| o2 + 9 <= i < o2 + 15 implies 'a' <= #[trigger] x[i] <= 'z' by {
        lemma_at(x, k, o2 + 9, i);
    }
    lemma_at(x, k, o2 + 9, o2 + 9);
    lemma_at(x, k, o2 + 9, o2 + 10);
    assert(record_head(x, o2));
    lemma_at(x, seq![',', '"', 'k', 'i', 'n', 'd', '"', ':', '"'], o2, o2);
    lemma_id_field(x, r.id);
    let l3 = seq!['"', ',', '"', 'a', 'u', 't', 'h', 'o', 'r', '"', ':', '"'];
    lemma_at(x, l3, o2 + 15, o2 + 15);
    lemma_kind_field(x, o2);
    let l4 = seq!['"', ',', '"', 'd', 'a', 't', 'e', '"', ':', '"'];
    lemma_at(x, l4, o2 + 27 + ea.len(), o2 + 27 + ea.len());
    lemma_author_field(x, o2, r.author@);
    lemma_at(x, seq!['"', '}'], o2 + 37 + ea.len() + ed.len(), o2 + 37 + ea.len() + ed.len());
    lemma_date_field(x, o2, r.author@, r.date@);
    assert(x.subrange(o2 + 9, o2 + 15) == k);
    assert("insert"@ != "delete"@) by {
        assert("insert"@[0] != "delete"@[0]);
    }
}

/// Reading the number of `"key":` where it first occurs: when no earlier
/// quote is followed by the key's first two letters, the number written
/// after the key is read.
proof fn lemma_num_field_at(x: Seq<char>, key: Seq<char>, p: int, v: nat)
    requires
        key.len() >= 2,
        0 <= p,
        p + key.len() + 3 + decimal(v).len() < x.len(),
        x.subrange(p, p + key.len() + 3) == seq!['"'] + key + seq!['"', ':'],
        x.subrange(p + key.len() + 3, p + key.len() + 3 + decimal(v).len()) == decimal(v),
        !is_digit(x[p + key.len() + 3 + decimal(v).len()]),
        v <= u32::MAX,
        forall|q: int|
            0 <= q < p && #[trigger] x[q] == '"' ==> !(x[q + 1] == key[0] && x[q + 2] == key[1]),
    ensures
        number_field(x, key) == Some(v as u32),
{
    reveal_strlit("\"");
    reveal_strlit("\":");
    let pat = key_pat(key, "\":"@);
    assert(pat =~= seq!['"'] + key + seq!['"', ':']);
    assert forall|j: int| 0 <= j < p implies !matches_at(x, pat, j) by {
        if matches_at(x, pat, j) {
            lemma_match_char(x, pat, j, 0);
            lemma_match_char(x, pat, j, 1);
            lemma_match_char(x, pat, j, 2);
        }
    }
    lemma_first_match(x, pat, p);
    let start = p + pat.len();
    lemma_digit_end_decimal(x, start, v);
    law_decimal_reads_back(v);
}

/// A key whose first two letters follow no quote is not found.
proof fn lemma_num_field_absent(x: Seq<char>, key: Seq<char>)
    requires
        key.len() >= 2,
        forall|q: int|
            0 <= q < x.len() && #[trigger] x[q] == '"' ==> q + 2 >= x.len() || !(x[q + 1] == key[0]
                && x[q + 2] == key[1]),
    ensures
        number_field(x, key) is None,
{
    reveal_strlit("\"");
    reveal_strlit("\":");
    let pat = key_pat(key, "\":"@);
    assert(pat =~= seq!['"'] + key + seq!['"', ':']);
    lemma_find_from(x, pat, 0);
    if find_from(x, pat, 0) is Some {
        let j = find_from(x, pat, 0)->0;
        lemma_match_char(x, pat, j, 0);
        lemma_match_char(x, pat, j, 1);
        lemma_match_char(x, pat, j, 2);
    }
}

/// One field of a mark: `,"key":` followed by a number, at offset `o`.
pub open spec fn mark_field_at(x: Seq<char>, o: int, lead: char, key: Seq<char>, v: nat) -> bool {
    &&& 0 <= o
    &&& o + key.len() + 4 + decimal(v).len() <= x.len()
    &&& x.subrange(o, o + key.len() + 4) == seq![lead, '"'] + key + seq!['"', ':']
    &&& x.subrange(o + key.len() + 4, o + key.len() + 4 + decimal(v).len()) == decimal(v)
}

/// The length of a field.
pub open spec fn field_len(key: Seq<char>, v: nat) -> int {
    (key.len() + 4 + decimal(v).len()) as int
}

pub(crate) proof fn lemma_field_quotes(x: Seq<char>, o: int, lead: char, key: Seq<char>, v: nat, q: int)
    requires
        mark_field_at(x, o, lead, key, v),
        key.len() >= 2,
        lead != '"',
        forall|i: int| 0 <= i < key.len() ==> #[trigger] key[i] != '"' && key[i] != ':',
        o <= q < o + field_len(key, v),
        x[q] == '"',
    ensures
        (q == o + 1 && x[q + 1] == key[0] && x[q + 2] == key[1]) || (q == o + key.len() + 2 && x[q
            + 1] == ':'),
{
    let head = seq![lead, '"'] + key + seq!['"', ':'];
    lemma_decimal_digits(v);
    if q < o + key.len() + 4 {
        lemma_at(x, head, o, q);
        let i = q - o;
        assert(head[i] == '"');
        if 2 <= i < 2 + key.len() {
            assert(head[i] == key[i - 2]);
        }
        assert(i == 1 || i == key.len() + 2);
        lemma_at(x, head, o, q + 1);
        if q == o + 1 {
            lemma_at(x, head, o, q + 2);
            assert(head[2] == key[0]);
            assert(head[3] == key[1]);
        } else {
            assert(head[i + 1] == ':');
        }
    } else {
        lemma_at(x, decimal(v), o + key.len() + 4, q);
    }
}

/// The five leading fields of a written mark.
pub open spec fn mark_head(sec: nat, para: nat, start: nat, end: nat, tc: u32) -> Seq<char> {
    "{\"sec\":"@ + decimal(sec) + ",\"para\":"@ + decimal(para) + ",\"start\":"@ + decimal(start)
        + ",\"end\":"@ + decimal(end) + ",\"tc\":"@ + decimal(tc as nat)
}

/// A field `lead"key":` followed by the number `v` opens the text `t`.
proof fn lemma_field_prefix(t: Seq<char>, lit: Seq<char>, lead: char, key: Seq<char>, v: nat)
    requires
        lit == seq![lead, '"'] + key + seq!['"', ':'],
        t == lit + decimal(v),
    ensures
        mark_field_at(t, 0, lead, key, v),
        t.len() == field_len(key, v),
{
    assert(t.subrange(0, lit.len() as int) =~= lit);
    assert(t.subrange(lit.len() as int, t.len() as int) =~= decimal(v));
}

/// A field found in a part of a text is found in the text at the part's offset.
proof fn lemma_field_shift(x: Seq<char>, part: Seq<char>, o: int, lead: char, key: Seq<char>, v: nat)
    requires
        0 <= o,
        o + part.len() <= x.len(),
        x.subrange(o, o + part.len()) == part,
        mark_field_at(part, 0, lead, key, v),
    ensures
        mark_field_at(x, o, lead, key, v),
{
    let n: int = key.len() as int + 4;
    let m: int = n + decimal(v).len();
    assert(x.subrange(o, o + n) =~= part.subrange(0, n));
    assert(x.subrange(o + n, o + m) =~= part.subrange(n, m));
}

proof fn lemma_sub_left(a: Seq<char>, b: Seq<char>, lo: int, hi: int)
    requires
        0 <= lo <= hi <= a.len(),
    ensures
        (a + b).subrange(lo, hi) == a.subrange(lo, hi),
{
    assert((a + b).subrange(lo, hi) =~= a.subrange(lo, hi));
}

proof fn lemma_sub_right(a: Seq<char>, b: Seq<char>)
    ensures
        (a + b).subrange(a.len() as int, (a.len() + b.len()) as int) == b,
{
    assert((a + b).subrange(a.len() as int, (a.len() + b.len()) as int) =~= b);
}

proof fn lemma_sub_of_prefix(x: Seq<char>, h: Seq<char>, lo: int, hi: int)
    requires
        h.len() <= x.len(),
        x.subrange(0, h.len() as int) == h,
        0 <= lo <= hi <= h.len(),
    ensures
        x.subrange(lo, hi) == h.subrange(lo, hi),
{
    assert(x.subrange(lo, hi) =~= h.subrange(lo, hi)) by {
        assert forall|i: int| 0 <= i < hi - lo implies x.subrange(lo, hi)[i] == h.subrange(lo, hi)[i] by {
            assert(x.subrange(0, h.len() as int)[lo + i] == x[lo + i]);
        }
    }
}

/// Where the fields of a written mark stand.
#[verifier::spinoff_prover]
#[verifier::rlimit(40)]
pub(crate) proof fn lemma_head_layout(x: Seq<char>, sec: nat, para: nat, start: nat, end: nat, tc: u32)
    requires
        mark_head(sec, para, start, end, tc).len() <= x.len(),
        x.subrange(0, mark_head(sec, para, start, end, tc).len() as int) == mark_head(
            sec,
            para,
            start,
            end,
            tc,
        ),
    ensures
        ({
            let o1 = field_len(seq!['s', 'e', 'c'], sec);
            let o2 = o1 + field_len(seq!['p', 'a', 'r', 'a'], para);
            let o3 = o2 + field_len(seq!['s', 't', 'a', 'r', 't'], start);
            let o4 = o3 + field_len(seq!['e', 'n', 'd'], end);
            &&& mark_field_at(x, 0, '{', seq!['s', 'e', 'c'], sec)
            &&& mark_field_at(x, o1, ',', seq!['p', 'a', 'r', 'a'], para)
            &&& mark_field_at(x, o2, ',', seq!['s', 't', 'a', 'r', 't'], start)
            &&& mark_field_at(x, o3, ',', seq!['e', 'n', 'd'], end)
            &&& mark_field_at(x, o4, ',', seq!['t', 'c'], tc as nat)
            &&& mark_head(sec, para, start, end, tc).len() == o4 + field_len(seq!['t', 'c'], tc as nat)
        }),
{
    reveal_strlit("{\"sec\":");
    reveal_strlit(",\"para\":");
    reveal_strlit(",\"start\":");
    reveal_strlit(",\"end\":");
    reveal_strlit(",\"tc\":");
    let f1 = "{\"sec\":"@ + decimal(sec);
    let f2 = ",\"para\":"@ + decimal(para);
    let f3 = ",\"start\":"@ + decimal(start);
    let f4 = ",\"end\":"@ + decimal(end);
    let f5 = ",\"tc\":"@ + decimal(tc as nat);
    assert("{\"sec\":"@ =~= seq!['{', '"'] + seq!['s', 'e', 'c'] + seq!['"', ':']);
    lemma_field_prefix(f1, "{\"sec\":"@, '{', seq!['s', 'e', 'c'], sec);
    assert(",\"para\":"@ =~= seq![',', '"'] + seq!['p', 'a', 'r', 'a'] + seq!['"', ':']);
    lemma_field_prefix(f2, ",\"para\":"@, ',', seq!['p', 'a', 'r', 'a'], para);
    assert(",\"start\":"@ =~= seq![',', '"'] + seq!['s', 't', 'a', 'r', 't'] + seq!['"', ':']);
    lemma_field_prefix(f3, ",\"start\":"@, ',', seq!['s', 't', 'a', 'r', 't'], start);
    assert(",\"end\":"@ =~= seq![',', '"'] + seq!['e', 'n', 'd'] + seq!['"', ':']);
    lemma_field_prefix(f4, ",\"end\":"@, ',', seq!['e', 'n', 'd'], end);
    assert(",\"tc\":"@ =~= seq![',', '"'] + seq!['t', 'c'] + seq!['"', ':']);
    lemma_field_prefix(f5, ",\"tc\":"@, ',', seq!['t', 'c'], tc as nat);
    let g2 = f1 + f2;
    let g3 = g2 + f3;
    let g4 = g3 + f4;
    let h = g4 + f5;
    assert(h =~= mark_head(sec, para, start, end, tc));
    let o1 = f1.len() as int;
    let o2 = o1 + f2.len();
    let o3 = o2 + f3.len();
    let o4 = o3 + f4.len();
    lemma_sub_right(f1, f2);
    lemma_sub_right(g2, f3);
    lemma_sub_right(g3, f4);
    lemma_sub_right(g4, f5);
    assert(f1.subrange(0, o1) =~= f1);
    lemma_sub_left(f1, f2, 0, o1);
    lemma_sub_left(g2, f3, 0, o1);
    lemma_sub_left(g3, f4, 0, o1);
    lemma_sub_left(g4, f5, 0, o1);
    lemma_sub_left(g2, f3, o1, o2);
    lemma_sub_left(g3, f4, o1, o2);
    lemma_sub_left(g4, f5, o1, o2);
    lemma_sub_left(g3, f4, o2, o3);
    lemma_sub_left(g4, f5, o2, o3);
    lemma_sub_left(g4, f5, o3, o4);
    lemma_sub_of_prefix(x, h, 0, o1);
    lemma_sub_of_prefix(x, h, o1, o2);
    lemma_sub_of_prefix(x, h, o2, o3);
    lemma_sub_of_prefix(x, h, o3, o4);
    lemma_sub_of_prefix(x, h, o4, o4 + f5.len());
    lemma_field_shift(x, f1, 0, '{', seq!['s', 'e', 'c'], sec);
    lemma_field_shift(x, f2, o1, ',', seq!['p', 'a', 'r', 'a'], para);
    lemma_field_shift(x, f3, o2, ',', seq!['s', 't', 'a', 'r', 't'], start);
    lemma_field_shift(x, f4, o3, ',', seq!['e', 'n', 'd'], end);
    lemma_field_shift(x, f5, o4, ',', seq!['t', 'c'], tc as nat);
}

/// Where the cell fields of a written mark stand.
#[verifier::spinoff_prover]
#[verifier::rlimit(40)]
pub(crate) proof fn lemma_cell_layout(x: Seq<char>, o: int, a: nat, b: nat, c: nat)
    requires
        0 <= o,
        o + cell_text(Some((a, b, c))).len() <= x.len(),
        x.subrange(o, o + cell_text(Some((a, b, c))).len()) == cell_text(Some((a, b, c))),
    ensures
        ({
            let o6 = o + field_len(seq!['c', 'i'], a);
            let o7 = o6 + field_len(seq!['c', 'e', 'i'], b);
            &&& mark_field_at(x, o, ',', seq!['c', 'i'], a)
            &&& mark_field_at(x, o6, ',', seq!['c', 'e', 'i'], b)
            &&& mark_field_at(x, o7, ',', seq!['c', 'p', 'i'], c)
            &&& cell_text(Some((a, b, c))).len() == o7 + field_len(seq!['c', 'p', 'i'], c) - o
        }),
{
    reveal_strlit(",\"ci\":");
    reveal_strlit(",\"cei\":");
    reveal_strlit(",\"cpi\":");
    let f6 = ",\"ci\":"@ + decimal(a);
    let f7 = ",\"cei\":"@ + decimal(b);
    let f8 = ",\"cpi\":"@ + decimal(c);
    assert(",\"ci\":"@ =~= seq![',', '"'] + seq!['c', 'i'] + seq!['"', ':']);
    lemma_field_prefix(f6, ",\"ci\":"@, ',', seq!['c', 'i'], a);
    assert(",\"cei\":"@ =~= seq![',', '"'] + seq!['c', 'e', 'i'] + seq!['"', ':']);
    lemma_field_prefix(f7, ",\"cei\":"@, ',', seq!['c', 'e', 'i'], b);
    assert(",\"cpi\":"@ =~= seq![',', '"'] + seq!['c', 'p', 'i'] + seq!['"', ':']);
    lemma_field_prefix(f8, ",\"cpi\":"@, ',', seq!['c', 'p', 'i'], c);
    let g7 = f6 + f7;
    let ct = g7 + f8;
    assert(ct =~= cell_text(Some((a, b, c))));
    let o6 = o + f6.len();
    let o7 = o6 + f7.len();
    lemma_sub_right(f6, f7);
    lemma_sub_right(g7, f8);
    lemma_sub_left(f6, f7, 0, f6.len() as int);
    lemma_sub_left(g7, f8, 0, f6.len() as int);
    lemma_sub_left(g7, f8, f6.len() as int, g7.len() as int);
    assert(f6.subrange(0, f6.len() as int) =~= f6);
    let y = x.subrange(o, o + ct.len());
    assert(y.subrange(0, ct.len() as int) =~= ct);
    lemma_sub_of_prefix(y, ct, 0, f6.len() as int);
    lemma_sub_of_prefix(y, ct, f6.len() as int, g7.len() as int);
    lemma_sub_of_prefix(y, ct, g7.len() as int, ct.len() as int);
    assert(x.subrange(o, o6) =~= y.subrange(0, f6.len() as int));
    assert(x.subrange(o6, o7) =~= y.subrange(f6.len() as int, g7.len() as int));
    assert(x.subrange(o7, o7 + f8.len()) =~= y.subrange(g7.len() as int, ct.len() as int));
    lemma_field_shift(x, f6, o, ',', seq!['c', 'i'], a);
    lemma_field_shift(x, f7, o6, ',', seq!['c', 'e', 'i'], b);
    lemma_field_shift(x, f8, o7, ',', seq!['c', 'p', 'i'], c);
}


/// No quote in `x[lo..hi]` is followed by the letters `k0`, `k1`.
pub open spec fn quotes_avoid(x: Seq<char>, lo: int, hi: int, k0: char, k1: char) -> bool {
    forall|q: int|
        lo <= q < hi && #[trigger] x[q] == '"' ==> !(x[q + 1] == k0 && x[q + 2] == k1)
}

proof fn lemma_avoid_join(x: Seq<char>, a: int, b: int, c: int, k0: char, k1: char)
    requires
        quotes_avoid(x, a, b, k0, k1),
        quotes_avoid(x, b, c, k0, k1),
    ensures
        quotes_avoid(x, a, c, k0, k1),
{
}

/// A field whose key starts with other letters than `k0`, `k1` holds no
/// quote followed by them.
proof fn lemma_field_avoid(
    x: Seq<char>,
    o: int,
    lead: char,
    key: Seq<char>,
    v: nat,
    k0: char,
    k1: char,
)
    requires
        mark_field_at(x, o, lead, key, v),
        key.len() >= 2,
        lead != '"',
        forall|i: int| 0 <= i < key.len() ==> #[trigger] key[i] != '"' && key[i] != ':',
        !(key[0] == k0 && key[1] == k1),
        k0 != ':',
    ensures
        quotes_avoid(x, o, o + field_len(key, v), k0, k1),
{
    assert forall|q: int| o <= q < o + field_len(key, v) && #[trigger] x[q] == '"' implies !(x[q
        + 1] == k0 && x[q + 2] == k1) by {
        lemma_field_quotes(x, o, lead, key, v, q);
    }
}

/// The number of a field is read back where no earlier quote is followed by
/// the key's first two letters and no digit follows the field.
proof fn lemma_read_field(x: Seq<char>, o: int, lead: char, key: Seq<char>, v: nat)
    requires
        mark_field_at(x, o, lead, key, v),
        key.len() >= 2,
        lead != '"',
        quotes_avoid(x, 0, o, key[0], key[1]),
        o + field_len(key, v) < x.len(),
        !is_digit(x[o + field_len(key, v)]),
        v <= u32::MAX,
    ensures
        number_field(x, key) == Some(v as u32),
{
    let n: int = key.len() as int;
    let head = seq![lead, '"'] + key + seq!['"', ':'];
    lemma_at(x, head, o, o);
    assert(x.subrange(o + 1, o + 1 + n + 3) =~= seq!['"'] + key + seq!['"', ':']) by {
        assert forall|i: int| 0 <= i < n + 3 implies x.subrange(o + 1, o + 1 + n + 3)[i] == (
        seq!['"'] + key + seq!['"', ':'])[i] by {
            lemma_at(x, head, o, o + 1 + i);
        }
    }
    assert forall|q: int| 0 <= q < o + 1 && #[trigger] x[q] == '"' implies !(x[q + 1] == key[0]
        && x[q + 2] == key[1]) by {
        if q == o {
            assert(x[o] == lead);
        }
    }
    lemma_num_field_at(x, key, o + 1, v);
}

/// The key letters of a mark.
proof fn lemma_key_letters()
    ensures
        "sec"@ == seq!['s', 'e', 'c'],
        "para"@ == seq!['p', 'a', 'r', 'a'],
        "start"@ == seq!['s', 't', 'a', 'r', 't'],
        "end"@ == seq!['e', 'n', 'd'],
        "tc"@ == seq!['t', 'c'],
        "ci"@ == seq!['c', 'i'],
        "cei"@ == seq!['c', 'e', 'i'],
        "cpi"@ == seq!['c', 'p', 'i'],
{
    reveal_strlit("sec");
    reveal_strlit("para");
    reveal_strlit("start");
    reveal_strlit("end");
    reveal_strlit("tc");
    reveal_strlit("ci");
    reveal_strlit("cei");
    reveal_strlit("cpi");
}

/// The five leading numbers of a written mark read back, and its leading
/// fields hold no quote that starts a cell key.
#[verifier::spinoff_prover]
#[verifier::rlimit(60)]
proof fn lemma_head_reads(x: Seq<char>, sec: nat, para: nat, start: nat, end: nat, tc: u32)
    requires
        mark_head(sec, para, start, end, tc).len() < x.len(),
        x.subrange(0, mark_head(sec, para, start, end, tc).len() as int) == mark_head(
            sec,
            para,
            start,
            end,
            tc,
        ),
        !is_digit(x[mark_head(sec, para, start, end, tc).len() as int]),
        sec <= u32::MAX,
        para <= u32::MAX,
        start <= u32::MAX,
        end <= u32::MAX,
    ensures
        number_field(x, "sec"@) == Some(sec as u32),
        number_field(x, "para"@) == Some(para as u32),
        number_field(x, "start"@) == Some(start as u32),
        number_field(x, "end"@) == Some(end as u32),
        number_field(x, "tc"@) == Some(tc),
        quotes_avoid(x, 0, mark_head(sec, para, start, end, tc).len() as int, 'c', 'i'),
        quotes_avoid(x, 0, mark_head(sec, para, start, end, tc).len() as int, 'c', 'e'),
        quotes_avoid(x, 0, mark_head(sec, para, start, end, tc).len() as int, 'c', 'p'),
{
    lemma_key_letters();
    lemma_head_layout(x, sec, para, start, end, tc);
    let k1 = seq!['s', 'e', 'c'];
    let k2 = seq!['p', 'a', 'r', 'a'];
    let k3 = seq!['s', 't', 'a', 'r', 't'];
    let k4 = seq!['e', 'n', 'd'];
    let k5 = seq!['t', 'c'];
    let o1 = field_len(k1, sec);
    let o2 = o1 + field_len(k2, para);
    let o3 = o2 + field_len(k3, start);
    let o4 = o3 + field_len(k4, end);
    let o5 = o4 + field_len(k5, tc as nat);
    assert(forall|i: int| 0 <= i < k1.len() ==> #[trigger] k1[i] != '"' && k1[i] != ':');
    assert(forall|i: int| 0 <= i < k2.len() ==> #[trigger] k2[i] != '"' && k2[i] != ':');
    assert(forall|i: int| 0 <= i < k3.len() ==> #[trigger] k3[i] != '"' && k3[i] != ':');
    assert(forall|i: int| 0 <= i < k4.len() ==> #[trigger] k4[i] != '"' && k4[i] != ':');
    assert(forall|i: int| 0 <= i < k5.len() ==> #[trigger] k5[i] != '"' && k5[i] != ':');
    lemma_at(x, seq![',', '"'] + k2 + seq!['"', ':'], o1, o1);
    lemma_at(x, seq![',', '"'] + k3 + seq!['"', ':'], o2, o2);
    lemma_at(x, seq![',', '"'] + k4 + seq!['"', ':'], o3, o3);
    lemma_at(x, seq![',', '"'] + k5 + seq!['"', ':'], o4, o4);
    // sec
    lemma_read_field(x, 0, '{', k1, sec);
    // para
    lemma_field_avoid(x, 0, '{', k1, sec, 'p', 'a');
    lemma_read_field(x, o1, ',', k2, para);
    // start
    lemma_field_avoid(x, 0, '{', k1, sec, 's', 't');
    lemma_field_avoid(x, o1, ',', k2, para, 's', 't');
    lemma_avoid_join(x, 0, o1, o2, 's', 't');
    lemma_read_field(x, o2, ',', k3, start);
    // end
    lemma_field_avoid(x, 0, '{', k1, sec, 'e', 'n');
    lemma_field_avoid(x, o1, ',', k2, para, 'e', 'n');
    lemma_field_avoid(x, o2, ',', k3, start, 'e', 'n');
    lemma_avoid_join(x, 0, o1, o2, 'e', 'n');
    lemma_avoid_join(x, 0, o2, o3, 'e', 'n');
    lemma_read_field(x, o3, ',', k4, end);
    // tc
    lemma_field_avoid(x, 0, '{', k1, sec, 't', 'c');
    lemma_field_avoid(x, o1, ',', k2, para, 't', 'c');
    lemma_field_avoid(x, o2, ',', k3, start, 't', 'c');
    lemma_field_avoid(x, o3, ',', k4, end, 't', 'c');
    lemma_avoid_join(x, 0, o1, o2, 't', 'c');
    lemma_avoid_join(x, 0, o2, o3, 't', 'c');
    lemma_avoid_join(x, 0, o3, o4, 't', 'c');
    lemma_read_field(x, o4, ',', k5, tc as nat);
    // the cell keys
    lemma_head_avoid(x, sec, para, start, end, tc, 'i');
    lemma_head_avoid(x, sec, para, start, end, tc, 'e');
    lemma_head_avoid(x, sec, para, start, end, tc, 'p');
}

/// No quote of the leading fields is followed by `c` and another letter.
proof fn lemma_head_avoid(x: Seq<char>, sec: nat, para: nat, start: nat, end: nat, tc: u32, k1: char)
    requires
        mark_head(sec, para, start, end, tc).len() <= x.len(),
        x.subrange(0, mark_head(sec, para, start, end, tc).len() as int) == mark_head(
            sec,
            para,
            start,
            end,
            tc,
        ),
    ensures
        quotes_avoid(x, 0, mark_head(sec, para, start, end, tc).len() as int, 'c', k1),
{
    lemma_head_layout(x, sec, para, start, end, tc);
    let ks1 = seq!['s', 'e', 'c'];
    let ks2 = seq!['p', 'a', 'r', 'a'];
    let ks3 = seq!['s', 't', 'a', 'r', 't'];
    let ks4 = seq!['e', 'n', 'd'];
    let ks5 = seq!['t', 'c'];
    let o1 = field_len(ks1, sec);
    let o2 = o1 + field_len(ks2, para);
    let o3 = o2 + field_len(ks3, start);
    let o4 = o3 + field_len(ks4, end);
    assert(forall|i: int| 0 <= i < ks1.len() ==> #[trigger] ks1[i] != '"' && ks1[i] != ':');
    assert(forall|i: int| 0 <= i < ks2.len() ==> #[trigger] ks2[i] != '"' && ks2[i] != ':');
    assert(forall|i: int| 0 <= i < ks3.len() ==> #[trigger] ks3[i] != '"' && ks3[i] != ':');
    assert(forall|i: int| 0 <= i < ks4.len() ==> #[trigger] ks4[i] != '"' && ks4[i] != ':');
    assert(forall|i: int| 0 <= i < ks5.len() ==> #[trigger] ks5[i] != '"' && ks5[i] != ':');
    lemma_field_avoid(x, 0, '{', ks1, sec, 'c', k1);
    lemma_field_avoid(x, o1, ',', ks2, para, 'c', k1);
    lemma_field_avoid(x, o2, ',', ks3, start, 'c', k1);
    lemma_field_avoid(x, o3, ',', ks4, end, 'c', k1);
    lemma_field_avoid(x, o4, ',', ks5, tc as nat, 'c', k1);
    lemma_avoid_join(x, 0, o1, o2, 'c', k1);
    lemma_avoid_join(x, 0, o2, o3, 'c', k1);
    lemma_avoid_join(x, 0, o3, o4, 'c', k1);
    lemma_avoid_join(x, 0, o4, o4 + field_len(ks5, tc as nat), 'c', k1);
}

/// The three cell numbers of a written mark read back.
#[verifier::spinoff_prover]
#[verifier::rlimit(60)]
proof fn lemma_cell_reads(x: Seq<char>, o: int, a: nat, b: nat, c: nat)
    requires
        0 <= o,
        o + cell_text(Some((a, b, c))).len() < x.len(),
        x.subrange(o, o + cell_text(Some((a, b, c))).len()) == cell_text(Some((a, b, c))),
        !is_digit(x[o + cell_text(Some((a, b, c))).len()]),
        quotes_avoid(x, 0, o, 'c', 'i'),
        quotes_avoid(x, 0, o, 'c', 'e'),
        quotes_avoid(x, 0, o, 'c', 'p'),
        a <= u32::MAX,
        b <= u32::MAX,
        c <= u32::MAX,
    ensures
        number_field(x, "ci"@) == Some(a as u32),
        number_field(x, "cei"@) == Some(b as u32),
        number_field(x, "cpi"@) == Some(c as u32),
{
    lemma_key_letters();
    lemma_cell_layout(x, o, a, b, c);
    let k6 = seq!['c', 'i'];
    let k7 = seq!['c', 'e', 'i'];
    let k8 = seq!['c', 'p', 'i'];
    let o6 = o + field_len(k6, a);
    let o7 = o6 + field_len(k7, b);
    assert(forall|i: int| 0 <= i < k6.len() ==> #[trigger] k6[i] != '"' && k6[i] != ':');
    assert(forall|i: int| 0 <= i < k7.len() ==> #[trigger] k7[i] != '"' && k7[i] != ':');
    lemma_at(x, seq![',', '"'] + k7 + seq!['"', ':'], o6, o6);
    lemma_at(x, seq![',', '"'] + k8 + seq!['"', ':'], o7, o7);
    lemma_read_field(x, o, ',', k6, a);
    lemma_field_avoid(x, o, ',', k6, a, 'c', 'e');
    lemma_avoid_join(x, 0, o, o6, 'c', 'e');
    lemma_read_field(x, o6, ',', k7, b);
    lemma_field_avoid(x, o, ',', k6, a, 'c', 'p');
    lemma_field_avoid(x, o6, ',', k7, b, 'c', 'p');
    lemma_avoid_join(x, 0, o, o6, 'c', 'p');
    lemma_avoid_join(x, 0, o6, o7, 'c', 'p');
    lemma_read_field(x, o7, ',', k8, c);
}

/// The numbers of a mark read back from its entry, each as a `u32`.
pub open spec fn cell_u32(cell: Option<(nat, nat, nat)>) -> Option<(u32, u32, u32)> {
    match cell {
        Some((a, b, c)) => Some((a as u32, b as u32, c as u32)),
        None => None,
    }
}

/// A mark written into the sidecar reads back as itself: its section,
/// paragraph, start, end and change id, and its table cell where it has one.
#[verifier::spinoff_prover]
#[verifier::rlimit(60)]
pub proof fn law_mark_record_reads_back(
    sec: nat,
    para: nat,
    start: nat,
    end: nat,
    tc: u32,
    cell: Option<(nat, nat, nat)>,
)
    requires
        sec <= u32::MAX,
        para <= u32::MAX,
        start <= u32::MAX,
        end <= u32::MAX,
        cell matches Some((a, b, c)) ==> a <= u32::MAX && b <= u32::MAX && c <= u32::MAX,
    ensures
        mark_entry(mark_json(sec, para, start, end, tc, cell)) == Some(
            MarkEntry {
                sec: sec as u32,
                para: para as u32,
                start: start as u32,
                end: end as u32,
                tc,
                cell: cell_u32(cell),
            },
        ),
{
    reveal_strlit("}");
    lemma_key_letters();
    let h = mark_head(sec, para, start, end, tc);
    let ct = cell_text(cell);
    let x = mark_json(sec, para, start, end, tc, cell);
    assert(x == h + ct + "}"@);
    let hl = h.len() as int;
    assert(x.subrange(0, hl) =~= h);
    assert(x[hl + ct.len()] == '}');
    match cell {
        Some((a, b, c)) => {
            reveal_strlit(",\"ci\":");
            assert(x[hl] == ct[0]);
            assert(ct[0] == ',');
            lemma_head_reads(x, sec, para, start, end, tc);
            assert(x.subrange(hl, hl + ct.len()) =~= ct);
            lemma_cell_reads(x, hl, a, b, c);
        },
        None => {
            assert(x[hl] == '}');
            lemma_head_reads(x, sec, para, start, end, tc);
            assert forall|q: int|
                0 <= q < x.len() && #[trigger] x[q] == '"' implies q + 2 >= x.len() || !(x[q + 1]
                    == 'c' && x[q + 2] == 'i') by {
                if q < hl {
                }
            }
            lemma_num_field_absent(x, "ci"@);
        },
    }
}

} // verus!
