//! The order of strings by their characters (which, for UTF-8, is also the
//! order of their bytes), and sorting a list of strings by it.

use crate::text::{str_chars, string_views};
use vstd::prelude::*;
use vstd::relations::{sorted_by, total_ordering};

verus! {

/// `a` comes no later than `b`: compared character by character, a proper
/// prefix first.
pub open spec fn chars_le(a: Seq<char>, b: Seq<char>) -> bool
    decreases a.len(),
{
    if a.len() == 0 {
        true
    } else if b.len() == 0 {
        false
    } else if a[0] != b[0] {
        (a[0] as u32) < (b[0] as u32)
    } else {
        chars_le(a.drop_first(), b.drop_first())
    }
}

/// The order as a relation.
pub open spec fn chars_order() -> spec_fn(Seq<char>, Seq<char>) -> bool {
    |a: Seq<char>, b: Seq<char>| chars_le(a, b)
}

/// Different characters have different codes.
proof fn lemma_char_code(a: char, b: char)
    ensures
        a != b ==> (a as u32) != (b as u32),
{
    vstd::utf8::char_u32_cast(a, a as u32);
    vstd::utf8::char_u32_cast(b, b as u32);
}

proof fn lemma_le_refl(a: Seq<char>)
    ensures
        chars_le(a, a),
    decreases a.len(),
{
    if a.len() > 0 {
        lemma_le_refl(a.drop_first());
    }
}

proof fn lemma_le_antisym(a: Seq<char>, b: Seq<char>)
    requires
        chars_le(a, b),
        chars_le(b, a),
    ensures
        a == b,
    decreases a.len(),
{
    if a.len() > 0 && b.len() > 0 {
        if a[0] == b[0] {
            lemma_le_antisym(a.drop_first(), b.drop_first());
            assert(a =~= seq![a[0]] + a.drop_first());
            assert(b =~= seq![b[0]] + b.drop_first());
        } else {
            lemma_char_code(a[0], b[0]);
        }
    } else {
        assert(a =~= b);
    }
}

proof fn lemma_le_trans(a: Seq<char>, b: Seq<char>, c: Seq<char>)
    requires
        chars_le(a, b),
        chars_le(b, c),
    ensures
        chars_le(a, c),
    decreases a.len(),
{
    if a.len() > 0 && b.len() > 0 && c.len() > 0 {
        if a[0] == b[0] && b[0] == c[0] {
            lemma_le_trans(a.drop_first(), b.drop_first(), c.drop_first());
        } else if a[0] != c[0] {
            if a[0] == b[0] {
            } else if b[0] == c[0] {
            } else {
            }
        } else {
            // a[0] == c[0]: then a[0] < b[0] < c[0] or the equalities hold
            lemma_char_code(a[0], b[0]);
            lemma_char_code(b[0], c[0]);
        }
    }
}

proof fn lemma_le_total(a: Seq<char>, b: Seq<char>)
    ensures
        chars_le(a, b) || chars_le(b, a),
    decreases a.len(),
{
    if a.len() > 0 && b.len() > 0 {
        if a[0] == b[0] {
            lemma_le_total(a.drop_first(), b.drop_first());
        } else {
            lemma_char_code(a[0], b[0]);
        }
    }
}

/// The order is total.
pub proof fn lemma_chars_order_total()
    ensures
        total_ordering(chars_order()),
{
    assert forall|a: Seq<char>| #[trigger] chars_order()(a, a) by {
        lemma_le_refl(a);
    }
    assert forall|a: Seq<char>, b: Seq<char>|
        #[trigger] chars_order()(a, b) && #[trigger] chars_order()(b, a) implies a == b by {
        lemma_le_antisym(a, b);
    }
    assert forall|a: Seq<char>, b: Seq<char>, c: Seq<char>|
        #[trigger] chars_order()(a, b) && #[trigger] chars_order()(b, c) implies chars_order()(a, c) by {
        lemma_le_trans(a, b, c);
    }
    assert forall|a: Seq<char>, b: Seq<char>|
        #[trigger] chars_order()(a, b) || #[trigger] chars_order()(b, a) by {
        lemma_le_total(a, b);
    }
}

/// Whether `a` comes no later than `b`.
pub fn str_le(a: &str, b: &str) -> (r: bool)
    ensures
        r == chars_le(a@, b@),
{
    let x = str_chars(a);
    let y = str_chars(b);
    let mut i: usize = 0;
    assert(x@.skip(0) =~= x@);
    assert(y@.skip(0) =~= y@);
    while i < x.len() && i < y.len() && x[i] == y[i]
        invariant
            x@ == a@,
            y@ == b@,
            i <= x@.len(),
            i <= y@.len(),
            chars_le(a@, b@) == chars_le(x@.skip(i as int), y@.skip(i as int)),
        decreases x.len() - i,
    {
        proof {
            assert(x@.skip(i as int).drop_first() =~= x@.skip(i as int + 1));
            assert(y@.skip(i as int).drop_first() =~= y@.skip(i as int + 1));
        }
        i += 1;
    }
    if i == x.len() {
        return true;
    }
    if i == y.len() {
        return false;
    }
    proof {
        assert(x@.skip(i as int)[0] == x@[i as int]);
        assert(y@.skip(i as int)[0] == y@[i as int]);
    }
    (x[i] as u32) < (y[i] as u32)
}

/// The strings, sorted by `chars_le`.
pub fn sort_strings(v: Vec<String>) -> (r: Vec<String>)
    ensures
        string_views(r@) == string_views(v@).sort_by(chars_order()),
{
    let ghost input = string_views(v@);
    let mut rest = v;
    let mut out: Vec<String> = Vec::new();
    proof {
        lemma_chars_order_total();
        broadcast use vstd::seq_lib::group_to_multiset_ensures;
        broadcast use vstd::multiset::group_multiset_axioms;
        assert(string_views(out@) =~= Seq::<Seq<char>>::empty());
        assert(string_views(out@).to_multiset() =~= vstd::multiset::Multiset::<Seq<char>>::empty());
        assert(string_views(out@).to_multiset().add(string_views(rest@).to_multiset()) =~= input.to_multiset());
    }
    while rest.len() > 0
        invariant
            total_ordering(chars_order()),
            sorted_by(string_views(out@), chars_order()),
            string_views(out@).to_multiset().add(string_views(rest@).to_multiset()) == input.to_multiset(),
        decreases rest.len(),
    {
        let ghost before_rest = string_views(rest@);
        let ghost before_out = string_views(out@);
        let s = rest.pop().unwrap();
        let mut p: usize = 0;
        while p < out.len() && str_le(out[p].as_str(), s.as_str())
            invariant
                p <= out@.len(),
                forall|k: int| 0 <= k < p ==> chars_le(#[trigger] out@[k]@, s@),
            decreases out.len() - p,
        {
            p += 1;
        }
        proof {
            let o = string_views(out@);
            assert(before_out == o);
            assert(before_rest =~= string_views(rest@).push(s@));
            assert forall|k: int| p <= k < o.len() implies chars_le(s@, #[trigger] o[k]) by {
                lemma_le_total(s@, o[p as int]);
                if p < o.len() {
                    assert(!chars_le(o[p as int], s@));
                    if k > p {
                        assert(chars_order()(o[p as int], o[k]));
                        lemma_le_trans(s@, o[p as int], o[k]);
                    }
                }
            }
        }
        out.insert(p, s);
        proof {
            let o = before_out;
            let n = string_views(out@);
            assert(n =~= o.insert(p as int, s@));
            assert forall|i: int, j: int| 0 <= i < j < n.len() implies #[trigger] chars_order()(n[i], n[j]) by {
                if j < p {
                } else if i < p && j == p {
                } else if i < p && j > p {
                    lemma_le_trans(n[i], s@, n[j]);
                } else if i == p {
                } else {
                }
            }
            vstd::seq_lib::to_multiset_insert::<Seq<char>>(o, p as int, s@);
            let r = string_views(rest@);
            assert(r.push(s@) =~= r.insert(r.len() as int, s@));
            vstd::seq_lib::to_multiset_insert::<Seq<char>>(r, r.len() as int, s@);
            broadcast use vstd::multiset::group_multiset_axioms;
            assert(n.to_multiset().add(r.to_multiset()) =~= o.to_multiset().add(before_rest.to_multiset()));
        }
    }
    proof {
        let o = string_views(out@);
        assert(string_views(rest@) =~= Seq::<Seq<char>>::empty());
        assert(o.to_multiset() =~= input.to_multiset());
        input.lemma_sort_by_ensures(chars_order());
        vstd::seq_lib::lemma_sorted_unique(o, input.sort_by(chars_order()), chars_order());
    }
    out
}

} // verus!
