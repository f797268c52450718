//! What the package writer puts in `META-INF/container.rdf` passes the
//! package check: the header and every section are named both as a resource
//! and as a described subject, and exactly as many section resources are
//! listed as the document has sections.

use crate::serializer::hwpx::package_check::{
    attr_pattern, rdf_from, rdf_names_part, rdf_problems, rdf_section_problems, section_entry_name,
    section_href, section_name_count,
};
use crate::serializer::sidecar_laws::lemma_decimal_digits;
use crate::text::decimal;
use crate::serializer::hwpx::{container_rdf, pkg_ns, rdf_close, rdf_open, rdf_part, rdf_sections};
use crate::text::{find_from, matches_at};
use vstd::prelude::*;

verus! {

/// The attribute that introduces a resource reference.
pub open spec fn res_pat() -> Seq<char> {
    "rdf:resource=\""@
}

/// No reference starts at a position in `[i, j)` of `x`.
pub open spec fn no_ref_in(x: Seq<char>, i: int, j: int) -> bool {
    forall|k: int| i <= k < j ==> !matches_at(x, res_pat(), k)
}

proof fn lemma_pat_facts()
    ensures
        res_pat().len() == 14,
        forall|m: int| 0 <= m < 14 ==> #[trigger] res_pat()[m] != '>',
        res_pat()[12] == '=',
        res_pat()[13] == '"',
{
    reveal_strlit("rdf:resource=\"");
}

/// Skipping positions where the pattern does not start leaves the search unchanged.
proof fn lemma_find_skip(x: Seq<char>, pat: Seq<char>, i: int, j: int)
    requires
        0 <= i <= j,
        forall|k: int| i <= k < j ==> !matches_at(x, pat, k),
    ensures
        find_from(x, pat, i) == find_from(x, pat, j),
    decreases j - i,
{
    if i < j && i + pat.len() <= x.len() {
        lemma_find_skip(x, pat, i + 1, j);
    }
}

/// Reading references from `i` or from `j` gives the same list when none starts in between.
proof fn lemma_refs_skip(x: Seq<char>, i: int, j: int)
    requires
        0 <= i <= j <= x.len(),
        no_ref_in(x, i, j),
    ensures
        rdf_from(x, i) == rdf_from(x, j),
{
    lemma_pat_facts();
    lemma_find_skip(x, res_pat(), i, j);
    crate::text::lemma_find_from(x, res_pat(), j);
    match find_from(x, res_pat(), j) {
        Some(p) => {
            crate::text::lemma_find_from(x, seq!['"'], p + 14);
        },
        None => {},
    }
}

/// A reference at `p` closed by the quote at `e` is the next item read from `i`.
proof fn lemma_refs_step(x: Seq<char>, i: int, p: int, e: int)
    requires
        0 <= i <= p,
        no_ref_in(x, i, p),
        matches_at(x, res_pat(), p),
        p + 14 <= e < x.len(),
        x[e] == '"',
        forall|k: int| p + 14 <= k < e ==> x[k] != '"',
    ensures
        rdf_from(x, i) == seq![x.subrange(p + 14, e)] + rdf_from(x, e + 1),
{
    lemma_pat_facts();
    lemma_find_skip(x, res_pat(), i, p);
    assert forall|k: int| p + 14 <= k < e implies !matches_at(x, seq!['"'], k) by {
        if matches_at(x, seq!['"'], k) {
            assert(x.subrange(k, k + 1)[0] == x[k]);
        }
    }
    lemma_find_skip(x, seq!['"'], p + 14, e);
    assert(x.subrange(e, e + 1) =~= seq!['"']);
}

/// A tag of `x` that ends in `>` and holds no reference starting in
/// `[lo, hi)` holds none there in `x` either.
proof fn lemma_tag_no_ref(x: Seq<char>, a: int, t: Seq<char>, lo: int, hi: int)
    requires
        0 <= a,
        a + t.len() <= x.len(),
        x.subrange(a, a + t.len()) == t,
        t.len() > 0,
        t.last() == '>',
        0 <= lo <= hi <= t.len(),
        forall|k: int| lo <= k < hi ==> !matches_at(t, res_pat(), k),
    ensures
        no_ref_in(x, a + lo, a + hi),
{
    lemma_pat_facts();
    assert forall|j: int| a + lo <= j < a + hi implies !matches_at(x, res_pat(), j) by {
        if matches_at(x, res_pat(), j) {
            if j + 14 <= a + t.len() {
                assert forall|m: int| 0 <= m < 14 implies #[trigger] t.subrange(j - a, j - a + 14)[m]
                    == x.subrange(j, j + 14)[m] by {
                    assert(x.subrange(a, a + t.len())[j - a + m] == x[j + m]);
                }
                assert(t.subrange(j - a, j - a + 14) =~= x.subrange(j, j + 14));
                assert(!matches_at(t, res_pat(), j - a));
            } else {
                let q = a + t.len() - 1;
                assert(x[q] == t.last()) by {
                    assert(x.subrange(a, a + t.len())[t.len() - 1] == x[q]);
                }
                assert(x.subrange(j, j + 14)[q - j] == x[q]);
                assert(res_pat()[q - j] != '>');
            }
        }
    }
}

/// A match puts all fourteen pattern characters in place.
proof fn lemma_match_chars(t: Seq<char>, j: int)
    requires
        matches_at(t, res_pat(), j),
    ensures
        t[j + 0] == res_pat()[0],
        t[j + 1] == res_pat()[1],
        t[j + 2] == res_pat()[2],
        t[j + 3] == res_pat()[3],
        t[j + 4] == res_pat()[4],
        t[j + 5] == res_pat()[5],
        t[j + 6] == res_pat()[6],
        t[j + 7] == res_pat()[7],
        t[j + 8] == res_pat()[8],
        t[j + 9] == res_pat()[9],
        t[j + 10] == res_pat()[10],
        t[j + 11] == res_pat()[11],
        t[j + 12] == res_pat()[12],
        t[j + 13] == res_pat()[13],
{
    lemma_pat_facts();
    assert(t.subrange(j, j + 14)[0] == t[j + 0]);
    assert(t.subrange(j, j + 14)[1] == t[j + 1]);
    assert(t.subrange(j, j + 14)[2] == t[j + 2]);
    assert(t.subrange(j, j + 14)[3] == t[j + 3]);
    assert(t.subrange(j, j + 14)[4] == t[j + 4]);
    assert(t.subrange(j, j + 14)[5] == t[j + 5]);
    assert(t.subrange(j, j + 14)[6] == t[j + 6]);
    assert(t.subrange(j, j + 14)[7] == t[j + 7]);
    assert(t.subrange(j, j + 14)[8] == t[j + 8]);
    assert(t.subrange(j, j + 14)[9] == t[j + 9]);
    assert(t.subrange(j, j + 14)[10] == t[j + 10]);
    assert(t.subrange(j, j + 14)[11] == t[j + 11]);
    assert(t.subrange(j, j + 14)[12] == t[j + 12]);
    assert(t.subrange(j, j + 14)[13] == t[j + 13]);
}

/// A value that can stand between the quotes of a reference: not empty, no
/// quote in it, and not ending in `=`.
pub open spec fn ref_value(v: Seq<char>) -> bool {
    v.len() > 0 && v.last() != '=' && forall|i: int| 0 <= i < v.len() ==> #[trigger] v[i] != '"'
}

/// A tag that ends in `>` and holds no reference.
pub open spec fn plain_tag(t: Seq<char>) -> bool {
    t.len() > 0 && t.last() == '>' && forall|k: int| !matches_at(t, res_pat(), k)
}

proof fn lemma_decl_plain()
    ensures
        plain_tag("<?xml version=\"1.0\" encoding=\"UTF-8\" standalone=\"yes\" ?>"@),
{
    reveal_strlit("<?xml version=\"1.0\" encoding=\"UTF-8\" standalone=\"yes\" ?>");
    let t = "<?xml version=\"1.0\" encoding=\"UTF-8\" standalone=\"yes\" ?>"@;
    assert forall|k: int| !matches_at(t, res_pat(), k) by {
        if matches_at(t, res_pat(), k) {
            reveal_strlit("rdf:resource=\"");
            lemma_match_chars(t, k);
        }
    }
}

proof fn lemma_root_plain()
    ensures
        plain_tag("<rdf:RDF xmlns:rdf=\"http://www.w3.org/1999/02/22-rdf-syntax-ns#\">"@),
{
    reveal_strlit("<rdf:RDF xmlns:rdf=\"http://www.w3.org/1999/02/22-rdf-syntax-ns#\">");
    let t = "<rdf:RDF xmlns:rdf=\"http://www.w3.org/1999/02/22-rdf-syntax-ns#\">"@;
    assert forall|k: int| !matches_at(t, res_pat(), k) by {
        if matches_at(t, res_pat(), k) {
            reveal_strlit("rdf:resource=\"");
            lemma_match_chars(t, k);
        }
    }
}

proof fn lemma_desc_open_plain()
    ensures
        plain_tag("<rdf:Description rdf:about=\"\">"@),
{
    reveal_strlit("<rdf:Description rdf:about=\"\">");
    let t = "<rdf:Description rdf:about=\"\">"@;
    assert forall|k: int| !matches_at(t, res_pat(), k) by {
        if matches_at(t, res_pat(), k) {
            reveal_strlit("rdf:resource=\"");
            lemma_match_chars(t, k);
        }
    }
}

proof fn lemma_desc_close_plain()
    ensures
        plain_tag("</rdf:Description>"@),
{
    reveal_strlit("</rdf:Description>");
    let t = "</rdf:Description>"@;
    assert forall|k: int| !matches_at(t, res_pat(), k) by {
        if matches_at(t, res_pat(), k) {
            reveal_strlit("rdf:resource=\"");
            lemma_match_chars(t, k);
        }
    }
}

proof fn lemma_rdf_end_plain()
    ensures
        plain_tag("</rdf:RDF>"@),
{
    reveal_strlit("</rdf:RDF>");
    let t = "</rdf:RDF>"@;
    assert forall|k: int| !matches_at(t, res_pat(), k) by {
        if matches_at(t, res_pat(), k) {
            reveal_strlit("rdf:resource=\"");
            lemma_match_chars(t, k);
        }
    }
}

/// `<ns0:hasPart .. rdf:resource="h"/>`: the tag that lists a part.
pub open spec fn has_part_tag(h: Seq<char>) -> Seq<char> {
    "<ns0:hasPart xmlns:ns0=\""@ + crate::serializer::hwpx::pkg_ns() + "\" rdf:resource=\""@ + h
        + "\"/>"@
}

proof fn lemma_has_part_tag(h: Seq<char>)
    requires
        ref_value(h),
    ensures
        has_part_tag(h).len() == 87 + h.len(),
        matches_at(has_part_tag(h), res_pat(), 70),
        forall|k: int| k != 70 ==> !matches_at(has_part_tag(h), res_pat(), k),
        has_part_tag(h).subrange(84, 84 + h.len() as int) == h,
        has_part_tag(h)[84 + h.len() as int] == '"',
        has_part_tag(h).last() == '>',
{
    reveal_strlit("rdf:resource=\"");
    reveal_strlit("<ns0:hasPart xmlns:ns0=\"");
    reveal_strlit("http://www.hancom.co.kr/hwpml/2016/meta/pkg#");
    reveal_strlit("\" rdf:resource=\"");
    reveal_strlit("\"/>");
    let a0 = "<ns0:hasPart xmlns:ns0=\""@;
    let ns = crate::serializer::hwpx::pkg_ns();
    let b = "\" rdf:resource=\""@;
    let c = "\"/>"@;
    let t = has_part_tag(h);
    assert(a0.len() == 24);
    assert(ns.len() == 44);
    assert(b.len() == 16);
    assert(t == a0 + ns + b + h + c);
    assert(t.subrange(70, 84) =~= res_pat());
    assert(t.subrange(84, 84 + h.len() as int) =~= h);
    assert forall|k: int| k != 70 implies !matches_at(t, res_pat(), k) by {
        if matches_at(t, res_pat(), k) {
            lemma_match_chars(t, k);
            let q = k + 13;
            if q < 24 {
                assert(t[q] == a0[q]);
                assert(t[q - 1] == a0[q - 1]);
                assert(t[q - 2] == a0[q - 2]);
            } else if q < 68 {
                assert(t[q] == ns[q - 24]);
            } else if q < 84 {
                assert(t[q] == b[q - 68]);
                assert(t[q - 1] == (if q - 1 < 68 { ns[q - 25] } else { b[q - 69] }));
            } else if q < 84 + h.len() {
                assert(t[q] == h[q - 84]);
            } else {
                assert(t[q] == c[q - 84 - h.len()]);
                assert(q == 84 + h.len() as int);
                assert(t[q - 1] == h[h.len() - 1]);
            }
        }
    }
}

/// `<rdf:Description rdf:about="h">`: the tag that opens a part's description.
pub open spec fn about_tag(h: Seq<char>) -> Seq<char> {
    "<rdf:Description rdf:about=\""@ + h + "\">"@
}

proof fn lemma_about_tag(h: Seq<char>)
    requires
        ref_value(h),
    ensures
        plain_tag(about_tag(h)),
{
    reveal_strlit("rdf:resource=\"");
    reveal_strlit("<rdf:Description rdf:about=\"");
    reveal_strlit("\">");
    let a0 = "<rdf:Description rdf:about=\""@;
    let c = "\">"@;
    let t = about_tag(h);
    assert(a0.len() == 28);
    assert forall|k: int| !matches_at(t, res_pat(), k) by {
        if matches_at(t, res_pat(), k) {
            lemma_match_chars(t, k);
            let q = k + 13;
            if q < 28 {
                assert(t[q] == a0[q]);
                assert(t[q - 1] == a0[q - 1]);
                assert(t[q - 2] == a0[q - 2]);
            } else if q < 28 + h.len() {
                assert(t[q] == h[q - 28]);
            } else {
                assert(t[q] == c[q - 28 - h.len()]);
                assert(q == 28 + h.len() as int);
                assert(t[q - 1] == h[h.len() - 1]);
            }
        }
    }
}

/// `<rdf:type rdf:resource="v"/>`: the tag that types a part.
pub open spec fn type_tag(v: Seq<char>) -> Seq<char> {
    "<rdf:type rdf:resource=\""@ + v + "\"/>"@
}

proof fn lemma_type_tag(v: Seq<char>)
    requires
        ref_value(v),
    ensures
        type_tag(v).len() == 27 + v.len(),
        matches_at(type_tag(v), res_pat(), 10),
        forall|k: int| k != 10 ==> !matches_at(type_tag(v), res_pat(), k),
        type_tag(v).subrange(24, 24 + v.len() as int) == v,
        type_tag(v)[24 + v.len() as int] == '"',
        type_tag(v).last() == '>',
{
    reveal_strlit("rdf:resource=\"");
    reveal_strlit("<rdf:type rdf:resource=\"");
    reveal_strlit("\"/>");
    let a0 = "<rdf:type rdf:resource=\""@;
    let c = "\"/>"@;
    let t = type_tag(v);
    assert(a0.len() == 24);
    assert(t.subrange(10, 24) =~= res_pat());
    assert(t.subrange(24, 24 + v.len() as int) =~= v);
    assert forall|k: int| k != 10 implies !matches_at(t, res_pat(), k) by {
        if matches_at(t, res_pat(), k) {
            lemma_match_chars(t, k);
            let q = k + 13;
            if q < 24 {
                assert(t[q] == a0[q]);
            } else if q < 24 + v.len() {
                assert(t[q] == v[q - 24]);
            } else {
                assert(t[q] == c[q - 24 - v.len()]);
                assert(q == 24 + v.len() as int);
                assert(t[q - 1] == v[v.len() - 1]);
            }
        }
    }
}

/// The namespace followed by a part kind is a reference value.
proof fn lemma_kind_value(kind: Seq<char>)
    requires
        ref_value(kind),
    ensures
        ref_value(crate::serializer::hwpx::pkg_ns() + kind),
{
    reveal_strlit("http://www.hancom.co.kr/hwpml/2016/meta/pkg#");
    let ns = crate::serializer::hwpx::pkg_ns();
    let v = ns + kind;
    assert(ns.len() == 44);
    assert(v.last() == kind.last());
    assert forall|i: int| 0 <= i < v.len() implies #[trigger] v[i] != '"' by {
        if i < 44 {
            assert(v[i] == ns[i]);
        } else {
            assert(v[i] == kind[i - 44]);
        }
    }
}

/// A piece of `x` at `a` holds, at `off`, the corresponding piece of itself.
proof fn lemma_sub(x: Seq<char>, a: int, s: Seq<char>, off: int, len: int)
    requires
        0 <= a,
        a + s.len() <= x.len(),
        x.subrange(a, a + s.len()) == s,
        0 <= off,
        0 <= len,
        off + len <= s.len(),
    ensures
        x.subrange(a + off, a + off + len) == s.subrange(off, off + len),
{
    assert forall|m: int| 0 <= m < len implies #[trigger] x.subrange(a + off, a + off + len)[m]
        == s.subrange(off, off + len)[m] by {
        assert(x.subrange(a, a + s.len())[off + m] == x[a + off + m]);
    }
    assert(x.subrange(a + off, a + off + len) =~= s.subrange(off, off + len));
}

/// A reference found in a tag of `x` is found in `x`, with its value and
/// closing quote in place.
proof fn lemma_tag_ref(x: Seq<char>, a: int, t: Seq<char>, p: int, v: Seq<char>)
    requires
        0 <= a,
        a + t.len() <= x.len(),
        x.subrange(a, a + t.len()) == t,
        matches_at(t, res_pat(), p),
        t.subrange(p + 14, p + 14 + v.len()) == v,
        p + 14 + v.len() < t.len(),
        t[p + 14 + v.len()] == '"',
        ref_value(v),
    ensures
        matches_at(x, res_pat(), a + p),
        x.subrange(a + p + 14, a + p + 14 + v.len()) == v,
        x[a + p + 14 + v.len()] == '"',
        forall|k: int| a + p + 14 <= k < a + p + 14 + v.len() ==> x[k] != '"',
{
    lemma_pat_facts();
    lemma_sub(x, a, t, p, 14);
    lemma_sub(x, a, t, p + 14, v.len() as int);
    assert(x.subrange(a, a + t.len())[p + 14 + v.len()] == x[a + p + 14 + v.len()]);
    assert forall|k: int| a + p + 14 <= k < a + p + 14 + v.len() implies x[k] != '"' by {
        assert(x.subrange(a + p + 14, a + p + 14 + v.len())[k - a - p - 14] == x[k]);
    }
}

/// The pieces of a part: description open, the listing tag, description
/// close, the typed description open, the type tag, description close.
pub open spec fn part_pieces(h: Seq<char>, kind: Seq<char>) -> Seq<Seq<char>> {
    seq![
        "<rdf:Description rdf:about=\"\">"@,
        has_part_tag(h),
        "</rdf:Description>"@,
        about_tag(h),
        type_tag(pkg_ns() + kind),
        "</rdf:Description>"@,
    ]
}

proof fn lemma_part_pieces(h: Seq<char>, kind: Seq<char>)
    ensures
        rdf_part(h, kind) == part_pieces(h, kind)[0] + part_pieces(h, kind)[1] + part_pieces(
            h,
            kind,
        )[2] + part_pieces(h, kind)[3] + part_pieces(h, kind)[4] + part_pieces(h, kind)[5],
{
    let ps = part_pieces(h, kind);
    assert(rdf_part(h, kind) =~= ps[0] + ps[1] + ps[2] + ps[3] + ps[4] + ps[5]);
}

/// The two halves of a piece of `x` are in place.
proof fn lemma_split(x: Seq<char>, a: int, u: Seq<char>, w: Seq<char>)
    requires
        0 <= a,
        a + u.len() + w.len() <= x.len(),
        x.subrange(a, a + u.len() + w.len()) == u + w,
    ensures
        x.subrange(a, a + u.len()) == u,
        x.subrange(a + u.len(), a + u.len() + w.len()) == w,
{
    assert((u + w).subrange(0, u.len() as int) =~= u);
    assert((u + w).subrange(u.len() as int, (u.len() + w.len()) as int) =~= w);
    lemma_sub(x, a, u + w, 0, u.len() as int);
    lemma_sub(x, a, u + w, u.len() as int, w.len() as int);
}

/// Reading from a description open followed by the listing tag of `h`.
proof fn lemma_href_half(x: Seq<char>, a: int, h: Seq<char>)
    requires
        ref_value(h),
        0 <= a,
        a + "<rdf:Description rdf:about=\"\">"@.len() + has_part_tag(h).len() <= x.len(),
        x.subrange(a, a + "<rdf:Description rdf:about=\"\">"@.len())
            == "<rdf:Description rdf:about=\"\">"@,
        x.subrange(
            a + "<rdf:Description rdf:about=\"\">"@.len(),
            a + "<rdf:Description rdf:about=\"\">"@.len() + has_part_tag(h).len(),
        ) == has_part_tag(h),
    ensures
        rdf_from(x, a) == seq![h] + rdf_from(
            x,
            a + "<rdf:Description rdf:about=\"\">"@.len() + 85 + h.len(),
        ),
        no_ref_in(
            x,
            a + "<rdf:Description rdf:about=\"\">"@.len() + 85 + h.len(),
            a + "<rdf:Description rdf:about=\"\">"@.len() + has_part_tag(h).len(),
        ),
{
    let d = "<rdf:Description rdf:about=\"\">"@;
    let t = has_part_tag(h);
    let p1 = a + d.len();
    lemma_desc_open_plain();
    lemma_has_part_tag(h);
    lemma_tag_no_ref(x, a, d, 0, d.len() as int);
    lemma_tag_no_ref(x, p1, t, 0, 70);
    lemma_tag_ref(x, p1, t, 70, h);
    lemma_refs_step(x, a, p1 + 70, p1 + 84 + h.len());
    lemma_tag_no_ref(x, p1, t, 85 + h.len() as int, t.len() as int);
}

/// Reading, with no reference before it, up to and over the type tag of `v`.
proof fn lemma_type_half(x: Seq<char>, i: int, b: int, v: Seq<char>)
    requires
        ref_value(v),
        0 <= i <= b,
        b + type_tag(v).len() <= x.len(),
        x.subrange(b, b + type_tag(v).len()) == type_tag(v),
        no_ref_in(x, i, b),
    ensures
        rdf_from(x, i) == seq![v] + rdf_from(x, b + 25 + v.len()),
        no_ref_in(x, b + 25 + v.len(), b + type_tag(v).len()),
{
    let t = type_tag(v);
    lemma_type_tag(v);
    lemma_tag_no_ref(x, b, t, 0, 10);
    lemma_tag_ref(x, b, t, 10, v);
    lemma_refs_step(x, i, b + 10, b + 24 + v.len());
    lemma_tag_no_ref(x, b, t, 25 + v.len() as int, t.len() as int);
}

/// The references of one written part: its href, then its type.
#[verifier::spinoff_prover]
proof fn lemma_part_refs(x: Seq<char>, a: int, h: Seq<char>, kind: Seq<char>)
    requires
        ref_value(h),
        ref_value(kind),
        0 <= a,
        a + rdf_part(h, kind).len() <= x.len(),
        x.subrange(a, a + rdf_part(h, kind).len()) == rdf_part(h, kind),
    ensures
        rdf_from(x, a) == seq![h, pkg_ns() + kind] + rdf_from(x, a + rdf_part(h, kind).len()),
{
    let ps = part_pieces(h, kind);
    let v = pkg_ns() + kind;
    lemma_part_pieces(h, kind);
    lemma_kind_value(kind);
    lemma_has_part_tag(h);
    lemma_type_tag(v);
    let q1 = ps[0] + ps[1];
    let q2 = q1 + ps[2];
    let q3 = q2 + ps[3];
    let q4 = q3 + ps[4];
    lemma_split(x, a, q4, ps[5]);
    lemma_split(x, a, q3, ps[4]);
    lemma_split(x, a, q2, ps[3]);
    lemma_split(x, a, q1, ps[2]);
    lemma_split(x, a, ps[0], ps[1]);
    lemma_href_half(x, a, h);
    let e1 = a + ps[0].len() + 85 + h.len();
    lemma_desc_close_plain();
    lemma_about_tag(h);
    lemma_tag_no_ref(x, a + q1.len(), ps[2], 0, ps[2].len() as int);
    lemma_tag_no_ref(x, a + q2.len(), ps[3], 0, ps[3].len() as int);
    assert(no_ref_in(x, e1, a + q3.len()));
    lemma_type_half(x, e1, a + q3.len(), v);
    let e2 = a + q3.len() + 25 + v.len();
    lemma_tag_no_ref(x, a + q4.len(), ps[5], 0, ps[5].len() as int);
    lemma_refs_skip(x, e2, a + q4.len() + ps[5].len());
    assert(seq![h] + (seq![v] + rdf_from(x, a + rdf_part(h, kind).len())) =~= seq![h, v]
        + rdf_from(x, a + rdf_part(h, kind).len()));
}
/// A pattern found at a position makes the text contain it.
proof fn lemma_contains_at(x: Seq<char>, pat: Seq<char>, p: int)
    requires
        0 <= p,
        matches_at(x, pat, p),
    ensures
        crate::text::contains_seq(x, pat),
{
    crate::text::lemma_find_from(x, pat, 0);
}

/// A written part names its href both as a resource and as a subject.
#[verifier::spinoff_prover]
proof fn lemma_part_names(x: Seq<char>, a: int, h: Seq<char>, kind: Seq<char>)
    requires
        ref_value(h),
        0 <= a,
        a + rdf_part(h, kind).len() <= x.len(),
        x.subrange(a, a + rdf_part(h, kind).len()) == rdf_part(h, kind),
    ensures
        rdf_names_part(x, h),
{
    reveal_strlit("\" rdf:resource=\"");
    reveal_strlit("rdf:resource=\"");
    reveal_strlit("<rdf:Description rdf:about=\"");
    reveal_strlit("rdf:about=\"");
    reveal_strlit("<rdf:Description rdf:about=\"\">");
    reveal_strlit("\"/>");
    reveal_strlit("\">");
    reveal_strlit("\"");
    let ps = part_pieces(h, kind);
    lemma_part_pieces(h, kind);
    lemma_has_part_tag(h);
    let q1 = ps[0] + ps[1];
    let q2 = q1 + ps[2];
    let q3 = q2 + ps[3];
    let q4 = q3 + ps[4];
    lemma_split(x, a, q4, ps[5]);
    lemma_split(x, a, q3, ps[4]);
    lemma_split(x, a, q2, ps[3]);
    lemma_split(x, a, q1, ps[2]);
    lemma_split(x, a, ps[0], ps[1]);
    let r = attr_pattern("rdf:resource=\""@, h);
    let b = attr_pattern("rdf:about=\""@, h);
    assert(r.len() == 15 + h.len());
    assert(ps[1].subrange(70, 85 + h.len() as int) =~= r);
    lemma_sub(x, a + ps[0].len(), ps[1], 70, r.len() as int);
    lemma_contains_at(x, r, a + ps[0].len() + 70);
    assert(ps[3].len() == 30 + h.len());
    assert(ps[3].subrange(17, 29 + h.len() as int) =~= b);
    lemma_sub(x, a + q2.len(), ps[3], 17, b.len() as int);
    lemma_contains_at(x, b, a + q2.len() + 17);
}

/// The references the section parts carry: each href, then the section type.
pub open spec fn section_refs(hrefs: Seq<Seq<char>>) -> Seq<Seq<char>>
    decreases hrefs.len(),
{
    if hrefs.len() == 0 {
        Seq::empty()
    } else {
        section_refs(hrefs.drop_last()) + seq![hrefs.last(), pkg_ns() + "SectionFile"@]
    }
}

proof fn lemma_sections_refs(x: Seq<char>, a: int, hrefs: Seq<Seq<char>>)
    requires
        forall|i: int| 0 <= i < hrefs.len() ==> ref_value(#[trigger] hrefs[i]),
        ref_value("SectionFile"@),
        0 <= a,
        a + rdf_sections(hrefs).len() <= x.len(),
        x.subrange(a, a + rdf_sections(hrefs).len()) == rdf_sections(hrefs),
    ensures
        rdf_from(x, a) == section_refs(hrefs) + rdf_from(x, a + rdf_sections(hrefs).len()),
        forall|i: int| 0 <= i < hrefs.len() ==> rdf_names_part(x, #[trigger] hrefs[i]),
    decreases hrefs.len(),
{
    if hrefs.len() == 0 {
        assert(section_refs(hrefs) + rdf_from(x, a) =~= rdf_from(x, a));
    } else {
        let init = hrefs.drop_last();
        let h = hrefs.last();
        let s0 = rdf_sections(init);
        let part = rdf_part(h, "SectionFile"@);
        lemma_split(x, a, s0, part);
        assert forall|i: int| 0 <= i < init.len() implies ref_value(#[trigger] init[i]) by {
            assert(init[i] == hrefs[i]);
        }
        lemma_sections_refs(x, a, init);
        assert(ref_value(hrefs[hrefs.len() - 1]));
        lemma_part_refs(x, a + s0.len(), h, "SectionFile"@);
        lemma_part_names(x, a + s0.len(), h, "SectionFile"@);
        let rest = rdf_from(x, a + rdf_sections(hrefs).len());
        assert(section_refs(init) + (seq![h, pkg_ns() + "SectionFile"@] + rest) =~= section_refs(
            hrefs,
        ) + rest);
        assert forall|i: int| 0 <= i < hrefs.len() implies rdf_names_part(x, #[trigger] hrefs[i]) by {
            if i < init.len() {
                assert(init[i] == hrefs[i]);
            }
        }
    }
}

/// The part kinds and the header href are reference values.
proof fn lemma_fixed_values()
    ensures
        ref_value("HeaderFile"@),
        ref_value("SectionFile"@),
        ref_value("Document"@),
        ref_value("Contents/header.xml"@),
{
    reveal_strlit("HeaderFile");
    reveal_strlit("SectionFile");
    reveal_strlit("Document");
    reveal_strlit("Contents/header.xml");
}

/// All references of a written graph: the header and its type, the
/// section references, then the document type.
pub open spec fn graph_refs(hrefs: Seq<Seq<char>>) -> Seq<Seq<char>> {
    seq!["Contents/header.xml"@, pkg_ns() + "HeaderFile"@] + section_refs(hrefs) + seq![
        pkg_ns() + "Document"@,
    ]
}

/// The opening of a graph holds no reference.
proof fn lemma_open_skip(x: Seq<char>)
    requires
        rdf_open().len() <= x.len(),
        x.subrange(0, rdf_open().len() as int) == rdf_open(),
    ensures
        rdf_from(x, 0) == rdf_from(x, rdf_open().len() as int),
{
    let d = "<?xml version=\"1.0\" encoding=\"UTF-8\" standalone=\"yes\" ?>"@;
    let r = "<rdf:RDF xmlns:rdf=\"http://www.w3.org/1999/02/22-rdf-syntax-ns#\">"@;
    assert(rdf_open() == d + r);
    lemma_split(x, 0, d, r);
    lemma_decl_plain();
    lemma_root_plain();
    lemma_tag_no_ref(x, 0, d, 0, d.len() as int);
    lemma_tag_no_ref(x, d.len() as int, r, 0, r.len() as int);
    lemma_refs_skip(x, 0, rdf_open().len() as int);
}

/// The close of a graph, at the end of the text, holds the document type.
#[verifier::spinoff_prover]
proof fn lemma_close_refs(x: Seq<char>, b: int)
    requires
        0 <= b,
        b + rdf_close().len() == x.len(),
        x.subrange(b, x.len() as int) == rdf_close(),
    ensures
        rdf_from(x, b) == seq![pkg_ns() + "Document"@],
{
    let c = rdf_close();
    let dopen = "<rdf:Description rdf:about=\"\">"@;
    let v = pkg_ns() + "Document"@;
    let ty = type_tag(v);
    let dclose = "</rdf:Description>"@;
    let rend = "</rdf:RDF>"@;
    assert(c =~= dopen + ty + dclose + rend);
    lemma_split(x, b, dopen + ty + dclose, rend);
    lemma_split(x, b, dopen + ty, dclose);
    lemma_split(x, b, dopen, ty);
    lemma_desc_open_plain();
    lemma_desc_close_plain();
    lemma_rdf_end_plain();
    lemma_fixed_values();
    lemma_kind_value("Document"@);
    lemma_type_tag(v);
    lemma_tag_no_ref(x, b, dopen, 0, dopen.len() as int);
    lemma_type_half(x, b, b + dopen.len(), v);
    let e = b + dopen.len() + 25 + v.len();
    lemma_tag_no_ref(x, b + (dopen + ty).len(), dclose, 0, dclose.len() as int);
    lemma_tag_no_ref(x, b + (dopen + ty + dclose).len(), rend, 0, rend.len() as int);
    lemma_refs_skip(x, e, x.len() as int);
    lemma_pat_facts();
    assert(seq![v] + rdf_from(x, x.len() as int) =~= seq![v]);
}

#[verifier::spinoff_prover]
proof fn lemma_graph_refs(hrefs: Seq<Seq<char>>)
    requires
        forall|i: int| 0 <= i < hrefs.len() ==> ref_value(#[trigger] hrefs[i]),
    ensures
        rdf_from(container_rdf(hrefs), 0) == graph_refs(hrefs),
        rdf_names_part(container_rdf(hrefs), "Contents/header.xml"@),
        forall|i: int|
            0 <= i < hrefs.len() ==> rdf_names_part(container_rdf(hrefs), #[trigger] hrefs[i]),
{
    let x = container_rdf(hrefs);
    let o = rdf_open();
    let hp = rdf_part("Contents/header.xml"@, "HeaderFile"@);
    let ss = rdf_sections(hrefs);
    let c = rdf_close();
    lemma_fixed_values();
    assert(x.subrange(0, x.len() as int) =~= x);
    lemma_split(x, 0, o + hp + ss, c);
    lemma_split(x, 0, o + hp, ss);
    lemma_split(x, 0, o, hp);
    lemma_open_skip(x);
    lemma_part_refs(x, o.len() as int, "Contents/header.xml"@, "HeaderFile"@);
    lemma_part_names(x, o.len() as int, "Contents/header.xml"@, "HeaderFile"@);
    lemma_sections_refs(x, (o + hp).len() as int, hrefs);
    lemma_close_refs(x, (o + hp + ss).len() as int);
    let hr = seq!["Contents/header.xml"@, pkg_ns() + "HeaderFile"@];
    let v = pkg_ns() + "Document"@;
    assert(hr + (section_refs(hrefs) + seq![v]) =~= graph_refs(hrefs));
}
/// The hrefs of the first `n` section parts, as the package writer names them.
pub open spec fn section_hrefs(n: nat) -> Seq<Seq<char>> {
    Seq::new(n, |i: int| section_href(i as nat))
}

proof fn lemma_section_href(k: nat)
    ensures
        ref_value(section_href(k)),
        section_entry_name(section_href(k)),
{
    reveal_strlit("Contents/section");
    reveal_strlit(".xml");
    let p = "Contents/section"@;
    let dg = decimal(k);
    let h = section_href(k);
    lemma_decimal_digits(k);
    assert(h.len() == 20 + dg.len());
    assert(h.take(16) =~= p);
    assert(h.skip(h.len() - 4) =~= ".xml"@);
    assert forall|i: int| 0 <= i < h.len() implies #[trigger] h[i] != '"' by {
        if 16 <= i < 16 + dg.len() {
            assert(h[i] == dg[i - 16]);
        }
    }
    assert forall|i: int| 16 <= i < h.len() - 4 implies crate::serializer::hwpx::package_check::ascii_digit(
        #[trigger] h[i],
    ) by {
        assert(h[i] == dg[i - 16]);
    }
}

proof fn lemma_other_names(kind: Seq<char>)
    ensures
        !section_entry_name("Contents/header.xml"@),
        !section_entry_name(pkg_ns() + kind),
{
    reveal_strlit("Contents/section");
    reveal_strlit("Contents/header.xml");
    reveal_strlit("http://www.hancom.co.kr/hwpml/2016/meta/pkg#");
    let p = "Contents/section"@;
    let hd = "Contents/header.xml"@;
    if section_entry_name(hd) {
        assert(hd.take(16)[9] == p[9]);
    }
    let v = pkg_ns() + kind;
    if section_entry_name(v) {
        assert(v.take(16)[0] == p[0]);
    }
}

proof fn lemma_count_concat(a: Seq<Seq<char>>, b: Seq<Seq<char>>)
    ensures
        section_name_count(a + b) == section_name_count(a) + section_name_count(b),
    decreases b.len(),
{
    if b.len() == 0 {
        assert(a + b =~= a);
    } else {
        assert((a + b).drop_last() =~= a + b.drop_last());
        lemma_count_concat(a, b.drop_last());
    }
}

proof fn lemma_section_refs_count(n: nat)
    ensures
        section_name_count(section_refs(section_hrefs(n))) == n,
    decreases n,
{
    if n > 0 {
        let hs = section_hrefs(n);
        assert(hs.drop_last() =~= section_hrefs((n - 1) as nat));
        lemma_section_refs_count((n - 1) as nat);
        let pair = seq![hs.last(), pkg_ns() + "SectionFile"@];
        lemma_count_concat(section_refs(hs.drop_last()), pair);
        lemma_section_href((n - 1) as nat);
        lemma_other_names("SectionFile"@);
        assert(hs.last() == section_href((n - 1) as nat));
        assert(pair.drop_last() =~= seq![hs.last()]);
        assert(seq![hs.last()].drop_last() =~= Seq::<Seq<char>>::empty());
        reveal_with_fuel(section_name_count, 3);
        assert(section_name_count(seq![hs.last()]) == 1);
        assert(section_name_count(pair) == 1);
        assert(section_refs(hs) == section_refs(hs.drop_last()) + pair);
    }
}

proof fn lemma_no_section_problems(x: Seq<char>, n: int)
    requires
        0 <= n,
        forall|k: int| 0 <= k < n ==> rdf_names_part(x, #[trigger] section_href(k as nat)),
    ensures
        rdf_section_problems(x, n) == Seq::<Seq<char>>::empty(),
    decreases n,
{
    if n > 0 {
        lemma_no_section_problems(x, n - 1);
        assert(rdf_names_part(x, section_href((n - 1) as nat)));
    }
}

/// The `container.rdf` the package writer produces for the sections of a
/// document passes the package check for that document: the header and
/// every section are named as a resource and as a subject, and it lists
/// exactly as many section resources as the document has sections.
pub proof fn law_written_graph_passes_check(n: nat)
    ensures
        rdf_problems(container_rdf(section_hrefs(n)), n) == Seq::<Seq<char>>::empty(),
{
    let hs = section_hrefs(n);
    let x = container_rdf(hs);
    assert forall|i: int| 0 <= i < hs.len() implies ref_value(#[trigger] hs[i]) by {
        lemma_section_href(i as nat);
    }
    lemma_graph_refs(hs);
    assert forall|k: int| 0 <= k < n implies rdf_names_part(x, #[trigger] section_href(k as nat)) by {
        assert(hs[k] == section_href(k as nat));
    }
    lemma_no_section_problems(x, n as int);
    let hr = seq!["Contents/header.xml"@, pkg_ns() + "HeaderFile"@];
    let tail = seq![pkg_ns() + "Document"@];
    lemma_count_concat(hr + section_refs(hs), tail);
    lemma_count_concat(hr, section_refs(hs));
    lemma_section_refs_count(n);
    lemma_other_names("HeaderFile"@);
    lemma_other_names("Document"@);
    assert(hr.drop_last() =~= seq!["Contents/header.xml"@]);
    assert(seq!["Contents/header.xml"@].drop_last() =~= Seq::<Seq<char>>::empty());
    assert(tail.drop_last() =~= Seq::<Seq<char>>::empty());
    reveal_with_fuel(section_name_count, 3);
    assert(section_name_count(seq!["Contents/header.xml"@]) == 0);
    assert(section_name_count(hr) == 0);
    assert(section_name_count(tail) == 0);
    assert(rdf_from(x, 0) == hr + section_refs(hs) + tail);
    assert(section_name_count(rdf_from(x, 0)) == n);
    assert(Seq::<Seq<char>>::empty() + Seq::<Seq<char>>::empty() + Seq::<Seq<char>>::empty()
        =~= Seq::<Seq<char>>::empty());
}

} // verus!
