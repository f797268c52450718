//! HWPX (ZIP + XML) serialization helpers: the package graph of
//! `META-INF/container.rdf`, fields, package checks and the IR comparison.

pub mod context;
pub mod diff_laws;
pub mod field;
pub mod package_check;
pub mod picture;
pub mod rdf_laws;
pub mod shape;
pub mod table;
pub mod roundtrip;
pub mod vocab;
pub mod xml;

use crate::serializer::hwpx::context::BinDataEntry;
use crate::serializer::hwpx::package_check::names_contain;
use crate::text::{debug_str, debug_string, join_seq, join_strings, string_of, string_push_str, string_views};
use vstd::prelude::*;

verus! {

/// The namespace of the package vocabulary.
pub open spec fn pkg_ns() -> Seq<char> {
    "http://www.hancom.co.kr/hwpml/2016/meta/pkg#"@
}

/// The document part `href`: listed as a part of the package, then typed.
pub open spec fn rdf_part(href: Seq<char>, kind: Seq<char>) -> Seq<char> {
    "<rdf:Description rdf:about=\"\">"@ + "<ns0:hasPart xmlns:ns0=\""@ + pkg_ns()
        + "\" rdf:resource=\""@ + href + "\"/>"@ + "</rdf:Description>"@
        + "<rdf:Description rdf:about=\""@ + href + "\">"@ + "<rdf:type rdf:resource=\""@
        + pkg_ns() + kind + "\"/>"@ + "</rdf:Description>"@
}

/// The section parts, in order.
pub open spec fn rdf_sections(hrefs: Seq<Seq<char>>) -> Seq<char>
    decreases hrefs.len(),
{
    if hrefs.len() == 0 {
        Seq::empty()
    } else {
        rdf_sections(hrefs.drop_last()) + rdf_part(hrefs.last(), "SectionFile"@)
    }
}

/// The opening of the graph: the XML declaration and the root element.
pub open spec fn rdf_open() -> Seq<char> {
    "<?xml version=\"1.0\" encoding=\"UTF-8\" standalone=\"yes\" ?>"@
        + "<rdf:RDF xmlns:rdf=\"http://www.w3.org/1999/02/22-rdf-syntax-ns#\">"@
}

/// The close of the graph: the package typed as a document.
pub open spec fn rdf_close() -> Seq<char> {
    "<rdf:Description rdf:about=\"\">"@ + "<rdf:type rdf:resource=\""@ + pkg_ns()
        + "Document"@ + "\"/>"@ + "</rdf:Description>"@ + "</rdf:RDF>"@
}

/// The whole `container.rdf`: the header part, each section part, and the
/// document type.
pub open spec fn container_rdf(hrefs: Seq<Seq<char>>) -> Seq<char> {
    rdf_open() + rdf_part("Contents/header.xml"@, "HeaderFile"@) + rdf_sections(hrefs)
        + rdf_close()
}

fn push_rdf_part(out: &mut String, href: &str, kind: &str)
    ensures
        final(out)@ == old(out)@ + rdf_part(href@, kind@),
{
    let pkg = "http://www.hancom.co.kr/hwpml/2016/meta/pkg#";
    string_push_str(out, "<rdf:Description rdf:about=\"\">");
    string_push_str(out, "<ns0:hasPart xmlns:ns0=\"");
    string_push_str(out, pkg);
    string_push_str(out, "\" rdf:resource=\"");
    string_push_str(out, href);
    string_push_str(out, "\"/>");
    string_push_str(out, "</rdf:Description>");
    string_push_str(out, "<rdf:Description rdf:about=\"");
    string_push_str(out, href);
    string_push_str(out, "\">");
    string_push_str(out, "<rdf:type rdf:resource=\"");
    string_push_str(out, pkg);
    string_push_str(out, kind);
    string_push_str(out, "\"/>");
    string_push_str(out, "</rdf:Description>");
    proof {
        let o = old(out)@;
        assert(out@ =~= o + rdf_part(href@, kind@));
    }
}

/// The package graph `META-INF/container.rdf`: the header part and every
/// section part, each listed as a part of the package and typed.
pub fn write_container_rdf(section_hrefs: &[String]) -> (r: String)
    ensures
        r@ == container_rdf(string_views(section_hrefs@)),
{
    let mut out = String::new();
    string_push_str(&mut out, "<?xml version=\"1.0\" encoding=\"UTF-8\" standalone=\"yes\" ?>");
    string_push_str(&mut out, "<rdf:RDF xmlns:rdf=\"http://www.w3.org/1999/02/22-rdf-syntax-ns#\">");
    push_rdf_part(&mut out, "Contents/header.xml", "HeaderFile");
    let ghost views = string_views(section_hrefs@);
    let ghost head = rdf_open() + rdf_part("Contents/header.xml"@, "HeaderFile"@);
    assert(views.take(0) =~= Seq::<Seq<char>>::empty());
    assert(out@ =~= head + rdf_sections(views.take(0)));
    let mut i: usize = 0;
    while i < section_hrefs.len()
        invariant
            views == string_views(section_hrefs@),
            views.len() == section_hrefs@.len(),
            i <= section_hrefs@.len(),
            out@ == head + rdf_sections(views.take(i as int)),
        decreases section_hrefs@.len() - i,
    {
        push_rdf_part(&mut out, section_hrefs[i].as_str(), "SectionFile");
        proof {
            assert(views.take(i as int + 1).drop_last() =~= views.take(i as int));
            assert(views.take(i as int + 1).last() == section_hrefs@[i as int]@);
            assert(out@ =~= head + rdf_sections(views.take(i as int + 1)));
        }
        i += 1;
    }
    let pkg = "http://www.hancom.co.kr/hwpml/2016/meta/pkg#";
    let ghost mid = out@;
    string_push_str(&mut out, "<rdf:Description rdf:about=\"\">");
    string_push_str(&mut out, "<rdf:type rdf:resource=\"");
    string_push_str(&mut out, pkg);
    string_push_str(&mut out, "Document");
    string_push_str(&mut out, "\"/>");
    string_push_str(&mut out, "</rdf:Description>");
    string_push_str(&mut out, "</rdf:RDF>");
    proof {
        assert(views.take(views.len() as int) =~= views);
        assert(out@ =~= mid + rdf_close());
    }
    out
}

/// Why serializing a package failed.
#[derive(Debug)]
pub enum SerializeError {
    /// The XML could not be written as it must be; the text says why.
    XmlError(String),
}

/// The hrefs of the entries stored in the archive, in order.
pub open spec fn embedded_hrefs(es: Seq<BinDataEntry>) -> Seq<Seq<char>>
    decreases es.len(),
{
    if es.len() == 0 {
        Seq::empty()
    } else {
        embedded_hrefs(es.drop_last()) + if es.last().is_embedded {
            seq![es.last().href@]
        } else {
            Seq::empty()
        }
    }
}

/// The members of `xs` that `ys` lacks, each once, in the order they first occur.
pub open spec fn first_not_in(xs: Seq<Seq<char>>, ys: Seq<Seq<char>>) -> Seq<Seq<char>>
    decreases xs.len(),
{
    if xs.len() == 0 {
        Seq::empty()
    } else {
        let init = xs.drop_last();
        let x = xs.last();
        first_not_in(init, ys) + if !ys.contains(x) && !init.contains(x) {
            seq![x]
        } else {
            Seq::empty()
        }
    }
}

/// The `{:?}` rendering of a list of strings.
pub open spec fn debug_list(xs: Seq<Seq<char>>) -> Seq<char> {
    "["@ + join_seq(xs.map_values(|x: Seq<char>| debug_str(x)), ", "@) + "]"@
}

/// The message of a three-way mismatch: the hrefs found only in the
/// serializer's records, then those found only among the archive entries.
pub open spec fn bin_data_mismatch(ctx: Seq<Seq<char>>, zip: Seq<Seq<char>>) -> Seq<char> {
    "3-way BinData 불일치: ctx(href) vs zip_entries — ctx에만 있음: "@ + debug_list(
        first_not_in(ctx, zip),
    ) + ", zip에만 있음: "@ + debug_list(first_not_in(zip, ctx))
}

/// Two lists have the same members.
pub open spec fn same_members(a: Seq<Seq<char>>, b: Seq<Seq<char>>) -> bool {
    forall|x: Seq<char>| a.contains(x) <==> b.contains(x)
}

proof fn lemma_first_not_in_empty(xs: Seq<Seq<char>>, ys: Seq<Seq<char>>)
    ensures
        first_not_in(xs, ys).len() == 0 <==> forall|x: Seq<char>| xs.contains(x) ==> ys.contains(x),
    decreases xs.len(),
{
    if xs.len() > 0 {
        let init = xs.drop_last();
        let x = xs.last();
        lemma_first_not_in_empty(init, ys);
        assert forall|y: Seq<char>| xs.contains(y) implies init.contains(y) || y == x by {
            if xs.contains(y) {
                let k = choose|k: int| 0 <= k < xs.len() && xs[k] == y;
                if k < xs.len() - 1 {
                    assert(init[k] == y);
                }
            }
        }
        assert forall|y: Seq<char>| init.contains(y) implies xs.contains(y) by {
            if init.contains(y) {
                let k = choose|k: int| 0 <= k < init.len() && init[k] == y;
                assert(xs[k] == y);
            }
        }
        assert(xs.contains(x)) by {
            assert(xs[xs.len() - 1] == x);
        }
    }
}

fn contains_before(xs: &Vec<String>, n: usize, x: &str) -> (b: bool)
    requires
        n <= xs.len(),
    ensures
        b == string_views(xs@).take(n as int).contains(x@),
{
    let ghost v = string_views(xs@).take(n as int);
    let mut i: usize = 0;
    while i < n
        invariant
            n <= xs.len(),
            v == string_views(xs@).take(n as int),
            i <= n,
            forall|k: int| 0 <= k < i ==> v[k] != x@,
        decreases n - i,
    {
        if crate::serializer::hwpx::roundtrip::str_equal(xs[i].as_str(), x) {
            assert(v[i as int] == x@);
            return true;
        }
        i += 1;
    }
    false
}

fn first_not_in_exec(xs: &Vec<String>, ys: &Vec<String>) -> (r: Vec<String>)
    ensures
        string_views(r@) == first_not_in(string_views(xs@), string_views(ys@)),
{
    let ghost xv = string_views(xs@);
    let ghost yv = string_views(ys@);
    let mut r: Vec<String> = Vec::new();
    for i in 0..xs.len()
        invariant
            xv == string_views(xs@),
            yv == string_views(ys@),
            string_views(r@) == first_not_in(xv.take(i as int), yv),
    {
        let x = xs[i].as_str();
        proof {
            assert(xv.take(i + 1).drop_last() =~= xv.take(i as int));
            assert(xv.take(i + 1).last() == x@);
        }
        if !names_contain(ys, x) && !contains_before(xs, i, x) {
            let ghost before = string_views(r@);
            r.push(string_of(x));
            proof {
                assert(string_views(r@) =~= before.push(x@));
            }
        }
    }
    proof {
        assert(xv.take(xv.len() as int) =~= xv);
    }
    r
}

fn debug_list_exec(xs: &Vec<String>) -> (s: String)
    ensures
        s@ == debug_list(string_views(xs@)),
{
    let mut parts: Vec<String> = Vec::new();
    for i in 0..xs.len()
        invariant
            string_views(parts@) == string_views(xs@).take(i as int).map_values(
                |x: Seq<char>| debug_str(x),
            ),
    {
        let d = debug_string(xs[i].as_str());
        let ghost before = string_views(parts@);
        parts.push(d);
        proof {
            assert(string_views(parts@) =~= before.push(d@));
            assert(string_views(xs@).take(i + 1).map_values(|x: Seq<char>| debug_str(x))
                =~= string_views(xs@).take(i as int).map_values(|x: Seq<char>| debug_str(x)).push(
                debug_str(xs@[i as int]@),
            ));
        }
    }
    assert(string_views(xs@).take(xs@.len() as int) =~= string_views(xs@));
    let mut s = string_of("[");
    let inner = join_strings(&parts, ", ");
    string_push_str(&mut s, inner.as_str());
    string_push_str(&mut s, "]");
    s
}

/// Checks that the binary items the serializer stored in the archive and
/// the archive's entries are the same set of hrefs (external references,
/// which have no entry, are left out); otherwise says which hrefs only one
/// side has.
pub fn assert_bin_data_3way(bin_entries: &Vec<BinDataEntry>, zip_entries: &Vec<String>) -> (r:
    Result<(), SerializeError>)
    ensures
        r is Ok <==> same_members(embedded_hrefs(bin_entries@), string_views(zip_entries@)),
        r matches Err(SerializeError::XmlError(m)) ==> m@ == bin_data_mismatch(
            embedded_hrefs(bin_entries@),
            string_views(zip_entries@),
        ),
{
    let mut ctx: Vec<String> = Vec::new();
    for i in 0..bin_entries.len()
        invariant
            string_views(ctx@) == embedded_hrefs(bin_entries@.take(i as int)),
    {
        let e = &bin_entries[i];
        proof {
            assert(bin_entries@.take(i + 1).drop_last() =~= bin_entries@.take(i as int));
            assert(bin_entries@.take(i + 1).last() == *e);
        }
        if e.is_embedded {
            let ghost before = string_views(ctx@);
            ctx.push(e.href.clone());
            proof {
                assert(string_views(ctx@) =~= before.push(e.href@));
            }
        } else {
            assert(string_views(ctx@) =~= embedded_hrefs(bin_entries@.take(i + 1)));
        }
    }
    assert(bin_entries@.take(bin_entries@.len() as int) =~= bin_entries@);
    let ghost cv = string_views(ctx@);
    let ghost zv = string_views(zip_entries@);
    let missing = first_not_in_exec(&ctx, zip_entries);
    let orphan = first_not_in_exec(zip_entries, &ctx);
    proof {
        lemma_first_not_in_empty(cv, zv);
        lemma_first_not_in_empty(zv, cv);
    }
    if missing.len() == 0 && orphan.len() == 0 {
        return Ok(());
    }
    let mut m = string_of("3-way BinData 불일치: ctx(href) vs zip_entries — ctx에만 있음: ");
    let a = debug_list_exec(&missing);
    string_push_str(&mut m, a.as_str());
    string_push_str(&mut m, ", zip에만 있음: ");
    let b = debug_list_exec(&orphan);
    string_push_str(&mut m, b.as_str());
    Err(SerializeError::XmlError(m))
}

} // verus!
