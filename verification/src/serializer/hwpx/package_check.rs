//! Structural checks of a re-assembled HWPX package: the report of problems
//! found, the entry-name rules, and the scans of `content.hpf` and
//! `META-INF/container.rdf`.

use crate::model::document::{BinDataContent, Document, Section};
use crate::text_order::{chars_order, sort_strings};
use crate::text::{
    chars_range, chars_string, contains_chars, contains_seq, debug_str, debug_string, decimal,
    decimal_string, find_chars, find_from, join_seq, join_strings, matches_at, opt_view, push_decimal, starts_with_chars, str_chars, string_of, string_push,
    string_push_str, string_views,
};
use std::io::Read;
use vstd::prelude::*;

verus! {

/// The problems found in a package, in the order they were found.
pub struct PackageCheckReport {
    pub problems: Vec<String>,
}

impl PackageCheckReport {
    /// An empty report.
    pub fn new() -> (r: Self)
        ensures
            r.problems@.len() == 0,
    {
        PackageCheckReport { problems: Vec::new() }
    }

    /// No problem was found.
    pub fn is_ok(&self) -> (r: bool)
        ensures
            r == (self.problems@.len() == 0),
    {
        self.problems.len() == 0
    }

    /// The problems joined with `; `.
    pub fn summary(&self) -> (r: String)
        ensures
            r@ == join_seq(string_views(self.problems@), "; "@),
    {
        join_strings(&self.problems, "; ")
    }

    fn push(&mut self, problem: String)
        ensures
            final(self).problems@ == old(self).problems@.push(problem),
    {
        self.problems.push(problem);
    }
}

/// `c` is an ASCII digit.
pub open spec fn ascii_digit(c: char) -> bool {
    '0' <= c <= '9'
}

/// `name` is `prefix`, one or more ASCII digits, then `.xml`.
pub open spec fn numbered_xml(name: Seq<char>, prefix: Seq<char>) -> bool {
    &&& name.len() > prefix.len() + 4
    &&& name.take(prefix.len() as int) == prefix
    &&& name.skip(name.len() - 4) == ".xml"@
    &&& forall|i: int| prefix.len() <= i < name.len() - 4 ==> ascii_digit(#[trigger] name[i])
}

fn is_numbered_xml(name: &str, prefix: &str) -> (b: bool)
    ensures
        b == numbered_xml(name@, prefix@),
{
    let n = str_chars(name);
    let p = str_chars(prefix);
    let suffix = str_chars(".xml");
    proof {
        reveal_strlit(".xml");
    }
    if n.len() < p.len() || n.len() - p.len() <= 4 {
        return false;
    }
    let mut k: usize = 0;
    while k < p.len()
        invariant
            n@ == name@,
            p@ == prefix@,
            p@.len() <= n@.len(),
            k <= p@.len(),
            forall|m: int| 0 <= m < k ==> n@[m] == p@[m],
        decreases p.len() - k,
    {
        if n[k] != p[k] {
            assert(n@.take(p@.len() as int)[k as int] != p@[k as int]);
            return false;
        }
        k += 1;
    }
    assert(n@.take(p@.len() as int) =~= p@);
    let start = n.len() - 4;
    let mut j: usize = 0;
    while j < 4
        invariant
            n@ == name@,
            suffix@ == ".xml"@,
            suffix@.len() == 4,
            start == n@.len() - 4,
            start + 4 == n.len(),
            j <= 4,
            forall|m: int| 0 <= m < j ==> n@[start + m] == suffix@[m],
        decreases 4 - j,
    {
        if n[start + j] != suffix[j] {
            assert(n@.skip(start as int)[j as int] != suffix@[j as int]);
            return false;
        }
        j += 1;
    }
    assert(n@.skip(start as int) =~= suffix@);
    let mut i = p.len();
    while i < start
        invariant
            n@ == name@,
            p@ == prefix@,
            p@.len() <= i <= start,
            start == n@.len() - 4,
            forall|m: int| p@.len() <= m < i ==> ascii_digit(#[trigger] n@[m]),
        decreases start - i,
    {
        if !('0' <= n[i] && n[i] <= '9') {
            return false;
        }
        i += 1;
    }
    true
}

/// `Contents/section{N}.xml`.
pub open spec fn section_entry_name(name: Seq<char>) -> bool {
    numbered_xml(name, "Contents/section"@)
}

/// `Contents/masterpage{N}.xml`.
pub open spec fn master_page_entry_name(name: Seq<char>) -> bool {
    numbered_xml(name, "Contents/masterpage"@)
}

pub fn is_section_entry_name(name: &str) -> (b: bool)
    ensures
        b == section_entry_name(name@),
{
    is_numbered_xml(name, "Contents/section")
}

pub fn is_master_page_entry_name(name: &str) -> (b: bool)
    ensures
        b == master_page_entry_name(name@),
{
    is_numbered_xml(name, "Contents/masterpage")
}

/// The index of the first `c` at or after `i`.
pub open spec fn find_char(s: Seq<char>, c: char, i: int) -> Option<int> {
    find_from(s, seq![c], i)
}

/// The `href="..."` value of one tag, unless the tag marks a non-embedded item.
pub open spec fn tag_href(tag: Seq<char>) -> Option<Seq<char>> {
    if contains_seq(tag, "isEmbeded=\"0\""@) {
        None
    } else {
        match find_from(tag, "href=\""@, 0) {
            Some(h) => match find_char(tag, '"', h + 6) {
                Some(e) => Some(tag.subrange(h + 6, e)),
                None => None,
            },
            None => None,
        }
    }
}

/// The `href` values of the tags from position `i` on: each `<...>` is
/// scanned, and the scan stops at a `<` that is never closed.
pub open spec fn hrefs_from(s: Seq<char>, i: int) -> Seq<Seq<char>>
    decreases s.len() - i,
{
    if i < 0 || i > s.len() {
        Seq::empty()
    } else {
        match find_char(s, '<', i) {
            None => Seq::empty(),
            Some(p) => match find_char(s, '>', p + 1) {
                None => Seq::empty(),
                Some(e) => {
                    let rest = if i < e + 1 <= s.len() {
                        hrefs_from(s, e + 1)
                    } else {
                        Seq::empty()
                    };
                    match tag_href(s.subrange(p + 1, e)) {
                        Some(h) => seq![h] + rest,
                        None => rest,
                    }
                },
            },
        }
    }
}

fn char_vec(c: char) -> (v: Vec<char>)
    ensures
        v@ == seq![c],
{
    let mut v = Vec::new();
    v.push(c);
    assert(v@ =~= seq![c]);
    v
}

fn tag_href_exec(tag: &[char]) -> (r: Option<String>)
    ensures
        match r {
            Some(h) => tag_href(tag@) == Some(h@),
            None => tag_href(tag@) is None,
        },
{
    let marker = str_chars("isEmbeded=\"0\"");
    if contains_chars(tag, marker.as_slice()) {
        return None;
    }
    let pat = str_chars("href=\"");
    proof {
        reveal_strlit("href=\"");
    }
    let found = find_chars(tag, pat.as_slice(), 0);
    if found.is_none() {
        return None;
    }
    let h = found.unwrap();
    assert(tag@.len() == tag.len());
    let q = char_vec('"');
    let end = find_chars(tag, q.as_slice(), h + 6);
    match end {
        Some(e) => {
            let v = chars_range(tag, h + 6, e);
            Some(chars_string(v.as_slice()))
        },
        None => None,
    }
}

/// Scans `content.hpf` for the `href` values of its tags, skipping items
/// marked as not embedded.
pub fn extract_hrefs(xml: &str) -> (v: Vec<String>)
    ensures
        string_views(v@) == hrefs_from(xml@, 0),
{
    let s = str_chars(xml);
    let lt = char_vec('<');
    let gt = char_vec('>');
    let mut out: Vec<String> = Vec::new();
    let mut i: usize = 0;
    while i <= s.len()
        invariant
            s@ == xml@,
            lt@ == seq!['<'],
            gt@ == seq!['>'],
            i <= s@.len() + 1,
            i <= s@.len() ==> string_views(out@) + hrefs_from(s@, i as int) == hrefs_from(s@, 0),
            i > s@.len() ==> string_views(out@) == hrefs_from(s@, 0),
        decreases s.len() + 1 - i,
    {
        let ghost before = string_views(out@);
        let p = match find_chars(s.as_slice(), lt.as_slice(), i) {
            Some(p) => p,
            None => {
                assert(before + Seq::<Seq<char>>::empty() == before);
                return out;
            },
        };
        let e = match find_chars(s.as_slice(), gt.as_slice(), p + 1) {
            Some(e) => e,
            None => {
                assert(before + Seq::<Seq<char>>::empty() == before);
                return out;
            },
        };
        let tag = chars_range(s.as_slice(), p + 1, e);
        let h = tag_href_exec(tag.as_slice());
        let ghost rest = if (i as int) < e + 1 <= s@.len() {
            hrefs_from(s@, e + 1)
        } else {
            Seq::empty()
        };
        match h {
            Some(h) => {
                out.push(h);
                proof {
                    assert(string_views(out@) =~= before.push(h@));
                    assert(before.push(h@) + rest =~= before + (seq![h@] + rest));
                }
            },
            None => {},
        }
        i = e + 1;
    }
    out
}

/// The `rdf:resource="..."` values from position `i` on.
pub open spec fn rdf_from(s: Seq<char>, i: int) -> Seq<Seq<char>>
    decreases s.len() - i,
{
    if i < 0 || i > s.len() {
        Seq::empty()
    } else {
        match find_from(s, "rdf:resource=\""@, i) {
            None => Seq::empty(),
            Some(p) => {
                let a = p + 14;
                match find_char(s, '"', a) {
                    None => Seq::empty(),
                    Some(e) => seq![s.subrange(a, e)] + if i < e + 1 <= s.len() {
                        rdf_from(s, e + 1)
                    } else {
                        Seq::empty()
                    },
                }
            },
        }
    }
}

pub fn extract_rdf_resources(xml: &str) -> (v: Vec<String>)
    ensures
        string_views(v@) == rdf_from(xml@, 0),
{
    let s = str_chars(xml);
    let pat = str_chars("rdf:resource=\"");
    proof {
        reveal_strlit("rdf:resource=\"");
    }
    let q = char_vec('"');
    let mut out: Vec<String> = Vec::new();
    let mut i: usize = 0;
    while i <= s.len()
        invariant
            s@ == xml@,
            pat@ == "rdf:resource=\""@,
            pat@.len() == 14,
            q@ == seq!['"'],
            i <= s@.len() + 1,
            i <= s@.len() ==> string_views(out@) + rdf_from(s@, i as int) == rdf_from(s@, 0),
            i > s@.len() ==> string_views(out@) == rdf_from(s@, 0),
        decreases s.len() + 1 - i,
    {
        let ghost before = string_views(out@);
        let p = match find_chars(s.as_slice(), pat.as_slice(), i) {
            Some(p) => p,
            None => {
                assert(before + Seq::<Seq<char>>::empty() == before);
                return out;
            },
        };
        assert(s@.len() == s.len());
        let a = p + 14;
        let e = match find_chars(s.as_slice(), q.as_slice(), a) {
            Some(e) => e,
            None => {
                assert(before + Seq::<Seq<char>>::empty() == before);
                return out;
            },
        };
        let r = chars_range(s.as_slice(), a, e);
        let r = chars_string(r.as_slice());
        let ghost rest = if (i as int) < e + 1 <= s@.len() {
            rdf_from(s@, e + 1)
        } else {
            Seq::empty()
        };
        out.push(r);
        proof {
            assert(string_views(out@) =~= before.push(r@));
            assert(before.push(r@) + rest =~= before + (seq![r@] + rest));
        }
        i = e + 1;
    }
    out
}

/// The position of the last `.` among the first `n` characters.
pub open spec fn last_dot(s: Seq<char>, n: int) -> Option<int>
    decreases n,
{
    if n <= 0 {
        None
    } else if s[n - 1] == '.' {
        Some(n - 1)
    } else {
        last_dot(s, n - 1)
    }
}

/// ASCII lower case of one character.
pub open spec fn ascii_lower(c: char) -> char {
    if 'A' <= c <= 'Z' {
        ((c as u32) + 32) as char
    } else {
        c
    }
}

/// The text after the last `.` of a name, in ASCII lower case; empty when
/// the name has no `.`.
pub open spec fn extension_of(name: Seq<char>) -> Seq<char> {
    match last_dot(name, name.len() as int) {
        Some(d) => name.skip(d + 1).map_values(|c: char| ascii_lower(c)),
        None => Seq::empty(),
    }
}

fn ascii_lower_exec(c: char) -> (r: char)
    ensures
        r == ascii_lower(c),
{
    if 'A' <= c && c <= 'Z' {
        let b: u8 = (c as u32 + 32) as u8;
        b as char
    } else {
        c
    }
}

pub fn extension_lower(name: &str) -> (r: String)
    ensures
        r@ == extension_of(name@),
{
    let s = str_chars(name);
    let mut n = s.len();
    while n > 0
        invariant
            s@ == name@,
            n <= s@.len(),
            last_dot(s@, s@.len() as int) == last_dot(s@, n as int),
        ensures
            n <= s@.len(),
            last_dot(s@, s@.len() as int) == last_dot(s@, n as int),
            n == 0 || s@[n - 1] == '.',
        decreases n,
    {
        if s[n - 1] == '.' {
            break;
        }
        n -= 1;
    }
    if n == 0 {
        return String::new();
    }
    let ghost ext = s@.skip(n as int);
    let mut out = String::new();
    let mut k = n;
    while k < s.len()
        invariant
            s@ == name@,
            1 <= n <= k <= s@.len(),
            ext == s@.skip(n as int),
            out@ == ext.take(k - n).map_values(|c: char| ascii_lower(c)),
        decreases s.len() - k,
    {
        string_push(&mut out, ascii_lower_exec(s[k]));
        proof {
            assert(ext.take(k + 1 - n) == ext.take(k - n).push(s@[k as int]));
            assert(ext.take(k + 1 - n).map_values(|c: char| ascii_lower(c)) =~= ext.take(k - n).map_values(
                |c: char| ascii_lower(c),
            ).push(ascii_lower(s@[k as int])));
        }
        k += 1;
    }
    proof {
        assert(ext.take(s@.len() - n) == ext);
    }
    out
}

/// `Contents/section{i}.xml`.
pub open spec fn section_href(i: nat) -> Seq<char> {
    "Contents/section"@ + decimal(i) + ".xml"@
}

fn section_href_exec(i: usize) -> (r: String)
    ensures
        r@ == section_href(i as nat),
{
    let mut r = string_of("Contents/section");
    push_decimal(&mut r, i as u64);
    string_push_str(&mut r, ".xml");
    r
}

/// `attr="value"`.
pub open spec fn attr_pattern(attr: Seq<char>, value: Seq<char>) -> Seq<char> {
    attr + value + "\""@
}

fn attr_pattern_exec(attr: &str, value: &str) -> (r: Vec<char>)
    ensures
        r@ == attr_pattern(attr@, value@),
{
    let mut s = string_of(attr);
    string_push_str(&mut s, value);
    string_push_str(&mut s, "\"");
    str_chars(s.as_str())
}

/// The RDF graph names a part both as a resource and as a described subject.
pub open spec fn rdf_names_part(rdf: Seq<char>, href: Seq<char>) -> bool {
    contains_seq(rdf, attr_pattern("rdf:resource=\""@, href)) && contains_seq(
        rdf,
        attr_pattern("rdf:about=\""@, href),
    )
}

/// The problems about the first `n` section parts of the RDF graph.
pub open spec fn rdf_section_problems(rdf: Seq<char>, n: int) -> Seq<Seq<char>>
    decreases n,
{
    if n <= 0 {
        Seq::empty()
    } else if rdf_names_part(rdf, section_href((n - 1) as nat)) {
        rdf_section_problems(rdf, n - 1)
    } else {
        rdf_section_problems(rdf, n - 1).push(
            "container.rdf 섹션 참조 누락: "@ + section_href((n - 1) as nat),
        )
    }
}

/// The number of section-part names in a list.
pub open spec fn section_name_count(names: Seq<Seq<char>>) -> nat
    decreases names.len(),
{
    if names.len() == 0 {
        0
    } else {
        section_name_count(names.drop_last()) + if section_entry_name(names.last()) {
            1nat
        } else {
            0nat
        }
    }
}

/// The problems found in `META-INF/container.rdf` for a document of
/// `n` sections: a missing header part, missing section parts, and a count
/// of section resources other than `n`.
pub open spec fn rdf_problems(rdf: Seq<char>, n: nat) -> Seq<Seq<char>> {
    let header = if rdf_names_part(rdf, "Contents/header.xml"@) {
        Seq::empty()
    } else {
        seq!["container.rdf header 참조 누락"@]
    };
    let count = section_name_count(rdf_from(rdf, 0));
    let tail = if count == n {
        Seq::empty()
    } else {
        seq![
            "container.rdf 섹션 참조 수 불일치: rdf="@ + decimal(count) + " ir="@ + decimal(n),
        ]
    };
    header + rdf_section_problems(rdf, n as int) + tail
}

fn rdf_names_part_exec(rdf: &[char], href: &str) -> (b: bool)
    ensures
        b == rdf_names_part(rdf@, href@),
{
    let a = attr_pattern_exec("rdf:resource=\"", href);
    let b = attr_pattern_exec("rdf:about=\"", href);
    contains_chars(rdf, a.as_slice()) && contains_chars(rdf, b.as_slice())
}

pub fn check_container_rdf(report: &mut PackageCheckReport, rdf: &str, doc: &Document)
    ensures
        string_views(final(report).problems@) == string_views(old(report).problems@) + rdf_problems(
            rdf@,
            doc.sections@.len(),
        ),
{
    let ghost base = string_views(report.problems@);
    let r = str_chars(rdf);
    let ghost header = if rdf_names_part(rdf@, "Contents/header.xml"@) {
        Seq::<Seq<char>>::empty()
    } else {
        seq!["container.rdf header 참조 누락"@]
    };
    if !rdf_names_part_exec(r.as_slice(), "Contents/header.xml") {
        report.push(string_of("container.rdf header 참조 누락"));
    }
    proof {
        assert(string_views(report.problems@) =~= base + header);
    }
    let n = doc.sections.len();
    for i in 0..n
        invariant
            r@ == rdf@,
            n == doc.sections@.len(),
            string_views(report.problems@) == base + header + rdf_section_problems(rdf@, i as int),
    {
        let href = section_href_exec(i);
        let ghost before = string_views(report.problems@);
        if !rdf_names_part_exec(r.as_slice(), href.as_str()) {
            let mut msg = string_of("container.rdf 섹션 참조 누락: ");
            string_push_str(&mut msg, href.as_str());
            report.push(msg);
            proof {
                assert(string_views(report.problems@) =~= before.push(msg@));
            }
        }
    }
    let resources = extract_rdf_resources(rdf);
    let mut count: usize = 0;
    let ghost rv = string_views(resources@);
    for k in 0..resources.len()
        invariant
            rv == string_views(resources@),
            count == section_name_count(rv.take(k as int)),
            count <= k,
    {
        proof {
            assert(rv.take(k + 1).drop_last() == rv.take(k as int));
            assert(rv.take(k + 1).last() == resources@[k as int]@);
        }
        if is_section_entry_name(resources[k].as_str()) {
            count += 1;
        }
    }
    proof {
        assert(rv.take(rv.len() as int) == rv);
    }
    let ghost before = string_views(report.problems@);
    if count != n {
        let mut msg = string_of("container.rdf 섹션 참조 수 불일치: rdf=");
        push_decimal(&mut msg, count as u64);
        string_push_str(&mut msg, " ir=");
        push_decimal(&mut msg, n as u64);
        report.push(msg);
        proof {
            assert(string_views(report.problems@) =~= before.push(msg@));
        }
    }
    proof {
        let tail = if count == n {
            Seq::<Seq<char>>::empty()
        } else {
            seq![
                "container.rdf 섹션 참조 수 불일치: rdf="@ + decimal(count as nat) + " ir="@ + decimal(
                    n as nat,
                ),
            ]
        };
        assert(string_views(report.problems@) =~= before + tail);
        assert(base + header + rdf_section_problems(rdf@, n as int) + tail =~= base + (header
            + rdf_section_problems(rdf@, n as int) + tail));
    }
}


// ---------------------------------------------------------------------------
// Reading the package: the calls into `zip`, each on the package's bytes.

/// What `zip::ZipArchive::new` then `file_names` give for the bytes: the
/// entry names in the order of the central directory, or the message of the
/// error that stopped the opening.
pub uninterp spec fn zip_listing(bytes: Seq<u8>) -> Result<Seq<Seq<char>>, Seq<char>>;

/// What `by_index(0)` gives on the opened package: the first entry's name,
/// whether it is stored uncompressed, and the `{:?}` text of its
/// compression method; or the message of the error.
pub uninterp spec fn zip_first(bytes: Seq<u8>) -> Result<(Seq<char>, bool, Seq<char>), Seq<char>>;

/// What `read_to_end` of the first entry gives: its bytes, or `None`
/// where reading failed.
pub uninterp spec fn zip_first_bytes(bytes: Seq<u8>) -> Option<Seq<u8>>;

/// What `by_name(name)` then `read_to_string` give: the entry's text, or
/// the message of the error.
pub uninterp spec fn zip_text(bytes: Seq<u8>, name: Seq<char>) -> Result<Seq<char>, Seq<char>>;

/// What `String::from_utf8_lossy` gives for the bytes.
pub uninterp spec fn utf8_lossy(bytes: Seq<u8>) -> Seq<char>;

/// `zip::ZipArchive::new` on the bytes, then `file_names`. The names come
/// from the keys of the archive's index map, so none occurs twice.
#[verifier::external_body]
fn zip_entry_names(bytes: &[u8]) -> (r: Result<Vec<String>, String>)
    ensures
        zip_listing(bytes@) == (match r {
            Ok(v) => Ok(string_views(v@)),
            Err(e) => Err(e@),
        }),
        r matches Ok(v) ==> string_views(v@).no_duplicates(),
{
    match zip::ZipArchive::new(std::io::Cursor::new(bytes)) {
        Ok(a) => Ok(a.file_names().map(String::from).collect()),
        Err(e) => Err(e.to_string()),
    }
}

/// `by_index(0)` on the archive opened over the bytes: the entry's `name`,
/// whether its `compression` is `CompressionMethod::Stored`, and that
/// method's `{:?}` text.
#[verifier::external_body]
fn zip_first_entry(bytes: &[u8]) -> (r: Result<(String, bool, String), String>)
    ensures
        zip_first(bytes@) == (match r {
            Ok((n, s, m)) => Ok((n@, s, m@)),
            Err(e) => Err(e@),
        }),
{
    let mut a = zip::ZipArchive::new(std::io::Cursor::new(bytes)).map_err(|e| e.to_string())?;
    let f = a.by_index(0).map_err(|e| e.to_string())?;
    let stored = matches!(f.compression(), zip::CompressionMethod::Stored);
    Ok((f.name().to_string(), stored, format!("{:?}", f.compression())))
}

/// `read_to_end` of the first entry of the archive opened over the bytes.
#[verifier::external_body]
fn zip_first_content(bytes: &[u8]) -> (r: Option<Vec<u8>>)
    ensures
        zip_first_bytes(bytes@) == (match r {
            Some(v) => Some(v@),
            None => None,
        }),
{
    let mut a = zip::ZipArchive::new(std::io::Cursor::new(bytes)).ok()?;
    let mut f = a.by_index(0).ok()?;
    let mut content = Vec::new();
    f.read_to_end(&mut content).ok()?;
    Some(content)
}

/// `by_name(name)` on the archive opened over the bytes, then
/// `read_to_string`.
#[verifier::external_body]
fn zip_read_text(bytes: &[u8], name: &str) -> (r: Result<String, String>)
    ensures
        zip_text(bytes@, name@) == (match r {
            Ok(t) => Ok(t@),
            Err(e) => Err(e@),
        }),
{
    let mut a = zip::ZipArchive::new(std::io::Cursor::new(bytes)).map_err(|e| e.to_string())?;
    let mut entry = a.by_name(name).map_err(|e| e.to_string())?;
    let mut s = String::new();
    entry.read_to_string(&mut s).map_err(|e| e.to_string())?;
    Ok(s)
}

/// `String::from_utf8_lossy`, owned.
#[verifier::external_body]
fn lossy_string(bytes: &[u8]) -> (r: String)
    ensures
        r@ == utf8_lossy(bytes@),
{
    String::from_utf8_lossy(bytes).into_owned()
}

// ---------------------------------------------------------------------------
// The stages of the check, each over plain values.

/// The content of `mimetype`: `application/hwp+zip`.
pub open spec fn hwpx_mimetype() -> Seq<u8> {
    seq![97u8, 112, 112, 108, 105, 99, 97, 116, 105, 111, 110, 47, 104, 119, 112, 43, 122, 105, 112]
}

fn is_hwpx_mimetype(c: &Vec<u8>) -> (b: bool)
    ensures
        b == (c@ == hwpx_mimetype()),
{
    let m: Vec<u8> = vec![97u8, 112, 112, 108, 105, 99, 97, 116, 105, 111, 110, 47, 104, 119, 112, 43, 122, 105, 112];
    assert(m@ =~= hwpx_mimetype());
    if c.len() != m.len() {
        return false;
    }
    let mut i: usize = 0;
    while i < m.len()
        invariant
            c@.len() == m@.len(),
            m@ == hwpx_mimetype(),
            i <= m@.len(),
            forall|k: int| 0 <= k < i ==> c@[k] == m@[k],
        decreases m.len() - i,
    {
        if c[i] != m[i] {
            return false;
        }
        i += 1;
    }
    assert(c@ =~= m@);
    true
}

/// The problems of the first entry: it must be `mimetype`, stored
/// uncompressed, holding exactly the HWPX mimetype.
pub open spec fn mimetype_problems(bytes: Seq<u8>) -> Seq<Seq<char>> {
    match zip_first(bytes) {
        Err(e) => seq!["첫 엔트리 접근 실패: "@ + e],
        Ok((name, stored, method)) => if name != "mimetype"@ {
            seq!["mimetype 이 최초 엔트리가 아님 (첫 엔트리: "@ + name + ")"@]
        } else {
            (if stored {
                Seq::empty()
            } else {
                seq!["mimetype 압축 방식이 STORED 가 아님: "@ + method]
            }) + match zip_first_bytes(bytes) {
                Some(c) => if c == hwpx_mimetype() {
                    Seq::empty()
                } else {
                    seq!["mimetype 내용 불일치: "@ + debug_str(utf8_lossy(c))]
                },
                None => seq!["mimetype 읽기 실패"@],
            }
        },
    }
}

/// The entries every package holds, whatever its sections.
pub open spec fn required_entries() -> Seq<Seq<char>> {
    seq![
        "version.xml"@,
        "Contents/header.xml"@,
        "Contents/content.hpf"@,
        "Preview/PrvText.txt"@,
        "Preview/PrvImage.png"@,
        "settings.xml"@,
        "META-INF/container.xml"@,
        "META-INF/container.rdf"@,
        "META-INF/manifest.xml"@,
    ]
}

/// A problem for each of the first `k` required entries the package lacks.
pub open spec fn required_problems(names: Seq<Seq<char>>, k: int) -> Seq<Seq<char>>
    decreases k,
{
    if k <= 0 {
        Seq::empty()
    } else {
        required_problems(names, k - 1) + if names.contains(required_entries()[k - 1]) {
            Seq::empty()
        } else {
            seq!["필수 엔트리 누락: "@ + required_entries()[k - 1]]
        }
    }
}

/// A problem for each of the first `k` section parts the package lacks.
pub open spec fn missing_sections(names: Seq<Seq<char>>, k: int) -> Seq<Seq<char>>
    decreases k,
{
    if k <= 0 {
        Seq::empty()
    } else {
        missing_sections(names, k - 1) + if names.contains(section_href((k - 1) as nat)) {
            Seq::empty()
        } else {
            seq![
                "섹션 엔트리 누락: "@ + section_href((k - 1) as nat) + " (IR 섹션 "@ + decimal(
                    (k - 1) as nat,
                ) + ")"@,
            ]
        }
    }
}

/// The problems of the section parts of a package for `n` sections: each
/// missing part, and a number of section parts other than `n`.
pub open spec fn section_problems(names: Seq<Seq<char>>, n: nat) -> Seq<Seq<char>> {
    missing_sections(names, n as int) + if section_name_count(names) == n {
        Seq::empty()
    } else {
        seq![
            "섹션 엔트리 수 불일치: zip="@ + decimal(section_name_count(names)) + " ir="@ + decimal(n),
        ]
    }
}

/// A problem for each of the first `k` parts the manifest names that the
/// package lacks.
pub open spec fn href_problems(names: Seq<Seq<char>>, hrefs: Seq<Seq<char>>, k: int) -> Seq<Seq<char>>
    decreases k,
{
    if k <= 0 {
        Seq::empty()
    } else {
        href_problems(names, hrefs, k - 1) + if names.contains(hrefs[k - 1]) {
            Seq::empty()
        } else {
            seq!["content.hpf 참조 엔트리 누락: "@ + hrefs[k - 1]]
        }
    }
}

/// The manifest's problems: each embedded part it names that is missing.
pub open spec fn hpf_problems(names: Seq<Seq<char>>, hpf: Seq<char>) -> Seq<Seq<char>> {
    href_problems(names, hrefs_from(hpf, 0), hrefs_from(hpf, 0).len() as int)
}

fn str_same(a: &str, b: &str) -> (r: bool)
    ensures
        r == (a@ == b@),
{
    let x = str_chars(a);
    let y = str_chars(b);
    if x.len() != y.len() {
        return false;
    }
    let mut i: usize = 0;
    while i < x.len()
        invariant
            x@ == a@,
            y@ == b@,
            x@.len() == y@.len(),
            i <= x@.len(),
            forall|k: int| 0 <= k < i ==> x@[k] == y@[k],
        decreases x.len() - i,
    {
        if x[i] != y[i] {
            return false;
        }
        i += 1;
    }
    assert(x@ =~= y@);
    true
}

/// Whether the package holds an entry named `name`.
pub fn names_contain(names: &Vec<String>, name: &str) -> (b: bool)
    ensures
        b == string_views(names@).contains(name@),
{
    let ghost v = string_views(names@);
    let mut i: usize = 0;
    while i < names.len()
        invariant
            v == string_views(names@),
            i <= names@.len(),
            forall|k: int| 0 <= k < i ==> v[k] != name@,
        decreases names.len() - i,
    {
        if str_same(names[i].as_str(), name) {
            assert(v[i as int] == name@);
            return true;
        }
        i += 1;
    }
    false
}

/// Reports each required entry the package lacks.
pub fn check_required_entries(report: &mut PackageCheckReport, names: &Vec<String>)
    ensures
        string_views(final(report).problems@) == string_views(old(report).problems@)
            + required_problems(string_views(names@), 9),
{
    let required: [&str; 9] = [
        "version.xml",
        "Contents/header.xml",
        "Contents/content.hpf",
        "Preview/PrvText.txt",
        "Preview/PrvImage.png",
        "settings.xml",
        "META-INF/container.xml",
        "META-INF/container.rdf",
        "META-INF/manifest.xml",
    ];
    let ghost base = string_views(report.problems@);
    let ghost nv = string_views(names@);
    assert(required@.map_values(|r: &str| r@) =~= required_entries());
    let mut k: usize = 0;
    while k < 9
        invariant
            nv == string_views(names@),
            k <= 9,
            required@.map_values(|r: &str| r@) == required_entries(),
            string_views(report.problems@) == base + required_problems(nv, k as int),
        decreases 9 - k,
    {
        let r = required[k];
        assert(r@ == required_entries()[k as int]);
        let ghost before = string_views(report.problems@);
        if !names_contain(names, r) {
            let mut msg = string_of("필수 엔트리 누락: ");
            string_push_str(&mut msg, r);
            report.push(msg);
            proof {
                assert(string_views(report.problems@) =~= before.push(msg@));
            }
        }
        proof {
            assert(string_views(report.problems@) =~= base + required_problems(nv, k + 1));
        }
        k += 1;
    }
}

fn count_section_names(names: &Vec<String>) -> (c: usize)
    ensures
        c == section_name_count(string_views(names@)),
{
    let ghost v = string_views(names@);
    let mut c: usize = 0;
    let mut k: usize = 0;
    while k < names.len()
        invariant
            v == string_views(names@),
            k <= names@.len(),
            c == section_name_count(v.take(k as int)),
            c <= k,
        decreases names.len() - k,
    {
        proof {
            assert(v.take(k + 1).drop_last() == v.take(k as int));
            assert(v.take(k + 1).last() == names@[k as int]@);
        }
        if is_section_entry_name(names[k].as_str()) {
            c += 1;
        }
        k += 1;
    }
    assert(v.take(v.len() as int) == v);
    c
}

/// Reports each of the `n` section parts the package lacks, and a number of
/// section parts other than `n`.
pub fn check_section_entries(report: &mut PackageCheckReport, names: &Vec<String>, n: usize)
    ensures
        string_views(final(report).problems@) == string_views(old(report).problems@)
            + section_problems(string_views(names@), n as nat),
{
    let ghost base = string_views(report.problems@);
    let ghost nv = string_views(names@);
    let mut i: usize = 0;
    while i < n
        invariant
            nv == string_views(names@),
            i <= n,
            string_views(report.problems@) == base + missing_sections(nv, i as int),
        decreases n - i,
    {
        let entry = section_href_exec(i);
        let ghost before = string_views(report.problems@);
        if !names_contain(names, entry.as_str()) {
            let mut msg = string_of("섹션 엔트리 누락: ");
            string_push_str(&mut msg, entry.as_str());
            string_push_str(&mut msg, " (IR 섹션 ");
            push_decimal(&mut msg, i as u64);
            string_push_str(&mut msg, ")");
            report.push(msg);
            proof {
                assert(string_views(report.problems@) =~= before.push(msg@));
            }
        }
        proof {
            assert(string_views(report.problems@) =~= base + missing_sections(nv, i + 1));
        }
        i += 1;
    }
    let count = count_section_names(names);
    let ghost before = string_views(report.problems@);
    if count != n {
        let mut msg = string_of("섹션 엔트리 수 불일치: zip=");
        push_decimal(&mut msg, count as u64);
        string_push_str(&mut msg, " ir=");
        push_decimal(&mut msg, n as u64);
        report.push(msg);
        proof {
            assert(string_views(report.problems@) =~= before.push(msg@));
        }
    }
    proof {
        assert(string_views(report.problems@) =~= base + section_problems(nv, n as nat));
    }
}

/// Reports each embedded part the manifest `content.hpf` names that the
/// package lacks.
pub fn check_hpf_hrefs(report: &mut PackageCheckReport, names: &Vec<String>, hpf: &str)
    ensures
        string_views(final(report).problems@) == string_views(old(report).problems@)
            + hpf_problems(string_views(names@), hpf@),
{
    let ghost base = string_views(report.problems@);
    let ghost nv = string_views(names@);
    let hrefs = extract_hrefs(hpf);
    let ghost hv = string_views(hrefs@);
    let mut k: usize = 0;
    while k < hrefs.len()
        invariant
            nv == string_views(names@),
            hv == string_views(hrefs@),
            hv == hrefs_from(hpf@, 0),
            k <= hrefs@.len(),
            string_views(report.problems@) == base + href_problems(nv, hv, k as int),
        decreases hrefs.len() - k,
    {
        let ghost before = string_views(report.problems@);
        assert(hv[k as int] == hrefs@[k as int]@);
        if !names_contain(names, hrefs[k].as_str()) {
            let mut msg = string_of("content.hpf 참조 엔트리 누락: ");
            string_push_str(&mut msg, hrefs[k].as_str());
            report.push(msg);
            proof {
                assert(string_views(report.problems@) =~= before.push(msg@));
            }
        }
        proof {
            assert(string_views(report.problems@) =~= base + href_problems(nv, hv, k + 1));
        }
        k += 1;
    }
}


/// The number of master pages of the first `k` sections.
pub open spec fn total_masters(secs: Seq<Section>, k: int) -> nat
    decreases k,
{
    if k <= 0 {
        0
    } else {
        total_masters(secs, k - 1) + secs[k - 1].section_def.master_pages@.len()
    }
}

/// The number of master-page part names in a list.
pub open spec fn master_name_count(names: Seq<Seq<char>>) -> nat
    decreases names.len(),
{
    if names.len() == 0 {
        0
    } else {
        master_name_count(names.drop_last()) + if master_page_entry_name(names.last()) {
            1nat
        } else {
            0nat
        }
    }
}

/// `masterpage{g}`, the id of the master page of global index `g`.
pub open spec fn master_id(g: nat) -> Seq<char> {
    "masterpage"@ + decimal(g)
}

/// `Contents/masterpage{g}.xml`.
pub open spec fn master_href(g: nat) -> Seq<char> {
    "Contents/"@ + master_id(g) + ".xml"@
}

/// The problems of master page `g`: its part is missing, or the manifest
/// (where it was read) lacks its id or its part.
pub open spec fn id_problems(names: Seq<Seq<char>>, hpf: Option<Seq<char>>, g: nat) -> Seq<Seq<char>> {
    (if names.contains(master_href(g)) {
        Seq::empty()
    } else {
        seq!["바탕쪽 엔트리 누락: "@ + master_href(g)]
    }) + match hpf {
        Some(h) => if contains_seq(h, attr_pattern("id=\""@, master_id(g))) && contains_seq(
            h,
            attr_pattern("href=\""@, master_href(g)),
        ) {
            Seq::empty()
        } else {
            seq!["content.hpf 바탕쪽 manifest 누락: "@ + master_id(g) + " -> "@ + master_href(g)]
        },
        None => Seq::empty(),
    }
}

/// The problems of the master pages `g .. g + k`.
pub open spec fn ids_problems(names: Seq<Seq<char>>, hpf: Option<Seq<char>>, g: nat, k: int) -> Seq<
    Seq<char>,
>
    decreases k,
{
    if k <= 0 {
        Seq::empty()
    } else {
        ids_problems(names, hpf, g, k - 1) + id_problems(names, hpf, (g + k - 1) as nat)
    }
}

/// The master pages `g .. g + k` that the XML of section `s` does not refer to.
pub open spec fn idref_problems(xml: Seq<char>, s: nat, g: nat, k: int) -> Seq<Seq<char>>
    decreases k,
{
    if k <= 0 {
        Seq::empty()
    } else {
        idref_problems(xml, s, g, k - 1) + if contains_seq(
            xml,
            attr_pattern("idRef=\""@, master_id((g + k - 1) as nat)),
        ) {
            Seq::empty()
        } else {
            seq!["section"@ + decimal(s) + " 바탕쪽 idRef 누락: "@ + master_id((g + k - 1) as nat)]
        }
    }
}

/// The problems of the XML of section `s`, whose `cnt` master pages start
/// at global index `g`: the count it states, and each reference.
pub open spec fn section_xml_problems(xml: Seq<char>, s: nat, g: nat, cnt: nat) -> Seq<Seq<char>> {
    (if contains_seq(xml, attr_pattern("masterPageCnt=\""@, decimal(cnt))) {
        Seq::empty()
    } else {
        seq!["section"@ + decimal(s) + " masterPageCnt 불일치: expected "@ + decimal(cnt)]
    }) + idref_problems(xml, s, g, cnt as int)
}

/// The problems of the master pages of section `s`.
pub open spec fn section_master_problems(
    bytes: Seq<u8>,
    names: Seq<Seq<char>>,
    hpf: Option<Seq<char>>,
    s: nat,
    g: nat,
    cnt: nat,
) -> Seq<Seq<char>> {
    ids_problems(names, hpf, g, cnt as int) + if cnt > 0 {
        match zip_text(bytes, section_href(s)) {
            Ok(xml) => section_xml_problems(xml, s, g, cnt),
            Err(e) => if names.contains(section_href(s)) {
                seq![section_href(s) + " 읽기 실패: "@ + e]
            } else {
                Seq::empty()
            },
        }
    } else {
        Seq::empty()
    }
}

/// The problems of the master pages of the first `k` sections.
pub open spec fn masters_problems(
    bytes: Seq<u8>,
    names: Seq<Seq<char>>,
    hpf: Option<Seq<char>>,
    secs: Seq<Section>,
    k: int,
) -> Seq<Seq<char>>
    decreases k,
{
    if k <= 0 {
        Seq::empty()
    } else {
        masters_problems(bytes, names, hpf, secs, k - 1) + section_master_problems(
            bytes,
            names,
            hpf,
            (k - 1) as nat,
            total_masters(secs, k - 1),
            secs[k - 1].section_def.master_pages@.len(),
        )
    }
}

/// The problems of the master pages: a number of master-page parts other
/// than the document's, then those of each section.
pub open spec fn master_problems(
    bytes: Seq<u8>,
    names: Seq<Seq<char>>,
    hpf: Option<Seq<char>>,
    secs: Seq<Section>,
) -> Seq<Seq<char>> {
    let expected = total_masters(secs, secs.len() as int);
    (if master_name_count(names) == expected {
        Seq::empty()
    } else {
        seq![
            "바탕쪽 엔트리 수 불일치: zip="@ + decimal(master_name_count(names)) + " ir="@ + decimal(
                expected,
            ),
        ]
    }) + masters_problems(bytes, names, hpf, secs, secs.len() as int)
}

fn master_id_exec(g: usize) -> (r: String)
    ensures
        r@ == master_id(g as nat),
{
    let mut r = string_of("masterpage");
    push_decimal(&mut r, g as u64);
    r
}

fn master_href_exec(g: usize) -> (r: String)
    ensures
        r@ == master_href(g as nat),
{
    let mut r = string_of("Contents/");
    let id = master_id_exec(g);
    string_push_str(&mut r, id.as_str());
    string_push_str(&mut r, ".xml");
    r
}

fn text_has_attr(text: &[char], attr: &str, value: &str) -> (b: bool)
    ensures
        b == contains_seq(text@, attr_pattern(attr@, value@)),
{
    let p = attr_pattern_exec(attr, value);
    contains_chars(text, p.as_slice())
}

/// Reports, for the master pages `g .. g + cnt`, each missing part and each
/// one the manifest (where it was read) does not list.
pub fn check_master_ids(
    report: &mut PackageCheckReport,
    names: &Vec<String>,
    hpf: &Option<String>,
    g: usize,
    cnt: usize,
)
    requires
        g + cnt <= usize::MAX,
    ensures
        string_views(final(report).problems@) == string_views(old(report).problems@) + ids_problems(
            string_views(names@),
            opt_view(*hpf),
            g as nat,
            cnt as int,
        ),
{
    let ghost base = string_views(report.problems@);
    let ghost nv = string_views(names@);
    let hpf_chars: Option<Vec<char>> = match hpf {
        Some(h) => Some(str_chars(h.as_str())),
        None => None,
    };
    let mut k: usize = 0;
    while k < cnt
        invariant
            nv == string_views(names@),
            g + cnt <= usize::MAX,
            k <= cnt,
            match hpf_chars {
                Some(c) => opt_view(*hpf) == Some(c@),
                None => opt_view(*hpf) is None,
            },
            string_views(report.problems@) == base + ids_problems(nv, opt_view(*hpf), g as nat, k as int),
        decreases cnt - k,
    {
        let id = master_id_exec(g + k);
        let href = master_href_exec(g + k);
        let ghost before = string_views(report.problems@);
        if !names_contain(names, href.as_str()) {
            let mut msg = string_of("바탕쪽 엔트리 누락: ");
            string_push_str(&mut msg, href.as_str());
            report.push(msg);
            proof {
                assert(string_views(report.problems@) =~= before.push(msg@));
            }
        }
        let ghost mid = string_views(report.problems@);
        match &hpf_chars {
            Some(h) => {
                if !text_has_attr(h.as_slice(), "id=\"", id.as_str()) || !text_has_attr(
                    h.as_slice(),
                    "href=\"",
                    href.as_str(),
                ) {
                    let mut msg = string_of("content.hpf 바탕쪽 manifest 누락: ");
                    string_push_str(&mut msg, id.as_str());
                    string_push_str(&mut msg, " -> ");
                    string_push_str(&mut msg, href.as_str());
                    report.push(msg);
                    proof {
                        assert(string_views(report.problems@) =~= mid.push(msg@));
                    }
                }
            },
            None => {},
        }
        proof {
            assert(string_views(report.problems@) =~= base + ids_problems(
                nv,
                opt_view(*hpf),
                g as nat,
                k + 1,
            ));
        }
        k += 1;
    }
}

/// Reports what the XML of section `s` lacks about its `cnt` master pages,
/// which start at global index `g`: the count, and each reference.
pub fn check_section_master_refs(
    report: &mut PackageCheckReport,
    xml: &str,
    s: usize,
    g: usize,
    cnt: usize,
)
    requires
        g + cnt <= usize::MAX,
    ensures
        string_views(final(report).problems@) == string_views(old(report).problems@)
            + section_xml_problems(xml@, s as nat, g as nat, cnt as nat),
{
    let ghost base = string_views(report.problems@);
    let x = str_chars(xml);
    let cnt_text = decimal_string(cnt as u64);
    if !text_has_attr(x.as_slice(), "masterPageCnt=\"", cnt_text.as_str()) {
        let mut msg = string_of("section");
        push_decimal(&mut msg, s as u64);
        string_push_str(&mut msg, " masterPageCnt 불일치: expected ");
        push_decimal(&mut msg, cnt as u64);
        report.push(msg);
        proof {
            assert(string_views(report.problems@) =~= base.push(msg@));
        }
    }
    let ghost head = string_views(report.problems@);
    proof {
        assert(head =~= base + (if contains_seq(xml@, attr_pattern("masterPageCnt=\""@, decimal(cnt as nat))) {
            Seq::<Seq<char>>::empty()
        } else {
            seq!["section"@ + decimal(s as nat) + " masterPageCnt 불일치: expected "@ + decimal(cnt as nat)]
        }));
    }
    let mut k: usize = 0;
    while k < cnt
        invariant
            x@ == xml@,
            g + cnt <= usize::MAX,
            k <= cnt,
            string_views(report.problems@) == head + idref_problems(xml@, s as nat, g as nat, k as int),
        decreases cnt - k,
    {
        let id = master_id_exec(g + k);
        let ghost before = string_views(report.problems@);
        if !text_has_attr(x.as_slice(), "idRef=\"", id.as_str()) {
            let mut msg = string_of("section");
            push_decimal(&mut msg, s as u64);
            string_push_str(&mut msg, " 바탕쪽 idRef 누락: ");
            string_push_str(&mut msg, id.as_str());
            report.push(msg);
            proof {
                assert(string_views(report.problems@) =~= before.push(msg@));
            }
        }
        proof {
            assert(string_views(report.problems@) =~= head + idref_problems(
                xml@,
                s as nat,
                g as nat,
                k + 1,
            ));
        }
        k += 1;
    }
    proof {
        assert(base + (if contains_seq(xml@, attr_pattern("masterPageCnt=\""@, decimal(cnt as nat))) {
            Seq::<Seq<char>>::empty()
        } else {
            seq!["section"@ + decimal(s as nat) + " masterPageCnt 불일치: expected "@ + decimal(cnt as nat)]
        }) + idref_problems(xml@, s as nat, g as nat, cnt as int) =~= base + section_xml_problems(
            xml@,
            s as nat,
            g as nat,
            cnt as nat,
        ));
    }
}

fn count_master_names(names: &Vec<String>) -> (c: usize)
    ensures
        c == master_name_count(string_views(names@)),
{
    let ghost v = string_views(names@);
    let mut c: usize = 0;
    let mut k: usize = 0;
    while k < names.len()
        invariant
            v == string_views(names@),
            k <= names@.len(),
            c == master_name_count(v.take(k as int)),
            c <= k,
        decreases names.len() - k,
    {
        proof {
            assert(v.take(k + 1).drop_last() == v.take(k as int));
            assert(v.take(k + 1).last() == names@[k as int]@);
        }
        if is_master_page_entry_name(names[k].as_str()) {
            c += 1;
        }
        k += 1;
    }
    assert(v.take(v.len() as int) == v);
    c
}

proof fn lemma_total_masters_mono(secs: Seq<Section>, a: int, b: int)
    requires
        0 <= a <= b <= secs.len(),
    ensures
        total_masters(secs, a) <= total_masters(secs, b),
    decreases b - a,
{
    if a < b {
        lemma_total_masters_mono(secs, a, b - 1);
    }
}

fn check_master_pages(
    report: &mut PackageCheckReport,
    bytes: &[u8],
    names: &Vec<String>,
    hpf: &Option<String>,
    doc: &Document,
)
    requires
        total_masters(doc.sections@, doc.sections@.len() as int) <= usize::MAX,
    ensures
        string_views(final(report).problems@) == string_views(old(report).problems@) + master_problems(
            bytes@,
            string_views(names@),
            opt_view(*hpf),
            doc.sections@,
        ),
{
    let ghost base = string_views(report.problems@);
    let ghost nv = string_views(names@);
    let ghost secs = doc.sections@;
    let ghost n = secs.len() as int;
    let mut expected: usize = 0;
    let mut i: usize = 0;
    while i < doc.sections.len()
        invariant
            secs == doc.sections@,
            n == secs.len(),
            i <= n,
            expected == total_masters(secs, i as int),
            total_masters(secs, n) <= usize::MAX,
        decreases doc.sections.len() - i,
    {
        proof {
            lemma_total_masters_mono(secs, i + 1, n);
        }
        expected = expected + doc.sections[i].section_def.master_pages.len();
        i += 1;
    }
    let zip_count = count_master_names(names);
    if zip_count != expected {
        let mut msg = string_of("바탕쪽 엔트리 수 불일치: zip=");
        push_decimal(&mut msg, zip_count as u64);
        string_push_str(&mut msg, " ir=");
        push_decimal(&mut msg, expected as u64);
        report.push(msg);
        proof {
            assert(string_views(report.problems@) =~= base.push(msg@));
        }
    }
    let ghost head = string_views(report.problems@);
    let mut global: usize = 0;
    let mut si: usize = 0;
    while si < doc.sections.len()
        invariant
            secs == doc.sections@,
            nv == string_views(names@),
            n == secs.len(),
            si <= n,
            global == total_masters(secs, si as int),
            total_masters(secs, n) <= usize::MAX,
            string_views(report.problems@) == head + masters_problems(
                bytes@,
                nv,
                opt_view(*hpf),
                secs,
                si as int,
            ),
        decreases doc.sections.len() - si,
    {
        proof {
            lemma_total_masters_mono(secs, si + 1, n);
        }
        let cnt = doc.sections[si].section_def.master_pages.len();
        let ghost before = string_views(report.problems@);
        check_master_ids(report, names, hpf, global, cnt);
        let ghost mid = string_views(report.problems@);
        if cnt > 0 {
            let section_href = section_href_exec(si);
            match zip_read_text(bytes, section_href.as_str()) {
                Ok(section_xml) => {
                    check_section_master_refs(report, section_xml.as_str(), si, global, cnt);
                },
                Err(e) => {
                    if names_contain(names, section_href.as_str()) {
                        let mut msg = section_href.clone();
                        string_push_str(&mut msg, " 읽기 실패: ");
                        string_push_str(&mut msg, e.as_str());
                        report.push(msg);
                        proof {
                            assert(string_views(report.problems@) =~= mid.push(msg@));
                        }
                    }
                },
            }
        }
        proof {
            assert(string_views(report.problems@) =~= before + section_master_problems(
                bytes@,
                nv,
                opt_view(*hpf),
                si as nat,
                global as nat,
                cnt as nat,
            ));
            assert(string_views(report.problems@) =~= head + masters_problems(
                bytes@,
                nv,
                opt_view(*hpf),
                secs,
                si + 1,
            ));
        }
        global = global + cnt;
        si += 1;
    }
    proof {
        assert(string_views(report.problems@) =~= base + master_problems(
            bytes@,
            nv,
            opt_view(*hpf),
            secs,
        ));
    }
}


/// The names under `BinData/`, in order.
pub open spec fn bin_names(names: Seq<Seq<char>>) -> Seq<Seq<char>>
    decreases names.len(),
{
    if names.len() == 0 {
        Seq::empty()
    } else {
        bin_names(names.drop_last()) + if matches_at(names.last(), "BinData/"@, 0) {
            seq![names.last()]
        } else {
            Seq::empty()
        }
    }
}

/// A text in ASCII lower case.
pub open spec fn lower_text(s: Seq<char>) -> Seq<char> {
    s.map_values(|c: char| ascii_lower(c))
}

/// The extensions of the document's binary items, in ASCII lower case.
pub open spec fn ir_extensions(bins: Seq<BinDataContent>) -> Seq<Seq<char>> {
    bins.map_values(|b: BinDataContent| lower_text(b.extension@))
}

/// The extensions of the `BinData/` parts.
pub open spec fn zip_extensions(names: Seq<Seq<char>>) -> Seq<Seq<char>> {
    bin_names(names).map_values(|n: Seq<char>| extension_of(n))
}

/// The `{:?}` text of a list of strings: `["a", "b"]`.
pub open spec fn debug_list(v: Seq<Seq<char>>) -> Seq<char> {
    "["@ + join_seq(v.map_values(|s: Seq<char>| debug_str(s)), ", "@) + "]"@
}

/// The problems of the binary parts: a number other than the document's
/// binary items, or else a different multiset of extensions (both shown
/// sorted).
pub open spec fn bin_problems(names: Seq<Seq<char>>, bins: Seq<BinDataContent>) -> Seq<Seq<char>> {
    if bin_names(names).len() != bins.len() {
        seq![
            "BinData 엔트리 수 불일치: zip="@ + decimal(bin_names(names).len()) + " ir="@ + decimal(
                bins.len(),
            ),
        ]
    } else {
        let z = zip_extensions(names).sort_by(chars_order());
        let i = ir_extensions(bins).sort_by(chars_order());
        if z == i {
            Seq::empty()
        } else {
            seq!["BinData 확장자 멀티셋 불일치: zip="@ + debug_list(z) + " ir="@ + debug_list(i)]
        }
    }
}

fn ascii_lowercase(s: &str) -> (r: String)
    ensures
        r@ == lower_text(s@),
{
    let c = str_chars(s);
    let mut out = String::new();
    let mut k: usize = 0;
    while k < c.len()
        invariant
            c@ == s@,
            k <= c@.len(),
            out@ == lower_text(s@.take(k as int)),
        decreases c.len() - k,
    {
        string_push(&mut out, ascii_lower_exec(c[k]));
        proof {
            assert(s@.take(k + 1) == s@.take(k as int).push(s@[k as int]));
            assert(lower_text(s@.take(k + 1)) =~= lower_text(s@.take(k as int)).push(ascii_lower(s@[k as int])));
        }
        k += 1;
    }
    assert(s@.take(s@.len() as int) == s@);
    out
}

fn push_debug_list(out: &mut String, v: &Vec<String>)
    ensures
        final(out)@ == old(out)@ + debug_list(string_views(v@)),
{
    let ghost o = old(out)@;
    let ghost views = string_views(v@);
    let mut parts: Vec<String> = Vec::new();
    let mut k: usize = 0;
    while k < v.len()
        invariant
            views == string_views(v@),
            k <= v@.len(),
            string_views(parts@) == views.take(k as int).map_values(|s: Seq<char>| debug_str(s)),
        decreases v.len() - k,
    {
        let d = debug_string(v[k].as_str());
        let ghost before = string_views(parts@);
        parts.push(d);
        proof {
            assert(string_views(parts@) =~= before.push(d@));
            assert(views.take(k + 1) == views.take(k as int).push(v@[k as int]@));
            assert(views.take(k + 1).map_values(|s: Seq<char>| debug_str(s)) =~= views.take(k as int).map_values(|s: Seq<char>| debug_str(s)).push(debug_str(v@[k as int]@)));
            assert(string_views(parts@) =~= views.take(k + 1).map_values(|s: Seq<char>| debug_str(s)));
        }
        k += 1;
    }
    assert(views.take(views.len() as int) == views);
    let joined = join_strings(&parts, ", ");
    string_push_str(out, "[");
    string_push_str(out, joined.as_str());
    string_push_str(out, "]");
    assert(out@ =~= o + debug_list(views));
}

fn strings_same(a: &Vec<String>, b: &Vec<String>) -> (r: bool)
    ensures
        r == (string_views(a@) == string_views(b@)),
{
    if a.len() != b.len() {
        assert(string_views(a@).len() != string_views(b@).len());
        return false;
    }
    let mut k: usize = 0;
    while k < a.len()
        invariant
            a@.len() == b@.len(),
            k <= a@.len(),
            forall|i: int| 0 <= i < k ==> a@[i]@ == b@[i]@,
        decreases a.len() - k,
    {
        if !str_same(a[k].as_str(), b[k].as_str()) {
            assert(string_views(a@)[k as int] != string_views(b@)[k as int]);
            return false;
        }
        k += 1;
    }
    assert(string_views(a@) =~= string_views(b@));
    true
}

/// Reports a number of `BinData/` parts other than the document's binary
/// items, or, where the numbers agree, different multisets of extensions.
pub fn check_bin_data(report: &mut PackageCheckReport, names: &Vec<String>, doc: &Document)
    ensures
        string_views(final(report).problems@) == string_views(old(report).problems@) + bin_problems(
            string_views(names@),
            doc.bin_data_content@,
        ),
{
    let ghost base = string_views(report.problems@);
    let ghost nv = string_views(names@);
    let prefix = str_chars("BinData/");
    let mut zip_exts: Vec<String> = Vec::new();
    let mut k: usize = 0;
    while k < names.len()
        invariant
            nv == string_views(names@),
            prefix@ == "BinData/"@,
            k <= names@.len(),
            zip_exts@.len() == bin_names(nv.take(k as int)).len(),
            string_views(zip_exts@) == zip_extensions(nv.take(k as int)),
        decreases names.len() - k,
    {
        let ghost before = string_views(zip_exts@);
        proof {
            assert(nv.take(k + 1).drop_last() == nv.take(k as int));
            assert(nv.take(k + 1).last() == names@[k as int]@);
        }
        let nc = str_chars(names[k].as_str());
        if starts_with_chars(nc.as_slice(), prefix.as_slice()) {
            let e = extension_lower(names[k].as_str());
            zip_exts.push(e);
            proof {
                assert(string_views(zip_exts@) =~= before.push(e@));
            }
        }
        proof {
            assert(string_views(zip_exts@) =~= zip_extensions(nv.take(k + 1)));
        }
        k += 1;
    }
    assert(nv.take(nv.len() as int) == nv);
    let bins = &doc.bin_data_content;
    let mut ir_exts: Vec<String> = Vec::new();
    let mut j: usize = 0;
    while j < bins.len()
        invariant
            bins@ == doc.bin_data_content@,
            j <= bins@.len(),
            string_views(ir_exts@) == ir_extensions(bins@.take(j as int)),
        decreases bins.len() - j,
    {
        let l = ascii_lowercase(bins[j].extension.as_str());
        let ghost before = string_views(ir_exts@);
        ir_exts.push(l);
        proof {
            assert(string_views(ir_exts@) =~= before.push(l@));
            assert(bins@.take(j + 1) == bins@.take(j as int).push(bins@[j as int]));
            assert(ir_extensions(bins@.take(j + 1)) =~= ir_extensions(bins@.take(j as int)).push(lower_text(bins@[j as int].extension@)));
            assert(string_views(ir_exts@) =~= ir_extensions(bins@.take(j + 1)));
        }
        j += 1;
    }
    assert(bins@.take(bins@.len() as int) == bins@);
    if zip_exts.len() != bins.len() {
        let mut msg = string_of("BinData 엔트리 수 불일치: zip=");
        push_decimal(&mut msg, zip_exts.len() as u64);
        string_push_str(&mut msg, " ir=");
        push_decimal(&mut msg, bins.len() as u64);
        report.push(msg);
        proof {
            assert(string_views(report.problems@) =~= base.push(msg@));
        }
    } else {
        let zs = sort_strings(zip_exts);
        let is = sort_strings(ir_exts);
        if !strings_same(&zs, &is) {
            let mut msg = string_of("BinData 확장자 멀티셋 불일치: zip=");
            push_debug_list(&mut msg, &zs);
            string_push_str(&mut msg, " ir=");
            push_debug_list(&mut msg, &is);
            report.push(msg);
            proof {
                assert(string_views(report.problems@) =~= base.push(msg@));
            }
        } else {
            assert(string_views(report.problems@) =~= base);
        }
    }
}


fn check_first_entry(report: &mut PackageCheckReport, bytes: &[u8])
    ensures
        string_views(final(report).problems@) == string_views(old(report).problems@)
            + mimetype_problems(bytes@),
{
    let ghost base = string_views(report.problems@);
    match zip_first_entry(bytes) {
        Ok((name, stored, method)) => {
            if !str_same(name.as_str(), "mimetype") {
                let mut msg = string_of("mimetype 이 최초 엔트리가 아님 (첫 엔트리: ");
                string_push_str(&mut msg, name.as_str());
                string_push_str(&mut msg, ")");
                report.push(msg);
                proof {
                    assert(string_views(report.problems@) =~= base.push(msg@));
                }
            } else {
                if !stored {
                    let mut msg = string_of("mimetype 압축 방식이 STORED 가 아님: ");
                    string_push_str(&mut msg, method.as_str());
                    report.push(msg);
                    proof {
                        assert(string_views(report.problems@) =~= base.push(msg@));
                    }
                }
                let ghost mid = string_views(report.problems@);
                match zip_first_content(bytes) {
                    Some(c) => {
                        if !is_hwpx_mimetype(&c) {
                            let text = lossy_string(c.as_slice());
                            let mut msg = string_of("mimetype 내용 불일치: ");
                            let d = debug_string(text.as_str());
                            string_push_str(&mut msg, d.as_str());
                            report.push(msg);
                            proof {
                                assert(string_views(report.problems@) =~= mid.push(msg@));
                            }
                        }
                    },
                    None => {
                        report.push(string_of("mimetype 읽기 실패"));
                        proof {
                            assert(string_views(report.problems@) =~= mid.push("mimetype 읽기 실패"@));
                        }
                    },
                }
                proof {
                    assert(string_views(report.problems@) =~= base + mimetype_problems(bytes@));
                }
            }
        },
        Err(e) => {
            let mut msg = string_of("첫 엔트리 접근 실패: ");
            string_push_str(&mut msg, e.as_str());
            report.push(msg);
            proof {
                assert(string_views(report.problems@) =~= base.push(msg@));
            }
        },
    }
}

/// The problems the manifest `content.hpf` gives: those of its part names,
/// or, where it cannot be read though present, the reading error.
pub open spec fn hpf_stage(bytes: Seq<u8>, names: Seq<Seq<char>>) -> Seq<Seq<char>> {
    match zip_text(bytes, "Contents/content.hpf"@) {
        Ok(h) => hpf_problems(names, h),
        Err(e) => if names.contains("Contents/content.hpf"@) {
            seq!["content.hpf 읽기 실패: "@ + e]
        } else {
            Seq::empty()
        },
    }
}

/// The manifest's text, where it was read.
pub open spec fn hpf_text(bytes: Seq<u8>) -> Option<Seq<char>> {
    match zip_text(bytes, "Contents/content.hpf"@) {
        Ok(h) => Some(h),
        Err(_) => None,
    }
}

/// The problems `META-INF/container.rdf` gives for `n` sections.
pub open spec fn rdf_stage(bytes: Seq<u8>, names: Seq<Seq<char>>, n: nat) -> Seq<Seq<char>> {
    match zip_text(bytes, "META-INF/container.rdf"@) {
        Ok(r) => rdf_problems(r, n),
        Err(e) => if names.contains("META-INF/container.rdf"@) {
            seq!["container.rdf 읽기 실패: "@ + e]
        } else {
            Seq::empty()
        },
    }
}

/// Everything found wrong with a package for a document: where it does not
/// open as a ZIP, that alone; else, in order, the first entry, the required
/// entries, the section parts, the manifest, the RDF graph, the master
/// pages and the binary parts.
pub open spec fn package_problems(bytes: Seq<u8>, doc: Document) -> Seq<Seq<char>> {
    match zip_listing(bytes) {
        Err(e) => seq!["ZIP 열기 실패: "@ + e],
        Ok(names) => mimetype_problems(bytes) + required_problems(names, 9) + section_problems(
            names,
            doc.sections@.len(),
        ) + hpf_stage(bytes, names) + rdf_stage(bytes, names, doc.sections@.len()) + master_problems(
            bytes,
            names,
            hpf_text(bytes),
            doc.sections@,
        ) + bin_problems(names, doc.bin_data_content@),
    }
}

/// A package that does not open as a ZIP has one problem only: the open
/// failure, with the archive's error after its label.
pub proof fn law_unopenable_package_has_one_problem(bytes: Seq<u8>, doc: Document)
    requires
        zip_listing(bytes) is Err,
    ensures
        package_problems(bytes, doc).len() == 1,
        package_problems(bytes, doc)[0] == "ZIP 열기 실패: "@ + zip_listing(bytes)->Err_0,
        "ZIP 열기 실패: "@.is_prefix_of(package_problems(bytes, doc)[0]),
{
    let label = "ZIP 열기 실패: "@;
    let e = zip_listing(bytes)->Err_0;
    assert((label + e).subrange(0, label.len() as int) =~= label);
}

/// Checks a re-assembled HWPX package against the document it was written
/// from: it opens as a ZIP; `mimetype` is its first entry, stored, holding
/// `application/hwp+zip`; the required entries are there; there is one
/// section part per section and no other; every part the manifest names is
/// there; the RDF graph names the header and every section; the master
/// pages' parts, manifest items and section references are there; and the
/// binary parts agree with the document's in number and extensions.
pub fn check_package(hwpx_bytes: &[u8], doc: &Document) -> (r: PackageCheckReport)
    requires
        total_masters(doc.sections@, doc.sections@.len() as int) <= usize::MAX,
    ensures
        string_views(r.problems@) == package_problems(hwpx_bytes@, *doc),
{
    let mut report = PackageCheckReport::new();
    let names = match zip_entry_names(hwpx_bytes) {
        Ok(v) => v,
        Err(e) => {
            let mut msg = string_of("ZIP 열기 실패: ");
            string_push_str(&mut msg, e.as_str());
            report.push(msg);
            proof {
                assert(string_views(report.problems@) =~= seq![msg@]);
            }
            return report;
        },
    };
    let ghost nv = string_views(names@);
    let ghost n = doc.sections@.len();
    assert(string_views(report.problems@) =~= Seq::<Seq<char>>::empty());
    check_first_entry(&mut report, hwpx_bytes);
    check_required_entries(&mut report, &names);
    check_section_entries(&mut report, &names, doc.sections.len());
    let ghost after_sections = string_views(report.problems@);
    let content_hpf: Option<String> = match zip_read_text(hwpx_bytes, "Contents/content.hpf") {
        Ok(hpf) => {
            check_hpf_hrefs(&mut report, &names, hpf.as_str());
            Some(hpf)
        },
        Err(e) => {
            if names_contain(&names, "Contents/content.hpf") {
                let mut msg = string_of("content.hpf 읽기 실패: ");
                string_push_str(&mut msg, e.as_str());
                report.push(msg);
                proof {
                    assert(string_views(report.problems@) =~= after_sections.push(msg@));
                }
            }
            None
        },
    };
    assert(string_views(report.problems@) =~= after_sections + hpf_stage(hwpx_bytes@, nv));
    assert(opt_view(content_hpf) == hpf_text(hwpx_bytes@));
    let ghost after_hpf = string_views(report.problems@);
    match zip_read_text(hwpx_bytes, "META-INF/container.rdf") {
        Ok(rdf) => check_container_rdf(&mut report, rdf.as_str(), doc),
        Err(e) => {
            if names_contain(&names, "META-INF/container.rdf") {
                let mut msg = string_of("container.rdf 읽기 실패: ");
                string_push_str(&mut msg, e.as_str());
                report.push(msg);
                proof {
                    assert(string_views(report.problems@) =~= after_hpf.push(msg@));
                }
            }
        },
    }
    assert(string_views(report.problems@) =~= after_hpf + rdf_stage(hwpx_bytes@, nv, n));
    check_master_pages(&mut report, hwpx_bytes, &names, &content_hpf, doc);
    check_bin_data(&mut report, &names, doc);
    proof {
        assert(string_views(report.problems@) =~= package_problems(hwpx_bytes@, *doc));
    }
    report
}

} // verus!
