//! Reading SVG fragments: attribute values, single-image data URLs, the SVG
//! prefix of a byte stream, and base64 data URLs.

use base64::Engine;

use crate::text::{
    chars_range, chars_string, find_chars, find_from, matches_at, str_chars, trim_end,
    trim_start, trimmed,
};
use vstd::prelude::*;

verus! {

/// White space that may stand before an attribute name.
pub open spec fn attr_gap(c: char) -> bool {
    c == ' ' || c == '\t' || c == '\n' || c == '\r'
}

/// The value of the first `needle` (`attr="`) from `from` on that starts a
/// word: it follows a space, tab or line break (never the very start); the
/// value ends at the next quote, and there being none gives `None`.
pub open spec fn attr_from(s: Seq<char>, needle: Seq<char>, from: int) -> Option<Seq<char>>
    decreases s.len() - from,
{
    match find_from(s, needle, from) {
        None => None,
        Some(pos) => if pos > 0 && attr_gap(s[pos - 1]) {
            match find_from(s, seq!['"'], pos + needle.len()) {
                Some(e) => Some(s.subrange(pos + needle.len(), e)),
                None => None,
            }
        } else if from < pos + needle.len() <= s.len() {
            attr_from(s, needle, pos + needle.len())
        } else {
            None
        },
    }
}

/// The value of attribute `attr` in an SVG fragment.
pub open spec fn svg_attr(s: Seq<char>, attr: Seq<char>) -> Option<Seq<char>> {
    attr_from(s, attr + "=\""@, 0)
}

fn attr_value(s: &Vec<char>, attr: &str) -> (r: Option<Vec<char>>)
    ensures
        match r {
            Some(v) => svg_attr(s@, attr@) == Some(v@),
            None => svg_attr(s@, attr@) is None,
        },
{
    let mut needle = str_chars(attr);
    let tail = str_chars("=\"");
    proof {
        reveal_strlit("=\"");
    }
    needle.push(tail[0]);
    needle.push(tail[1]);
    assert(needle@ =~= attr@ + "=\""@);
    let mut q: Vec<char> = Vec::new();
    q.push('"');
    assert(q@ =~= seq!['"']);
    let mut from: usize = 0;
    while from <= s.len()
        invariant
            needle@ == attr@ + "=\""@,
            needle@.len() >= 2,
            q@ == seq!['"'],
            from <= s@.len() + 1,
            from <= s@.len() ==> svg_attr(s@, attr@) == attr_from(s@, needle@, from as int),
            from > s@.len() ==> svg_attr(s@, attr@) is None,
        decreases s.len() + 1 - from,
    {
        let pos = match find_chars(s.as_slice(), needle.as_slice(), from) {
            Some(p) => p,
            None => return None,
        };
        assert(s@.len() == s.len());
        let boundary = pos > 0 && (s[pos - 1] == ' ' || s[pos - 1] == '\t' || s[pos - 1] == '\n'
            || s[pos - 1] == '\r');
        if boundary {
            let start = pos + needle.len();
            return match find_chars(s.as_slice(), q.as_slice(), start) {
                Some(e) => Some(chars_range(s.as_slice(), start, e)),
                None => None,
            };
        }
        from = pos + needle.len();
    }
    None
}

/// Finds the value of `attr="..."` in an SVG fragment, matching the name
/// only at a word start (so `href` does not match inside `xlink:href`).
pub fn find_svg_attr_value(s: &str, attr: &str) -> (r: Option<String>)
    ensures
        match r {
            Some(v) => svg_attr(s@, attr@) == Some(v@),
            None => svg_attr(s@, attr@) is None,
        },
{
    let chars = str_chars(s);
    match attr_value(&chars, attr) {
        Some(v) => Some(chars_string(v.as_slice())),
        None => None,
    }
}

/// The number of `c` in `s`.
pub open spec fn count_char(s: Seq<char>, c: char) -> nat
    decreases s.len(),
{
    if s.len() == 0 {
        0
    } else {
        count_char(s.drop_last(), c) + if s.last() == c {
            1nat
        } else {
            0nat
        }
    }
}

/// The data URL of a fragment that is a single `<image .../>` element whose
/// `xlink:href` (else `href`) is a `data:` URL.
pub open spec fn single_image_data_url(svg: Seq<char>) -> Option<Seq<char>> {
    let s = trim_end(trim_start(svg));
    if !matches_at(s, "<image"@, 0) || !(s.len() >= 2 && s.skip(s.len() - 2) == "/>"@) || count_char(
        s,
        '<',
    ) != 1 {
        None
    } else {
        let href = match svg_attr(s, "xlink:href"@) {
            Some(h) => Some(h),
            None => svg_attr(s, "href"@),
        };
        match href {
            Some(h) => if matches_at(h, "data:"@, 0) {
                Some(h)
            } else {
                None
            },
            None => None,
        }
    }
}

fn count_char_exec(s: &Vec<char>, c: char) -> (n: usize)
    ensures
        n == count_char(s@, c),
{
    let mut n: usize = 0;
    for k in 0..s.len()
        invariant
            n == count_char(s@.take(k as int), c),
            n <= k,
    {
        assert(s@.take(k + 1).drop_last() == s@.take(k as int));
        if s[k] == c {
            n += 1;
        }
    }
    assert(s@.take(s@.len() as int) == s@);
    n
}

fn starts_with(s: &[char], p: &str) -> (b: bool)
    ensures
        b == matches_at(s@, p@, 0),
{
    let pv = str_chars(p);
    if pv.len() > s.len() {
        return false;
    }
    let mut k: usize = 0;
    while k < pv.len()
        invariant
            pv@ == p@,
            pv@.len() <= s@.len(),
            k <= pv@.len(),
            forall|m: int| 0 <= m < k ==> s@[m] == pv@[m],
        decreases pv.len() - k,
    {
        if s[k] != pv[k] {
            assert(s@.subrange(0, pv@.len() as int)[k as int] != pv@[k as int]);
            return false;
        }
        k += 1;
    }
    assert(s@.subrange(0, pv@.len() as int) =~= pv@);
    true
}

fn ends_with_slash_gt(s: &Vec<char>) -> (b: bool)
    ensures
        b == (s@.len() >= 2 && s@.skip(s@.len() - 2) == "/>"@),
{
    proof {
        reveal_strlit("/>");
    }
    if s.len() < 2 {
        return false;
    }
    let n = s.len();
    let r = s[n - 2] == '/' && s[n - 1] == '>';
    proof {
        if r {
            assert(s@.skip(n - 2) =~= "/>"@);
        } else {
            assert(s@.skip(n - 2)[0] != '/' || s@.skip(n - 2)[1] != '>');
        }
    }
    r
}

/// Extracts the `data:` URL of a fragment that is one `<image .../>` element.
pub fn try_parse_single_image_data_url(svg: &str) -> (r: Option<String>)
    ensures
        match r {
            Some(v) => single_image_data_url(svg@) == Some(v@),
            None => single_image_data_url(svg@) is None,
        },
{
    let all = str_chars(svg);
    let s = trimmed(&all);
    if !starts_with(s.as_slice(), "<image") || !ends_with_slash_gt(&s) {
        return None;
    }
    if count_char_exec(&s, '<') != 1 {
        return None;
    }
    let href = match attr_value(&s, "xlink:href") {
        Some(h) => h,
        None => match attr_value(&s, "href") {
            Some(h) => h,
            None => return None,
        },
    };
    if !starts_with(href.as_slice(), "data:") {
        return None;
    }
    Some(chars_string(href.as_slice()))
}

/// ASCII white space skipped before an SVG prefix.
pub open spec fn prefix_ws(b: u8) -> bool {
    b == 32 || b == 9 || b == 10 || b == 13
}

/// The number of leading white-space bytes, counting at most `cap`.
pub open spec fn leading_ws(d: Seq<u8>, i: int, cap: int) -> int
    decreases cap - i,
{
    if i < 0 || i >= cap || i >= d.len() || !prefix_ws(d[i]) {
        i
    } else {
        leading_ws(d, i + 1, cap)
    }
}

/// `p` occurs in `d` at `i`.
pub open spec fn bytes_at(d: Seq<u8>, p: Seq<u8>, i: int) -> bool {
    0 <= i && i + p.len() <= d.len() && d.subrange(i, i + p.len()) == p
}

/// `<svg` as bytes.
pub open spec fn svg_tag() -> Seq<u8> {
    seq![60u8, 115u8, 118u8, 103u8]
}

/// `<?xml` as bytes.
pub open spec fn xml_decl() -> Seq<u8> {
    seq![60u8, 63u8, 120u8, 109u8, 108u8]
}

/// A byte stream that starts, after at most 64 bytes of white space, with
/// `<svg`, or with `<?xml` and has `<svg` within its first 256 bytes from there.
pub open spec fn svg_prefix(d: Seq<u8>) -> bool {
    let i = leading_ws(d, 0, 64);
    if d.len() - i < 4 {
        false
    } else if bytes_at(d, svg_tag(), i) {
        true
    } else if bytes_at(d, xml_decl(), i) {
        let end = if d.len() < i + 256 {
            d.len() as int
        } else {
            i + 256
        };
        exists|k: int| i <= k && k + 4 <= end && #[trigger] bytes_at(d, svg_tag(), k)
    } else {
        false
    }
}

fn bytes_at_exec(d: &[u8], p: &[u8], i: usize) -> (b: bool)
    ensures
        b == bytes_at(d@, p@, i as int),
{
    if i > d.len() || p.len() > d.len() - i {
        return false;
    }
    assert(d@.len() == d.len());
    let mut k: usize = 0;
    while k < p.len()
        invariant
            i + p@.len() <= d@.len(),
            d@.len() <= usize::MAX,
            k <= p@.len(),
            forall|m: int| 0 <= m < k ==> d@[i + m] == p@[m],
        decreases p.len() - k,
    {
        if d[i + k] != p[k] {
            assert(d@.subrange(i as int, i + p@.len())[k as int] != p@[k as int]);
            return false;
        }
        k += 1;
    }
    assert(d@.subrange(i as int, i + p@.len()) =~= p@);
    true
}

/// Whether a byte stream is an SVG document (MIME sniffing).
pub fn is_svg_prefix(data: &[u8]) -> (b: bool)
    ensures
        b == svg_prefix(data@),
{
    let cap: usize = if data.len() < 64 {
        data.len()
    } else {
        64
    };
    let mut i: usize = 0;
    while i < cap && (data[i] == 32 || data[i] == 9 || data[i] == 10 || data[i] == 13)
        invariant
            i <= cap <= data@.len(),
            cap <= 64,
            leading_ws(data@, 0, 64) == leading_ws(data@, i as int, 64),
        decreases cap - i,
    {
        i += 1;
    }
    assert(leading_ws(data@, i as int, 64) == i);
    if data.len() - i < 4 {
        return false;
    }
    let mut svg: Vec<u8> = Vec::new();
    svg.push(60u8);
    svg.push(115u8);
    svg.push(118u8);
    svg.push(103u8);
    assert(svg@ =~= svg_tag());
    if bytes_at_exec(data, svg.as_slice(), i) {
        return true;
    }
    let mut xml: Vec<u8> = Vec::new();
    xml.push(60u8);
    xml.push(63u8);
    xml.push(120u8);
    xml.push(109u8);
    xml.push(108u8);
    assert(xml@ =~= xml_decl());
    if bytes_at_exec(data, xml.as_slice(), i) {
        let end: usize = if data.len() - i < 256 {
            data.len()
        } else {
            i + 256
        };
        let mut k = i;
        while k < end && end - k >= 4
            invariant
                i <= k,
                end <= data@.len(),
                svg@ == svg_tag(),
                i == leading_ws(data@, 0, 64),
                data@.len() - i >= 4,
                bytes_at(data@, xml_decl(), i as int),
                !bytes_at(data@, svg_tag(), i as int),
                end == (if data@.len() < i + 256 {
                    data@.len() as int
                } else {
                    i + 256
                }),
                forall|m: int| i <= m < k ==> !#[trigger] bytes_at(data@, svg_tag(), m),
            decreases end - k,
        {
            if bytes_at_exec(data, svg.as_slice(), k) {
                return true;
            }
            k += 1;
        }
        return false;
    }
    false
}

/// The media type and payload of a `data:MIME;base64,PAYLOAD` URL; `None`
/// for any other form.
pub open spec fn base64_data_url_parts(url: Seq<char>) -> Option<(Seq<char>, Seq<char>)> {
    if !matches_at(url, "data:"@, 0) {
        None
    } else {
        let rest = url.skip(5);
        match find_from(rest, seq![','], 0) {
            None => None,
            Some(c) => {
                let header = rest.take(c);
                if header.len() >= 7 && header.skip(header.len() - 7) == ";base64"@ {
                    Some((header.take(header.len() - 7), rest.skip(c + 1)))
                } else {
                    None
                }
            },
        }
    }
}

/// The bytes a standard-alphabet, padded base64 text stands for, or `None`
/// when it is not valid base64.
pub uninterp spec fn base64_standard_decoded(text: Seq<char>) -> Option<Seq<u8>>;

/// `base64::engine::general_purpose::STANDARD.decode`: the decoded bytes,
/// `None` when the text is not valid standard base64.
#[verifier::external_body]
fn base64_decode(text: &str) -> (r: Option<Vec<u8>>)
    ensures
        match r {
            Some(b) => base64_standard_decoded(text@) == Some(b@),
            None => base64_standard_decoded(text@) is None,
        },
{
    match base64::engine::general_purpose::STANDARD.decode(text) {
        Ok(bytes) => Some(bytes),
        Err(_) => None,
    }
}

fn ends_with_base64(h: &Vec<char>) -> (b: bool)
    ensures
        b == (h@.len() >= 7 && h@.skip(h@.len() - 7) == ";base64"@),
{
    proof {
        reveal_strlit(";base64");
    }
    if h.len() < 7 {
        return false;
    }
    let start = h.len() - 7;
    let marker = str_chars(";base64");
    let mut k: usize = 0;
    while k < 7
        invariant
            start + 7 == h@.len(),
            h@.len() == h.len(),
            marker@ == ";base64"@,
            marker@.len() == 7,
            k <= 7,
            forall|m: int| 0 <= m < k ==> h@[start + m] == marker@[m],
        decreases 7 - k,
    {
        if h[start + k] != marker[k] {
            assert(h@.skip(start as int)[k as int] != marker@[k as int]);
            return false;
        }
        k += 1;
    }
    assert(h@.skip(start as int) =~= marker@);
    true
}

/// Splits a `data:MIME;base64,PAYLOAD` URL into its media type and payload.
pub fn split_base64_data_url(data_url: &str) -> (r: Option<(String, String)>)
    ensures
        match r {
            Some((m, p)) => base64_data_url_parts(data_url@) == Some((m@, p@)),
            None => base64_data_url_parts(data_url@) is None,
        },
{
    let s = str_chars(data_url);
    if !starts_with(s.as_slice(), "data:") {
        return None;
    }
    proof {
        reveal_strlit("data:");
        reveal_strlit(";base64");
    }
    assert(s@.len() == s.len());
    let rest = chars_range(s.as_slice(), 5, s.len());
    let mut comma: Vec<char> = Vec::new();
    comma.push(',');
    assert(comma@ =~= seq![',']);
    let c = match find_chars(rest.as_slice(), comma.as_slice(), 0) {
        Some(c) => c,
        None => return None,
    };
    let header = chars_range(rest.as_slice(), 0, c);
    if !ends_with_base64(&header) {
        assert(rest@.take(c as int) =~= header@);
        return None;
    }
    let mime = chars_range(header.as_slice(), 0, header.len() - 7);
    let payload = chars_range(rest.as_slice(), c + 1, rest.len());
    assert(rest@.take(c as int) =~= header@);
    assert(header@.take(header@.len() - 7) =~= mime@);
    assert(rest@.skip(c + 1) =~= payload@);
    Some((chars_string(mime.as_slice()), chars_string(payload.as_slice())))
}

/// Decodes a `data:MIME;base64,PAYLOAD` URL into its media type and bytes;
/// `None` for other data URLs and for invalid base64.
pub fn decode_base64_data_url(data_url: &str) -> (r: Option<(String, Vec<u8>)>)
    ensures
        match r {
            Some((m, b)) => base64_data_url_parts(data_url@) matches Some((mm, p)) && mm == m@
                && base64_standard_decoded(p) == Some(b@),
            None => match base64_data_url_parts(data_url@) {
                Some((_, p)) => base64_standard_decoded(p) is None,
                None => true,
            },
        },
{
    let (mime, payload) = match split_base64_data_url(data_url) {
        Some(parts) => parts,
        None => return None,
    };
    match base64_decode(payload.as_str()) {
        Some(bytes) => Some((mime, bytes)),
        None => None,
    }
}

} // verus!
