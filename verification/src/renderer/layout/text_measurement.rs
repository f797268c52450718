//! Character classes used by text measurement and layout, and the
//! grouping of Hangul jamo sequences into rendering clusters.

use crate::text::{
    chars_range, contains_chars, contains_seq, find_chars, find_from, is_unicode_whitespace,
    str_chars, string_push, trim_end, trim_start, trimmed, unicode_whitespace,
};
use crate::renderer::font_metrics_data::{FontMetric, LatinRange};
use vstd::prelude::*;

verus! {

/// Drawn as a wide colour emoji when no document font has the glyph.
pub open spec fn emoji_wide(c: char) -> bool {
    let u = c as u32;
    (0x1F300 <= u && u <= 0x1FAFF)
        || (0x1F000 <= u && u <= 0x1F02F)
        || (0x1F0A0 <= u && u <= 0x1F0FF)
        || (0x1F100 <= u && u <= 0x1F1FF)
        || (0x2600 <= u && u <= 0x27BF)
        || (0x2B00 <= u && u <= 0x2BFF)
        || u == 0x3030
        || u == 0x303D
        || u == 0x3297
        || u == 0x3299
}

pub fn is_emoji_wide(c: char) -> (b: bool)
    ensures
        b == emoji_wide(c),
{
    let u = c as u32;
    (0x1F300 <= u && u <= 0x1FAFF)
        || (0x1F000 <= u && u <= 0x1F02F)
        || (0x1F0A0 <= u && u <= 0x1F0FF)
        || (0x1F100 <= u && u <= 0x1F1FF)
        || (0x2600 <= u && u <= 0x27BF)
        || (0x2B00 <= u && u <= 0x2BFF)
        || u == 0x3030
        || u == 0x303D
        || u == 0x3297
        || u == 0x3299
}

/// Drawn as a colour emoji by default (Emoji_Presentation).
pub open spec fn emoji_presentation(c: char) -> bool {
    let u = c as u32;
    (0x231A <= u && u <= 0x231B)
        || (0x23E9 <= u && u <= 0x23EC)
        || u == 0x23F0
        || u == 0x23F3
        || (0x25FD <= u && u <= 0x25FE)
        || (0x2614 <= u && u <= 0x2615)
        || (0x2648 <= u && u <= 0x2653)
        || u == 0x267F
        || u == 0x2693
        || u == 0x26A1
        || (0x26AA <= u && u <= 0x26AB)
        || (0x26BD <= u && u <= 0x26BE)
        || (0x26C4 <= u && u <= 0x26C5)
        || u == 0x26CE
        || u == 0x26D4
        || u == 0x26EA
        || (0x26F2 <= u && u <= 0x26F3)
        || u == 0x26F5
        || u == 0x26FA
        || u == 0x26FD
        || u == 0x2705
        || (0x270A <= u && u <= 0x270B)
        || u == 0x2728
        || u == 0x274C
        || u == 0x274E
        || (0x2753 <= u && u <= 0x2755)
        || u == 0x2757
        || (0x2795 <= u && u <= 0x2797)
        || u == 0x27B0
        || u == 0x27BF
        || (0x2B1B <= u && u <= 0x2B1C)
        || u == 0x2B50
        || u == 0x2B55
        || u == 0x1F004
        || u == 0x1F0CF
        || u == 0x1F18E
        || (0x1F191 <= u && u <= 0x1F19A)
        || (0x1F1E6 <= u && u <= 0x1F1FF)
        || u == 0x1F201
        || u == 0x1F21A
        || u == 0x1F22F
        || (0x1F232 <= u && u <= 0x1F236)
        || (0x1F238 <= u && u <= 0x1F23A)
        || (0x1F250 <= u && u <= 0x1F251)
        || (0x1F300 <= u && u <= 0x1F320)
        || (0x1F32D <= u && u <= 0x1F335)
        || (0x1F337 <= u && u <= 0x1F37C)
        || (0x1F37E <= u && u <= 0x1F393)
        || (0x1F3A0 <= u && u <= 0x1F3CA)
        || (0x1F3CF <= u && u <= 0x1F3D3)
        || (0x1F3E0 <= u && u <= 0x1F3F0)
        || u == 0x1F3F4
        || (0x1F3F8 <= u && u <= 0x1F43E)
        || u == 0x1F440
        || (0x1F442 <= u && u <= 0x1F4FC)
        || (0x1F4FF <= u && u <= 0x1F53D)
        || (0x1F54B <= u && u <= 0x1F54E)
        || (0x1F550 <= u && u <= 0x1F567)
        || u == 0x1F57A
        || (0x1F595 <= u && u <= 0x1F596)
        || u == 0x1F5A4
        || (0x1F5FB <= u && u <= 0x1F64F)
        || (0x1F680 <= u && u <= 0x1F6C5)
        || u == 0x1F6CC
        || (0x1F6D0 <= u && u <= 0x1F6D2)
        || (0x1F6D5 <= u && u <= 0x1F6D7)
        || (0x1F6EB <= u && u <= 0x1F6EC)
        || (0x1F6F4 <= u && u <= 0x1F6FC)
        || (0x1F7E0 <= u && u <= 0x1F7EB)
        || (0x1F90C <= u && u <= 0x1F93A)
        || (0x1F93C <= u && u <= 0x1F945)
        || (0x1F947 <= u && u <= 0x1F9FF)
        || (0x1FA70 <= u && u <= 0x1FAFF)
}

pub fn is_emoji_presentation(c: char) -> (b: bool)
    ensures
        b == emoji_presentation(c),
{
    let u = c as u32;
    (0x231A <= u && u <= 0x231B)
        || (0x23E9 <= u && u <= 0x23EC)
        || u == 0x23F0
        || u == 0x23F3
        || (0x25FD <= u && u <= 0x25FE)
        || (0x2614 <= u && u <= 0x2615)
        || (0x2648 <= u && u <= 0x2653)
        || u == 0x267F
        || u == 0x2693
        || u == 0x26A1
        || (0x26AA <= u && u <= 0x26AB)
        || (0x26BD <= u && u <= 0x26BE)
        || (0x26C4 <= u && u <= 0x26C5)
        || u == 0x26CE
        || u == 0x26D4
        || u == 0x26EA
        || (0x26F2 <= u && u <= 0x26F3)
        || u == 0x26F5
        || u == 0x26FA
        || u == 0x26FD
        || u == 0x2705
        || (0x270A <= u && u <= 0x270B)
        || u == 0x2728
        || u == 0x274C
        || u == 0x274E
        || (0x2753 <= u && u <= 0x2755)
        || u == 0x2757
        || (0x2795 <= u && u <= 0x2797)
        || u == 0x27B0
        || u == 0x27BF
        || (0x2B1B <= u && u <= 0x2B1C)
        || u == 0x2B50
        || u == 0x2B55
        || u == 0x1F004
        || u == 0x1F0CF
        || u == 0x1F18E
        || (0x1F191 <= u && u <= 0x1F19A)
        || (0x1F1E6 <= u && u <= 0x1F1FF)
        || u == 0x1F201
        || u == 0x1F21A
        || u == 0x1F22F
        || (0x1F232 <= u && u <= 0x1F236)
        || (0x1F238 <= u && u <= 0x1F23A)
        || (0x1F250 <= u && u <= 0x1F251)
        || (0x1F300 <= u && u <= 0x1F320)
        || (0x1F32D <= u && u <= 0x1F335)
        || (0x1F337 <= u && u <= 0x1F37C)
        || (0x1F37E <= u && u <= 0x1F393)
        || (0x1F3A0 <= u && u <= 0x1F3CA)
        || (0x1F3CF <= u && u <= 0x1F3D3)
        || (0x1F3E0 <= u && u <= 0x1F3F0)
        || u == 0x1F3F4
        || (0x1F3F8 <= u && u <= 0x1F43E)
        || u == 0x1F440
        || (0x1F442 <= u && u <= 0x1F4FC)
        || (0x1F4FF <= u && u <= 0x1F53D)
        || (0x1F54B <= u && u <= 0x1F54E)
        || (0x1F550 <= u && u <= 0x1F567)
        || u == 0x1F57A
        || (0x1F595 <= u && u <= 0x1F596)
        || u == 0x1F5A4
        || (0x1F5FB <= u && u <= 0x1F64F)
        || (0x1F680 <= u && u <= 0x1F6C5)
        || u == 0x1F6CC
        || (0x1F6D0 <= u && u <= 0x1F6D2)
        || (0x1F6D5 <= u && u <= 0x1F6D7)
        || (0x1F6EB <= u && u <= 0x1F6EC)
        || (0x1F6F4 <= u && u <= 0x1F6FC)
        || (0x1F7E0 <= u && u <= 0x1F7EB)
        || (0x1F90C <= u && u <= 0x1F93A)
        || (0x1F93C <= u && u <= 0x1F945)
        || (0x1F947 <= u && u <= 0x1F9FF)
        || (0x1FA70 <= u && u <= 0x1FAFF)
}

/// An emoji joiner or modifier, drawn with the character before it.
pub open spec fn emoji_zero_width(c: char) -> bool {
    let u = c as u32;
    u == 0xFE0E
        || u == 0xFE0F
        || u == 0x200D
        || (0x1F3FB <= u && u <= 0x1F3FF)
        || u == 0x20E3
}

pub fn is_emoji_zero_width(c: char) -> (b: bool)
    ensures
        b == emoji_zero_width(c),
{
    let u = c as u32;
    u == 0xFE0E
        || u == 0xFE0F
        || u == 0x200D
        || (0x1F3FB <= u && u <= 0x1F3FF)
        || u == 0x20E3
}

/// A Hangul, CJK ideograph, kana or full-width character.
pub open spec fn cjk_char(c: char) -> bool {
    let u = c as u32;
    (0x1100 <= u && u <= 0x11FF)
        || (0x3130 <= u && u <= 0x318F)
        || (0xAC00 <= u && u <= 0xD7AF)
        || (0xA960 <= u && u <= 0xA97F)
        || (0xD7B0 <= u && u <= 0xD7FF)
        || (0x4E00 <= u && u <= 0x9FFF)
        || (0x3400 <= u && u <= 0x4DBF)
        || (0xF900 <= u && u <= 0xFAFF)
        || (0x3040 <= u && u <= 0x30FF)
        || (0xFF00 <= u && u <= 0xFFEF)
}

pub fn is_cjk_char(c: char) -> (b: bool)
    ensures
        b == cjk_char(c),
{
    let u = c as u32;
    (0x1100 <= u && u <= 0x11FF)
        || (0x3130 <= u && u <= 0x318F)
        || (0xAC00 <= u && u <= 0xD7AF)
        || (0xA960 <= u && u <= 0xA97F)
        || (0xD7B0 <= u && u <= 0xD7FF)
        || (0x4E00 <= u && u <= 0x9FFF)
        || (0x3400 <= u && u <= 0x4DBF)
        || (0xF900 <= u && u <= 0xFAFF)
        || (0x3040 <= u && u <= 0x30FF)
        || (0xFF00 <= u && u <= 0xFFEF)
}

/// Punctuation whose glyph is clearly narrower than half an em.
pub open spec fn narrow_punctuation(c: char) -> bool {
    let u = c as u32;
    u == 0x2C
        || u == 0x2E
        || u == 0x3A
        || u == 0x3B
        || u == 0x27
        || u == 0x22
        || u == 0x60
        || u == 0xB7
        || u == 0x2018
        || u == 0x2019
        || u == 0x2027
        || u == 0x302E
        || u == 0x302F
}

pub fn is_narrow_punctuation(c: char) -> (b: bool)
    ensures
        b == narrow_punctuation(c),
{
    let u = c as u32;
    u == 0x2C
        || u == 0x2E
        || u == 0x3A
        || u == 0x3B
        || u == 0x27
        || u == 0x22
        || u == 0x60
        || u == 0xB7
        || u == 0x2018
        || u == 0x2019
        || u == 0x2027
        || u == 0x302E
        || u == 0x302F
}

/// A CJK corner bracket set with a half-width advance.
pub open spec fn halfwidth_cjk_quote(c: char) -> bool {
    let u = c as u32;
    u == 0x300C
        || u == 0x300D
}

pub fn is_halfwidth_cjk_quote(c: char) -> (b: bool)
    ensures
        b == halfwidth_cjk_quote(c),
{
    let u = c as u32;
    u == 0x300C
        || u == 0x300D
}

/// A symbol set with a full-width advance.
pub open spec fn fullwidth_symbol(c: char) -> bool {
    let u = c as u32;
    u == 0x20A9
        || u == 0x20AC
        || u == 0xA3
        || u == 0xA5
        || (0x2190 <= u && u <= 0x21FF)
        || (0x2460 <= u && u <= 0x24FF)
        || (0x25A0 <= u && u <= 0x25FF)
        || (0x2600 <= u && u <= 0x26FF)
        || (0x2700 <= u && u <= 0x27BF)
        || (0x3200 <= u && u <= 0x32FF)
        || (0x3300 <= u && u <= 0x33FF)
        || (0x2160 <= u && u <= 0x217F)
}

pub fn is_fullwidth_symbol(c: char) -> (b: bool)
    ensures
        b == fullwidth_symbol(c),
{
    let u = c as u32;
    u == 0x20A9
        || u == 0x20AC
        || u == 0xA3
        || u == 0xA5
        || (0x2190 <= u && u <= 0x21FF)
        || (0x2460 <= u && u <= 0x24FF)
        || (0x25A0 <= u && u <= 0x25FF)
        || (0x2600 <= u && u <= 0x26FF)
        || (0x2700 <= u && u <= 0x27BF)
        || (0x3200 <= u && u <= 0x32FF)
        || (0x3300 <= u && u <= 0x33FF)
        || (0x2160 <= u && u <= 0x217F)
}

/// A leading Hangul jamo (old Hangul included).
pub open spec fn hangul_choseong(c: char) -> bool {
    let u = c as u32;
    (0x1100 <= u && u <= 0x115F)
        || (0xA960 <= u && u <= 0xA97F)
}

pub fn is_hangul_choseong(c: char) -> (b: bool)
    ensures
        b == hangul_choseong(c),
{
    let u = c as u32;
    (0x1100 <= u && u <= 0x115F)
        || (0xA960 <= u && u <= 0xA97F)
}

/// A vowel Hangul jamo (old Hangul included).
pub open spec fn hangul_jungseong(c: char) -> bool {
    let u = c as u32;
    (0x1160 <= u && u <= 0x11A7)
        || (0xD7B0 <= u && u <= 0xD7C6)
}

pub fn is_hangul_jungseong(c: char) -> (b: bool)
    ensures
        b == hangul_jungseong(c),
{
    let u = c as u32;
    (0x1160 <= u && u <= 0x11A7)
        || (0xD7B0 <= u && u <= 0xD7C6)
}

/// A trailing Hangul jamo (old Hangul included).
pub open spec fn hangul_jongseong(c: char) -> bool {
    let u = c as u32;
    (0x11A8 <= u && u <= 0x11FF)
        || (0xD7CB <= u && u <= 0xD7FB)
}

pub fn is_hangul_jongseong(c: char) -> (b: bool)
    ensures
        b == hangul_jongseong(c),
{
    let u = c as u32;
    (0x11A8 <= u && u <= 0x11FF)
        || (0xD7CB <= u && u <= 0xD7FB)
}

/// Rotated a quarter turn clockwise in vertical writing.
pub open spec fn vertical_rotate_char(c: char) -> bool {
    let u = c as u32;
    u == 0x28
        || u == 0x29
        || u == 0x5B
        || u == 0x5D
        || u == 0x7B
        || u == 0x7D
        || u == 0x3C
        || u == 0x3E
        || u == 0x2E
        || u == 0x2C
        || u == 0x5F
        || u == 0x2D
        || u == 0x7E
        || u == 0x2026
        || u == 0x2015
        || u == 0x2500
        || u == 0x2014
        || u == 0x2013
        || u == 0x3008
        || u == 0x3009
        || u == 0x300A
        || u == 0x300B
        || u == 0x300C
        || u == 0x300D
        || u == 0x300E
        || u == 0x300F
        || u == 0x3010
        || u == 0x3011
        || u == 0xFF08
        || u == 0xFF09
        || u == 0xFF3B
        || u == 0xFF3D
        || u == 0xFF5B
        || u == 0xFF5D
}

pub fn is_vertical_rotate_char(c: char) -> (b: bool)
    ensures
        b == vertical_rotate_char(c),
{
    let u = c as u32;
    u == 0x28
        || u == 0x29
        || u == 0x5B
        || u == 0x5D
        || u == 0x7B
        || u == 0x7D
        || u == 0x3C
        || u == 0x3E
        || u == 0x2E
        || u == 0x2C
        || u == 0x5F
        || u == 0x2D
        || u == 0x7E
        || u == 0x2026
        || u == 0x2015
        || u == 0x2500
        || u == 0x2014
        || u == 0x2013
        || u == 0x3008
        || u == 0x3009
        || u == 0x300A
        || u == 0x300B
        || u == 0x300C
        || u == 0x300D
        || u == 0x300E
        || u == 0x300F
        || u == 0x3010
        || u == 0x3011
        || u == 0xFF08
        || u == 0xFF09
        || u == 0xFF3B
        || u == 0xFF3D
        || u == 0xFF5B
        || u == 0xFF5D
}

/// The number of characters of the cluster that starts at `i`: a leading
/// jamo takes a following vowel jamo, and then a following trailing jamo.
pub open spec fn cluster_len_at(s: Seq<char>, i: int) -> int {
    if hangul_choseong(s[i]) && i + 1 < s.len() && hangul_jungseong(s[i + 1]) {
        if i + 2 < s.len() && hangul_jongseong(s[i + 2]) {
            3
        } else {
            2
        }
    } else {
        1
    }
}

/// The clusters from position `i` on: (start index, characters).
pub open spec fn clusters_from(s: Seq<char>, i: int) -> Seq<(int, Seq<char>)>
    decreases s.len() - i,
{
    if i < 0 || i >= s.len() {
        Seq::empty()
    } else {
        seq![(i, s.subrange(i, i + cluster_len_at(s, i)))] + clusters_from(s, i + cluster_len_at(s, i))
    }
}

/// The clusters of a text, each with the index of its first character.
pub open spec fn clusters(s: Seq<char>) -> Seq<(int, Seq<char>)> {
    clusters_from(s, 0)
}

/// The view of a list of clusters.
pub open spec fn cluster_views(v: Seq<(usize, String)>) -> Seq<(int, Seq<char>)> {
    v.map_values(|p: (usize, String)| (p.0 as int, p.1@))
}

fn cluster_len_exec(s: &Vec<char>, i: usize) -> (n: usize)
    requires
        i < s@.len(),
    ensures
        n == cluster_len_at(s@, i as int),
        1 <= n <= 3,
        i + n <= s@.len(),
{
    if is_hangul_choseong(s[i]) && s.len() - i > 1 && is_hangul_jungseong(s[i + 1]) {
        if s.len() - i > 2 && is_hangul_jongseong(s[i + 2]) {
            3
        } else {
            2
        }
    } else {
        1
    }
}

/// Splits a text into rendering clusters: a Hangul jamo sequence (leading,
/// vowel, optional trailing) forms one cluster, every other character one
/// of its own. Each cluster comes with the index of its first character.
pub fn split_into_clusters(text: &str) -> (r: Vec<(usize, String)>)
    ensures
        cluster_views(r@) == clusters(text@),
{
    let chars = str_chars(text);
    let mut out: Vec<(usize, String)> = Vec::new();
    let mut i: usize = 0;
    while i < chars.len()
        invariant
            chars@ == text@,
            i <= chars@.len(),
            cluster_views(out@) + clusters_from(chars@, i as int) == clusters(chars@),
        decreases chars.len() - i,
    {
        let n = cluster_len_exec(&chars, i);
        let mut cluster = String::new();
        let mut k: usize = 0;
        while k < n
            invariant
                i + n <= chars@.len(),
                chars@.len() == chars.len(),
                n == cluster_len_at(chars@, i as int),
                k <= n,
                cluster@ == chars@.subrange(i as int, i + k),
            decreases n - k,
        {
            string_push(&mut cluster, chars[i + k]);
            assert(chars@.subrange(i as int, i + k + 1) == chars@.subrange(i as int, i + k).push(
                chars@[i + k],
            ));
            k += 1;
        }
        let ghost before = cluster_views(out@);
        out.push((i, cluster));
        proof {
            assert(cluster_views(out@) =~= before.push((i as int, cluster@)));
            let rest = clusters_from(chars@, i + n);
            assert(before.push((i as int, cluster@)) + rest =~= before + (seq![(i as int, cluster@)]
                + rest));
        }
        i = i + n;
    }
    out
}

/// The characters of a list of clusters, one after the other.
pub open spec fn cluster_text(cs: Seq<(int, Seq<char>)>) -> Seq<char>
    decreases cs.len(),
{
    if cs.len() == 0 {
        Seq::empty()
    } else {
        cs[0].1 + cluster_text(cs.drop_first())
    }
}

/// The shape of one cluster: one to three characters, more than one only
/// as a leading jamo, a vowel jamo and optionally a trailing jamo.
pub open spec fn cluster_shape_ok(c: Seq<char>) -> bool {
    &&& 1 <= c.len() <= 3
    &&& c.len() > 1 ==> hangul_choseong(c[0]) && hangul_jungseong(c[1])
    &&& c.len() == 3 ==> hangul_jongseong(c[2])
}

proof fn lemma_clusters_from_cover(s: Seq<char>, i: int)
    requires
        0 <= i <= s.len(),
    ensures
        ({
            let cs = clusters_from(s, i);
            &&& cluster_text(cs) == s.subrange(i, s.len() as int)
            &&& forall|k: int| 0 <= k < cs.len() ==> cluster_shape_ok(#[trigger] cs[k].1)
            &&& cs.len() > 0 ==> cs[0].0 == i
            &&& forall|k: int| 0 <= k < cs.len() - 1 ==> #[trigger] cs[k + 1].0 == cs[k].0 + cs[k].1.len()
        }),
    decreases s.len() - i,
{
    let cs = clusters_from(s, i);
    if i < s.len() {
        let n = cluster_len_at(s, i);
        let head = (i, s.subrange(i, i + n));
        let rest = clusters_from(s, i + n);
        lemma_clusters_from_cover(s, i + n);
        assert(cs == seq![head] + rest);
        assert(cs.drop_first() =~= rest);
        assert(s.subrange(i, i + n) + s.subrange(i + n, s.len() as int) =~= s.subrange(i, s.len() as int));
        assert forall|k: int| 0 <= k < cs.len() implies cluster_shape_ok(#[trigger] cs[k].1) by {
            if k > 0 {
                assert(cs[k] == rest[k - 1]);
            }
        }
        assert forall|k: int| 0 <= k < cs.len() - 1 implies #[trigger] cs[k + 1].0 == cs[k].0 + cs[k].1.len() by {
            assert(cs[k + 1] == rest[k]);
            if k > 0 {
                assert(cs[k] == rest[k - 1]);
            }
        }
    } else {
        assert(s.subrange(i, s.len() as int) =~= Seq::<char>::empty());
    }
}

/// The clusters of a text cover it: their characters, one after the
/// other, are the text; the first starts at 0 and each next one where the
/// previous ends; each has one to three characters, more than one only as
/// a Hangul jamo sequence.
pub proof fn law_clusters_cover_text(s: Seq<char>)
    ensures
        cluster_text(clusters(s)) == s,
        forall|k: int| 0 <= k < clusters(s).len() ==> cluster_shape_ok(#[trigger] clusters(s)[k].1),
        clusters(s).len() > 0 ==> clusters(s)[0].0 == 0,
        forall|k: int|
            0 <= k < clusters(s).len() - 1 ==> #[trigger] clusters(s)[k + 1].0 == clusters(s)[k].0
                + clusters(s)[k].1.len(),
{
    lemma_clusters_from_cover(s, 0);
    assert(s.subrange(0, s.len() as int) =~= s);
}

/// The cluster lengths from position `i` on: the length at the first
/// character of each cluster, 0 at the others.
pub open spec fn cluster_lens_from(s: Seq<char>, i: int) -> Seq<u8>
    decreases s.len() - i,
{
    if i < 0 || i >= s.len() {
        Seq::empty()
    } else {
        let n = cluster_len_at(s, i);
        seq![n as u8] + Seq::new((n - 1) as nat, |k: int| 0u8) + cluster_lens_from(s, i + n)
    }
}

/// Where a cluster starts, the length its cluster has.
pub open spec fn lens_at_cluster(lens: Seq<u8>, c: (int, Seq<char>), i: int) -> bool {
    lens[c.0 - i] as int == c.1.len() as int
}

proof fn lemma_cluster_lens_from(s: Seq<char>, i: int)
    requires
        0 <= i <= s.len(),
    ensures
        cluster_lens_from(s, i).len() == s.len() - i,
        forall|k: int|
            0 <= k < clusters_from(s, i).len() ==> i <= (#[trigger] clusters_from(s, i)[k]).0 < s.len()
                && lens_at_cluster(cluster_lens_from(s, i), clusters_from(s, i)[k], i),
        forall|j: int|
            0 <= j < cluster_lens_from(s, i).len() && #[trigger] cluster_lens_from(s, i)[j] != 0
                ==> exists|k: int| 0 <= k < clusters_from(s, i).len() && clusters_from(s, i)[k].0 == i + j,
    decreases s.len() - i,
{
    if i < s.len() {
        let n = cluster_len_at(s, i);
        let cs = clusters_from(s, i);
        let lens = cluster_lens_from(s, i);
        let rest = clusters_from(s, i + n);
        let rl = cluster_lens_from(s, i + n);
        let z = Seq::new((n - 1) as nat, |k: int| 0u8);
        lemma_clusters_from_cover(s, i + n);
        lemma_cluster_lens_from(s, i + n);
        assert(cs == seq![(i, s.subrange(i, i + n))] + rest);
        assert(lens == seq![n as u8] + z + rl);
        assert((seq![n as u8] + z).len() == n);
        assert forall|k: int| 0 <= k < cs.len() implies i <= (#[trigger] cs[k]).0 < s.len()
            && lens_at_cluster(lens, cs[k], i) by {
            if k > 0 {
                let x = rest[k - 1];
                assert(cs[k] == x);
                assert(i + n <= x.0 < s.len() && lens_at_cluster(rl, x, i + n));
                assert(lens[x.0 - i] == rl[x.0 - i - n]);
            } else {
                assert(lens[0] == n as u8);
            }
        }
        assert forall|j: int| 0 <= j < lens.len() && #[trigger] lens[j] != 0 implies exists|k: int|
            0 <= k < cs.len() && cs[k].0 == i + j by {
            if j == 0 {
                assert(cs[0].0 == i);
            } else if j < n {
                assert(lens[j] == z[j - 1]);
            } else {
                assert(lens[j] == rl[j - n]);
                assert(rl[j - n] != 0);
                let k = choose|k: int| 0 <= k < rest.len() && rest[k].0 == i + n + (j - n);
                assert(cs[k + 1] == rest[k]);
            }
        }
    } else {
        assert(clusters_from(s, i).len() == 0);
    }
}

/// The cluster lengths mark the clusters: one entry per character, the
/// length of its cluster at each cluster's first character, and 0 at every
/// other character.
pub proof fn law_cluster_lens_mark_clusters(s: Seq<char>)
    ensures
        cluster_lens_from(s, 0).len() == s.len(),
        forall|k: int|
            0 <= k < clusters(s).len() ==> lens_at_cluster(
                cluster_lens_from(s, 0),
                #[trigger] clusters(s)[k],
                0,
            ),
        forall|j: int|
            0 <= j < s.len() && #[trigger] cluster_lens_from(s, 0)[j] != 0 ==> exists|k: int|
                0 <= k < clusters(s).len() && clusters(s)[k].0 == j,
{
    lemma_cluster_lens_from(s, 0);
    assert forall|j: int| 0 <= j < s.len() && #[trigger] cluster_lens_from(s, 0)[j] != 0 implies exists|k: int|
        0 <= k < clusters(s).len() && clusters(s)[k].0 == j by {
        let k = choose|k: int| 0 <= k < clusters_from(s, 0).len() && clusters_from(s, 0)[k].0 == 0 + j;
        assert(clusters(s)[k].0 == j);
    }
}

pub fn build_cluster_len(chars: &Vec<char>) -> (v: Vec<u8>)
    ensures
        v@ == cluster_lens_from(chars@, 0),
{
    let mut v: Vec<u8> = Vec::new();
    let mut i: usize = 0;
    while i < chars.len()
        invariant
            i <= chars@.len(),
            v@ + cluster_lens_from(chars@, i as int) == cluster_lens_from(chars@, 0),
        decreases chars.len() - i,
    {
        let n = cluster_len_exec(chars, i);
        let ghost before = v@;
        v.push(n as u8);
        let mut k: usize = 1;
        while k < n
            invariant
                1 <= k <= n <= 3,
                v@ == before.push(n as u8) + Seq::new((k - 1) as nat, |m: int| 0u8),
            decreases n - k,
        {
            v.push(0u8);
            assert(before.push(n as u8) + Seq::new(k as nat, |m: int| 0u8) =~= (before.push(n as u8)
                + Seq::new((k - 1) as nat, |m: int| 0u8)).push(0u8));
            k += 1;
        }
        proof {
            let rest = cluster_lens_from(chars@, i + n);
            let z = Seq::new((n - 1) as nat, |m: int| 0u8);
            assert(before.push(n as u8) + z + rest =~= before + (seq![n as u8] + z + rest));
        }
        i = i + n;
    }
    v
}

/// The number of `-` immediately before position `i`.
pub open spec fn dashes_before(s: Seq<char>, i: int) -> nat
    decreases i,
{
    if i <= 0 || s[i - 1] != '-' {
        0
    } else {
        1 + dashes_before(s, i - 1)
    }
}

/// The number of `-` immediately after position `i`.
pub open spec fn dashes_after(s: Seq<char>, i: int) -> nat
    decreases s.len() - i,
{
    if i < 0 || i + 1 >= s.len() || s[i + 1] != '-' {
        0
    } else {
        1 + dashes_after(s, i + 1)
    }
}

/// Position `i` is a `-` in a run of three or more.
pub open spec fn dash_leader_run(s: Seq<char>, i: int) -> bool {
    s[i] == '-' && dashes_before(s, i) + 1 + dashes_after(s, i) >= 3
}

pub fn is_dash_leader_run(chars: &[char], i: usize) -> (b: bool)
    requires
        i < chars@.len(),
    ensures
        b == dash_leader_run(chars@, i as int),
{
    if chars[i] != '-' {
        return false;
    }
    let mut count: usize = 1;
    let mut j = i;
    while j > 0 && chars[j - 1] == '-'
        invariant
            j <= i < chars@.len(),
            chars@[i as int] == '-',
            count == 1 + (i - j),
            count < 3,
            dashes_before(chars@, i as int) == (i - j) + dashes_before(chars@, j as int),
        decreases j,
    {
        assert(dashes_before(chars@, j as int) == 1 + dashes_before(chars@, j - 1));
        count += 1;
        j -= 1;
        if count >= 3 {
            return true;
        }
    }
    let before = count;
    let mut j = i;
    while j + 1 < chars.len() && chars[j + 1] == '-'
        invariant
            i <= j < chars@.len(),
            chars@[i as int] == '-',
            count == before + (j - i),
            before == 1 + dashes_before(chars@, i as int),
            count < 3,
            dashes_after(chars@, i as int) == (j - i) + dashes_after(chars@, j as int),
        decreases chars.len() - j,
    {
        assert(dashes_after(chars@, j as int) == 1 + dashes_after(chars@, j + 1));
        count += 1;
        j += 1;
        if count >= 3 {
            return true;
        }
    }
    false
}

/// From position `i` on: no tab, only white space and ASCII digits, and a
/// digit somewhere (or already `seen`).
pub open spec fn page_number_suffix(s: Seq<char>, i: int, seen: bool) -> bool
    decreases s.len() - i,
{
    if i < 0 || i >= s.len() {
        seen
    } else if s[i] == '\t' {
        false
    } else if unicode_whitespace(s[i]) {
        page_number_suffix(s, i + 1, seen)
    } else if '0' <= s[i] <= '9' {
        page_number_suffix(s, i + 1, true)
    } else {
        false
    }
}

pub fn tab_suffix_is_ascii_page_number(chars: &[char], start: usize) -> (b: bool)
    ensures
        b == (start <= chars@.len() && page_number_suffix(chars@, start as int, false)),
{
    if start > chars.len() {
        return false;
    }
    let mut seen = false;
    let mut k = start;
    while k < chars.len()
        invariant
            start <= k <= chars@.len(),
            page_number_suffix(chars@, start as int, false) == page_number_suffix(
                chars@,
                k as int,
                seen,
            ),
        decreases chars.len() - k,
    {
        let ch = chars[k];
        if ch == '\t' {
            return false;
        }
        if is_unicode_whitespace(ch) {
            k += 1;
            continue;
        }
        if '0' <= ch && ch <= '9' {
            seen = true;
            k += 1;
            continue;
        }
        return false;
    }
    seen
}

/// The vertical form of a character in vertical writing, if it has one.
pub open spec fn vertical_form(c: char) -> Option<char> {
    if c == '(' {
        Some('\u{FE35}')
    } else if c == '\u{FF08}' {
        Some('\u{FE35}')
    } else if c == ')' {
        Some('\u{FE36}')
    } else if c == '\u{FF09}' {
        Some('\u{FE36}')
    } else if c == '{' {
        Some('\u{FE37}')
    } else if c == '\u{FF5B}' {
        Some('\u{FE37}')
    } else if c == '}' {
        Some('\u{FE38}')
    } else if c == '\u{FF5D}' {
        Some('\u{FE38}')
    } else if c == '[' {
        Some('\u{FE39}')
    } else if c == '\u{FF3B}' {
        Some('\u{FE39}')
    } else if c == ']' {
        Some('\u{FE3A}')
    } else if c == '\u{FF3D}' {
        Some('\u{FE3A}')
    } else if c == '\u{3010}' {
        Some('\u{FE3B}')
    } else if c == '\u{3011}' {
        Some('\u{FE3C}')
    } else if c == '\u{3008}' {
        Some('\u{FE3F}')
    } else if c == '\u{3009}' {
        Some('\u{FE40}')
    } else if c == '\u{300A}' {
        Some('\u{FE3D}')
    } else if c == '\u{300B}' {
        Some('\u{FE3E}')
    } else if c == '\u{300C}' {
        Some('\u{FE41}')
    } else if c == '\u{300D}' {
        Some('\u{FE42}')
    } else if c == '\u{300E}' {
        Some('\u{FE43}')
    } else if c == '\u{300F}' {
        Some('\u{FE44}')
    } else if c == '\u{2014}' {
        Some('\u{FE31}')
    } else if c == '\u{2013}' {
        Some('\u{FE32}')
    } else if c == '\u{2015}' {
        Some('\u{FE31}')
    } else if c == '\u{2500}' {
        Some('\u{2502}')
    } else if c == '\u{2026}' {
        Some('\u{FE19}')
    } else if c == '~' {
        Some('\u{FE34}')
    } else if c == '_' {
        Some('\u{FE33}')
    } else {
        None
    }
}

pub fn vertical_substitute_char(c: char) -> (r: Option<char>)
    ensures
        r == vertical_form(c),
{
    if c == '(' {
        Some('\u{FE35}')
    } else if c == '\u{FF08}' {
        Some('\u{FE35}')
    } else if c == ')' {
        Some('\u{FE36}')
    } else if c == '\u{FF09}' {
        Some('\u{FE36}')
    } else if c == '{' {
        Some('\u{FE37}')
    } else if c == '\u{FF5B}' {
        Some('\u{FE37}')
    } else if c == '}' {
        Some('\u{FE38}')
    } else if c == '\u{FF5D}' {
        Some('\u{FE38}')
    } else if c == '[' {
        Some('\u{FE39}')
    } else if c == '\u{FF3B}' {
        Some('\u{FE39}')
    } else if c == ']' {
        Some('\u{FE3A}')
    } else if c == '\u{FF3D}' {
        Some('\u{FE3A}')
    } else if c == '\u{3010}' {
        Some('\u{FE3B}')
    } else if c == '\u{3011}' {
        Some('\u{FE3C}')
    } else if c == '\u{3008}' {
        Some('\u{FE3F}')
    } else if c == '\u{3009}' {
        Some('\u{FE40}')
    } else if c == '\u{300A}' {
        Some('\u{FE3D}')
    } else if c == '\u{300B}' {
        Some('\u{FE3E}')
    } else if c == '\u{300C}' {
        Some('\u{FE41}')
    } else if c == '\u{300D}' {
        Some('\u{FE42}')
    } else if c == '\u{300E}' {
        Some('\u{FE43}')
    } else if c == '\u{300F}' {
        Some('\u{FE44}')
    } else if c == '\u{2014}' {
        Some('\u{FE31}')
    } else if c == '\u{2013}' {
        Some('\u{FE32}')
    } else if c == '\u{2015}' {
        Some('\u{FE31}')
    } else if c == '\u{2500}' {
        Some('\u{2502}')
    } else if c == '\u{2026}' {
        Some('\u{FE19}')
    } else if c == '~' {
        Some('\u{FE34}')
    } else if c == '_' {
        Some('\u{FE33}')
    } else {
        None
    }
}

/// The first comma-separated name of a font family list, trimmed.
pub open spec fn primary_font(family: Seq<char>) -> Seq<char> {
    let first = match find_from(family, seq![','], 0) {
        Some(p) => family.take(p),
        None => family,
    };
    trim_end(trim_start(first))
}

/// `(` or `)` in a font whose measured parenthesis is narrow.
pub open spec fn narrow_paren_for_font(family: Seq<char>, c: char) -> bool {
    (c == '(' || c == ')') && (contains_seq(primary_font(family), "휴먼명조"@) || contains_seq(
        primary_font(family),
        "한양중고딕"@,
    ) || contains_seq(primary_font(family), "HY중고딕"@))
}

pub fn is_narrow_paren_for_font(font_family: &str, c: char) -> (b: bool)
    ensures
        b == narrow_paren_for_font(font_family@, c),
{
    if !(c == '(' || c == ')') {
        return false;
    }
    let chars = str_chars(font_family);
    let mut comma: Vec<char> = Vec::new();
    comma.push(',');
    assert(comma@ =~= seq![',']);
    let first = match find_chars(chars.as_slice(), comma.as_slice(), 0) {
        Some(p) => chars_range(chars.as_slice(), 0, p),
        None => chars_range(chars.as_slice(), 0, chars.len()),
    };
    assert(chars@.subrange(0, chars@.len() as int) == chars@);
    let primary = trimmed(&first);
    let a = str_chars("휴먼명조");
    let b = str_chars("한양중고딕");
    let h = str_chars("HY중고딕");
    contains_chars(primary.as_slice(), a.as_slice()) || contains_chars(
        primary.as_slice(),
        b.as_slice(),
    ) || contains_chars(primary.as_slice(), h.as_slice())
}

/// The text measurer built on the embedded font metrics.
pub struct EmbeddedTextMeasurer;

/// The text measurer that asks the browser canvas.
pub struct WasmTextMeasurer;


/// The tab kind stored in the high byte of word 2 of an inline tab's
/// extension data (1 left, 2 right, 3 centre, 4 decimal).
pub fn inline_tab_type(ext: &[u16; 7]) -> (r: u8)
    ensures
        r == ext@[2] / 256,
{
    let w = ext[2];
    assert((w >> 8u16) & 0xFFu16 == w / 256) by (bit_vector);
    ((w >> 8) & 0xFF) as u8
}

/// The kind of a tab stop: its alignment (1 = right) and its leader fill
/// (0 = none).
#[derive(Clone, Copy, Debug, PartialEq, Eq)]
pub struct TabStopKind {
    pub tab_type: u8,
    pub fill_type: u8,
}

/// A right tab with a leader.
pub open spec fn right_leader(t: TabStopKind) -> bool {
    t.tab_type == 1 && t.fill_type != 0
}

/// The index of the last right tab with a leader among the first `n` stops.
pub open spec fn last_right_leader(tabs: Seq<TabStopKind>, n: int) -> Option<int>
    decreases n,
{
    if n <= 0 {
        None
    } else if right_leader(tabs[n - 1]) {
        Some(n - 1)
    } else {
        last_right_leader(tabs, n - 1)
    }
}

/// The leader fill of the last right tab that has one.
pub fn right_leader_tab_fill(tab_stops: &[TabStopKind]) -> (r: Option<u8>)
    ensures
        r == (match last_right_leader(tab_stops@, tab_stops@.len() as int) {
            Some(k) => Some(tab_stops@[k].fill_type),
            None => None,
        }),
{
    let mut k: usize = tab_stops.len();
    while k > 0
        invariant
            k <= tab_stops@.len(),
            last_right_leader(tab_stops@, tab_stops@.len() as int) == last_right_leader(
                tab_stops@,
                k as int,
            ),
        decreases k,
    {
        let t = tab_stops[k - 1];
        if t.tab_type == 1 && t.fill_type != 0 {
            return Some(t.fill_type);
        }
        k -= 1;
    }
    None
}

/// A width run takes part in the monospace test: it overlaps `!`..`~`.
pub open spec fn samples_ascii(r: LatinRange) -> bool {
    !(r.start > 0x7E || r.end < 0x21)
}

/// The non-zero widths of the printable ASCII code points among the first
/// `n` widths of a run, in order.
pub open spec fn run_samples(start: u32, widths: Seq<u16>, n: int) -> Seq<u16>
    decreases n,
{
    if n <= 0 {
        Seq::empty()
    } else {
        let code = start + (n - 1);
        let w = widths[n - 1];
        run_samples(start, widths, n - 1) + if 0x21 <= code <= 0x7E && w != 0 {
            seq![w]
        } else {
            Seq::empty()
        }
    }
}

/// The sampled widths of the first `n` runs, in order.
pub open spec fn metric_samples(ranges: Seq<LatinRange>, n: int) -> Seq<u16>
    decreases n,
{
    if n <= 0 {
        Seq::empty()
    } else {
        let r = ranges[n - 1];
        metric_samples(ranges, n - 1) + if samples_ascii(r) {
            run_samples(r.start, r.widths@, r.widths@.len() as int)
        } else {
            Seq::empty()
        }
    }
}

/// All samples are equal.
pub open spec fn all_same(s: Seq<u16>) -> bool {
    forall|i: int, j: int| 0 <= i < s.len() && 0 <= j < s.len() ==> s[i] == s[j]
}

/// A font counts as monospace when its printable ASCII glyphs that have a
/// width all have the same one, and there are at least 16 of them.
pub open spec fn monospace_metric(m: FontMetric) -> bool {
    let s = metric_samples(m.latin_ranges@, m.latin_ranges@.len() as int);
    all_same(s) && s.len() >= 16
}

/// The code points of a sampled run fit in a `u32`.
pub open spec fn ranges_fit(ranges: Seq<LatinRange>) -> bool {
    forall|k: int|
        0 <= k < ranges.len() && samples_ascii(#[trigger] ranges[k]) ==> ranges[k].start
            + ranges[k].widths@.len() <= u32::MAX + 1
}

/// `a` is a prefix of `b`.
pub open spec fn prefix_of(a: Seq<u16>, b: Seq<u16>) -> bool {
    a.len() <= b.len() && b.take(a.len() as int) == a
}

proof fn lemma_prefix_trans(a: Seq<u16>, b: Seq<u16>, c: Seq<u16>)
    requires
        prefix_of(a, b),
        prefix_of(b, c),
    ensures
        prefix_of(a, c),
{
    assert(c.take(a.len() as int) =~= c.take(b.len() as int).take(a.len() as int));
}

proof fn lemma_run_prefix(start: u32, widths: Seq<u16>, i: int, j: int)
    requires
        0 <= i <= j,
    ensures
        prefix_of(run_samples(start, widths, i), run_samples(start, widths, j)),
    decreases j - i,
{
    if i < j {
        lemma_run_prefix(start, widths, i, j - 1);
        let a = run_samples(start, widths, i);
        let b = run_samples(start, widths, j - 1);
        let c = run_samples(start, widths, j);
        assert(c.take(b.len() as int) =~= b);
        lemma_prefix_trans(a, b, c);
    } else {
        let a = run_samples(start, widths, i);
        assert(a.take(a.len() as int) =~= a);
    }
}

proof fn lemma_metric_prefix(rs: Seq<LatinRange>, i: int, j: int)
    requires
        0 <= i <= j,
    ensures
        prefix_of(metric_samples(rs, i), metric_samples(rs, j)),
    decreases j - i,
{
    if i < j {
        lemma_metric_prefix(rs, i, j - 1);
        let a = metric_samples(rs, i);
        let b = metric_samples(rs, j - 1);
        let c = metric_samples(rs, j);
        assert(c.take(b.len() as int) =~= b);
        lemma_prefix_trans(a, b, c);
    } else {
        let a = metric_samples(rs, i);
        assert(a.take(a.len() as int) =~= a);
    }
}

/// Two differing samples found on the way make the whole set of samples
/// not all the same.
proof fn lemma_samples_prefix(rs: Seq<LatinRange>, ri: int, i: int, seen: Seq<u16>, w: u16)
    requires
        0 <= ri < rs.len(),
        samples_ascii(rs[ri]),
        0 <= i < rs[ri].widths@.len(),
        seen.push(w) == metric_samples(rs, ri) + run_samples(rs[ri].start, rs[ri].widths@, i + 1),
        seen.len() > 0,
        seen[0] != w,
    ensures
        !all_same(metric_samples(rs, rs.len() as int)),
{
    let r = rs[ri];
    let s2 = seen.push(w);
    let before = metric_samples(rs, ri);
    let run_full = run_samples(r.start, r.widths@, r.widths@.len() as int);
    lemma_run_prefix(r.start, r.widths@, i + 1, r.widths@.len() as int);
    let mid = before + run_full;
    assert(mid == metric_samples(rs, ri + 1));
    assert(mid.take(s2.len() as int) =~= s2) by {
        let rp = run_samples(r.start, r.widths@, i + 1);
        assert(run_full.take(rp.len() as int) == rp);
        assert forall|k: int| 0 <= k < s2.len() implies #[trigger] mid.take(s2.len() as int)[k]
            == s2[k] by {
            if k >= before.len() {
                assert(run_full.take(rp.len() as int)[k - before.len()] == rp[k - before.len()]);
            }
        }
    }
    lemma_metric_prefix(rs, ri + 1, rs.len() as int);
    let full = metric_samples(rs, rs.len() as int);
    lemma_prefix_trans(s2, mid, full);
    assert(full.take(s2.len() as int)[0] == full[0]);
    assert(full.take(s2.len() as int)[s2.len() - 1] == full[s2.len() - 1]);
    assert(full[0] != full[s2.len() - 1]);
}

/// Whether a font's printable ASCII glyphs all share one width (with
/// enough of them to tell).
pub fn is_monospace_metric(metric: &FontMetric) -> (b: bool)
    requires
        ranges_fit(metric.latin_ranges@),
    ensures
        b == monospace_metric(*metric),
{
    let ghost rs = metric.latin_ranges@;
    let mut common: Option<u16> = None;
    // the number of samples seen, counted up to the 16 the test needs
    let mut count: u32 = 0;
    let ghost mut seen: Seq<u16> = Seq::empty();
    for ri in 0..metric.latin_ranges.len()
        invariant
            rs == metric.latin_ranges@,
            ranges_fit(rs),
            seen == metric_samples(rs, ri as int),
            all_same(seen),
            count == (if seen.len() < 16 { seen.len() } else { 16 }),
            common matches Some(c) ==> seen.len() > 0 && seen[0] == c,
            common is None ==> seen.len() == 0,
    {
        let range = &metric.latin_ranges[ri];
        if range.start > 0x7E || range.end < 0x21 {
            proof {
                assert(metric_samples(rs, ri + 1) =~= seen);
            }
        } else {
            let ghost before = seen;
            for i in 0..range.widths.len()
                invariant
                    rs == metric.latin_ranges@,
                    ri < rs.len(),
                    *range == rs[ri as int],
                    samples_ascii(*range),
                    range.start + range.widths@.len() <= u32::MAX + 1,
                    seen == before + run_samples(range.start, range.widths@, i as int),
                    all_same(seen),
                    count == (if seen.len() < 16 { seen.len() } else { 16 }),
                    common matches Some(c) ==> seen.len() > 0 && seen[0] == c,
                    common is None ==> seen.len() == 0,
                    before == metric_samples(rs, ri as int),
            {
                let code = range.start + i as u32;
                let w = range.widths[i];
                if 0x21 <= code && code <= 0x7E && w != 0 {
                    match common {
                        None => {
                            common = Some(w);
                        },
                        Some(cw) => {
                            if cw != w {
                                proof {
                                    assert(seen.push(w) =~= before + run_samples(
                                        range.start,
                                        range.widths@,
                                        i + 1,
                                    ));
                                    lemma_samples_prefix(rs, ri as int, i as int, seen, w);
                                }
                                return false;
                            }
                        },
                    }
                    proof {
                        seen = seen.push(w);
                        assert(before + run_samples(range.start, range.widths@, i + 1) =~= seen);
                    }
                    if count < 16 {
                        count += 1;
                    }
                } else {
                    proof {
                        assert(before + run_samples(range.start, range.widths@, i + 1) =~= seen);
                    }
                }
            }
            proof {
                assert(metric_samples(rs, ri + 1) =~= seen);
            }
        }
    }
    count >= 16
}

/// A `-` belongs to a dash leader exactly when it lies in a window of three
/// consecutive dashes: two before it, one on each side, or two after it.
pub proof fn law_dash_leader_needs_three(s: Seq<char>, i: int)
    requires
        0 <= i < s.len(),
    ensures
        dash_leader_run(s, i) <==> s[i] == '-' && ((i >= 2 && s[i - 2] == '-' && s[i - 1] == '-') || (i >= 1
            && i + 1 < s.len() && s[i - 1] == '-' && s[i + 1] == '-') || (i + 2 < s.len() && s[i + 1]
            == '-' && s[i + 2] == '-')),
{
    reveal_with_fuel(dashes_before, 3);
    reveal_with_fuel(dashes_after, 3);
}

} // verus!
