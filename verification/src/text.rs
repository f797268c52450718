//! Character-sequence helpers shared by the serializers and renderers.
//!
//! Text is modelled by its view, a `Seq<char>`. The spec functions below say
//! what decimal and hexadecimal renderings, substring search and joining
//! produce; the executable functions build `String`s that provably equal them.

use vstd::prelude::*;

verus! {

/// Appends one character to a `String` (`String::push`).
#[verifier::external_body]
pub(crate) fn string_push(s: &mut String, c: char)
    ensures
        final(s)@ == old(s)@.push(c),
{
    s.push(c);
}

/// Appends a string slice to a `String` (`String::push_str`).
#[verifier::external_body]
pub(crate) fn string_push_str(s: &mut String, t: &str)
    ensures
        final(s)@ == old(s)@ + t@,
{
    s.push_str(t);
}

/// The `{:?}` rendering of a string: quoted, with escapes.
pub uninterp spec fn debug_str(s: Seq<char>) -> Seq<char>;

/// `<str as Debug>::fmt` through `format!("{:?}")`.
#[verifier::external_body]
pub(crate) fn debug_string(s: &str) -> (r: String)
    ensures
        r@ == debug_str(s@),
{
    format!("{:?}", s)
}

/// The characters of a string slice, in order.
pub fn str_chars(s: &str) -> (v: Vec<char>)
    ensures
        v@ == s@,
{
    let mut v: Vec<char> = Vec::new();
    for c in it: s.chars()
        invariant
            v@ == it.seq().take(it.index() as int),
            it.seq() == s@,
    {
        v.push(c);
    }
    v
}

/// A `String` holding exactly the given characters.
pub fn chars_string(v: &[char]) -> (s: String)
    ensures
        s@ == v@,
{
    let mut s = String::new();
    for i in 0..v.len()
        invariant
            s@ == v@.take(i as int),
    {
        string_push(&mut s, v[i]);
        assert(v@.take(i + 1) == v@.take(i as int).push(v@[i as int]));
    }
    assert(v@.take(v.len() as int) == v@);
    s
}

/// The ASCII digit for `d` (`0 <= d < 10`).
pub open spec fn digit_char(d: nat) -> char {
    (48 + d) as char
}

/// The decimal rendering of a natural number, without sign or leading zeros.
pub open spec fn decimal(n: nat) -> Seq<char>
    decreases n,
{
    if n < 10 {
        seq![digit_char(n)]
    } else {
        decimal(n / 10).push(digit_char(n % 10))
    }
}

/// The decimal rendering of an integer, with a leading `-` when negative.
pub open spec fn signed_decimal(n: int) -> Seq<char> {
    if n < 0 {
        seq!['-'] + decimal((-n) as nat)
    } else {
        decimal(n as nat)
    }
}

fn digit(d: u64) -> (c: char)
    requires
        d < 10,
    ensures
        c == digit_char(d as nat),
{
    let b: u8 = 48u8 + d as u8;
    b as char
}

/// Appends the decimal rendering of `n` to `s`.
pub fn push_decimal(s: &mut String, n: u64)
    ensures
        final(s)@ == old(s)@ + decimal(n as nat),
    decreases n,
{
    if n >= 10 {
        push_decimal(s, n / 10);
    }
    let c = digit(n % 10);
    string_push(s, c);
}

/// Appends the decimal rendering of a signed number to `s`.
pub fn push_signed_decimal(s: &mut String, n: i64)
    ensures
        final(s)@ == old(s)@ + signed_decimal(n as int),
{
    if n < 0 {
        string_push(s, '-');
        let m: u64 = if n == i64::MIN {
            0x8000_0000_0000_0000u64
        } else {
            (-n) as u64
        };
        let ghost mid = s@;
        push_decimal(s, m);
        assert(s@ == old(s)@ + (seq!['-'] + decimal((-n) as nat)));
    } else {
        push_decimal(s, n as u64);
    }
}

/// The decimal rendering of `n` as a new `String`.
pub fn decimal_string(n: u64) -> (s: String)
    ensures
        s@ == decimal(n as nat),
{
    let mut s = String::new();
    push_decimal(&mut s, n);
    s
}

/// Upper-case hexadecimal digit for `d` (`0 <= d < 16`).
pub open spec fn hex_upper_char(d: nat) -> char {
    if d < 10 {
        digit_char(d)
    } else {
        (55 + d) as char
    }
}

/// Lower-case hexadecimal digit for `d` (`0 <= d < 16`).
pub open spec fn hex_lower_char(d: nat) -> char {
    if d < 10 {
        digit_char(d)
    } else {
        (87 + d) as char
    }
}

/// A byte as two upper-case hexadecimal digits (`{:02X}`).
pub open spec fn hex2_upper(b: u8) -> Seq<char> {
    seq![hex_upper_char((b / 16) as nat), hex_upper_char((b % 16) as nat)]
}

/// A number below 0x10000 as four lower-case hexadecimal digits (`{:04x}`).
pub open spec fn hex4_lower(n: nat) -> Seq<char> {
    seq![
        hex_lower_char((n / 4096) % 16),
        hex_lower_char((n / 256) % 16),
        hex_lower_char((n / 16) % 16),
        hex_lower_char(n % 16),
    ]
}

fn hex_digit(d: u32, upper: bool) -> (c: char)
    requires
        d < 16,
    ensures
        upper ==> c == hex_upper_char(d as nat),
        !upper ==> c == hex_lower_char(d as nat),
{
    if d < 10 {
        let b: u8 = 48u8 + d as u8;
        b as char
    } else if upper {
        let b: u8 = 55u8 + d as u8;
        b as char
    } else {
        let b: u8 = 87u8 + d as u8;
        b as char
    }
}

/// Appends `b` as two upper-case hexadecimal digits.
pub fn push_hex2_upper(s: &mut String, b: u8)
    ensures
        final(s)@ == old(s)@ + hex2_upper(b),
{
    let hi = hex_digit((b / 16) as u32, true);
    let lo = hex_digit((b % 16) as u32, true);
    string_push(s, hi);
    string_push(s, lo);
}

/// Appends `n` as four lower-case hexadecimal digits.
pub fn push_hex4_lower(s: &mut String, n: u32)
    requires
        n < 0x10000,
    ensures
        final(s)@ == old(s)@ + hex4_lower(n as nat),
{
    let a = hex_digit((n / 4096) % 16, false);
    let b = hex_digit((n / 256) % 16, false);
    let c = hex_digit((n / 16) % 16, false);
    let d = hex_digit(n % 16, false);
    string_push(s, a);
    string_push(s, b);
    string_push(s, c);
    string_push(s, d);
}

/// `pat` occurs in `hay` starting at `i`.
pub open spec fn matches_at(hay: Seq<char>, pat: Seq<char>, i: int) -> bool {
    0 <= i && i + pat.len() <= hay.len() && hay.subrange(i, i + pat.len()) == pat
}

/// The first position at or after `from` where `pat` occurs in `hay`.
pub open spec fn find_from(hay: Seq<char>, pat: Seq<char>, from: int) -> Option<int>
    decreases hay.len() + 1 - from,
{
    if from < 0 || from + pat.len() > hay.len() {
        None
    } else if matches_at(hay, pat, from) {
        Some(from)
    } else {
        find_from(hay, pat, from + 1)
    }
}

/// `pat` occurs somewhere in `hay`.
pub open spec fn contains_seq(hay: Seq<char>, pat: Seq<char>) -> bool {
    find_from(hay, pat, 0) is Some
}

/// A found position is a match, and nothing earlier (from `from` on) matches.
pub proof fn lemma_find_from(hay: Seq<char>, pat: Seq<char>, from: int)
    requires
        0 <= from,
    ensures
        find_from(hay, pat, from) matches Some(i) ==> from <= i && matches_at(hay, pat, i) && (
        forall|j: int| from <= j < i ==> !matches_at(hay, pat, j)),
        find_from(hay, pat, from) is None ==> forall|j: int| from <= j ==> !matches_at(hay, pat, j),
    decreases hay.len() + 1 - from,
{
    if from + pat.len() > hay.len() {
    } else if matches_at(hay, pat, from) {
    } else {
        lemma_find_from(hay, pat, from + 1);
    }
}

fn matches_at_exec(hay: &[char], pat: &[char], i: usize) -> (b: bool)
    ensures
        b == matches_at(hay@, pat@, i as int),
{
    if i > hay.len() || pat.len() > hay.len() - i {
        return false;
    }
    let mut k: usize = 0;
    while k < pat.len()
        invariant
            i + pat.len() <= hay.len(),
            k <= pat.len(),
            forall|m: int| 0 <= m < k ==> hay@[i + m] == pat@[m],
        decreases pat.len() - k,
    {
        if hay[i + k] != pat[k] {
            assert(hay@.subrange(i as int, i + pat.len())[k as int] != pat@[k as int]);
            return false;
        }
        k += 1;
    }
    assert(hay@.subrange(i as int, i + pat.len()) =~= pat@);
    true
}

/// The first position at or after `from` where `pat` occurs in `hay`.
pub fn find_chars(hay: &[char], pat: &[char], from: usize) -> (r: Option<usize>)
    ensures
        r == (match find_from(hay@, pat@, from as int) {
            Some(i) => Some(i as usize),
            None => None,
        }),
        r matches Some(i) ==> from <= i && i + pat@.len() <= hay@.len() && find_from(
            hay@,
            pat@,
            from as int,
        ) == Some(i as int),
        r is None ==> find_from(hay@, pat@, from as int) is None,
{
    let mut i = from;
    while i < hay.len() && pat.len() <= hay.len() - i
        invariant
            from <= i,
            find_from(hay@, pat@, from as int) == find_from(hay@, pat@, i as int),
        decreases hay.len() - i,
    {
        if matches_at_exec(hay, pat, i) {
            return Some(i);
        }
        i += 1;
    }
    if i == hay.len() && pat.len() == 0 {
        assert(hay@.subrange(i as int, i as int) =~= pat@);
        return Some(i);
    }
    None
}

/// `pat` occurs somewhere in `hay`.
pub fn contains_chars(hay: &[char], pat: &[char]) -> (b: bool)
    ensures
        b == contains_seq(hay@, pat@),
{
    find_chars(hay, pat, 0).is_some()
}

/// `hay` starts with `pat`.
pub fn starts_with_chars(hay: &[char], pat: &[char]) -> (b: bool)
    ensures
        b == matches_at(hay@, pat@, 0),
{
    matches_at_exec(hay, pat, 0)
}

/// The parts joined with `sep` between neighbours.
pub open spec fn join_seq(parts: Seq<Seq<char>>, sep: Seq<char>) -> Seq<char>
    decreases parts.len(),
{
    if parts.len() == 0 {
        Seq::empty()
    } else if parts.len() == 1 {
        parts[0]
    } else {
        join_seq(parts.drop_last(), sep) + sep + parts.last()
    }
}

/// The views of a list of strings.
pub open spec fn string_views(v: Seq<String>) -> Seq<Seq<char>> {
    v.map_values(|s: String| s@)
}

/// The parts joined with `sep` between neighbours (`[String]::join`).
pub fn join_strings(parts: &Vec<String>, sep: &str) -> (r: String)
    ensures
        r@ == join_seq(string_views(parts@), sep@),
{
    let mut r = String::new();
    let ghost views = string_views(parts@);
    for i in 0..parts.len()
        invariant
            views == string_views(parts@),
            r@ == join_seq(views.take(i as int), sep@),
    {
        assert(views.take(i + 1).drop_last() == views.take(i as int));
        if i != 0 {
            string_push_str(&mut r, sep);
        }
        string_push_str(&mut r, parts[i].as_str());
    }
    assert(views.take(parts.len() as int) == views);
    r
}

/// `name[i]`: a name followed by a bracketed decimal index.
pub open spec fn idx_seg(name: Seq<char>, i: nat) -> Seq<char> {
    name + "["@ + decimal(i) + "]"@
}

/// Appends `name[i]` to `s`.
pub fn push_index(s: &mut String, name: &str, i: usize)
    ensures
        final(s)@ == old(s)@ + idx_seg(name@, i as nat),
{
    string_push_str(s, name);
    string_push_str(s, "[");
    push_decimal(s, i as u64);
    string_push_str(s, "]");
}

/// `true` or `false`, as `{}` renders a `bool`.
pub open spec fn bool_text(b: bool) -> Seq<char> {
    if b {
        "true"@
    } else {
        "false"@
    }
}

/// Appends `true` or `false` to `s`.
pub fn push_bool(s: &mut String, b: bool)
    ensures
        final(s)@ == old(s)@ + bool_text(b),
{
    if b {
        string_push_str(s, "true");
    } else {
        string_push_str(s, "false");
    }
}

/// A new `String` holding the characters of `t`.
pub fn string_of(t: &str) -> (s: String)
    ensures
        s@ == t@,
{
    let mut s = String::new();
    string_push_str(&mut s, t);
    s
}

/// The view of an optional string.
pub open spec fn opt_view(o: Option<String>) -> Option<Seq<char>> {
    match o {
        Some(s) => Some(s@),
        None => None,
    }
}

/// The characters `a[from..to]` as a new vector.
pub fn chars_range(a: &[char], from: usize, to: usize) -> (v: Vec<char>)
    requires
        from <= to <= a@.len(),
    ensures
        v@ == a@.subrange(from as int, to as int),
{
    let mut v: Vec<char> = Vec::new();
    let mut k = from;
    while k < to
        invariant
            from <= k <= to <= a@.len(),
            v@ == a@.subrange(from as int, k as int),
        decreases to - k,
    {
        v.push(a[k]);
        assert(a@.subrange(from as int, k + 1) == a@.subrange(from as int, k as int).push(a@[k as int]));
        k += 1;
    }
    v
}

/// The Unicode `White_Space` characters (`char::is_whitespace`).
pub open spec fn unicode_whitespace(c: char) -> bool {
    let u = c as u32;
    (0x9 <= u && u <= 0xD) || u == 0x20 || u == 0x85 || u == 0xA0 || u == 0x1680 || (0x2000 <= u
        && u <= 0x200A) || u == 0x2028 || u == 0x2029 || u == 0x202F || u == 0x205F || u == 0x3000
}

pub fn is_unicode_whitespace(c: char) -> (b: bool)
    ensures
        b == unicode_whitespace(c),
{
    let u = c as u32;
    (0x9 <= u && u <= 0xD) || u == 0x20 || u == 0x85 || u == 0xA0 || u == 0x1680 || (0x2000 <= u
        && u <= 0x200A) || u == 0x2028 || u == 0x2029 || u == 0x202F || u == 0x205F || u == 0x3000
}

/// A text without leading white space.
pub open spec fn trim_start(s: Seq<char>) -> Seq<char>
    decreases s.len(),
{
    if s.len() > 0 && unicode_whitespace(s[0]) {
        trim_start(s.drop_first())
    } else {
        s
    }
}

/// A text without trailing white space.
pub open spec fn trim_end(s: Seq<char>) -> Seq<char>
    decreases s.len(),
{
    if s.len() > 0 && unicode_whitespace(s.last()) {
        trim_end(s.drop_last())
    } else {
        s
    }
}

/// The text without leading and trailing white space (`str::trim`).
pub fn trimmed(s: &Vec<char>) -> (r: Vec<char>)
    ensures
        r@ == trim_end(trim_start(s@)),
{
    let mut a: usize = 0;
    assert(s@.skip(0) == s@);
    while a < s.len() && is_unicode_whitespace(s[a])
        invariant
            a <= s@.len(),
            trim_start(s@) == trim_start(s@.skip(a as int)),
        decreases s.len() - a,
    {
        assert(s@.skip(a as int).drop_first() == s@.skip(a + 1));
        a += 1;
    }
    assert(trim_start(s@.skip(a as int)) == s@.skip(a as int));
    let mut b: usize = s.len();
    while b > a && is_unicode_whitespace(s[b - 1])
        invariant
            a <= b <= s@.len(),
            trim_start(s@) == s@.skip(a as int),
            trim_end(s@.skip(a as int)) == trim_end(s@.subrange(a as int, b as int)),
        decreases b,
    {
        assert(s@.subrange(a as int, b as int).drop_last() == s@.subrange(a as int, b - 1));
        b -= 1;
    }
    assert(trim_end(s@.subrange(a as int, b as int)) == s@.subrange(a as int, b as int));
    chars_range(s.as_slice(), a, b)
}

} // verus!
