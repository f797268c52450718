//! Form control captions: a stored `&&` is shown as one `&`; the stored
//! value itself is left as it is.

use crate::text::{
    contains_chars, contains_seq, lemma_find_from, matches_at, str_chars, string_of, string_push,
};
use vstd::prelude::*;

verus! {

/// The displayed form of a caption from position `i` on: each `&&`, read
/// left to right, becomes one `&`.
pub open spec fn caption_from(s: Seq<char>, i: int) -> Seq<char>
    decreases s.len() - i,
{
    if i < 0 || i >= s.len() {
        Seq::empty()
    } else if s[i] == '&' && i + 1 < s.len() && s[i + 1] == '&' {
        seq!['&'] + caption_from(s, i + 2)
    } else {
        seq![s[i]] + caption_from(s, i + 1)
    }
}

/// The caption as displayed.
pub open spec fn displayed_caption(s: Seq<char>) -> Seq<char> {
    if contains_seq(s, "&&"@) {
        caption_from(s, 0)
    } else {
        s
    }
}

/// The caption as displayed: `&&` shown as `&`, everything else unchanged.
pub fn display_form_caption(caption: &str) -> (r: String)
    ensures
        r@ == displayed_caption(caption@),
{
    let chars = str_chars(caption);
    let amp2 = str_chars("&&");
    if !contains_chars(chars.as_slice(), amp2.as_slice()) {
        return string_of(caption);
    }
    let mut out = String::new();
    let mut i: usize = 0;
    while i < chars.len()
        invariant
            chars@ == caption@,
            i <= chars@.len() + 1,
            caption_from(chars@, 0) == out@ + caption_from(chars@, i as int),
        decreases chars.len() + 1 - i,
    {
        let ghost before = out@;
        if chars[i] == '&' && i + 1 < chars.len() && chars[i + 1] == '&' {
            string_push(&mut out, '&');
            assert(before + (seq!['&'] + caption_from(chars@, i + 2)) == out@ + caption_from(chars@, i + 2));
            i += 2;
        } else {
            string_push(&mut out, chars[i]);
            assert(before + (seq![chars@[i as int]] + caption_from(chars@, i + 1)) == out@
                + caption_from(chars@, i + 1));
            i += 1;
        }
    }
    assert(out@ + Seq::<char>::empty() == out@);
    out
}

/// Reading a caption without `&&` changes nothing: the scan gives back the
/// stored text.
pub proof fn law_caption_without_escape_unchanged(s: Seq<char>)
    requires
        !contains_seq(s, "&&"@),
    ensures
        caption_from(s, 0) == s,
{
    reveal_strlit("&&");
    assert("&&"@ =~= seq!['&', '&']);
    lemma_find_from(s, "&&"@, 0);
    lemma_caption_suffix(s, 0);
    assert(s.skip(0) == s);
}

proof fn lemma_caption_suffix(s: Seq<char>, i: int)
    requires
        0 <= i <= s.len(),
        "&&"@ == seq!['&', '&'],
        forall|j: int| 0 <= j ==> !matches_at(s, "&&"@, j),
    ensures
        caption_from(s, i) == s.skip(i),
    decreases s.len() - i,
{
    if i < s.len() {
        if s[i] == '&' && i + 1 < s.len() && s[i + 1] == '&' {
            assert(s.subrange(i, i + 2) =~= seq!['&', '&']);
            assert(matches_at(s, "&&"@, i));
        }
        lemma_caption_suffix(s, i + 1);
        assert(s.skip(i) =~= seq![s[i]] + s.skip(i + 1));
    } else {
        assert(s.skip(i) =~= Seq::<char>::empty());
    }
}

} // verus!
