//! Matching instruction words against textual bit patterns such as
//! `"0000000 ????? ????? 000 ????? 01100 11"`.
//!
//! A pattern lists the 32 bits of a word, most significant first: `'0'` and
//! `'1'` demand that bit value and `'?'` accepts either. Spaces only group the
//! fields for the reader and are dropped before matching. A pattern that does
//! not hold exactly 32 characters once its spaces are gone matches no word.

use crate::bitfield::{bits, field, lemma_field_mask};
use vstd::prelude::*;
use vstd::string::StrSliceExecFns;

verus! {

/// The character that shows bit `31 - i` of `w`, so that position 0 is the most significant bit.
pub open spec fn bit_char(w: u32, i: int) -> char {
    if field(w, (31 - i) as nat, (31 - i) as nat) == 1 {
        '1'
    } else {
        '0'
    }
}

/// `w` written as 32 binary digits, most significant first.
pub open spec fn binary_string(w: u32) -> Seq<char> {
    Seq::new(32, |i: int| bit_char(w, i))
}

/// `p` with every space removed.
pub open spec fn strip_spaces(p: Seq<char>) -> Seq<char>
    decreases p.len(),
{
    if p.len() == 0 {
        Seq::empty()
    } else if p.last() == ' ' {
        strip_spaces(p.drop_last())
    } else {
        strip_spaces(p.drop_last()).push(p.last())
    }
}

/// `s` matches `p`: once the spaces of `p` are dropped, both have the same length,
/// and at each position the pattern holds `'?'` or the character of `s`.
pub open spec fn chars_match(s: Seq<char>, p: Seq<char>) -> bool {
    let q = strip_spaces(p);
    &&& s.len() == q.len()
    &&& forall|i: int| 0 <= i < s.len() ==> (#[trigger] q[i] == '?' || q[i] == s[i])
}

/// The word `w` matches the pattern `p`.
pub open spec fn word_matches(w: u32, p: Seq<char>) -> bool {
    chars_match(binary_string(w), p)
}

/// The characters of `s`.
pub(crate) fn chars_of(s: &str) -> (r: Vec<char>)
    ensures
        r@ == s@,
{
    let n = s.unicode_len();
    let mut r: Vec<char> = Vec::new();
    let mut i: usize = 0;
    while i < n
        invariant
            n == s@.len(),
            i <= n,
            r@ == s@.subrange(0, i as int),
        decreases n - i,
    {
        r.push(s.get_char(i));
        i += 1;
        assert(r@ =~= s@.subrange(0, i as int));
    }
    assert(r@ =~= s@);
    r
}

/// The characters of `p` without its spaces.
fn pattern_chars(p: &str) -> (r: Vec<char>)
    ensures
        r@ == strip_spaces(p@),
{
    let chars = chars_of(p);
    let mut r: Vec<char> = Vec::new();
    let mut i: usize = 0;
    while i < chars.len()
        invariant
            chars@ == p@,
            i <= chars.len(),
            r@ == strip_spaces(p@.subrange(0, i as int)),
        decreases chars.len() - i,
    {
        assert(p@.subrange(0, i + 1).drop_last() =~= p@.subrange(0, i as int));
        let c = chars[i];
        if c != ' ' {
            r.push(c);
        }
        i += 1;
    }
    assert(p@.subrange(0, i as int) =~= p@);
    r
}

/// Whether the characters `s` match `pattern`.
fn match_chars(s: &Vec<char>, pattern: &str) -> (r: bool)
    ensures
        r == chars_match(s@, pattern@),
{
    let q = pattern_chars(pattern);
    if s.len() != q.len() {
        return false;
    }
    let mut i: usize = 0;
    while i < s.len()
        invariant
            q@ == strip_spaces(pattern@),
            s.len() == q.len(),
            i <= s.len(),
            forall|j: int| 0 <= j < i ==> (#[trigger] q@[j] == '?' || q@[j] == s@[j]),
        decreases s.len() - i,
    {
        if q[i] != '?' && s[i] != q[i] {
            return false;
        }
        i += 1;
    }
    true
}

/// `word` as 32 binary digits, most significant first.
pub fn binary_chars(word: u32) -> (r: Vec<char>)
    ensures
        r@ == binary_string(word),
{
    let mut r: Vec<char> = Vec::new();
    let mut i: u32 = 0;
    while i < 32
        invariant
            i <= 32,
            r@ =~= binary_string(word).subrange(0, i as int),
        decreases 32 - i,
    {
        let b = bits(word, 31 - i, 31 - i);
        r.push(if b == 1 { '1' } else { '0' });
        i += 1;
    }
    r
}

/// Whether the text `s` matches `pattern`: `'?'` in the pattern accepts any
/// character, other characters must be equal, and spaces of the pattern are ignored.
pub fn match_pattern_str(s: &str, pattern: &str) -> (r: bool)
    ensures
        r == chars_match(s@, pattern@),
{
    let chars = chars_of(s);
    match_chars(&chars, pattern)
}

/// Whether the 32-bit `word` matches `pattern`.
pub fn match_pattern(word: u32, pattern: &str) -> (r: bool)
    ensures
        r == word_matches(word, pattern@),
{
    let chars = binary_chars(word);
    match_chars(&chars, pattern)
}

/// A sequence without spaces is left as it is by `strip_spaces`.
pub proof fn lemma_strip_spaces_none(s: Seq<char>)
    requires
        forall|i: int| 0 <= i < s.len() ==> s[i] != ' ',
    ensures
        strip_spaces(s) == s,
    decreases s.len(),
{
    if s.len() > 0 {
        lemma_strip_spaces_none(s.drop_last());
        assert(s.drop_last().push(s.last()) =~= s);
    }
}

/// Every word matches its own 32-digit binary rendering.
pub proof fn lemma_word_matches_own_binary(w: u32)
    ensures
        word_matches(w, binary_string(w)),
{
    lemma_strip_spaces_none(binary_string(w));
}

/// `s` with the characters at the positions in `wild` replaced by `'?'`.
pub open spec fn with_wildcards(s: Seq<char>, wild: Set<int>) -> Seq<char> {
    Seq::new(s.len(), |i: int| if wild.contains(i) { '?' } else { s[i] })
}

/// `v` and `w` have the same bits at every position (counted from the most
/// significant bit) that is not in `wild`.
pub open spec fn agree_outside(v: u32, w: u32, wild: Set<int>) -> bool {
    forall|i: int| 0 <= i < 32 && !wild.contains(i) ==> #[trigger] bit_char(v, i) == bit_char(w, i)
}

/// The exact pattern of `w` with any positions `wild` turned into wildcards
/// matches exactly the words that agree with `w` on the other positions;
/// `w` itself is one of them.
pub proof fn lemma_wildcard_match(w: u32, v: u32, wild: Set<int>)
    ensures
        word_matches(v, with_wildcards(binary_string(w), wild)) <==> agree_outside(v, w, wild),
        word_matches(w, with_wildcards(binary_string(w), wild)),
{
    let p = with_wildcards(binary_string(w), wild);
    lemma_strip_spaces_none(p);
    if word_matches(v, p) {
        assert forall|i: int| 0 <= i < 32 && !wild.contains(i) implies #[trigger] bit_char(v, i)
            == bit_char(w, i) by {
            assert(p[i] == '?' || p[i] == binary_string(v)[i]);
        }
    }
    if agree_outside(v, w, wild) {
        assert forall|i: int| 0 <= i < 32 implies (#[trigger] p[i] == '?' || p[i] == binary_string(
            v,
        )[i]) by {
            if !wild.contains(i) {
                assert(bit_char(v, i) == bit_char(w, i));
            }
        }
    }
    assert forall|i: int| 0 <= i < 32 implies (#[trigger] p[i] == '?' || p[i] == binary_string(
        w,
    )[i]) by {}
}

/// The character at position `31 - k` shows bit `k` of `w`.
pub proof fn lemma_bit_char(w: u32, k: u32)
    requires
        k < 32,
    ensures
        bit_char(w, 31 - k) == '1' <==> (w >> k) & 1u32 == 1u32,
        bit_char(w, 31 - k) == '0' <==> (w >> k) & 1u32 == 0u32,
{
    assert((w >> k) & 1u32 == 0u32 || (w >> k) & 1u32 == 1u32) by (bit_vector);
    lemma_field_mask(w, k, 1);
    vstd::bits::lemma_low_bits_mask_values();
}

} // verus!
