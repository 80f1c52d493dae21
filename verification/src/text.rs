//! Character classes and small text utilities shared by the whole crate.
//!
//! All message processing works on `Vec<char>` internally, so that contracts
//! can be stated over `Seq<char>`; `String` appears only at the public
//! boundary.

use vstd::prelude::*;
use vstd::string::StrSliceExecFns;

verus! {

/// Characters counted as whitespace: the Unicode `White_Space` set.
/// A prefix match must be preceded by the start of the text or by a run of
/// these characters, and trimming removes them from both ends.
pub open spec fn is_space_char(c: char) -> bool {
    c == ' ' || c == '\t' || c == '\n' || c == '\u{b}' || c == '\u{c}' || c == '\r'
        || c == '\u{85}' || c == '\u{a0}' || c == '\u{1680}' || ('\u{2000}' <= c && c
        <= '\u{200a}') || c == '\u{2028}' || c == '\u{2029}' || c == '\u{202f}' || c == '\u{205f}'
        || c == '\u{3000}'
}

/// Characters allowed in a candidate emote name: ASCII letters, digits and
/// underscore. A captured name is a maximal run of these.
pub open spec fn is_word_char(c: char) -> bool {
    ('a' <= c && c <= 'z') || ('A' <= c && c <= 'Z') || ('0' <= c && c <= '9') || c == '_'
}

pub fn is_space(c: char) -> (r: bool)
    ensures
        r == is_space_char(c),
{
    c == ' ' || c == '\t' || c == '\n' || c == '\u{b}' || c == '\u{c}' || c == '\r'
        || c == '\u{85}' || c == '\u{a0}' || c == '\u{1680}' || ('\u{2000}' <= c && c
        <= '\u{200a}') || c == '\u{2028}' || c == '\u{2029}' || c == '\u{202f}' || c == '\u{205f}'
        || c == '\u{3000}'
}

pub fn is_word(c: char) -> (r: bool)
    ensures
        r == is_word_char(c),
{
    ('a' <= c && c <= 'z') || ('A' <= c && c <= 'Z') || ('0' <= c && c <= '9') || c == '_'
}

/// The characters of `s`, in order.
pub fn chars_of(s: &str) -> (v: Vec<char>)
    ensures
        v@ == s@,
{
    let n = s.unicode_len();
    let mut v: Vec<char> = Vec::new();
    let mut i: usize = 0;
    while i < n
        invariant
            i <= n,
            n == s@.len(),
            v@ == s@.subrange(0, i as int),
        decreases n - i,
    {
        let c = s.get_char(i);
        v.push(c);
        proof {
            assert(s@.subrange(0, i + 1 as int) =~= s@.subrange(0, i as int).push(s@[i as int]));
        }
        i = i + 1;
    }
    proof {
        assert(v@ =~= s@);
    }
    v
}

/// Relies on `String`'s `FromIterator<char>` impl: collecting an in-order
/// iterator over the characters yields the string with exactly those
/// characters, in order.
#[verifier::external_body]
pub fn string_of(v: &Vec<char>) -> (s: String)
    ensures
        s@ == v@,
{
    v.iter().collect()
}

/// What `str::to_lowercase` returns for a given character sequence. The full
/// Unicode mapping is too large to restate here, so contracts refer to it by
/// this name.
pub uninterp spec fn lower_of(s: Seq<char>) -> Seq<char>;

/// Relies on `str::to_lowercase`: the result depends on the input characters
/// alone, and an empty input gives an empty result.
#[verifier::external_body]
pub fn lowercase(s: &str) -> (r: String)
    ensures
        r@ == lower_of(s@),
        s@.len() == 0 ==> r@.len() == 0,
{
    s.to_lowercase()
}

/// `pat` occurs in `s` at position `i`.
pub open spec fn seq_at(s: Seq<char>, i: int, pat: Seq<char>) -> bool {
    0 <= i && i + pat.len() <= s.len() && s.subrange(i, i + pat.len()) == pat
}

/// `pat` occurs somewhere in `s`.
pub open spec fn contains_seq(s: Seq<char>, pat: Seq<char>) -> bool {
    exists|i: int| seq_at(s, i, pat)
}

pub open spec fn starts_with_seq(s: Seq<char>, pre: Seq<char>) -> bool {
    pre.len() <= s.len() && s.subrange(0, pre.len() as int) == pre
}

pub open spec fn ends_with_seq(s: Seq<char>, suf: Seq<char>) -> bool {
    suf.len() <= s.len() && s.subrange(s.len() - suf.len(), s.len() as int) == suf
}

/// Whether `pat` occurs in `v` at position `i`.
pub fn chars_at(v: &Vec<char>, i: usize, pat: &Vec<char>) -> (r: bool)
    ensures
        r == seq_at(v@, i as int, pat@),
{
    if i > v.len() || pat.len() > v.len() - i {
        return false;
    }
    let mut j: usize = 0;
    while j < pat.len()
        invariant
            j <= pat.len(),
            i + pat.len() <= v.len(),
            forall|k: int| 0 <= k < j ==> v@[i + k] == pat@[k],
        decreases pat.len() - j,
    {
        if v[i + j] != pat[j] {
            return false;
        }
        j = j + 1;
    }
    proof {
        assert(v@.subrange(i as int, i + pat@.len()) =~= pat@);
    }
    true
}

pub fn starts_with_chars(v: &Vec<char>, pre: &Vec<char>) -> (r: bool)
    ensures
        r == starts_with_seq(v@, pre@),
{
    chars_at(v, 0, pre)
}

pub fn ends_with_chars(v: &Vec<char>, suf: &Vec<char>) -> (r: bool)
    ensures
        r == ends_with_seq(v@, suf@),
{
    if suf.len() > v.len() {
        return false;
    }
    chars_at(v, v.len() - suf.len(), suf)
}

pub fn contains_chars(v: &Vec<char>, pat: &Vec<char>) -> (r: bool)
    ensures
        r == contains_seq(v@, pat@),
{
    if pat.len() == 0 {
        proof {
            assert(v@.subrange(0, 0) =~= pat@);
            assert(seq_at(v@, 0, pat@));
        }
        return true;
    }
    if pat.len() > v.len() {
        return false;
    }
    let mut i: usize = 0;
    while i <= v.len() - pat.len()
        invariant
            1 <= pat.len() <= v.len(),
            i <= v.len() - pat.len() + 1,
            forall|k: int| 0 <= k < i ==> !seq_at(v@, k, pat@),
        decreases v.len() - i,
    {
        if chars_at(v, i, pat) {
            return true;
        }
        i = i + 1;
    }
    proof {
        assert forall|k: int| !seq_at(v@, k, pat@) by {
            if 0 <= k && k + pat@.len() <= v@.len() {
                assert(k < i);
            }
        }
    }
    false
}

/// The copy of `v[a..b]`.
pub fn sub_chars(v: &Vec<char>, a: usize, b: usize) -> (r: Vec<char>)
    requires
        a <= b <= v.len(),
    ensures
        r@ == v@.subrange(a as int, b as int),
{
    let mut r: Vec<char> = Vec::new();
    let mut i: usize = a;
    while i < b
        invariant
            a <= i <= b <= v.len(),
            r@ == v@.subrange(a as int, i as int),
        decreases b - i,
    {
        r.push(v[i]);
        proof {
            assert(v@.subrange(a as int, i + 1 as int) =~= v@.subrange(a as int, i as int).push(
                v@[i as int],
            ));
        }
        i = i + 1;
    }
    r
}

/// Appends all of `src` to `dst`.
pub fn push_all(dst: &mut Vec<char>, src: &Vec<char>)
    ensures
        final(dst)@ == old(dst)@ + src@,
{
    let mut j: usize = 0;
    while j < src.len()
        invariant
            j <= src.len(),
            dst@ == old(dst)@ + src@.subrange(0, j as int),
        decreases src.len() - j,
    {
        dst.push(src[j]);
        proof {
            assert(old(dst)@ + src@.subrange(0, j + 1 as int) =~= (old(dst)@ + src@.subrange(
                0,
                j as int,
            )).push(src@[j as int]));
        }
        j = j + 1;
    }
    proof {
        assert(src@.subrange(0, src@.len() as int) =~= src@);
    }
}

pub fn eq_chars(a: &Vec<char>, b: &Vec<char>) -> (r: bool)
    ensures
        r == (a@ == b@),
{
    if a.len() != b.len() {
        return false;
    }
    let r = chars_at(a, 0, b);
    proof {
        assert(a@.subrange(0, b@.len() as int) =~= a@);
    }
    r
}

/// First index at or after `i` holding a non-space character, or `s.len()`.
pub open spec fn first_non_space(s: Seq<char>, i: int) -> int
    decreases s.len() - i,
{
    if i < 0 || i >= s.len() {
        s.len() as int
    } else if !is_space_char(s[i]) {
        i
    } else {
        first_non_space(s, i + 1)
    }
}

/// One past the last non-space character strictly before `j`, or `0`.
pub open spec fn last_non_space_end(s: Seq<char>, j: int) -> int
    decreases j,
{
    if j <= 0 || j > s.len() {
        0
    } else if !is_space_char(s[j - 1]) {
        j
    } else {
        last_non_space_end(s, j - 1)
    }
}

/// `s` with leading and trailing whitespace removed.
pub open spec fn spec_trim(s: Seq<char>) -> Seq<char> {
    let a = first_non_space(s, 0);
    let b = last_non_space_end(s, s.len() as int);
    if a < b {
        s.subrange(a, b)
    } else {
        Seq::empty()
    }
}

pub proof fn lemma_first_non_space(s: Seq<char>, i: int)
    requires
        0 <= i <= s.len(),
    ensures
        i <= first_non_space(s, i) <= s.len(),
        forall|k: int| i <= k < first_non_space(s, i) ==> is_space_char(s[k]),
        first_non_space(s, i) < s.len() ==> !is_space_char(s[first_non_space(s, i)]),
    decreases s.len() - i,
{
    if i < s.len() && is_space_char(s[i]) {
        lemma_first_non_space(s, i + 1);
    }
}

pub proof fn lemma_last_non_space_end(s: Seq<char>, j: int)
    requires
        0 <= j <= s.len(),
    ensures
        0 <= last_non_space_end(s, j) <= j,
        forall|k: int| last_non_space_end(s, j) <= k < j ==> is_space_char(s[k]),
        last_non_space_end(s, j) > 0 ==> !is_space_char(s[last_non_space_end(s, j) - 1]),
    decreases j,
{
    if j > 0 && is_space_char(s[j - 1]) {
        lemma_last_non_space_end(s, j - 1);
    }
}

/// `v` with leading and trailing whitespace removed.
pub fn trim_chars(v: &Vec<char>) -> (r: Vec<char>)
    ensures
        r@ == spec_trim(v@),
{
    let mut a: usize = 0;
    while a < v.len() && is_space(v[a])
        invariant
            0 <= a <= v.len(),
            first_non_space(v@, 0) == first_non_space(v@, a as int),
        decreases v.len() - a,
    {
        a = a + 1;
    }
    assert(first_non_space(v@, 0) == a as int);
    let mut b: usize = v.len();
    while b > 0 && is_space(v[b - 1])
        invariant
            0 <= b <= v.len(),
            last_non_space_end(v@, v@.len() as int) == last_non_space_end(v@, b as int),
        decreases b,
    {
        b = b - 1;
    }
    assert(last_non_space_end(v@, v@.len() as int) == b as int);
    if a < b {
        sub_chars(v, a, b)
    } else {
        let r: Vec<char> = Vec::new();
        proof {
            assert(r@ =~= spec_trim(v@));
        }
        r
    }
}

} // verus!
