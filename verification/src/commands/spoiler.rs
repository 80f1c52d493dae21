//! The spoiler command and the spoiler wrapping applied to redistributed
//! text.

use vstd::prelude::*;

use crate::text::{
    chars_of, ends_with_chars, ends_with_seq, first_non_space, is_space_char,
    last_non_space_end, lemma_first_non_space, lemma_last_non_space_end, push_all, spec_trim,
    starts_with_chars, starts_with_seq, string_of, sub_chars, trim_chars,
};

verus! {

/// The spoiler marker pair: text between two of these is hidden by the chat
/// client.
pub open spec fn spoiler_marker() -> Seq<char> {
    seq!['|', '|']
}

/// The wrapped form of `s`: unchanged when it already starts and ends with
/// the marker; otherwise trimmed and given the marker on whichever sides are
/// missing.
pub open spec fn spec_wrap(s: Seq<char>) -> Seq<char> {
    let st = starts_with_seq(s, spoiler_marker());
    let en = ends_with_seq(s, spoiler_marker());
    let s1 = if !st {
        seq!['|', '|', ' '] + spec_trim(s)
    } else {
        s
    };
    if !en {
        spec_trim(s1) + seq![' ', '|', '|']
    } else {
        s1
    }
}

/// Trimming keeps the first two characters when neither is whitespace.
proof fn lemma_trim_nonspace_head(s: Seq<char>)
    requires
        s.len() >= 2,
        !is_space_char(s[0]),
        !is_space_char(s[1]),
    ensures
        spec_trim(s).len() >= 2,
        spec_trim(s)[0] == s[0],
        spec_trim(s)[1] == s[1],
{
    lemma_first_non_space(s, 0);
    lemma_last_non_space_end(s, s.len() as int);
    let a = first_non_space(s, 0);
    let b = last_non_space_end(s, s.len() as int);
    if a > 0 {
        assert(is_space_char(s[0]));
    }
    if b < 2 {
        assert(is_space_char(s[1]));
    }
}

/// Trimming keeps the last two characters when neither is whitespace.
proof fn lemma_trim_nonspace_tail(s: Seq<char>)
    requires
        s.len() >= 2,
        !is_space_char(s[s.len() - 1]),
        !is_space_char(s[s.len() - 2]),
    ensures
        spec_trim(s).len() >= 2,
        spec_trim(s)[spec_trim(s).len() - 1] == s[s.len() - 1],
        spec_trim(s)[spec_trim(s).len() - 2] == s[s.len() - 2],
{
    lemma_first_non_space(s, 0);
    lemma_last_non_space_end(s, s.len() as int);
    let a = first_non_space(s, 0);
    let b = last_non_space_end(s, s.len() as int);
    if b < s.len() {
        assert(is_space_char(s[s.len() - 1]));
    }
    if a > s.len() - 2 {
        assert(is_space_char(s[s.len() - 2]));
    }
}

/// Whatever the input, the wrapped form starts and ends with the marker.
pub proof fn lemma_wrap_marked(s: Seq<char>)
    ensures
        starts_with_seq(spec_wrap(s), spoiler_marker()),
        ends_with_seq(spec_wrap(s), spoiler_marker()),
{
    let m = spoiler_marker();
    let st = starts_with_seq(s, m);
    let en = ends_with_seq(s, m);
    let w = spec_wrap(s);
    if st && en {
        assert(w == s);
    } else {
        let s1 = if !st {
            seq!['|', '|', ' '] + spec_trim(s)
        } else {
            s
        };
        if st {
            assert(s1[0] == s.subrange(0, 2)[0]);
            assert(s1[1] == s.subrange(0, 2)[1]);
        }
        assert(s1.len() >= 2 && s1[0] == '|' && s1[1] == '|');
        if en {
            // Here st is false: w == s1 == "|| " + trim(s).
            assert(s[s.len() - 1] == s.subrange(s.len() - 2, s.len() as int)[1]);
            assert(s[s.len() - 2] == s.subrange(s.len() - 2, s.len() as int)[0]);
            lemma_trim_nonspace_tail(s);
            assert(w == s1);
            assert(w.subrange(0, 2) =~= m);
            assert(w.subrange(w.len() - 2, w.len() as int) =~= m);
        } else {
            lemma_trim_nonspace_head(s1);
            assert(w == spec_trim(s1) + seq![' ', '|', '|']);
            assert(w.subrange(0, 2) =~= m);
            assert(w.subrange(w.len() - 2, w.len() as int) =~= m);
        }
    }
}

/// Wrapping is idempotent: wrapping an already wrapped text changes nothing.
pub proof fn lemma_wrap_idempotent(s: Seq<char>)
    ensures
        spec_wrap(spec_wrap(s)) == spec_wrap(s),
{
    lemma_wrap_marked(s);
}

/// Toggles spoiler mode for the channel the message was sent in, and wraps
/// text while the mode is on.
#[derive(Debug)]
pub struct Spoiler {
    /// The command names this command answers to, in match order.
    pub names: Vec<String>,
}

/// The names registered for the spoiler command.
pub open spec fn spoiler_names() -> Seq<Seq<char>> {
    seq!["spoiler"@, "spoil"@, "spoilermode"@, "spoilmode"@, "sm"@]
}

impl Default for Spoiler {
    fn default() -> (r: Self)
        ensures
            r.names.deep_view() == spoiler_names(),
    {
        let names: Vec<String> = vec![
            "spoiler".to_owned(),
            "spoil".to_owned(),
            "spoilermode".to_owned(),
            "spoilmode".to_owned(),
            "sm".to_owned(),
        ];
        proof {
            assert(names.deep_view() =~= spoiler_names());
        }
        Spoiler { names }
    }
}

impl Spoiler {
    pub fn boxed() -> (r: Box<Self>)
        ensures
            r.names.deep_view() == spoiler_names(),
    {
        Box::new(Self::default())
    }

    /// The wrapped form of `v` (see [`spec_wrap`]).
    pub fn wrap_chars(v: &Vec<char>) -> (r: Vec<char>)
        ensures
            r@ == spec_wrap(v@),
    {
        let mut m: Vec<char> = Vec::new();
        m.push('|');
        m.push('|');
        proof {
            assert(m@ =~= spoiler_marker());
        }
        let st = starts_with_chars(v, &m);
        let en = ends_with_chars(v, &m);
        if st && en {
            return sub_chars(v, 0, v.len());
        }
        let s1: Vec<char> = if st {
            sub_chars(v, 0, v.len())
        } else {
            let mut t: Vec<char> = Vec::new();
            t.push('|');
            t.push('|');
            t.push(' ');
            proof {
                assert(t@ =~= seq!['|', '|', ' ']);
            }
            let tr = trim_chars(v);
            push_all(&mut t, &tr);
            t
        };
        let s2: Vec<char> = if en {
            s1
        } else {
            let mut t = trim_chars(&s1);
            t.push(' ');
            t.push('|');
            t.push('|');
            proof {
                assert(t@ =~= spec_trim(s1@) + seq![' ', '|', '|']);
            }
            t
        };
        proof {
            assert(v@.subrange(0, v@.len() as int) =~= v@);
        }
        s2
    }

    /// Wraps `s` in spoiler markers in place. Returns whether `s` changed,
    /// which is exactly when it did not already carry both markers.
    pub fn spoilerize(s: &mut String) -> (changed: bool)
        ensures
            final(s)@ == spec_wrap(old(s)@),
            changed == !(starts_with_seq(old(s)@, spoiler_marker()) && ends_with_seq(
                old(s)@,
                spoiler_marker(),
            )),
    {
        let v = chars_of(s.as_str());
        let mut m: Vec<char> = Vec::new();
        m.push('|');
        m.push('|');
        proof {
            assert(m@ =~= spoiler_marker());
        }
        let st = starts_with_chars(&v, &m);
        let en = ends_with_chars(&v, &m);
        if st && en {
            return false;
        }
        let w = Self::wrap_chars(&v);
        *s = string_of(&w);
        true
    }
}

} // verus!
