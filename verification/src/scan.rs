//! Tokenization of message content.
//!
//! The content is scanned left to right for occurrences of either configured
//! emote prefix, each preceded by the start of the text or by a whitespace
//! run and followed by a maximal run of word characters (the candidate emote
//! name). The scan yields the literal segments between matches and the
//! ordered captures, in one combined pass so that local and remote tokens
//! keep their original order.

use vstd::prelude::*;

use crate::text::{chars_at, chars_of, is_space, is_space_char, is_word, is_word_char, seq_at,
    string_of, sub_chars};

verus! {

/// Which configured prefix a capture matched.
#[derive(Debug, Clone, Copy, PartialEq, Eq, Structural)]
pub enum PrefixKind {
    Local,
    Remote,
}

/// One recognized occurrence: the whitespace run that preceded the prefix,
/// the prefix kind, and the candidate emote name (possibly empty).
#[derive(Debug)]
pub struct Capture {
    pub whitespace: String,
    pub kind: PrefixKind,
    pub name: String,
}

/// The contents of a [`Capture`].
pub struct SpecCapture {
    pub ws: Seq<char>,
    pub kind: PrefixKind,
    pub name: Seq<char>,
}

impl View for Capture {
    type V = SpecCapture;

    open spec fn view(&self) -> SpecCapture {
        SpecCapture { ws: self.whitespace@, kind: self.kind, name: self.name@ }
    }
}

/// The prefix string a capture of the given kind matched.
pub open spec fn prefix_text(kind: PrefixKind, p1: Seq<char>, p2: Seq<char>) -> Seq<char> {
    match kind {
        PrefixKind::Local => p1,
        PrefixKind::Remote => p2,
    }
}

/// A configured (non-empty) prefix occurs at position `p`.
pub open spec fn prefix_at(s: Seq<char>, p: int, pre: Seq<char>) -> bool {
    pre.len() > 0 && seq_at(s, p, pre)
}

/// The prefix matching at `p`, the local one taking priority.
pub open spec fn kind_at(s: Seq<char>, p1: Seq<char>, p2: Seq<char>, p: int) -> Option<PrefixKind> {
    if prefix_at(s, p, p1) {
        Some(PrefixKind::Local)
    } else if prefix_at(s, p, p2) {
        Some(PrefixKind::Remote)
    } else {
        None
    }
}

/// A match at `p` must sit at the start of the text or right after
/// whitespace that the scan has not consumed yet (`c` is the scan position):
/// mid-word occurrences never match.
pub open spec fn anchored(s: Seq<char>, c: int, p: int) -> bool {
    p == 0 || (c < p && is_space_char(s[p - 1]))
}

/// A capture can start at `p` when scanning from `c`.
pub open spec fn is_candidate(s: Seq<char>, p1: Seq<char>, p2: Seq<char>, c: int, p: int) -> bool {
    anchored(s, c, p) && kind_at(s, p1, p2, p) is Some
}

/// The smallest candidate position in `[p, s.len())`, scanning from `c`.
pub open spec fn find_candidate(
    s: Seq<char>,
    p1: Seq<char>,
    p2: Seq<char>,
    c: int,
    p: int,
) -> Option<int>
    decreases s.len() - p,
{
    if p < 0 || p >= s.len() {
        None
    } else if is_candidate(s, p1, p2, c, p) {
        Some(p)
    } else {
        find_candidate(s, p1, p2, c, p + 1)
    }
}

/// The start of the whitespace run inside `[c, p]` that ends at `p`.
pub open spec fn ws_start(s: Seq<char>, c: int, p: int) -> int
    decreases p - c,
{
    if p <= c {
        p
    } else if is_space_char(s[p - 1]) {
        ws_start(s, c, p - 1)
    } else {
        p
    }
}

/// The end of the word-character run starting at `q`.
pub open spec fn word_end(s: Seq<char>, q: int) -> int
    decreases s.len() - q,
{
    if 0 <= q < s.len() && is_word_char(s[q]) {
        word_end(s, q + 1)
    } else {
        q
    }
}

pub proof fn lemma_find_candidate(s: Seq<char>, p1: Seq<char>, p2: Seq<char>, c: int, p: int)
    ensures
        find_candidate(s, p1, p2, c, p) matches Some(q) ==> p <= q < s.len() && is_candidate(
            s,
            p1,
            p2,
            c,
            q,
        ),
        find_candidate(s, p1, p2, c, p) matches Some(q) ==> forall|r: int|
            p <= r < q ==> !is_candidate(s, p1, p2, c, r),
        0 <= p && find_candidate(s, p1, p2, c, p) is None ==> forall|r: int|
            p <= r < s.len() ==> !is_candidate(s, p1, p2, c, r),
    decreases s.len() - p,
{
    if 0 <= p < s.len() && !is_candidate(s, p1, p2, c, p) {
        lemma_find_candidate(s, p1, p2, c, p + 1);
    }
}

pub proof fn lemma_ws_start(s: Seq<char>, c: int, p: int)
    requires
        0 <= c <= p <= s.len(),
    ensures
        c <= ws_start(s, c, p) <= p,
        forall|k: int| ws_start(s, c, p) <= k < p ==> is_space_char(s[k]),
    decreases p - c,
{
    if p > c && is_space_char(s[p - 1]) {
        lemma_ws_start(s, c, p - 1);
    }
}

pub proof fn lemma_word_end(s: Seq<char>, q: int)
    requires
        0 <= q <= s.len(),
    ensures
        q <= word_end(s, q) <= s.len(),
        forall|k: int| q <= k < word_end(s, q) ==> is_word_char(s[k]),
    decreases s.len() - q,
{
    if q < s.len() && is_word_char(s[q]) {
        lemma_word_end(s, q + 1);
    }
}

/// The result of a scan from some position: the `(segment, capture)` pairs
/// and the trailing segment after the last capture.
pub struct SpecScan {
    pub pairs: Seq<(Seq<char>, SpecCapture)>,
    pub trailing: Seq<char>,
}

/// Scans `s` from position `c`. Each found candidate yields the literal
/// segment since the previous match (whitespace before the prefix excluded),
/// the whitespace run, the prefix kind, and the maximal word-character run
/// after the prefix; the scan resumes right after the name.
pub open spec fn scan_from(s: Seq<char>, p1: Seq<char>, p2: Seq<char>, c: int) -> SpecScan
    decreases s.len() - c,
    via scan_from_decreases
{
    match find_candidate(s, p1, p2, c, c) {
        None => SpecScan {
            pairs: Seq::empty(),
            trailing: if 0 <= c <= s.len() {
                s.subrange(c, s.len() as int)
            } else {
                Seq::empty()
            },
        },
        Some(p) => {
            let kind = kind_at(s, p1, p2, p)->0;
            let pre_len = prefix_text(kind, p1, p2).len() as int;
            let w = ws_start(s, c, p);
            let e = word_end(s, p + pre_len);
            let item = (
                s.subrange(c, w),
                SpecCapture { ws: s.subrange(w, p), kind, name: s.subrange(p + pre_len, e) },
            );
            let rest = scan_from(s, p1, p2, e);
            SpecScan { pairs: seq![item] + rest.pairs, trailing: rest.trailing }
        },
    }
}

#[via_fn]
proof fn scan_from_decreases(s: Seq<char>, p1: Seq<char>, p2: Seq<char>, c: int) {
    lemma_find_candidate(s, p1, p2, c, c);
    match find_candidate(s, p1, p2, c, c) {
        Some(p) => {
            let kind = kind_at(s, p1, p2, p)->0;
            let pre_len = prefix_text(kind, p1, p2).len() as int;
            lemma_word_end(s, p + pre_len);
        },
        None => {},
    }
}

/// Bounds on the pieces of the first match, used when mirroring the scan in
/// executable code.
pub proof fn lemma_scan_step(s: Seq<char>, p1: Seq<char>, p2: Seq<char>, c: int)
    requires
        0 <= c <= s.len(),
        find_candidate(s, p1, p2, c, c) is Some,
    ensures
        ({
            let p = find_candidate(s, p1, p2, c, c)->0;
            let kind = kind_at(s, p1, p2, p)->0;
            let pre_len = prefix_text(kind, p1, p2).len() as int;
            &&& c <= p < s.len()
            &&& kind_at(s, p1, p2, p) is Some
            &&& pre_len > 0
            &&& p + pre_len <= s.len()
            &&& c <= ws_start(s, c, p) <= p
            &&& p + pre_len <= word_end(s, p + pre_len) <= s.len()
        }),
{
    lemma_find_candidate(s, p1, p2, c, c);
    let p = find_candidate(s, p1, p2, c, c)->0;
    let kind = kind_at(s, p1, p2, p)->0;
    let pre_len = prefix_text(kind, p1, p2).len() as int;
    lemma_ws_start(s, c, p);
    lemma_word_end(s, p + pre_len);
}

/// A scan of the whole content: the literal segments (always one more than
/// there are captures; the last is the trailing text) and the captures, in
/// order.
#[derive(Debug)]
pub struct Tokenization {
    pub segments: Vec<String>,
    pub captures: Vec<Capture>,
}

impl Tokenization {
    /// One segment per capture, plus the trailing segment.
    pub open spec fn wf(&self) -> bool {
        self.segments@.len() == self.captures@.len() + 1
    }

    /// The `(segment, capture)` pairs, in order.
    pub open spec fn pairs(&self) -> Seq<(Seq<char>, SpecCapture)> {
        Seq::new(self.captures@.len(), |i: int| (self.segments@[i]@, self.captures@[i]@))
    }

    /// The text after the last capture.
    pub open spec fn trailing(&self) -> Seq<char> {
        self.segments@[self.segments@.len() - 1]@
    }
}

fn kind_at_exec(s: &Vec<char>, p1: &Vec<char>, p2: &Vec<char>, p: usize) -> (r: Option<PrefixKind>)
    ensures
        r == kind_at(s@, p1@, p2@, p as int),
{
    if p1.len() > 0 && chars_at(s, p, p1) {
        Some(PrefixKind::Local)
    } else if p2.len() > 0 && chars_at(s, p, p2) {
        Some(PrefixKind::Remote)
    } else {
        None
    }
}

fn is_candidate_exec(s: &Vec<char>, p1: &Vec<char>, p2: &Vec<char>, c: usize, p: usize) -> (r: bool)
    requires
        p <= s@.len(),
    ensures
        r == is_candidate(s@, p1@, p2@, c as int, p as int),
{
    let anch = p == 0 || (c < p && is_space(s[p - 1]));
    if !anch {
        return false;
    }
    kind_at_exec(s, p1, p2, p).is_some()
}

fn find_candidate_exec(s: &Vec<char>, p1: &Vec<char>, p2: &Vec<char>, c: usize) -> (r: Option<
    usize,
>)
    requires
        c <= s@.len(),
    ensures
        match r {
            Some(p) => find_candidate(s@, p1@, p2@, c as int, c as int) == Some(p as int),
            None => find_candidate(s@, p1@, p2@, c as int, c as int) is None,
        },
{
    let mut p: usize = c;
    while p < s.len()
        invariant
            c <= p <= s@.len(),
            find_candidate(s@, p1@, p2@, c as int, c as int) == find_candidate(
                s@,
                p1@,
                p2@,
                c as int,
                p as int,
            ),
        decreases s@.len() - p,
    {
        if is_candidate_exec(s, p1, p2, c, p) {
            return Some(p);
        }
        p = p + 1;
    }
    None
}

fn ws_start_exec(s: &Vec<char>, c: usize, p: usize) -> (w: usize)
    requires
        c <= p <= s@.len(),
    ensures
        w as int == ws_start(s@, c as int, p as int),
        c <= w <= p,
{
    let mut w: usize = p;
    while w > c && is_space(s[w - 1])
        invariant
            c <= w <= p <= s@.len(),
            ws_start(s@, c as int, p as int) == ws_start(s@, c as int, w as int),
        decreases w,
    {
        w = w - 1;
    }
    w
}

fn word_end_exec(s: &Vec<char>, q: usize) -> (e: usize)
    requires
        q <= s@.len(),
    ensures
        e as int == word_end(s@, q as int),
        q <= e <= s@.len(),
{
    let mut e: usize = q;
    while e < s.len() && is_word(s[e])
        invariant
            q <= e <= s@.len(),
            word_end(s@, q as int) == word_end(s@, e as int),
        decreases s@.len() - e,
    {
        e = e + 1;
    }
    e
}

/// Scans `content` for captures of the two configured prefixes. An empty
/// prefix never matches.
pub fn tokenize(content: &str, local_prefix: &str, remote_prefix: &str) -> (r: Tokenization)
    ensures
        r.wf(),
        r.pairs() == scan_from(content@, local_prefix@, remote_prefix@, 0).pairs,
        r.trailing() == scan_from(content@, local_prefix@, remote_prefix@, 0).trailing,
{
    let s = chars_of(content);
    let p1 = chars_of(local_prefix);
    let p2 = chars_of(remote_prefix);
    let ghost full = scan_from(s@, p1@, p2@, 0);
    let mut segments: Vec<String> = Vec::new();
    let mut captures: Vec<Capture> = Vec::new();
    let mut c: usize = 0;
    let mut cand = find_candidate_exec(&s, &p1, &p2, 0);
    proof {
        assert(Seq::new(
            0,
            |i: int| (segments@[i]@, captures@[i]@),
        ) + full.pairs =~= full.pairs);
    }
    while cand.is_some()
        invariant
            s@ == content@,
            p1@ == local_prefix@,
            p2@ == remote_prefix@,
            c <= s@.len(),
            segments@.len() == captures@.len(),
            full == scan_from(s@, p1@, p2@, 0),
            full.pairs == Seq::new(
                captures@.len(),
                |i: int| (segments@[i]@, captures@[i]@),
            ) + scan_from(s@, p1@, p2@, c as int).pairs,
            full.trailing == scan_from(s@, p1@, p2@, c as int).trailing,
            match cand {
                Some(p) => find_candidate(s@, p1@, p2@, c as int, c as int) == Some(p as int),
                None => find_candidate(s@, p1@, p2@, c as int, c as int) is None,
            },
        decreases s@.len() - c + (if cand.is_some() {
            1int
        } else {
            0int
        }),
    {
        let p = cand.unwrap();
        proof {
            lemma_scan_step(s@, p1@, p2@, c as int);
        }
        let k = kind_at_exec(&s, &p1, &p2, p).unwrap();
        let pre_len = match k {
            PrefixKind::Local => p1.len(),
            PrefixKind::Remote => p2.len(),
        };
        let w = ws_start_exec(&s, c, p);
        let e = word_end_exec(&s, p + pre_len);
        let ghost old_pairs = Seq::new(captures@.len(), |i: int| (segments@[i]@, captures@[i]@));
        let seg_chars = sub_chars(&s, c, w);
        segments.push(string_of(&seg_chars));
        let ws_chars = sub_chars(&s, w, p);
        let name_chars = sub_chars(&s, p + pre_len, e);
        captures.push(
            Capture { whitespace: string_of(&ws_chars), kind: k, name: string_of(&name_chars) },
        );
        proof {
            let item = (
                s@.subrange(c as int, w as int),
                SpecCapture {
                    ws: s@.subrange(w as int, p as int),
                    kind: k,
                    name: s@.subrange(p + pre_len, e as int),
                },
            );
            assert(scan_from(s@, p1@, p2@, c as int).pairs == seq![item] + scan_from(
                s@,
                p1@,
                p2@,
                e as int,
            ).pairs);
            assert(scan_from(s@, p1@, p2@, c as int).trailing == scan_from(
                s@,
                p1@,
                p2@,
                e as int,
            ).trailing);
            assert(Seq::new(captures@.len(), |i: int| (segments@[i]@, captures@[i]@))
                =~= old_pairs.push(item));
            assert((old_pairs + seq![item]) + scan_from(s@, p1@, p2@, e as int).pairs =~= old_pairs
                + (seq![item] + scan_from(s@, p1@, p2@, e as int).pairs));
            assert(old_pairs.push(item) =~= old_pairs + seq![item]);
        }
        c = e;
        cand = find_candidate_exec(&s, &p1, &p2, c);
    }
    let trail_chars = sub_chars(&s, c, s.len());
    segments.push(string_of(&trail_chars));
    let r = Tokenization { segments, captures };
    proof {
        assert(scan_from(s@, p1@, p2@, c as int).pairs =~= Seq::<(Seq<char>, SpecCapture)>::empty());
        assert(r.pairs() =~= Seq::new(
            r.captures@.len(),
            |i: int| (r.segments@[i]@, r.captures@[i]@),
        ));
        assert(full.pairs =~= r.pairs());
        assert(r.trailing() == s@.subrange(c as int, s@.len() as int));
    }
    r
}

} // verus!
