//! The message rewrite engine: one entry point per inbound message, tying
//! together command dispatch, the spoiler pre-pass, text-emote substitution,
//! tokenization, emote resolution and plan construction.
//!
//! Remote captures need the network, which this crate never touches: the
//! driver first asks [`remote_queries`] which names to resolve, performs the
//! resolutions, and then calls [`handle_message`] with the answers.

use vstd::prelude::*;

use crate::commands::palette::{palette_names, Palette};
use crate::commands::spoiler::{spec_wrap, spoiler_marker, spoiler_names, Spoiler};
use crate::commands::{match_command, spec_match_command, CommandKind};
use crate::emote_manager::{find_from, spec_find_emote, Emote, EmoteManager, SpecEmote};
use crate::error::Error;
use crate::plan::{all_unresolved, spec_plan_for, RewritePlan, SpecPlan};
use crate::scan::{
    find_candidate, is_candidate, kind_at, prefix_at, scan_from, tokenize, word_end, Capture,
    PrefixKind, SpecCapture, Tokenization,
};
use crate::substitution::{apply, spec_apply};
use crate::text::{
    chars_of, contains_seq, ends_with_seq, eq_chars, is_word_char, lower_of, seq_at,
    spec_trim, starts_with_seq, trim_chars,
};
use crate::user::User;

verus! {

impl DeepView for Capture {
    type V = SpecCapture;

    open spec fn deep_view(&self) -> SpecCapture {
        self.view()
    }
}

/// The captures of a scan, without their segments.
pub open spec fn pairs_caps(pairs: Seq<(Seq<char>, SpecCapture)>) -> Seq<SpecCapture> {
    pairs.map_values(|p: (Seq<char>, SpecCapture)| p.1)
}

/// How many of the first `i` captures are remote.
pub open spec fn n_remote_before(caps: Seq<SpecCapture>, i: int) -> int
    decreases i,
{
    if i <= 0 {
        0
    } else {
        n_remote_before(caps, i - 1) + if caps[i - 1].kind == PrefixKind::Remote {
            1int
        } else {
            0int
        }
    }
}

/// How many captures are remote.
pub open spec fn n_remote(caps: Seq<SpecCapture>) -> int {
    n_remote_before(caps, caps.len() as int)
}

pub proof fn lemma_n_remote_before_le(caps: Seq<SpecCapture>, i: int, j: int)
    requires
        i <= j,
    ensures
        n_remote_before(caps, i) <= n_remote_before(caps, j),
    decreases j - i,
{
    if i < j {
        lemma_n_remote_before_le(caps, i, j - 1);
    }
}

/// The names of the remote captures, in capture order.
pub open spec fn remote_name_seq(caps: Seq<SpecCapture>) -> Seq<Seq<char>>
    decreases caps.len(),
{
    if caps.len() == 0 {
        Seq::empty()
    } else if caps[0].kind == PrefixKind::Remote {
        seq![caps[0].name] + remote_name_seq(caps.skip(1))
    } else {
        remote_name_seq(caps.skip(1))
    }
}

/// What the driver's remote answers mean to the engine: a resolver error for
/// one capture is downgraded to "unresolved" and only that capture is
/// affected.
pub open spec fn remote_model(answers: Seq<Result<Option<Emote>, Error>>) -> Seq<
    Option<SpecEmote>,
> {
    answers.map_values(
        |a: Result<Option<Emote>, Error>|
            match a {
                Ok(Some(e)) => Some(e@),
                Ok(None) => None,
                Err(_) => None,
            },
    )
}

/// The engine's resolution of each capture, in order: a local capture is
/// looked up in the catalog under its lowercased name; a remote capture
/// takes the next remote answer.
pub open spec fn capture_resolutions(
    caps: Seq<SpecCapture>,
    emotes: Seq<Emote>,
    remote: Seq<Option<SpecEmote>>,
) -> Seq<Option<SpecEmote>> {
    Seq::new(
        caps.len(),
        |i: int|
            match caps[i].kind {
                PrefixKind::Local => match spec_find_emote(emotes, lower_of(caps[i].name)) {
                    Some(e) => Some(e@),
                    None => None,
                },
                PrefixKind::Remote => {
                    let j = n_remote_before(caps, i);
                    if 0 <= j < remote.len() {
                        remote[j]
                    } else {
                        None
                    }
                },
            },
    )
}

/// Resolves every capture of a tokenized message: local ones against the
/// catalog, remote ones against the driver's answers, errors downgraded to
/// unresolved.
pub fn resolve_captures(
    tok: &Tokenization,
    mngr: &EmoteManager,
    remote_answers: &Vec<Result<Option<Emote>, Error>>,
) -> (r: Vec<Option<Emote>>)
    requires
        remote_answers@.len() == n_remote(tok.captures.deep_view()),
    ensures
        r@.len() == tok.captures@.len(),
        r.deep_view() == capture_resolutions(
            tok.captures.deep_view(),
            mngr.emotes@,
            remote_model(remote_answers@),
        ),
{
    let ghost caps = tok.captures.deep_view();
    let ghost remote = remote_model(remote_answers@);
    let ghost want = capture_resolutions(caps, mngr.emotes@, remote);
    let rn: usize = remote_answers.len();
    let mut r: Vec<Option<Emote>> = Vec::new();
    let mut i: usize = 0;
    let mut ri: usize = 0;
    while i < tok.captures.len()
        invariant
            i <= tok.captures@.len(),
            caps == tok.captures.deep_view(),
            caps.len() == tok.captures@.len(),
            remote == remote_model(remote_answers@),
            remote.len() == remote_answers@.len(),
            remote.len() == rn as int,
            ri <= rn,
            remote.len() == n_remote(caps),
            want == capture_resolutions(caps, mngr.emotes@, remote),
            r@.len() == i,
            ri as int == n_remote_before(caps, i as int),
            forall|k: int| 0 <= k < i ==> r.deep_view()[k] == want[k],
        decreases tok.captures@.len() - i,
    {
        proof {
            assert(caps[i as int] == tok.captures@[i as int]@);
            assert(n_remote_before(caps, i + 1) == n_remote_before(caps, i as int) + (
            if caps[i as int].kind == PrefixKind::Remote {
                1int
            } else {
                0int
            }));
            lemma_n_remote_before_le(caps, i + 1, caps.len() as int);
        }
        let resolution: Option<Emote> = match tok.captures[i].kind {
            PrefixKind::Local => {
                match mngr.find_emote_by_name(tok.captures[i].name.as_str()) {
                    Some(e) => Some(e.clone()),
                    None => None,
                }
            },
            PrefixKind::Remote => {
                let a = match &remote_answers[ri] {
                    Ok(Some(e)) => Some(e.clone()),
                    Ok(None) => None,
                    Err(_) => None,
                };
                proof {
                    assert(remote[ri as int] == (match remote_answers@[ri as int] {
                        Ok(Some(e)) => Some(e@),
                        Ok(None) => None::<SpecEmote>,
                        Err(_) => None::<SpecEmote>,
                    }));
                }
                ri = ri + 1;
                a
            },
        };
        r.push(resolution);
        proof {
            assert(r.deep_view()[i as int] == want[i as int]);
        }
        i = i + 1;
    }
    proof {
        assert(r.deep_view() =~= want);
    }
    r
}

/// The names the driver must resolve remotely before the engine can plan
/// this tokenized message: the remote captures' names, in order.
pub fn remote_names(tok: &Tokenization) -> (r: Vec<String>)
    ensures
        r.deep_view() == remote_name_seq(tok.captures.deep_view()),
{
    let ghost caps = tok.captures.deep_view();
    let mut r: Vec<String> = Vec::new();
    let mut i: usize = 0;
    proof {
        assert(caps.skip(0) =~= caps);
        assert(Seq::<Seq<char>>::empty() + remote_name_seq(caps) =~= remote_name_seq(caps));
    }
    while i < tok.captures.len()
        invariant
            i <= tok.captures@.len(),
            caps == tok.captures.deep_view(),
            caps.len() == tok.captures@.len(),
            remote_name_seq(caps) == r.deep_view() + remote_name_seq(caps.skip(i as int)),
        decreases tok.captures@.len() - i,
    {
        let ghost rest = caps.skip(i as int);
        proof {
            assert(rest[0] == caps[i as int]);
            assert(rest.skip(1) =~= caps.skip(i + 1));
            assert(caps[i as int] == tok.captures@[i as int]@);
        }
        let is_remote = match tok.captures[i].kind {
            PrefixKind::Remote => true,
            PrefixKind::Local => false,
        };
        if is_remote {
            let ghost pre = r.deep_view();
            r.push(tok.captures[i].name.clone());
            proof {
                assert(r.deep_view() =~= pre + seq![rest[0].name]);
                assert((pre + seq![rest[0].name]) + remote_name_seq(caps.skip(i + 1)) =~= pre + (
                seq![rest[0].name] + remote_name_seq(caps.skip(i + 1))));
            }
        }
        i = i + 1;
    }
    proof {
        assert(caps.skip(caps.len() as int) =~= Seq::<SpecCapture>::empty());
        assert(r.deep_view() + Seq::<Seq<char>>::empty() =~= r.deep_view());
    }
    r
}

/// What processing decided for one inbound message.
#[derive(Debug)]
pub enum MessageOutcome {
    /// The message invokes a command: the driver executes it (toggling the
    /// spoiler registry, or sending the palette link) and deletes the
    /// original message.
    Command(CommandKind),
    /// Spoiler-mode pre-pass: the driver edits the original message to this
    /// wrapped text and stops.
    SpoilerEdit(String),
    /// The rewriting path: first an edit applying text-emote substitution,
    /// if it changed anything; then the rewrite plan, if one was produced.
    Rewrite { substituted: Option<String>, plan: Option<RewritePlan> },
}

/// The contents of a [`MessageOutcome`].
pub enum SpecOutcome {
    Command(CommandKind),
    SpoilerEdit(Seq<char>),
    Rewrite { substituted: Option<Seq<char>>, plan: Option<SpecPlan> },
}

impl View for MessageOutcome {
    type V = SpecOutcome;

    open spec fn view(&self) -> SpecOutcome {
        match self {
            MessageOutcome::Command(k) => SpecOutcome::Command(*k),
            MessageOutcome::SpoilerEdit(s) => SpecOutcome::SpoilerEdit(s@),
            MessageOutcome::Rewrite { substituted, plan } => SpecOutcome::Rewrite {
                substituted: match substituted {
                    Some(s) => Some(s@),
                    None => None,
                },
                plan: match plan {
                    Some(p) => Some(p@),
                    None => None,
                },
            },
        }
    }
}

/// Whether the spoiler pre-pass edits the message: spoiler mode is on, the
/// content is not blank, and wrapping would change it.
pub open spec fn spoiler_pre_pass(content: Seq<char>, spoiler_on: bool) -> bool {
    spoiler_on && spec_trim(content).len() > 0 && !(starts_with_seq(content, spoiler_marker())
        && ends_with_seq(content, spoiler_marker()))
}

/// What the engine decides for one message, given the per-capture remote
/// answers: first command dispatch, then the spoiler pre-pass, then
/// text-emote substitution followed by the emote rewrite plan.
pub open spec fn spec_outcome(
    content: Seq<char>,
    has_attachments: bool,
    spoiler_on: bool,
    cmd_prefix: Seq<char>,
    p1: Seq<char>,
    p2: Seq<char>,
    text_prefix: Seq<char>,
    table: Seq<(Seq<Seq<char>>, Seq<char>)>,
    emotes: Seq<Emote>,
    remote: Seq<Option<SpecEmote>>,
) -> SpecOutcome {
    match spec_match_command(content, cmd_prefix, palette_names(), spoiler_names()) {
        Some(k) => SpecOutcome::Command(k),
        None => {
            if spoiler_pre_pass(content, spoiler_on) {
                SpecOutcome::SpoilerEdit(spec_wrap(content))
            } else {
                let sub = spec_apply(content, text_prefix, table);
                let scanned = scan_from(sub, p1, p2, 0);
                let res = capture_resolutions(pairs_caps(scanned.pairs), emotes, remote);
                SpecOutcome::Rewrite {
                    substituted: if sub != content {
                        Some(sub)
                    } else {
                        None
                    },
                    plan: spec_plan_for(
                        scanned.pairs,
                        scanned.trailing,
                        res,
                        p1,
                        p2,
                        spoiler_on,
                        has_attachments,
                    ),
                }
            }
        },
    }
}

/// How many remote answers [`handle_message`] needs for this message: none
/// when a command or the spoiler pre-pass short-circuits, otherwise one per
/// remote capture of the substituted content.
pub open spec fn spec_remote_query_count(
    content: Seq<char>,
    spoiler_on: bool,
    cmd_prefix: Seq<char>,
    p1: Seq<char>,
    p2: Seq<char>,
    text_prefix: Seq<char>,
    table: Seq<(Seq<Seq<char>>, Seq<char>)>,
) -> int {
    if spec_match_command(content, cmd_prefix, palette_names(), spoiler_names()) is Some {
        0
    } else if spoiler_pre_pass(content, spoiler_on) {
        0
    } else {
        n_remote(pairs_caps(scan_from(spec_apply(content, text_prefix, table), p1, p2, 0).pairs))
    }
}

/// Relates a tokenization's capture list to the scan it came from.
proof fn lemma_tok_caps(tok: Tokenization, s: Seq<char>, p1: Seq<char>, p2: Seq<char>)
    requires
        tok.wf(),
        tok.pairs() == scan_from(s, p1, p2, 0).pairs,
    ensures
        tok.captures.deep_view() == pairs_caps(scan_from(s, p1, p2, 0).pairs),
{
    assert(tok.captures.deep_view() =~= pairs_caps(tok.pairs()));
}

/// The names the driver must resolve remotely for this message, in order:
/// empty when a command or the spoiler pre-pass would short-circuit. The
/// answers, in the same order, are what [`handle_message`] takes.
pub fn remote_queries(content: &str, spoiler_on: bool, user: &User, mngr: &EmoteManager) -> (r: Vec<
    String,
>)
    ensures
        r@.len() == spec_remote_query_count(
            content@,
            spoiler_on,
            user.command_prefix@,
            user.emote_prefix@,
            user.twitch_emote_prefix@,
            user.text_emote_prefix@,
            mngr.text_emotes.deep_view(),
        ),
        r.deep_view() == (if spec_match_command(
            content@,
            user.command_prefix@,
            palette_names(),
            spoiler_names(),
        ) is Some || spoiler_pre_pass(content@, spoiler_on) {
            Seq::<Seq<char>>::empty()
        } else {
            remote_name_seq(
                pairs_caps(
                    scan_from(
                        spec_apply(content@, user.text_emote_prefix@, mngr.text_emotes.deep_view()),
                        user.emote_prefix@,
                        user.twitch_emote_prefix@,
                        0,
                    ).pairs,
                ),
            )
        }),
{
    let palette = Palette::default();
    let spoiler_cmd = Spoiler::default();
    if match_command(content, user.command_prefix.as_str(), &palette, &spoiler_cmd).is_some() {
        return Vec::new();
    }
    if spoiler_on {
        let c = chars_of(content);
        let tr = trim_chars(&c);
        if tr.len() > 0 {
            let mut with = content.to_owned();
            let changed = Spoiler::spoilerize(&mut with);
            if changed {
                return Vec::new();
            }
        }
    }
    let sub = apply(content, user.text_emote_prefix.as_str(), &mngr.text_emotes);
    let tok = tokenize(
        sub.as_str(),
        user.emote_prefix.as_str(),
        user.twitch_emote_prefix.as_str(),
    );
    let names = remote_names(&tok);
    proof {
        lemma_tok_caps(
            tok,
            spec_apply(content@, user.text_emote_prefix@, mngr.text_emotes.deep_view()),
            user.emote_prefix@,
            user.twitch_emote_prefix@,
        );
        lemma_remote_name_seq_len(tok.captures.deep_view());
    }
    names
}

/// There are as many remote names as remote captures.
pub proof fn lemma_remote_name_seq_len(caps: Seq<SpecCapture>)
    ensures
        remote_name_seq(caps).len() == n_remote(caps),
    decreases caps.len(),
{
    if caps.len() > 0 {
        lemma_remote_name_seq_len(caps.skip(1));
        lemma_n_remote_shift(caps);
        assert(n_remote_before(caps, 0) == 0);
        assert(n_remote_before(caps, 1) == if caps[0].kind == PrefixKind::Remote {
            1int
        } else {
            0int
        });
    }
}

/// Counting remote captures commutes with dropping the first capture.
proof fn lemma_n_remote_shift(caps: Seq<SpecCapture>)
    requires
        caps.len() > 0,
    ensures
        n_remote(caps) == n_remote_before(caps, 1) + n_remote(caps.skip(1)),
{
    lemma_n_remote_shift_aux(caps, caps.len() as int - 1);
}

proof fn lemma_n_remote_shift_aux(caps: Seq<SpecCapture>, i: int)
    requires
        caps.len() > 0,
        0 <= i <= caps.len() - 1,
    ensures
        n_remote_before(caps, i + 1) == n_remote_before(caps, 1) + n_remote_before(
            caps.skip(1),
            i,
        ),
    decreases i,
{
    if i > 0 {
        lemma_n_remote_shift_aux(caps, i - 1);
        assert(caps.skip(1)[i - 1] == caps[i]);
    }
}

/// Processes one inbound message. `remote_answers` holds the driver's
/// resolution result for each name [`remote_queries`] returned, in order;
/// an `Err` means the resolver failed for that capture alone, and that
/// capture is restored as literal text.
pub fn handle_message(
    content: &str,
    has_attachments: bool,
    spoiler_on: bool,
    user: &User,
    mngr: &EmoteManager,
    remote_answers: &Vec<Result<Option<Emote>, Error>>,
) -> (r: MessageOutcome)
    requires
        remote_answers@.len() == spec_remote_query_count(
            content@,
            spoiler_on,
            user.command_prefix@,
            user.emote_prefix@,
            user.twitch_emote_prefix@,
            user.text_emote_prefix@,
            mngr.text_emotes.deep_view(),
        ),
    ensures
        r@ == spec_outcome(
            content@,
            has_attachments,
            spoiler_on,
            user.command_prefix@,
            user.emote_prefix@,
            user.twitch_emote_prefix@,
            user.text_emote_prefix@,
            mngr.text_emotes.deep_view(),
            mngr.emotes@,
            remote_model(remote_answers@),
        ),
{
    let palette = Palette::default();
    let spoiler_cmd = Spoiler::default();
    match match_command(content, user.command_prefix.as_str(), &palette, &spoiler_cmd) {
        Some(k) => {
            return MessageOutcome::Command(k);
        },
        None => {},
    }
    if spoiler_on {
        let c = chars_of(content);
        let tr = trim_chars(&c);
        if tr.len() > 0 {
            let mut with = content.to_owned();
            let changed = Spoiler::spoilerize(&mut with);
            if changed {
                return MessageOutcome::SpoilerEdit(with);
            }
        }
    }
    let sub = apply(content, user.text_emote_prefix.as_str(), &mngr.text_emotes);
    let sub_chars_v = chars_of(sub.as_str());
    let orig_chars = chars_of(content);
    let substituted: Option<String> = if eq_chars(&sub_chars_v, &orig_chars) {
        None
    } else {
        Some(sub.clone())
    };
    let tok = tokenize(
        sub.as_str(),
        user.emote_prefix.as_str(),
        user.twitch_emote_prefix.as_str(),
    );
    proof {
        lemma_tok_caps(
            tok,
            spec_apply(content@, user.text_emote_prefix@, mngr.text_emotes.deep_view()),
            user.emote_prefix@,
            user.twitch_emote_prefix@,
        );
    }
    let resolutions = resolve_captures(&tok, mngr, remote_answers);
    let plan = crate::plan::build_plan(
        &tok,
        user.emote_prefix.as_str(),
        user.twitch_emote_prefix.as_str(),
        &resolutions,
        spoiler_on,
        has_attachments,
    );
    MessageOutcome::Rewrite { substituted, plan }
}

/// A message with no occurrence of either configured prefix (an empty prefix
/// never matches at all) is left untouched: the engine produces no plan.
pub proof fn lemma_no_prefix_no_plan(
    content: Seq<char>,
    p1: Seq<char>,
    p2: Seq<char>,
    res: Seq<Option<SpecEmote>>,
    spoiler: bool,
    has_attachments: bool,
)
    requires
        p1.len() == 0 || !contains_seq(content, p1),
        p2.len() == 0 || !contains_seq(content, p2),
    ensures
        spec_plan_for(
            scan_from(content, p1, p2, 0).pairs,
            scan_from(content, p1, p2, 0).trailing,
            res,
            p1,
            p2,
            spoiler,
            has_attachments,
        ) is None,
{
    match find_candidate(content, p1, p2, 0, 0) {
        Some(p) => {
            crate::scan::lemma_find_candidate(content, p1, p2, 0, 0);
            assert(is_candidate(content, p1, p2, 0, p));
            if prefix_at(content, p, p1) {
                assert(seq_at(content, p, p1));
                assert(contains_seq(content, p1));
            } else {
                assert(prefix_at(content, p, p2));
                assert(seq_at(content, p, p2));
                assert(contains_seq(content, p2));
            }
            assert(false);
        },
        None => {
            assert(scan_from(content, p1, p2, 0).pairs =~= Seq::<(Seq<char>, SpecCapture)>::empty());
        },
    }
}

/// All word characters from `q` on: the word run reaches the end.
proof fn lemma_word_end_all(s: Seq<char>, q: int)
    requires
        0 <= q <= s.len(),
        forall|k: int| q <= k < s.len() ==> is_word_char(s[k]),
    ensures
        word_end(s, q) == s.len(),
    decreases s.len() - q,
{
    if q < s.len() {
        lemma_word_end_all(s, q + 1);
    }
}

/// A message that is exactly the local prefix followed by a name made of
/// word characters yields exactly one capture; when the catalog has no emote
/// under the name's lowercased form, every capture is unresolved and the
/// engine produces no plan.
pub proof fn lemma_unknown_token_no_plan(
    content: Seq<char>,
    p1: Seq<char>,
    p2: Seq<char>,
    name: Seq<char>,
    emotes: Seq<Emote>,
    remote: Seq<Option<SpecEmote>>,
    spoiler: bool,
    has_attachments: bool,
)
    requires
        p1.len() > 0,
        content == p1 + name,
        forall|k: int| 0 <= k < name.len() ==> is_word_char(name[k]),
        find_from(emotes, lower_of(name), 0) is None,
    ensures
        spec_plan_for(
            scan_from(content, p1, p2, 0).pairs,
            scan_from(content, p1, p2, 0).trailing,
            capture_resolutions(pairs_caps(scan_from(content, p1, p2, 0).pairs), emotes, remote),
            p1,
            p2,
            spoiler,
            has_attachments,
        ) is None,
{
    let n = content.len() as int;
    assert(content.subrange(0, p1.len() as int) =~= p1);
    assert(seq_at(content, 0, p1));
    assert(prefix_at(content, 0, p1));
    assert(kind_at(content, p1, p2, 0) == Some(PrefixKind::Local));
    assert(is_candidate(content, p1, p2, 0, 0));
    assert(find_candidate(content, p1, p2, 0, 0) == Some(0int));
    assert forall|k: int| p1.len() <= k < n implies is_word_char(content[k]) by {
        assert(content[k] == name[k - p1.len()]);
    }
    lemma_word_end_all(content, p1.len() as int);
    assert(word_end(content, p1.len() as int) == n);
    let scanned = scan_from(content, p1, p2, 0);
    assert(find_candidate(content, p1, p2, n, n) is None);
    assert(scan_from(content, p1, p2, n).pairs =~= Seq::<(Seq<char>, SpecCapture)>::empty());
    let cap = SpecCapture {
        ws: content.subrange(0, 0),
        kind: PrefixKind::Local,
        name: content.subrange(p1.len() as int, n),
    };
    assert(scanned.pairs =~= seq![(content.subrange(0, 0), cap)]);
    let caps = pairs_caps(scanned.pairs);
    assert(caps[0] == cap);
    assert(cap.name =~= name);
    let res = capture_resolutions(caps, emotes, remote);
    assert(res[0] is None);
    assert(all_unresolved(res));
}

} // verus!
