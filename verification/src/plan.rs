//! The rewrite plan: the ordered actions that redistribute one message's
//! text around its emotes, and the reconstruction that builds them.

use vstd::prelude::*;

use crate::commands::spoiler::{spec_wrap, spoiler_marker, Spoiler};
use crate::emote_manager::{Emote, SpecEmote};
use crate::scan::{prefix_text, PrefixKind, SpecCapture, Tokenization};
use crate::text::{chars_of, eq_chars, push_all, spec_trim, string_of, sub_chars, trim_chars};

verus! {

/// One output action, in plan order.
#[derive(Debug)]
pub enum Action {
    /// Edit the original message to carry this text.
    EditOriginal(String),
    /// Send a plain message with this text.
    SendText(String),
    /// Send a message with this text and the emote as attachment.
    SendAttachment(String, Emote),
}

/// The contents of an [`Action`].
pub enum SpecAction {
    Edit(Seq<char>),
    Text(Seq<char>),
    Attach(Seq<char>, SpecEmote),
}

impl View for Action {
    type V = SpecAction;

    open spec fn view(&self) -> SpecAction {
        match self {
            Action::EditOriginal(s) => SpecAction::Edit(s@),
            Action::SendText(s) => SpecAction::Text(s@),
            Action::SendAttachment(s, e) => SpecAction::Attach(s@, e@),
        }
    }
}

/// The ordered actions for one message, and whether the original message
/// should be deleted once they are applied.
#[derive(Debug)]
pub struct RewritePlan {
    pub actions: Vec<Action>,
    pub delete_original: bool,
}

/// The contents of a list of actions.
pub open spec fn acts_view(actions: Seq<Action>) -> Seq<SpecAction> {
    actions.map_values(|a: Action| a@)
}

/// The contents of a [`RewritePlan`].
#[verifier::ext_equal]
pub struct SpecPlan {
    pub actions: Seq<SpecAction>,
    pub delete_original: bool,
}

impl View for RewritePlan {
    type V = SpecPlan;

    open spec fn view(&self) -> SpecPlan {
        SpecPlan { actions: acts_view(self.actions@), delete_original: self.delete_original }
    }
}

/// The reconstruction state: the accumulating text buffer, whether the next
/// emission would be the first, whether an edit of the original has been
/// emitted, and the actions so far.
#[verifier::ext_equal]
pub struct BuildState {
    pub buf: Seq<char>,
    pub first: bool,
    pub edited: bool,
    pub actions: Seq<SpecAction>,
}

pub open spec fn init_state() -> BuildState {
    BuildState { buf: Seq::empty(), first: true, edited: false, actions: Seq::empty() }
}

/// A buffer is trivial when its trimmed form is empty or a lone spoiler
/// marker: such a chunk is never worth a message of its own.
pub open spec fn is_trivial(buf: Seq<char>) -> bool {
    spec_trim(buf).len() == 0 || spec_trim(buf) == spoiler_marker()
}

/// One reconstruction step: append the segment; an unresolved capture is
/// restored verbatim into the buffer, a resolved one takes the buffer (its
/// whitespace re-appended, spoiler-wrapped when enabled and non-trivial) out
/// as the leading text of an emission. The first emission with non-trivial
/// leading text edits the original instead and attaches with empty text.
pub open spec fn step_state(
    st: BuildState,
    seg: Seq<char>,
    cap: SpecCapture,
    res: Option<SpecEmote>,
    p1: Seq<char>,
    p2: Seq<char>,
    spoiler: bool,
) -> BuildState {
    let buf1 = st.buf + seg;
    match res {
        None => BuildState {
            buf: buf1 + cap.ws + prefix_text(cap.kind, p1, p2) + cap.name,
            first: st.first,
            edited: st.edited,
            actions: st.actions,
        },
        Some(e) => {
            let trivial = is_trivial(buf1);
            let buf2 = buf1 + cap.ws;
            let buf3 = if spoiler && !trivial {
                spec_wrap(buf2)
            } else {
                buf2
            };
            if st.first && !trivial {
                BuildState {
                    buf: Seq::empty(),
                    first: false,
                    edited: true,
                    actions: st.actions + seq![
                        SpecAction::Edit(buf3),
                        SpecAction::Attach(Seq::empty(), e),
                    ],
                }
            } else {
                BuildState {
                    buf: Seq::empty(),
                    first: false,
                    edited: st.edited,
                    actions: st.actions + seq![SpecAction::Attach(buf3, e)],
                }
            }
        },
    }
}

/// The reconstruction fold over all `(segment, capture)` pairs.
pub open spec fn fold_pairs(
    st: BuildState,
    pairs: Seq<(Seq<char>, SpecCapture)>,
    res: Seq<Option<SpecEmote>>,
    p1: Seq<char>,
    p2: Seq<char>,
    spoiler: bool,
) -> BuildState
    decreases pairs.len(),
{
    if pairs.len() == 0 {
        st
    } else {
        fold_pairs(
            step_state(st, pairs[0].0, pairs[0].1, res[0], p1, p2, spoiler),
            pairs.skip(1),
            res.skip(1),
            p1,
            p2,
            spoiler,
        )
    }
}

/// The plan finished off: the trailing segment joins the buffer and leaves
/// (trimmed, or spoiler-wrapped) as a final plain message unless trivial;
/// when no edit was emitted the original is deleted, except that a message
/// carrying platform attachments is blanked by an edit instead, so that the
/// attachments survive.
pub open spec fn finish_plan(
    st: BuildState,
    trailing: Seq<char>,
    spoiler: bool,
    has_attachments: bool,
) -> SpecPlan {
    let buf = st.buf + trailing;
    let t = spec_trim(buf);
    let with_text = if t.len() > 0 && (!spoiler || t != spoiler_marker()) {
        st.actions + seq![SpecAction::Text(if spoiler { spec_wrap(buf) } else { t })]
    } else {
        st.actions
    };
    if !st.edited && has_attachments {
        SpecPlan {
            actions: with_text + seq![SpecAction::Edit(Seq::empty())],
            delete_original: false,
        }
    } else {
        SpecPlan { actions: with_text, delete_original: !st.edited && !has_attachments }
    }
}

/// No capture resolved to an emote.
pub open spec fn all_unresolved(res: Seq<Option<SpecEmote>>) -> bool {
    forall|i: int| 0 <= i < res.len() ==> res[i] is None
}

/// The plan for a tokenized message under the given per-capture resolutions:
/// none at all when there is no capture or none resolved (the message is
/// left untouched), otherwise the finished reconstruction.
pub open spec fn spec_plan_for(
    pairs: Seq<(Seq<char>, SpecCapture)>,
    trailing: Seq<char>,
    res: Seq<Option<SpecEmote>>,
    p1: Seq<char>,
    p2: Seq<char>,
    spoiler: bool,
    has_attachments: bool,
) -> Option<SpecPlan> {
    if pairs.len() == 0 || all_unresolved(res) {
        None
    } else {
        Some(finish_plan(fold_pairs(init_state(), pairs, res, p1, p2, spoiler), trailing, spoiler, has_attachments))
    }
}

/// Builds the plan for a tokenized message. `resolutions` holds, for each
/// capture in order, the emote it resolved to, or nothing for an unresolved
/// capture.
pub fn build_plan(
    tok: &Tokenization,
    local_prefix: &str,
    remote_prefix: &str,
    resolutions: &Vec<Option<Emote>>,
    spoiler: bool,
    has_attachments: bool,
) -> (r: Option<RewritePlan>)
    requires
        tok.wf(),
        resolutions@.len() == tok.captures@.len(),
    ensures
        match r {
            Some(plan) => Some(plan@) == spec_plan_for(
                tok.pairs(),
                tok.trailing(),
                resolutions.deep_view(),
                local_prefix@,
                remote_prefix@,
                spoiler,
                has_attachments,
            ),
            None => spec_plan_for(
                tok.pairs(),
                tok.trailing(),
                resolutions.deep_view(),
                local_prefix@,
                remote_prefix@,
                spoiler,
                has_attachments,
            ) is None,
        },
{
    let ghost resv = resolutions.deep_view();
    let ghost pairs = tok.pairs();
    if tok.captures.len() == 0 {
        return None;
    }
    let mut any: bool = false;
    let mut j: usize = 0;
    while j < resolutions.len()
        invariant
            j <= resolutions@.len(),
            resv == resolutions.deep_view(),
            any == exists|k: int| 0 <= k < j && resv[k] is Some,
        decreases resolutions@.len() - j,
    {
        if resolutions[j].is_some() {
            proof {
                assert(resv[j as int] == resolutions@[j as int].deep_view());
            }
            any = true;
        }
        j = j + 1;
    }
    if !any {
        proof {
            assert forall|k: int| 0 <= k < resv.len() implies resv[k] is None by {
                assert(resv[k] == resolutions@[k].deep_view());
            }
        }
        return None;
    }
    let p1c = chars_of(local_prefix);
    let p2c = chars_of(remote_prefix);
    let mut m: Vec<char> = Vec::new();
    m.push('|');
    m.push('|');
    proof {
        assert(m@ =~= spoiler_marker());
        assert(pairs.skip(0) =~= pairs);
        assert(resv.skip(0) =~= resv);
        assert(acts_view(Seq::empty()) =~= Seq::<SpecAction>::empty());
    }
    let mut buf: Vec<char> = Vec::new();
    let mut first: bool = true;
    let mut edited: bool = false;
    let mut actions: Vec<Action> = Vec::new();
    let mut i: usize = 0;
    while i < tok.captures.len()
        invariant
            tok.wf(),
            i <= tok.captures@.len(),
            resolutions@.len() == tok.captures@.len(),
            resv == resolutions.deep_view(),
            pairs == tok.pairs(),
            p1c@ == local_prefix@,
            p2c@ == remote_prefix@,
            m@ == spoiler_marker(),
            fold_pairs(init_state(), pairs, resv, local_prefix@, remote_prefix@, spoiler)
                == fold_pairs(
                BuildState { buf: buf@, first: first, edited: edited, actions: acts_view(actions@) },
                pairs.skip(i as int),
                resv.skip(i as int),
                local_prefix@,
                remote_prefix@,
                spoiler,
            ),
        decreases tok.captures@.len() - i,
    {
        let ghost pre = BuildState {
            buf: buf@,
            first: first,
            edited: edited,
            actions: acts_view(actions@),
        };
        proof {
            assert(pairs.skip(i as int)[0] == pairs[i as int]);
            assert(pairs.skip(i as int).skip(1) =~= pairs.skip(i + 1));
            assert(resv.skip(i as int)[0] == resv[i as int]);
            assert(resv.skip(i as int).skip(1) =~= resv.skip(i + 1));
            assert(resv[i as int] == resolutions@[i as int].deep_view());
            assert(pairs[i as int] == (tok.segments@[i as int]@, tok.captures@[i as int]@));
        }
        let seg_chars = chars_of(tok.segments[i].as_str());
        push_all(&mut buf, &seg_chars);
        let ghost buf1 = buf@;
        match &resolutions[i] {
            Some(e) => {
                let tr = trim_chars(&buf);
                let trivial = tr.len() == 0 || eq_chars(&tr, &m);
                let ws_chars = chars_of(tok.captures[i].whitespace.as_str());
                push_all(&mut buf, &ws_chars);
                let ghost buf2 = buf@;
                let buf3: Vec<char> = if spoiler && !trivial {
                    Spoiler::wrap_chars(&buf)
                } else {
                    sub_chars(&buf, 0, buf.len())
                };
                proof {
                    assert(buf2.subrange(0, buf2.len() as int) =~= buf2);
                }
                let ghost pre_acts = acts_view(actions@);
                if first && !trivial {
                    actions.push(Action::EditOriginal(string_of(&buf3)));
                    actions.push(Action::SendAttachment(String::new(), e.clone()));
                    edited = true;
                    proof {
                        assert(acts_view(actions@) =~= pre_acts + seq![
                            SpecAction::Edit(buf3@),
                            SpecAction::Attach(Seq::empty(), resv[i as int]->0),
                        ]);
                    }
                } else {
                    actions.push(Action::SendAttachment(string_of(&buf3), e.clone()));
                    proof {
                        assert(acts_view(actions@) =~= pre_acts + seq![
                            SpecAction::Attach(buf3@, resv[i as int]->0),
                        ]);
                    }
                }
                first = false;
                buf = Vec::new();
            },
            None => {
                let ws_chars = chars_of(tok.captures[i].whitespace.as_str());
                push_all(&mut buf, &ws_chars);
                let pre_chars = match tok.captures[i].kind {
                    PrefixKind::Local => &p1c,
                    PrefixKind::Remote => &p2c,
                };
                push_all(&mut buf, pre_chars);
                let name_chars = chars_of(tok.captures[i].name.as_str());
                push_all(&mut buf, &name_chars);
            },
        }
        proof {
            let stepped = step_state(
                pre,
                pairs[i as int].0,
                pairs[i as int].1,
                resv[i as int],
                local_prefix@,
                remote_prefix@,
                spoiler,
            );
            assert(BuildState {
                buf: buf@,
                first: first,
                edited: edited,
                actions: acts_view(actions@),
            } =~= stepped);
        }
        i = i + 1;
    }
    let trail_chars = chars_of(tok.segments[tok.segments.len() - 1].as_str());
    push_all(&mut buf, &trail_chars);
    proof {
        assert(pairs.skip(tok.captures@.len() as int) =~= Seq::<(Seq<char>, SpecCapture)>::empty());
        assert(tok.trailing() == tok.segments@[tok.segments@.len() - 1]@);
    }
    let t = trim_chars(&buf);
    let ghost pre_acts = acts_view(actions@);
    if t.len() > 0 && (!spoiler || !eq_chars(&t, &m)) {
        let out: Vec<char> = if spoiler {
            Spoiler::wrap_chars(&buf)
        } else {
            t
        };
        actions.push(Action::SendText(string_of(&out)));
        proof {
            assert(acts_view(actions@) =~= pre_acts + seq![
                SpecAction::Text(if spoiler {
                    spec_wrap(buf@)
                } else {
                    spec_trim(buf@)
                }),
            ]);
        }
    }
    let delete_original: bool;
    if !edited && has_attachments {
        let ghost before_blank = acts_view(actions@);
        actions.push(Action::EditOriginal(String::new()));
        delete_original = false;
        proof {
            assert(acts_view(actions@) =~= before_blank + seq![SpecAction::Edit(Seq::empty())]);
        }
    } else {
        delete_original = !edited && !has_attachments;
    }
    let plan = RewritePlan { actions, delete_original };
    proof {
        assert(Some(plan@) == spec_plan_for(
            pairs,
            tok.trailing(),
            resv,
            local_prefix@,
            remote_prefix@,
            spoiler,
            has_attachments,
        ));
    }
    Some(plan)
}

} // verus!
