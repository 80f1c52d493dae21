//! Textual emote substitution: occurrences of the text-emote prefix followed
//! by a trigger word are replaced by a literal kaomoji, by plain substring
//! replacement in table order.

use vstd::prelude::*;

use crate::text::{chars_at, chars_of, contains_chars, contains_seq, push_all, string_of};

verus! {

/// Every non-overlapping occurrence of `pat` in `s`, found left to right,
/// replaced by `rep`; replacements are not rescanned.
pub open spec fn spec_replace(s: Seq<char>, pat: Seq<char>, rep: Seq<char>) -> Seq<char>
    decreases s.len(),
{
    if s.len() == 0 {
        s
    } else if 0 < pat.len() <= s.len() && s.subrange(0, pat.len() as int) == pat {
        rep + spec_replace(s.skip(pat.len() as int), pat, rep)
    } else {
        seq![s[0]] + spec_replace(s.skip(1), pat, rep)
    }
}

/// In-order replacement of each trigger's pattern (`prefix + trigger`), one
/// trigger after the other on the running result.
pub open spec fn apply_triggers(
    s: Seq<char>,
    prefix: Seq<char>,
    triggers: Seq<Seq<char>>,
    rep: Seq<char>,
) -> Seq<char>
    decreases triggers.len(),
{
    if triggers.len() == 0 {
        s
    } else {
        apply_triggers(
            spec_replace(s, prefix + triggers[0], rep),
            prefix,
            triggers.skip(1),
            rep,
        )
    }
}

/// In-order application of each table entry's triggers.
pub open spec fn apply_entries(
    s: Seq<char>,
    prefix: Seq<char>,
    entries: Seq<(Seq<Seq<char>>, Seq<char>)>,
) -> Seq<char>
    decreases entries.len(),
{
    if entries.len() == 0 {
        s
    } else {
        apply_entries(apply_triggers(s, prefix, entries[0].0, entries[0].1), prefix, entries.skip(1))
    }
}

/// The substituted content: unchanged when the prefix is empty or occurs
/// nowhere, otherwise every `prefix + trigger` occurrence replaced in table
/// order.
pub open spec fn spec_apply(
    content: Seq<char>,
    prefix: Seq<char>,
    entries: Seq<(Seq<Seq<char>>, Seq<char>)>,
) -> Seq<char> {
    if prefix.len() == 0 || !contains_seq(content, prefix) {
        content
    } else {
        apply_entries(content, prefix, entries)
    }
}

/// With an empty prefix the substitution pass changes nothing, whatever the
/// content and the table.
pub proof fn lemma_apply_empty_prefix_noop(
    content: Seq<char>,
    entries: Seq<(Seq<Seq<char>>, Seq<char>)>,
)
    ensures
        spec_apply(content, Seq::<char>::empty(), entries) == content,
{
}

/// Replaces every occurrence of `pat` in `s` by `rep`.
pub fn replace_chars(s: &Vec<char>, pat: &Vec<char>, rep: &Vec<char>) -> (r: Vec<char>)
    requires
        pat@.len() > 0,
    ensures
        r@ == spec_replace(s@, pat@, rep@),
{
    let mut out: Vec<char> = Vec::new();
    let mut i: usize = 0;
    proof {
        assert(s@.skip(0) =~= s@);
        assert(Seq::<char>::empty() + spec_replace(s@, pat@, rep@) =~= spec_replace(
            s@,
            pat@,
            rep@,
        ));
    }
    while i < s.len()
        invariant
            i <= s@.len(),
            pat@.len() > 0,
            spec_replace(s@, pat@, rep@) == out@ + spec_replace(s@.skip(i as int), pat@, rep@),
        decreases s@.len() - i,
    {
        let ghost rest = s@.skip(i as int);
        if chars_at(s, i, pat) {
            push_all(&mut out, rep);
            proof {
                assert(rest.subrange(0, pat@.len() as int) =~= s@.subrange(
                    i as int,
                    i + pat@.len(),
                ));
                assert(rest.skip(pat@.len() as int) =~= s@.skip(i + pat@.len()));
                assert(spec_replace(rest, pat@, rep@) == rep@ + spec_replace(
                    s@.skip(i + pat@.len()),
                    pat@,
                    rep@,
                ));
                assert((out@ + rep@) + spec_replace(s@.skip(i + pat@.len()), pat@, rep@) =~= out@ + (
                rep@ + spec_replace(s@.skip(i + pat@.len()), pat@, rep@)));
            }
            i = i + pat.len();
        } else {
            out.push(s[i]);
            proof {
                if pat@.len() <= rest.len() {
                    assert(rest.subrange(0, pat@.len() as int) =~= s@.subrange(
                        i as int,
                        i + pat@.len(),
                    ));
                }
                assert(rest[0] == s@[i as int]);
                assert(rest.skip(1) =~= s@.skip(i + 1));
                assert(spec_replace(rest, pat@, rep@) == seq![s@[i as int]] + spec_replace(
                    s@.skip(i + 1),
                    pat@,
                    rep@,
                ));
                assert((out@ + seq![s@[i as int]]) + spec_replace(s@.skip(i + 1), pat@, rep@) =~= out@
                    + (seq![s@[i as int]] + spec_replace(s@.skip(i + 1), pat@, rep@)));
            }
            i = i + 1;
        }
    }
    proof {
        assert(s@.skip(s@.len() as int) =~= Seq::<char>::empty());
        assert(out@ + Seq::<char>::empty() =~= out@);
    }
    out
}

/// Applies one table entry: each of its triggers in order.
fn apply_one_entry(cur: Vec<char>, prefix: &Vec<char>, triggers: &Vec<String>, rep: &Vec<char>) -> (
    r: Vec<char>)
    requires
        prefix@.len() > 0,
    ensures
        r@ == apply_triggers(cur@, prefix@, triggers.deep_view(), rep@),
{
    let ghost start = cur@;
    let mut acc = cur;
    let mut t: usize = 0;
    proof {
        assert(triggers.deep_view().skip(0) =~= triggers.deep_view());
    }
    while t < triggers.len()
        invariant
            t <= triggers@.len(),
            prefix@.len() > 0,
            apply_triggers(start, prefix@, triggers.deep_view(), rep@) == apply_triggers(
                acc@,
                prefix@,
                triggers.deep_view().skip(t as int),
                rep@,
            ),
        decreases triggers@.len() - t,
    {
        let ghost remaining = triggers.deep_view().skip(t as int);
        let mut pat: Vec<char> = Vec::new();
        push_all(&mut pat, prefix);
        let tc = chars_of(triggers[t].as_str());
        push_all(&mut pat, &tc);
        proof {
            assert(pat@ =~= prefix@ + triggers.deep_view()[t as int]);
            assert(remaining[0] == triggers.deep_view()[t as int]);
        }
        acc = replace_chars(&acc, &pat, rep);
        proof {
            assert(remaining.skip(1) =~= triggers.deep_view().skip(t + 1));
        }
        t = t + 1;
    }
    proof {
        assert(triggers.deep_view().skip(triggers@.len() as int) =~= Seq::<Seq<char>>::empty());
    }
    acc
}

/// The substitution pass (see [`spec_apply`]). The caller edits the message
/// only when the result differs from the input.
pub fn apply(content: &str, prefix: &str, table: &Vec<(Vec<String>, String)>) -> (r: String)
    ensures
        r@ == spec_apply(content@, prefix@, table.deep_view()),
{
    let c = chars_of(content);
    let p = chars_of(prefix);
    if p.len() == 0 || !contains_chars(&c, &p) {
        return content.to_owned();
    }
    let ghost start = c@;
    let mut acc = c;
    let mut e: usize = 0;
    proof {
        assert(table.deep_view().skip(0) =~= table.deep_view());
    }
    while e < table.len()
        invariant
            e <= table@.len(),
            p@.len() > 0,
            apply_entries(start, p@, table.deep_view()) == apply_entries(
                acc@,
                p@,
                table.deep_view().skip(e as int),
            ),
        decreases table@.len() - e,
    {
        let ghost remaining = table.deep_view().skip(e as int);
        let rep = chars_of(table[e].1.as_str());
        proof {
            assert(remaining[0] == table.deep_view()[e as int]);
            assert(remaining[0].1 == rep@);
            assert(remaining[0].0 == table[e as int].0.deep_view());
        }
        acc = apply_one_entry(acc, &p, &table[e].0, &rep);
        proof {
            assert(remaining.skip(1) =~= table.deep_view().skip(e + 1));
        }
        e = e + 1;
    }
    proof {
        assert(table.deep_view().skip(table@.len() as int) =~= Seq::<
            (Seq<Seq<char>>, Seq<char>),
        >::empty());
    }
    string_of(&acc)
}

} // verus!
