//! The command layer: the fixed set of commands an identity can issue in
//! chat, and the dispatcher that recognizes them in message text.

pub mod palette;
pub mod spoiler;

pub use palette::Palette;
pub use spoiler::Spoiler;

use vstd::prelude::*;

use crate::text::{chars_of, push_all, starts_with_chars, starts_with_seq};

verus! {

/// Which command a message invokes.
#[derive(Debug, Clone, Copy, PartialEq, Eq, Structural)]
pub enum CommandKind {
    Palette,
    Spoiler,
}

/// Some name in `names`, appended to `prefix`, starts the content.
pub open spec fn matches_any_name(
    content: Seq<char>,
    prefix: Seq<char>,
    names: Seq<Seq<char>>,
) -> bool {
    exists|i: int| 0 <= i < names.len() && starts_with_seq(content, prefix + names[i])
}

/// The command the content invokes: commands are tried in registration order
/// (palette first), and each matches when the command prefix followed by one
/// of its names starts the content. An empty command prefix never matches.
pub open spec fn spec_match_command(
    content: Seq<char>,
    prefix: Seq<char>,
    palette_names: Seq<Seq<char>>,
    spoiler_names: Seq<Seq<char>>,
) -> Option<CommandKind> {
    if prefix.len() == 0 || !starts_with_seq(content, prefix) {
        None
    } else if matches_any_name(content, prefix, palette_names) {
        Some(CommandKind::Palette)
    } else if matches_any_name(content, prefix, spoiler_names) {
        Some(CommandKind::Spoiler)
    } else {
        None
    }
}

/// Whether some name in `names`, appended to `prefix`, starts `content`.
fn match_in(content: &Vec<char>, prefix: &Vec<char>, names: &Vec<String>) -> (r: bool)
    ensures
        r == matches_any_name(content@, prefix@, names.deep_view()),
{
    let mut i: usize = 0;
    while i < names.len()
        invariant
            i <= names.len(),
            forall|k: int|
                0 <= k < i ==> !starts_with_seq(content@, prefix@ + names.deep_view()[k]),
        decreases names.len() - i,
    {
        let mut pat: Vec<char> = Vec::new();
        push_all(&mut pat, prefix);
        let name_chars = chars_of(names[i].as_str());
        push_all(&mut pat, &name_chars);
        if starts_with_chars(content, &pat) {
            proof {
                assert(starts_with_seq(content@, prefix@ + names.deep_view()[i as int]));
            }
            return true;
        }
        i = i + 1;
    }
    false
}

/// The command invoked by `content` under `prefix`, given the two commands'
/// registered names.
pub fn match_command(content: &str, prefix: &str, palette: &Palette, spoiler: &Spoiler) -> (r:
    Option<CommandKind>)
    ensures
        r == spec_match_command(
            content@,
            prefix@,
            palette.names.deep_view(),
            spoiler.names.deep_view(),
        ),
{
    let content_chars = chars_of(content);
    let prefix_chars = chars_of(prefix);
    if prefix_chars.len() == 0 || !starts_with_chars(&content_chars, &prefix_chars) {
        return None;
    }
    if match_in(&content_chars, &prefix_chars, &palette.names) {
        Some(CommandKind::Palette)
    } else if match_in(&content_chars, &prefix_chars, &spoiler.names) {
        Some(CommandKind::Spoiler)
    } else {
        None
    }
}

} // verus!
