//! Per-identity configuration and mutable per-identity settings.

use std::collections::HashSet;
use vstd::prelude::*;

verus! {

broadcast use vstd::std_specs::hash::group_hash_axioms;

/// One configured chat identity: who to act for and which prefixes trigger
/// each rewriting path. An empty prefix disables its path entirely.
#[derive(Debug, Clone)]
pub struct User {
    pub active: bool,
    pub discord_id: u64,
    pub token: String,
    pub command_prefix: String,
    pub emote_prefix: String,
    pub twitch_emote_prefix: String,
    pub text_emote_prefix: String,
}

/// Mutable settings for one identity. Shared between processing contexts,
/// so the embedding program must guard a `UserSettings` value with a lock;
/// every operation here is a short, non-blocking update or read.
#[derive(Debug)]
pub struct UserSettings {
    /// Ids of the channels for which spoiler mode is enabled.
    pub spoiler_mode: HashSet<u64>,
}

impl UserSettings {
    /// Whether spoiler mode is enabled for the given channel.
    pub fn spoiler_mode(&self, channel: u64) -> (r: bool)
        ensures
            r == self.spoiler_mode@.contains(channel),
    {
        self.spoiler_mode.contains(&channel)
    }

    /// Flips spoiler mode for the channel and returns the new state.
    pub fn toggle(&mut self, channel: u64) -> (enabled: bool)
        ensures
            old(self).spoiler_mode@.contains(channel) ==> final(self).spoiler_mode@ == old(
                self,
            ).spoiler_mode@.remove(channel),
            !old(self).spoiler_mode@.contains(channel) ==> final(self).spoiler_mode@ == old(
                self,
            ).spoiler_mode@.insert(channel),
            enabled == !old(self).spoiler_mode@.contains(channel),
    {
        if self.spoiler_mode.contains(&channel) {
            self.spoiler_mode.remove(&channel);
            false
        } else {
            self.spoiler_mode.insert(channel);
            true
        }
    }
}

impl Default for UserSettings {
    /// Fresh settings: spoiler mode enabled nowhere.
    fn default() -> (r: Self)
        ensures
            r.spoiler_mode@ == Set::<u64>::empty(),
    {
        UserSettings { spoiler_mode: HashSet::new() }
    }
}

} // verus!
