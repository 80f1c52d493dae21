//! Process configuration: per-identity settings with fall-back to a default
//! identity. Reading configuration off disk or from the environment is the
//! embedding program's job; this module owns the merge logic.

use vstd::prelude::*;

use crate::user::User;

verus! {

#[derive(Debug, Clone)]
pub struct LoggingConfig {
    pub file: String,
    pub level: String,
}

#[derive(Debug, Clone)]
pub struct WwwConfig {
    pub enabled: bool,
    pub bind_host: String,
    pub bind_port: u16,
    pub base_url: String,
    pub workers: usize,
    pub twitch_emotes_manager_host: String,
    pub twitch_emotes_manager_port: u16,
}

/// One identity's configuration; absent fields fall back to the default
/// identity, then to built-in defaults.
#[derive(Debug, Clone, Default)]
pub struct UserConfig {
    pub active: Option<bool>,
    pub discord_id: Option<u64>,
    pub token: Option<String>,
    pub command_prefix: Option<String>,
    pub emote_prefix: Option<String>,
    pub twitch_emote_prefix: Option<String>,
    pub text_emote_prefix: Option<String>,
}

#[derive(Debug, Clone)]
pub struct Config {
    pub logging: LoggingConfig,
    pub www: WwwConfig,
    pub default_user: UserConfig,
    /// Configured identities, keyed by a configuration-file label; the label
    /// itself carries no meaning.
    pub users: Vec<(String, UserConfig)>,
}

/// First of: the identity's own value, the default identity's value, the
/// built-in default.
pub open spec fn pick<T>(own: Option<T>, fallback: Option<T>, def: T) -> T {
    match own {
        Some(v) => v,
        None => match fallback {
            Some(v) => v,
            None => def,
        },
    }
}

/// As [`pick`], for string-valued fields, compared by contents.
pub open spec fn pick_str(
    own: Option<String>,
    fallback: Option<String>,
    def: Seq<char>,
) -> Seq<char> {
    match own {
        Some(v) => v@,
        None => match fallback {
            Some(v) => v@,
            None => def,
        },
    }
}

fn pick_string(own: &Option<String>, fallback: &Option<String>, def: &str) -> (r: String)
    ensures
        r@ == pick_str(*own, *fallback, def@),
{
    match own {
        Some(v) => v.clone(),
        None => match fallback {
            Some(v) => v.clone(),
            None => def.to_owned(),
        },
    }
}

impl Config {
    /// The fully resolved identity list: one [`User`] per configured
    /// identity, each absent field replaced by the default identity's value
    /// and finally by the built-in defaults (active, id 0, empty token,
    /// command prefix `s.`, emote prefix `>`, remote emote prefix `%`, text
    /// emote prefix `$`).
    pub fn users(&self) -> (r: Vec<User>)
        ensures
            r@.len() == self.users@.len(),
            forall|i: int|
                0 <= i < r@.len() ==> {
                    let own = self.users@[i].1;
                    let d = self.default_user;
                    &&& (#[trigger] r@[i]).active == pick(own.active, d.active, true)
                    &&& r@[i].discord_id == pick(own.discord_id, d.discord_id, 0u64)
                    &&& r@[i].token@ == pick_str(own.token, d.token, ""@)
                    &&& r@[i].command_prefix@ == pick_str(
                        own.command_prefix,
                        d.command_prefix,
                        "s."@,
                    )
                    &&& r@[i].emote_prefix@ == pick_str(own.emote_prefix, d.emote_prefix, ">"@)
                    &&& r@[i].twitch_emote_prefix@ == pick_str(
                        own.twitch_emote_prefix,
                        d.twitch_emote_prefix,
                        "%"@,
                    )
                    &&& r@[i].text_emote_prefix@ == pick_str(
                        own.text_emote_prefix,
                        d.text_emote_prefix,
                        "$"@,
                    )
                },
    {
        let mut r: Vec<User> = Vec::new();
        let mut i: usize = 0;
        while i < self.users.len()
            invariant
                i <= self.users@.len(),
                r@.len() == i,
                forall|k: int|
                    0 <= k < i ==> {
                        let own = self.users@[k].1;
                        let d = self.default_user;
                        &&& (#[trigger] r@[k]).active == pick(own.active, d.active, true)
                        &&& r@[k].discord_id == pick(own.discord_id, d.discord_id, 0u64)
                        &&& r@[k].token@ == pick_str(own.token, d.token, ""@)
                        &&& r@[k].command_prefix@ == pick_str(
                            own.command_prefix,
                            d.command_prefix,
                            "s."@,
                        )
                        &&& r@[k].emote_prefix@ == pick_str(own.emote_prefix, d.emote_prefix, ">"@)
                        &&& r@[k].twitch_emote_prefix@ == pick_str(
                            own.twitch_emote_prefix,
                            d.twitch_emote_prefix,
                            "%"@,
                        )
                        &&& r@[k].text_emote_prefix@ == pick_str(
                            own.text_emote_prefix,
                            d.text_emote_prefix,
                            "$"@,
                        )
                    },
            decreases self.users@.len() - i,
        {
            let own = &self.users[i].1;
            let d = &self.default_user;
            let active = match own.active {
                Some(v) => v,
                None => match d.active {
                    Some(v) => v,
                    None => true,
                },
            };
            let discord_id = match own.discord_id {
                Some(v) => v,
                None => match d.discord_id {
                    Some(v) => v,
                    None => 0,
                },
            };
            let user = User {
                active,
                discord_id,
                token: pick_string(&own.token, &d.token, ""),
                command_prefix: pick_string(&own.command_prefix, &d.command_prefix, "s."),
                emote_prefix: pick_string(&own.emote_prefix, &d.emote_prefix, ">"),
                twitch_emote_prefix: pick_string(
                    &own.twitch_emote_prefix,
                    &d.twitch_emote_prefix,
                    "%",
                ),
                text_emote_prefix: pick_string(&own.text_emote_prefix, &d.text_emote_prefix, "$"),
            };
            r.push(user);
            i = i + 1;
        }
        r
    }
}

} // verus!
