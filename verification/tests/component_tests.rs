//! Tests of the individual components: catalog, substitution, spoiler
//! wrapping, commands, configuration, errors and the remote resolver.

use selfportrait::commands::{match_command, CommandKind, Palette, Spoiler};
use selfportrait::config::{Config, LoggingConfig, UserConfig, WwwConfig};
use selfportrait::emote_manager::EmoteManager;
use selfportrait::error::{Error, ErrorKind};
use selfportrait::resolver::{RemoteRegistry, ResolveOutcome};
use selfportrait::substitution::apply;
use selfportrait::user::UserSettings;

fn registry() -> RemoteRegistry {
    RemoteRegistry {
        entries: vec![
            ("kappa".to_string(), "http://emotes.example/kappa/3.0".to_string()),
            ("kappapride".to_string(), "http://emotes.example/kappapride/3.0".to_string()),
            ("pogchamp".to_string(), "http://emotes.example/pogchamp/3.0".to_string()),
        ],
    }
}

#[test]
fn catalog_keys_are_lowercased_stems() {
    let mngr = EmoteManager::new(vec![
        ("Wave.png".to_string(), vec![1]),
        ("LOUD.TAR.GZ".to_string(), vec![2]),
        (".hidden".to_string(), vec![3]),
        ("noext".to_string(), vec![4]),
    ]);
    assert_eq!(mngr.n_emotes(), 4);
    assert_eq!(mngr.emotes()[0].name, "wave");
    assert_eq!(mngr.emotes()[1].name, "loud.tar");
    assert_eq!(mngr.emotes()[2].name, ".hidden");
    assert_eq!(mngr.emotes()[3].name, "noext");
}

#[test]
fn lookup_is_case_insensitive_and_exact() {
    let mngr = EmoteManager::new(vec![
        ("Wave.png".to_string(), vec![1, 2]),
        ("wave2.png".to_string(), vec![3]),
    ]);
    let e = mngr.find_emote_by_name("WAVE").expect("found");
    assert_eq!(e.file_name, "Wave.png");
    assert_eq!(e.bytes, vec![1, 2]);
    assert!(mngr.find_emote_by_name("wav").is_none());
    assert!(mngr.find_emote_by_name("wave22").is_none());
}

#[test]
fn attachment_carries_bytes_and_display_name() {
    let mngr = EmoteManager::new(vec![("Wave.png".to_string(), vec![1, 2])]);
    let e = mngr.find_emote_by_name("wave").expect("found");
    let (bytes, name) = e.as_attachment();
    assert_eq!(bytes, &[1, 2]);
    assert_eq!(name, "Wave.png");
}

#[test]
fn text_emotes_are_substituted_in_table_order() {
    let mngr = EmoteManager::new(vec![]);
    let table = mngr.text_emotes();
    let lenny = "( \u{361}\u{b0} \u{35c}\u{296} \u{361}\u{b0})";
    let shrug = "\u{af}\\\\\\_(\u{30c4})\\_/\u{af}";
    assert_eq!(apply("$lf", "$", table), lenny);
    assert_eq!(apply("a $lenny b", "$", table), format!("a {} b", lenny));
    assert_eq!(apply("$shrug", "$", table), shrug);
    assert_eq!(apply("a$sb", "$", table), format!("a{}b", shrug));
    assert_eq!(apply("two $lf $lf", "$", table), format!("two {} {}", lenny, lenny));
}

#[test]
fn substitution_is_a_no_op_without_the_prefix() {
    let mngr = EmoteManager::new(vec![]);
    let table = mngr.text_emotes();
    // Empty prefix: disabled entirely.
    assert_eq!(apply("lf and $lf", "", table), "lf and $lf");
    // Prefix absent from the content.
    assert_eq!(apply("lf lenny shrug s", "$", table), "lf lenny shrug s");
}

#[test]
fn spoilerize_wraps_and_reports_change() {
    let mut s = "hello".to_string();
    assert!(Spoiler::spoilerize(&mut s));
    assert_eq!(s, "|| hello ||");

    let mut s = "  padded  ".to_string();
    assert!(Spoiler::spoilerize(&mut s));
    assert_eq!(s, "|| padded ||");

    let mut s = "|| done ||".to_string();
    assert!(!Spoiler::spoilerize(&mut s));
    assert_eq!(s, "|| done ||");

    let mut s = "|| half".to_string();
    assert!(Spoiler::spoilerize(&mut s));
    assert_eq!(s, "|| half ||");

    let mut s = "half ||".to_string();
    assert!(Spoiler::spoilerize(&mut s));
    assert_eq!(s, "|| half ||");
}

#[test]
fn wrapping_twice_changes_nothing_more() {
    for input in ["", "x", "  a b  ", "||", "|| a", "a ||", "|| a ||", " || "] {
        let mut once = input.to_string();
        Spoiler::spoilerize(&mut once);
        let mut twice = once.clone();
        assert!(!Spoiler::spoilerize(&mut twice));
        assert_eq!(twice, once);
    }
}

#[test]
fn commands_match_by_prefix_and_name() {
    let palette = Palette::default();
    let spoiler = Spoiler::default();
    assert_eq!(
        match_command("s.palette", "s.", &palette, &spoiler),
        Some(CommandKind::Palette)
    );
    assert_eq!(match_command("s.ls now", "s.", &palette, &spoiler), Some(CommandKind::Palette));
    assert_eq!(match_command("s.sm", "s.", &palette, &spoiler), Some(CommandKind::Spoiler));
    assert_eq!(
        match_command("s.spoilermode", "s.", &palette, &spoiler),
        Some(CommandKind::Spoiler)
    );
    assert_eq!(match_command("s.unknown", "s.", &palette, &spoiler), None);
    assert_eq!(match_command("x.palette", "s.", &palette, &spoiler), None);
    assert_eq!(match_command("palette", "s.", &palette, &spoiler), None);
    assert_eq!(match_command("s.palette", "", &palette, &spoiler), None);
}

#[test]
fn palette_url_appends_the_page() {
    assert_eq!(Palette::url("http://example.org:8080"), "http://example.org:8080/palette");
}

#[test]
fn spoiler_registry_toggles_per_channel() {
    let mut settings = UserSettings::default();
    assert!(!settings.spoiler_mode(42));
    assert!(settings.toggle(42));
    assert!(settings.spoiler_mode(42));
    assert!(!settings.spoiler_mode(7));
    assert!(!settings.toggle(42));
    assert!(!settings.spoiler_mode(42));
}

#[test]
fn config_users_merge_defaults() {
    let config = Config {
        logging: LoggingConfig { file: "log.txt".to_string(), level: "info".to_string() },
        www: WwwConfig {
            enabled: false,
            bind_host: "127.0.0.1".to_string(),
            bind_port: 8080,
            base_url: "http://localhost:8080".to_string(),
            workers: 2,
            twitch_emotes_manager_host: "127.0.0.1".to_string(),
            twitch_emotes_manager_port: 8081,
        },
        default_user: UserConfig {
            active: None,
            discord_id: None,
            token: Some("shared-token".to_string()),
            command_prefix: None,
            emote_prefix: Some("!".to_string()),
            twitch_emote_prefix: None,
            text_emote_prefix: None,
        },
        users: vec![
            (
                "alice".to_string(),
                UserConfig {
                    active: Some(false),
                    discord_id: Some(11),
                    token: None,
                    command_prefix: Some("a.".to_string()),
                    emote_prefix: None,
                    twitch_emote_prefix: None,
                    text_emote_prefix: None,
                },
            ),
            ("bob".to_string(), UserConfig::default()),
        ],
    };
    let users = config.users();
    assert_eq!(users.len(), 2);
    assert!(!users[0].active);
    assert_eq!(users[0].discord_id, 11);
    assert_eq!(users[0].token, "shared-token");
    assert_eq!(users[0].command_prefix, "a.");
    assert_eq!(users[0].emote_prefix, "!");
    assert_eq!(users[0].twitch_emote_prefix, "%");
    assert_eq!(users[0].text_emote_prefix, "$");
    assert!(users[1].active);
    assert_eq!(users[1].discord_id, 0);
    assert_eq!(users[1].command_prefix, "s.");
    assert_eq!(users[1].emote_prefix, "!");
}

#[test]
fn error_messages_follow_their_kind() {
    let e = Error::new(ErrorKind::LoadEmotes);
    assert_eq!(e.message(), "could not load emotes from disk");
    let e = Error::from(ErrorKind::Config, "missing field");
    assert_eq!(e.message(), "configuration error: missing field");
    let e = Error::from(ErrorKind::IO, "file gone");
    assert_eq!(e.message(), "file gone");
    let e = Error::custom("boom");
    assert_eq!(e.kind(), ErrorKind::Other);
    assert_eq!(e.message(), "boom");
    let e = Error::with_message(ErrorKind::TwitchEmotes, "status 401".to_string());
    assert_eq!(e.message(), "status 401");
}

#[test]
fn search_is_substring_and_ordered() {
    let reg = registry();
    let hits = reg.find_twitch_emote_urls("KAPPA", 10, false);
    assert_eq!(hits.len(), 2);
    assert_eq!(hits[0].name, "kappa");
    assert_eq!(hits[0].url, "http://emotes.example/kappa/3.0");
    assert_eq!(hits[1].name, "kappapride");
}

#[test]
fn search_exact_and_limited() {
    let reg = registry();
    let hits = reg.find_twitch_emote_urls("kappa", 10, true);
    assert_eq!(hits.len(), 1);
    assert_eq!(hits[0].name, "kappa");
    let hits = reg.find_twitch_emote_urls("p", 1, false);
    assert_eq!(hits.len(), 1);
    assert_eq!(hits[0].name, "kappa");
    let hits = reg.find_twitch_emote_urls("nothing", 10, false);
    assert!(hits.is_empty());
}

#[test]
fn search_results_are_capped() {
    let entries: Vec<(String, String)> = (0..60)
        .map(|i| (format!("emote{:02}", i), format!("http://emotes.example/{}/3.0", i)))
        .collect();
    let reg = RemoteRegistry { entries };
    let hits = reg.find_twitch_emote_urls("emote", 60, false);
    assert_eq!(hits.len(), 50);
    assert_eq!(hits[0].name, "emote00");
    assert_eq!(hits[49].name, "emote49");
}

#[test]
fn cache_file_name_is_lowercased_png() {
    assert_eq!(RemoteRegistry::cache_file_name("KappaHD"), "kappahd.png");
}

#[test]
fn cached_name_never_asks_for_a_fetch() {
    // The name exists only in the on-disk cache: the table is empty, so any
    // fetch decision could only come from the cache path. The resolver must
    // answer from the cache alone.
    let reg = RemoteRegistry { entries: vec![] };
    match reg.resolve_step("OnlyCached", Some(vec![5, 6, 7])) {
        ResolveOutcome::Found(e) => {
            assert_eq!(e.name, "onlycached");
            assert_eq!(e.file_name, "onlycached.png");
            assert_eq!(e.bytes, vec![5, 6, 7]);
        }
        ResolveOutcome::Fetch(_) => panic!("a cached name must never trigger a fetch"),
        ResolveOutcome::NoMatch => panic!("a cached name must resolve"),
    }
    // Even with the name in the table, the cache answers first.
    let reg = registry();
    match reg.resolve_step("kappa", Some(vec![1])) {
        ResolveOutcome::Found(e) => assert_eq!(e.bytes, vec![1]),
        _ => panic!("a cached name must resolve from the cache"),
    }
}

#[test]
fn cache_miss_falls_back_to_the_table() {
    let reg = registry();
    match reg.resolve_step("KAPPA", None) {
        ResolveOutcome::Fetch(url) => assert_eq!(url, "http://emotes.example/kappa/3.0"),
        _ => panic!("expected a fetch decision"),
    }
    match reg.resolve_step("unknown", None) {
        ResolveOutcome::NoMatch => {}
        _ => panic!("expected no match"),
    }
}

#[test]
fn fetched_bytes_become_an_emote() {
    let e = RemoteRegistry::emote_from_fetch("PogChamp", vec![1, 2, 3]);
    assert_eq!(e.name, "pogchamp");
    assert_eq!(e.file_name, "pogchamp.png");
    assert_eq!(e.bytes, vec![1, 2, 3]);
}
