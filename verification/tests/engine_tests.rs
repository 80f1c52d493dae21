//! End-to-end tests of the message rewrite engine.

use selfportrait::emote_manager::EmoteManager;
use selfportrait::engine::{handle_message, remote_queries, MessageOutcome};
use selfportrait::error::{Error, ErrorKind};
use selfportrait::plan::Action;
use selfportrait::user::User;

fn test_user() -> User {
    User {
        active: true,
        discord_id: 1,
        token: String::new(),
        command_prefix: "s.".to_string(),
        emote_prefix: ">".to_string(),
        twitch_emote_prefix: "%".to_string(),
        text_emote_prefix: "$".to_string(),
    }
}

fn test_manager() -> EmoteManager {
    EmoteManager::new(vec![
        ("Wave.png".to_string(), vec![1, 2, 3]),
        ("dance.gif".to_string(), vec![4, 5]),
    ])
}

#[test]
fn no_prefix_occurrence_produces_no_plan() {
    let user = test_user();
    let mngr = test_manager();
    let queries = remote_queries("just plain words", false, &user, &mngr);
    assert!(queries.is_empty());
    let outcome = handle_message("just plain words", false, false, &user, &mngr, &vec![]);
    match outcome {
        MessageOutcome::Rewrite { substituted, plan } => {
            assert!(substituted.is_none());
            assert!(plan.is_none());
        }
        _ => panic!("expected the rewrite path"),
    }
}

#[test]
fn unknown_name_only_produces_no_plan() {
    let user = test_user();
    let mngr = test_manager();
    let outcome = handle_message(">nosuchemote", false, false, &user, &mngr, &vec![]);
    match outcome {
        MessageOutcome::Rewrite { substituted, plan } => {
            assert!(substituted.is_none());
            assert!(plan.is_none());
        }
        _ => panic!("expected the rewrite path"),
    }
}

#[test]
fn leading_text_is_kept_by_an_edit() {
    let user = test_user();
    let mngr = test_manager();
    let outcome = handle_message("hello >wave bye", false, false, &user, &mngr, &vec![]);
    match outcome {
        MessageOutcome::Rewrite { substituted, plan } => {
            assert!(substituted.is_none());
            let plan = plan.expect("a plan");
            assert_eq!(plan.actions.len(), 3);
            match &plan.actions[0] {
                Action::EditOriginal(s) => assert_eq!(s, "hello "),
                _ => panic!("expected an edit first"),
            }
            match &plan.actions[1] {
                Action::SendAttachment(s, e) => {
                    assert_eq!(s, "");
                    assert_eq!(e.name, "wave");
                    assert_eq!(e.file_name, "Wave.png");
                    assert_eq!(e.bytes, vec![1, 2, 3]);
                }
                _ => panic!("expected an attachment second"),
            }
            match &plan.actions[2] {
                Action::SendText(s) => assert_eq!(s, "bye"),
                _ => panic!("expected a plain message third"),
            }
            assert!(!plan.delete_original);
        }
        _ => panic!("expected the rewrite path"),
    }
}

#[test]
fn bare_emote_deletes_the_original() {
    let user = test_user();
    let mngr = test_manager();
    let outcome = handle_message(">wave", false, false, &user, &mngr, &vec![]);
    match outcome {
        MessageOutcome::Rewrite { plan, .. } => {
            let plan = plan.expect("a plan");
            assert_eq!(plan.actions.len(), 1);
            match &plan.actions[0] {
                Action::SendAttachment(s, e) => {
                    assert_eq!(s, "");
                    assert_eq!(e.name, "wave");
                }
                _ => panic!("expected an attachment"),
            }
            assert!(plan.delete_original);
        }
        _ => panic!("expected the rewrite path"),
    }
}

#[test]
fn bare_emote_with_attachments_blanks_instead_of_deleting() {
    let user = test_user();
    let mngr = test_manager();
    let outcome = handle_message(">wave", true, false, &user, &mngr, &vec![]);
    match outcome {
        MessageOutcome::Rewrite { plan, .. } => {
            let plan = plan.expect("a plan");
            assert_eq!(plan.actions.len(), 2);
            match &plan.actions[0] {
                Action::SendAttachment(s, _) => assert_eq!(s, ""),
                _ => panic!("expected an attachment first"),
            }
            match &plan.actions[1] {
                Action::EditOriginal(s) => assert_eq!(s, ""),
                _ => panic!("expected a blanking edit"),
            }
            assert!(!plan.delete_original);
        }
        _ => panic!("expected the rewrite path"),
    }
}

#[test]
fn empty_prefixes_disable_matching() {
    let mut user = test_user();
    user.emote_prefix = String::new();
    user.twitch_emote_prefix = String::new();
    let mngr = test_manager();
    let outcome = handle_message(">wave", false, false, &user, &mngr, &vec![]);
    match outcome {
        MessageOutcome::Rewrite { plan, .. } => assert!(plan.is_none()),
        _ => panic!("expected the rewrite path"),
    }
}

#[test]
fn mid_word_prefix_never_matches() {
    let user = test_user();
    let mngr = test_manager();
    let outcome = handle_message("a>wave", false, false, &user, &mngr, &vec![]);
    match outcome {
        MessageOutcome::Rewrite { plan, .. } => assert!(plan.is_none()),
        _ => panic!("expected the rewrite path"),
    }
}

#[test]
fn only_the_first_emission_can_edit_the_original() {
    let user = test_user();
    let mngr = test_manager();
    // The first resolved emote has blank leading text, so no edit is ever
    // emitted; later text travels with its own emote and the original is
    // deleted.
    let outcome = handle_message("  >wave hello >dance", false, false, &user, &mngr, &vec![]);
    match outcome {
        MessageOutcome::Rewrite { plan, .. } => {
            let plan = plan.expect("a plan");
            assert_eq!(plan.actions.len(), 2);
            match &plan.actions[0] {
                Action::SendAttachment(s, e) => {
                    assert_eq!(s, "  ");
                    assert_eq!(e.name, "wave");
                }
                _ => panic!("expected an attachment first"),
            }
            match &plan.actions[1] {
                Action::SendAttachment(s, e) => {
                    assert_eq!(s, " hello ");
                    assert_eq!(e.name, "dance");
                }
                _ => panic!("expected an attachment second"),
            }
            assert!(plan.delete_original);
        }
        _ => panic!("expected the rewrite path"),
    }
}

#[test]
fn unresolved_capture_is_restored_verbatim() {
    let user = test_user();
    let mngr = test_manager();
    let outcome = handle_message(">wave and >ghost after", false, false, &user, &mngr, &vec![]);
    match outcome {
        MessageOutcome::Rewrite { plan, .. } => {
            let plan = plan.expect("a plan");
            // ">wave" resolves; ">ghost" does not and is restored with its
            // whitespace and prefix into the trailing text.
            assert_eq!(plan.actions.len(), 2);
            match &plan.actions[0] {
                Action::SendAttachment(s, e) => {
                    assert_eq!(s, "");
                    assert_eq!(e.name, "wave");
                }
                _ => panic!("expected an attachment first"),
            }
            match &plan.actions[1] {
                Action::SendText(s) => assert_eq!(s, "and >ghost after"),
                _ => panic!("expected the restored text"),
            }
            assert!(plan.delete_original);
        }
        _ => panic!("expected the rewrite path"),
    }
}

#[test]
fn remote_queries_lists_remote_captures_in_order() {
    let user = test_user();
    let mngr = test_manager();
    let queries = remote_queries("%kappa then >wave then %pog", false, &user, &mngr);
    assert_eq!(queries, vec!["kappa".to_string(), "pog".to_string()]);
}

#[test]
fn remote_answer_is_attached() {
    let user = test_user();
    let mngr = test_manager();
    let queries = remote_queries("%kappa", false, &user, &mngr);
    assert_eq!(queries, vec!["kappa".to_string()]);
    let remote = selfportrait::resolver::RemoteRegistry::emote_from_fetch("kappa", vec![9, 9]);
    let outcome = handle_message("%kappa", false, false, &user, &mngr, &vec![Ok(Some(remote))]);
    match outcome {
        MessageOutcome::Rewrite { plan, .. } => {
            let plan = plan.expect("a plan");
            assert_eq!(plan.actions.len(), 1);
            match &plan.actions[0] {
                Action::SendAttachment(s, e) => {
                    assert_eq!(s, "");
                    assert_eq!(e.name, "kappa");
                    assert_eq!(e.file_name, "kappa.png");
                    assert_eq!(e.bytes, vec![9, 9]);
                }
                _ => panic!("expected an attachment"),
            }
            assert!(plan.delete_original);
        }
        _ => panic!("expected the rewrite path"),
    }
}

#[test]
fn resolver_error_leaves_the_message_untouched() {
    let user = test_user();
    let mngr = test_manager();
    let err: Result<Option<selfportrait::emote_manager::Emote>, Error> =
        Err(Error::new(ErrorKind::Http));
    let outcome = handle_message("%kappa", false, false, &user, &mngr, &vec![err]);
    match outcome {
        MessageOutcome::Rewrite { plan, .. } => assert!(plan.is_none()),
        _ => panic!("expected the rewrite path"),
    }
}

#[test]
fn local_and_remote_keep_their_order() {
    let user = test_user();
    let mngr = test_manager();
    let remote = selfportrait::resolver::RemoteRegistry::emote_from_fetch("kappa", vec![7]);
    let outcome =
        handle_message(">wave %kappa", false, false, &user, &mngr, &vec![Ok(Some(remote))]);
    match outcome {
        MessageOutcome::Rewrite { plan, .. } => {
            let plan = plan.expect("a plan");
            assert_eq!(plan.actions.len(), 2);
            match &plan.actions[0] {
                Action::SendAttachment(_, e) => assert_eq!(e.name, "wave"),
                _ => panic!("expected the local emote first"),
            }
            match &plan.actions[1] {
                Action::SendAttachment(s, e) => {
                    assert_eq!(s, " ");
                    assert_eq!(e.name, "kappa");
                }
                _ => panic!("expected the remote emote second"),
            }
            assert!(plan.delete_original);
        }
        _ => panic!("expected the rewrite path"),
    }
}

#[test]
fn command_messages_are_dispatched() {
    let user = test_user();
    let mngr = test_manager();
    let outcome = handle_message("s.spoiler", false, false, &user, &mngr, &vec![]);
    match outcome {
        MessageOutcome::Command(k) => {
            assert_eq!(k, selfportrait::commands::CommandKind::Spoiler)
        }
        _ => panic!("expected a command"),
    }
    let outcome = handle_message("s.palette", false, false, &user, &mngr, &vec![]);
    match outcome {
        MessageOutcome::Command(k) => {
            assert_eq!(k, selfportrait::commands::CommandKind::Palette)
        }
        _ => panic!("expected a command"),
    }
}

#[test]
fn spoiler_mode_wraps_plain_messages() {
    let user = test_user();
    let mngr = test_manager();
    let outcome = handle_message("secret stuff", false, true, &user, &mngr, &vec![]);
    match outcome {
        MessageOutcome::SpoilerEdit(s) => assert_eq!(s, "|| secret stuff ||"),
        _ => panic!("expected the spoiler pre-pass"),
    }
}

#[test]
fn already_wrapped_messages_fall_through() {
    let user = test_user();
    let mngr = test_manager();
    let outcome = handle_message("|| already hidden ||", false, true, &user, &mngr, &vec![]);
    match outcome {
        MessageOutcome::Rewrite { plan, .. } => assert!(plan.is_none()),
        _ => panic!("expected the rewrite path"),
    }
}

#[test]
fn spoiler_mode_wraps_redistributed_text() {
    let user = test_user();
    let mngr = test_manager();
    let outcome = handle_message("|| hello >wave bye ||", false, true, &user, &mngr, &vec![]);
    match outcome {
        MessageOutcome::Rewrite { plan, .. } => {
            let plan = plan.expect("a plan");
            assert_eq!(plan.actions.len(), 3);
            match &plan.actions[0] {
                Action::EditOriginal(s) => assert_eq!(s, "|| hello ||"),
                _ => panic!("expected an edit first"),
            }
            match &plan.actions[1] {
                Action::SendAttachment(s, e) => {
                    assert_eq!(s, "");
                    assert_eq!(e.name, "wave");
                }
                _ => panic!("expected an attachment second"),
            }
            match &plan.actions[2] {
                Action::SendText(s) => assert_eq!(s, "|| bye ||"),
                _ => panic!("expected a wrapped plain message third"),
            }
        }
        _ => panic!("expected the rewrite path"),
    }
}

#[test]
fn text_emotes_substitute_before_scanning() {
    let user = test_user();
    let mngr = test_manager();
    let outcome = handle_message("hi $lf", false, false, &user, &mngr, &vec![]);
    match outcome {
        MessageOutcome::Rewrite { substituted, plan } => {
            assert_eq!(substituted.expect("an edit"), "hi ( \u{361}\u{b0} \u{35c}\u{296} \u{361}\u{b0})");
            assert!(plan.is_none());
        }
        _ => panic!("expected the rewrite path"),
    }
}
