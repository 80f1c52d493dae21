//! A message-rewriting library for a self-bot style chat client.
//!
//! Incoming message text is scanned for configurable emote prefixes; recognized
//! emote tokens are stripped out and re-emitted as attachment messages, while
//! the surrounding plain text is redistributed over the original message and
//! any new messages. The library also provides the emote catalog, the remote
//! emote resolver's decision logic, textual kaomoji substitution, a per-channel
//! spoiler-mode registry, and the command dispatcher that drives them.
//!
//! Everything here is pure logic over plain values: the embedding program owns
//! the chat connection, the file system and the network, and calls into this
//! crate with message contents and resolution results.

pub mod commands;
pub mod config;
pub mod emote_manager;
pub mod engine;
pub mod error;
pub mod plan;
pub mod resolver;
pub mod scan;
pub mod substitution;
pub mod text;
pub mod user;

pub use emote_manager::EmoteManager;
pub use error::Error;
pub use error::ErrorKind;
