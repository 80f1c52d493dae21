//! Error type shared across the crate.

use vstd::prelude::*;

verus! {

/// What went wrong, at the granularity callers care about.
#[derive(Debug, Clone, Copy, PartialEq, Eq, Structural)]
pub enum ErrorKind {
    Other,
    Config,
    CtrlCHandler,
    Logging,
    LogFile,
    Platform,
    DataGet,
    ManagerRead,
    ManagerWrite,
    LoadEmotes,
    ParseWwwBaseUrl,
    IO,
    Serde,
    Http,
    TwitchEmotes,
}

/// The fixed description attached to each error kind; empty for kinds whose
/// wrapped message is already self-describing.
pub open spec fn kind_message(kind: ErrorKind) -> Seq<char> {
    match kind {
        ErrorKind::Other => ""@,
        ErrorKind::Platform => ""@,
        ErrorKind::IO => ""@,
        ErrorKind::Config => "configuration error"@,
        ErrorKind::CtrlCHandler => "could not set the Ctrl-C handler"@,
        ErrorKind::Logging => "could not setup logging"@,
        ErrorKind::LogFile => "could not write to log file"@,
        ErrorKind::DataGet => "could not get shared manager"@,
        ErrorKind::ManagerRead => "could not get shared manager read lock"@,
        ErrorKind::ManagerWrite => "could not get shared manager write lock"@,
        ErrorKind::LoadEmotes => "could not load emotes from disk"@,
        ErrorKind::ParseWwwBaseUrl => "could not parse www config base url"@,
        ErrorKind::Serde => "could not serialize/deserialize JSON"@,
        ErrorKind::Http => "HTTP client error"@,
        ErrorKind::TwitchEmotes => "Twitch API error while loading emote data"@,
    }
}

/// The message carried by an error built with [`Error::from`]: the kind's
/// description, then the wrapped detail, separated by a colon when both are
/// present.
pub open spec fn from_message(kind: ErrorKind, detail: Seq<char>) -> Seq<char> {
    if kind_message(kind).len() == 0 {
        detail
    } else {
        kind_message(kind) + ": "@ + detail
    }
}

#[derive(Debug, Clone)]
pub struct Error {
    pub kind: ErrorKind,
    pub message: String,
}

impl Error {
    pub fn new(kind: ErrorKind) -> (r: Self)
        ensures
            r.kind == kind,
            r.message@ == kind_message(kind),
    {
        Self { message: Self::type_to_str(&kind), kind }
    }

    pub fn with_message(kind: ErrorKind, message: String) -> (r: Self)
        ensures
            r.kind == kind,
            r.message@ == message@,
    {
        Self { message, kind }
    }

    /// Wraps a lower-level error's rendered message under the given kind.
    pub fn from(kind: ErrorKind, detail: &str) -> (r: Self)
        ensures
            r.kind == kind,
            r.message@ == from_message(kind, detail@),
    {
        let base = Self::type_to_str(&kind);
        if base.as_str().is_empty() {
            Self { kind, message: detail.to_owned() }
        } else {
            let message = vstd::string::StringExecFns::concat(
                vstd::string::StringExecFns::concat(base, ": "),
                detail,
            );
            Self { kind, message }
        }
    }

    pub fn custom(message: &str) -> (r: Self)
        ensures
            r.kind == ErrorKind::Other,
            r.message@ == message@,
    {
        Self { kind: ErrorKind::Other, message: message.to_owned() }
    }

    pub fn kind(&self) -> (r: ErrorKind)
        ensures
            r == self.kind,
    {
        self.kind
    }

    pub fn message(&self) -> (r: &String)
        ensures
            r@ == self.message@,
    {
        &self.message
    }

    pub fn type_to_str(kind: &ErrorKind) -> (r: String)
        ensures
            r@ == kind_message(*kind),
    {
        match kind {
            ErrorKind::Other => "",
            ErrorKind::Platform => "",
            ErrorKind::IO => "",
            ErrorKind::Config => "configuration error",
            ErrorKind::CtrlCHandler => "could not set the Ctrl-C handler",
            ErrorKind::Logging => "could not setup logging",
            ErrorKind::LogFile => "could not write to log file",
            ErrorKind::DataGet => "could not get shared manager",
            ErrorKind::ManagerRead => "could not get shared manager read lock",
            ErrorKind::ManagerWrite => "could not get shared manager write lock",
            ErrorKind::LoadEmotes => "could not load emotes from disk",
            ErrorKind::ParseWwwBaseUrl => "could not parse www config base url",
            ErrorKind::Serde => "could not serialize/deserialize JSON",
            ErrorKind::Http => "HTTP client error",
            ErrorKind::TwitchEmotes => "Twitch API error while loading emote data",
        }.to_owned()
    }
}

} // verus!
