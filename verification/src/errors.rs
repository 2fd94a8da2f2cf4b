//! What can go wrong while loading definitions or answering a request.

use vstd::prelude::*;

use crate::text::joined;

verus! {

#[derive(Debug, PartialEq, Eq)]
pub enum Error {
    /// The document is not TOML; holds the parser's message.
    Toml(String),
    /// A file could not be read; holds the system's message.
    Io(String),
    /// A stop or kill was asked of a daemon that has no running child.
    DaemonNotRunning(String),
    /// A request names a daemon that is not supervised.
    UnknownDaemon(String),
    /// An environment entry is not of the shape `name=value`.
    InvalidEnvar(String),
    /// An environment variable is set twice in one definition.
    DuplicateEnvar(String),
    /// The kind is neither `oneshot` nor `daemon`.
    InvalidDaemonKind(String),
    /// The action of a request is none of `status`, `start`, `stop`, `kill`.
    InvalidAction(String),
    /// The definition has a key that is no field of a definition.
    UnknownField(String),
    /// A required field is absent.
    MissingField(String),
    /// A field is present with a value of the wrong type or out of range.
    InvalidField(String),
    /// The definition repeats the command and run group of an earlier one.
    DuplicateDaemon(String),
}

/// An [`Error`] with its texts as sequences of characters.
pub ghost enum ErrorView {
    Toml(Seq<char>),
    Io(Seq<char>),
    DaemonNotRunning(Seq<char>),
    UnknownDaemon(Seq<char>),
    InvalidEnvar(Seq<char>),
    DuplicateEnvar(Seq<char>),
    InvalidDaemonKind(Seq<char>),
    InvalidAction(Seq<char>),
    UnknownField(Seq<char>),
    MissingField(Seq<char>),
    InvalidField(Seq<char>),
    DuplicateDaemon(Seq<char>),
}

impl View for Error {
    type V = ErrorView;

    open spec fn view(&self) -> ErrorView {
        match self {
            Error::Toml(s) => ErrorView::Toml(s@),
            Error::Io(s) => ErrorView::Io(s@),
            Error::DaemonNotRunning(s) => ErrorView::DaemonNotRunning(s@),
            Error::UnknownDaemon(s) => ErrorView::UnknownDaemon(s@),
            Error::InvalidEnvar(s) => ErrorView::InvalidEnvar(s@),
            Error::DuplicateEnvar(s) => ErrorView::DuplicateEnvar(s@),
            Error::InvalidDaemonKind(s) => ErrorView::InvalidDaemonKind(s@),
            Error::InvalidAction(s) => ErrorView::InvalidAction(s@),
            Error::UnknownField(s) => ErrorView::UnknownField(s@),
            Error::MissingField(s) => ErrorView::MissingField(s@),
            Error::InvalidField(s) => ErrorView::InvalidField(s@),
            Error::DuplicateDaemon(s) => ErrorView::DuplicateDaemon(s@),
        }
    }
}

impl Clone for Error {
    fn clone(&self) -> (r: Error)
        ensures
            r@ == self@,
    {
        match self {
            Error::Toml(s) => Error::Toml(s.clone()),
            Error::Io(s) => Error::Io(s.clone()),
            Error::DaemonNotRunning(s) => Error::DaemonNotRunning(s.clone()),
            Error::UnknownDaemon(s) => Error::UnknownDaemon(s.clone()),
            Error::InvalidEnvar(s) => Error::InvalidEnvar(s.clone()),
            Error::DuplicateEnvar(s) => Error::DuplicateEnvar(s.clone()),
            Error::InvalidDaemonKind(s) => Error::InvalidDaemonKind(s.clone()),
            Error::InvalidAction(s) => Error::InvalidAction(s.clone()),
            Error::UnknownField(s) => Error::UnknownField(s.clone()),
            Error::MissingField(s) => Error::MissingField(s.clone()),
            Error::InvalidField(s) => Error::InvalidField(s.clone()),
            Error::DuplicateDaemon(s) => Error::DuplicateDaemon(s.clone()),
        }
    }
}

impl DeepView for Error {
    type V = ErrorView;

    open spec fn deep_view(&self) -> ErrorView {
        self@
    }
}

/// A result with both sides taken by their views.
pub open spec fn lift<T: DeepView>(r: Result<T, Error>) -> Result<T::V, ErrorView> {
    match r {
        Ok(value) => Ok(value.deep_view()),
        Err(error) => Err(error@),
    }
}

impl ErrorView {
    /// The sentence that describes the error.
    pub open spec fn describe(self) -> Seq<char> {
        match self {
            ErrorView::Toml(s) => "Toml error: "@ + s,
            ErrorView::Io(s) => "Io error: "@ + s,
            ErrorView::DaemonNotRunning(s) => "Daemon "@ + s + " is not running"@,
            ErrorView::UnknownDaemon(s) => "Unknown daemon: "@ + s,
            ErrorView::InvalidEnvar(s) => "Invalid envar: "@ + s,
            ErrorView::DuplicateEnvar(s) => "Duplicate envar: "@ + s,
            ErrorView::InvalidDaemonKind(s) => "Invalid daemon kind: "@ + s,
            ErrorView::InvalidAction(s) => "Invalid action: "@ + s,
            ErrorView::UnknownField(s) => "Unknown field: "@ + s,
            ErrorView::MissingField(s) => "Missing field: "@ + s,
            ErrorView::InvalidField(s) => "Invalid field: "@ + s,
            ErrorView::DuplicateDaemon(s) => "Duplicate daemon: "@ + s,
        }
    }
}

impl Error {
    /// The sentence that describes the error, for a log line or the detail of
    /// a response.
    pub fn describe(&self) -> (r: String)
        ensures
            r@ == self@.describe(),
    {
        match self {
            Error::Toml(s) => joined("Toml error: ", s.as_str()),
            Error::Io(s) => joined("Io error: ", s.as_str()),
            Error::DaemonNotRunning(s) => joined("Daemon ", s.as_str()).concat(" is not running"),
            Error::UnknownDaemon(s) => joined("Unknown daemon: ", s.as_str()),
            Error::InvalidEnvar(s) => joined("Invalid envar: ", s.as_str()),
            Error::DuplicateEnvar(s) => joined("Duplicate envar: ", s.as_str()),
            Error::InvalidDaemonKind(s) => joined("Invalid daemon kind: ", s.as_str()),
            Error::InvalidAction(s) => joined("Invalid action: ", s.as_str()),
            Error::UnknownField(s) => joined("Unknown field: ", s.as_str()),
            Error::MissingField(s) => joined("Missing field: ", s.as_str()),
            Error::InvalidField(s) => joined("Invalid field: ", s.as_str()),
            Error::DuplicateDaemon(s) => joined("Duplicate daemon: ", s.as_str()),
        }
    }
}

} // verus!
