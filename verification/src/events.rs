//! Errors reported to the caller of a session command, and the events a
//! session emits while it works.

use vstd::prelude::*;
use vstd::string::*;

verus! {

/// How serious an error is.
#[derive(Debug, Clone, Copy, PartialEq, Eq, Structural)]
pub enum Severity {
    Warning,
    Error,
}

/// What went wrong.
#[derive(Debug, Clone, Copy, PartialEq, Eq, Structural)]
pub enum NativeErrorKind {
    /// Opening, reading, writing or seeking a file failed.
    Io,
    /// A grabber is missing, has no metadata, or could not grab or update.
    Grabber,
    /// A line of the search result file is no line number.
    OperationSearch,
    /// The session is in a state that should not occur.
    Configuration,
    /// A command came at a moment at which it cannot be served, or a reply
    /// could not be delivered.
    ChannelError,
}

/// An error as a session command reports it.
#[derive(Debug)]
pub struct NativeError {
    pub severity: Severity,
    pub kind: NativeErrorKind,
    pub message: Option<String>,
}

/// The mathematical value of a [`NativeError`].
pub struct NativeErrorView {
    pub severity: Severity,
    pub kind: NativeErrorKind,
    pub message: Option<Seq<char>>,
}

impl View for NativeError {
    type V = NativeErrorView;

    open spec fn view(&self) -> NativeErrorView {
        NativeErrorView {
            severity: self.severity,
            kind: self.kind,
            message: match self.message {
                Some(m) => Some(m@),
                None => None,
            },
        }
    }
}

/// An error of severity `Error` with the given kind and message.
pub open spec fn error_of(kind: NativeErrorKind, message: Seq<char>) -> NativeErrorView {
    NativeErrorView { severity: Severity::Error, kind, message: Some(message) }
}

impl NativeError {
    /// An error of severity `Error` with the given kind and message.
    pub fn new(kind: NativeErrorKind, message: &str) -> (e: NativeError)
        ensures
            e@ == error_of(kind, message@),
    {
        NativeError { severity: Severity::Error, kind, message: Some(String::from_str(message)) }
    }

    /// A channel error: the command cannot be served now.
    pub fn channel(message: &str) -> (e: NativeError)
        ensures
            e@ == error_of(NativeErrorKind::ChannelError, message@),
    {
        NativeError::new(NativeErrorKind::ChannelError, message)
    }

    /// A grabber error.
    pub fn grabber(message: &str) -> (e: NativeError)
        ensures
            e@ == error_of(NativeErrorKind::Grabber, message@),
    {
        NativeError::new(NativeErrorKind::Grabber, message)
    }
}

/// An event that the session emits to whoever listens.
#[derive(Debug)]
pub enum CallbackEvent {
    /// The session file has grown to this many lines.
    StreamUpdated(u64),
    /// The search result file has this many lines.
    SearchUpdated(u64),
    /// The search map changed; the text lists the new matches, `None` after
    /// the map was dropped.
    SearchMapUpdated(Option<String>),
    /// The source of the session file has been read to its end.
    FileRead,
}

/// The mathematical value of a [`CallbackEvent`].
pub enum CallbackEventView {
    StreamUpdated(u64),
    SearchUpdated(u64),
    SearchMapUpdated(Option<Seq<char>>),
    FileRead,
}

impl View for CallbackEvent {
    type V = CallbackEventView;

    open spec fn view(&self) -> CallbackEventView {
        match self {
            CallbackEvent::StreamUpdated(n) => CallbackEventView::StreamUpdated(*n),
            CallbackEvent::SearchUpdated(n) => CallbackEventView::SearchUpdated(*n),
            CallbackEvent::SearchMapUpdated(Some(s)) => CallbackEventView::SearchMapUpdated(
                Some(s@),
            ),
            CallbackEvent::SearchMapUpdated(None) => CallbackEventView::SearchMapUpdated(None),
            CallbackEvent::FileRead => CallbackEventView::FileRead,
        }
    }
}

impl DeepView for CallbackEvent {
    type V = CallbackEventView;

    open spec fn deep_view(&self) -> CallbackEventView {
        self@
    }
}

} // verus!
