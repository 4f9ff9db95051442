//! The errors that the protocol itself raises.
use vstd::prelude::*;

verus! {

/// The class of an [`Error`], named as `std::io::ErrorKind` names it.
#[derive(Clone, Copy, Debug, PartialEq, Eq, Structural)]
pub enum ErrorKind {
    /// The peer broke the protocol, or something else went wrong.
    Other,
    /// A channel was closed by its reader.
    BrokenPipe,
    /// The connection was given up locally.
    ConnectionAborted,
}

/// An error of the protocol: its class and what it says.
#[derive(Debug, PartialEq, Eq)]
pub struct Error {
    /// The class of the error.
    pub kind: ErrorKind,
    /// What the error says.
    pub message: String,
}

/// An [`Error`] as a mathematical value.
pub struct ErrorView {
    /// The class of the error.
    pub kind: ErrorKind,
    /// What the error says.
    pub message: Seq<char>,
}

impl View for Error {
    type V = ErrorView;

    open spec fn view(&self) -> ErrorView {
        ErrorView { kind: self.kind, message: self.message@ }
    }
}

/// The error of class `Other` with the given message.
pub open spec fn other_error(message: Seq<char>) -> ErrorView {
    ErrorView { kind: ErrorKind::Other, message }
}

/// What ends a task early: the protocol was broken, or the transport failed with an error of its
/// own, which is handed on untouched.
#[derive(Debug, PartialEq, Eq)]
pub enum Failure<E> {
    /// An error that the protocol raised.
    Protocol(Error),
    /// An error that the transport raised.
    Transport(E),
}

/// A [`Failure`] as a mathematical value.
pub enum FailureView<E> {
    /// An error that the protocol raised.
    Protocol(ErrorView),
    /// An error that the transport raised.
    Transport(E),
}

impl<E> View for Failure<E> {
    type V = FailureView<E>;

    open spec fn view(&self) -> FailureView<E> {
        match *self {
            Failure::Protocol(e) => FailureView::Protocol(e@),
            Failure::Transport(e) => FailureView::Transport(e),
        }
    }
}

/// An error of class `Other` that says `e`.
pub fn err(e: &str) -> (error: Error)
    ensures
        error@ == other_error(e@),
{
    Error { kind: ErrorKind::Other, message: e.to_owned() }
}

/// An error is known by its class and its text, and by nothing less; an error of the transport is
/// handed on untouched.
pub proof fn law_errors_are_seen_whole<E>(error: Error, e: E, message: Seq<char>)
    ensures
        error@.kind == error.kind,
        error@.message == error.message@,
        Failure::<E>::Protocol(error)@ == FailureView::<E>::Protocol(error@),
        Failure::Transport(e)@ == FailureView::Transport(e),
        other_error(message).kind == ErrorKind::Other,
        other_error(message).message == message,
{
}

} // verus!
