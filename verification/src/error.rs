//! The errors that the two ends of a channel report.

use vstd::prelude::*;

verus! {

/// Why a send was turned down.
#[derive(Clone, Copy, Debug, PartialEq, Eq, Structural)]
pub enum SendErrorKind {
    /// The sender has used its slot and has to wait for the receiver.
    Full,
    /// The channel is closed.
    Disconnected,
}

/// The error of a send that does not hand the message back.
#[derive(Clone, Copy, Debug, PartialEq, Eq, Structural)]
pub struct SendError {
    pub kind: SendErrorKind,
}

/// The error of `try_send`: the reason together with the message that was
/// not sent.
#[derive(Clone, Debug, PartialEq, Eq)]
pub struct TrySendError<T> {
    pub err: SendError,
    pub val: T,
}

/// The error of `try_next`: the channel is open and holds nothing.
#[derive(Clone, Copy, Debug, PartialEq, Eq)]
pub struct TryRecvError {
    pub _inner: (),
}

/// The text that goes with a kind of send error.
pub open spec fn send_error_text(kind: SendErrorKind) -> Seq<char> {
    match kind {
        SendErrorKind::Full => "send failed because channel is full"@,
        SendErrorKind::Disconnected => "send failed because receiver is gone"@,
    }
}

impl SendError {
    /// The error of a sender that has to wait.
    pub fn full() -> (e: SendError)
        ensures
            e.kind == SendErrorKind::Full,
    {
        SendError { kind: SendErrorKind::Full }
    }

    /// The error of a closed channel.
    pub fn disconnected() -> (e: SendError)
        ensures
            e.kind == SendErrorKind::Disconnected,
    {
        SendError { kind: SendErrorKind::Disconnected }
    }

    /// Returns true if this error is a result of the channel being full.
    pub fn is_full(&self) -> (b: bool)
        ensures
            b == (self.kind == SendErrorKind::Full),
    {
        match self.kind {
            SendErrorKind::Full => true,
            _ => false,
        }
    }

    /// Returns true if this error is a result of the receiver being dropped.
    pub fn is_disconnected(&self) -> (b: bool)
        ensures
            b == (self.kind == SendErrorKind::Disconnected),
            b == !(self.kind == SendErrorKind::Full),
    {
        match self.kind {
            SendErrorKind::Disconnected => true,
            _ => false,
        }
    }

    /// The message that describes this error.
    pub fn description(&self) -> (s: &'static str)
        ensures
            s@ == send_error_text(self.kind),
    {
        if self.is_full() {
            "send failed because channel is full"
        } else {
            "send failed because receiver is gone"
        }
    }
}

impl<T> TrySendError<T> {
    /// Returns true if this error is a result of the channel being full.
    pub fn is_full(&self) -> (b: bool)
        ensures
            b == (self.err.kind == SendErrorKind::Full),
    {
        self.err.is_full()
    }

    /// Returns true if this error is a result of the receiver being dropped.
    pub fn is_disconnected(&self) -> (b: bool)
        ensures
            b == (self.err.kind == SendErrorKind::Disconnected),
    {
        self.err.is_disconnected()
    }

    /// Returns the message that was attempted to be sent but failed.
    pub fn into_inner(self) -> (val: T)
        ensures
            val == self.val,
    {
        self.val
    }

    /// Drops the message and converts into a `SendError`.
    pub fn into_send_error(self) -> (err: SendError)
        ensures
            err == self.err,
    {
        self.err
    }

    /// The message that describes this error.
    pub fn description(&self) -> (s: &'static str)
        ensures
            s@ == send_error_text(self.err.kind),
    {
        self.err.description()
    }
}

impl TryRecvError {
    /// The message that describes this error.
    pub fn description(&self) -> (s: &'static str)
        ensures
            s@ == "receiver channel is empty"@,
    {
        "receiver channel is empty"
    }
}

} // verus!
