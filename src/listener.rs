//! What the listener does after each accept and after each connection ends:
//! no failure of one connection, nor of one accept, stops it.

use vstd::prelude::*;

use crate::connection::CloseReason;

verus! {

/// What happened at the listener.
#[derive(Debug, Clone, Copy, PartialEq, Eq, Structural)]
pub enum ListenerEvent {
    /// A connection was accepted.
    Accepted,
    /// Accepting failed.
    AcceptFailed,
    /// A connection's multiplexer could not be set up or run.
    ConnectionFailed,
    /// A connection closed for the given reason.
    ConnectionClosed(CloseReason),
}

/// What the listener does next; each choice ends in accepting again.
#[derive(Debug, Clone, Copy, PartialEq, Eq, Structural)]
pub enum ListenerAction {
    /// Start an independent multiplexer for the new connection, then accept.
    Serve,
    /// Log the failure, then accept the next connection.
    LogAndAccept,
    /// Accept the next connection.
    Accept,
}

impl CloseReason {
    /// Whether the close is a failure worth reporting, rather than the end of
    /// a clean drain.
    pub fn is_error(&self) -> (r: bool)
        ensures
            r == (*self != CloseReason::Finished),
    {
        !matches!(self, CloseReason::Finished)
    }
}

/// The listener's answer to `ev`.
pub fn listener_step(ev: ListenerEvent) -> (r: ListenerAction)
    ensures
        r == match ev {
            ListenerEvent::Accepted => ListenerAction::Serve,
            ListenerEvent::AcceptFailed => ListenerAction::LogAndAccept,
            ListenerEvent::ConnectionFailed => ListenerAction::LogAndAccept,
            ListenerEvent::ConnectionClosed(reason) => if reason == CloseReason::Finished {
                ListenerAction::Accept
            } else {
                ListenerAction::LogAndAccept
            },
        },
{
    match ev {
        ListenerEvent::Accepted => ListenerAction::Serve,
        ListenerEvent::AcceptFailed => ListenerAction::LogAndAccept,
        ListenerEvent::ConnectionFailed => ListenerAction::LogAndAccept,
        ListenerEvent::ConnectionClosed(reason) => {
            if reason.is_error() {
                ListenerAction::LogAndAccept
            } else {
                ListenerAction::Accept
            }
        },
    }
}

} // verus!
