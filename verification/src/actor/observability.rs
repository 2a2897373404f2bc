//! Labels under which graph activity is reported.

use vstd::prelude::*;

verus! {

/// How an actor's run ended.
#[derive(Clone, Copy, Debug, PartialEq, Eq, Structural)]
pub enum ActorExitStatus {
    /// Returned cleanly after shutdown was requested.
    Shutdown,
    /// Returned cleanly before shutdown was requested.
    Stopped,
    /// Returned an error.
    Failed,
    /// Panicked.
    Panicked,
    /// Was cancelled from outside.
    Cancelled,
}

/// What made a graph shut down.
#[derive(Clone, Copy, Debug, PartialEq, Eq, Structural)]
pub enum GraphShutdownCause {
    /// The caller asked for it.
    External,
    /// An actor returned early.
    ActorStopped,
    /// An actor returned an error.
    ActorFailed,
    /// An actor panicked.
    ActorPanicked,
    /// An actor was cancelled.
    ActorCancelled,
}

/// Why a message was turned away.
#[derive(Clone, Copy, Debug, PartialEq, Eq, Structural)]
pub enum SendRejection {
    /// The peer is not linked.
    UnknownPeer,
    /// The target is not running.
    NotRunning,
    /// The envelope is over the size limit.
    EnvelopeTooLarge,
    /// The mailbox has no room.
    MailboxFull,
    /// The mailbox is closed.
    MailboxClosed,
}

} // verus!
