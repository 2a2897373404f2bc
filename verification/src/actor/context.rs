//! Senders for actor mailboxes, and what an actor sees while it runs.

use tokio::sync::{mpsc, watch};
use tokio_util::sync::CancellationToken;
use vstd::prelude::*;

use crate::actor::binding::{MailboxRef, MailboxSendFailure};
use crate::actor::delivery::{attempted, handed_on, started, tried, Addressed, SendStep};
use crate::actor::envelope::{Envelope, Payload};
use crate::actor::error::SendError;
use crate::actor::observability::SendRejection;
use crate::queues;
use crate::queues::{shows_now, Ledger, Offer};
use crate::directory::Directory;
use crate::token::answers;

verus! {

/// Cloneable sender for an actor mailbox.
///
/// It follows the actor's binding: each send goes to the mailbox that the actor
/// has at that moment.
#[derive(Debug)]
#[verifier::reject_recursive_types(M)]
pub struct ActorRef<M = Envelope> {
    actor_id: String,
    binding: watch::Receiver<Option<MailboxRef<M>>>,
    source_actor_id: Option<String>,
}

impl<M> Clone for ActorRef<M> {
    fn clone(&self) -> (r: Self)
        ensures
            r == *self,
    {
        ActorRef {
            actor_id: self.actor_id.clone(),
            binding: self.binding.clone(),
            source_actor_id: match &self.source_actor_id {
                Some(id) => Some(id.clone()),
                None => None,
            },
        }
    }
}

impl<M: Payload> Addressed for ActorRef<M> {
    type Error = SendError;

    type Content = M;

    open spec fn not_running(&self, error: SendError) -> bool {
        error matches SendError::ActorNotRunning { actor_id } && actor_id@ == self.target()
    }

    open spec fn closed(&self, error: SendError) -> bool {
        error matches SendError::MailboxClosed { actor_id } && actor_id@ == self.target()
    }

    open spec fn too_large(&self, mailbox: MailboxRef<M>, len: nat, error: SendError) -> bool {
        error matches SendError::EnvelopeTooLarge { actor_id, envelope_len, max_envelope_bytes }
            && actor_id@ == self.target() && envelope_len == len && mailbox.limit() == Some(
            max_envelope_bytes,
        )
    }

    open spec fn closed_at(&self, mailbox: MailboxRef<M>, error: SendError) -> bool {
        error matches SendError::MailboxClosed { actor_id } && actor_id@ == mailbox.actor()
    }

    open spec fn full_at(&self, mailbox: MailboxRef<M>, error: SendError) -> bool {
        error matches SendError::MailboxFull { actor_id } && actor_id@ == mailbox.actor()
    }

    open spec fn too_large_at(&self, mailbox: MailboxRef<M>, len: nat, error: SendError) -> bool {
        error matches SendError::EnvelopeTooLarge { actor_id, envelope_len, max_envelope_bytes }
            && actor_id@ == mailbox.actor() && envelope_len == len && mailbox.limit() == Some(
            max_envelope_bytes,
        )
    }
}

impl<M: Payload> ActorRef<M> {
    /// The id of the actor that it sends to.
    pub closed spec fn target(&self) -> Seq<char> {
        self.actor_id@
    }

    /// The binding that it follows.
    pub closed spec fn follows(&self) -> watch::Receiver<Option<MailboxRef<M>>> {
        self.binding
    }

    /// The actor that it was handed to, if it was handed to one.
    pub closed spec fn source(&self) -> Option<Seq<char>> {
        match self.source_actor_id {
            Some(id) => Some(id@),
            None => None,
        }
    }

    /// Creates a sender that follows a binding.
    pub fn from_binding(
        actor_id: String,
        binding: watch::Receiver<Option<MailboxRef<M>>>,
        source_actor_id: Option<String>,
    ) -> (r: Self)
        ensures
            r.target() == actor_id@,
            r.follows() == binding,
            r.source() == match source_actor_id {
                Some(id) => Some(id@),
                None => None,
            },
    {
        ActorRef { actor_id, binding, source_actor_id }
    }

    /// Returns the target actor id.
    pub fn id(&self) -> (r: &str)
        ensures
            r@ == self.target(),
    {
        self.actor_id.as_str()
    }

    /// Returns the id of the actor that it was handed to.
    pub fn source_actor_id(&self) -> (r: Option<&str>)
        ensures
            match r {
                Some(id) => self.source() == Some(id@),
                None => self.source() is None,
            },
    {
        match &self.source_actor_id {
            Some(id) => Some(id.as_str()),
            None => None,
        }
    }

    /// The binding on which to wait for the target.
    pub fn binding(&mut self) -> (r: &mut watch::Receiver<Option<MailboxRef<M>>>)
        ensures
            *r == old(self).follows(),
            final(self).follows() == *final(r),
            final(self).target() == old(self).target(),
            final(self).source() == old(self).source(),
    {
        &mut self.binding
    }

    /// The mailbox in `current`, or the error that the target is not running.
    pub fn mailbox_or_not_running(&self, current: Option<MailboxRef<M>>) -> (r: Result<
        MailboxRef<M>,
        SendError,
    >)
        ensures
            match current {
                Some(mailbox) => r == Ok::<_, SendError>(mailbox),
                None => r matches Err(error) && self.not_running(error),
            },
    {
        match current {
            Some(mailbox) => Ok(mailbox),
            None => Err(SendError::ActorNotRunning { actor_id: self.actor_id.clone() }),
        }
    }

    /// The mailbox that the target has at the moment.
    pub fn current_mailbox(&self) -> (r: Result<MailboxRef<M>, SendError>)
        ensures
            exists|current: Option<MailboxRef<M>>| #[trigger]
                shows_now(self.follows(), current) && match current {
                    Some(mailbox) => r == Ok::<_, SendError>(mailbox),
                    None => r matches Err(error) && self.not_running(error),
                },
    {
        let current = queues::read(&self.binding);
        assert(shows_now(self.follows(), current));
        self.mailbox_or_not_running(current)
    }

    /// Starts a waiting send, or a further attempt of it, when the binding
    /// holds `current`.
    pub fn attempt(&self, current: Option<MailboxRef<M>>, envelope: M) -> (r: SendStep<
        SendError,
        M,
    >)
        ensures
            attempted(*self, current, envelope, r),
    {
        match self.mailbox_or_not_running(current) {
            Err(error) => SendStep::AwaitBinding { envelope, error },
            Ok(mailbox) => match mailbox.accept(envelope) {
                Ok(envelope) => SendStep::Deliver { mailbox, envelope },
                Err(MailboxSendFailure::EnvelopeTooLarge { envelope_len, max_envelope_bytes }) =>
                    SendStep::Done(
                    Err(
                        SendError::EnvelopeTooLarge {
                            actor_id: self.actor_id.clone(),
                            envelope_len,
                            max_envelope_bytes,
                        },
                    ),
                ),
                Err(MailboxSendFailure::MailboxClosed { envelope }) => SendStep::AwaitBinding {
                    envelope,
                    error: SendError::MailboxClosed { actor_id: self.actor_id.clone() },
                },
            },
        }
    }

    /// Starts a send that is retried across restarts of the target.
    pub fn send_when_ready(&self, envelope: M) -> (r: SendStep<SendError, M>)
        ensures
            exists|current: Option<MailboxRef<M>>| #[trigger]
                shows_now(self.follows(), current) && attempted(*self, current, envelope, r),
    {
        let current = queues::read(&self.binding);
        assert(shows_now(self.follows(), current));
        self.attempt(current, envelope)
    }

    /// Goes on after waiting on a mailbox: `outcome` is what its channel
    /// answered, the envelope itself if the receiving half was gone.
    pub fn delivered(&self, outcome: Result<(), M>) -> (r: SendStep<SendError, M>)
        ensures
            match outcome {
                Ok(()) => r == SendStep::<SendError, M>::Done(Ok(())),
                Err(envelope) => r matches SendStep::AwaitBinding { envelope: kept, error } && kept
                    == envelope && self.closed(error),
            },
    {
        match MailboxRef::<M>::settle(outcome) {
            Ok(()) => SendStep::Done(Ok(())),
            Err(MailboxSendFailure::MailboxClosed { envelope }) => SendStep::AwaitBinding {
                envelope,
                error: SendError::MailboxClosed { actor_id: self.actor_id.clone() },
            },
            Err(MailboxSendFailure::EnvelopeTooLarge { envelope_len, max_envelope_bytes }) =>
                SendStep::Done(
                Err(
                    SendError::EnvelopeTooLarge {
                        actor_id: self.actor_id.clone(),
                        envelope_len,
                        max_envelope_bytes,
                    },
                ),
            ),
        }
    }

    /// Goes on after waiting for a binding: with what the binding holds now, or
    /// not at all (`None`) if the source of the binding is gone.
    pub fn rebound(
        &self,
        binding: Option<Option<MailboxRef<M>>>,
        envelope: M,
        error: SendError,
    ) -> (r: SendStep<SendError, M>)
        ensures
            match binding {
                None => r == SendStep::<SendError, M>::Done(Err(error)),
                Some(current) => attempted(*self, current, envelope, r),
            },
    {
        match binding {
            None => SendStep::Done(Err(error)),
            Some(current) => self.attempt(current, envelope),
        }
    }

    /// Starts a send that is not retried, when the binding holds `current`.
    pub fn send_to(&self, current: Option<MailboxRef<M>>, envelope: M) -> (r: SendStep<
        SendError,
        M,
    >)
        ensures
            started(*self, current, envelope, r),
    {
        match self.mailbox_or_not_running(current) {
            Err(error) => SendStep::Done(Err(error)),
            Ok(mailbox) => match mailbox.validate_envelope(&envelope) {
                Ok(()) => SendStep::Deliver { mailbox, envelope },
                Err(why) => SendStep::Done(Err(why.into_send_error())),
            },
        }
    }

    /// Starts a send that waits for room but not for a restart.
    pub fn send(&self, envelope: M) -> (r: SendStep<SendError, M>)
        ensures
            exists|current: Option<MailboxRef<M>>| #[trigger]
                shows_now(self.follows(), current) && started(*self, current, envelope, r),
    {
        let current = queues::read(&self.binding);
        assert(shows_now(self.follows(), current));
        self.send_to(current, envelope)
    }

    /// Ends a send that is not retried: `outcome` is what the channel of
    /// `mailbox` answered.
    pub fn sent(&self, mailbox: &MailboxRef<M>, outcome: Result<(), M>) -> (r: Result<
        (),
        SendError,
    >)
        ensures
            match outcome {
                Ok(()) => r is Ok,
                Err(_) => r matches Err(error) && self.closed_at(*mailbox, error),
            },
    {
        match mailbox.finish_send(outcome) {
            Ok(()) => Ok(()),
            Err(why) => Err(why.into_send_error()),
        }
    }

    /// The result of an attempt without waiting, when the binding holds
    /// `current`, with a record of what is handed over.
    pub fn try_send_to_noted(
        &self,
        current: Option<MailboxRef<M>>,
        envelope: M,
        ledger: &mut Ledger<M>,
    ) -> (r: Result<(), SendError>)
        ensures
            tried(*self, current, envelope, r),
            exists|handed: Seq<Offer<M>>| #[trigger]
                handed_on(current, envelope, r is Ok, handed) && final(ledger)@ == old(ledger)@
                    + handed,
    {
        let ghost given = envelope;
        let ghost before = ledger@;
        match self.mailbox_or_not_running(current) {
            Err(error) => {
                proof {
                    let handed = Seq::<Offer<M>>::empty();
                    assert(handed_on(current, given, false, handed));
                    assert(ledger@ =~= before + handed);
                }
                Err(error)
            },
            Ok(mailbox) => {
                let outcome = mailbox.try_send_noted(envelope, ledger);
                let ghost queued = outcome is Ok;
                let r = match outcome {
                    Ok(()) => Ok(()),
                    Err(why) => Err(why.into_send_error()),
                };
                proof {
                    let handed = choose|handed: Seq<Offer<M>>| #[trigger]
                        mailbox.hands_over(given, queued, handed) && ledger@ == before + handed;
                    assert(mailbox.hands_over(given, queued, handed));
                    assert(r is Ok == queued);
                    assert(handed_on(current, given, r is Ok, handed));
                }
                r
            },
        }
    }

    /// The result of an attempt without waiting, when the binding holds
    /// `current`.
    pub fn try_send_to(&self, current: Option<MailboxRef<M>>, envelope: M) -> (r: Result<
        (),
        SendError,
    >)
        ensures
            tried(*self, current, envelope, r),
    {
        let mut ledger = Ledger::new();
        self.try_send_to_noted(current, envelope, &mut ledger)
    }

    /// Attempts to send an envelope without waiting, and records what is handed to
    /// channels: the envelope, at most once, and to no mailbox but the one that the
    /// target has at the moment.
    pub fn try_send_noted(&self, envelope: M, ledger: &mut Ledger<M>) -> (r: Result<(), SendError>)
        ensures
            exists|current: Option<MailboxRef<M>>, handed: Seq<Offer<M>>| #[trigger]
                shows_now(self.follows(), current) && tried(*self, current, envelope, r)
                    && #[trigger] handed_on(current, envelope, r is Ok, handed) && final(ledger)@
                    == old(ledger)@ + handed,
    {
        let current = queues::read(&self.binding);
        assert(shows_now(self.follows(), current));
        self.try_send_to_noted(current, envelope, ledger)
    }

    /// Attempts to send an envelope without waiting for mailbox capacity.
    pub fn try_send(&self, envelope: M) -> (r: Result<(), SendError>)
        ensures
            exists|current: Option<MailboxRef<M>>| #[trigger]
                shows_now(self.follows(), current) && tried(*self, current, envelope, r),
    {
        let mut ledger = Ledger::new();
        self.try_send_noted(envelope, &mut ledger)
    }

    /// Sends an envelope from blocking code without requiring an async context.
    ///
    /// A full mailbox is reported, not waited for.
    pub fn blocking_send(&self, envelope: M) -> (r: Result<(), SendError>)
        ensures
            exists|current: Option<MailboxRef<M>>| #[trigger]
                shows_now(self.follows(), current) && tried(*self, current, envelope, r),
    {
        self.try_send(envelope)
    }
}

/// What an actor sees while it runs.
#[derive(Debug)]
#[verifier::reject_recursive_types(M)]
pub struct ActorContext<M = Envelope> {
    id: String,
    mailbox: mpsc::Receiver<M>,
    peers: Directory<String, ActorRef<M>>,
    myself: ActorRef<M>,
    shutdown: CancellationToken,
}

impl<M: Payload> ActorContext<M> {
    /// The actor's id.
    pub closed spec fn actor(&self) -> Seq<char> {
        self.id@
    }

    /// The peers that the actor is linked to, by id.
    pub closed spec fn linked(&self) -> Map<Seq<char>, ActorRef<M>> {
        self.peers@
    }

    /// The sender for the actor's own mailbox.
    pub closed spec fn own(&self) -> ActorRef<M> {
        self.myself
    }

    /// The token that asks the actor to stop.
    pub closed spec fn stop(&self) -> CancellationToken {
        self.shutdown
    }

    /// The receiving half of the actor's mailbox.
    pub closed spec fn inbox(&self) -> mpsc::Receiver<M> {
        self.mailbox
    }

    /// Whether `error` says that `peer` is not linked.
    pub open spec fn not_linked(&self, peer: Seq<char>, error: SendError) -> bool {
        error matches SendError::UnknownPeer { actor_id, peer_id } && actor_id@ == self.actor()
            && peer_id@ == peer
    }

    /// Puts a context together.
    pub fn new(
        id: String,
        mailbox: mpsc::Receiver<M>,
        peers: Directory<String, ActorRef<M>>,
        myself: ActorRef<M>,
        shutdown: CancellationToken,
    ) -> (r: Self)
        ensures
            r.actor() == id@,
            r.inbox() == mailbox,
            r.linked() == peers@,
            r.own() == myself,
            r.stop() == shutdown,
    {
        ActorContext { id, mailbox, peers, myself, shutdown }
    }

    /// Returns the actor's unique identifier within the graph.
    pub fn id(&self) -> (r: &str)
        ensures
            r@ == self.actor(),
    {
        self.id.as_str()
    }

    /// Returns the shared graph shutdown token.
    pub fn shutdown_token(&self) -> (r: &CancellationToken)
        ensures
            *r == self.stop(),
    {
        &self.shutdown
    }

    /// Returns `true` if graph shutdown has been requested.
    pub fn is_shutting_down(&self) -> (r: bool)
        ensures
            answers(self.stop(), r),
    {
        self.shutdown.is_cancelled()
    }

    /// The mailbox to wait on for messages.
    pub fn mailbox(&mut self) -> (r: &mut mpsc::Receiver<M>)
        ensures
            *r == old(self).inbox(),
            final(self).inbox() == *final(r),
            final(self).actor() == old(self).actor(),
            final(self).linked() == old(self).linked(),
            final(self).own() == old(self).own(),
            final(self).stop() == old(self).stop(),
    {
        &mut self.mailbox
    }

    /// What a receive returns: nothing once shutdown has been requested,
    /// otherwise what the mailbox answered.
    pub fn received(shutting_down: bool, message: Option<M>) -> (r: Option<M>)
        ensures
            r == if shutting_down {
                None
            } else {
                message
            },
    {
        if shutting_down {
            None
        } else {
            message
        }
    }

    /// Returns a linked peer by id.
    pub fn peer(&self, actor_id: &str) -> (r: Option<ActorRef<M>>)
        ensures
            match r {
                Some(peer) => self.linked().contains_key(actor_id@) && peer
                    == self.linked()[actor_id@],
                None => !self.linked().contains_key(actor_id@),
            },
    {
        match self.peers.get(&actor_id.to_owned()) {
            Some(peer) => Some(peer.clone()),
            None => None,
        }
    }

    /// Returns a sender targeting this actor's own mailbox.
    pub fn myself(&self) -> (r: ActorRef<M>)
        ensures
            r == self.own(),
    {
        self.myself.clone()
    }

    /// Returns the peer that a lookup by id came up with, or the error that there
    /// is none.
    pub fn found_peer(&self, actor_id: &str, found: Option<ActorRef<M>>) -> (r: Result<
        ActorRef<M>,
        SendError,
    >)
        ensures
            match found {
                Some(peer) => r == Ok::<_, SendError>(peer),
                None => r matches Err(error) && self.not_linked(actor_id@, error),
            },
    {
        match found {
            Some(peer) => Ok(peer),
            None => Err(
                SendError::UnknownPeer { actor_id: self.id.clone(), peer_id: actor_id.to_owned() },
            ),
        }
    }

    /// Returns a linked peer by id, or the error that it is not linked.
    pub fn linked_peer(&self, actor_id: &str) -> (r: Result<ActorRef<M>, SendError>)
        ensures
            match r {
                Ok(peer) => self.linked().contains_key(actor_id@) && peer
                    == self.linked()[actor_id@],
                Err(error) => !self.linked().contains_key(actor_id@) && self.not_linked(
                    actor_id@,
                    error,
                ),
            },
    {
        self.found_peer(actor_id, self.peer(actor_id))
    }

    /// Starts a send to a linked peer that waits for room but not for a restart.
    pub fn send(&self, actor_id: &str, envelope: M) -> (r: SendStep<SendError, M>)
        ensures
            if self.linked().contains_key(actor_id@) {
                exists|current: Option<MailboxRef<M>>| #[trigger]
                    shows_now(self.linked()[actor_id@].follows(), current) && started(
                        self.linked()[actor_id@],
                        current,
                        envelope,
                        r,
                    )
            } else {
                r matches SendStep::Done(Err(error)) && self.not_linked(actor_id@, error)
            },
    {
        match self.linked_peer(actor_id) {
            Ok(peer) => peer.send(envelope),
            Err(error) => SendStep::Done(Err(error)),
        }
    }

    /// Starts a send to a linked peer that is retried across restarts.
    pub fn send_when_ready(&self, actor_id: &str, envelope: M) -> (r: SendStep<SendError, M>)
        ensures
            if self.linked().contains_key(actor_id@) {
                exists|current: Option<MailboxRef<M>>| #[trigger]
                    shows_now(self.linked()[actor_id@].follows(), current) && attempted(
                        self.linked()[actor_id@],
                        current,
                        envelope,
                        r,
                    )
            } else {
                r matches SendStep::Done(Err(error)) && self.not_linked(actor_id@, error)
            },
    {
        match self.linked_peer(actor_id) {
            Ok(peer) => peer.send_when_ready(envelope),
            Err(error) => SendStep::Done(Err(error)),
        }
    }

    /// Attempts to send an envelope to a linked peer without waiting.
    pub fn try_send(&self, actor_id: &str, envelope: M) -> (r: Result<(), SendError>)
        ensures
            if self.linked().contains_key(actor_id@) {
                exists|current: Option<MailboxRef<M>>| #[trigger]
                    shows_now(self.linked()[actor_id@].follows(), current) && tried(
                        self.linked()[actor_id@],
                        current,
                        envelope,
                        r,
                    )
            } else {
                r matches Err(error) && self.not_linked(actor_id@, error)
            },
    {
        match self.linked_peer(actor_id) {
            Ok(peer) => peer.try_send(envelope),
            Err(error) => Err(error),
        }
    }
}

impl ActorContext {
    /// What a retried send returns: it is abandoned without an error once this
    /// actor is shutting down.
    pub fn send_result(shutting_down: bool, result: Result<(), SendError>) -> (r: Result<
        (),
        SendError,
    >)
        ensures
            r == if shutting_down {
                Ok(())
            } else {
                result
            },
    {
        if shutting_down {
            Ok(())
        } else {
            result
        }
    }
}

/// The label under which a send error is reported.
pub fn send_rejection(error: &SendError) -> (r: SendRejection)
    ensures
        r == match *error {
            SendError::UnknownPeer { .. } => SendRejection::UnknownPeer,
            SendError::ActorNotRunning { .. } => SendRejection::NotRunning,
            SendError::EnvelopeTooLarge { .. } => SendRejection::EnvelopeTooLarge,
            SendError::MailboxFull { .. } => SendRejection::MailboxFull,
            SendError::MailboxClosed { .. } => SendRejection::MailboxClosed,
        },
{
    match error {
        SendError::UnknownPeer { .. } => SendRejection::UnknownPeer,
        SendError::ActorNotRunning { .. } => SendRejection::NotRunning,
        SendError::EnvelopeTooLarge { .. } => SendRejection::EnvelopeTooLarge,
        SendError::MailboxFull { .. } => SendRejection::MailboxFull,
        SendError::MailboxClosed { .. } => SendRejection::MailboxClosed,
    }
}

} // verus!
