//! Stable ways into a graph from outside.

use tokio::sync::watch;
use vstd::prelude::*;

use crate::actor::binding::{MailboxError, MailboxRef, MailboxSendFailure};
use crate::actor::delivery::{attempted, handed_on, started, tried, Addressed, SendStep};
use crate::actor::envelope::{Envelope, Payload};
use crate::actor::error::IngressError;
use crate::actor::observability::SendRejection;
use crate::queues;
use crate::queues::{shows_now, Ledger, Offer};

verus! {

/// Stable external sender that targets a named ingress point.
///
/// It follows the target actor's binding: each send goes to the mailbox that
/// the actor has at that moment.
#[derive(Debug)]
#[verifier::reject_recursive_types(M)]
pub struct IngressHandle<M = Envelope> {
    name: String,
    actor_id: String,
    binding: watch::Receiver<Option<MailboxRef<M>>>,
}

impl<M> Clone for IngressHandle<M> {
    fn clone(&self) -> (r: Self)
        ensures
            r == *self,
    {
        IngressHandle {
            name: self.name.clone(),
            actor_id: self.actor_id.clone(),
            binding: self.binding.clone(),
        }
    }
}

impl<M: Payload> Addressed for IngressHandle<M> {
    type Error = IngressError;

    type Content = M;

    open spec fn not_running(&self, error: IngressError) -> bool {
        error matches IngressError::NotRunning { ingress, actor_id } && ingress@
            == self.ingress_name() && actor_id@ == self.actor()
    }

    open spec fn closed(&self, error: IngressError) -> bool {
        error matches IngressError::MailboxClosed { ingress, actor_id } && ingress@
            == self.ingress_name() && actor_id@ == self.actor()
    }

    open spec fn too_large(&self, mailbox: MailboxRef<M>, len: nat, error: IngressError) -> bool {
        error matches IngressError::EnvelopeTooLarge {
            ingress,
            actor_id,
            envelope_len,
            max_envelope_bytes,
        } && ingress@ == self.ingress_name() && actor_id@ == self.actor() && envelope_len == len
            && mailbox.limit() == Some(max_envelope_bytes)
    }

    open spec fn closed_at(&self, mailbox: MailboxRef<M>, error: IngressError) -> bool {
        self.closed(error)
    }

    open spec fn full_at(&self, mailbox: MailboxRef<M>, error: IngressError) -> bool {
        error matches IngressError::MailboxFull { ingress, actor_id } && ingress@
            == self.ingress_name() && actor_id@ == self.actor()
    }

    open spec fn too_large_at(&self, mailbox: MailboxRef<M>, len: nat, error: IngressError) -> bool {
        self.too_large(mailbox, len, error)
    }
}

impl<M: Payload> IngressHandle<M> {
    /// The name of the ingress.
    pub closed spec fn ingress_name(&self) -> Seq<char> {
        self.name@
    }

    /// The id of the actor behind it.
    pub closed spec fn actor(&self) -> Seq<char> {
        self.actor_id@
    }

    /// The binding that it follows.
    pub closed spec fn follows(&self) -> watch::Receiver<Option<MailboxRef<M>>> {
        self.binding
    }

    /// Creates a handle that follows a binding.
    pub fn new(
        name: String,
        actor_id: String,
        binding: watch::Receiver<Option<MailboxRef<M>>>,
    ) -> (r: Self)
        ensures
            r.ingress_name() == name@,
            r.actor() == actor_id@,
            r.follows() == binding,
    {
        IngressHandle { name, actor_id, binding }
    }

    /// Returns the ingress name.
    pub fn name(&self) -> (r: &str)
        ensures
            r@ == self.ingress_name(),
    {
        self.name.as_str()
    }

    /// Returns the target actor id for the ingress.
    pub fn target(&self) -> (r: &str)
        ensures
            r@ == self.actor(),
    {
        self.actor_id.as_str()
    }

    /// The binding on which to wait for the target.
    pub fn binding(&mut self) -> (r: &mut watch::Receiver<Option<MailboxRef<M>>>)
        ensures
            *r == old(self).follows(),
            final(self).follows() == *final(r),
            final(self).ingress_name() == old(self).ingress_name(),
            final(self).actor() == old(self).actor(),
    {
        &mut self.binding
    }

    /// The mailbox in `current`, or the error that the target is not running.
    pub fn mailbox_or_not_running(&self, current: Option<MailboxRef<M>>) -> (r: Result<
        MailboxRef<M>,
        IngressError,
    >)
        ensures
            match current {
                Some(mailbox) => r == Ok::<_, IngressError>(mailbox),
                None => r matches Err(error) && self.not_running(error),
            },
    {
        match current {
            Some(mailbox) => Ok(mailbox),
            None => Err(
                IngressError::NotRunning {
                    ingress: self.name.clone(),
                    actor_id: self.actor_id.clone(),
                },
            ),
        }
    }

    /// The mailbox that the target has at the moment.
    pub fn current_mailbox(&self) -> (r: Result<MailboxRef<M>, IngressError>)
        ensures
            exists|current: Option<MailboxRef<M>>| #[trigger]
                shows_now(self.follows(), current) && match current {
                    Some(mailbox) => r == Ok::<_, IngressError>(mailbox),
                    None => r matches Err(error) && self.not_running(error),
                },
    {
        let current = queues::read(&self.binding);
        assert(shows_now(self.follows(), current));
        self.mailbox_or_not_running(current)
    }

    /// A mailbox error as a sender through the ingress sees it.
    pub fn map_mailbox_error(&self, why: MailboxError) -> (r: IngressError)
        ensures
            match why {
                MailboxError::EnvelopeTooLarge { envelope_len, max_envelope_bytes, .. } => r
                    matches IngressError::EnvelopeTooLarge {
                    ingress,
                    actor_id,
                    envelope_len: len,
                    max_envelope_bytes: max,
                } && ingress@ == self.ingress_name() && actor_id@ == self.actor() && len
                    == envelope_len && max == max_envelope_bytes,
                MailboxError::MailboxFull { .. } => r matches IngressError::MailboxFull {
                    ingress,
                    actor_id,
                } && ingress@ == self.ingress_name() && actor_id@ == self.actor(),
                MailboxError::MailboxClosed { .. } => self.closed(r),
            },
    {
        match why {
            MailboxError::EnvelopeTooLarge { envelope_len, max_envelope_bytes, .. } =>
                IngressError::EnvelopeTooLarge {
                ingress: self.name.clone(),
                actor_id: self.actor_id.clone(),
                envelope_len,
                max_envelope_bytes,
            },
            MailboxError::MailboxFull { .. } => IngressError::MailboxFull {
                ingress: self.name.clone(),
                actor_id: self.actor_id.clone(),
            },
            MailboxError::MailboxClosed { .. } => IngressError::MailboxClosed {
                ingress: self.name.clone(),
                actor_id: self.actor_id.clone(),
            },
        }
    }

    /// Starts a send that is not retried, when the binding holds `current`.
    pub fn send_to(&self, current: Option<MailboxRef<M>>, envelope: M) -> (r: SendStep<
        IngressError,
        M,
    >)
        ensures
            started(*self, current, envelope, r),
    {
        match self.mailbox_or_not_running(current) {
            Err(error) => SendStep::Done(Err(error)),
            Ok(mailbox) => match mailbox.validate_envelope(&envelope) {
                Ok(()) => SendStep::Deliver { mailbox, envelope },
                Err(why) => SendStep::Done(Err(self.map_mailbox_error(why))),
            },
        }
    }

    /// Starts a send through the ingress that waits for mailbox capacity.
    pub fn send(&self, envelope: M) -> (r: SendStep<IngressError, M>)
        ensures
            exists|current: Option<MailboxRef<M>>| #[trigger]
                shows_now(self.follows(), current) && started(*self, current, envelope, r),
    {
        let current = queues::read(&self.binding);
        assert(shows_now(self.follows(), current));
        self.send_to(current, envelope)
    }

    /// Ends a send that is not retried: `outcome` is what the channel of
    /// `mailbox` answered.
    pub fn sent(&self, mailbox: &MailboxRef<M>, outcome: Result<(), M>) -> (r: Result<
        (),
        IngressError,
    >)
        ensures
            match outcome {
                Ok(()) => r is Ok,
                Err(_) => r matches Err(error) && self.closed(error),
            },
    {
        match mailbox.finish_send(outcome) {
            Ok(()) => Ok(()),
            Err(why) => Err(self.map_mailbox_error(why)),
        }
    }

    /// Starts a retried send, or a further attempt of it, when the binding
    /// holds `current`.
    pub fn attempt(&self, current: Option<MailboxRef<M>>, envelope: M) -> (r: SendStep<
        IngressError,
        M,
    >)
        ensures
            attempted(*self, current, envelope, r),
    {
        match self.mailbox_or_not_running(current) {
            Err(error) => SendStep::AwaitBinding { envelope, error },
            Ok(mailbox) => match mailbox.accept(envelope) {
                Ok(envelope) => SendStep::Deliver { mailbox, envelope },
                Err(MailboxSendFailure::EnvelopeTooLarge { envelope_len, max_envelope_bytes }) =>
                    SendStep::Done(
                    Err(
                        IngressError::EnvelopeTooLarge {
                            ingress: self.name.clone(),
                            actor_id: self.actor_id.clone(),
                            envelope_len,
                            max_envelope_bytes,
                        },
                    ),
                ),
                Err(MailboxSendFailure::MailboxClosed { envelope }) => SendStep::AwaitBinding {
                    envelope,
                    error: IngressError::MailboxClosed {
                        ingress: self.name.clone(),
                        actor_id: self.actor_id.clone(),
                    },
                },
            },
        }
    }

    /// Starts a send that is retried across restarts of the target.
    pub fn send_when_ready(&self, envelope: M) -> (r: SendStep<IngressError, M>)
        ensures
            exists|current: Option<MailboxRef<M>>| #[trigger]
                shows_now(self.follows(), current) && attempted(*self, current, envelope, r),
    {
        let current = queues::read(&self.binding);
        assert(shows_now(self.follows(), current));
        self.attempt(current, envelope)
    }

    /// Goes on after waiting on a mailbox: `outcome` is what its channel
    /// answered, the envelope itself if the receiving half was gone.
    pub fn delivered(&self, outcome: Result<(), M>) -> (r: SendStep<IngressError, M>)
        ensures
            match outcome {
                Ok(()) => r == SendStep::<IngressError, M>::Done(Ok(())),
                Err(envelope) => r matches SendStep::AwaitBinding { envelope: kept, error } && kept
                    == envelope && self.closed(error),
            },
    {
        match outcome {
            Ok(()) => SendStep::Done(Ok(())),
            Err(envelope) => SendStep::AwaitBinding {
                envelope,
                error: IngressError::MailboxClosed {
                    ingress: self.name.clone(),
                    actor_id: self.actor_id.clone(),
                },
            },
        }
    }

    /// Goes on after waiting for a binding: with what the binding holds now, or
    /// not at all (`None`) if the source of the binding is gone.
    pub fn rebound(
        &self,
        binding: Option<Option<MailboxRef<M>>>,
        envelope: M,
        error: IngressError,
    ) -> (r: SendStep<IngressError, M>)
        ensures
            match binding {
                None => r == SendStep::<IngressError, M>::Done(Err(error)),
                Some(current) => attempted(*self, current, envelope, r),
            },
    {
        match binding {
            None => SendStep::Done(Err(error)),
            Some(current) => self.attempt(current, envelope),
        }
    }

    /// The result of an attempt without waiting, when the binding holds
    /// `current`, with a record of what is handed over.
    pub fn try_send_to_noted(
        &self,
        current: Option<MailboxRef<M>>,
        envelope: M,
        ledger: &mut Ledger<M>,
    ) -> (r: Result<(), IngressError>)
        ensures
            tried(*self, current, envelope, r),
            exists|handed: Seq<Offer<M>>| #[trigger]
                handed_on(current, envelope, r is Ok, handed) && final(ledger)@ == old(ledger)@
                    + handed,
    {
        let ghost given = envelope;
        let ghost before = ledger@;
        match self.mailbox_or_not_running(current) {
            Err(error) => {
                proof {
                    let handed = Seq::<Offer<M>>::empty();
                    assert(handed_on(current, given, false, handed));
                    assert(ledger@ =~= before + handed);
                }
                Err(error)
            },
            Ok(mailbox) => {
                let outcome = mailbox.try_send_noted(envelope, ledger);
                let ghost queued = outcome is Ok;
                let r = match outcome {
                    Ok(()) => Ok(()),
                    Err(why) => Err(self.map_mailbox_error(why)),
                };
                proof {
                    let handed = choose|handed: Seq<Offer<M>>| #[trigger]
                        mailbox.hands_over(given, queued, handed) && ledger@ == before + handed;
                    assert(mailbox.hands_over(given, queued, handed));
                    assert(r is Ok == queued);
                    assert(handed_on(current, given, r is Ok, handed));
                }
                r
            },
        }
    }

    /// The result of an attempt without waiting, when the binding holds
    /// `current`.
    pub fn try_send_to(&self, current: Option<MailboxRef<M>>, envelope: M) -> (r: Result<
        (),
        IngressError,
    >)
        ensures
            tried(*self, current, envelope, r),
    {
        let mut ledger = Ledger::new();
        self.try_send_to_noted(current, envelope, &mut ledger)
    }

    /// Attempts to send an envelope without waiting, and records what is handed to
    /// channels: the envelope, at most once, and to no mailbox but the one that the
    /// target has at the moment.
    pub fn try_send_noted(&self, envelope: M, ledger: &mut Ledger<M>) -> (r: Result<(), IngressError>)
        ensures
            exists|current: Option<MailboxRef<M>>, handed: Seq<Offer<M>>| #[trigger]
                shows_now(self.follows(), current) && tried(*self, current, envelope, r)
                    && #[trigger] handed_on(current, envelope, r is Ok, handed) && final(ledger)@
                    == old(ledger)@ + handed,
    {
        let current = queues::read(&self.binding);
        assert(shows_now(self.follows(), current));
        self.try_send_to_noted(current, envelope, ledger)
    }

    /// Attempts to send an envelope through the ingress without waiting.
    pub fn try_send(&self, envelope: M) -> (r: Result<(), IngressError>)
        ensures
            exists|current: Option<MailboxRef<M>>| #[trigger]
                shows_now(self.follows(), current) && tried(*self, current, envelope, r),
    {
        let mut ledger = Ledger::new();
        self.try_send_noted(envelope, &mut ledger)
    }
}

/// The label under which an ingress error is reported.
pub fn ingress_rejection(error: &IngressError) -> (r: SendRejection)
    ensures
        r == match *error {
            IngressError::NotRunning { .. } => SendRejection::NotRunning,
            IngressError::EnvelopeTooLarge { .. } => SendRejection::EnvelopeTooLarge,
            IngressError::MailboxFull { .. } => SendRejection::MailboxFull,
            IngressError::MailboxClosed { .. } => SendRejection::MailboxClosed,
        },
{
    match error {
        IngressError::NotRunning { .. } => SendRejection::NotRunning,
        IngressError::EnvelopeTooLarge { .. } => SendRejection::EnvelopeTooLarge,
        IngressError::MailboxFull { .. } => SendRejection::MailboxFull,
        IngressError::MailboxClosed { .. } => SendRejection::MailboxClosed,
    }
}

} // verus!
