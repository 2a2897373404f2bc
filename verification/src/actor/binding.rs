//! Mailboxes, and the slots through which handles find the current one.

use tokio::sync::{mpsc, watch};
use vstd::prelude::*;

use crate::actor::envelope::{Envelope, Payload};
use crate::actor::error::SendError;
use crate::queues::{
    gives_way, offer, opened_with, opens, responds, shown_by, subscribe, Ledger, Offer, TrySendFailure,
};

verus! {

/// Why a mailbox did not take an envelope.
#[derive(Debug, Clone, PartialEq, Eq)]
pub enum MailboxError {
    /// The envelope exceeds the mailbox's limit.
    EnvelopeTooLarge { actor_id: String, envelope_len: usize, max_envelope_bytes: usize },
    /// The mailbox has no room at the moment.
    MailboxFull { actor_id: String },
    /// The actor behind the mailbox is gone.
    MailboxClosed { actor_id: String },
}

impl MailboxError {
    /// The id of the actor whose mailbox it was.
    pub open spec fn actor(self) -> Seq<char> {
        match self {
            MailboxError::EnvelopeTooLarge { actor_id, .. } => actor_id@,
            MailboxError::MailboxFull { actor_id } => actor_id@,
            MailboxError::MailboxClosed { actor_id } => actor_id@,
        }
    }

    fn closed(actor_id: &String) -> (r: Self)
        ensures
            r is MailboxClosed,
            r.actor() == actor_id@,
    {
        MailboxError::MailboxClosed { actor_id: actor_id.clone() }
    }

    /// What a failed attempt to queue without waiting means.
    pub fn from_try_send<M>(actor_id: &String, failure: TrySendFailure<M>) -> (r: Self)
        ensures
            r.actor() == actor_id@,
            failure is Full <==> r is MailboxFull,
            failure is Closed <==> r is MailboxClosed,
    {
        match failure {
            TrySendFailure::Full(_) => MailboxError::MailboxFull { actor_id: actor_id.clone() },
            TrySendFailure::Closed(_) => MailboxError::closed(actor_id),
        }
    }

    /// The send error that says the same.
    pub open spec fn as_send_error(self) -> SendError {
        match self {
            MailboxError::EnvelopeTooLarge { actor_id, envelope_len, max_envelope_bytes } =>
                SendError::EnvelopeTooLarge { actor_id, envelope_len, max_envelope_bytes },
            MailboxError::MailboxFull { actor_id } => SendError::MailboxFull { actor_id },
            MailboxError::MailboxClosed { actor_id } => SendError::MailboxClosed { actor_id },
        }
    }

    /// The error as a sender sees it.
    pub fn into_send_error(self) -> (r: SendError)
        ensures
            r == self.as_send_error(),
    {
        match self {
            MailboxError::EnvelopeTooLarge { actor_id, envelope_len, max_envelope_bytes } =>
                SendError::EnvelopeTooLarge { actor_id, envelope_len, max_envelope_bytes },
            MailboxError::MailboxFull { actor_id } => SendError::MailboxFull { actor_id },
            MailboxError::MailboxClosed { actor_id } => SendError::MailboxClosed { actor_id },
        }
    }
}

/// Why a waiting send did not go through. A closed mailbox hands the envelope
/// back, so that it can be sent again.
#[derive(Debug)]
pub enum MailboxSendFailure<M = Envelope> {
    /// The envelope exceeds the mailbox's limit.
    EnvelopeTooLarge { envelope_len: usize, max_envelope_bytes: usize },
    /// The actor behind the mailbox is gone.
    MailboxClosed { envelope: M },
}

impl<M> MailboxSendFailure<M> {
    /// The failure without the envelope.
    pub fn into_mailbox_error(self, actor_id: &String) -> (r: MailboxError)
        ensures
            r.actor() == actor_id@,
            match self {
                MailboxSendFailure::EnvelopeTooLarge { envelope_len, max_envelope_bytes } => r
                    matches MailboxError::EnvelopeTooLarge {
                    envelope_len: len,
                    max_envelope_bytes: max,
                    ..
                } && len == envelope_len && max == max_envelope_bytes,
                MailboxSendFailure::MailboxClosed { .. } => r is MailboxClosed,
            },
    {
        match self {
            MailboxSendFailure::EnvelopeTooLarge { envelope_len, max_envelope_bytes } =>
                MailboxError::EnvelopeTooLarge {
                actor_id: actor_id.clone(),
                envelope_len,
                max_envelope_bytes,
            },
            MailboxSendFailure::MailboxClosed { .. } => MailboxError::closed(actor_id),
        }
    }
}

/// Sending half of a running actor's mailbox.
#[derive(Debug)]
#[verifier::reject_recursive_types(M)]
pub struct MailboxRef<M = Envelope> {
    actor_id: String,
    sender: mpsc::Sender<M>,
    max_envelope_bytes: Option<usize>,
}

impl<M> Clone for MailboxRef<M> {
    fn clone(&self) -> (r: Self)
        ensures
            r == *self,
    {
        MailboxRef {
            actor_id: self.actor_id.clone(),
            sender: self.sender.clone(),
            max_envelope_bytes: self.max_envelope_bytes,
        }
    }
}

impl<M> MailboxRef<M> {
    /// The id of the actor whose mailbox it is.
    pub closed spec fn actor(&self) -> Seq<char> {
        self.actor_id@
    }

    /// The channel behind the mailbox.
    pub closed spec fn outlet(&self) -> mpsc::Sender<M> {
        self.sender
    }

    /// The largest payload that the mailbox takes, if it has a limit.
    pub closed spec fn limit(&self) -> Option<usize> {
        self.max_envelope_bytes
    }

    /// Whether a payload of `len` bytes is within the limit.
    pub open spec fn accepts(&self, len: nat) -> bool {
        match self.limit() {
            Some(max) => len <= max,
            None => true,
        }
    }

    /// Whether `error` says that `len` bytes are too many for this mailbox.
    pub open spec fn refuses_with(&self, len: nat, error: MailboxError) -> bool {
        &&& error.actor() == self.actor()
        &&& error matches MailboxError::EnvelopeTooLarge {
            envelope_len,
            max_envelope_bytes,
            ..
        } && envelope_len == len && self.limit() == Some(max_envelope_bytes)
    }

    /// Addresses a mailbox through its channel.
    pub fn new(
        actor_id: String,
        sender: mpsc::Sender<M>,
        max_envelope_bytes: Option<usize>,
    ) -> (r: Self)
        ensures
            r.actor() == actor_id@,
            r.outlet() == sender,
            r.limit() == max_envelope_bytes,
    {
        MailboxRef { actor_id, sender, max_envelope_bytes }
    }

    /// The channel through which a send waits for room.
    pub fn sender(&self) -> (r: &mpsc::Sender<M>)
        ensures
            *r == self.outlet(),
    {
        &self.sender
    }

    /// Second half of a waiting send: `outcome` is what the channel answered,
    /// the envelope itself if the receiving half was gone.
    pub fn settle(outcome: Result<(), M>) -> (r: Result<(), MailboxSendFailure<M>>)
        ensures
            match outcome {
                Ok(()) => r is Ok,
                Err(envelope) => r == Err::<(), _>(MailboxSendFailure::MailboxClosed { envelope }),
            },
    {
        match outcome {
            Ok(()) => Ok(()),
            Err(envelope) => Err(MailboxSendFailure::MailboxClosed { envelope }),
        }
    }

    /// The result of a waiting send that is not retried.
    pub fn finish_send(&self, outcome: Result<(), M>) -> (r: Result<(), MailboxError>)
        ensures
            match outcome {
                Ok(()) => r is Ok,
                Err(_) => r matches Err(error) && error is MailboxClosed && error.actor()
                    == self.actor(),
            },
    {
        match Self::settle(outcome) {
            Ok(()) => Ok(()),
            Err(failure) => Err(failure.into_mailbox_error(&self.actor_id)),
        }
    }
}

impl<M: Payload> MailboxRef<M> {
    /// Checks an envelope against the size limit.
    pub fn validate_envelope(&self, envelope: &M) -> (r: Result<(), MailboxError>)
        ensures
            r is Ok <==> self.accepts(envelope.size()),
            r matches Err(error) ==> self.refuses_with(envelope.size(), error),
    {
        let max_envelope_bytes: usize = match self.max_envelope_bytes {
            Some(max) => max,
            None => return Ok(()),
        };
        let envelope_len: usize = envelope.byte_count();
        if envelope_len <= max_envelope_bytes {
            return Ok(());
        }
        Err(
            MailboxError::EnvelopeTooLarge {
                actor_id: self.actor_id.clone(),
                envelope_len,
                max_envelope_bytes,
            },
        )
    }

    /// First half of a waiting send: an envelope that is too large is refused
    /// before it gets near the channel, any other is handed on unchanged.
    pub fn accept(&self, envelope: M) -> (r: Result<M, MailboxSendFailure<M>>)
        ensures
            match r {
                Ok(admitted) => admitted == envelope && self.accepts(envelope.size()),
                Err(MailboxSendFailure::EnvelopeTooLarge { envelope_len, max_envelope_bytes }) =>
                    !self.accepts(envelope.size()) && envelope_len == envelope.size()
                        && self.limit() == Some(max_envelope_bytes),
                Err(MailboxSendFailure::MailboxClosed { .. }) => false,
            },
    {
        match self.validate_envelope(&envelope) {
            Ok(()) => Ok(envelope),
            Err(MailboxError::EnvelopeTooLarge { envelope_len, max_envelope_bytes, .. }) => Err(
                MailboxSendFailure::EnvelopeTooLarge { envelope_len, max_envelope_bytes },
            ),
            Err(_) => {
                assert(false);
                Ok(envelope)
            },
        }
    }

    /// Whether queueing without waiting comes to `result`, given what the channel
    /// answered.
    pub open spec fn queued_as(
        &self,
        outcome: Result<(), TrySendFailure<M>>,
        result: Result<(), MailboxError>,
    ) -> bool {
        match outcome {
            Ok(()) => result is Ok,
            Err(TrySendFailure::Full(_)) => result matches Err(error) && error is MailboxFull
                && error.actor() == self.actor(),
            Err(TrySendFailure::Closed(_)) => result matches Err(error) && error is MailboxClosed
                && error.actor() == self.actor(),
        }
    }

    /// Whether an attempt to queue `envelope` comes to `result`: one that is too
    /// large is refused, any other is handed to the channel.
    pub open spec fn tried(&self, envelope: M, result: Result<(), MailboxError>) -> bool {
        if self.accepts(envelope.size()) {
            exists|outcome: Result<(), TrySendFailure<M>>| #[trigger]
                responds(self.outlet(), envelope, outcome) && self.queued_as(outcome, result)
        } else {
            result matches Err(error) && self.refuses_with(envelope.size(), error)
        }
    }

    /// The result of queueing without waiting, given what the channel answered.
    pub fn try_send_result(&self, outcome: Result<(), TrySendFailure<M>>) -> (r: Result<
        (),
        MailboxError,
    >)
        ensures
            self.queued_as(outcome, r),
    {
        match outcome {
            Ok(()) => Ok(()),
            Err(failure) => Err(MailboxError::from_try_send(&self.actor_id, failure)),
        }
    }

    /// Whether `handed` is what an attempt to queue `envelope` hands to channels:
    /// the envelope to this mailbox's channel, unless it is too large.
    pub open spec fn hands_over(&self, envelope: M, queued: bool, handed: Seq<Offer<M>>) -> bool {
        if self.accepts(envelope.size()) {
            exists|outcome: Result<(), TrySendFailure<M>>| #[trigger]
                responds(self.outlet(), envelope, outcome) && queued == (outcome is Ok) && handed
                    == seq![Offer { sender: self.outlet(), message: envelope, outcome }]
        } else {
            !queued && handed == Seq::<Offer<M>>::empty()
        }
    }

    /// Queues an envelope if there is room for it, and records what is handed over.
    pub fn try_send_noted(&self, envelope: M, ledger: &mut Ledger<M>) -> (r: Result<
        (),
        MailboxError,
    >)
        ensures
            self.tried(envelope, r),
            exists|handed: Seq<Offer<M>>| #[trigger]
                self.hands_over(envelope, r is Ok, handed) && final(ledger)@ == old(ledger)@
                    + handed,
    {
        let ghost given = envelope;
        let ghost before = ledger@;
        match self.validate_envelope(&envelope) {
            Ok(()) => {
                let outcome = offer(&self.sender, envelope, ledger);
                assert(responds(self.outlet(), given, outcome));
                let r = self.try_send_result(outcome);
                proof {
                    let handed = seq![Offer { sender: self.outlet(), message: given, outcome }];
                    assert(self.hands_over(given, r is Ok, handed));
                    assert(ledger@ =~= before + handed);
                }
                r
            },
            Err(error) => {
                proof {
                    let handed = Seq::<Offer<M>>::empty();
                    assert(self.hands_over(given, false, handed));
                    assert(ledger@ =~= before + handed);
                }
                Err(error)
            },
        }
    }

    /// Queues an envelope if there is room for it.
    pub fn try_send(&self, envelope: M) -> (r: Result<(), MailboxError>)
        ensures
            self.tried(envelope, r),
    {
        let mut ledger = Ledger::new();
        self.try_send_noted(envelope, &mut ledger)
    }

    /// Queues an envelope from blocking code, without waiting for room.
    pub fn blocking_send(&self, envelope: M) -> (r: Result<(), MailboxError>)
        ensures
            self.tried(envelope, r),
    {
        self.try_send(envelope)
    }
}

/// The slot that holds an actor's current mailbox while it runs.
///
/// Handles subscribe to the slot, so that they follow the actor from one run to
/// the next.
#[derive(Debug)]
pub struct MailboxBinding {
    current: watch::Sender<Option<MailboxRef>>,
}

impl Default for MailboxBinding {
    /// An empty slot.
    fn default() -> (r: Self)
        ensures
            r.starts_empty(),
    {
        let (current, _receiver) = watch::channel(None);
        assert(opens(None, current, _receiver));
        MailboxBinding { current }
    }
}

impl Clone for MailboxBinding {
    /// Another handle to the same slot.
    fn clone(&self) -> (r: Self)
        ensures
            r == *self,
    {
        MailboxBinding { current: self.current.clone() }
    }
}

impl MailboxBinding {
    /// The channel that the slot publishes through.
    pub closed spec fn outlet(&self) -> watch::Sender<Option<MailboxRef>> {
        self.current
    }

    /// Whether filling a slot that held `former` binds it anew.
    pub fn newly_bound(former: &Option<MailboxRef>) -> (r: bool)
        ensures
            r == (former is None),
    {
        former.is_none()
    }

    /// Whether emptying a slot that held `former` unbinds it.
    pub fn newly_cleared(former: &Option<MailboxRef>) -> (r: bool)
        ensures
            r == (former is Some),
    {
        former.is_some()
    }

    /// Whether `newly` is what filling the slot with `mailbox` can come to: the
    /// slot hands back what it held, which is nothing if it is bound anew.
    pub open spec fn binds(&self, mailbox: MailboxRef, newly: bool) -> bool {
        exists|former: Option<MailboxRef>| #[trigger]
            gives_way(self.outlet(), Some(mailbox), former) && newly == (former is None)
    }

    /// Whether `newly` is what emptying the slot can come to: the slot hands back
    /// what it held, which is a mailbox if it is bound no longer.
    pub open spec fn unbinds(&self, newly: bool) -> bool {
        exists|former: Option<MailboxRef>| #[trigger]
            gives_way(self.outlet(), None, former) && newly == (former is Some)
    }

    /// Whether the slot was filled with `mailbox`, whatever it held before.
    pub open spec fn takes(&self, mailbox: MailboxRef) -> bool {
        exists|newly: bool| #[trigger] self.binds(mailbox, newly)
    }

    /// Whether the slot was emptied, whatever it held before.
    pub open spec fn is_emptied(&self) -> bool {
        exists|newly: bool| #[trigger] self.unbinds(newly)
    }

    /// Whether the slot was made empty.
    pub open spec fn starts_empty(&self) -> bool {
        opened_with(self.outlet(), None)
    }

    /// Fills the slot. Returns whether it was empty.
    pub fn bind(&self, mailbox: MailboxRef) -> (r: bool)
        ensures
            self.binds(mailbox, r),
    {
        let former = self.current.send_replace(Some(mailbox));
        assert(gives_way(self.outlet(), Some(mailbox), former));
        MailboxBinding::newly_bound(&former)
    }

    /// Empties the slot. Returns whether it was filled.
    pub fn clear(&self) -> (r: bool)
        ensures
            self.unbinds(r),
    {
        let former = self.current.send_replace(None);
        assert(gives_way(self.outlet(), None, former));
        MailboxBinding::newly_cleared(&former)
    }

    /// Whether a receiver shows what the slot holds.
    pub open spec fn shows(&self, receiver: watch::Receiver<Option<MailboxRef>>) -> bool {
        shown_by(receiver) == self.outlet()
    }

    /// A receiver that follows the slot.
    pub fn subscribe(&self) -> (r: watch::Receiver<Option<MailboxRef>>)
        ensures
            self.shows(r),
    {
        subscribe(&self.current)
    }
}

/// A mailbox and the slot that it belongs into.
#[derive(Debug)]
pub struct Placement {
    /// The slot.
    pub slot: MailboxBinding,
    /// The mailbox.
    pub mailbox: MailboxRef,
}

/// Whether `found` are numbers below `count`, in order.
pub open spec fn ascending_below(found: Seq<usize>, count: nat) -> bool {
    &&& forall|i: int| 0 <= i < found.len() ==> (#[trigger] found[i]) < count
    &&& forall|i: int, j: int| 0 <= i < j < found.len() ==> found[i] < found[j]
}

/// Listing one more number changes nothing for those below it.
proof fn lemma_one_more_number(found: Seq<usize>, next: usize)
    requires
        ascending_below(found, next as nat),
    ensures
        !found.contains(next),
        found.push(next).contains(next),
        forall|n: usize| n < next ==> #[trigger] found.push(next).contains(n) == found.contains(n),
{
    let more = found.push(next);
    assert(more[found.len() as int] == next);
    assert forall|n: usize| n < next implies #[trigger] more.contains(n) == found.contains(n) by {
        if found.contains(n) {
            let k = found.index_of(n);
            assert(more[k] == n);
        }
        if more.contains(n) {
            let k = more.index_of(n);
            assert(found[k] == n);
        }
    }
}

/// Puts each mailbox into its slot. Returns the numbers of the slots that were
/// empty before.
pub fn bind_all(placements: &Vec<Placement>) -> (r: Vec<usize>)
    ensures
        ascending_below(r@, placements@.len()),
        forall|i: int|
            0 <= i < placements@.len() ==> (#[trigger] placements@[i]).slot.binds(
                placements@[i].mailbox,
                r@.contains(i as usize),
            ),
{
    let mut bound: Vec<usize> = Vec::new();
    let mut i: usize = 0;
    while i < placements.len()
        invariant
            i <= placements.len(),
            ascending_below(bound@, i as nat),
            forall|j: int|
                0 <= j < i ==> (#[trigger] placements@[j]).slot.binds(
                    placements@[j].mailbox,
                    bound@.contains(j as usize),
                ),
        decreases placements.len() - i,
    {
        let placement = &placements[i];
        let newly = placement.slot.bind(placement.mailbox.clone());
        proof {
            lemma_one_more_number(bound@, i);
        }
        if newly {
            bound.push(i);
        }
        i = i + 1;
    }
    bound
}

/// Empties each slot. Returns the numbers of the slots that were filled before.
pub fn clear_all(slots: &Vec<MailboxBinding>) -> (r: Vec<usize>)
    ensures
        ascending_below(r@, slots@.len()),
        forall|i: int|
            0 <= i < slots@.len() ==> (#[trigger] slots@[i]).unbinds(r@.contains(i as usize)),
{
    let mut cleared: Vec<usize> = Vec::new();
    let mut i: usize = 0;
    while i < slots.len()
        invariant
            i <= slots.len(),
            ascending_below(cleared@, i as nat),
            forall|j: int|
                0 <= j < i ==> (#[trigger] slots@[j]).unbinds(cleared@.contains(j as usize)),
        decreases slots.len() - i,
    {
        let newly = slots[i].clear();
        proof {
            lemma_one_more_number(cleared@, i);
        }
        if newly {
            cleared.push(i);
        }
        i = i + 1;
    }
    cleared
}

} // verus!
