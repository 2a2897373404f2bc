//! Sends that wait: for room in a mailbox, or for the target to come back.

use tokio::sync::mpsc;
use vstd::prelude::*;

use crate::actor::binding::MailboxRef;
use crate::actor::envelope::{Envelope, Payload};
use crate::queues::{responds, taken_by, Offer, TrySendFailure};

verus! {

/// Something that sends to one actor and reports errors of its own kind.
pub trait Addressed {
    /// The errors that it reports.
    type Error;

    /// What it sends.
    type Content: Payload;

    /// Whether `error` says that the target is not running.
    spec fn not_running(&self, error: Self::Error) -> bool;

    /// Whether `error` is how a retried send reports a closed mailbox.
    spec fn closed(&self, error: Self::Error) -> bool;

    /// Whether `error` is how a retried send reports that `len` bytes are too
    /// many for `mailbox`.
    spec fn too_large(&self, mailbox: MailboxRef<Self::Content>, len: nat, error: Self::Error) -> bool;

    /// Whether `error` is how a send that is not retried reports that `mailbox`
    /// is closed.
    spec fn closed_at(&self, mailbox: MailboxRef<Self::Content>, error: Self::Error) -> bool;

    /// Whether `error` is how a send that is not retried reports that `mailbox`
    /// is full.
    spec fn full_at(&self, mailbox: MailboxRef<Self::Content>, error: Self::Error) -> bool;

    /// Whether `error` is how a send that is not retried reports that `len`
    /// bytes are too many for `mailbox`.
    spec fn too_large_at(&self, mailbox: MailboxRef<Self::Content>, len: nat, error: Self::Error) -> bool;
}

/// Where a waiting send stands.
#[derive(Debug)]
#[verifier::reject_recursive_types(M)]
pub enum SendStep<E, M = Envelope> {
    /// Wait until `mailbox` takes `envelope`, then report the outcome to
    /// `delivered`.
    Deliver { mailbox: MailboxRef<M>, envelope: M },
    /// The target is not running. Wait until it is bound again, then report to
    /// `rebound`.
    AwaitBinding { envelope: M, error: E },
    /// The send is over.
    Done(Result<(), E>),
}

impl<E, M> SendStep<E, M> {
    /// The envelope that is still to be delivered.
    pub open spec fn pending(self) -> Option<M> {
        match self {
            SendStep::Deliver { envelope, .. } => Some(envelope),
            SendStep::AwaitBinding { envelope, .. } => Some(envelope),
            SendStep::Done(_) => None,
        }
    }
}

/// What a send of `envelope` that is not retried starts with when the binding
/// holds `current`.
pub open spec fn started<S: Addressed>(
    handle: S,
    current: Option<MailboxRef<S::Content>>,
    envelope: S::Content,
    step: SendStep<S::Error, S::Content>,
) -> bool {
    match current {
        None => step matches SendStep::Done(Err(error)) && handle.not_running(error),
        Some(mailbox) => if mailbox.accepts(envelope.size()) {
            step == (SendStep::<S::Error, S::Content>::Deliver { mailbox, envelope })
        } else {
            step matches SendStep::Done(Err(error)) && handle.too_large_at(
                mailbox,
                envelope.size(),
                error,
            )
        },
    }
}

/// What an attempt to send `envelope` without waiting comes to when the binding
/// holds `current`: what the channel of that mailbox answers to the envelope.
pub open spec fn tried<S: Addressed>(
    handle: S,
    current: Option<MailboxRef<S::Content>>,
    envelope: S::Content,
    result: Result<(), S::Error>,
) -> bool {
    match current {
        None => result matches Err(error) && handle.not_running(error),
        Some(mailbox) => if mailbox.accepts(envelope.size()) {
            exists|outcome: Result<(), TrySendFailure<S::Content>>| #[trigger]
                responds(mailbox.outlet(), envelope, outcome) && match outcome {
                    Ok(()) => result is Ok,
                    Err(TrySendFailure::Full(_)) => result matches Err(error) && handle.full_at(
                        mailbox,
                        error,
                    ),
                    Err(TrySendFailure::Closed(_)) => result matches Err(error)
                        && handle.closed_at(mailbox, error),
                }
        } else {
            result matches Err(error) && handle.too_large_at(mailbox, envelope.size(), error)
        },
    }
}

/// Whether `handed` is what an attempt to send `envelope` without waiting hands to
/// channels when the binding holds `current`; `queued` says whether it went through.
pub open spec fn handed_on<M: Payload>(
    current: Option<MailboxRef<M>>,
    envelope: M,
    queued: bool,
    handed: Seq<Offer<M>>,
) -> bool {
    match current {
        None => !queued && handed == Seq::<Offer<M>>::empty(),
        Some(mailbox) => mailbox.hands_over(envelope, queued, handed),
    }
}

/// An attempt that goes through adds one message to the mailbox that the target has
/// at the moment, and none to any other; one that does not adds none at all. Nothing
/// but the envelope itself is handed to a channel, and that at most once.
pub proof fn attempts_deliver_once<M: Payload>(
    current: Option<MailboxRef<M>>,
    envelope: M,
    queued: bool,
    handed: Seq<Offer<M>>,
    channel: mpsc::Sender<M>,
)
    requires
        handed_on(current, envelope, queued, handed),
    ensures
        queued ==> current is Some,
        taken_by(handed, channel) == if queued && channel == current->Some_0.outlet() {
            1nat
        } else {
            0
        },
        handed.len() <= 1,
        forall|i: int| 0 <= i < handed.len() ==> (#[trigger] handed[i]).message == envelope,
{
    reveal(Seq::filter);
    let took = |offer: Offer<M>| offer.sender == channel && offer.outcome is Ok;
    if handed.len() > 0 {
        assert(handed.drop_last() =~= Seq::empty());
        assert(handed.drop_last().filter(took) =~= Seq::empty());
    }
}

/// What an attempt to send `envelope` comes to when the binding holds `current`.
pub open spec fn attempted<S: Addressed>(
    handle: S,
    current: Option<MailboxRef<S::Content>>,
    envelope: S::Content,
    step: SendStep<S::Error, S::Content>,
) -> bool {
    match current {
        None => step matches SendStep::AwaitBinding { envelope: kept, error } && kept == envelope
            && handle.not_running(error),
        Some(mailbox) => if mailbox.accepts(envelope.size()) {
            step == (SendStep::<S::Error, S::Content>::Deliver { mailbox, envelope })
        } else {
            step matches SendStep::Done(Err(error)) && handle.too_large(
                mailbox,
                envelope.size(),
                error,
            )
        },
    }
}

/// What can happen to a waiting send from outside.
#[verifier::reject_recursive_types(M)]
pub ghost enum SendEvent<M> {
    /// The mailbox took the envelope.
    Taken,
    /// The mailbox was closed and handed the envelope back.
    Returned,
    /// The binding holds this mailbox, or none, at the next attempt.
    Binding(Option<MailboxRef<M>>),
    /// The source of the binding is gone.
    SourceDropped,
}

/// Whether `event` can take a retried send of `handle` from `before` to `after`.
pub open spec fn send_advances<S: Addressed>(
    handle: S,
    before: SendStep<S::Error, S::Content>,
    event: SendEvent<S::Content>,
    after: SendStep<S::Error, S::Content>,
) -> bool {
    match (before, event) {
        (SendStep::Deliver { .. }, SendEvent::Taken) => after == SendStep::<S::Error, S::Content>::Done(Ok(())),
        (SendStep::Deliver { envelope, .. }, SendEvent::Returned) => after
            matches SendStep::AwaitBinding { envelope: kept, error } && kept == envelope
            && handle.closed(error),
        (SendStep::AwaitBinding { envelope, error }, SendEvent::SourceDropped) => after
            == SendStep::<S::Error, S::Content>::Done(Err(error)),
        (SendStep::AwaitBinding { envelope, .. }, SendEvent::Binding(current)) => attempted(
            handle,
            current,
            envelope,
            after,
        ),
        _ => false,
    }
}

/// Whether `steps` is a course of a retried send of `handle` under `events`.
pub open spec fn send_course<S: Addressed>(
    handle: S,
    events: Seq<SendEvent<S::Content>>,
    steps: Seq<SendStep<S::Error, S::Content>>,
) -> bool {
    &&& steps.len() == events.len() + 1
    &&& forall|i: int|
        0 <= i < events.len() ==> send_advances(handle, #[trigger] steps[i], events[i], steps[i + 1])
}

/// However often its target restarts, a retried send holds on to the envelope
/// that it was started with: as long as it is not over, that envelope is
/// pending.
pub proof fn retried_send_keeps_its_envelope<S: Addressed>(
    handle: S,
    envelope: S::Content,
    events: Seq<SendEvent<S::Content>>,
    steps: Seq<SendStep<S::Error, S::Content>>,
    at: int,
)
    requires
        send_course(handle, events, steps),
        steps[0].pending() == Some(envelope),
        0 <= at < steps.len(),
    ensures
        steps[at] is Done || steps[at].pending() == Some(envelope),
    decreases at,
{
    if at > 0 {
        retried_send_keeps_its_envelope(handle, envelope, events, steps, at - 1);
        assert(send_advances(handle, steps[at - 1], events[at - 1], steps[at]));
    }
}

/// A retried send that is over succeeded only if a mailbox took the envelope
/// last, and gave up only over the envelope's size or with the source of the
/// binding.
pub proof fn retried_send_ends_for_a_reason<S: Addressed>(
    handle: S,
    envelope: S::Content,
    events: Seq<SendEvent<S::Content>>,
    steps: Seq<SendStep<S::Error, S::Content>>,
)
    requires
        send_course(handle, events, steps),
        steps[0].pending() == Some(envelope),
        steps.last() is Done,
    ensures
        events.len() > 0,
        match events.last() {
            SendEvent::Taken => steps.last() == SendStep::<S::Error, S::Content>::Done(Ok(())),
            SendEvent::SourceDropped => steps.last() matches SendStep::Done(Err(_)),
            SendEvent::Binding(Some(mailbox)) => !mailbox.accepts(envelope.size()) && (
            steps.last() matches SendStep::Done(Err(error)) && handle.too_large(
                mailbox,
                envelope.size(),
                error,
            )),
            _ => false,
        },
{
    let n = events.len() as int;
    if n > 0 {
        retried_send_keeps_its_envelope(handle, envelope, events, steps, n - 1);
        assert(send_advances(handle, steps[n - 1], events[n - 1], steps[n]));
    }
}

/// A retried send follows its target: whenever the target is bound again to a
/// mailbox with room for the envelope, the next delivery goes to that mailbox,
/// with the envelope that the send was started with.
pub proof fn retried_send_follows_its_target<S: Addressed>(
    handle: S,
    envelope: S::Content,
    events: Seq<SendEvent<S::Content>>,
    steps: Seq<SendStep<S::Error, S::Content>>,
    at: int,
    mailbox: MailboxRef<S::Content>,
)
    requires
        send_course(handle, events, steps),
        steps[0].pending() == Some(envelope),
        0 <= at < events.len(),
        events[at] == SendEvent::Binding(Some(mailbox)),
        mailbox.accepts(envelope.size()),
    ensures
        steps[at + 1] == (SendStep::<S::Error, S::Content>::Deliver { mailbox, envelope }),
{
    retried_send_keeps_its_envelope(handle, envelope, events, steps, at);
    assert(send_advances(handle, steps[at], events[at], steps[at + 1]));
}

/// A mailbox takes what is within its limit, up to the last byte, and nothing beyond:
/// a send of what is within goes to that mailbox with what was to be sent, whichever
/// way it is sent, and a send of more is refused without getting near the channel. A
/// mailbox without a limit takes everything.
pub proof fn limits_are_kept<S: Addressed>(
    handle: S,
    mailbox: MailboxRef<S::Content>,
    envelope: S::Content,
    once: SendStep<S::Error, S::Content>,
    retried: SendStep<S::Error, S::Content>,
    queued: bool,
    handed: Seq<Offer<S::Content>>,
)
    requires
        started(handle, Some(mailbox), envelope, once),
        attempted(handle, Some(mailbox), envelope, retried),
        handed_on(Some(mailbox), envelope, queued, handed),
    ensures
        match mailbox.limit() {
            Some(max) => envelope.size() <= max,
            None => true,
        } ==> {
            &&& once == (SendStep::<S::Error, S::Content>::Deliver { mailbox, envelope })
            &&& retried == (SendStep::<S::Error, S::Content>::Deliver { mailbox, envelope })
            &&& handed.len() == 1
        },
        (mailbox.limit() matches Some(max) && envelope.size() > max) ==> {
            &&& once matches SendStep::Done(Err(error)) && handle.too_large_at(
                mailbox,
                envelope.size(),
                error,
            )
            &&& retried matches SendStep::Done(Err(error)) && handle.too_large(
                mailbox,
                envelope.size(),
                error,
            )
            &&& handed.len() == 0 && !queued
        },
{
}

/// Nothing is delivered while the target has no mailbox: a send that is not retried
/// is refused, a retried one keeps what it is to send and waits, and an attempt hands
/// nothing over.
pub proof fn nothing_is_sent_to_the_absent<S: Addressed>(
    handle: S,
    envelope: S::Content,
    once: SendStep<S::Error, S::Content>,
    retried: SendStep<S::Error, S::Content>,
    result: Result<(), S::Error>,
    handed: Seq<Offer<S::Content>>,
)
    requires
        started(handle, None, envelope, once),
        attempted(handle, None, envelope, retried),
        tried(handle, None, envelope, result),
        handed_on(None, envelope, result is Ok, handed),
    ensures
        once matches SendStep::Done(Err(error)) && handle.not_running(error),
        retried matches SendStep::AwaitBinding { envelope: kept, error } && kept == envelope
            && handle.not_running(error),
        result matches Err(error) && handle.not_running(error),
        handed.len() == 0,
{
}

} // verus!
