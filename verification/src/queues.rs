//! Channels, from `tokio::sync`.
//!
//! A channel's contents are shared with other tasks and can change at any time,
//! so the contracts here say which channel was used, with what, and how the
//! answer is passed on; which answer it is is left unsaid.

use tokio::sync::{mpsc, watch};
use vstd::prelude::*;

use crate::actor::binding::MailboxRef;
use crate::actor::envelope::Envelope;

verus! {

/// `tokio::sync::mpsc::Sender`. A value stands for the channel that it feeds.
#[verifier::external_type_specification]
#[verifier::external_body]
#[verifier::reject_recursive_types(T)]
pub struct ExMpscSender<T>(mpsc::Sender<T>);

/// `tokio::sync::mpsc::Receiver`. A value stands for the channel that it drains.
#[verifier::external_type_specification]
#[verifier::external_body]
#[verifier::reject_recursive_types(T)]
pub struct ExMpscReceiver<T>(mpsc::Receiver<T>);

/// `tokio::sync::watch::Sender`. A value stands for the channel that it feeds.
#[verifier::external_type_specification]
#[verifier::external_body]
#[verifier::reject_recursive_types(T)]
pub struct ExWatchSender<T>(watch::Sender<T>);

/// `tokio::sync::watch::Receiver`. A value stands for the channel together with
/// the version that was seen last.
#[verifier::external_type_specification]
#[verifier::external_body]
#[verifier::reject_recursive_types(T)]
pub struct ExWatchReceiver<T>(watch::Receiver<T>);

/// The largest capacity that `mpsc::channel` accepts.
pub open spec fn max_capacity() -> int {
    usize::MAX as int / 8
}

/// The sender of the channel that a receiver drains.
pub uninterp spec fn fed_by(receiver: mpsc::Receiver<Envelope>) -> mpsc::Sender<Envelope>;

/// The number of messages that a sender's channel has room for, as it was made.
pub uninterp spec fn room_of(sender: mpsc::Sender<Envelope>) -> usize;

/// `mpsc::channel`: the two halves of an empty channel with room for `buffer`
/// messages. It panics without room and with more room than its semaphore can
/// count.
#[verifier::external_body]
pub(crate) fn mailbox_channel(buffer: usize) -> (r: (
    mpsc::Sender<Envelope>,
    mpsc::Receiver<Envelope>,
))
    requires
        0 < buffer <= max_capacity(),
    ensures
        fed_by(r.1) == r.0,
        room_of(r.0) == buffer,
{
    mpsc::channel(buffer)
}

/// `mpsc::Sender::clone`: another handle to the same channel.
pub assume_specification<T>[ <mpsc::Sender<T> as Clone>::clone ](
    sender: &mpsc::Sender<T>,
) -> (r: mpsc::Sender<T>)
    ensures
        r == *sender,
;

/// Why a message could not be queued at once. The message is handed back.
pub enum TrySendFailure<T> {
    /// The channel holds as many messages as it has room for.
    Full(T),
    /// The receiving half is gone or closed.
    Closed(T),
}

impl<T> TrySendFailure<T> {
    /// The message that was handed back.
    pub open spec fn message(self) -> T {
        match self {
            TrySendFailure::Full(message) => message,
            TrySendFailure::Closed(message) => message,
        }
    }
}

/// `mpsc::Sender::try_send`: queues `message`, or hands it back. Which of these
/// happens depends on the channel at the time of the call.
#[verifier::external_body]
fn try_send<T>(sender: &mpsc::Sender<T>, message: T) -> (r: Result<(), TrySendFailure<T>>)
    ensures
        r matches Err(failure) ==> failure.message() == message,
{
    sender.try_send(message).map_err(|failure| match failure {
        mpsc::error::TrySendError::Full(message) => TrySendFailure::Full(message),
        mpsc::error::TrySendError::Closed(message) => TrySendFailure::Closed(message),
    })
}

/// Whether `outcome` is what a channel can answer to `message`, which is to be
/// queued at once.
pub closed spec fn responds<T>(
    sender: mpsc::Sender<T>,
    message: T,
    outcome: Result<(), TrySendFailure<T>>,
) -> bool {
    call_ensures(try_send::<T>, (&sender, message), outcome)
}

/// A message that was not queued is handed back as it was.
pub proof fn refused_messages_come_back<T>(
    sender: mpsc::Sender<T>,
    message: T,
    outcome: Result<(), TrySendFailure<T>>,
)
    requires
        responds(sender, message, outcome),
    ensures
        outcome matches Err(failure) ==> failure.message() == message,
{
}

/// A message that was handed to a channel.
#[verifier::reject_recursive_types(T)]
pub ghost struct Offer<T> {
    /// The channel.
    pub sender: mpsc::Sender<T>,
    /// The message.
    pub message: T,
    /// What the channel answered.
    pub outcome: Result<(), TrySendFailure<T>>,
}

/// A record of what is handed to channels.
///
/// The view is everything that was handed over, in order.
#[verifier::reject_recursive_types(T)]
pub struct Ledger<T> {
    offers: Ghost<Seq<Offer<T>>>,
}

impl<T> View for Ledger<T> {
    type V = Seq<Offer<T>>;

    closed spec fn view(&self) -> Seq<Offer<T>> {
        self.offers@
    }
}

impl<T> Ledger<T> {
    /// A record without entries.
    pub fn new() -> (r: Self)
        ensures
            r@ == Seq::<Offer<T>>::empty(),
    {
        Ledger { offers: Ghost(Seq::empty()) }
    }
}

/// The number of messages in a record that a channel took.
pub open spec fn taken_by<T>(handed: Seq<Offer<T>>, sender: mpsc::Sender<T>) -> nat {
    handed.filter(|offer: Offer<T>| offer.sender == sender && offer.outcome is Ok).len()
}

/// Queues a message at once, or hands it back. Nothing else is handed to a channel
/// from here.
pub(crate) fn offer<T>(
    sender: &mpsc::Sender<T>,
    message: T,
    ledger: &mut Ledger<T>,
) -> (r: Result<(), TrySendFailure<T>>)
    ensures
        responds(*sender, message, r),
        r matches Err(failure) ==> failure.message() == message,
        final(ledger)@ == old(ledger)@.push(Offer { sender: *sender, message, outcome: r }),
{
    let ghost given = message;
    let outcome = try_send(sender, message);
    ledger.offers = Ghost(ledger@.push(Offer { sender: *sender, message: given, outcome }));
    outcome
}

/// `watch::channel`: a channel whose current value is `init`. That the halves
/// belong together is left unsaid.
pub assume_specification<T>[ watch::channel::<T> ](init: T) -> (watch::Sender<T>, watch::Receiver<T>);

/// Whether `sender` and `receiver` are the halves of a channel that was made with
/// `init` as its current value.
pub open spec fn opens<T>(init: T, sender: watch::Sender<T>, receiver: watch::Receiver<T>) -> bool {
    call_ensures(watch::channel::<T>, (init,), (sender, receiver))
}

/// Whether a channel was made with `init` as its current value.
pub open spec fn opened_with<T>(sender: watch::Sender<T>, init: T) -> bool {
    exists|receiver: watch::Receiver<T>| #[trigger] opens(init, sender, receiver)
}

/// `watch::Sender::send_replace`: makes `value` the current value and returns
/// the one before, of which nothing is known.
pub assume_specification<T>[ watch::Sender::<T>::send_replace ](
    sender: &watch::Sender<T>,
    value: T,
) -> T;

/// Whether `former` is what a channel can hand back for `value`, which takes its
/// place.
pub open spec fn gives_way<T>(sender: watch::Sender<T>, value: T, former: T) -> bool {
    call_ensures(watch::Sender::<T>::send_replace, (&sender, value), former)
}

/// `watch::Sender::clone`: another handle to the same channel.
pub assume_specification<T>[ <watch::Sender<T> as Clone>::clone ](
    sender: &watch::Sender<T>,
) -> (r: watch::Sender<T>)
    ensures
        r == *sender,
;

/// The sender of the channel that a receiver watches.
pub uninterp spec fn shown_by(receiver: watch::Receiver<Option<MailboxRef>>) -> watch::Sender<
    Option<MailboxRef>,
>;

/// `watch::Sender::subscribe`: a receiver that watches the sender's channel.
#[verifier::external_body]
pub(crate) fn subscribe(sender: &watch::Sender<Option<MailboxRef>>) -> (r: watch::Receiver<
    Option<MailboxRef>,
>)
    ensures
        shown_by(r) == *sender,
{
    sender.subscribe()
}

/// `watch::Receiver::clone`: a receiver for the same channel that has seen the
/// same version.
pub assume_specification<T>[ <watch::Receiver<T> as Clone>::clone ](
    receiver: &watch::Receiver<T>,
) -> (r: watch::Receiver<T>)
    ensures
        r == *receiver,
;

/// `watch::Receiver::borrow`, cloned: the current value at the time of the
/// call, of which nothing is known beforehand.
#[verifier::external_body]
fn current<T: Clone>(receiver: &watch::Receiver<T>) -> T {
    receiver.borrow().clone()
}

/// Whether `value` is what a receiver can show as the current value.
pub closed spec fn shows_now<T: Clone>(receiver: watch::Receiver<T>, value: T) -> bool {
    call_ensures(current::<T>, (&receiver,), value)
}

/// Reads the current value.
pub(crate) fn read<T: Clone>(receiver: &watch::Receiver<T>) -> (r: T)
    ensures
        shows_now(*receiver, r),
{
    current(receiver)
}

} // verus!
