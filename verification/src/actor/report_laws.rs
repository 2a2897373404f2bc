//! What senders, and those who run actors, are told.

use vstd::prelude::*;

use crate::actor::actor_set::{
    ActorJoin, ActorRunEnd, ActorRunError, ActorRunReport, RunnableActor,
};
use crate::actor::binding::MailboxRef;
use crate::actor::context::ActorRef;
use crate::actor::delivery::{send_advances, tried, SendEvent, SendStep};
use crate::actor::envelope::Payload;
use crate::actor::error::{IngressError, SendError};
use crate::actor::ingress::IngressHandle;
use crate::queues::{responds, TrySendFailure};

verus! {

/// Whoever sends to an actor is told why a send that does not wait did not go through: the target does not
/// run; the envelope is over the limit, by how much; the mailbox is full; or it is closed.
/// Each is said exactly if it is so, and of the right actor.
pub proof fn senders_are_told_why<M: Payload>(
    sender: ActorRef<M>,
    current: Option<MailboxRef<M>>,
    envelope: M,
    result: Result<(), SendError>,
)
    requires
        tried(sender, current, envelope, result),
    ensures
        match current {
            None => result matches Err(SendError::ActorNotRunning { actor_id }) && actor_id@ == sender.target(),
            Some(mailbox) => match mailbox.limit() {
                Some(max) if envelope.size() > max => result matches Err(
                    SendError::EnvelopeTooLarge { actor_id, envelope_len, max_envelope_bytes },
                ) && actor_id@ == mailbox.actor() && envelope_len == envelope.size() && max_envelope_bytes == max,
                _ => exists|outcome: Result<(), TrySendFailure<M>>| #[trigger]
                    responds(mailbox.outlet(), envelope, outcome) && match outcome {
                        Ok(()) => result is Ok,
                        Err(failure) => if failure is Full {
                            result matches Err(SendError::MailboxFull { actor_id }) && actor_id@ == mailbox.actor()
                        } else {
                            result matches Err(SendError::MailboxClosed { actor_id }) && actor_id@ == mailbox.actor()
                        },
                    },
            },
        },
{
}

/// Whoever sends through an ingress point is told why a send that does not wait did not go through: the target does not
/// run; the envelope is over the limit, by how much; the mailbox is full; or it is closed.
/// Each is said exactly if it is so, and of the right ingress point and actor.
pub proof fn outsiders_are_told_why<M: Payload>(
    handle: IngressHandle<M>,
    current: Option<MailboxRef<M>>,
    envelope: M,
    result: Result<(), IngressError>,
)
    requires
        tried(handle, current, envelope, result),
    ensures
        match current {
            None => result matches Err(IngressError::NotRunning { ingress, actor_id }) && ingress@ == handle.ingress_name() && actor_id@
                == handle.actor(),
            Some(mailbox) => match mailbox.limit() {
                Some(max) if envelope.size() > max => result matches Err(
                    IngressError::EnvelopeTooLarge { ingress, actor_id, envelope_len, max_envelope_bytes },
                ) && ingress@ == handle.ingress_name() && actor_id@ == handle.actor() && envelope_len == envelope.size() && max_envelope_bytes == max,
                _ => exists|outcome: Result<(), TrySendFailure<M>>| #[trigger]
                    responds(mailbox.outlet(), envelope, outcome) && match outcome {
                        Ok(()) => result is Ok,
                        Err(failure) => if failure is Full {
                            result matches Err(IngressError::MailboxFull { ingress, actor_id }) && ingress@ == handle.ingress_name() && actor_id@ == handle.actor()
                        } else {
                            result matches Err(IngressError::MailboxClosed { ingress, actor_id }) && ingress@ == handle.ingress_name() && actor_id@ == handle.actor()
                        },
                    },
            },
        },
{
}

/// A retried send whose mailbox closes waits with the envelope for the next, and if there is
/// none, because the target is gone for good, reports that the mailbox is closed.
pub proof fn senders_learn_of_targets_that_are_gone<M: Payload>(
    sender: ActorRef<M>,
    mailbox: MailboxRef<M>,
    envelope: M,
    waiting: SendStep<SendError, M>,
    over: SendStep<SendError, M>,
)
    requires
        send_advances(sender, SendStep::Deliver { mailbox, envelope }, SendEvent::Returned, waiting),
        send_advances(sender, waiting, SendEvent::SourceDropped, over),
    ensures
        waiting matches SendStep::AwaitBinding { envelope: kept, .. } && kept == envelope,
        over matches SendStep::Done(Err(SendError::MailboxClosed { actor_id })) && actor_id@ == sender.target(),
{
}

/// A retried send whose mailbox closes waits with the envelope for the next, and if there is
/// none, because the target is gone for good, reports that the mailbox is closed.
pub proof fn outsiders_learn_of_targets_that_are_gone<M: Payload>(
    handle: IngressHandle<M>,
    mailbox: MailboxRef<M>,
    envelope: M,
    waiting: SendStep<IngressError, M>,
    over: SendStep<IngressError, M>,
)
    requires
        send_advances(handle, SendStep::Deliver { mailbox, envelope }, SendEvent::Returned, waiting),
        send_advances(handle, waiting, SendEvent::SourceDropped, over),
    ensures
        waiting matches SendStep::AwaitBinding { envelope: kept, .. } && kept == envelope,
        over matches SendStep::Done(Err(IngressError::MailboxClosed { ingress, actor_id })) && ingress@ == handle.ingress_name()
            && actor_id@ == handle.actor(),
{
}

/// A run of an actor ends as its task did: a clean end is a shutdown if the actor had been
/// asked to stop and a stop if not, and no error either way; an error fails the run under
/// the actor's id, with that error; a panic stays one; and a task that was cancelled fails
/// the run.
pub proof fn runs_end_as_the_task_did<F>(
    actor: RunnableActor<F>,
    joined: ActorJoin,
    shutting_down: bool,
    report: ActorRunReport,
)
    requires
        actor.ends_with(joined, shutting_down, report),
    ensures
        match joined {
            ActorJoin::Returned(Ok(())) => {
                &&& report.status is Shutdown <==> shutting_down
                &&& report.status is Stopped <==> !shutting_down
                &&& report.error is None
                &&& report.end matches ActorRunEnd::Finished(Ok(()))
            },
            ActorJoin::Returned(Err(cause)) => {
                &&& report.status is Failed
                &&& report.error is Some
                &&& report.end matches ActorRunEnd::Finished(
                    Err(ActorRunError::Failed { actor_id, source }),
                ) && actor_id@ == actor.name() && source == cause
            },
            ActorJoin::Panicked => report.status is Panicked && report.error is None && report.end
                is Panicked,
            ActorJoin::Cancelled => {
                &&& report.status is Cancelled
                &&& report.error is Some
                &&& report.end matches ActorRunEnd::Finished(
                    Err(ActorRunError::Failed { actor_id, .. }),
                ) && actor_id@ == actor.name()
            },
        },
{
}

} // verus!
