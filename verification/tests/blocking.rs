use tokio_otp::actor::binding::MailboxBinding;
use tokio_otp::actor::blocking::{
    task_result, BlockingContext, BlockingHandle, BlockingOperationError, BlockingRuntime,
    BlockingTaskError, ClosureOutcome, SharedError, SpawnBlockingError,
};
use tokio_otp::actor::blocking_finish::{FinishEvent, FinishStep};
use tokio_otp::actor::{ActorRef, BlockingOptions, BoxError};
use tokio_otp::time::Duration;
use tokio_util::sync::CancellationToken;

fn failure(text: &str) -> Result<(), BlockingTaskError> {
    Err(BlockingTaskError::Failed(SharedError::from(BoxError::Message(text.to_owned()))))
}

fn spawn(blocking: &mut BlockingRuntime) -> BlockingHandle {
    blocking.spawn_blocking(false, BlockingOptions::default()).expect("task is taken on")
}

#[test]
fn the_limit_on_running_tasks_holds() {
    let mut blocking = BlockingRuntime::new("worker".to_owned(), Some(2));
    let first = spawn(&mut blocking);
    let second = spawn(&mut blocking);
    assert_eq!(blocking.running_count(), 2);
    let refused = blocking
        .spawn_blocking(false, BlockingOptions::default())
        .expect_err("there are two already");
    assert_eq!(
        refused,
        SpawnBlockingError::LimitReached { actor_id: "worker".to_owned(), limit: 2 }
    );
    assert!(blocking.completed(first.id(), Ok(())).is_none());
    let third = spawn(&mut blocking);
    assert_ne!(third.id(), second.id());
    assert_eq!(blocking.issued_ids(), 3);
}

#[test]
fn work_is_turned_away_during_shutdown() {
    let mut blocking = BlockingRuntime::new("worker".to_owned(), None);
    let refused = blocking
        .spawn_blocking(true, BlockingOptions::default())
        .expect_err("the actor is shutting down");
    assert_eq!(refused, SpawnBlockingError::ShuttingDown { actor_id: "worker".to_owned() });
    assert_eq!(refused.message(), "actor `worker` is shutting down");
    blocking.close_and_take_all();
    assert!(blocking.spawn_blocking(false, BlockingOptions::default()).is_err());
}

#[test]
fn awaited_failures_are_left_to_those_who_wait() {
    let mut blocking = BlockingRuntime::new("worker".to_owned(), None);
    let handle = spawn(&mut blocking);
    blocking.handle_awaited(handle.id());
    assert!(blocking.completed(handle.id(), failure("boom")).is_none());
    assert!(blocking.handle_dropped(handle.id()).is_none());
    assert_eq!(
        BlockingHandle::wait_result(Some(failure("boom"))),
        failure("boom")
    );
    assert_eq!(BlockingHandle::wait_result(None), Err(BlockingTaskError::Unavailable));
}

#[test]
fn failures_of_held_handles_wait_for_the_handle() {
    let mut blocking = BlockingRuntime::new("worker".to_owned(), None);
    let handle = blocking
        .spawn_blocking(false, BlockingOptions::named("job".to_owned()))
        .expect("task is taken on");
    assert_eq!(handle.name(), Some("job"));
    assert!(blocking.completed(handle.id(), failure("boom")).is_none());
    let failure = blocking.handle_dropped(handle.id()).expect("nobody waited");
    assert_eq!(failure.task_id(), handle.id());
    assert_eq!(failure.task_name(), Some("job"));
    assert!(matches!(failure.error(), BlockingTaskError::Failed(_)));
}

#[test]
fn cancellation_is_no_failure() {
    let mut blocking = BlockingRuntime::new("worker".to_owned(), None);
    let handle = spawn(&mut blocking);
    blocking.handle_dropped(handle.id());
    let cancelled =
        task_result(ClosureOutcome::Returned(Err(BlockingOperationError::Cancelled)));
    assert_eq!(cancelled, Err(BlockingTaskError::Cancelled));
    assert!(blocking.completed(handle.id(), cancelled).is_none());
}

#[test]
fn tasks_left_at_shutdown_are_settled() {
    let mut blocking = BlockingRuntime::new("worker".to_owned(), None);
    let dropped = spawn(&mut blocking);
    let held = spawn(&mut blocking);
    let lost = spawn(&mut blocking);
    blocking.handle_dropped(dropped.id());
    let left = blocking.close_and_take_all();
    let ids: Vec<_> = left.iter().map(|entry| entry.id()).collect();
    assert_eq!(ids, vec![dropped.id(), held.id(), lost.id()]);
    assert!(held.token().is_cancelled());
    let mut results = vec![Some(failure("boom")), Some(failure("boom")), None].into_iter();
    let mut settled = Vec::new();
    for entry in left {
        settled.push(entry.settle(results.next().expect("one result each")));
    }
    assert!(settled[0].is_some());
    assert!(settled[1].is_none());
    assert!(matches!(
        settled[2].as_ref().expect("the result is lost").error(),
        BlockingTaskError::Unavailable
    ));
    let first = BlockingRuntime::first_failure(None, settled.remove(0));
    let result = BlockingRuntime::finish(Ok(()), first);
    assert!(matches!(result, Err(BoxError::BlockingTask(_))));
    let own = BlockingRuntime::finish(Err(BoxError::Message("own".to_owned())), None);
    assert_eq!(own, Err(BoxError::Message("own".to_owned())));
}

#[test]
fn shutdown_waits_no_longer_than_its_timeout() {
    let mut blocking = BlockingRuntime::new("worker".to_owned(), None);
    let stuck = spawn(&mut blocking);
    let late = spawn(&mut blocking);
    let ended = spawn(&mut blocking);
    for handle in [&stuck, &late] {
        assert!(blocking.handle_dropped(handle.id()).is_none());
    }
    assert!(blocking.completed(ended.id(), failure("held")).is_none());
    let timeout = Duration::from_secs(5);
    let finish = match blocking.begin_finish(Ok(()), None, Duration::from_secs(1), timeout) {
        FinishStep::AwaitTask { finish, task, deadline } => {
            assert_eq!(task, stuck.id());
            assert_eq!(deadline, Duration::from_secs(6));
            finish
        }
        other => panic!("unexpected step: {other:?}"),
    };
    assert!(stuck.token().is_cancelled() && late.token().is_cancelled());
    assert!(matches!(
        blocking.spawn_blocking(false, BlockingOptions::default()),
        Err(SpawnBlockingError::ShuttingDown { .. })
    ));
    let finish = match finish.advance(FinishEvent::TimedOut, Duration::from_secs(6)) {
        FinishStep::CheckTask { finish, task } => {
            assert_eq!(task, late.id());
            finish
        }
        other => panic!("unexpected step: {other:?}"),
    };
    let joined = FinishEvent::Joined(Some(failure("boom")));
    match finish.advance(joined, Duration::from_secs(6)) {
        FinishStep::Done(Err(BoxError::BlockingTask(failure))) => {
            assert_eq!(failure.task_id(), late.id());
        }
        other => panic!("unexpected step: {other:?}"),
    }
}

#[test]
fn an_actors_own_error_goes_before_failures_of_its_tasks() {
    let mut blocking = BlockingRuntime::new("worker".to_owned(), None);
    let handle = spawn(&mut blocking);
    blocking.handle_dropped(handle.id());
    let own = || Err(BoxError::Message("own".to_owned()));
    let step = blocking.begin_finish(own(), None, Duration::zero(), Duration::from_secs(5));
    let finish = match step {
        FinishStep::AwaitTask { finish, .. } => finish,
        other => panic!("unexpected step: {other:?}"),
    };
    match finish.advance(FinishEvent::Joined(None), Duration::zero()) {
        FinishStep::Done(result) => assert_eq!(result, own()),
        other => panic!("unexpected step: {other:?}"),
    }
}

#[test]
fn a_failure_whose_handle_is_dropped_as_the_actor_returns_fails_the_actor() {
    let mut blocking = BlockingRuntime::new("worker".to_owned(), None);
    let handle = spawn(&mut blocking);
    let later = spawn(&mut blocking);
    assert!(blocking.completed(handle.id(), failure("boom")).is_none());
    assert!(blocking.handle_dropped(later.id()).is_none());
    let known = blocking.handle_dropped(handle.id());
    assert_eq!(known.as_ref().expect("the failure is the actor's").task_id(), handle.id());
    let step = blocking.begin_finish(Ok(()), known, Duration::zero(), Duration::from_secs(5));
    let finish = match step {
        FinishStep::AwaitTask { finish, task, .. } => {
            assert_eq!(task, later.id());
            finish
        }
        other => panic!("unexpected step: {other:?}"),
    };
    match finish.advance(FinishEvent::Joined(Some(failure("late"))), Duration::zero()) {
        FinishStep::Done(Err(BoxError::BlockingTask(failure))) => {
            assert_eq!(failure.task_id(), handle.id());
        }
        other => panic!("unexpected step: {other:?}"),
    }
}

#[test]
fn tasks_are_taken_off_the_books_once() {
    let mut blocking = BlockingRuntime::new("worker".to_owned(), None);
    let handle = spawn(&mut blocking);
    assert!(blocking.take_task(handle.id()).is_some());
    assert!(blocking.take_task(handle.id()).is_none());
    assert_eq!(blocking.running_count(), 0);
}

#[test]
fn outcomes_of_closures_become_results() {
    assert_eq!(task_result(ClosureOutcome::Returned(Ok(()))), Ok(()));
    assert_eq!(task_result(ClosureOutcome::Panicked), Err(BlockingTaskError::Panicked));
    let failed = task_result(ClosureOutcome::Returned(Err(BlockingOperationError::from(
        BoxError::Message("boom".to_owned()),
    ))));
    match failed {
        Err(BlockingTaskError::Failed(shared)) => assert_eq!(shared.message(), "boom"),
        other => panic!("unexpected result: {other:?}"),
    }
    let rejected =
        BlockingTaskError::from(SpawnBlockingError::ShuttingDown { actor_id: "a".to_owned() });
    assert_eq!(rejected.message(), "actor `a` is shutting down");
}

#[test]
fn checkpoints_observe_cancellation() {
    let binding = MailboxBinding::default();
    let myself = ActorRef::from_binding("worker".to_owned(), binding.subscribe(), None);
    let shutdown = CancellationToken::new();
    let cancel = CancellationToken::new();
    let context = BlockingContext::new(myself, shutdown.clone(), cancel.clone());
    assert!(context.checkpoint().is_ok());
    cancel.cancel();
    assert!(context.is_cancelled());
    assert_eq!(context.checkpoint(), Err(BlockingOperationError::Cancelled));
    assert!(!shutdown.is_cancelled());
    assert_eq!(BlockingContext::checkpoint_when(false), Ok(()));
    assert_eq!(context.myself().id(), "worker");
}
