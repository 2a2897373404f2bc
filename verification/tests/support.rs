use tokio::sync::mpsc;
use tokio_otp::directory::{Directory, TaskNumber};
use tokio_otp::supervisor::event::NestedEventForwarder;
use tokio_otp::supervisor::handle::{
    ControlEndpoint, JoinState, NestedControlRegistry, NestedControlScope, SupervisorCommand,
    WaitPlan,
};
use tokio_otp::supervisor::runtime::exit::ExitStatus;
use tokio_otp::supervisor::runtime::intensity::RestartTracker;
use tokio_otp::supervisor::runtime::supervision::steps::Move;
use tokio_otp::supervisor::snapshot::{NestedSnapshotForwarder, NestedSnapshotState};
use tokio_otp::supervisor::supervisor::{
    map_nested_supervisor_result, NestedAction, NestedInput, NestedRun,
};
use tokio_otp::supervisor::{
    BackoffPolicy, BoxError, ChildSpec, ControlError, Restart, RestartIntensity, SupervisorBuilder,
    SupervisorError, SupervisorEvent, SupervisorExit,
};
use tokio_otp::text::{append_decimal, join};
use tokio_otp::time::Duration;

fn texts(names: &[&str]) -> Vec<String> {
    names.iter().map(|name| name.to_string()).collect()
}

#[test]
fn exponential_backoff_doubles_up_to_its_bound() {
    let backoff = BackoffPolicy::Exponential {
        base: Duration::from_millis(10),
        factor: 2,
        max: Duration::from_millis(50),
    };
    let delays: Vec<u128> =
        (0..5).map(|attempt| backoff.restart_delay(attempt, 0).as_nanos() / 1_000_000).collect();
    assert_eq!(delays, vec![10, 20, 40, 50, 50]);
    assert_eq!(backoff.restart_delay(100_000, 0), Duration::from_millis(50));
    assert_eq!(BackoffPolicy::Immediate.restart_delay(3, 7), Duration::zero());
    assert_eq!(
        BackoffPolicy::Fixed(Duration::from_secs(2)).restart_delay(3, 7),
        Duration::from_secs(2)
    );
}

#[test]
fn jitter_stays_in_the_upper_half() {
    let backoff = BackoffPolicy::JitteredExponential {
        base: Duration::from_nanos(10),
        factor: 2,
        max: Duration::from_nanos(100),
    };
    let delays: Vec<u128> =
        (0..7).map(|random| backoff.restart_delay(0, random).as_nanos()).collect();
    assert_eq!(delays, vec![5, 6, 7, 8, 9, 10, 5]);
    assert_eq!(backoff.restart_delay(1, 10).as_nanos(), 20);
}

#[test]
fn trackers_count_restarts_within_the_window() {
    let mut tracker = RestartTracker::new(
        RestartIntensity::new(2, Duration::from_secs(1))
            .with_backoff(BackoffPolicy::Fixed(Duration::from_millis(5))),
    );
    assert_eq!(tracker.record(Duration::zero(), 0), Some(Duration::from_millis(5)));
    assert_eq!(tracker.record(Duration::from_millis(500), 0), Some(Duration::from_millis(5)));
    assert_eq!(tracker.record(Duration::from_millis(900), 0), None);
    assert_eq!(tracker.record(Duration::from_secs(10), 0), Some(Duration::from_millis(5)));
}

#[test]
fn restart_policies_decide_by_outcome() {
    assert!(Restart::Permanent.should_restart(false));
    assert!(Restart::Permanent.should_restart(true));
    assert!(!Restart::Transient.should_restart(false));
    assert!(Restart::Transient.should_restart(true));
    assert!(!Restart::Temporary.should_restart(true));
    assert_eq!(Restart::default(), Restart::Transient);
    assert_eq!(
        RestartIntensity::default(),
        RestartIntensity::new(5, Duration::from_secs(30))
    );
}

#[test]
fn nested_events_have_a_path_and_a_leaf() {
    let leaf = SupervisorEvent::ChildStarted { id: "leaf".to_owned(), generation: 3 };
    let inner = NestedEventForwarder::new("inner".to_owned(), 1);
    let outer = NestedEventForwarder::new("outer".to_owned(), 2);
    let event = outer.forward_nested_event(inner.forward_nested_event(leaf));
    let path: Vec<(String, u64)> =
        event.path().into_iter().map(|segment| (segment.id, segment.generation)).collect();
    assert_eq!(path, vec![("outer".to_owned(), 2), ("inner".to_owned(), 1)]);
    assert!(matches!(
        event.leaf(),
        SupervisorEvent::ChildStarted { id, generation: 3 } if id == "leaf"
    ));
    assert!(SupervisorEvent::SupervisorStarted.path().is_empty());
}

#[test]
fn nested_snapshots_are_coalesced() {
    let supervisor = SupervisorBuilder::new()
        .child(ChildSpec::new("leaf".to_owned(), ()))
        .build()
        .expect("valid supervisor");
    let (sender, mut receiver) = mpsc::channel(1);
    let forwarder = NestedSnapshotForwarder::new(sender, 4, 5, 6);
    let mut state = NestedSnapshotState::default();
    assert!(state.latest().is_none());
    assert!(forwarder.forward(&mut state, supervisor.initial_snapshot()).is_none());
    assert!(forwarder.forward(&mut state, supervisor.initial_snapshot()).is_none());
    let notification = receiver.try_recv().expect("one notification");
    assert_eq!(
        (notification.parent_key, notification.parent_instance, notification.generation),
        (4, 5, 6)
    );
    assert!(receiver.try_recv().is_err());
    state.mark_dequeued();
    assert!(forwarder.forward(&mut state, supervisor.initial_snapshot()).is_none());
    state.mark_dequeued();
    let kept = forwarder.forward(&mut state, supervisor.initial_snapshot());
    assert_eq!(kept, Some(notification));
    drop(receiver);
    state.mark_dequeued();
    assert!(forwarder.forward(&mut state, supervisor.initial_snapshot()).is_none());
    assert!(state.try_queue());
    state.clear();
    assert!(state.latest().is_none());
}

#[test]
fn try_add_child_returns_busy_when_control_queue_is_full() {
    let (sender, mut receiver) = mpsc::channel(1);
    let endpoint = ControlEndpoint::new(sender);
    let child = |id: &str| SupervisorCommand::AddChild(ChildSpec::new(id.to_owned(), ()));
    assert_eq!(endpoint.try_send(child("queued")), Ok(()));

    let err = endpoint.try_send(child("busy")).expect_err("the queue is full");
    assert_eq!(err, ControlError::Busy);

    let queued = receiver.try_recv().expect("the first request waits");
    assert!(matches!(queued, SupervisorCommand::AddChild(spec) if spec.id() == "queued"));
    assert_eq!(endpoint.try_send(child("late")), Ok(()));
}

#[test]
fn control_plane_is_unavailable_after_supervisor_exit() {
    let done = ChildSpec::new("done".to_owned(), ()).restart(Restart::Temporary);
    let supervisor = SupervisorBuilder::new().child(done).build().expect("valid supervisor");
    let mut runtime = supervisor.runtime(Vec::new());
    let (sender, commands) = mpsc::channel(supervisor.control_channel_capacity());
    let endpoint = ControlEndpoint::new(sender);

    let plans = runtime.start(Duration::zero()).expect("the child starts");
    runtime
        .handle_exit(plans[0].task, ExitStatus::Completed, Duration::zero(), 0)
        .expect("the task is known");
    match runtime.next_move(Duration::zero()) {
        Move::Finish(exit) => {
            assert_eq!(exit, SupervisorExit::Completed);
            runtime.finish_with_exit(exit, Duration::zero());
        }
        other => panic!("unexpected move: {other:?}"),
    }
    drop(commands);

    let late = SupervisorCommand::AddChild(ChildSpec::new("late".to_owned(), ()));
    assert_eq!(endpoint.try_send(late), Err(ControlError::Unavailable));
    let removal = SupervisorCommand::RemoveChild("done".to_owned());
    assert_eq!(endpoint.clone().try_send(removal), Err(ControlError::Unavailable));
    assert_eq!(
        ControlEndpoint::<SupervisorCommand<()>>::answer(None),
        Err(ControlError::Unavailable)
    );
    assert_eq!(ControlEndpoint::<SupervisorCommand<()>>::answer(Some(Ok(()))), Ok(()));
}

#[test]
fn nested_supervisors_are_found_by_path() {
    let mut registry: NestedControlRegistry<u32> = NestedControlRegistry::default();
    let scope = NestedControlScope::new(texts(&["outer", "inner"]));
    scope.register(&mut registry, 7);
    assert_eq!(registry.get(&texts(&["outer", "inner"])), Some(&7));
    assert_eq!(
        registry.endpoint_for_relative_path(&texts(&["outer"]), &texts(&["inner"])),
        Ok(Some(&7))
    );
    assert_eq!(registry.endpoint_for_relative_path(&texts(&["outer"]), &texts(&[])), Ok(None));
    assert_eq!(
        registry.endpoint_for_path(&texts(&["outer"]), &texts(&["ghost", "leaf"])),
        Err(ControlError::UnknownChildId("outer.ghost.leaf".to_owned()))
    );
    scope.deregister(&mut registry);
    assert_eq!(registry.get(&scope.child_path()), None);
    assert_eq!(NestedControlScope::detached("lone".to_owned()).child_path(), texts(&["lone"]));
}

#[test]
fn the_first_to_wait_joins() {
    let mut state = JoinState::new();
    assert!(matches!(state.wait(None), WaitPlan::Join));
    assert!(matches!(state.wait(None), WaitPlan::Follow));
    assert!(matches!(
        state.wait(Some(Ok(SupervisorExit::Shutdown))),
        WaitPlan::Known(Ok(SupervisorExit::Shutdown))
    ));
    assert_eq!(
        JoinState::join_result(Err("gone".to_owned())),
        Err(SupervisorError::Internal("supervisor task failed to join: gone".to_owned()))
    );
    assert_eq!(
        JoinState::join_result(Ok(Ok(SupervisorExit::Completed))),
        Ok(SupervisorExit::Completed)
    );
    assert_eq!(
        JoinState::follow_result(None),
        Err(SupervisorError::Internal("supervisor completion channel closed".to_owned()))
    );
    assert_eq!(
        JoinState::follow_result(Some(None)),
        Err(SupervisorError::Internal("missing supervisor completion result".to_owned()))
    );
    assert_eq!(
        JoinState::follow_result(Some(Some(Ok(SupervisorExit::Failed)))),
        Ok(SupervisorExit::Failed)
    );
}

#[test]
fn nested_runs_pass_on_what_they_hear() {
    let mut run = NestedRun::new("inner".to_owned());
    assert!(run.awaits_cancellation());
    assert!(matches!(run.step(NestedInput::Cancelled), NestedAction::RequestShutdown));
    assert!(!run.awaits_cancellation());
    assert!(matches!(run.step(NestedInput::Cancelled), NestedAction::Wait));
    assert!(matches!(
        run.step(NestedInput::Event(SupervisorEvent::SupervisorStopping)),
        NestedAction::ForwardEvent(SupervisorEvent::SupervisorStopping)
    ));
    assert!(matches!(run.step(NestedInput::Lagged(3)), NestedAction::ReportLag(3)));
    match run.step(NestedInput::Finished(Ok(SupervisorExit::Failed))) {
        NestedAction::Return(Err(error)) => {
            assert_eq!(error.message(), "nested supervisor `inner` failed");
        }
        other => panic!("unexpected action: {other:?}"),
    }
    assert!(map_nested_supervisor_result("inner", Ok(SupervisorExit::Shutdown)).is_ok());
    let error = map_nested_supervisor_result(
        "inner",
        Err(SupervisorError::RestartIntensityExceeded),
    )
    .expect_err("the supervisor failed");
    assert_eq!(error, BoxError::Supervisor(SupervisorError::RestartIntensityExceeded));
    assert_eq!(error.message(), "restart intensity exceeded");
}

#[test]
fn directories_keep_the_order_of_their_names() {
    let mut directory: Directory<String, u32> = Directory::new();
    assert_eq!(directory.insert("b".to_owned(), 1), None);
    assert_eq!(directory.insert("a".to_owned(), 2), None);
    assert_eq!(directory.insert("b".to_owned(), 3), Some(1));
    assert_eq!(directory.len(), 2);
    assert_eq!(directory.key_at(0), "b");
    assert_eq!(*directory.value_at(0), 3);
    assert_eq!(directory.remove(&"b".to_owned()), Some(3));
    assert!(!directory.contains(&"b".to_owned()));
    assert_eq!(directory.duplicate().get(&"a".to_owned()), Some(&2));
    assert_eq!(directory.take_all(), vec![2]);
    let mut tasks: Directory<TaskNumber, &str> = Directory::new();
    tasks.insert(TaskNumber(9), "nine");
    assert_eq!(tasks.get(&TaskNumber(9)), Some(&"nine"));
}

#[test]
fn durations_saturate() {
    let longest = Duration::from_nanos(u128::MAX);
    assert_eq!(longest.saturating_add(Duration::from_secs(1)), longest);
    assert_eq!(Duration::zero().saturating_sub(longest), Duration::zero());
    assert_eq!(Duration::from_millis(1500).as_nanos(), 1_500_000_000);
    assert!(Duration::zero().is_zero());
    assert!(Duration::zero().is_shorter_than(Duration::from_millis(1)));
    assert_eq!(
        Duration::from_secs(1).max(Duration::from_secs(2)),
        Duration::from_secs(2)
    );
}

#[test]
fn texts_are_joined_and_numbered() {
    assert_eq!(join(&texts(&["a", "b", "c"]), ", "), "a, b, c");
    assert_eq!(join(&texts(&[]), ", "), "");
    let mut out = "n=".to_owned();
    append_decimal(&mut out, 0);
    append_decimal(&mut out, 18_446_744_073_709_551_615);
    assert_eq!(out, "n=018446744073709551615");
}
