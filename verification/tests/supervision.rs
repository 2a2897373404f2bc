use tokio_otp::supervisor::runtime::exit::ExitStatus;
use tokio_otp::supervisor::runtime::supervision::membership::Removal;
use tokio_otp::supervisor::runtime::supervision::restarts::RestartPlan;
use tokio_otp::supervisor::runtime::supervision::shutdown::{DrainReason, DrainStep};
use tokio_otp::supervisor::runtime::supervision::spawn::SpawnPlan;
use tokio_otp::supervisor::runtime::supervision::steps::{Move, Reaction, RemovalStep};
use tokio_otp::supervisor::runtime::supervision::stop::{StopCause, StopStep};
use tokio_otp::supervisor::runtime::supervision::SupervisorRuntime;
use tokio_otp::supervisor::snapshot::NestedSnapshotNotification;
use tokio_otp::supervisor::{
    BackoffPolicy, BoxError, ChildMembershipView, ChildSpec, ChildStateView, ControlError,
    ExitStatusView, Restart, RestartIntensity, ShutdownPolicy, Strategy, SupervisorBuilder,
    SupervisorError, SupervisorEvent, SupervisorExit, SupervisorSnapshot, SupervisorStateView,
};
use tokio_otp::time::Duration;

fn child(id: &str) -> ChildSpec<()> {
    ChildSpec::new(id.to_owned(), ())
}

fn ms(millis: u64) -> Duration {
    Duration::from_millis(millis)
}

fn failed(message: &str) -> ExitStatus {
    ExitStatus::Failed(BoxError::new(message.to_owned()))
}

/// Stands in for the tasks of a supervisor.
struct Driver {
    runtime: SupervisorRuntime,
    now: Duration,
    live: Vec<SpawnPlan>,
    events: Vec<SupervisorEvent>,
    snapshots: Vec<SupervisorSnapshot>,
    starts: Vec<(String, u64)>,
}

impl Driver {
    fn start(builder: SupervisorBuilder<()>) -> Driver {
        let supervisor = builder.build().expect("valid supervisor");
        let mut driver = Driver {
            runtime: supervisor.runtime(Vec::new()),
            now: Duration::zero(),
            live: Vec::new(),
            events: Vec::new(),
            snapshots: Vec::new(),
            starts: Vec::new(),
        };
        let plans = driver.runtime.start(driver.now).expect("children start");
        driver.took(plans);
        driver
    }

    fn took(&mut self, plans: Vec<SpawnPlan>) {
        for plan in plans {
            self.starts.push((plan.context.id.clone(), plan.generation));
            self.live.push(plan);
        }
        self.publish();
    }

    fn publish(&mut self) {
        for publication in self.runtime.take_publications() {
            self.events.push(publication.event);
            self.snapshots.push(publication.snapshot);
        }
    }

    fn take(&mut self, id: &str) -> SpawnPlan {
        let at = self.live.iter().position(|plan| plan.context.id == id).expect("task is live");
        self.live.remove(at)
    }

    fn exit(&mut self, id: &str, status: ExitStatus) -> Reaction {
        let plan = self.take(id);
        let reaction =
            self.runtime.handle_exit(plan.task, status, self.now, 0).expect("task is known");
        self.publish();
        reaction
    }

    /// Does what is due, until there is nothing left to do but wait.
    fn settle(&mut self) -> Move {
        loop {
            match self.runtime.next_move(self.now) {
                Move::Restart(keys) => {
                    for key in keys {
                        let plan = self.runtime.restart_child(key, self.now).expect("restarts");
                        self.took(vec![plan]);
                    }
                }
                Move::RestartGroup => {
                    self.runtime.begin_group_restart();
                    self.drain(DrainReason::GroupRestart).expect("group stops");
                    let plans = self.runtime.respawn_group(self.now).expect("group restarts");
                    self.took(plans);
                }
                other => return other,
            }
        }
    }

    /// Lets every task stop as soon as it is asked to.
    fn drain(&mut self, reason: DrainReason) -> Result<(), SupervisorError> {
        let (mut drain, mut step) = self.runtime.begin_drain(reason);
        loop {
            match step {
                DrainStep::Done(result) => {
                    self.publish();
                    return result;
                }
                DrainStep::Abort(_) | DrainStep::AwaitExit(_) => {
                    while let Some(plan) = self.live.pop() {
                        self.runtime
                            .record_exit(plan.task, ExitStatus::Completed, self.now)
                            .expect("task is known");
                    }
                }
            }
            let next = self.runtime.advance_drain(drain, self.now);
            drain = next.0;
            step = next.1;
        }
    }

    fn stop(&mut self, cause: StopCause) -> Result<SupervisorExit, SupervisorError> {
        let (mut stop, mut step) = self.runtime.begin_stop(cause, self.now);
        loop {
            match step {
                StopStep::Done(result) => {
                    self.publish();
                    return result;
                }
                StopStep::Abort(_) | StopStep::AwaitExit(_) => {
                    while let Some(plan) = self.live.pop() {
                        self.runtime
                            .record_exit(plan.task, ExitStatus::Completed, self.now)
                            .expect("task is known");
                    }
                }
            }
            let next = self.runtime.advance_stop(stop, self.now);
            stop = next.0;
            step = next.1;
        }
    }

    fn shutdown(&mut self) -> SupervisorExit {
        self.stop(StopCause::Requested).expect("shutdown should succeed")
    }

    fn snapshot(&self) -> SupervisorSnapshot {
        self.runtime.snapshot(self.now)
    }

    fn starts_of(&self, id: &str) -> Vec<u64> {
        self.starts.iter().filter(|start| start.0 == id).map(|start| start.1).collect()
    }
}

fn child_ids(snapshot: &SupervisorSnapshot) -> Vec<&str> {
    snapshot.children.iter().map(|child| child.id.as_str()).collect()
}

#[test]
fn failed_transient_child_restarts_and_sibling_keeps_running() {
    let mut driver = Driver::start(
        SupervisorBuilder::new()
            .strategy(Strategy::OneForOne)
            .child(child("flaky").restart(Restart::Transient))
            .child(child("sibling")),
    );
    driver.exit("flaky", failed("boom"));
    driver.settle();

    assert_eq!(driver.starts_of("flaky"), vec![0, 1]);
    assert_eq!(driver.starts_of("sibling"), vec![0]);
    assert_eq!(
        driver.snapshot().child("sibling").expect("sibling exists").state,
        ChildStateView::Running
    );
    assert_eq!(driver.shutdown(), SupervisorExit::Shutdown);
}

#[test]
fn permanent_child_restarts_after_completion() {
    let mut driver = Driver::start(
        SupervisorBuilder::new().child(child("permanent").restart(Restart::Permanent)),
    );
    driver.exit("permanent", ExitStatus::Completed);
    driver.settle();

    assert_eq!(driver.starts_of("permanent"), vec![0, 1]);
    assert_eq!(driver.shutdown(), SupervisorExit::Shutdown);
}

#[test]
fn temporary_child_does_not_restart() {
    let mut driver = Driver::start(
        SupervisorBuilder::new().child(child("temporary").restart(Restart::Temporary)),
    );
    let reaction = driver.exit("temporary", failed("no restart"));
    assert!(matches!(reaction, Reaction::Decided(_, RestartPlan::NotRestarted)));
    assert!(matches!(driver.settle(), Move::Finish(SupervisorExit::Failed)));
    assert_eq!(driver.starts_of("temporary"), vec![0]);
}

#[test]
fn transient_child_completion_is_final() {
    let mut driver = Driver::start(SupervisorBuilder::new().child(child("worker")));
    driver.exit("worker", ExitStatus::Completed);
    assert!(matches!(driver.settle(), Move::Finish(SupervisorExit::Completed)));
}

#[test]
fn child_restart_intensity_is_isolated_per_child() {
    let child_restart_intensity = RestartIntensity {
        max_restarts: 1,
        within: Duration::from_secs(1),
        backoff: BackoffPolicy::Immediate,
    };
    let mut driver = Driver::start(
        SupervisorBuilder::new()
            .strategy(Strategy::OneForOne)
            .restart_intensity(RestartIntensity {
                max_restarts: 0,
                within: Duration::from_secs(1),
                backoff: BackoffPolicy::Immediate,
            })
            .child(
                child("child-a")
                    .restart(Restart::Transient)
                    .restart_intensity(child_restart_intensity),
            )
            .child(
                child("child-b")
                    .restart(Restart::Transient)
                    .restart_intensity(child_restart_intensity),
            ),
    );
    driver.exit("child-a", failed("boom-a"));
    driver.exit("child-b", failed("boom-b"));
    driver.settle();

    assert_eq!(driver.starts_of("child-a"), vec![0, 1]);
    assert_eq!(driver.starts_of("child-b"), vec![0, 1]);
    assert_eq!(driver.shutdown(), SupervisorExit::Shutdown);
}

#[test]
fn restart_events_follow_exit_schedule_start_restart_order() {
    let mut driver = Driver::start(
        SupervisorBuilder::new()
            .restart_intensity(RestartIntensity {
                max_restarts: 2,
                within: Duration::from_secs(1),
                backoff: BackoffPolicy::Fixed(ms(40)),
            })
            .child(child("flaky").restart(Restart::Transient)),
    );
    driver.events.clear();
    driver.exit("flaky", failed("boom"));
    match driver.settle() {
        Move::Wait(Some(deadline)) => assert_eq!(deadline, ms(40)),
        other => panic!("unexpected move: {other:?}"),
    }
    driver.now = ms(40);
    driver.settle();

    assert_eq!(
        driver.events,
        vec![
            SupervisorEvent::ChildExited {
                id: "flaky".to_owned(),
                generation: 0,
                status: ExitStatusView::Failed("boom".to_owned()),
            },
            SupervisorEvent::ChildRestartScheduled {
                id: "flaky".to_owned(),
                generation: 0,
                delay: ms(40),
            },
            SupervisorEvent::ChildStarted { id: "flaky".to_owned(), generation: 1 },
            SupervisorEvent::ChildRestarted {
                id: "flaky".to_owned(),
                old_generation: 0,
                new_generation: 1,
            },
        ]
    );
    assert_eq!(driver.shutdown(), SupervisorExit::Shutdown);
}

#[test]
fn transient_child_panic_causes_restart() {
    let mut driver = Driver::start(
        SupervisorBuilder::new().child(child("panic-worker").restart(Restart::Transient)),
    );
    driver.exit("panic-worker", ExitStatus::Panicked);
    driver.settle();

    assert_eq!(driver.starts_of("panic-worker"), vec![0, 1]);
    assert_eq!(driver.shutdown(), SupervisorExit::Shutdown);
}

#[test]
fn one_for_all_panic_restarts_the_whole_group() {
    let mut driver = Driver::start(
        SupervisorBuilder::new()
            .strategy(Strategy::OneForAll)
            .child(child("panic-worker").restart(Restart::Transient))
            .child(child("peer").restart(Restart::Permanent)),
    );
    driver.exit("panic-worker", ExitStatus::Panicked);
    driver.settle();

    assert_eq!(driver.starts_of("panic-worker"), vec![0, 1]);
    assert_eq!(driver.starts_of("peer"), vec![0, 1]);
    assert_eq!(driver.shutdown(), SupervisorExit::Shutdown);
}

#[test]
fn temporary_children_are_drained_with_the_group_but_not_respawned() {
    let mut driver = Driver::start(
        SupervisorBuilder::new()
            .strategy(Strategy::OneForAll)
            .child(child("worker"))
            .child(child("once").restart(Restart::Temporary)),
    );
    driver.exit("worker", failed("boom"));
    driver.settle();

    assert_eq!(driver.starts_of("worker"), vec![0, 1]);
    assert_eq!(driver.starts_of("once"), vec![0]);
    assert_eq!(
        driver.snapshot().child("once").expect("child remains visible").state,
        ChildStateView::Stopped
    );
}

#[test]
fn exceeded_intensity_is_reported() {
    let mut driver = Driver::start(
        SupervisorBuilder::new()
            .restart_intensity(RestartIntensity::new(1, Duration::from_secs(1)))
            .child(child("flaky")),
    );
    let first = driver.exit("flaky", failed("boom"));
    assert!(matches!(first, Reaction::Decided(_, RestartPlan::Scheduled(_))));
    driver.settle();
    let second = driver.exit("flaky", failed("boom"));
    assert!(matches!(second, Reaction::Decided(_, RestartPlan::IntensityExceeded)));
    assert_eq!(driver.events.last(), Some(&SupervisorEvent::RestartIntensityExceeded));
}

#[test]
fn restarts_outside_the_window_do_not_count() {
    let mut driver = Driver::start(
        SupervisorBuilder::new()
            .restart_intensity(RestartIntensity::new(1, Duration::from_secs(1)))
            .child(child("flaky")),
    );
    driver.exit("flaky", failed("boom"));
    driver.settle();
    driver.now = Duration::from_secs(3);
    let second = driver.exit("flaky", failed("boom"));
    assert!(matches!(second, Reaction::Decided(_, RestartPlan::Scheduled(_))));
}

#[test]
fn shutdown_wins_over_pending_restarts() {
    let mut driver = Driver::start(SupervisorBuilder::new().child(child("flaky")));
    driver.exit("flaky", failed("boom"));
    driver.runtime.begin_shutdown(driver.now);
    assert!(driver.runtime.due_children(Duration::from_secs(60)).is_empty());
    assert!(!driver.runtime.group_restart_due(Duration::from_secs(60)));
    driver.drain(DrainReason::Shutdown).expect("nothing is left to drain");
    assert_eq!(driver.starts_of("flaky"), vec![0]);
}

#[test]
fn add_child_starts_it_immediately() {
    let mut driver = Driver::start(SupervisorBuilder::new().child(child("seed")));
    let key = driver
        .runtime
        .add_child(child("dynamic").inner().clone())
        .expect("dynamic child should be accepted");
    let plan = driver.runtime.spawn_child(key, driver.now).expect("child starts");
    driver.took(vec![plan]);

    assert_eq!(driver.starts_of("dynamic"), vec![0]);
    assert_eq!(driver.shutdown(), SupervisorExit::Shutdown);
}

#[test]
fn remove_child_stops_it_without_restarting() {
    let mut driver = Driver::start(
        SupervisorBuilder::new()
            .child(child("removable").restart(Restart::Transient))
            .child(child("keeper")),
    );
    driver.events.clear();
    let removal = driver.runtime.remove_child("removable", driver.now).expect("removal begins");
    let (run, step) = match removal {
        Removal::Stop { key, policy } => {
            SupervisorRuntime::begin_removal(key, policy)
        }
        Removal::Done => panic!("the child is running"),
    };
    assert!(matches!(step, RemovalStep::Ask(_)));
    let (run, step) = driver.runtime.advance_removal(run, driver.now);
    assert!(matches!(step, RemovalStep::AwaitExit(_)));
    driver.publish();
    let reaction = driver.exit("removable", failed("do not restart on remove"));
    assert!(matches!(reaction, Reaction::Removed(_)));
    let (_, step) = driver.runtime.advance_removal(run, driver.now);
    assert!(matches!(step, RemovalStep::Done(Ok(()))));
    driver.settle();

    assert_eq!(
        driver.events,
        vec![
            SupervisorEvent::ChildRemoveRequested { id: "removable".to_owned() },
            SupervisorEvent::ChildExited {
                id: "removable".to_owned(),
                generation: 0,
                status: ExitStatusView::Failed("do not restart on remove".to_owned()),
            },
            SupervisorEvent::ChildRemoved { id: "removable".to_owned() },
        ]
    );
    assert_eq!(driver.starts_of("removable"), vec![0]);
    assert_eq!(driver.shutdown(), SupervisorExit::Shutdown);
}

#[test]
fn duplicate_add_and_unknown_remove_are_rejected() {
    let mut driver = Driver::start(SupervisorBuilder::new().child(child("seed")));

    let duplicate = driver
        .runtime
        .add_child(child("seed").inner().clone())
        .expect_err("duplicate id should be rejected");
    assert_eq!(duplicate, ControlError::DuplicateChildId("seed".to_owned()));

    let missing = driver
        .runtime
        .remove_child("missing", driver.now)
        .expect_err("unknown child id should be rejected");
    assert_eq!(missing, ControlError::UnknownChildId("missing".to_owned()));

    assert_eq!(driver.shutdown(), SupervisorExit::Shutdown);
}

#[test]
fn invalid_children_are_not_taken_in() {
    let mut driver = Driver::start(SupervisorBuilder::new().child(child("seed")));
    let error = driver
        .runtime
        .add_child(child("").inner().clone())
        .expect_err("empty id should be rejected");
    assert_eq!(error, ControlError::InvalidConfig("child id must not be empty"));
    let error = driver
        .runtime
        .add_child(
            child("late")
                .restart_intensity(RestartIntensity::new(1, Duration::zero()))
                .inner()
                .clone(),
        )
        .expect_err("empty window should be rejected");
    assert!(matches!(error, ControlError::InvalidConfig(_)));
    driver.shutdown();
    let error = driver
        .runtime
        .add_child(child("late").inner().clone())
        .expect_err("stopped supervisor takes nothing in");
    assert_eq!(error, ControlError::SupervisorStopping);
}

#[test]
fn removing_the_last_active_child_is_rejected() {
    let mut driver = Driver::start(SupervisorBuilder::new().child(child("only")));

    let err = driver
        .runtime
        .remove_child("only", driver.now)
        .expect_err("last child removal should be rejected");
    assert_eq!(err, ControlError::LastChildRemovalUnsupported);

    assert_eq!(driver.shutdown(), SupervisorExit::Shutdown);
}

#[test]
fn concurrent_removal_requests_are_serialized() {
    let mut driver = Driver::start(
        SupervisorBuilder::new()
            .child(child("removable").restart(Restart::Transient))
            .child(child("keeper")),
    );
    driver.runtime.remove_child("removable", driver.now).expect("first removal begins");
    let during = driver
        .runtime
        .remove_child("removable", driver.now)
        .expect_err("second removal observes the first");
    assert_eq!(during, ControlError::ChildRemovalInProgress("removable".to_owned()));

    driver.exit("removable", ExitStatus::Completed);
    let err = driver
        .runtime
        .remove_child("removable", driver.now)
        .expect_err("second removal should observe the completed first removal");
    assert_eq!(err, ControlError::UnknownChildId("removable".to_owned()));

    assert_eq!(driver.shutdown(), SupervisorExit::Shutdown);
}

#[test]
fn removal_returns_supervisor_stopping_when_shutdown_intervenes() {
    let fast_shutdown = ShutdownPolicy::cooperative_then_abort(ms(50));
    let mut driver = Driver::start(
        SupervisorBuilder::new()
            .child(child("removable").restart(Restart::Transient).shutdown(fast_shutdown))
            .child(child("keeper").shutdown(fast_shutdown)),
    );
    let removal = driver.runtime.remove_child("removable", driver.now).expect("removal begins");
    let (run, _) = match removal {
        Removal::Stop { key, policy } => {
            SupervisorRuntime::begin_removal(key, policy)
        }
        Removal::Done => panic!("the child is running"),
    };
    driver.runtime.begin_shutdown(driver.now);
    let (_, step) = driver.runtime.advance_removal(run, driver.now);
    match step {
        RemovalStep::Done(Err(err)) => assert_eq!(err, ControlError::SupervisorStopping),
        other => panic!("unexpected step: {other:?}"),
    }
    driver.drain(DrainReason::Shutdown).expect("shutdown should succeed");
}

#[test]
fn unresponsive_children_are_removed_as_their_policy_says() {
    let cases = vec![
        ("asked", ShutdownPolicy::cooperative(ms(50)), false, false),
        ("forced", ShutdownPolicy::cooperative_then_abort(ms(50)), true, true),
        ("aborted", ShutdownPolicy::abort(), true, true),
    ];
    for (id, policy, aborts, succeeds) in cases {
        let mut driver = Driver::start(
            SupervisorBuilder::new().child(child(id).shutdown(policy)).child(child("keeper")),
        );
        let removal = driver.runtime.remove_child(id, driver.now).expect("removal begins");
        let (mut run, mut step) = match removal {
            Removal::Stop { key, policy } => {
                SupervisorRuntime::begin_removal(key, policy)
            }
            Removal::Done => panic!("the child is running"),
        };
        let mut asked = false;
        let mut aborted = false;
        let result = loop {
            match step {
                RemovalStep::Done(result) => break result,
                RemovalStep::Ask(_) => asked = true,
                RemovalStep::Abort(_) => aborted = true,
                RemovalStep::AwaitExit(deadline) => {
                    assert_eq!(deadline, ms(50));
                    driver.now = deadline;
                }
            }
            let next = driver.runtime.advance_removal(run, driver.now);
            run = next.0;
            step = next.1;
        };
        assert!(asked);
        assert_eq!(aborted, aborts);
        if succeeds {
            assert_eq!(result, Ok(()));
        } else {
            assert_eq!(result, Err(ControlError::ShutdownTimedOut(id.to_owned())));
        }
        assert!(driver.snapshot().child(id).is_none());
    }
}

#[test]
fn remove_child_completes_promptly_during_restart_backoff() {
    let mut driver = Driver::start(
        SupervisorBuilder::new()
            .restart_intensity(RestartIntensity {
                max_restarts: 4,
                within: Duration::from_secs(1),
                backoff: BackoffPolicy::Fixed(Duration::from_secs(1)),
            })
            .child(child("removable").restart(Restart::Transient))
            .child(child("keeper")),
    );
    let reaction = driver.exit("removable", failed("restart me later"));
    assert!(
        matches!(reaction, Reaction::Decided(_, RestartPlan::Scheduled(delay)) if delay == Duration::from_secs(1))
    );

    let removal = driver
        .runtime
        .remove_child("removable", driver.now)
        .expect("child removal should succeed during backoff");
    assert!(matches!(removal, Removal::Done));
    driver.publish();
    assert_eq!(
        driver.events.last(),
        Some(&SupervisorEvent::ChildRemoved { id: "removable".to_owned() })
    );

    driver.now = Duration::from_secs(5);
    driver.settle();
    assert_eq!(driver.starts_of("removable"), vec![0]);
    assert_eq!(driver.shutdown(), SupervisorExit::Shutdown);
}

#[test]
fn initial_snapshot_is_immediately_available_and_preserves_child_order() {
    let mut driver =
        Driver::start(SupervisorBuilder::new().child(child("alpha")).child(child("beta")));
    let snapshot = driver.snapshot();

    assert_eq!(snapshot.state, SupervisorStateView::Running);
    assert_eq!(snapshot.last_exit, None);
    assert_eq!(child_ids(&snapshot), vec!["alpha", "beta"]);
    for entry in &snapshot.children {
        assert_eq!(entry.membership, ChildMembershipView::Active);
        assert_eq!(entry.last_exit, None);
        assert_eq!(entry.restart_count, 0);
        assert_eq!(entry.next_restart_in, None);
    }

    driver
        .runtime
        .add_child(child("gamma").inner().clone())
        .expect("dynamic child should be accepted");
    assert_eq!(child_ids(&driver.snapshot()), vec!["alpha", "beta", "gamma"]);

    assert_eq!(driver.shutdown(), SupervisorExit::Shutdown);
}

#[test]
fn snapshot_shows_restart_state_and_last_exit() {
    let mut driver = Driver::start(SupervisorBuilder::new().child(
        child("flaky").restart(Restart::Transient).restart_intensity(RestartIntensity {
            max_restarts: 5,
            within: Duration::from_secs(1),
            backoff: BackoffPolicy::Fixed(ms(200)),
        }),
    ));
    driver.exit("flaky", failed("boom"));
    driver.settle();

    let snapshot = driver.snapshot();
    let flaky = snapshot.child("flaky").expect("flaky child should exist");
    assert_eq!(flaky.state, ChildStateView::Stopped);
    assert_eq!(flaky.restart_count, 1);
    assert_eq!(flaky.last_exit, Some(ExitStatusView::Failed("boom".to_owned())));
    assert_eq!(flaky.next_restart_in, Some(ms(200)));

    driver.now = ms(200);
    driver.settle();
    let snapshot = driver.snapshot();
    let flaky = snapshot.child("flaky").expect("flaky child should exist");
    assert_eq!(flaky.generation, 1);
    assert_eq!(flaky.state, ChildStateView::Running);
    assert_eq!(flaky.restart_count, 1);
    assert_eq!(flaky.next_restart_in, None);
    assert_eq!(flaky.last_exit, Some(ExitStatusView::Failed("boom".to_owned())));

    assert_eq!(driver.shutdown(), SupervisorExit::Shutdown);
}

#[test]
fn snapshot_shows_removing_membership_during_child_removal() {
    let mut driver =
        Driver::start(SupervisorBuilder::new().child(child("removable")).child(child("keeper")));
    driver.runtime.remove_child("removable", driver.now).expect("removal begins");

    let removing = driver.snapshot();
    let removable = removing.child("removable").expect("removable child should exist");
    assert_eq!(removable.membership, ChildMembershipView::Removing);
    assert_eq!(removable.state, ChildStateView::Stopping);

    driver.exit("removable", ExitStatus::Completed);
    let removed = driver.snapshot();
    assert!(removed.child("removable").is_none());
    assert!(removed.child("keeper").is_some());

    assert_eq!(driver.shutdown(), SupervisorExit::Shutdown);
}

#[test]
fn root_snapshot_includes_nested_supervisor_tree() {
    let nested = Driver::start(SupervisorBuilder::new().child(child("leaf")));
    let mut outer =
        Driver::start(SupervisorBuilder::new().child(child("anchor")).child(child("nested")));
    let plan = outer.take("nested");
    let accepted = outer.runtime.accept_nested_snapshot(
        NestedSnapshotNotification {
            parent_key: plan.key,
            parent_instance: plan.instance,
            generation: plan.generation,
        },
        Some(nested.snapshot()),
    );
    assert!(accepted);

    let snapshot = outer.snapshot();
    let nested = snapshot
        .child("nested")
        .expect("nested supervisor child should exist")
        .supervisor
        .as_ref()
        .expect("nested snapshot should be present");
    assert_eq!(nested.state, SupervisorStateView::Running);
    assert_eq!(nested.child("leaf").expect("leaf exists").state, ChildStateView::Running);
    assert!(snapshot.descendant(&["nested", "leaf"]).is_some());
    assert!(snapshot.descendant(&["anchor", "leaf"]).is_none());

    let late = outer.runtime.accept_nested_snapshot(
        NestedSnapshotNotification {
            parent_key: plan.key,
            parent_instance: plan.instance,
            generation: plan.generation + 1,
        },
        None,
    );
    assert!(!late);
}

#[test]
fn stopped_snapshot_remains_available_after_shutdown() {
    let mut driver = Driver::start(SupervisorBuilder::new().child(child("worker")));
    assert_eq!(driver.shutdown(), SupervisorExit::Shutdown);

    let snapshot = driver.snapshot();
    assert_eq!(snapshot.state, SupervisorStateView::Stopped);
    assert_eq!(snapshot.last_exit, Some(SupervisorExit::Shutdown));
    assert_eq!(
        snapshot.child("worker").expect("worker child should remain visible").state,
        ChildStateView::Stopped
    );
}

#[test]
fn stopped_snapshot_reports_natural_completion() {
    let mut driver = Driver::start(
        SupervisorBuilder::new().child(child("temporary").restart(Restart::Temporary)),
    );
    driver.exit("temporary", ExitStatus::Completed);
    let exit = match driver.settle() {
        Move::Finish(exit) => exit,
        other => panic!("unexpected move: {other:?}"),
    };
    assert_eq!(exit, SupervisorExit::Completed);
    driver.runtime.finish_with_exit(exit, driver.now);

    let snapshot = driver.snapshot();
    assert_eq!(snapshot.state, SupervisorStateView::Stopped);
    assert_eq!(snapshot.last_exit, Some(SupervisorExit::Completed));
    assert_eq!(
        snapshot.child("temporary").expect("temporary child should remain visible").last_exit,
        Some(ExitStatusView::Completed)
    );
}

#[test]
fn events_observe_already_published_snapshot_state() {
    let mut driver = Driver::start(SupervisorBuilder::new().child(child("worker")));
    let started = driver
        .events
        .iter()
        .position(|event| {
            *event == SupervisorEvent::ChildStarted { id: "worker".to_owned(), generation: 0 }
        })
        .expect("worker starts");
    let snapshot = &driver.snapshots[started];
    let worker = snapshot.child("worker").expect("worker child should exist");
    assert_eq!(snapshot.state, SupervisorStateView::Running);
    assert_eq!(worker.generation, 0);
    assert_eq!(worker.state, ChildStateView::Running);

    driver.shutdown();
    let stopped = driver
        .events
        .iter()
        .position(|event| *event == SupervisorEvent::SupervisorStopped)
        .expect("supervisor stops");
    let snapshot = &driver.snapshots[stopped];
    assert_eq!(snapshot.state, SupervisorStateView::Stopped);
    assert_eq!(snapshot.last_exit, Some(SupervisorExit::Shutdown));
    assert_eq!(
        snapshot.child("worker").expect("worker child should remain visible").state,
        ChildStateView::Stopped
    );
}

#[test]
fn drain_waits_for_the_longest_grace_and_spares_those_that_are_only_asked() {
    let mut driver = Driver::start(
        SupervisorBuilder::new()
            .child(child("asked").shutdown(ShutdownPolicy::cooperative(ms(100))))
            .child(child("forced").shutdown(ShutdownPolicy::cooperative_then_abort(ms(300))))
            .child(child("aborted").shutdown(ShutdownPolicy::abort())),
    );
    driver.runtime.begin_shutdown(driver.now);
    let (drain, step) = driver.runtime.begin_drain(DrainReason::Shutdown);
    let aborted = driver.take("aborted");
    match step {
        DrainStep::Abort(keys) => assert_eq!(keys, vec![aborted.key]),
        other => panic!("unexpected step: {other:?}"),
    }
    driver
        .runtime
        .record_exit(aborted.task, ExitStatus::Aborted, driver.now)
        .expect("task is known");
    let (drain, step) = driver.runtime.advance_drain(drain, driver.now);
    match step {
        DrainStep::AwaitExit(deadline) => assert_eq!(deadline, ms(300)),
        other => panic!("unexpected step: {other:?}"),
    }
    driver.now = ms(299);
    let (drain, step) = driver.runtime.advance_drain(drain, driver.now);
    assert!(matches!(step, DrainStep::AwaitExit(deadline) if deadline == ms(300)));
    driver.now = ms(300);
    let (drain, step) = driver.runtime.advance_drain(drain, driver.now);
    let forced = driver.take("forced");
    match step {
        DrainStep::Abort(keys) => assert_eq!(keys, vec![forced.key]),
        other => panic!("unexpected step: {other:?}"),
    }
    driver
        .runtime
        .record_exit(forced.task, ExitStatus::Aborted, driver.now)
        .expect("task is known");
    let (_, step) = driver.runtime.advance_drain(drain, driver.now);
    match step {
        DrainStep::Done(result) => {
            assert_eq!(result, Err(SupervisorError::ShutdownTimedOut("asked".to_owned())));
        }
        other => panic!("unexpected step: {other:?}"),
    }
}

#[test]
fn a_supervisor_that_gives_up_stops_its_children_and_fails() {
    let mut driver =
        Driver::start(SupervisorBuilder::new().child(child("one")).child(child("two")));
    let result = driver.stop(StopCause::IntensityExceeded);
    assert_eq!(result, Err(SupervisorError::RestartIntensityExceeded));
    assert!(driver.live.is_empty());
    let snapshot = driver.snapshot();
    assert_eq!(snapshot.state, SupervisorStateView::Stopped);
    assert_eq!(snapshot.last_exit, Some(SupervisorExit::Failed));
    assert_eq!(driver.events.last(), Some(&SupervisorEvent::SupervisorStopped));
}

#[test]
fn a_shutdown_that_times_out_is_an_error() {
    let mut driver = Driver::start(
        SupervisorBuilder::new()
            .child(child("deaf").shutdown(ShutdownPolicy::cooperative(ms(100)))),
    );
    let (stop, step) = driver.runtime.begin_stop(StopCause::Requested, driver.now);
    assert!(matches!(step, StopStep::Abort(keys) if keys.is_empty()));
    let (stop, step) = driver.runtime.advance_stop(stop, driver.now);
    assert!(matches!(step, StopStep::AwaitExit(deadline) if deadline == ms(100)));
    driver.now = ms(100);
    let (stop, step) = driver.runtime.advance_stop(stop, driver.now);
    assert!(matches!(step, StopStep::Abort(keys) if keys.is_empty()));
    let (_, step) = driver.runtime.advance_stop(stop, driver.now);
    match step {
        StopStep::Done(result) => {
            assert_eq!(result, Err(SupervisorError::ShutdownTimedOut("deaf".to_owned())));
        }
        other => panic!("unexpected step: {other:?}"),
    }
    assert_eq!(driver.snapshot().state, SupervisorStateView::Stopping);
    assert_eq!(driver.snapshot().last_exit, None);
}

#[test]
fn lingering_aborted_tasks_block_a_group_restart_but_not_a_shutdown() {
    for (reason, expected) in vec![
        (DrainReason::Shutdown, Ok(())),
        (
            DrainReason::GroupRestart,
            Err(SupervisorError::ShutdownTimedOut("one, two".to_owned())),
        ),
    ] {
        let mut driver = Driver::start(
            SupervisorBuilder::new()
                .child(child("one").shutdown(ShutdownPolicy::abort()))
                .child(child("two").shutdown(ShutdownPolicy::abort())),
        );
        driver.runtime.begin_shutdown(driver.now);
        let (drain, _) = driver.runtime.begin_drain(reason);
        let (drain, step) = driver.runtime.advance_drain(drain, driver.now);
        assert!(matches!(step, DrainStep::Abort(_)));
        let (_, step) = driver.runtime.advance_drain(drain, driver.now);
        match step {
            DrainStep::Done(result) => assert_eq!(result, expected),
            other => panic!("unexpected step: {other:?}"),
        }
    }
}

#[test]
fn only_aborted_children_outlive_an_orderly_stop() {
    let mut driver = Driver::start(
        SupervisorBuilder::new()
            .child(child("polite").shutdown(ShutdownPolicy::cooperative(ms(100))))
            .child(child("slow").shutdown(ShutdownPolicy::cooperative_then_abort(ms(100))))
            .child(child("aborted").shutdown(ShutdownPolicy::abort())),
    );
    let mut aborted = Vec::new();
    let (mut stop, mut step) = driver.runtime.begin_stop(StopCause::Requested, driver.now);
    let result = loop {
        match step {
            StopStep::Done(result) => break result,
            StopStep::Abort(keys) => aborted.extend(keys),
            StopStep::AwaitExit(deadline) => {
                if driver.live.iter().any(|plan| plan.context.id == "polite") {
                    let plan = driver.take("polite");
                    driver
                        .runtime
                        .record_exit(plan.task, ExitStatus::Completed, driver.now)
                        .expect("task is known");
                } else {
                    driver.now = deadline;
                }
            }
        }
        (stop, step) = driver.runtime.advance_stop(stop, driver.now);
    };
    assert_eq!(result, Ok(SupervisorExit::Shutdown));
    let left: Vec<(String, usize)> =
        driver.live.iter().map(|plan| (plan.context.id.clone(), plan.key)).collect();
    let names: Vec<&str> = left.iter().map(|(id, _)| id.as_str()).collect();
    assert_eq!(names, vec!["slow", "aborted"]);
    assert!(left.iter().all(|(_, key)| aborted.contains(key)));
    let lingering: Vec<String> = driver
        .snapshot()
        .children
        .into_iter()
        .filter(|child| child.state != ChildStateView::Stopped)
        .map(|child| child.id)
        .collect();
    assert_eq!(lingering, vec!["slow".to_owned(), "aborted".to_owned()]);
}

#[test]
fn stopping_all_children_marks_those_that_run() {
    let mut driver =
        Driver::start(SupervisorBuilder::new().child(child("done")).child(child("busy")));
    let done = driver.take("done");
    driver
        .runtime
        .record_exit(done.task, ExitStatus::Completed, driver.now)
        .expect("task is known");
    driver.runtime.cancel_running_children();
    let states = |driver: &Driver| -> Vec<ChildStateView> {
        driver.snapshot().children.into_iter().map(|child| child.state).collect()
    };
    assert_eq!(states(&driver), vec![ChildStateView::Stopped, ChildStateView::Stopping]);
    assert!(driver.live[0].context.token.is_cancelled());
    driver.runtime.cancel_running_children();
    assert_eq!(states(&driver), vec![ChildStateView::Stopped, ChildStateView::Stopping]);
}

#[test]
fn late_exits_of_superseded_incarnations_are_ignored() {
    let mut driver =
        Driver::start(SupervisorBuilder::new().child(child("worker")).child(child("keeper")));
    let old = driver.take("worker");
    let plan = driver.runtime.restart_child(old.key, driver.now).expect("restarts");
    driver.took(vec![plan]);
    let reaction = driver
        .runtime
        .handle_exit(old.task, failed("late"), driver.now, 0)
        .expect("task is known");
    assert!(matches!(reaction, Reaction::Ignored));
    assert_eq!(
        driver.snapshot().child("worker").expect("worker exists").state,
        ChildStateView::Running
    );
    let unknown = driver.runtime.handle_exit(old.task, failed("again"), driver.now, 0);
    match unknown {
        Err(error) => {
            assert_eq!(error.message(), format!("internal supervisor error: unknown task {}", old.task));
        }
        Ok(reaction) => panic!("unexpected reaction: {reaction:?}"),
    }
}

#[test]
fn slots_are_used_again_after_a_removal() {
    let mut driver =
        Driver::start(SupervisorBuilder::new().child(child("one")).child(child("two")));
    let one = driver.runtime.find("one").expect("one is a member");
    driver.runtime.remove_child("one", driver.now).expect("removal begins");
    driver.exit("one", ExitStatus::Completed);
    assert_eq!(driver.runtime.find("one"), None);
    let three =
        driver.runtime.add_child(child("three").inner().clone()).expect("three is taken in");
    assert_eq!(three, one);
    assert_eq!(child_ids(&driver.snapshot()), vec!["two", "three"]);
    assert_eq!(
        driver.runtime.child_path(three),
        Some(vec!["three".to_owned()])
    );
    let missing = driver.runtime.spawn_child(99, driver.now);
    match missing {
        Err(error) => {
            assert_eq!(error.message(), "internal supervisor error: missing child slot for key 99");
        }
        Ok(plan) => panic!("unexpected plan: {plan:?}"),
    }
}

#[test]
fn tokens_of_children_follow_the_group() {
    let mut driver = Driver::start(SupervisorBuilder::new().child(child("worker")));
    let plan = driver.take("worker");
    assert!(!plan.context.token.is_cancelled());
    assert!(!plan.context.supervisor_token.is_cancelled());
    driver.runtime.begin_shutdown(driver.now);
    assert!(plan.context.token.is_cancelled());
    assert!(plan.context.supervisor_token.is_cancelled());
    assert!(plan.context.supervisor_token.observer().is_cancelled());
}
