use tokio_otp::actor::binding::{bind_all, clear_all, MailboxRef};
use tokio_otp::actor::blocking::{
    task_result, BlockingOperationError, BlockingRuntime, ClosureOutcome,
};
use tokio_otp::actor::blocking_finish::{FinishEvent, FinishStep};
use tokio_otp::actor::delivery::SendStep;
use tokio_otp::actor::observability::{ActorExitStatus, GraphShutdownCause};
use tokio_otp::actor::runtime::{
    classify_actor_exit, graph_shutdown_cause_for_error, ActiveRun, ActorTask, ActorTaskEvent,
    ActorTaskExit, GraphRuntime, JoinedActor,
};
use tokio_otp::actor::{
    ActorContext, ActorSpec, BlockingOptions, BoxError, BuildError, Envelope, Graph, GraphBuilder,
    GraphError, IngressError, IngressHandle, SendError,
};
use tokio_otp::time::Duration;
use tokio_util::sync::CancellationToken;

fn actor(id: &str) -> ActorSpec<()> {
    ActorSpec::from_actor(id.to_owned(), ())
}

fn pipeline() -> GraphBuilder<()> {
    GraphBuilder::new()
        .actor(actor("frontend"))
        .actor(actor("worker"))
        .link("frontend".to_owned(), "worker".to_owned())
        .ingress("requests".to_owned(), "frontend".to_owned())
}

/// One run of a graph, whose actors are played by the test.
struct Run {
    runtime: GraphRuntime,
    contexts: Vec<ActorContext>,
}

fn start(graph: &Graph<()>) -> Run {
    let mut runtime = GraphRuntime::new();
    let (mailboxes, receivers) = graph.create_mailboxes();
    graph.bind_actors_with(&mailboxes);
    graph.bind_ingresses_with(&mailboxes).expect("ingresses are bound");
    let contexts =
        graph.actor_contexts(receivers, runtime.shutdown_token()).expect("actors are wired");
    for (number, context) in contexts.iter().enumerate() {
        runtime.actor_started(number as u64, context.id().to_owned());
    }
    Run { runtime, contexts }
}

fn stop(graph: &Graph<()>) {
    graph.clear_actors();
    graph.clear_ingresses();
}

fn deliver(step: SendStep<IngressError>) -> Result<(), IngressError> {
    match step {
        SendStep::Deliver { mailbox, envelope } => {
            mailbox.try_send(envelope).expect("mailbox has room");
            Ok(())
        }
        SendStep::Done(result) => result,
        SendStep::AwaitBinding { error, .. } => Err(error),
    }
}

fn send(ingress: &IngressHandle, payload: &'static [u8]) -> Result<(), IngressError> {
    deliver(ingress.send(Envelope::from_static(payload)))
}

fn returned(task: u64, id: &str, result: Result<(), BoxError>) -> JoinedActor {
    JoinedActor::Returned { task, exit: ActorTaskExit { actor_id: id.to_owned(), result } }
}

fn message(text: &str) -> BoxError {
    BoxError::Message(text.to_owned())
}

#[test]
fn delivers_messages_across_linked_actors() {
    let graph = pipeline().build().expect("valid graph");
    let ingress = graph.ingress("requests").expect("ingress exists");
    let mut run = start(&graph);

    send(&ingress, b"hello").expect("frontend accepts");
    let received = run.contexts[0].mailbox().try_recv().expect("message arrived");
    match run.contexts[0].send("worker", received) {
        SendStep::Deliver { mailbox, envelope } => {
            mailbox.try_send(envelope).expect("worker accepts");
        }
        other => panic!("unexpected step: {other:?}"),
    }
    let observed = run.contexts[1].mailbox().try_recv().expect("message observed");
    assert_eq!(observed.as_slice(), b"hello");
}

#[derive(Clone)]
enum Part {
    Forwarding,
    Observing,
}

#[test]
fn delivers_messages_with_trait_actors() {
    let graph = GraphBuilder::new()
        .actor(ActorSpec::from_actor("frontend".to_owned(), Part::Forwarding))
        .actor(ActorSpec::from_actor("worker".to_owned(), Part::Observing))
        .link("frontend".to_owned(), "worker".to_owned())
        .ingress("requests".to_owned(), "frontend".to_owned())
        .build()
        .expect("valid graph");
    let ingress = graph.ingress("requests").expect("ingress exists");
    let runtime = GraphRuntime::new();
    let (mailboxes, receivers) = graph.create_mailboxes();
    graph.bind_actors_with(&mailboxes);
    graph.bind_ingresses_with(&mailboxes).expect("ingresses are bound");
    let contexts =
        graph.actor_contexts(receivers, runtime.shutdown_token()).expect("actors are wired");

    send(&ingress, b"hello").expect("frontend accepts");

    let mut observed = Vec::new();
    for (mut context, spec) in contexts.into_iter().zip(graph.actors()) {
        while let Ok(envelope) = context.mailbox().try_recv() {
            match spec.factory().clone() {
                Part::Forwarding => {
                    context.try_send("worker", envelope).expect("worker accepts");
                }
                Part::Observing => observed.push(envelope),
            }
        }
    }
    assert_eq!(observed.len(), 1);
    assert_eq!(observed[0].as_slice(), b"hello");
}

#[test]
fn actors_only_reach_those_they_are_linked_to() {
    let graph = pipeline().build().expect("valid graph");
    let run = start(&graph);
    let error = run.contexts[1]
        .try_send("frontend", Envelope::from_static(b"back"))
        .expect_err("there is no link back");
    assert_eq!(
        error,
        SendError::UnknownPeer { actor_id: "worker".to_owned(), peer_id: "frontend".to_owned() }
    );
    assert_eq!(error.message(), "actor `worker` is not linked to peer `frontend`");
    assert!(run.contexts[1].peer("frontend").is_none());
    let peer = run.contexts[0].peer("worker").expect("worker is linked");
    assert_eq!(peer.id(), "worker");
    assert_eq!(peer.source_actor_id(), Some("frontend"));
    assert_eq!(run.contexts[0].myself().id(), "frontend");
}

#[test]
fn ingress_handle_rebinds_across_reruns() {
    let graph = GraphBuilder::new()
        .actor(actor("frontend"))
        .ingress("requests".to_owned(), "frontend".to_owned())
        .build()
        .expect("valid graph");
    let ingress = graph.ingress("requests").expect("ingress exists");

    let mut first_run = start(&graph);
    send(&ingress, b"first").expect("first run accepts");
    let first = first_run.contexts[0].mailbox().try_recv().expect("first message arrived");
    assert_eq!(first.as_slice(), b"first");
    stop(&graph);
    drop(first_run);

    let not_running = send(&ingress, b"stopped");
    assert_eq!(
        not_running,
        Err(IngressError::NotRunning {
            ingress: "requests".to_owned(),
            actor_id: "frontend".to_owned(),
        })
    );

    let mut second_run = start(&graph);
    send(&ingress, b"second").expect("second run accepts");
    let second = second_run.contexts[0].mailbox().try_recv().expect("second message arrived");
    assert_eq!(second.as_slice(), b"second");
}

#[test]
fn rejects_invalid_graph_definitions() {
    let duplicate = GraphBuilder::new().actor(actor("worker")).actor(actor("worker")).build();
    assert!(matches!(
        duplicate,
        Err(BuildError::DuplicateActorId(actor_id)) if actor_id == "worker"
    ));

    let unknown_link = GraphBuilder::new()
        .actor(actor("worker"))
        .link("worker".to_owned(), "missing".to_owned())
        .build();
    assert!(matches!(
        unknown_link,
        Err(BuildError::UnknownLinkTarget { from, actor })
            if from == "worker" && actor == "missing"
    ));
}

#[test]
fn every_flaw_of_a_graph_has_its_error() {
    let cases: Vec<(GraphBuilder<()>, BuildError)> = vec![
        (GraphBuilder::new(), BuildError::EmptyActors),
        (
            GraphBuilder::new().actor(actor("worker")).link("ghost".to_owned(), "worker".to_owned()),
            BuildError::UnknownLinkSource { actor: "ghost".to_owned() },
        ),
        (
            GraphBuilder::new()
                .actor(actor("worker"))
                .ingress("in".to_owned(), "worker".to_owned())
                .ingress("in".to_owned(), "worker".to_owned()),
            BuildError::DuplicateIngressName("in".to_owned()),
        ),
        (
            GraphBuilder::new().actor(actor("worker")).ingress("in".to_owned(), "ghost".to_owned()),
            BuildError::UnknownIngressTarget {
                ingress: "in".to_owned(),
                actor: "ghost".to_owned(),
            },
        ),
    ];
    for (builder, expected) in cases {
        match builder.build() {
            Ok(_) => panic!("the graph must be rejected"),
            Err(error) => assert_eq!(error, expected),
        }
    }
    let zero = GraphBuilder::new().actor(actor("worker")).mailbox_capacity(0).build();
    assert!(matches!(zero, Err(BuildError::InvalidConfig(_))));
    let nameless = GraphBuilder::new().actor(actor("")).build();
    assert!(matches!(nameless, Err(BuildError::InvalidConfig(_))));
}

#[test]
fn graphs_have_conservative_limits() {
    let graph = pipeline().build().expect("valid graph");
    assert_eq!(graph.mailbox_capacity(), 64);
    assert_eq!(graph.max_envelope_bytes(), Some(1024 * 1024));
    assert_eq!(graph.max_blocking_tasks_per_actor(), Some(16));
    assert_eq!(graph.blocking_shutdown_timeout(), Duration::from_secs(5));

    let graph = pipeline()
        .name("example".to_owned())
        .disable_envelope_size_limit()
        .unbounded_blocking_tasks_per_actor()
        .build()
        .expect("valid graph");
    assert_eq!(graph.name(), "example");
    assert_eq!(graph.max_envelope_bytes(), None);
    assert_eq!(graph.max_blocking_tasks_per_actor(), None);
}

#[test]
fn envelopes_over_the_limit_do_not_enter_a_mailbox() {
    let graph = pipeline().max_envelope_bytes(3).build().expect("valid graph");
    let ingress = graph.ingress("requests").expect("ingress exists");
    let mut run = start(&graph);
    assert_eq!(
        ingress.try_send(Envelope::from_static(b"four")),
        Err(IngressError::EnvelopeTooLarge {
            ingress: "requests".to_owned(),
            actor_id: "frontend".to_owned(),
            envelope_len: 4,
            max_envelope_bytes: 3,
        })
    );
    assert_eq!(
        run.contexts[0].try_send("worker", Envelope::from_static(b"four")),
        Err(SendError::EnvelopeTooLarge {
            actor_id: "worker".to_owned(),
            envelope_len: 4,
            max_envelope_bytes: 3,
        })
    );
    assert!(run.contexts[0].mailbox().try_recv().is_err());
    ingress.try_send(Envelope::from_static(b"one")).expect("three bytes are fine");
    assert_eq!(
        run.contexts[0].mailbox().try_recv().expect("message arrived").as_slice(),
        b"one"
    );
}

#[test]
fn full_and_closed_mailboxes_are_told_apart() {
    let graph = pipeline().mailbox_capacity(1).build().expect("valid graph");
    let ingress = graph.ingress("requests").expect("ingress exists");
    let run = start(&graph);
    ingress.try_send(Envelope::from_static(b"one")).expect("there is room for one");
    assert_eq!(
        ingress.try_send(Envelope::from_static(b"two")),
        Err(IngressError::MailboxFull {
            ingress: "requests".to_owned(),
            actor_id: "frontend".to_owned(),
        })
    );
    let own = run.contexts[1].myself();
    drop(run);
    assert_eq!(
        ingress.try_send(Envelope::from_static(b"three")),
        Err(IngressError::MailboxClosed {
            ingress: "requests".to_owned(),
            actor_id: "frontend".to_owned(),
        })
    );
    assert_eq!(
        own.blocking_send(Envelope::from_static(b"three")),
        Err(SendError::MailboxClosed { actor_id: "worker".to_owned() })
    );
}

#[test]
fn actor_error_fails_the_graph() {
    let graph = GraphBuilder::new().actor(actor("worker")).build().expect("valid graph");
    let mut run = start(&graph);
    run.runtime.joined(&graph, returned(0, "worker", Err(message("boom"))));

    match run.runtime.result() {
        Err(GraphError::ActorFailed { actor_id, .. }) => assert_eq!(actor_id, "worker"),
        other => panic!("unexpected result: {other:?}"),
    }
}

#[test]
fn graph_shutdown_is_cooperative() {
    let graph = GraphBuilder::new().actor(actor("worker")).build().expect("valid graph");
    let mut run = start(&graph);
    assert!(run.runtime.awaits_shutdown());
    assert!(!run.contexts[0].is_shutting_down());
    assert_eq!(run.runtime.external_shutdown(&graph).map(|stop| stop.cause), Some(GraphShutdownCause::External));
    assert!(run.contexts[0].is_shutting_down());
    assert!(!run.runtime.awaits_shutdown());
    let report = run.runtime.joined(&graph, returned(0, "worker", Ok(())));
    assert_eq!(report.status, ActorExitStatus::Shutdown);
    assert_eq!(report.stopped, None);
    assert!(run.runtime.result().is_ok(), "graph stopped cleanly");
}

#[test]
fn graph_can_only_run_once_at_a_time() {
    let graph = pipeline().build().expect("valid graph");
    let ingress = graph.ingress("requests").expect("ingress exists");
    let mut latch = ActiveRun::new();
    latch.start().expect("first run starts");
    let first = start(&graph);
    assert!(matches!(latch.start(), Err(GraphError::AlreadyRunning)));
    send(&ingress, b"first").expect("the run goes on");
    assert_eq!(latch.finish(&graph), vec![0]);
    assert!(matches!(send(&ingress, b"between"), Err(IngressError::NotRunning { .. })));
    assert!(first.contexts[0].myself().current_mailbox().is_err());
    latch.start().expect("a later run starts");
    let mut second = start(&graph);
    send(&ingress, b"second").expect("handles reach the new run");
    let received = second.contexts[0].mailbox().try_recv().expect("message arrived");
    assert_eq!(received.as_slice(), b"second");
}

#[test]
fn a_shutdown_request_closes_the_ingresses() {
    let graph = pipeline().build().expect("valid graph");
    let ingress = graph.ingress("requests").expect("ingress exists");
    let mut run = start(&graph);
    send(&ingress, b"before").expect("ingress is bound");
    let stop = run.runtime.external_shutdown(&graph).expect("the graph was not stopped before");
    assert_eq!(stop.cleared, vec![0]);
    assert!(matches!(send(&ingress, b"after"), Err(IngressError::NotRunning { .. })));
    assert_eq!(run.runtime.external_shutdown(&graph), None);
}

#[test]
fn the_first_fault_decides() {
    let graph = pipeline().build().expect("valid graph");
    let mut run = start(&graph);
    let first = run.runtime.joined(&graph, JoinedActor::Panicked { task: 1 });
    assert_eq!(first.actor_id, "worker");
    assert_eq!(first.status, ActorExitStatus::Panicked);
    assert_eq!(first.stopped.map(|stop| stop.cause), Some(GraphShutdownCause::ActorPanicked));
    assert!(run.contexts[0].is_shutting_down());
    let second = run.runtime.joined(&graph, returned(0, "frontend", Err(message("boom"))));
    assert_eq!(second.status, ActorExitStatus::Failed);
    assert_eq!(second.error, Some("boom".to_owned()));
    assert_eq!(second.stopped, None);
    match run.runtime.result() {
        Err(GraphError::ActorPanicked { actor_id }) => assert_eq!(actor_id, "worker"),
        other => panic!("unexpected result: {other:?}"),
    }
}

#[test]
fn a_clean_exit_before_shutdown_is_a_fault() {
    let graph = GraphBuilder::new().actor(actor("worker")).build().expect("valid graph");
    let mut runtime = GraphRuntime::new();
    runtime.actor_started(7, "worker".to_owned());
    let report = runtime.joined(&graph, returned(7, "worker", Ok(())));
    assert_eq!(report.status, ActorExitStatus::Stopped);
    assert_eq!(report.stopped.map(|stop| stop.cause), Some(GraphShutdownCause::ActorStopped));
    match runtime.result() {
        Err(error) => {
            assert!(matches!(&error, GraphError::ActorStopped { actor_id } if actor_id == "worker"));
            assert_eq!(
                graph_shutdown_cause_for_error(&error),
                GraphShutdownCause::ActorStopped
            );
        }
        Ok(()) => panic!("the run must fail"),
    }
}

#[test]
fn unknown_tasks_are_reported_as_such() {
    let graph = GraphBuilder::new().actor(actor("worker")).build().expect("valid graph");
    let mut runtime = GraphRuntime::new();
    let report = runtime.joined(&graph, JoinedActor::Cancelled { task: 3 });
    assert_eq!(report.actor_id, "<unknown>");
    assert_eq!(report.status, ActorExitStatus::Cancelled);
    assert_eq!(report.stopped.map(|stop| stop.cause), Some(GraphShutdownCause::ActorCancelled));
}

#[test]
fn exits_are_classified_by_result_and_shutdown() {
    let exit = |result| ActorTaskExit { actor_id: "worker".to_owned(), result };
    assert_eq!(exit(Ok(())).status(true), ActorExitStatus::Shutdown);
    assert_eq!(exit(Ok(())).status(false), ActorExitStatus::Stopped);
    assert_eq!(exit(Err(message("boom"))).status(true), ActorExitStatus::Failed);
    assert_eq!(exit(Ok(())).shutdown_cause(true), GraphShutdownCause::External);
    assert!(classify_actor_exit(exit(Ok(())), true).is_none());
    assert!(matches!(
        classify_actor_exit(exit(Ok(())), false),
        Some(GraphError::ActorStopped { .. })
    ));
    assert!(matches!(
        classify_actor_exit(exit(Err(message("boom"))), true),
        Some(GraphError::ActorFailed { .. })
    ));
}

#[test]
fn dropped_blocking_task_failures_fail_the_actor() {
    let mut blocking = BlockingRuntime::new("worker".to_owned(), Some(16));
    let mut task = ActorTask::new(CancellationToken::new());
    let handle = blocking
        .spawn_blocking(false, BlockingOptions::named("boom".to_owned()))
        .expect("blocking task spawned");
    assert!(blocking.handle_dropped(handle.id()).is_none());
    let failed = task_result(ClosureOutcome::Returned(Err(BlockingOperationError::Failed(
        message("boom"),
    ))));
    let failure = blocking.completed(handle.id(), failed);
    assert!(task.awaits_blocking());
    let result = task
        .step(ActorTaskEvent::BlockingCompleted(failure))
        .expect("the failure decides the result");
    match BlockingRuntime::finish(result, None) {
        Err(BoxError::BlockingTask(failure)) => assert_eq!(failure.task_name(), Some("boom")),
        other => panic!("unexpected result: {other:?}"),
    }
}

#[test]
fn graph_waits_for_dropped_blocking_tasks_to_cleanup() {
    let mut blocking = BlockingRuntime::new("worker".to_owned(), Some(16));
    let handle = blocking
        .spawn_blocking(false, BlockingOptions::named("cleanup".to_owned()))
        .expect("blocking task spawned");
    blocking.handle_dropped(handle.id());
    let step = blocking.begin_finish(Ok(()), None, Duration::zero(), Duration::from_secs(5));
    assert!(handle.token().is_cancelled());
    let finish = match step {
        FinishStep::AwaitTask { finish, task, deadline } => {
            assert_eq!(task, handle.id());
            assert_eq!(deadline, Duration::from_secs(5));
            finish
        }
        other => panic!("unexpected step: {other:?}"),
    };
    match finish.advance(FinishEvent::Joined(Some(Ok(()))), Duration::from_secs(1)) {
        FinishStep::Done(result) => assert!(result.is_ok(), "graph stopped cleanly"),
        other => panic!("unexpected step: {other:?}"),
    }
}

#[test]
fn tasks_wait_for_what_comes_first() {
    let token = CancellationToken::new();
    let mut task = ActorTask::new(token.clone());
    assert!(task.step(ActorTaskEvent::BlockingCompleted(None)).is_none());
    assert!(task.step(ActorTaskEvent::BlockingClosed).is_none());
    assert!(!task.awaits_blocking());
    assert_eq!(task.step(ActorTaskEvent::Returned(Ok(()))), Some(Ok(())));
    assert!(!token.is_cancelled());
}

#[test]
fn ingresses_are_bound_and_cleared_once() {
    let graph = pipeline()
        .ingress("jobs".to_owned(), "worker".to_owned())
        .build()
        .expect("valid graph");
    assert_eq!(graph.ingress_count(), 2);
    assert_eq!(graph.ingress_at(1), ("jobs", "worker"));
    assert_eq!(graph.ingress_names_for_actor(&"worker".to_owned()), vec!["jobs".to_owned()]);
    let (mailboxes, _receivers) = graph.create_mailboxes();
    assert_eq!(graph.bind_ingresses_with(&mailboxes).expect("bound"), vec![0, 1]);
    assert_eq!(graph.bind_ingresses_with(&mailboxes).expect("bound"), Vec::<usize>::new());
    assert_eq!(graph.clear_ingresses(), vec![0, 1]);
    assert_eq!(graph.clear_ingresses(), Vec::<usize>::new());
    let placements = graph.actor_placements(&mailboxes);
    assert_eq!(bind_all(&placements), vec![0, 1]);
    assert_eq!(clear_all(&graph.actor_slots()), vec![0, 1]);
    let handles = graph.ingresses();
    assert_eq!(handles.len(), 2);
    assert_eq!(handles.get(&"jobs".to_owned()).expect("handle").target(), "worker");
    assert!(graph.ingress("missing").is_none());
}

#[test]
fn invalid_state_is_reported() {
    let graph = pipeline().build().expect("valid graph");
    let empty = tokio_otp::directory::Directory::<String, MailboxRef>::new();
    let error = graph.bind_ingresses_with(&empty).expect_err("there are no mailboxes");
    assert_eq!(
        error.message(),
        "graph runtime state is invalid: ingress `requests` references missing actor mailbox `frontend`"
    );
    let error = graph.peer_refs(&"ghost".to_owned()).expect_err("there is no such actor");
    assert!(error.message().contains("actor `ghost` is missing its link definition"));
    let error = graph.actor_ref(&"ghost".to_owned()).expect_err("there is no such actor");
    assert!(error.message().contains("actor `ghost` is missing its mailbox binding"));
    let receivers = tokio_otp::directory::Directory::new();
    let error = graph
        .actor_contexts(receivers, &CancellationToken::new())
        .expect_err("there are no receivers");
    assert!(error.message().contains("actor `frontend` is missing its mailbox receiver"));
}
