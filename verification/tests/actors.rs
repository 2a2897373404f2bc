use tokio_otp::actor::actor_set::{
    ActiveActorRun, ActorJoin, ActorRun, ActorRunEnd, ActorStart,
};
use tokio_otp::actor::binding::{bind_all, clear_all, MailboxBinding};
use tokio_otp::actor::delivery::SendStep;
use tokio_otp::actor::observability::ActorExitStatus;
use tokio_otp::actor::{
    ActorContext, ActorRef, ActorRegistry, ActorRunError, ActorSet, ActorSpec, BoxError, Envelope,
    GraphBuilder, RegistryError, RunnableActor, SendError,
};

fn actor(id: &str) -> ActorSpec<()> {
    ActorSpec::from_actor(id.to_owned(), ())
}

fn pipeline() -> ActorSet<()> {
    GraphBuilder::new()
        .actor(actor("frontend"))
        .actor(actor("worker"))
        .link("frontend".to_owned(), "worker".to_owned())
        .ingress("requests".to_owned(), "frontend".to_owned())
        .build()
        .expect("valid graph")
        .into_actor_set()
        .expect("actor set")
}

fn run(actor: &RunnableActor<()>) -> ActorStart {
    let start = actor.start();
    bind_all(&start.placements);
    start
}

fn deliver(step: SendStep<SendError>) -> SendStep<SendError> {
    match step {
        SendStep::Deliver { mailbox, envelope } => {
            SendStep::Done(mailbox.try_send(envelope).map_err(|error| error.into_send_error()))
        }
        other => other,
    }
}

#[test]
fn actor_ref_reports_not_running_for_stopped_peer() {
    let set = pipeline();
    let frontend = set.actor("frontend").expect("actor exists");
    let ingress = set.ingress("requests").expect("ingress exists");
    let mut start = run(frontend);

    ingress.try_send(Envelope::from_static(b"hello")).expect("frontend accepts ingress message");
    let envelope = start.context.mailbox().try_recv().expect("message arrived");
    match start.context.send("worker", envelope) {
        SendStep::Done(Err(error)) => assert_eq!(
            error,
            SendError::ActorNotRunning { actor_id: "worker".to_owned() }
        ),
        other => panic!("unexpected step: {other:?}"),
    }
    clear_all(&frontend.slots());
}

#[test]
fn send_when_ready_returns_promptly_on_shutdown() {
    let set = pipeline();
    let frontend = set.actor("frontend").expect("actor exists");
    let start = run(frontend);
    let step = start.context.send_when_ready("worker", Envelope::from_static(b"hello"));
    let (envelope, error) = match step {
        SendStep::AwaitBinding { envelope, error } => (envelope, error),
        other => panic!("unexpected step: {other:?}"),
    };
    assert_eq!(envelope.as_slice(), b"hello");
    start.shutdown.cancel();
    assert!(start.context.is_shutting_down());
    assert!(ActorContext::send_result(start.context.is_shutting_down(), Err(error)).is_ok());
    assert!(ActorContext::received(true, Some(envelope)).is_none());
}

#[test]
fn runnable_actor_rejects_concurrent_runs() {
    let mut latch = ActiveActorRun::new("worker".to_owned());
    latch.start().expect("first run starts");
    assert!(matches!(
        latch.start(),
        Err(ActorRunError::AlreadyRunning { actor_id }) if actor_id == "worker"
    ));
    latch.finish();
    latch.start().expect("a later run starts");
}

#[test]
fn a_run_leaves_its_actor_unbound_however_it_ends() {
    for join in vec![
        ActorJoin::Returned(Ok(())),
        ActorJoin::Returned(Err(BoxError::Message("boom".to_owned()))),
        ActorJoin::Panicked,
        ActorJoin::Cancelled,
    ] {
        let set = pipeline();
        let frontend = set.actor("frontend").expect("actor exists");
        let ingress = set.ingress("requests").expect("ingress exists");
        let start = run(frontend);
        assert!(frontend.actor_ref().try_send(Envelope::from_static(b"one")).is_ok());
        assert!(ingress.try_send(Envelope::from_static(b"two")).is_ok());
        let (_, cleared) = ActorRun::new(start.shutdown).joined(frontend, join);
        assert_eq!(cleared, vec![0, 1]);
        assert!(frontend.actor_ref().current_mailbox().is_err());
        assert!(ingress.current_mailbox().is_err());
    }
}

#[test]
fn actor_set_preserves_wiring_across_individual_restarts() {
    let set = pipeline();
    let frontend = set.actor("frontend").expect("actor exists");
    let worker = set.actor("worker").expect("actor exists");
    let ingress = set.ingress("requests").expect("ingress exists");
    let mut frontend_run = run(frontend);
    let mut first_run = run(worker);

    ingress.try_send(Envelope::from_static(b"first")).expect("frontend accepted first message");
    let first = frontend_run.context.mailbox().try_recv().expect("message arrived");
    deliver(frontend_run.context.send_when_ready("worker", first));
    assert_eq!(
        first_run.context.mailbox().try_recv().expect("worker saw it").as_slice(),
        b"first"
    );

    clear_all(&worker.slots());
    drop(first_run);
    let report =
        worker.finish(ActorJoin::Returned(Err(BoxError::Message("boom".to_owned()))), false);
    assert!(matches!(
        report.end,
        ActorRunEnd::Finished(Err(ActorRunError::Failed { ref actor_id, .. })) if actor_id == "worker"
    ));

    ingress.try_send(Envelope::from_static(b"second")).expect("frontend accepted second message");
    let second = frontend_run.context.mailbox().try_recv().expect("message arrived");
    let (kept, error) = match frontend_run.context.send_when_ready("worker", second) {
        SendStep::AwaitBinding { envelope, error } => (envelope, error),
        other => panic!("frontend should wait for the worker to restart: {other:?}"),
    };

    let mut second_run = run(worker);
    let peer = frontend_run.context.peer("worker").expect("worker is linked");
    let current = peer.current_mailbox().expect("worker runs again");
    deliver(peer.rebound(Some(Some(current)), kept, error));
    assert_eq!(
        second_run.context.mailbox().try_recv().expect("worker saw it").as_slice(),
        b"second"
    );
}

#[test]
fn an_envelope_that_met_a_closed_mailbox_is_sent_again() {
    let set = pipeline();
    let worker = set.actor("worker").expect("actor exists");
    let sender = worker.actor_ref();
    let first_run = run(worker);
    let step = sender.send_when_ready(Envelope::from_static(b"job"));
    let envelope = match step {
        SendStep::Deliver { envelope, .. } => envelope,
        other => panic!("unexpected step: {other:?}"),
    };
    drop(first_run);
    let (envelope, error) = match sender.delivered(Err(envelope)) {
        SendStep::AwaitBinding { envelope, error } => (envelope, error),
        other => panic!("unexpected step: {other:?}"),
    };
    assert_eq!(error, SendError::MailboxClosed { actor_id: "worker".to_owned() });
    let mut second_run = run(worker);
    let current = sender.current_mailbox().expect("worker runs again");
    deliver(sender.attempt(Some(current), envelope));
    assert_eq!(
        second_run.context.mailbox().try_recv().expect("worker saw it").as_slice(),
        b"job"
    );
    assert!(matches!(
        sender.rebound(None, Envelope::from_static(b"late"), error),
        SendStep::Done(Err(SendError::MailboxClosed { .. }))
    ));
}

#[test]
fn sets_list_their_actors_in_order() {
    let set = pipeline();
    let ids: Vec<&str> = set.actors().iter().map(|actor| actor.id()).collect();
    assert_eq!(ids, vec!["frontend", "worker"]);
    assert!(set.actor("missing").is_none());
    assert!(set.ingress("missing").is_none());
    assert_eq!(set.ingresses().len(), 1);
    let frontend = set.actor("frontend").expect("actor exists");
    assert_eq!(frontend.ingress_count(), 1);
    assert_eq!(frontend.ingress_name(0), "requests");
    assert_eq!(set.actor("worker").expect("actor exists").ingress_count(), 0);
    assert_eq!(frontend.settings().mailbox_capacity, 64);
}

#[test]
fn ends_of_runs_are_told_apart() {
    let set = pipeline();
    let worker = set.actor("worker").expect("actor exists");
    let clean = worker.finish(ActorJoin::Returned(Ok(())), true);
    assert_eq!(clean.status, ActorExitStatus::Shutdown);
    assert!(matches!(clean.end, ActorRunEnd::Finished(Ok(()))));
    assert_eq!(
        worker.finish(ActorJoin::Returned(Ok(())), false).status,
        ActorExitStatus::Stopped
    );
    let panicked = worker.finish(ActorJoin::Panicked, false);
    assert_eq!(panicked.status, ActorExitStatus::Panicked);
    assert!(matches!(panicked.end, ActorRunEnd::Panicked));
    let cancelled = worker.finish(ActorJoin::Cancelled, false);
    assert_eq!(cancelled.status, ActorExitStatus::Cancelled);
    assert_eq!(cancelled.error, Some("actor `worker` returned an error".to_owned()));
    match cancelled.end {
        ActorRunEnd::Finished(Err(ActorRunError::Failed { actor_id, source })) => {
            assert_eq!(actor_id, "worker");
            assert_eq!(source.message(), "actor `worker` task was cancelled");
        }
        other => panic!("unexpected end: {other:?}"),
    }
}

#[test]
fn a_request_to_shut_down_reaches_the_actor_once() {
    let set = pipeline();
    let worker = set.actor("worker").expect("actor exists");
    let start = worker.start();
    let mut run = ActorRun::new(start.shutdown);
    assert!(run.awaits_shutdown());
    assert!(!start.context.is_shutting_down());
    run.request_shutdown();
    assert!(!run.awaits_shutdown());
    assert!(start.context.is_shutting_down());
    let (report, _) = run.joined(worker, ActorJoin::Returned(Ok(())));
    assert_eq!(report.status, ActorExitStatus::Shutdown);

    let undisturbed = ActorRun::new(worker.start().shutdown);
    let (report, _) = undisturbed.joined(worker, ActorJoin::Returned(Ok(())));
    assert_eq!(report.status, ActorExitStatus::Stopped);
}

#[test]
fn registry_tracks_registered_actor_refs() {
    let graph = GraphBuilder::new().actor(actor("worker")).build().expect("valid graph");

    let actor_set = graph.into_actor_set().expect("graph decomposes");
    let worker = actor_set.actor("worker").expect("worker exists");
    let mut registry = ActorRegistry::new();

    worker.register_with(&mut registry).expect("worker registers successfully");

    assert!(registry.contains("worker"));
    assert_eq!(registry.actor_ids(), vec!["worker".to_owned()]);
    assert_eq!(registry.actor_ref("worker").expect("actor ref exists").id(), "worker");

    registry.deregister("worker").expect("worker deregisters successfully");
    assert!(!registry.contains("worker"));
    assert!(registry.actor_ref("worker").is_none());
}

#[test]
fn registry_lists_ids_in_sorted_order() {
    let mut registry = ActorRegistry::default();
    for id in ["worker", "b", "äther", "ab", "a", "Z"] {
        registry
            .register_entry(id.to_owned(), MailboxBinding::default())
            .expect("id is registered");
    }
    assert_eq!(registry.actor_ids(), vec!["Z", "a", "ab", "b", "worker", "äther"]);
}

#[test]
fn registry_errors_say_what_is_wrong() {
    let mut registry = ActorRegistry::new();
    registry
        .register_entry("worker".to_owned(), MailboxBinding::default())
        .expect("id is registered");
    let duplicate = registry
        .register_entry("worker".to_owned(), MailboxBinding::default())
        .expect_err("the id is taken");
    assert_eq!(duplicate, RegistryError::DuplicateActorId("worker".to_owned()));
    assert_eq!(duplicate.message(), "duplicate actor id `worker`");
    let empty = registry
        .register_entry(String::new(), MailboxBinding::default())
        .expect_err("the id is empty");
    assert_eq!(empty.message(), "actor id must not be empty");
    let unknown = registry.deregister("ghost").expect_err("there is no such actor");
    assert_eq!(unknown.message(), "unknown actor `ghost`");
    assert_eq!(registry.deregister(""), Err(RegistryError::EmptyActorId));
}

#[test]
fn registered_refs_follow_the_actor() {
    let set = pipeline();
    let worker = set.actor("worker").expect("actor exists");
    let mut registry = ActorRegistry::new();
    worker.register_with(&mut registry).expect("worker registers");
    let sender = registry
        .actor_ref_for_source("worker", Some(&"frontend".to_owned()))
        .expect("worker is registered");
    assert_eq!(sender.source_actor_id(), Some("frontend"));
    assert_eq!(
        sender.try_send(Envelope::from_static(b"early")),
        Err(SendError::ActorNotRunning { actor_id: "worker".to_owned() })
    );
    let mut start = run(worker);
    sender.try_send(Envelope::from_static(b"late")).expect("worker runs");
    assert_eq!(
        start.context.mailbox().try_recv().expect("message arrived").as_slice(),
        b"late"
    );
}

#[test]
fn factories_wire_registered_peers() {
    let set = pipeline();
    let mut registry = ActorRegistry::new();
    let worker = set.actor("worker").expect("actor exists");
    worker.register_with(&mut registry).expect("worker registers");
    let factory = set.dynamic_factory();
    let lone = factory.actor(actor("lone"));
    assert!(lone.start().context.peer("worker").is_none());
    let linked = factory
        .actor_with_peer_ids(actor("linked"), &registry, &vec!["worker".to_owned()])
        .expect("peers are registered");
    let peer: ActorRef = linked.start().context.peer("worker").expect("worker is a peer");
    assert_eq!(peer.source_actor_id(), Some("linked"));
    let error = factory
        .actor_with_peer_ids(
            actor("stray"),
            &registry,
            &vec!["worker".to_owned(), "ghost".to_owned(), "other".to_owned()],
        )
        .expect_err("not all peers are registered");
    assert_eq!(error, RegistryError::UnknownActorId("ghost".to_owned()));
}

#[test]
fn envelopes_keep_their_bytes() {
    let envelope = Envelope::from(vec![1u8, 2, 3]);
    assert_eq!(envelope.as_slice(), &[1u8, 2, 3][..]);
    let copy = envelope.clone();
    assert_eq!(copy, envelope);
    assert_eq!(Envelope::new(copy.into_payload()).payload().len(), 3);
    assert_eq!(Envelope::from(&b"static"[..]).as_slice(), b"static");
    assert_eq!(Envelope::from_static(b"static").as_slice(), b"static");
}
