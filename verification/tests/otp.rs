use tokio_otp::actor::binding::{bind_all, clear_all};
use tokio_otp::actor::{
    ActorRegistry, ActorSpec, Envelope, Graph, GraphBuilder, RegistryError, SendError,
};
use tokio_otp::directory::Directory;
use tokio_otp::otp::{
    BuildError, ChildWork, DynamicActorError, DynamicActorOptions, Runtime, RuntimeHandle,
    SupervisedActors, SupervisedGraph,
};
use tokio_otp::supervisor::{
    ChildSpec, ControlError, Restart, RestartIntensity, ShutdownMode, ShutdownPolicy, Strategy,
    Supervisor, SupervisorBuilder,
};
use tokio_otp::time::Duration;

fn actor(id: &str) -> ActorSpec<()> {
    ActorSpec::from_actor(id.to_owned(), ())
}

fn pipeline() -> Graph<()> {
    GraphBuilder::new()
        .actor(actor("frontend"))
        .actor(actor("worker"))
        .link("frontend".to_owned(), "worker".to_owned())
        .ingress("requests".to_owned(), "frontend".to_owned())
        .build()
        .expect("valid graph")
}

fn build_runtime(graph: Graph<()>) -> Runtime<(), ()> {
    SupervisedActors::new(graph)
        .expect("graph decomposes")
        .build_runtime(SupervisorBuilder::new().strategy(Strategy::OneForOne))
        .expect("runtime builds")
}

fn ids(supervisor: &Supervisor<ChildWork<(), ()>>) -> Vec<&str> {
    supervisor.children().iter().map(|child| child.id()).collect()
}

fn add(
    handle: &mut RuntimeHandle,
    id: &str,
    options: DynamicActorOptions,
) -> Result<ChildSpec<ChildWork<(), ()>>, DynamicActorError> {
    let added = handle.add_actor::<(), ()>(actor(id), options)?;
    handle.actor_added(added.actor_ref, Ok(()))?;
    Ok(added.child)
}

#[test]
fn supervised_actors_reject_unknown_actor_overrides() {
    let graph = GraphBuilder::new().actor(actor("worker")).build().expect("valid graph");

    let result = SupervisedActors::new(graph)
        .expect("graph decomposes")
        .actor_restart("missing".to_owned(), Restart::Permanent)
        .build::<()>();

    assert!(matches!(
        result,
        Err(BuildError::UnknownActor { actor_id }) if actor_id == "missing"
    ));
}

#[test]
fn overrides_apply_to_their_actor_alone() {
    let (children, ingresses) = SupervisedActors::new(pipeline())
        .expect("graph decomposes")
        .restart(Restart::Permanent)
        .shutdown(ShutdownPolicy::abort())
        .actor_restart("worker".to_owned(), Restart::Temporary)
        .actor_shutdown(
            "worker".to_owned(),
            ShutdownPolicy::cooperative(Duration::from_secs(1)),
        )
        .actor_restart_intensity(
            "frontend".to_owned(),
            RestartIntensity::new(2, Duration::from_secs(3)),
        )
        .build::<()>()
        .expect("overrides apply");
    assert_eq!(children.len(), 2);
    assert_eq!(children[0].id(), "frontend");
    assert_eq!(children[0].restart_policy(), Restart::Permanent);
    assert_eq!(children[0].shutdown_policy().mode, ShutdownMode::Abort);
    assert_eq!(
        children[0].restart_intensity_override(),
        Some(RestartIntensity::new(2, Duration::from_secs(3)))
    );
    assert_eq!(children[1].id(), "worker");
    assert_eq!(children[1].restart_policy(), Restart::Temporary);
    assert_eq!(children[1].shutdown_policy().mode, ShutdownMode::Cooperative);
    assert_eq!(children[1].restart_intensity_override(), None);
    assert!(matches!(children[1].factory(), ChildWork::Actor(actor) if actor.id() == "worker"));
    assert_eq!(ingresses.len(), 1);
}

#[test]
fn actors_join_the_children_of_the_builder() {
    let builder = SupervisorBuilder::new()
        .child(ChildSpec::new("seed".to_owned(), ChildWork::Task(())));
    let (supervisor, _) = SupervisedActors::new(pipeline())
        .expect("graph decomposes")
        .build_supervisor(builder)
        .expect("supervisor builds");
    assert_eq!(ids(&supervisor), vec!["seed", "frontend", "worker"]);

    let clash = SupervisorBuilder::new()
        .child(ChildSpec::new("worker".to_owned(), ChildWork::Task(())));
    let error = SupervisedActors::new(pipeline())
        .expect("graph decomposes")
        .build_supervisor(clash)
        .expect_err("the id is taken");
    assert_eq!(error.message(), "duplicate child id: worker");
}

#[test]
fn static_actor_can_send_to_runtime_added_actor() {
    let runtime = build_runtime(pipeline());
    let (_, mut handle) = runtime.spawn();
    assert!(handle.ingress("requests").is_some());
    assert!(handle.actor_ref("frontend").is_some());

    let added = handle
        .add_actor::<(), ()>(actor("dynamic"), DynamicActorOptions::default())
        .expect("dynamic actor added");
    let dynamic_ref =
        handle.actor_added(added.actor_ref, Ok(())).expect("the supervisor takes it in");
    let dynamic = match added.child.factory() {
        ChildWork::Actor(actor) => actor,
        other => panic!("unexpected work: {other:?}"),
    };
    let mut start = dynamic.start();
    bind_all(&start.placements);
    dynamic_ref.try_send(Envelope::from_static(b"hello-dynamic")).expect("message sent");
    assert_eq!(
        start.context.mailbox().try_recv().expect("message observed").as_slice(),
        b"hello-dynamic"
    );
    assert!(handle.actor_ref("dynamic").is_some());
}

#[test]
fn runtime_added_actor_can_use_configured_peer_ids() {
    let graph = GraphBuilder::new().actor(actor("sink")).build().expect("valid graph");
    let (supervisor, mut handle) = build_runtime(graph).spawn();
    let sink = match supervisor.children()[0].factory() {
        ChildWork::Actor(actor) => actor,
        other => panic!("unexpected work: {other:?}"),
    };
    let mut sink_run = sink.start();
    bind_all(&sink_run.placements);

    let child = add(
        &mut handle,
        "dynamic",
        DynamicActorOptions {
            peer_ids: vec!["sink".to_owned()],
            ..DynamicActorOptions::default()
        },
    )
    .expect("dynamic actor added");
    let dynamic = match child.factory() {
        ChildWork::Actor(actor) => actor,
        other => panic!("unexpected work: {other:?}"),
    };
    let start = dynamic.start();
    start
        .context
        .try_send("sink", Envelope::from_static(b"forwarded"))
        .expect("message sent to sink");
    assert_eq!(
        sink_run.context.mailbox().try_recv().expect("sink observed it").as_slice(),
        b"forwarded"
    );

    let stray = add(
        &mut handle,
        "stray",
        DynamicActorOptions {
            peer_ids: vec!["ghost".to_owned()],
            ..DynamicActorOptions::default()
        },
    );
    assert!(matches!(
        stray,
        Err(DynamicActorError::Registry(RegistryError::UnknownActorId(id))) if id == "ghost"
    ));
    assert!(handle.actor_ref("stray").is_none());
}

#[test]
fn remove_actor_deregisters_runtime_added_actor() {
    let graph = GraphBuilder::new().actor(actor("seed")).build().expect("valid graph");
    let (_, mut handle) = build_runtime(graph).spawn();
    let child =
        add(&mut handle, "dynamic", DynamicActorOptions::default()).expect("dynamic actor added");
    let dynamic = match child.factory() {
        ChildWork::Actor(actor) => actor,
        other => panic!("unexpected work: {other:?}"),
    };
    let dynamic_ref = handle.actor_ref("dynamic").expect("actor is registered");
    bind_all(&dynamic.start().placements);

    assert_eq!(handle.remove_actor("dynamic").expect("removal begins"), "dynamic");
    clear_all(&dynamic.slots());
    handle.actor_removed("dynamic", Ok(())).expect("dynamic actor removed");

    assert!(handle.actor_ref("dynamic").is_none());
    assert!(matches!(
        dynamic_ref.try_send(Envelope::from_static(b"gone")),
        Err(SendError::ActorNotRunning { actor_id }) if actor_id == "dynamic"
    ));
    assert!(matches!(
        handle.actor_removed("dynamic", Ok(())),
        Err(DynamicActorError::Registry(RegistryError::UnknownActorId(id))) if id == "dynamic"
    ));
}

#[test]
fn manual_runtime_reports_dynamic_support_as_unavailable() {
    let supervisor: Supervisor<ChildWork<(), ()>> = SupervisorBuilder::new()
        .child(ChildSpec::new("seed".to_owned(), ChildWork::Task(())))
        .build()
        .expect("valid supervisor");

    let runtime = Runtime::new(supervisor, Directory::new());
    let (_, mut handle) = runtime.spawn();

    let err = handle
        .add_actor::<(), ()>(actor("dynamic"), DynamicActorOptions::default())
        .expect_err("manual runtime should not support dynamic actors");
    assert!(matches!(err, DynamicActorError::Unsupported));
    assert_eq!(err.message(), "dynamic actor support is unavailable for this runtime");
    assert!(matches!(handle.remove_actor("seed"), Err(DynamicActorError::Unsupported)));
    assert!(handle.actor_ref("seed").is_none());
}

#[test]
fn a_refused_actor_leaves_no_trace() {
    let (_, mut handle) = build_runtime(pipeline()).spawn();
    let added = handle
        .add_actor::<(), ()>(actor("dynamic"), DynamicActorOptions::default())
        .expect("dynamic actor is made");
    assert!(handle.actor_ref("dynamic").is_some());
    let error = handle
        .actor_added(added.actor_ref, Err(ControlError::SupervisorStopping))
        .expect_err("the supervisor refuses it");
    assert!(matches!(error, DynamicActorError::Control(ControlError::SupervisorStopping)));
    assert!(handle.actor_ref("dynamic").is_none());
    let kept = handle.actor_removed("worker", Err(ControlError::Busy));
    assert!(matches!(kept, Err(DynamicActorError::Control(ControlError::Busy))));
    assert!(handle.actor_ref("worker").is_some());
    let duplicate = add(&mut handle, "worker", DynamicActorOptions::default());
    assert!(matches!(
        duplicate,
        Err(DynamicActorError::Registry(RegistryError::DuplicateActorId(id))) if id == "worker"
    ));
}

#[test]
fn supervised_actors_restart_only_the_failed_actor() {
    let (supervisor, _) = SupervisedActors::new(pipeline())
        .expect("graph decomposes")
        .restart(Restart::Transient)
        .build_supervisor::<()>(SupervisorBuilder::new().strategy(Strategy::OneForOne))
        .expect("supervisor builds");
    let mut runtime = supervisor.runtime(Vec::new());
    let now = Duration::zero();
    let plans = runtime.start(now).expect("children start");
    let failed = tokio_otp::supervisor::runtime::exit::ExitStatus::Failed(
        tokio_otp::supervisor::BoxError::new("boom".to_owned()),
    );
    runtime.handle_exit(plans[1].task, failed, now, 0).expect("task is known");
    for key in runtime.due_children(now) {
        runtime.restart_child(key, now).expect("restarts");
    }
    let snapshot = runtime.snapshot(now);
    assert_eq!(snapshot.child("frontend").expect("frontend exists").generation, 0);
    assert_eq!(snapshot.child("worker").expect("worker exists").generation, 1);
}

#[test]
fn whole_graphs_are_single_children() {
    let wrapped = SupervisedGraph::new("graph".to_owned(), pipeline());
    assert!(wrapped.ingress("requests").is_some());
    assert_eq!(wrapped.ingresses().len(), 1);
    let child = wrapped.into_child_spec::<()>();
    assert_eq!(child.id(), "graph");
    assert_eq!(child.restart_policy(), Restart::Transient);
    assert!(matches!(child.factory(), ChildWork::Graph(graph) if graph.actors().len() == 2));
}

#[test]
fn runtimes_come_apart() {
    let runtime = build_runtime(pipeline());
    assert_eq!(runtime.ingresses().len(), 1);
    assert!(runtime.ingress("missing").is_none());
    let (supervisor, ingresses) = runtime.into_parts();
    assert_eq!(ids(&supervisor), vec!["frontend", "worker"]);
    assert_eq!(ingresses.get(&"requests".to_owned()).expect("ingress").target(), "frontend");
}

#[test]
fn errors_convert_into_those_of_the_glue() {
    let registry = BuildError::from(RegistryError::EmptyActorId);
    assert_eq!(registry.message(), "actor id must not be empty");
    let unknown = BuildError::UnknownActor { actor_id: "ghost".to_owned() };
    assert_eq!(unknown.message(), "unknown actor `ghost`");
    assert!(ActorRegistry::new().actor_ids().is_empty());
}
