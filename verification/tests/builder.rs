use tokio_otp::supervisor::{
    BackoffPolicy, BuildError, ChildSpec, Restart, RestartIntensity, ShutdownMode, ShutdownPolicy,
    Strategy, SupervisorBuilder, SupervisorStateView,
};
use tokio_otp::time::Duration;

fn child(id: &str) -> ChildSpec<()> {
    ChildSpec::new(id.to_owned(), ())
}

fn rejected(builder: SupervisorBuilder<()>) -> BuildError {
    match builder.build() {
        Ok(_) => panic!("the configuration must be rejected"),
        Err(error) => error,
    }
}

#[test]
fn empty_children_are_rejected() {
    let err = rejected(SupervisorBuilder::new());

    assert!(matches!(err, BuildError::EmptyChildren));
}

#[test]
fn duplicate_child_ids_are_rejected() {
    let err = rejected(SupervisorBuilder::new().child(child("dup")).child(child("dup")));

    assert!(matches!(err, BuildError::DuplicateChildId(id) if id == "dup"));
}

#[test]
fn invalid_restart_intensity_is_rejected() {
    let err = rejected(
        SupervisorBuilder::new()
            .restart_intensity(RestartIntensity {
                max_restarts: 1,
                within: Duration::zero(),
                backoff: BackoffPolicy::Immediate,
            })
            .child(child("worker")),
    );

    assert!(matches!(err, BuildError::InvalidConfig(_)));
}

#[test]
fn invalid_jittered_restart_intensity_is_rejected() {
    let err = rejected(
        SupervisorBuilder::new()
            .restart_intensity(RestartIntensity {
                max_restarts: 1,
                within: Duration::from_secs(1),
                backoff: BackoffPolicy::JitteredExponential {
                    base: Duration::zero(),
                    factor: 2,
                    max: Duration::from_millis(10),
                },
            })
            .child(child("worker")),
    );

    assert!(matches!(err, BuildError::InvalidConfig(_)));
}

#[test]
fn invalid_fixed_backoff_delay_is_rejected() {
    let err = rejected(
        SupervisorBuilder::new()
            .restart_intensity(RestartIntensity {
                max_restarts: 1,
                within: Duration::from_secs(1),
                backoff: BackoffPolicy::Fixed(Duration::zero()),
            })
            .child(child("worker")),
    );

    assert!(matches!(err, BuildError::InvalidConfig(_)));
}

#[test]
fn invalid_exponential_restart_factor_is_rejected() {
    let err = rejected(
        SupervisorBuilder::new()
            .restart_intensity(RestartIntensity {
                max_restarts: 1,
                within: Duration::from_secs(1),
                backoff: BackoffPolicy::Exponential {
                    base: Duration::from_millis(10),
                    factor: 0,
                    max: Duration::from_millis(20),
                },
            })
            .child(child("worker")),
    );

    assert!(matches!(err, BuildError::InvalidConfig(_)));
}

#[test]
fn invalid_exponential_restart_max_is_rejected() {
    let err = rejected(
        SupervisorBuilder::new()
            .restart_intensity(RestartIntensity {
                max_restarts: 1,
                within: Duration::from_secs(1),
                backoff: BackoffPolicy::Exponential {
                    base: Duration::from_millis(10),
                    factor: 2,
                    max: Duration::zero(),
                },
            })
            .child(child("worker")),
    );

    assert!(matches!(err, BuildError::InvalidConfig(_)));
}

#[test]
fn invalid_child_restart_intensity_is_rejected() {
    let err = rejected(SupervisorBuilder::new().child(child("worker").restart_intensity(
        RestartIntensity {
            max_restarts: 1,
            within: Duration::zero(),
            backoff: BackoffPolicy::Immediate,
        },
    )));

    assert!(matches!(err, BuildError::InvalidConfig(_)));
}

#[test]
fn empty_child_id_is_rejected() {
    let err = rejected(SupervisorBuilder::new().child(child("")));

    assert!(matches!(err, BuildError::InvalidConfig(_)));
}

#[test]
fn zero_channel_capacities_are_rejected() {
    let control_err =
        rejected(SupervisorBuilder::new().control_channel_capacity(0).child(child("worker")));
    assert!(matches!(control_err, BuildError::InvalidConfig(_)));

    let event_err =
        rejected(SupervisorBuilder::new().event_channel_capacity(0).child(child("worker")));
    assert!(matches!(event_err, BuildError::InvalidConfig(_)));
}

#[test]
fn valid_configuration_builds() {
    let supervisor = SupervisorBuilder::new().child(child("worker")).build();

    assert!(supervisor.is_ok(), "expected valid configuration to build");
}

#[test]
fn build_errors_say_what_is_wrong() {
    assert_eq!(
        rejected(SupervisorBuilder::new()).message(),
        "supervisor requires at least one child"
    );
    assert_eq!(
        rejected(SupervisorBuilder::new().child(child("dup")).child(child("dup"))).message(),
        "duplicate child id: dup"
    );
    assert_eq!(
        rejected(SupervisorBuilder::new().child(child(""))).message(),
        "invalid supervisor configuration: child id must not be empty"
    );
}

#[test]
fn flaws_are_reported_in_order() {
    let err = rejected(
        SupervisorBuilder::new()
            .control_channel_capacity(0)
            .event_channel_capacity(0)
            .child(child("dup"))
            .child(child("dup")),
    );
    assert_eq!(err, BuildError::InvalidConfig("control channel capacity must be non-zero"));

    let err = rejected(
        SupervisorBuilder::new().child(child("dup")).child(child("dup")).child(child("")),
    );
    assert_eq!(err, BuildError::DuplicateChildId("dup".to_owned()));
}

#[test]
fn children_have_default_policies() {
    let child = child("worker");
    assert_eq!(child.id(), "worker");
    assert_eq!(child.restart_policy(), Restart::Transient);
    assert_eq!(child.restart_intensity_override(), None);
    assert_eq!(
        child.shutdown_policy(),
        ShutdownPolicy::new(Duration::from_secs(5), ShutdownMode::CooperativeThenAbort)
    );
    assert_eq!(ShutdownPolicy::abort().grace, Duration::zero());
    assert_eq!(ShutdownPolicy::abort().mode, ShutdownMode::Abort);
    assert_eq!(
        ShutdownPolicy::cooperative(Duration::from_secs(1)).mode,
        ShutdownMode::Cooperative
    );
}

#[test]
fn initial_snapshot_lists_children_as_starting() {
    let supervisor = SupervisorBuilder::new()
        .strategy(Strategy::OneForAll)
        .child(child("alpha"))
        .child(child("beta"))
        .build()
        .expect("valid supervisor");
    let snapshot = supervisor.initial_snapshot();
    assert_eq!(snapshot.state, SupervisorStateView::Running);
    assert_eq!(snapshot.strategy, Strategy::OneForAll);
    let ids: Vec<&str> = snapshot.children.iter().map(|child| child.id.as_str()).collect();
    assert_eq!(ids, vec!["alpha", "beta"]);
    assert_eq!(supervisor.event_channel_capacity(), 256);
    assert_eq!(supervisor.control_channel_capacity(), 64);
}
