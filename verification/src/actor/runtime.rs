//! A graph while it runs.

use tokio_util::sync::CancellationToken;
use vstd::prelude::*;

use crate::actor::actor::{ActorResult, BoxError};
use crate::actor::blocking::BlockingTaskFailure;
use crate::actor::delivery::{started, SendStep};
use crate::actor::envelope::Envelope;
use crate::actor::error::{GraphError, IngressError};
use crate::actor::graph::Graph;
use crate::actor::ingress::IngressHandle;
use crate::actor::observability::{ActorExitStatus, GraphShutdownCause};
use crate::directory::{Directory, TaskNumber};
use crate::token::{is_new, is_told};

verus! {

/// Whether a graph is running. It can run any number of times, but only once at
/// a time.
#[derive(Debug)]
pub struct ActiveRun {
    running: bool,
}

impl ActiveRun {
    /// Whether the graph is running.
    pub closed spec fn is_running(&self) -> bool {
        self.running
    }

    /// The graph is not running.
    pub fn new() -> (r: Self)
        ensures
            !r.is_running(),
    {
        ActiveRun { running: false }
    }

    /// Starts a run, unless there is one.
    pub fn start(&mut self) -> (r: Result<(), GraphError>)
        ensures
            old(self).engaged(r, *final(self)),
    {
        if self.running {
            return Err(GraphError::AlreadyRunning);
        }
        self.running = true;
        Ok(())
    }

    /// Ends the run: nothing reaches the actors or the ingress points of the graph
    /// any more, until it runs again. Returns the numbers of the ingress points
    /// that were bound.
    pub fn finish<F>(&mut self, graph: &Graph<F>) -> (r: Vec<usize>)
        ensures
            final(self).released(*graph, r@),
    {
        graph.clear_actors();
        let cleared = graph.clear_ingresses();
        self.running = false;
        cleared
    }

    /// Whether the latch is that of a graph whose run has ended, and `cleared`
    /// are the numbers of the ingress points that were bound.
    pub open spec fn released<F>(&self, graph: Graph<F>, cleared: Seq<usize>) -> bool {
        &&& !self.is_running()
        &&& graph.unbinds_actors()
        &&& graph.unbinds_ingresses(cleared)
    }

    /// Whether starting a run from here comes to `result` and leaves `after`.
    pub open spec fn engaged(&self, result: Result<(), GraphError>, after: ActiveRun) -> bool {
        &&& after.is_running()
        &&& if self.is_running() {
            result matches Err(error) && error is AlreadyRunning
        } else {
            result is Ok
        }
    }
}

/// A graph runs once at a time, and any number of times: a second run is refused
/// as long as there is one, which goes on; once that has ended, the next one is
/// not refused.
pub proof fn graphs_run_one_at_a_time<F>(
    graph: Graph<F>,
    idle: ActiveRun,
    first: Result<(), GraphError>,
    running: ActiveRun,
    second: Result<(), GraphError>,
    still_running: ActiveRun,
    ended: ActiveRun,
    cleared: Seq<usize>,
    third: Result<(), GraphError>,
    again: ActiveRun,
)
    requires
        !idle.is_running(),
        idle.engaged(first, running),
        running.engaged(second, still_running),
        ended.released(graph, cleared),
        ended.engaged(third, again),
    ensures
        first is Ok,
        second matches Err(error) && error is AlreadyRunning,
        still_running.is_running(),
        third is Ok,
{
}

/// A run that has ended leaves its ingress points unbound: the slot that a handle
/// follows was emptied, and what a handle sends while its slot is empty is
/// refused because the target is not running.
pub proof fn ended_runs_leave_ingresses_unbound<F>(
    graph: Graph<F>,
    ended: ActiveRun,
    cleared: Seq<usize>,
    name: Seq<char>,
    handle: IngressHandle,
    envelope: Envelope,
    step: SendStep<IngressError>,
)
    requires
        graph.wf(),
        ended.released(graph, cleared),
        graph.entrances().contains_key(name),
        graph.leads_into(name, handle),
        started(handle, None, envelope, step),
    ensures
        graph.entrances()[name].slot().is_emptied(),
        graph.entrances()[name].slot().shows(handle.follows()),
        step matches SendStep::Done(Err(IngressError::NotRunning { ingress, actor_id }))
            && ingress@ == name && actor_id@ == handle.actor(),
{
    assert(graph.entrance_names().to_set().contains(name));
    let i = graph.entrance_names().index_of(name);
    assert(graph.entrances()[graph.entrance_names()[i]].slot().unbinds(
        cleared.contains(i as usize),
    ));
}

/// What can happen while an actor's task waits for its actor.
#[derive(Debug)]
pub enum ActorTaskEvent {
    /// The actor's future returned.
    Returned(ActorResult),
    /// A blocking task ended, with this failure for the actor to fail with, if
    /// any.
    BlockingCompleted(Option<BlockingTaskFailure>),
    /// No blocking task can end any more.
    BlockingClosed,
}

/// An actor's task, which waits for the actor and looks after its blocking
/// tasks.
#[derive(Debug)]
pub struct ActorTask {
    shutdown: CancellationToken,
    blocking_events_open: bool,
}

impl ActorTask {
    /// Whether there can be news of blocking tasks.
    pub closed spec fn expects_blocking(&self) -> bool {
        self.blocking_events_open
    }

    /// The token that asks the actor to stop.
    pub closed spec fn stop(&self) -> CancellationToken {
        self.shutdown
    }

    /// A task that has just started to wait for an actor.
    pub fn new(shutdown: CancellationToken) -> (r: Self)
        ensures
            r.expects_blocking(),
            r.stop() == shutdown,
    {
        ActorTask { shutdown, blocking_events_open: true }
    }

    /// Whether to listen for news of blocking tasks.
    pub fn awaits_blocking(&self) -> (r: bool)
        ensures
            r == self.expects_blocking(),
    {
        self.blocking_events_open
    }

    /// Takes note of what has happened. Returns the actor's result once it is
    /// decided: what the actor returned, or the failure of a blocking task that
    /// nobody waits for, whichever comes first. Such a failure asks what is left
    /// of the actor to stop.
    pub fn step(&mut self, event: ActorTaskEvent) -> (r: Option<ActorResult>)
        ensures
            final(self).stop() == old(self).stop(),
            event matches ActorTaskEvent::BlockingCompleted(Some(_)) ==> is_told(old(self).stop()),
            final(self).expects_blocking() == (old(self).expects_blocking() && !(
            event is BlockingClosed)),
            r == match event {
                ActorTaskEvent::Returned(result) => Some(result),
                ActorTaskEvent::BlockingCompleted(Some(failure)) => Some(
                    Err::<(), _>(BoxError::BlockingTask(failure)),
                ),
                ActorTaskEvent::BlockingCompleted(None) => None,
                ActorTaskEvent::BlockingClosed => None,
            },
    {
        match event {
            ActorTaskEvent::Returned(result) => Some(result),
            ActorTaskEvent::BlockingCompleted(Some(failure)) => {
                self.shutdown.cancel();
                Some(Err(BoxError::BlockingTask(failure)))
            },
            ActorTaskEvent::BlockingCompleted(None) => None,
            ActorTaskEvent::BlockingClosed => {
                self.blocking_events_open = false;
                None
            },
        }
    }
}

/// How an actor's run ended.
#[derive(Debug)]
pub struct ActorTaskExit {
    /// The actor.
    pub actor_id: String,
    /// What it returned.
    pub result: ActorResult,
}

impl ActorTaskExit {
    /// How the end is reported, depending on whether shutdown was requested
    /// before.
    pub open spec fn exit_status(self, shutdown_requested: bool) -> ActorExitStatus {
        match self.result {
            Ok(()) => if shutdown_requested {
                ActorExitStatus::Shutdown
            } else {
                ActorExitStatus::Stopped
            },
            Err(_) => ActorExitStatus::Failed,
        }
    }

    /// How the end is reported.
    pub fn status(&self, shutdown_requested: bool) -> (r: ActorExitStatus)
        ensures
            r == self.exit_status(shutdown_requested),
    {
        match &self.result {
            Ok(()) => {
                if shutdown_requested {
                    ActorExitStatus::Shutdown
                } else {
                    ActorExitStatus::Stopped
                }
            },
            Err(_) => ActorExitStatus::Failed,
        }
    }

    /// The cause of shutdown that the end amounts to.
    pub fn shutdown_cause(&self, shutdown_requested: bool) -> (r: GraphShutdownCause)
        ensures
            r == cause_of_status(self.exit_status(shutdown_requested)),
    {
        match self.status(shutdown_requested) {
            ActorExitStatus::Shutdown => GraphShutdownCause::External,
            ActorExitStatus::Stopped => GraphShutdownCause::ActorStopped,
            ActorExitStatus::Failed => GraphShutdownCause::ActorFailed,
            ActorExitStatus::Panicked => GraphShutdownCause::ActorPanicked,
            ActorExitStatus::Cancelled => GraphShutdownCause::ActorCancelled,
        }
    }
}

/// The cause of shutdown that the end of an actor amounts to.
pub open spec fn cause_of_status(status: ActorExitStatus) -> GraphShutdownCause {
    match status {
        ActorExitStatus::Shutdown => GraphShutdownCause::External,
        ActorExitStatus::Stopped => GraphShutdownCause::ActorStopped,
        ActorExitStatus::Failed => GraphShutdownCause::ActorFailed,
        ActorExitStatus::Panicked => GraphShutdownCause::ActorPanicked,
        ActorExitStatus::Cancelled => GraphShutdownCause::ActorCancelled,
    }
}

/// The error that the end of an actor amounts to: none if it returned cleanly
/// after shutdown was requested.
pub open spec fn exit_error(exit: ActorTaskExit, shutdown_requested: bool) -> Option<GraphError> {
    match exit.result {
        Ok(()) => if shutdown_requested {
            None
        } else {
            Some(GraphError::ActorStopped { actor_id: exit.actor_id })
        },
        Err(source) => Some(GraphError::ActorFailed { actor_id: exit.actor_id, source }),
    }
}

/// The error that the end of an actor amounts to.
pub fn classify_actor_exit(exit: ActorTaskExit, shutdown_requested: bool) -> (r: Option<GraphError>)
    ensures
        r == exit_error(exit, shutdown_requested),
{
    match exit.result {
        Ok(()) => {
            if shutdown_requested {
                None
            } else {
                Some(GraphError::ActorStopped { actor_id: exit.actor_id })
            }
        },
        Err(source) => Some(GraphError::ActorFailed { actor_id: exit.actor_id, source }),
    }
}

/// The cause of shutdown that an error amounts to.
pub open spec fn cause_of_error(error: GraphError) -> GraphShutdownCause {
    match error {
        GraphError::ActorStopped { .. } => GraphShutdownCause::ActorStopped,
        GraphError::ActorFailed { .. } => GraphShutdownCause::ActorFailed,
        GraphError::ActorPanicked { .. } => GraphShutdownCause::ActorPanicked,
        GraphError::ActorCancelled { .. } => GraphShutdownCause::ActorCancelled,
        GraphError::AlreadyRunning => GraphShutdownCause::External,
        GraphError::InvalidState { .. } => GraphShutdownCause::External,
    }
}

/// The cause of shutdown that an error amounts to.
pub fn graph_shutdown_cause_for_error(error: &GraphError) -> (r: GraphShutdownCause)
    ensures
        r == cause_of_error(*error),
{
    match error {
        GraphError::ActorStopped { .. } => GraphShutdownCause::ActorStopped,
        GraphError::ActorFailed { .. } => GraphShutdownCause::ActorFailed,
        GraphError::ActorPanicked { .. } => GraphShutdownCause::ActorPanicked,
        GraphError::ActorCancelled { .. } => GraphShutdownCause::ActorCancelled,
        GraphError::AlreadyRunning => GraphShutdownCause::External,
        GraphError::InvalidState { .. } => GraphShutdownCause::External,
    }
}

/// How the task of an actor was joined.
#[derive(Debug)]
pub enum JoinedActor {
    /// It ended by itself.
    Returned {
        /// The number of the task.
        task: u64,
        /// How the actor ended.
        exit: ActorTaskExit,
    },
    /// It panicked.
    Panicked {
        /// The number of the task.
        task: u64,
    },
    /// It was cancelled from outside.
    Cancelled {
        /// The number of the task.
        task: u64,
    },
}

impl JoinedActor {
    /// The number of the task.
    pub open spec fn number(self) -> nat {
        match self {
            JoinedActor::Returned { task, .. } => task as nat,
            JoinedActor::Panicked { task } => task as nat,
            JoinedActor::Cancelled { task } => task as nat,
        }
    }
}

/// The actor that a task belongs to, as far as it is known.
pub open spec fn actor_of(tasks: Map<nat, String>, task: nat) -> Seq<char> {
    if tasks.contains_key(task) {
        tasks[task]@
    } else {
        "<unknown>"@
    }
}

/// Whether `outcome` is what a joined task comes to: how its actor ended, or the
/// error that it did not end by itself.
pub open spec fn classified(
    tasks: Map<nat, String>,
    joined: JoinedActor,
    outcome: Result<ActorTaskExit, GraphError>,
) -> bool {
    match joined {
        JoinedActor::Returned { exit, .. } => outcome == Ok::<_, GraphError>(exit),
        JoinedActor::Panicked { task } => outcome matches Err(
            GraphError::ActorPanicked { actor_id },
        ) && actor_id@ == actor_of(tasks, task as nat),
        JoinedActor::Cancelled { task } => outcome matches Err(
            GraphError::ActorCancelled { actor_id },
        ) && actor_id@ == actor_of(tasks, task as nat),
    }
}

/// What a graph run decides by.
#[verifier::ext_equal]
pub ghost struct RunState {
    /// Which actor each task belongs to.
    pub tasks: Map<nat, String>,
    /// Whether the caller has requested shutdown.
    pub shutdown_requested: bool,
    /// Whether the actors have been asked to stop.
    pub stopping: bool,
    /// The first failure.
    pub failure: Option<GraphError>,
}

/// What can happen to a graph run.
pub ghost enum RunEvent {
    /// The caller requests shutdown.
    ShutdownRequested,
    /// A task was joined, which comes to this.
    Joined(JoinedActor, Result<ActorTaskExit, GraphError>),
}

impl RunEvent {
    /// The failure that the event amounts to.
    pub open spec fn failure(self, shutdown_requested: bool) -> Option<GraphError> {
        match self {
            RunEvent::ShutdownRequested => None,
            RunEvent::Joined(_, Ok(exit)) => exit_error(exit, shutdown_requested),
            RunEvent::Joined(_, Err(error)) => Some(error),
        }
    }

    /// The cause of shutdown that the event amounts to, if it is one.
    pub open spec fn cause(self, shutdown_requested: bool) -> Option<GraphShutdownCause> {
        match self {
            RunEvent::ShutdownRequested => Some(GraphShutdownCause::External),
            RunEvent::Joined(_, Ok(exit)) => if !shutdown_requested || exit.result is Err {
                Some(cause_of_status(exit.exit_status(shutdown_requested)))
            } else {
                None
            },
            RunEvent::Joined(_, Err(error)) => Some(cause_of_error(error)),
        }
    }
}

impl RunState {
    /// The state after an event.
    pub open spec fn after(self, event: RunEvent) -> RunState {
        RunState {
            tasks: match event {
                RunEvent::ShutdownRequested => self.tasks,
                RunEvent::Joined(joined, _) => self.tasks.remove(joined.number()),
            },
            shutdown_requested: self.shutdown_requested || event is ShutdownRequested,
            stopping: self.stopping || event.cause(self.shutdown_requested) is Some,
            failure: match self.failure {
                Some(failure) => Some(failure),
                None => event.failure(self.shutdown_requested),
            },
        }
    }

    /// The cause for which an event makes the actors stop.
    pub open spec fn stop_cause(self, event: RunEvent) -> Option<GraphShutdownCause> {
        if self.stopping {
            None
        } else {
            event.cause(self.shutdown_requested)
        }
    }

    /// The state after a number of events.
    pub open spec fn after_all(self, events: Seq<RunEvent>) -> RunState
        decreases events.len(),
    {
        if events.len() == 0 {
            self
        } else {
            self.after_all(events.drop_last()).after(events.last())
        }
    }
}

/// Whether the caller requested shutdown within `events`.
pub open spec fn shutdown_within(events: Seq<RunEvent>) -> bool {
    exists|i: int| 0 <= i < events.len() && #[trigger] events[i] is ShutdownRequested
}

/// Whether event number `i` is a fault: an actor failed, panicked or was
/// cancelled, or returned although nobody had requested shutdown.
pub open spec fn is_fault(events: Seq<RunEvent>, i: int) -> bool {
    events[i].failure(shutdown_within(events.take(i))) is Some
}

proof fn lemma_requested(start: RunState, events: Seq<RunEvent>)
    requires
        !start.shutdown_requested,
    ensures
        start.after_all(events).shutdown_requested == shutdown_within(events),
    decreases events.len(),
{
    if events.len() > 0 {
        let before = events.drop_last();
        lemma_requested(start, before);
        if shutdown_within(before) {
            let i = choose|i: int| 0 <= i < before.len() && #[trigger] before[i] is ShutdownRequested;
            assert(events[i] is ShutdownRequested);
        }
        if events.last() is ShutdownRequested {
            assert(events[events.len() - 1] is ShutdownRequested);
        }
        if shutdown_within(events) && !(events.last() is ShutdownRequested) {
            let i = choose|i: int| 0 <= i < events.len() && #[trigger] events[i] is ShutdownRequested;
            assert(before[i] is ShutdownRequested);
        }
    }
}

/// A run succeeds exactly if it saw no fault, and otherwise fails with the first
/// one, whatever happened after it.
pub proof fn first_fault_decides(start: RunState, events: Seq<RunEvent>)
    requires
        !start.shutdown_requested,
        start.failure is None,
    ensures
        start.after_all(events).failure is None <==> forall|i: int|
            0 <= i < events.len() ==> !#[trigger] is_fault(events, i),
        forall|i: int|
            0 <= i < events.len() && #[trigger] is_fault(events, i) && (forall|j: int|
                0 <= j < i ==> !#[trigger] is_fault(events, j)) ==> start.after_all(events).failure
                == events[i].failure(shutdown_within(events.take(i))),
    decreases events.len(),
{
    if events.len() > 0 {
        let before = events.drop_last();
        let n = before.len() as int;
        first_fault_decides(start, before);
        lemma_requested(start, before);
        assert(events.take(n) =~= before);
        assert forall|i: int| 0 <= i < n implies is_fault(before, i) == is_fault(events, i) by {
            assert(before.take(i) =~= events.take(i));
        }
        if start.after_all(before).failure is Some {
            assert(!(forall|i: int| 0 <= i < n ==> !#[trigger] is_fault(before, i)));
            let k = choose|i: int| 0 <= i < n && #[trigger] is_fault(before, i);
            assert(is_fault(events, k));
        }
        assert forall|i: int|
            0 <= i < events.len() && #[trigger] is_fault(events, i) && (forall|j: int|
                0 <= j < i ==> !#[trigger] is_fault(events, j)) implies start.after_all(
            events,
        ).failure == events[i].failure(shutdown_within(events.take(i))) by {
            if i < n {
                assert(is_fault(before, i));
                assert forall|j: int| 0 <= j < i implies !#[trigger] is_fault(before, j) by {
                    assert(!is_fault(events, j));
                }
                assert(before.take(i) =~= events.take(i));
            } else {
                assert forall|j: int| 0 <= j < n implies !#[trigger] is_fault(before, j) by {
                    assert(!is_fault(events, j));
                }
            }
        }
        if start.after_all(events).failure is None {
            assert forall|i: int| 0 <= i < events.len() implies !#[trigger] is_fault(events, i) by {
                if i < n {
                    assert(!is_fault(before, i));
                }
            }
        } else if forall|i: int| 0 <= i < events.len() ==> !#[trigger] is_fault(events, i) {
            assert forall|i: int| 0 <= i < n implies !#[trigger] is_fault(before, i) by {
                assert(!is_fault(events, i));
            }
            assert(!is_fault(events, n));
        }
    }
}

/// The actors are asked to stop no later than at the first fault, and at the
/// latest when the caller requests it.
pub proof fn faults_stop_the_run(start: RunState, events: Seq<RunEvent>)
    requires
        !start.shutdown_requested,
        start.failure is None,
    ensures
        start.after_all(events).failure is Some ==> start.after_all(events).stopping,
        shutdown_within(events) ==> start.after_all(events).stopping,
    decreases events.len(),
{
    if events.len() > 0 {
        let before = events.drop_last();
        faults_stop_the_run(start, before);
        if shutdown_within(events) && !(events.last() is ShutdownRequested) {
            let i = choose|i: int| 0 <= i < events.len() && #[trigger] events[i] is ShutdownRequested;
            assert(before[i] is ShutdownRequested);
        }
    }
}

/// What a joined task is reported as, and what is to be done about it.
#[derive(Debug)]
pub struct JoinReport {
    /// The actor.
    pub actor_id: String,
    /// How it ended.
    pub status: ActorExitStatus,
    /// The error that it returned, in words.
    pub error: Option<String>,
    /// How the graph was stopped, if it was because of it.
    pub stopped: Option<GraphStop>,
}

/// A graph that was stopped.
#[derive(Debug, PartialEq, Eq)]
pub struct GraphStop {
    /// Why.
    pub cause: GraphShutdownCause,
    /// The numbers of the ingress points that were bound until then.
    pub cleared: Vec<usize>,
}

/// Whether a graph whose actors' tokens derive from `token` was stopped for
/// `cause`: the token was cancelled, and the ingress points lead nowhere any
/// more.
pub open spec fn stopped_for<F>(
    graph: Graph<F>,
    token: CancellationToken,
    cause: Option<GraphShutdownCause>,
    stopped: Option<GraphStop>,
) -> bool {
    match (cause, stopped) {
        (None, None) => true,
        (Some(cause), Some(stop)) => {
            &&& stop.cause == cause
            &&& is_told(token)
            &&& graph.unbinds_ingresses(stop.cleared@)
        },
        _ => false,
    }
}

/// A graph while it runs.
#[derive(Debug)]
pub struct GraphRuntime {
    shutdown: CancellationToken,
    stopping: bool,
    shutdown_requested: bool,
    failure: Option<GraphError>,
    task_ids: Directory<TaskNumber, String>,
}

impl GraphRuntime {
    /// What the run decides by.
    pub closed spec fn state(&self) -> RunState {
        RunState {
            tasks: self.task_ids@,
            shutdown_requested: self.shutdown_requested,
            stopping: self.stopping,
            failure: self.failure,
        }
    }

    /// The token from which those of the actors derive.
    pub closed spec fn token(&self) -> CancellationToken {
        self.shutdown
    }

    /// A run without tasks.
    pub fn new() -> (r: Self)
        ensures
            r.state() == (RunState {
                tasks: Map::empty(),
                shutdown_requested: false,
                stopping: false,
                failure: None,
            }),
            is_new(r.token()),
    {
        GraphRuntime {
            shutdown: CancellationToken::new(),
            stopping: false,
            shutdown_requested: false,
            failure: None,
            task_ids: Directory::new(),
        }
    }

    /// The token from which those of the actors derive.
    pub fn shutdown_token(&self) -> (r: &CancellationToken)
        ensures
            *r == self.token(),
    {
        &self.shutdown
    }

    /// Notes that a task runs an actor.
    pub fn actor_started(&mut self, task: u64, actor_id: String)
        ensures
            final(self).state() == (RunState {
                tasks: old(self).state().tasks.insert(task as nat, actor_id),
                ..old(self).state()
            }),
            final(self).token() == old(self).token(),
    {
        let _ = self.task_ids.insert(TaskNumber(task), actor_id);
    }

    /// Whether to listen for the caller's request to shut down, which counts
    /// once.
    pub fn awaits_shutdown(&self) -> (r: bool)
        ensures
            r == !self.state().shutdown_requested,
    {
        !self.shutdown_requested
    }

    /// Stops the graph, unless it has been stopped: the actors are asked to stop,
    /// and the ingress points are closed.
    fn request_shutdown<F>(&mut self, graph: &Graph<F>, cause: GraphShutdownCause) -> (r: Option<
        GraphStop,
    >)
        ensures
            final(self).state() == (RunState { stopping: true, ..old(self).state() }),
            final(self).token() == old(self).token(),
            stopped_for(
                *graph,
                old(self).token(),
                if old(self).state().stopping {
                    None
                } else {
                    Some(cause)
                },
                r,
            ),
    {
        if self.stopping {
            return None;
        }
        self.stopping = true;
        self.shutdown.cancel();
        let cleared = graph.clear_ingresses();
        Some(GraphStop { cause, cleared })
    }

    /// Takes note of the caller's request to shut down. Returns how the graph was
    /// stopped, if it had not been before.
    pub fn external_shutdown<F>(&mut self, graph: &Graph<F>) -> (r: Option<GraphStop>)
        ensures
            final(self).state() == old(self).state().after(RunEvent::ShutdownRequested),
            final(self).token() == old(self).token(),
            stopped_for(
                *graph,
                old(self).token(),
                old(self).state().stop_cause(RunEvent::ShutdownRequested),
                r,
            ),
    {
        self.shutdown_requested = true;
        let r = self.request_shutdown(graph, GraphShutdownCause::External);
        assert(self.state() =~= old(self).state().after(RunEvent::ShutdownRequested));
        r
    }

    /// What a joined task comes to.
    pub fn classify_join(&mut self, joined: JoinedActor) -> (r: Result<ActorTaskExit, GraphError>)
        ensures
            classified(old(self).state().tasks, joined, r),
            final(self).state() == (RunState {
                tasks: old(self).state().tasks.remove(joined.number()),
                ..old(self).state()
            }),
            final(self).token() == old(self).token(),
    {
        match joined {
            JoinedActor::Returned { task, exit } => {
                let _ = self.task_ids.remove(&TaskNumber(task));
                Ok(exit)
            },
            JoinedActor::Panicked { task } => {
                let actor_id = self.forget_task(task);
                Err(GraphError::ActorPanicked { actor_id })
            },
            JoinedActor::Cancelled { task } => {
                let actor_id = self.forget_task(task);
                Err(GraphError::ActorCancelled { actor_id })
            },
        }
    }

    fn forget_task(&mut self, task: u64) -> (r: String)
        ensures
            r@ == actor_of(old(self).state().tasks, task as nat),
            final(self).state() == (RunState {
                tasks: old(self).state().tasks.remove(task as nat),
                ..old(self).state()
            }),
            final(self).token() == old(self).token(),
    {
        match self.task_ids.remove(&TaskNumber(task)) {
            Some(actor_id) => actor_id,
            None => "<unknown>".to_owned(),
        }
    }

    /// Takes note of a joined task. The first failure is kept, and stops the
    /// graph.
    pub fn joined<F>(&mut self, graph: &Graph<F>, joined: JoinedActor) -> (r: JoinReport)
        ensures
            final(self).token() == old(self).token(),
            exists|outcome: Result<ActorTaskExit, GraphError>| #[trigger]
                classified(old(self).state().tasks, joined, outcome) && final(self).state() == old(
                    self,
                ).state().after(RunEvent::Joined(joined, outcome)) && stopped_for(
                    *graph,
                    old(self).token(),
                    old(self).state().stop_cause(RunEvent::Joined(joined, outcome)),
                    r.stopped,
                ) && match outcome {
                    Ok(exit) => r.actor_id == exit.actor_id && r.status == exit.exit_status(
                        old(self).state().shutdown_requested,
                    ) && match exit.result {
                        Ok(()) => r.error is None,
                        Err(error) => r.error matches Some(text) && text@ == error.text(),
                    },
                    Err(_) => r.error is None && r.actor_id@ == actor_of(
                        old(self).state().tasks,
                        joined.number(),
                    ) && r.status == if joined is Panicked {
                        ActorExitStatus::Panicked
                    } else {
                        ActorExitStatus::Cancelled
                    },
                },
    {
        let ghost before = self.state();
        let panicked = match &joined {
            JoinedActor::Panicked { .. } => true,
            _ => false,
        };
        let outcome = self.classify_join(joined);
        let ghost decided = outcome;
        assert(classified(before.tasks, joined, decided));
        let requested = self.shutdown_requested;
        match outcome {
            Ok(exit) => {
                let status = exit.status(requested);
                let error = match &exit.result {
                    Ok(()) => None,
                    Err(error) => Some(error.message()),
                };
                let mut stopped = None;
                if !requested || exit.result.is_err() {
                    stopped = self.request_shutdown(graph, exit.shutdown_cause(requested));
                }
                let actor_id = exit.actor_id.clone();
                let failure = classify_actor_exit(exit, requested);
                self.keep_first(failure);
                assert(self.state() =~= before.after(RunEvent::Joined(joined, decided)));
                JoinReport { actor_id, status, error, stopped }
            },
            Err(error) => {
                let cause = graph_shutdown_cause_for_error(&error);
                let stopped = self.request_shutdown(graph, cause);
                let actor_id = match &error {
                    GraphError::ActorPanicked { actor_id } => actor_id.clone(),
                    GraphError::ActorCancelled { actor_id } => actor_id.clone(),
                    _ => String::new(),
                };
                self.keep_first(Some(error));
                assert(self.state() =~= before.after(RunEvent::Joined(joined, decided)));
                JoinReport {
                    actor_id,
                    status: if panicked {
                        ActorExitStatus::Panicked
                    } else {
                        ActorExitStatus::Cancelled
                    },
                    error: None,
                    stopped,
                }
            },
        }
    }

    fn keep_first(&mut self, failure: Option<GraphError>)
        ensures
            final(self).state() == (RunState {
                failure: match old(self).state().failure {
                    Some(first) => Some(first),
                    None => failure,
                },
                ..old(self).state()
            }),
            final(self).token() == old(self).token(),
    {
        if self.failure.is_none() {
            self.failure = failure;
        }
    }

    /// The result of the run, once all tasks have been joined.
    pub fn result(self) -> (r: Result<(), GraphError>)
        ensures
            r == match self.state().failure {
                Some(error) => Err::<(), _>(error),
                None => Ok(()),
            },
    {
        match self.failure {
            Some(error) => Err(error),
            None => Ok(()),
        }
    }
}

/// The end of an actor is judged by how it came and by whether the caller had
/// requested shutdown. A clean end after the request is none to speak of. Before it,
/// the run fails because the actor stopped; an error, a panic and a cancellation fail
/// the run at any time, each under the actor's id. What fails the run also stops it,
/// for the matching reason; the first failure stays.
pub proof fn actor_ends_are_judged(
    before: RunState,
    joined: JoinedActor,
    outcome: Result<ActorTaskExit, GraphError>,
)
    requires
        classified(before.tasks, joined, outcome),
        !before.stopping,
        before.failure is None,
    ensures
        ({
            let event = RunEvent::Joined(joined, outcome);
            let after = before.after(event);
            let cause = before.stop_cause(event);
            &&& after.shutdown_requested == before.shutdown_requested
            &&& after.tasks == before.tasks.remove(joined.number())
            &&& match joined {
                JoinedActor::Returned { exit, .. } => match exit.result {
                    Ok(()) => if before.shutdown_requested {
                        after.failure is None && cause is None && !after.stopping
                    } else {
                        &&& after.failure == Some(
                            GraphError::ActorStopped { actor_id: exit.actor_id },
                        )
                        &&& cause == Some(GraphShutdownCause::ActorStopped)
                        &&& after.stopping
                    },
                    Err(source) => {
                        &&& after.failure == Some(
                            GraphError::ActorFailed { actor_id: exit.actor_id, source },
                        )
                        &&& cause == Some(GraphShutdownCause::ActorFailed)
                        &&& after.stopping
                    },
                },
                JoinedActor::Panicked { task } => {
                    &&& after.failure matches Some(GraphError::ActorPanicked { actor_id }) && (
                    before.tasks.contains_key(task as nat) ==> actor_id@
                        == before.tasks[task as nat]@)
                    &&& cause == Some(GraphShutdownCause::ActorPanicked)
                    &&& after.stopping
                },
                JoinedActor::Cancelled { task } => {
                    &&& after.failure matches Some(GraphError::ActorCancelled { actor_id }) && (
                    before.tasks.contains_key(task as nat) ==> actor_id@
                        == before.tasks[task as nat]@)
                    &&& cause == Some(GraphShutdownCause::ActorCancelled)
                    &&& after.stopping
                },
            }
        }),
{
}

/// Whatever happens to a run that has failed, it keeps its first failure, and it is
/// stopped once.
pub proof fn runs_are_stopped_once(before: RunState, event: RunEvent)
    ensures
        before.failure is Some ==> before.after(event).failure == before.failure,
        before.stopping ==> before.after(event).stopping && before.stop_cause(event) is None,
        event is ShutdownRequested ==> before.after(event).stopping && before.after(
            event,
        ).shutdown_requested && before.after(event).failure == before.failure && before.after(
            event,
        ).tasks == before.tasks,
        event is ShutdownRequested && !before.stopping ==> before.stop_cause(event) == Some(
            GraphShutdownCause::External,
        ),
{
}

} // verus!
