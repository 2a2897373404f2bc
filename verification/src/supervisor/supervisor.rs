//! Configured supervisors, and supervisors nested in others.

use vstd::prelude::*;

use crate::supervisor::builder::{child_ids, Plan};
use crate::supervisor::child::{BoxError, ChildResult, ChildSpec, ChildSpecInner};
use crate::supervisor::error::{SupervisorError, SupervisorExit};
use crate::supervisor::event::SupervisorEvent;
use crate::supervisor::restart::RestartIntensity;
use crate::supervisor::runtime::supervision::SupervisorRuntime;
use crate::supervisor::snapshot::{
    ChildMembershipView, ChildSnapshot, ChildStateView, SupervisorSnapshot, SupervisorStateView,
};
use crate::supervisor::strategy::Strategy;
use crate::text::texts;

verus! {

/// A configured supervisor, ready to be run or spawned.
#[derive(Debug)]
pub struct Supervisor<F> {
    strategy: Strategy,
    restart_intensity: RestartIntensity,
    children: Vec<ChildSpec<F>>,
    control_channel_capacity: usize,
    event_channel_capacity: usize,
}

/// Whether `snapshot` shows a child with the id that is about to be started for
/// the first time.
pub open spec fn shows_newcomer(snapshot: ChildSnapshot, id: Seq<char>) -> bool {
    &&& snapshot.id@ == id
    &&& snapshot.generation == 0
    &&& snapshot.state is Starting
    &&& snapshot.membership is Active
    &&& snapshot.last_exit is None
    &&& snapshot.restart_count == 0
    &&& snapshot.next_restart_in is None
    &&& snapshot.supervisor is None
}

impl<F> Supervisor<F> {
    /// The configuration.
    pub closed spec fn plan(&self) -> Plan<F> {
        Plan {
            strategy: self.strategy,
            restart_intensity: self.restart_intensity,
            children: self.children@,
            control_channel_capacity: self.control_channel_capacity,
            event_channel_capacity: self.event_channel_capacity,
        }
    }

    /// There is at least one child, every child has an id, and no two have the
    /// same.
    pub open spec fn wf(&self) -> bool {
        &&& self.plan().children.len() > 0
        &&& forall|i: int|
            0 <= i < self.plan().children.len() ==> (#[trigger] child_ids(
                self.plan().children,
            )[i]).len() > 0
        &&& child_ids(self.plan().children).no_duplicates()
        &&& self.plan().control_channel_capacity > 0
        &&& self.plan().event_channel_capacity > 0
    }

    pub(crate) fn new(
        strategy: Strategy,
        restart_intensity: RestartIntensity,
        children: Vec<ChildSpec<F>>,
        control_channel_capacity: usize,
        event_channel_capacity: usize,
    ) -> (r: Self)
        ensures
            r.plan() == (Plan {
                strategy,
                restart_intensity,
                children: children@,
                control_channel_capacity,
                event_channel_capacity,
            }),
    {
        Supervisor {
            strategy,
            restart_intensity,
            children,
            control_channel_capacity,
            event_channel_capacity,
        }
    }

    /// The children.
    pub fn children(&self) -> (r: &Vec<ChildSpec<F>>)
        ensures
            r@ == self.plan().children,
    {
        &self.children
    }

    /// How many commands may be waiting.
    pub fn control_channel_capacity(&self) -> (r: usize)
        ensures
            r == self.plan().control_channel_capacity,
    {
        self.control_channel_capacity
    }

    /// How many events a slow subscriber may fall behind.
    pub fn event_channel_capacity(&self) -> (r: usize)
        ensures
            r == self.plan().event_channel_capacity,
    {
        self.event_channel_capacity
    }

    /// What is shown of the supervisor before it runs.
    pub fn initial_snapshot(&self) -> (r: SupervisorSnapshot)
        ensures
            r.state is Running,
            r.last_exit is None,
            r.strategy == self.plan().strategy,
            r.children@.len() == self.plan().children.len(),
            forall|i: int|
                0 <= i < r.children@.len() ==> shows_newcomer(
                    #[trigger] r.children@[i],
                    self.plan().children[i].policies().id@,
                ),
    {
        let mut children: Vec<ChildSnapshot> = Vec::new();
        let mut i: usize = 0;
        while i < self.children.len()
            invariant
                i <= self.children.len(),
                children@.len() == i,
                forall|j: int|
                    0 <= j < i ==> shows_newcomer(
                        #[trigger] children@[j],
                        self.plan().children[j].policies().id@,
                    ),
            decreases self.children.len() - i,
        {
            children.push(
                ChildSnapshot {
                    id: self.children[i].id().to_owned(),
                    generation: 0,
                    state: ChildStateView::Starting,
                    membership: ChildMembershipView::Active,
                    last_exit: None,
                    restart_count: 0,
                    next_restart_in: None,
                    supervisor: None,
                },
            );
            i = i + 1;
        }
        SupervisorSnapshot {
            state: SupervisorStateView::Running,
            last_exit: None,
            strategy: self.strategy,
            children,
        }
    }

    /// Sets the supervisor up to run, below the root at `path_prefix`.
    pub fn runtime(&self, path_prefix: Vec<String>) -> (r: SupervisorRuntime)
        requires
            self.wf(),
            self.plan().children.len() < u64::MAX,
        ensures
            r.state().wf(),
            r.state().strategy == self.plan().strategy,
            r.state().default_intensity == self.plan().restart_intensity,
            r.state().state is Running,
            r.state().last_exit is None,
            r.state().group_deadline is None,
            r.state().live == 0,
            r.state().running == 0,
            r.state().next_task == 0,
            r.state().next_instance == self.plan().children.len(),
            r.state().order.len() == self.plan().children.len(),
            forall|i: int|
                0 <= i < self.plan().children.len() ==> r.state().entries[#[trigger] r.state().order[i]].fresh(
                    self.plan().children[i].policies(),
                    i as nat,
                    self.plan().restart_intensity,
                ),
            r.unsent().len() == 0,
            r.path() == texts(path_prefix@),
    {
        let mut specs: Vec<ChildSpecInner> = Vec::new();
        let mut i: usize = 0;
        while i < self.children.len()
            invariant
                i <= self.children.len(),
                specs@.len() == i,
                forall|j: int|
                    0 <= j < i ==> #[trigger] specs@[j] == self.plan().children[j].policies(),
            decreases self.children.len() - i,
        {
            specs.push(self.children[i].inner().clone());
            i = i + 1;
        }
        proof {
            let ids = child_ids(self.plan().children);
            assert forall|i: int| 0 <= i < specs@.len() implies (#[trigger] specs@[i]).id@.len()
                > 0 by {
                assert(ids[i].len() > 0);
            }
            assert forall|a: int, b: int| 0 <= a < b < specs@.len() implies (#[trigger] specs@[a]).id@
                != (#[trigger] specs@[b]).id@ by {
                assert(ids[a] != ids[b]);
            }
        }
        SupervisorRuntime::new(self.strategy, self.restart_intensity, &specs, path_prefix)
    }

    /// Adapts the supervisor into a restartable child of another supervisor.
    pub fn into_child_spec(self, id: String) -> (r: ChildSpec<Supervisor<F>>)
        ensures
            r.maker() == self,
            r.policies().id == id,
            r.policies().restart is Transient,
            r.policies().restart_intensity is None,
            r.policies().shutdown_policy.mode is CooperativeThenAbort,
            r.policies().shutdown_policy.grace@ == 5_000_000_000,
    {
        ChildSpec::new(id, self)
    }
}

/// What the end of a nested supervisor means for the child that it is: an error
/// is handed on as it is.
pub fn map_nested_supervisor_result(
    child_id: &str,
    result: Result<SupervisorExit, SupervisorError>,
) -> (r: ChildResult)
    ensures
        match result {
            Ok(SupervisorExit::Failed) => r matches Err(error) && error.text()
                == "nested supervisor `"@ + child_id@ + "` failed"@,
            Ok(_) => r is Ok,
            Err(cause) => r == Err::<(), _>(BoxError::Supervisor(cause)),
        },
{
    match result {
        Ok(SupervisorExit::Completed) => Ok(()),
        Ok(SupervisorExit::Shutdown) => Ok(()),
        Ok(SupervisorExit::Failed) => {
            let mut message = "nested supervisor `".to_owned();
            message.append(child_id);
            message.append("` failed");
            Err(BoxError::new(message))
        },
        Err(cause) => Err(BoxError::Supervisor(cause)),
    }
}

/// What a nested supervisor has to say while its parent waits for it.
#[derive(Debug)]
pub enum NestedInput {
    /// It has come to an end.
    Finished(Result<SupervisorExit, SupervisorError>),
    /// It has emitted an event.
    Event(SupervisorEvent),
    /// So many of its events were missed.
    Lagged(u64),
    /// It emits no more events.
    EventsClosed,
    /// It has published a snapshot.
    Snapshot(SupervisorSnapshot),
    /// It publishes no more snapshots.
    SnapshotsClosed,
    /// The parent has asked the child to stop.
    Cancelled,
}

/// What is to be done about it.
#[derive(Debug)]
pub enum NestedAction {
    /// Forward the events that are left, then return the result.
    Return(ChildResult),
    /// Forward the event to the parent.
    ForwardEvent(SupervisorEvent),
    /// Report that events were missed.
    ReportLag(u64),
    /// Forward the snapshot to the parent.
    ForwardSnapshot(SupervisorSnapshot),
    /// Ask the nested supervisor to shut down.
    RequestShutdown,
    /// Nothing.
    Wait,
}

/// A nested supervisor that runs as a child.
#[derive(Debug)]
pub struct NestedRun {
    child_id: String,
    shutdown_requested: bool,
}

impl NestedRun {
    /// The id of the child.
    pub closed spec fn child(&self) -> Seq<char> {
        self.child_id@
    }

    /// Whether the nested supervisor has been asked to shut down.
    pub closed spec fn stopping(&self) -> bool {
        self.shutdown_requested
    }

    /// Starts to wait for a nested supervisor.
    pub fn new(child_id: String) -> (r: Self)
        ensures
            r.child() == child_id@,
            !r.stopping(),
    {
        NestedRun { child_id, shutdown_requested: false }
    }

    /// Whether to listen for the parent's request to stop, which is passed on
    /// once.
    pub fn awaits_cancellation(&self) -> (r: bool)
        ensures
            r == !self.stopping(),
    {
        !self.shutdown_requested
    }

    /// Decides what to do about what the nested supervisor, or the parent, has
    /// said.
    pub fn step(&mut self, input: NestedInput) -> (r: NestedAction)
        ensures
            final(self).child() == old(self).child(),
            final(self).stopping() == (old(self).stopping() || input is Cancelled),
            match input {
                NestedInput::Finished(Ok(SupervisorExit::Failed)) => r matches NestedAction::Return(
                    Err(error),
                ) && error.text() == "nested supervisor `"@ + old(self).child() + "` failed"@,
                NestedInput::Finished(Ok(_)) => r matches NestedAction::Return(Ok(())),
                NestedInput::Finished(Err(cause)) => r == NestedAction::Return(
                    Err(BoxError::Supervisor(cause)),
                ),
                NestedInput::Event(event) => r == NestedAction::ForwardEvent(event),
                NestedInput::Lagged(dropped) => r == NestedAction::ReportLag(dropped),
                NestedInput::EventsClosed => r is Wait,
                NestedInput::Snapshot(snapshot) => r == NestedAction::ForwardSnapshot(snapshot),
                NestedInput::SnapshotsClosed => r is Wait,
                NestedInput::Cancelled => if old(self).stopping() {
                    r is Wait
                } else {
                    r is RequestShutdown
                },
            },
    {
        match input {
            NestedInput::Finished(result) => NestedAction::Return(
                map_nested_supervisor_result(self.child_id.as_str(), result),
            ),
            NestedInput::Event(event) => NestedAction::ForwardEvent(event),
            NestedInput::Lagged(dropped) => NestedAction::ReportLag(dropped),
            NestedInput::EventsClosed => NestedAction::Wait,
            NestedInput::Snapshot(snapshot) => NestedAction::ForwardSnapshot(snapshot),
            NestedInput::SnapshotsClosed => NestedAction::Wait,
            NestedInput::Cancelled => {
                if self.shutdown_requested {
                    NestedAction::Wait
                } else {
                    self.shutdown_requested = true;
                    NestedAction::RequestShutdown
                }
            },
        }
    }
}

} // verus!
