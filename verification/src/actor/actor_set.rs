//! Actors that run one by one.

use tokio_util::sync::CancellationToken;
use vstd::prelude::*;

use crate::actor::actor::{ActorResult, ActorSpec, BoxError};
use crate::actor::binding::{ascending_below, clear_all, MailboxBinding, MailboxRef, Placement};
use crate::actor::context::{ActorContext, ActorRef};
use crate::actor::error::{about_actor, GraphError};
use crate::actor::graph::{Graph, IngressDefinition};
use crate::actor::ingress::IngressHandle;
use crate::actor::observability::ActorExitStatus;
use crate::actor::registry::{ActorRegistry, RegistryError};
use crate::directory::Directory;
use crate::queues::{fed_by, mailbox_channel, max_capacity, room_of};
use crate::time::Duration;
use crate::token::{answers, is_new, is_told};

verus! {

/// Errors returned from running a [`RunnableActor`].
#[derive(Debug)]
pub enum ActorRunError {
    /// Another instance of the same runnable actor is already active.
    AlreadyRunning { actor_id: String },
    /// The actor returned an error.
    Failed { actor_id: String, source: BoxError },
}

impl ActorRunError {
    /// What [`message`](Self::message) says.
    pub open spec fn text(self) -> Seq<char> {
        match self {
            ActorRunError::AlreadyRunning { actor_id } => "actor `"@ + actor_id@
                + "` is already running"@,
            ActorRunError::Failed { actor_id, .. } => "actor `"@ + actor_id@
                + "` returned an error"@,
        }
    }

    /// The error in words.
    pub fn message(&self) -> (r: String)
        ensures
            r@ == self.text(),
    {
        match self {
            ActorRunError::AlreadyRunning { actor_id } => about_actor(
                actor_id,
                "` is already running",
            ),
            ActorRunError::Failed { actor_id, .. } => about_actor(actor_id, "` returned an error"),
        }
    }
}

/// What an actor's mailbox and blocking tasks are limited to.
#[derive(Debug, Clone, Copy)]
pub struct ActorSettings {
    /// How many messages the mailbox holds.
    pub mailbox_capacity: usize,
    /// The largest payload that the mailbox takes.
    pub max_envelope_bytes: Option<usize>,
    /// How many blocking tasks may be running.
    pub max_blocking_tasks_per_actor: Option<usize>,
    /// How long shutdown waits for blocking tasks.
    pub blocking_shutdown_timeout: Duration,
}

impl ActorSettings {
    /// The mailbox can be made.
    pub open spec fn wf(self) -> bool {
        0 < self.mailbox_capacity <= max_capacity()
    }
}

impl<F> Graph<F> {
    /// What the graph limits each of its actors to.
    pub open spec fn limits(&self) -> ActorSettings {
        ActorSettings {
            mailbox_capacity: self.capacity(),
            max_envelope_bytes: self.envelope_limit(),
            max_blocking_tasks_per_actor: self.blocking_limit(),
            blocking_shutdown_timeout: self.blocking_timeout(),
        }
    }

    /// What the graph limits each of its actors to.
    pub fn settings(&self) -> (r: ActorSettings)
        ensures
            r == self.limits(),
    {
        ActorSettings {
            mailbox_capacity: self.mailbox_capacity(),
            max_envelope_bytes: self.max_envelope_bytes(),
            max_blocking_tasks_per_actor: self.max_blocking_tasks_per_actor(),
            blocking_shutdown_timeout: self.blocking_shutdown_timeout(),
        }
    }
}

/// An ingress point as its target actor sees it.
#[derive(Debug)]
pub struct Door {
    /// The name of the ingress.
    pub name: String,
    /// The slot that its handles follow.
    pub slot: MailboxBinding,
}

/// Of the first `n` ingress points those that lead to an actor: their names and
/// slots, in order of definition.
pub open spec fn doors_to<F>(graph: Graph<F>, id: Seq<char>, n: nat) -> Seq<
    (Seq<char>, MailboxBinding),
>
    decreases n,
{
    if n == 0 {
        Seq::empty()
    } else {
        let before = doors_to(graph, id, (n - 1) as nat);
        let name = graph.entrance_names()[n - 1];
        let entrance = graph.entrances()[name];
        if entrance.target() == id {
            before.push((name, entrance.slot()))
        } else {
            before
        }
    }
}

/// What a list of doors holds.
pub open spec fn shown_doors(doors: Seq<Door>) -> Seq<(Seq<char>, MailboxBinding)> {
    doors.map_values(|door: Door| (door.name@, door.slot))
}

impl<F> Graph<F> {
    /// The ingress points that lead to an actor.
    pub fn doors(&self, actor_id: &String) -> (r: Vec<Door>)
        ensures
            shown_doors(r@) == doors_to(*self, actor_id@, self.entrance_names().len()),
    {
        let total: usize = self.ingress_count();
        let mut doors: Vec<Door> = Vec::new();
        let mut i: usize = 0;
        assert(shown_doors(doors@) =~= Seq::empty());
        while i < total
            invariant
                i <= total,
                total == self.entrance_names().len(),
                shown_doors(doors@) == doors_to(*self, actor_id@, i as nat),
            decreases total - i,
        {
            let (name, slot, leads_here) = self.entrance_at(i, actor_id);
            if leads_here {
                let door = Door { name, slot };
                assert(shown_doors(doors@.push(door)) =~= shown_doors(doors@).push((name@, slot)));
                doors.push(door);
            }
            i = i + 1;
        }
        doors
    }
}

/// How a run of an actor was joined.
#[derive(Debug)]
pub enum ActorJoin {
    /// The actor ended by itself.
    Returned(ActorResult),
    /// The actor panicked.
    Panicked,
    /// The actor's task was cancelled from outside.
    Cancelled,
}

/// What the end of an actor's run comes to.
#[derive(Debug)]
pub enum ActorRunEnd {
    /// The run has this result.
    Finished(Result<(), ActorRunError>),
    /// The panic is to be passed on.
    Panicked,
}

/// What the end of an actor's run is reported as, and what it comes to.
#[derive(Debug)]
pub struct ActorRunReport {
    /// How the actor ended.
    pub status: ActorExitStatus,
    /// The error in words.
    pub error: Option<String>,
    /// What the run comes to.
    pub end: ActorRunEnd,
}

/// The text of the error that an actor's task was cancelled.
pub open spec fn cancelled_text(actor_id: Seq<char>) -> Seq<char> {
    "actor `"@ + actor_id + "` task was cancelled"@
}

/// What one run of an actor starts with.
#[derive(Debug)]
pub struct ActorStart {
    /// What the actor sees.
    pub context: ActorContext,
    /// Where the new mailbox is to be put: the actor's own slot, then those of
    /// its ingress points.
    pub placements: Vec<Placement>,
    /// The token that asks the actor to stop.
    pub shutdown: CancellationToken,
}

/// An actor that can be run on its own, any number of times, with a fresh
/// mailbox each time.
#[derive(Debug)]
pub struct RunnableActor<F> {
    spec: ActorSpec<F>,
    binding: MailboxBinding,
    peers: Directory<String, ActorRef>,
    myself: ActorRef,
    settings: ActorSettings,
    doors: Vec<Door>,
}

impl<F> RunnableActor<F> {
    /// The actor's id.
    pub closed spec fn name(&self) -> Seq<char> {
        self.spec.name()
    }

    /// What makes the actor's future.
    pub closed spec fn maker(&self) -> F {
        self.spec.maker()
    }

    /// The slot that the actor's mailboxes are put into.
    pub closed spec fn slot(&self) -> MailboxBinding {
        self.binding
    }

    /// The peers that the actor is linked to, by id.
    pub closed spec fn linked(&self) -> Map<Seq<char>, ActorRef> {
        self.peers@
    }

    /// The sender for the actor's own mailbox.
    pub closed spec fn own(&self) -> ActorRef {
        self.myself
    }

    /// What the actor is limited to.
    pub closed spec fn limits(&self) -> ActorSettings {
        self.settings
    }

    /// The ingress points that lead to the actor, in order of definition.
    pub closed spec fn entrances(&self) -> Seq<(Seq<char>, MailboxBinding)> {
        shown_doors(self.doors@)
    }

    /// The slots that a run fills: the actor's own, then those of its ingress
    /// points.
    pub open spec fn filled(&self) -> Seq<MailboxBinding> {
        seq![self.slot()] + self.entrances().map_values(|door: (Seq<char>, MailboxBinding)| door.1)
    }

    /// Whether `start` is what a run starts with: a new mailbox of the right
    /// size, for every slot that the actor is reached through.
    pub open spec fn starts_with(&self, start: ActorStart) -> bool {
        &&& start.context.actor() == self.name()
        &&& start.context.linked() == self.linked()
        &&& start.context.own() == self.own()
        &&& start.context.stop() == start.shutdown
        &&& is_new(start.shutdown)
        &&& room_of(fed_by(start.context.inbox())) == self.limits().mailbox_capacity
        &&& start.placements@.len() == self.filled().len()
        &&& forall|i: int|
            0 <= i < start.placements@.len() ==> {
                &&& (#[trigger] start.placements@[i]).slot == self.filled()[i]
                &&& start.placements@[i].mailbox.actor() == self.name()
                &&& start.placements@[i].mailbox.limit() == self.limits().max_envelope_bytes
                &&& start.placements@[i].mailbox.outlet() == fed_by(start.context.inbox())
            }
    }

    /// Puts a runnable actor together.
    pub(crate) fn new(
        spec: ActorSpec<F>,
        binding: MailboxBinding,
        peers: Directory<String, ActorRef>,
        myself: ActorRef,
        settings: ActorSettings,
        doors: Vec<Door>,
    ) -> (r: Self)
        ensures
            r.name() == spec.name(),
            r.maker() == spec.maker(),
            r.slot() == binding,
            r.linked() == peers@,
            r.own() == myself,
            r.limits() == settings,
            r.entrances() == shown_doors(doors@),
    {
        RunnableActor { spec, binding, peers, myself, settings, doors }
    }

    /// Returns the actor id.
    pub fn id(&self) -> (r: &str)
        ensures
            r@ == self.name(),
    {
        self.spec.id()
    }

    /// Returns what makes the actor's future.
    pub fn factory(&self) -> (r: &F)
        ensures
            *r == self.maker(),
    {
        self.spec.factory()
    }

    /// What the actor is limited to.
    pub fn settings(&self) -> (r: ActorSettings)
        ensures
            r == self.limits(),
    {
        self.settings
    }

    /// Returns a stable sender for the actor, for external callers.
    pub fn actor_ref(&self) -> (r: ActorRef)
        ensures
            r.target() == self.name(),
            r.source() is None,
            self.slot().shows(r.follows()),
    {
        ActorRef::from_binding(self.spec.id().to_owned(), self.binding.subscribe(), None)
    }

    /// Adds the actor to a registry.
    pub fn register_with(&self, registry: &mut ActorRegistry) -> (r: Result<(), RegistryError>)
        ensures
            match r {
                Ok(()) => {
                    &&& self.name().len() > 0
                    &&& !old(registry).slots().contains_key(self.name())
                    &&& final(registry).slots() == old(registry).slots().insert(
                        self.name(),
                        self.slot(),
                    )
                },
                Err(error) => {
                    &&& final(registry).slots() == old(registry).slots()
                    &&& if self.name().len() == 0 {
                        error is EmptyActorId
                    } else {
                        &&& old(registry).slots().contains_key(self.name())
                        &&& error matches RegistryError::DuplicateActorId(id) && id@ == self.name()
                    }
                },
            },
    {
        registry.register_entry(self.spec.id().to_owned(), self.binding.clone())
    }

    /// Prepares one run: a fresh mailbox, and what the actor sees.
    pub fn start(&self) -> (r: ActorStart)
        requires
            self.limits().wf(),
        ensures
            self.starts_with(r),
    {
        let (sender, receiver) = mailbox_channel(self.settings.mailbox_capacity);
        let mailbox = MailboxRef::new(
            self.spec.id().to_owned(),
            sender,
            self.settings.max_envelope_bytes,
        );
        let peers = self.peers.duplicate();
        assert(peers@ =~= self.peers@);
        let shutdown = CancellationToken::new();
        let context = ActorContext::new(
            self.spec.id().to_owned(),
            receiver,
            peers,
            self.myself.clone(),
            shutdown.clone(),
        );
        let mut placements: Vec<Placement> = Vec::new();
        placements.push(Placement { slot: self.binding.clone(), mailbox: mailbox.clone() });
        let mut i: usize = 0;
        while i < self.doors.len()
            invariant
                i <= self.doors.len(),
                placements@.len() == i + 1,
                mailbox.actor() == self.name(),
                mailbox.limit() == self.limits().max_envelope_bytes,
                forall|j: int|
                    0 <= j < placements@.len() ==> (#[trigger] placements@[j]).slot
                        == self.filled()[j] && placements@[j].mailbox == mailbox,
            decreases self.doors.len() - i,
        {
            assert(self.filled()[i + 1] == self.doors@[i as int].slot);
            placements.push(
                Placement { slot: self.doors[i].slot.clone(), mailbox: mailbox.clone() },
            );
            i = i + 1;
        }
        ActorStart { context, placements, shutdown }
    }

    /// The slots that are to be emptied after a run.
    pub fn slots(&self) -> (r: Vec<MailboxBinding>)
        ensures
            r@ == self.filled(),
    {
        let mut slots: Vec<MailboxBinding> = Vec::new();
        slots.push(self.binding.clone());
        let mut i: usize = 0;
        while i < self.doors.len()
            invariant
                i <= self.doors.len(),
                slots@ == self.filled().take(i + 1),
            decreases self.doors.len() - i,
        {
            assert(self.filled()[i + 1] == self.doors@[i as int].slot);
            assert(self.filled().take(i + 2) =~= self.filled().take(i + 1).push(
                self.filled()[i + 1],
            ));
            slots.push(self.doors[i].slot.clone());
            i = i + 1;
        }
        assert(self.filled().take(i + 1) =~= self.filled());
        slots
    }

    /// Whether every slot that a run fills was emptied, and `cleared` are the
    /// numbers of those that were filled before.
    pub open spec fn unbound(&self, cleared: Seq<usize>) -> bool {
        &&& ascending_below(cleared, self.filled().len())
        &&& forall|i: int|
            0 <= i < self.filled().len() ==> (#[trigger] self.filled()[i]).unbinds(
                cleared.contains(i as usize),
            )
    }

    /// Empties the slots that a run fills. Returns the numbers of those that were
    /// filled.
    pub fn unbind(&self) -> (r: Vec<usize>)
        ensures
            self.unbound(r@),
    {
        let slots = self.slots();
        clear_all(&slots)
    }

    /// The names of the ingress points that lead to the actor.
    pub fn ingress_name(&self, i: usize) -> (r: &str)
        requires
            i < self.entrances().len(),
        ensures
            r@ == self.entrances()[i as int].0,
    {
        self.doors[i].name.as_str()
    }

    /// How many ingress points lead to the actor.
    pub fn ingress_count(&self) -> (r: usize)
        ensures
            r == self.entrances().len(),
    {
        self.doors.len()
    }

    /// Whether a run that was joined like this ends as reported, depending on
    /// whether the actor had been asked to stop.
    pub open spec fn ends_with(
        &self,
        joined: ActorJoin,
        shutting_down: bool,
        report: ActorRunReport,
    ) -> bool {
        match joined {
            ActorJoin::Returned(Ok(())) => {
                &&& report.status == if shutting_down {
                    ActorExitStatus::Shutdown
                } else {
                    ActorExitStatus::Stopped
                }
                &&& report.error is None
                &&& report.end matches ActorRunEnd::Finished(Ok(()))
            },
            ActorJoin::Returned(Err(cause)) => {
                &&& report.status is Failed
                &&& self.failed(report, cause)
            },
            ActorJoin::Panicked => {
                &&& report.status is Panicked
                &&& report.error is None
                &&& report.end is Panicked
            },
            ActorJoin::Cancelled => {
                &&& report.status is Cancelled
                &&& exists|cause: BoxError| #[trigger]
                    self.failed(report, cause) && cause is Message && cause.text()
                        == cancelled_text(self.name())
            },
        }
    }

    /// What the end of a run comes to, and what it is reported as, depending on
    /// whether the actor had been asked to stop.
    pub fn finish(&self, joined: ActorJoin, shutting_down: bool) -> (r: ActorRunReport)
        ensures
            self.ends_with(joined, shutting_down, r),
    {
        match joined {
            ActorJoin::Returned(Ok(())) => ActorRunReport {
                status: if shutting_down {
                    ActorExitStatus::Shutdown
                } else {
                    ActorExitStatus::Stopped
                },
                error: None,
                end: ActorRunEnd::Finished(Ok(())),
            },
            ActorJoin::Returned(Err(source)) => self.failure(ActorExitStatus::Failed, source),
            ActorJoin::Panicked => ActorRunReport {
                status: ActorExitStatus::Panicked,
                error: None,
                end: ActorRunEnd::Panicked,
            },
            ActorJoin::Cancelled => {
                let text = about_actor(&self.spec.id().to_owned(), "` task was cancelled");
                self.failure(ActorExitStatus::Cancelled, BoxError::Message(text))
            },
        }
    }

    /// Whether a run that ends as reported has failed because of `cause`.
    pub open spec fn failed(&self, report: ActorRunReport, cause: BoxError) -> bool {
        &&& report.end matches ActorRunEnd::Finished(Err(error))
        &&& error matches ActorRunError::Failed { actor_id, source }
        &&& actor_id@ == self.name()
        &&& source == cause
        &&& report.error matches Some(text)
        &&& text@ == error.text()
    }

    fn failure(&self, status: ActorExitStatus, source: BoxError) -> (r: ActorRunReport)
        ensures
            r.status == status,
            self.failed(r, source),
    {
        let error = ActorRunError::Failed { actor_id: self.spec.id().to_owned(), source };
        let text = error.message();
        ActorRunReport { status, error: Some(text), end: ActorRunEnd::Finished(Err(error)) }
    }
}

/// A run of an actor, in progress.
#[derive(Debug)]
pub struct ActorRun {
    shutdown: CancellationToken,
    shutdown_requested: bool,
}

impl ActorRun {
    /// The token that asks the actor to stop.
    pub closed spec fn stop(&self) -> CancellationToken {
        self.shutdown
    }

    /// Whether the caller has requested shutdown.
    pub closed spec fn requested(&self) -> bool {
        self.shutdown_requested
    }

    /// A run that has just started, with the token that asks the actor to stop.
    pub fn new(shutdown: CancellationToken) -> (r: Self)
        ensures
            r.stop() == shutdown,
            !r.requested(),
    {
        ActorRun { shutdown, shutdown_requested: false }
    }

    /// Whether to listen for the caller's request to shut down, which counts
    /// once.
    pub fn awaits_shutdown(&self) -> (r: bool)
        ensures
            r == !self.requested(),
    {
        !self.shutdown_requested
    }

    /// Takes note of the caller's request to shut down: the actor is asked to
    /// stop.
    pub fn request_shutdown(&mut self)
        ensures
            final(self).stop() == old(self).stop(),
            final(self).requested(),
            is_told(old(self).stop()),
    {
        self.shutdown_requested = true;
        self.shutdown.cancel();
    }

    /// What the run comes to once its task is joined. Whether the actor had been
    /// asked to stop is what the token says at that time. However the run ended,
    /// the actor is unbound first; the numbers of the slots that were filled are
    /// returned too.
    pub fn joined<F>(self, actor: &RunnableActor<F>, joined: ActorJoin) -> (r: (
        ActorRunReport,
        Vec<usize>,
    ))
        ensures
            exists|shutting_down: bool| #[trigger]
                answers(self.stop(), shutting_down) && actor.ends_with(joined, shutting_down, r.0),
            actor.unbound(r.1@),
    {
        let cleared = actor.unbind();
        let shutting_down = self.shutdown.is_cancelled();
        assert(answers(self.stop(), shutting_down));
        (actor.finish(joined, shutting_down), cleared)
    }
}

/// Whether a runnable actor is active. It can run any number of times, but only
/// once at a time.
#[derive(Debug)]
pub struct ActiveActorRun {
    actor_id: String,
    running: bool,
}

impl ActiveActorRun {
    /// The actor's id.
    pub closed spec fn actor(&self) -> Seq<char> {
        self.actor_id@
    }

    /// Whether the actor is running.
    pub closed spec fn is_running(&self) -> bool {
        self.running
    }

    /// The actor is not running.
    pub fn new(actor_id: String) -> (r: Self)
        ensures
            r.actor() == actor_id@,
            !r.is_running(),
    {
        ActiveActorRun { actor_id, running: false }
    }

    /// Whether starting a run from here comes to `result` and leaves `after`.
    pub open spec fn engaged(
        &self,
        result: Result<(), ActorRunError>,
        after: ActiveActorRun,
    ) -> bool {
        &&& after.actor() == self.actor()
        &&& after.is_running()
        &&& if self.is_running() {
            result matches Err(ActorRunError::AlreadyRunning { actor_id }) && actor_id@
                == self.actor()
        } else {
            result is Ok
        }
    }

    /// Whether `after` is what ending the run leaves.
    pub open spec fn released(&self, after: ActiveActorRun) -> bool {
        after.actor() == self.actor() && !after.is_running()
    }

    /// Starts a run, unless there is one.
    pub fn start(&mut self) -> (r: Result<(), ActorRunError>)
        ensures
            old(self).engaged(r, *final(self)),
    {
        if self.running {
            return Err(ActorRunError::AlreadyRunning { actor_id: self.actor_id.clone() });
        }
        self.running = true;
        Ok(())
    }

    /// Ends the run.
    pub fn finish(&mut self)
        ensures
            old(self).released(*final(self)),
    {
        self.running = false;
    }
}

/// The actors of a graph as individually runnable units.
#[derive(Debug)]
pub struct ActorSet<F> {
    actors: Vec<RunnableActor<F>>,
    actor_index: Directory<String, usize>,
    ingresses: Directory<String, IngressDefinition>,
    settings: ActorSettings,
}

impl<F> ActorSet<F> {
    /// The actors in order of definition.
    pub closed spec fn members(&self) -> Seq<RunnableActor<F>> {
        self.actors@
    }

    /// Where each actor stands.
    pub closed spec fn index(&self) -> Map<Seq<char>, usize> {
        self.actor_index@
    }

    /// The ingress points.
    pub closed spec fn entrances(&self) -> Map<Seq<char>, IngressDefinition> {
        self.ingresses@
    }

    /// The names of the ingress points in order of definition.
    pub closed spec fn entrance_names(&self) -> Seq<Seq<char>> {
        self.ingresses.names()
    }

    /// What actors made at run time are limited to.
    pub closed spec fn limits(&self) -> ActorSettings {
        self.settings
    }

    /// The actors' ids in order of definition.
    pub open spec fn ids(&self) -> Seq<Seq<char>> {
        self.members().map_values(|actor: RunnableActor<F>| actor.name())
    }

    /// The index lists every actor under its id, and nothing else. Ids are
    /// unique and not empty.
    pub open spec fn wf(&self) -> bool {
        &&& self.ids().no_duplicates()
        &&& forall|i: int| 0 <= i < self.ids().len() ==> #[trigger] self.ids()[i].len() > 0
        &&& self.index().dom() == self.ids().to_set()
        &&& forall|id: Seq<char>| #[trigger]
            self.index().contains_key(id) ==> self.index()[id] < self.members().len()
                && self.ids()[self.index()[id] as int] == id
    }

    /// Whether `actor` is the actor with number `i` of a graph, wired as the
    /// graph says.
    pub open spec fn decomposes(graph: Graph<F>, i: int, actor: RunnableActor<F>) -> bool {
        let id = graph.ids()[i];
        &&& actor.name() == id
        &&& actor.maker() == graph.specs()[i].maker()
        &&& actor.slot() == graph.slots()[id]
        &&& graph.peers_of(id, actor.linked())
        &&& graph.sends_to(id, id, actor.own())
        &&& actor.limits() == graph.limits()
        &&& actor.entrances() == doors_to(graph, id, graph.entrance_names().len())
    }

    /// Whether the set holds the actors of a graph, in order, wired as the graph
    /// says, and its ingress points.
    pub open spec fn realizes(&self, graph: Graph<F>) -> bool {
        &&& self.ids() == graph.ids()
        &&& forall|i: int|
            0 <= i < self.members().len() ==> Self::decomposes(
                graph,
                i,
                #[trigger] self.members()[i],
            )
        &&& self.entrances() == graph.entrances()
        &&& self.entrance_names() == graph.entrance_names()
        &&& self.limits() == graph.limits()
    }

    /// Takes a graph apart into its actors.
    pub fn from_graph(graph: Graph<F>) -> (r: Result<Self, GraphError>)
        requires
            graph.wf(),
        ensures
            r matches Ok(set) && set.wf() && set.realizes(graph),
    {
        let ghost ids = graph.ids();
        let settings = graph.settings();
        let mut wirings: Vec<Wiring> = Vec::new();
        let mut i: usize = 0;
        while i < graph.actors().len()
            invariant
                i <= graph.specs().len(),
                ids == graph.ids(),
                graph.wf(),
                wirings@.len() == i,
                forall|j: int|
                    0 <= j < i ==> (#[trigger] wirings@[j]).fits(graph, ids[j]),
            decreases graph.specs().len() - i,
        {
            let id = graph.actors()[i].id().to_owned();
            proof {
                assert(ids[i as int] == id@);
                assert(ids.to_set().contains(id@));
            }
            let peers = match graph.peer_refs(&id) {
                Ok(peers) => peers,
                Err(error) => {
                    proof {
                        let links = graph.links_from(id@);
                        let k = choose|k: int|
                            0 <= k < links.len() && !graph.slots().contains_key(
                                #[trigger] links[k],
                            );
                        assert(ids.contains(links[k]));
                        assert(ids.to_set().contains(links[k]));
                    }
                    return Err(error);
                },
            };
            let myself = match graph.actor_ref(&id) {
                Ok(myself) => myself,
                Err(error) => {
                    return Err(error);
                },
            };
            let binding = match graph.actor_binding(&id) {
                Ok(binding) => binding.clone(),
                Err(error) => {
                    return Err(error);
                },
            };
            let doors = graph.doors(&id);
            wirings.push(Wiring { binding, peers, myself, doors });
            i = i + 1;
        }
        Ok(ActorSet::assemble(graph, wirings, settings))
    }

    fn assemble(graph: Graph<F>, wirings: Vec<Wiring>, settings: ActorSettings) -> (r: Self)
        requires
            graph.wf(),
            settings == graph.limits(),
            wirings@.len() == graph.ids().len(),
            forall|j: int|
                0 <= j < wirings@.len() ==> (#[trigger] wirings@[j]).fits(graph, graph.ids()[j]),
        ensures
            r.wf(),
            r.realizes(graph),
    {
        let ghost all = graph;
        let ghost ids = graph.ids();
        let ghost given = wirings@;
        let (mut specs, ingresses) = graph.into_parts();
        let mut wirings = wirings;
        let mut backwards: Vec<RunnableActor<F>> = Vec::new();
        let mut actor_index: Directory<String, usize> = Directory::new();
        let ghost n = specs@.len();
        assert(ids.skip(n as int).to_set() =~= Set::empty());
        while specs.len() > 0
            invariant
                ids == all.ids(),
                ids.no_duplicates(),
                n == all.specs().len(),
                specs@.len() <= n,
                specs@ == all.specs().take(specs@.len() as int),
                wirings@ == given.take(specs@.len() as int),
                given.len() == n,
                forall|j: int| 0 <= j < n ==> (#[trigger] given[j]).fits(all, ids[j]),
                settings == all.limits(),
                backwards@.len() == n - specs@.len(),
                forall|j: int|
                    0 <= j < backwards@.len() ==> Self::decomposes(
                        all,
                        n - 1 - j,
                        #[trigger] backwards@[j],
                    ),
                actor_index@.dom() == ids.skip(specs@.len() as int).to_set(),
                forall|id: Seq<char>| #[trigger]
                    actor_index@.contains_key(id) ==> actor_index@[id] < n
                        && ids[actor_index@[id] as int] == id,
            decreases specs.len(),
        {
            let at: usize = specs.len() - 1;
            let spec = specs.pop();
            let wiring = wirings.pop();
            if let (Some(spec), Some(wiring)) = (spec, wiring) {
                let id = spec.id().to_owned();
                proof {
                    assert(spec == all.specs()[at as int]);
                    assert(wiring == given[at as int]);
                    assert(id@ == ids[at as int]);
                    lemma_skip_one_less(ids, at as int);
                }
                let _ = actor_index.insert(id, at);
                backwards.push(
                    RunnableActor::new(
                        spec,
                        wiring.binding,
                        wiring.peers,
                        wiring.myself,
                        settings,
                        wiring.doors,
                    ),
                );
            }
        }
        let mut actors: Vec<RunnableActor<F>> = Vec::new();
        while backwards.len() > 0
            invariant
                backwards@.len() + actors@.len() == n,
                forall|j: int|
                    0 <= j < backwards@.len() ==> Self::decomposes(
                        all,
                        n - 1 - j,
                        #[trigger] backwards@[j],
                    ),
                forall|j: int|
                    0 <= j < actors@.len() ==> Self::decomposes(all, j, #[trigger] actors@[j]),
            decreases backwards.len(),
        {
            if let Some(actor) = backwards.pop() {
                actors.push(actor);
            }
        }
        let r = ActorSet { actors, actor_index, ingresses, settings };
        proof {
            assert(r.ids() =~= ids);
            assert(ids.skip(0) =~= ids);
        }
        r
    }

    /// Returns an individually-runnable actor by id, if it exists.
    pub fn actor(&self, id: &str) -> (r: Option<&RunnableActor<F>>)
        requires
            self.wf(),
        ensures
            match r {
                Some(actor) => self.members().contains(*actor) && actor.name() == id@,
                None => !self.ids().contains(id@),
            },
    {
        match self.actor_index.get(&id.to_owned()) {
            Some(at) => {
                assert(self.members()[*at as int].name() == self.ids()[*at as int]);
                Some(&self.actors[*at])
            },
            None => {
                assert(!self.ids().to_set().contains(id@));
                None
            },
        }
    }

    /// Returns all runnable actors in graph definition order.
    pub fn actors(&self) -> (r: &Vec<RunnableActor<F>>)
        ensures
            r@ == self.members(),
    {
        &self.actors
    }

    /// Takes the set apart into its actors, in graph definition order.
    pub fn into_actors(self) -> (r: Vec<RunnableActor<F>>)
        ensures
            r@ == self.members(),
    {
        self.actors
    }

    /// Whether `handle` is for the ingress with the name.
    pub open spec fn leads_into(&self, name: Seq<char>, handle: IngressHandle) -> bool {
        &&& handle.ingress_name() == name
        &&& handle.actor() == self.entrances()[name].target()
        &&& self.entrances()[name].slot().shows(handle.follows())
    }

    /// Returns a stable handle to a named ingress, if it exists.
    pub fn ingress(&self, name: &str) -> (r: Option<IngressHandle>)
        ensures
            match r {
                Some(handle) => self.entrances().contains_key(name@) && self.leads_into(
                    name@,
                    handle,
                ),
                None => !self.entrances().contains_key(name@),
            },
    {
        match self.ingresses.get(&name.to_owned()) {
            Some(definition) => Some(definition.handle(name.to_owned())),
            None => None,
        }
    }

    /// Returns stable handles for every named ingress.
    pub fn ingresses(&self) -> (r: Directory<String, IngressHandle>)
        ensures
            r.names() == self.entrance_names(),
            r@.dom() == self.entrances().dom(),
            forall|name: Seq<char>| #[trigger]
                r@.contains_key(name) ==> self.leads_into(name, r@[name]),
    {
        let total: usize = self.ingresses.check_names();
        let mut r: Directory<String, IngressHandle> = Directory::new();
        let ghost names = self.entrance_names();
        let mut i: usize = 0;
        while i < total
            invariant
                i <= total,
                total == names.len(),
                names == self.entrance_names(),
                names.no_duplicates(),
                names.to_set() == self.entrances().dom(),
                r.names() == names.take(i as int),
                r.names().to_set() == r@.dom(),
                forall|name: Seq<char>| #[trigger]
                    r@.contains_key(name) ==> self.leads_into(name, r@[name]),
            decreases total - i,
        {
            let name = self.ingresses.key_at(i);
            let definition = self.ingresses.value_at(i);
            proof {
                assert(names[i as int] == name@);
                assert(!names.take(i as int).contains(name@));
                if r@.contains_key(name@) {
                    assert(r.names().to_set().contains(name@));
                }
                assert(names.take(i as int + 1) =~= names.take(i as int).push(name@));
            }
            let _ = r.insert(name.clone(), definition.handle(name.clone()));
            let _ = r.check_names();
            i = i + 1;
        }
        assert(names.take(i as int) =~= names);
        r
    }

    /// A factory for further actors with the same limits.
    pub fn dynamic_factory(&self) -> (r: RunnableActorFactory)
        ensures
            r.limits() == self.limits(),
    {
        RunnableActorFactory { settings: self.settings }
    }
}

impl<F> Graph<F> {
    /// Decomposes the graph into individually runnable actors.
    pub fn into_actor_set(self) -> (r: Result<ActorSet<F>, GraphError>)
        requires
            self.wf(),
        ensures
            r matches Ok(set) && set.wf() && set.realizes(self),
    {
        ActorSet::from_graph(self)
    }
}

/// What ties an actor to the others.
struct Wiring {
    binding: MailboxBinding,
    peers: Directory<String, ActorRef>,
    myself: ActorRef,
    doors: Vec<Door>,
}

impl Wiring {
    spec fn fits<F>(self, graph: Graph<F>, id: Seq<char>) -> bool {
        &&& self.binding == graph.slots()[id]
        &&& graph.peers_of(id, self.peers@)
        &&& graph.sends_to(id, id, self.myself)
        &&& shown_doors(self.doors@) == doors_to(graph, id, graph.entrance_names().len())
    }
}

proof fn lemma_skip_one_less(ids: Seq<Seq<char>>, at: int)
    requires
        0 <= at < ids.len(),
    ensures
        ids.skip(at).to_set() == ids.skip(at + 1).to_set().insert(ids[at]),
{
    let more = ids.skip(at);
    let less = ids.skip(at + 1);
    assert forall|x: Seq<char>| #[trigger] more.contains(x) == (less.contains(x) || x == ids[at]) by {
        if less.contains(x) {
            let k = less.index_of(x);
            assert(more[k + 1] == x);
        }
        if more.contains(x) {
            let k = more.index_of(x);
            if k > 0 {
                assert(less[k - 1] == x);
            }
        }
        assert(more[0] == ids[at]);
    }
    assert(more.to_set() =~= less.to_set().insert(ids[at]));
}

/// Makes runnable actors that belong to no graph.
#[derive(Debug, Clone, Copy)]
pub struct RunnableActorFactory {
    settings: ActorSettings,
}

impl RunnableActorFactory {
    /// What the actors are limited to.
    pub closed spec fn limits(&self) -> ActorSettings {
        self.settings
    }

    /// Whether `actor` is one that was made from a specification: it has an empty
    /// slot of its own, and no ingress leads to it.
    pub open spec fn makes<F>(&self, spec: ActorSpec<F>, actor: RunnableActor<F>) -> bool {
        &&& actor.name() == spec.name()
        &&& actor.maker() == spec.maker()
        &&& actor.limits() == self.limits()
        &&& actor.entrances().len() == 0
        &&& actor.own().target() == spec.name()
        &&& actor.own().source() == Some(spec.name())
        &&& actor.slot().shows(actor.own().follows())
        &&& actor.slot().starts_empty()
    }

    /// Makes an actor without peers.
    pub fn actor<F>(&self, spec: ActorSpec<F>) -> (r: RunnableActor<F>)
        ensures
            self.makes(spec, r),
            r.linked() == Map::<Seq<char>, ActorRef>::empty(),
    {
        self.linked_actor(spec, Directory::new())
    }

    fn linked_actor<F>(&self, spec: ActorSpec<F>, peers: Directory<String, ActorRef>) -> (r:
        RunnableActor<F>)
        ensures
            self.makes(spec, r),
            r.linked() == peers@,
    {
        let binding = MailboxBinding::default();
        let id = spec.id().to_owned();
        let myself = ActorRef::from_binding(id.clone(), binding.subscribe(), Some(id));
        RunnableActor::new(spec, binding, peers, myself, self.settings, Vec::new())
    }

    /// Makes an actor whose peers are registered actors. The first id that is
    /// not registered is reported.
    pub fn actor_with_peer_ids<F>(
        &self,
        spec: ActorSpec<F>,
        registry: &ActorRegistry,
        peer_ids: &Vec<String>,
    ) -> (r: Result<RunnableActor<F>, RegistryError>)
        ensures
            match r {
                Ok(actor) => {
                    &&& forall|i: int|
                        0 <= i < peer_ids@.len() ==> registry.slots().contains_key(
                            (#[trigger] peer_ids@[i])@,
                        )
                    &&& self.makes(spec, actor)
                    &&& forall|id: Seq<char>| #[trigger]
                        actor.linked().contains_key(id) <==> lists_id(peer_ids@, id)
                    &&& forall|id: Seq<char>| #[trigger]
                        actor.linked().contains_key(id) ==> registry.sends_to(
                            id,
                            Some(spec.name()),
                            actor.linked()[id],
                        )
                },
                Err(error) => exists|i: int|
                    {
                        &&& 0 <= i < peer_ids@.len()
                        &&& !registry.slots().contains_key((#[trigger] peer_ids@[i])@)
                        &&& forall|j: int|
                            0 <= j < i ==> registry.slots().contains_key(
                                (#[trigger] peer_ids@[j])@,
                            )
                        &&& error matches RegistryError::UnknownActorId(id) && id@ == peer_ids@[i]@
                    },
            },
    {
        let id = spec.id().to_owned();
        let mut peers: Directory<String, ActorRef> = Directory::new();
        let mut i: usize = 0;
        while i < peer_ids.len()
            invariant
                i <= peer_ids.len(),
                id@ == spec.name(),
                forall|j: int|
                    0 <= j < i ==> registry.slots().contains_key((#[trigger] peer_ids@[j])@),
                forall|n: Seq<char>| #[trigger]
                    peers@.contains_key(n) <==> lists_id(peer_ids@.take(i as int), n),
                forall|n: Seq<char>| #[trigger]
                    peers@.contains_key(n) ==> registry.sends_to(n, Some(spec.name()), peers@[n]),
            decreases peer_ids.len() - i,
        {
            let peer_id = &peer_ids[i];
            let peer = match registry.actor_ref_for_source(peer_id.as_str(), Some(&id)) {
                Some(peer) => peer,
                None => {
                    return Err(RegistryError::UnknownActorId(peer_id.clone()));
                },
            };
            let _ = peers.insert(peer_id.clone(), peer);
            assert forall|n: Seq<char>| #[trigger]
                peers@.contains_key(n) <==> lists_id(peer_ids@.take(i as int + 1), n) by {
                let before = peer_ids@.take(i as int);
                let after = peer_ids@.take(i as int + 1);
                if lists_id(before, n) {
                    let k = choose|k: int| 0 <= k < before.len() && (#[trigger] before[k])@ == n;
                    assert(after[k]@ == n);
                }
                if lists_id(after, n) {
                    let k = choose|k: int| 0 <= k < after.len() && (#[trigger] after[k])@ == n;
                    if k < i {
                        assert(before[k]@ == n);
                    }
                }
                assert(after[i as int]@ == peer_id@);
            }
            i = i + 1;
        }
        assert(peer_ids@.take(i as int) =~= peer_ids@);
        Ok(self.linked_actor(spec, peers))
    }
}

/// Whether an id is among those in a list.
pub open spec fn lists_id(ids: Seq<String>, id: Seq<char>) -> bool {
    exists|i: int| 0 <= i < ids.len() && (#[trigger] ids[i])@ == id
}

/// An actor runs once at a time, and any number of times: a second run is refused
/// as long as there is one, which goes on; once that has ended, the next one is
/// not refused.
pub proof fn actors_run_one_at_a_time(
    idle: ActiveActorRun,
    first: Result<(), ActorRunError>,
    running: ActiveActorRun,
    second: Result<(), ActorRunError>,
    still_running: ActiveActorRun,
    ended: ActiveActorRun,
    third: Result<(), ActorRunError>,
    again: ActiveActorRun,
)
    requires
        !idle.is_running(),
        idle.engaged(first, running),
        running.engaged(second, still_running),
        still_running.released(ended),
        ended.engaged(third, again),
    ensures
        first is Ok,
        second matches Err(ActorRunError::AlreadyRunning { actor_id }) && actor_id@ == idle.actor(),
        still_running.is_running(),
        third is Ok,
{
}

/// A run leaves its actor unbound however it ends: every slot that its mailbox was
/// put into was emptied.
pub proof fn runs_leave_their_actor_unbound<F>(
    actor: RunnableActor<F>,
    start: ActorStart,
    cleared: Seq<usize>,
)
    requires
        actor.starts_with(start),
        actor.unbound(cleared),
    ensures
        actor.slot().is_emptied(),
        forall|i: int|
            0 <= i < start.placements@.len() ==> (#[trigger] start.placements@[i]).slot.is_emptied(),
{
    assert forall|i: int| 0 <= i < start.placements@.len() implies (
    #[trigger] start.placements@[i]).slot.is_emptied() by {
        assert(actor.filled()[i].unbinds(cleared.contains(i as usize)));
    }
    assert(actor.filled()[0] == actor.slot());
    assert(actor.filled()[0].unbinds(cleared.contains(0)));
}

/// Senders outlive restarts: in whatever run an actor is, the senders that its
/// peers hold follow the slot that the run's mailbox is put into, and that
/// mailbox feeds what the run receives from.
pub proof fn peers_reach_every_run<F>(
    graph: Graph<F>,
    set: ActorSet<F>,
    source: int,
    target: int,
    start: ActorStart,
)
    requires
        set.realizes(graph),
        0 <= source < set.members().len(),
        0 <= target < set.members().len(),
        graph.links_from(set.ids()[source]).contains(set.ids()[target]),
        set.members()[target].starts_with(start),
    ensures
        set.members()[source].linked().contains_key(set.ids()[target]),
        set.members()[source].linked()[set.ids()[target]].target() == set.ids()[target],
        start.placements@[0].slot.shows(
            set.members()[source].linked()[set.ids()[target]].follows(),
        ),
        start.placements@[0].mailbox.outlet() == fed_by(start.context.inbox()),
{
    let from = set.members()[source];
    let to = set.members()[target];
    assert(ActorSet::decomposes(graph, source, from));
    assert(ActorSet::decomposes(graph, target, to));
    assert(graph.links_from(graph.ids()[source]).to_set().contains(graph.ids()[target]));
    assert(to.filled()[0] == to.slot());
    assert(start.placements@[0].slot == to.filled()[0]);
}

proof fn lemma_door<F>(graph: Graph<F>, id: Seq<char>, n: nat, k: int) -> (at: int)
    requires
        0 <= k < n <= graph.entrance_names().len(),
        graph.entrances()[graph.entrance_names()[k]].target() == id,
    ensures
        0 <= at < doors_to(graph, id, n).len(),
        doors_to(graph, id, n)[at] == (
            graph.entrance_names()[k],
            graph.entrances()[graph.entrance_names()[k]].slot(),
        ),
    decreases n,
{
    if k < n - 1 {
        lemma_door(graph, id, (n - 1) as nat, k)
    } else {
        doors_to(graph, id, n).len() - 1
    }
}

/// Ingress handles outlive restarts: in whatever run the actor behind an ingress
/// is, handles to the ingress follow one of the slots that the run's mailbox is
/// put into.
pub proof fn ingresses_reach_every_run<F>(
    graph: Graph<F>,
    set: ActorSet<F>,
    name: Seq<char>,
    handle: IngressHandle,
    target: int,
    start: ActorStart,
)
    requires
        graph.wf(),
        set.realizes(graph),
        graph.entrances().contains_key(name),
        graph.leads_into(name, handle),
        0 <= target < set.members().len(),
        set.ids()[target] == handle.actor(),
        set.members()[target].starts_with(start),
    ensures
        exists|i: int|
            {
                &&& 0 <= i < start.placements@.len()
                &&& (#[trigger] start.placements@[i]).slot.shows(handle.follows())
                &&& start.placements@[i].mailbox.outlet() == fed_by(start.context.inbox())
            },
{
    let to = set.members()[target];
    assert(ActorSet::decomposes(graph, target, to));
    assert(graph.entrance_names().to_set().contains(name));
    let k = graph.entrance_names().index_of(name);
    let at = lemma_door(graph, handle.actor(), graph.entrance_names().len(), k);
    assert(to.entrances()[at].1 == graph.entrances()[name].slot());
    assert(to.filled()[at + 1] == to.entrances()[at].1);
    assert(start.placements@[at + 1].slot == to.filled()[at + 1]);
}

} // verus!
