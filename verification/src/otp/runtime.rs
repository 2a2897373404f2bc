//! A supervisor together with the actors that it hosts.

use vstd::prelude::*;

use crate::actor::actor::ActorSpec;
use crate::actor::actor_set::{lists_id, RunnableActor, RunnableActorFactory};
use crate::actor::binding::MailboxBinding;
use crate::actor::context::ActorRef;
use crate::actor::delivery::{started, SendStep};
use crate::actor::envelope::Envelope;
use crate::actor::error::SendError;
use crate::actor::graph::Graph;
use crate::actor::ingress::IngressHandle;
use crate::actor::registry::{ActorRegistry, RegistryError};
use crate::directory::Directory;
use crate::otp::error::DynamicActorError;
use crate::supervisor::child::ChildSpec;
use crate::supervisor::error::ControlError;
use crate::supervisor::restart::{Restart, RestartIntensity};
use crate::supervisor::shutdown::ShutdownPolicy;
use crate::supervisor::supervisor::Supervisor;

verus! {

/// What a supervised child runs. `F` makes the future of an actor, `C` that of
/// any other child.
#[derive(Debug)]
pub enum ChildWork<F, C> {
    /// A single actor, until the child is asked to stop.
    Actor(RunnableActor<F>),
    /// A whole graph of actors, until the child is asked to stop.
    Graph(Graph<F>),
    /// Anything else.
    Task(C),
}

/// Options applied when adding a runtime actor to a supervised runtime.
#[derive(Debug)]
pub struct DynamicActorOptions {
    /// Restart policy for the supervised actor child.
    pub restart: Restart,
    /// Shutdown policy for the supervised actor child.
    pub shutdown: ShutdownPolicy,
    /// Optional restart intensity override for this actor child.
    pub restart_intensity: Option<RestartIntensity>,
    /// Initial peer ids that should be available to the actor.
    pub peer_ids: Vec<String>,
}

impl Default for DynamicActorOptions {
    /// Restart on failure, five seconds to stop, no peers.
    fn default() -> (r: Self)
        ensures
            r.restart is Transient,
            r.shutdown.mode is CooperativeThenAbort,
            r.shutdown.grace@ == 5_000_000_000,
            r.restart_intensity is None,
            r.peer_ids@.len() == 0,
    {
        DynamicActorOptions {
            restart: Restart::Transient,
            shutdown: ShutdownPolicy::default(),
            restart_intensity: None,
            peer_ids: Vec::new(),
        }
    }
}

/// Whether `child` is one that runs `actor` with the given policies.
pub open spec fn hosts<F, C>(
    child: ChildSpec<ChildWork<F, C>>,
    actor: RunnableActor<F>,
    restart: Restart,
    shutdown: ShutdownPolicy,
    restart_intensity: Option<RestartIntensity>,
) -> bool {
    &&& child.policies().id@ == actor.name()
    &&& child.policies().restart == restart
    &&& child.policies().shutdown_policy == shutdown
    &&& child.policies().restart_intensity == restart_intensity
    &&& child.maker() == ChildWork::<F, C>::Actor(actor)
}

/// Adapts an actor into a supervised child.
pub fn actor_child_spec<F, C>(
    actor: RunnableActor<F>,
    restart: Restart,
    shutdown: ShutdownPolicy,
    restart_intensity: Option<RestartIntensity>,
) -> (r: ChildSpec<ChildWork<F, C>>)
    ensures
        hosts(r, actor, restart, shutdown, restart_intensity),
{
    let actor_id = actor.id().to_owned();
    let child = ChildSpec::new(actor_id, ChildWork::Actor(actor)).restart(restart).shutdown(
        shutdown,
    );
    match restart_intensity {
        Some(intensity) => child.restart_intensity(intensity),
        None => child,
    }
}

/// What it takes to add actors at run time.
#[derive(Debug)]
pub struct DynamicRuntimeState {
    registry: ActorRegistry,
    actor_factory: RunnableActorFactory,
}

/// The first of some ids that is not registered, as an error says it.
pub open spec fn names_unknown_peer(
    slots: Map<Seq<char>, MailboxBinding>,
    peer_ids: Seq<String>,
    error: RegistryError,
) -> bool {
    exists|i: int|
        {
            &&& 0 <= i < peer_ids.len()
            &&& !slots.contains_key((#[trigger] peer_ids[i])@)
            &&& forall|j: int| 0 <= j < i ==> slots.contains_key((#[trigger] peer_ids[j])@)
            &&& error matches RegistryError::UnknownActorId(id) && id@ == peer_ids[i]@
        }
}

/// Whether every one of some ids is registered.
pub open spec fn knows_all(slots: Map<Seq<char>, MailboxBinding>, peer_ids: Seq<String>) -> bool {
    forall|i: int| 0 <= i < peer_ids.len() ==> slots.contains_key((#[trigger] peer_ids[i])@)
}

impl DynamicRuntimeState {
    /// The registered actors.
    pub closed spec fn slots(&self) -> Map<Seq<char>, MailboxBinding> {
        self.registry.slots()
    }

    /// What makes further actors.
    pub closed spec fn factory(&self) -> RunnableActorFactory {
        self.actor_factory
    }

    /// Whether `actor` was made from `spec`, with the given peers.
    pub open spec fn makes<F>(
        &self,
        spec: ActorSpec<F>,
        peer_ids: Seq<String>,
        actor: RunnableActor<F>,
    ) -> bool {
        &&& self.factory().makes(spec, actor)
        &&& forall|id: Seq<char>| #[trigger]
            actor.linked().contains_key(id) <==> lists_id(peer_ids, id)
        &&& forall|id: Seq<char>| #[trigger]
            actor.linked().contains_key(id) ==> {
                &&& actor.linked()[id].target() == id
                &&& actor.linked()[id].source() == Some(spec.name())
                &&& self.slots()[id].shows(actor.linked()[id].follows())
            }
    }

    /// Starts with the actors that are registered.
    pub fn new(registry: ActorRegistry, actor_factory: RunnableActorFactory) -> (r: Self)
        ensures
            r.slots() == registry.slots(),
            r.factory() == actor_factory,
    {
        DynamicRuntimeState { registry, actor_factory }
    }

    /// Makes an actor whose peers are registered ones.
    pub fn build_actor<F>(&self, spec: ActorSpec<F>, options: &DynamicActorOptions) -> (r: Result<
        RunnableActor<F>,
        DynamicActorError,
    >)
        ensures
            match r {
                Ok(actor) => knows_all(self.slots(), options.peer_ids@) && self.makes(
                    spec,
                    options.peer_ids@,
                    actor,
                ),
                Err(error) => error matches DynamicActorError::Registry(why) && names_unknown_peer(
                    self.slots(),
                    options.peer_ids@,
                    why,
                ),
            },
    {
        if options.peer_ids.len() == 0 {
            return Ok(self.actor_factory.actor(spec));
        }
        match self.actor_factory.actor_with_peer_ids(spec, &self.registry, &options.peer_ids) {
            Ok(actor) => Ok(actor),
            Err(error) => Err(DynamicActorError::from(error)),
        }
    }
}

/// Configured-but-not-yet-running runtime that owns a supervisor and its
/// stable ingress handles.
#[derive(Debug)]
pub struct Runtime<F, C> {
    supervisor: Supervisor<ChildWork<F, C>>,
    ingresses: Directory<String, IngressHandle>,
    dynamic: Option<DynamicRuntimeState>,
}

impl<F, C> Runtime<F, C> {
    /// The supervisor.
    pub closed spec fn root(&self) -> Supervisor<ChildWork<F, C>> {
        self.supervisor
    }

    /// The ingress handles, by name.
    pub closed spec fn handles(&self) -> Map<Seq<char>, IngressHandle> {
        self.ingresses@
    }

    /// What it takes to add actors at run time, if that is possible.
    pub closed spec fn dynamic(&self) -> Option<DynamicRuntimeState> {
        self.dynamic
    }

    /// Creates a runtime from a supervisor and its ingress handles.
    pub fn new(
        supervisor: Supervisor<ChildWork<F, C>>,
        ingresses: Directory<String, IngressHandle>,
    ) -> (r: Self)
        ensures
            r.root() == supervisor,
            r.handles() == ingresses@,
            r.dynamic() is None,
    {
        Runtime { supervisor, ingresses, dynamic: None }
    }

    /// Creates a runtime to which actors can be added.
    pub(crate) fn with_dynamic(
        supervisor: Supervisor<ChildWork<F, C>>,
        ingresses: Directory<String, IngressHandle>,
        registry: ActorRegistry,
        actor_factory: RunnableActorFactory,
    ) -> (r: Self)
        ensures
            r.root() == supervisor,
            r.handles() == ingresses@,
            r.dynamic() matches Some(dynamic) && dynamic.slots() == registry.slots()
                && dynamic.factory() == actor_factory,
    {
        Runtime {
            supervisor,
            ingresses,
            dynamic: Some(DynamicRuntimeState::new(registry, actor_factory)),
        }
    }

    /// Returns a clone of one ingress handle, if it exists.
    pub fn ingress(&self, name: &str) -> (r: Option<IngressHandle>)
        ensures
            r == if self.handles().contains_key(name@) {
                Some(self.handles()[name@])
            } else {
                None
            },
    {
        match self.ingresses.get(&name.to_owned()) {
            Some(handle) => Some(handle.clone()),
            None => None,
        }
    }

    /// Returns clones of every ingress handle.
    pub fn ingresses(&self) -> (r: Directory<String, IngressHandle>)
        ensures
            r@ == self.handles(),
    {
        let r = self.ingresses.duplicate();
        assert(r@ =~= self.ingresses@);
        r
    }

    /// Returns the raw supervisor and ingress handles.
    pub fn into_parts(self) -> (r: (
        Supervisor<ChildWork<F, C>>,
        Directory<String, IngressHandle>,
    ))
        ensures
            r.0 == self.root(),
            r.1@ == self.handles(),
    {
        (self.supervisor, self.ingresses)
    }

    /// Parts with the supervisor, which is to be run, and keeps the rest as a
    /// control surface.
    pub fn spawn(self) -> (r: (Supervisor<ChildWork<F, C>>, RuntimeHandle))
        ensures
            r.0 == self.root(),
            r.1.handles() == self.handles(),
            r.1.dynamic() == self.dynamic(),
    {
        (self.supervisor, RuntimeHandle { ingresses: self.ingresses, dynamic: self.dynamic })
    }
}

/// An actor that is about to be added.
#[derive(Debug)]
pub struct NewActor<F, C> {
    /// A sender for the actor.
    pub actor_ref: ActorRef,
    /// The child that the supervisor is to take in.
    pub child: ChildSpec<ChildWork<F, C>>,
}

/// Control surface of a running runtime.
#[derive(Debug)]
pub struct RuntimeHandle {
    ingresses: Directory<String, IngressHandle>,
    dynamic: Option<DynamicRuntimeState>,
}

impl RuntimeHandle {
    /// The ingress handles, by name.
    pub closed spec fn handles(&self) -> Map<Seq<char>, IngressHandle> {
        self.ingresses@
    }

    /// What it takes to add actors at run time, if that is possible.
    pub closed spec fn dynamic(&self) -> Option<DynamicRuntimeState> {
        self.dynamic
    }

    /// Whether actors can be added at run time.
    pub open spec fn is_dynamic(&self) -> bool {
        self.dynamic() is Some
    }

    /// The registered actors.
    pub open spec fn slots(&self) -> Map<Seq<char>, MailboxBinding> {
        self.dynamic()->Some_0.slots()
    }

    /// The handle is the same but for the registered actors.
    pub open spec fn same_but_for_slots(&self, other: &Self) -> bool {
        &&& self.handles() == other.handles()
        &&& self.is_dynamic() == other.is_dynamic()
        &&& self.is_dynamic() ==> self.dynamic()->Some_0.factory()
            == other.dynamic()->Some_0.factory()
    }

    /// Returns a clone of one ingress handle, if it exists.
    pub fn ingress(&self, name: &str) -> (r: Option<IngressHandle>)
        ensures
            r == if self.handles().contains_key(name@) {
                Some(self.handles()[name@])
            } else {
                None
            },
    {
        match self.ingresses.get(&name.to_owned()) {
            Some(handle) => Some(handle.clone()),
            None => None,
        }
    }

    /// Returns clones of every ingress handle.
    pub fn ingresses(&self) -> (r: Directory<String, IngressHandle>)
        ensures
            r@ == self.handles(),
    {
        let r = self.ingresses.duplicate();
        assert(r@ =~= self.ingresses@);
        r
    }

    /// Returns a stable actor reference for a registered actor id.
    pub fn actor_ref(&self, actor_id: &str) -> (r: Option<ActorRef>)
        ensures
            match r {
                Some(sender) => {
                    &&& self.is_dynamic() && self.slots().contains_key(actor_id@)
                    &&& sender.target() == actor_id@
                    &&& sender.source() is None
                    &&& self.slots()[actor_id@].shows(sender.follows())
                },
                None => !self.is_dynamic() || !self.slots().contains_key(actor_id@),
            },
    {
        match &self.dynamic {
            Some(dynamic) => dynamic.registry.actor_ref(actor_id),
            None => None,
        }
    }

    /// Whether `added` is an actor that was made as the specification and the
    /// options say, and registered, which leaves `after`.
    pub open spec fn adds<F, C>(
        &self,
        spec: ActorSpec<F>,
        options: DynamicActorOptions,
        added: NewActor<F, C>,
        after: &Self,
    ) -> bool {
        &&& self.is_dynamic()
        &&& knows_all(self.slots(), options.peer_ids@)
        &&& spec.name().len() > 0
        &&& !self.slots().contains_key(spec.name())
        &&& added.child.maker() matches ChildWork::Actor(actor)
        &&& hosts(
            added.child,
            actor,
            options.restart,
            options.shutdown,
            options.restart_intensity,
        )
        &&& self.dynamic()->Some_0.makes(spec, options.peer_ids@, actor)
        &&& after.slots() == self.slots().insert(spec.name(), actor.slot())
        &&& added.actor_ref.target() == spec.name()
        &&& added.actor_ref.source() is None
        &&& actor.slot().shows(added.actor_ref.follows())
    }

    /// First half of adding an actor: makes and registers it. The supervisor is
    /// then to take in the child, and [`actor_added`](Self::actor_added) to be
    /// told what it answered.
    pub fn add_actor<F, C>(&mut self, spec: ActorSpec<F>, options: DynamicActorOptions) -> (r: Result<
        NewActor<F, C>,
        DynamicActorError,
    >)
        ensures
            final(self).same_but_for_slots(old(self)),
            match r {
                Ok(added) => old(self).adds(spec, options, added, final(self)),
                Err(error) => {
                    &&& old(self).is_dynamic() ==> final(self).slots() == old(self).slots()
                    &&& match error {
                        DynamicActorError::Unsupported => !old(self).is_dynamic(),
                        DynamicActorError::Registry(why) => {
                            &&& old(self).is_dynamic()
                            &&& if !knows_all(old(self).slots(), options.peer_ids@) {
                                names_unknown_peer(old(self).slots(), options.peer_ids@, why)
                            } else if spec.name().len() == 0 {
                                why is EmptyActorId
                            } else {
                                &&& old(self).slots().contains_key(spec.name())
                                &&& why matches RegistryError::DuplicateActorId(id) && id@
                                    == spec.name()
                            }
                        },
                        DynamicActorError::Control(_) => false,
                    }
                },
            },
    {
        match &mut self.dynamic {
            None => Err(DynamicActorError::Unsupported),
            Some(dynamic) => {
                let actor = match dynamic.build_actor(spec, &options) {
                    Ok(actor) => actor,
                    Err(error) => {
                        return Err(error);
                    },
                };
                let actor_ref = actor.actor_ref();
                if let Err(error) = actor.register_with(&mut dynamic.registry) {
                    return Err(DynamicActorError::from(error));
                }
                let child = actor_child_spec(
                    actor,
                    options.restart,
                    options.shutdown,
                    options.restart_intensity,
                );
                Ok(NewActor { actor_ref, child })
            },
        }
    }

    /// Second half of adding an actor: `answer` is what the supervisor answered
    /// when it was to take in the child. An actor that was not taken in is
    /// registered no longer.
    pub fn actor_added(&mut self, actor_ref: ActorRef, answer: Result<(), ControlError>) -> (r:
        Result<ActorRef, DynamicActorError>)
        ensures
            final(self).same_but_for_slots(old(self)),
            match answer {
                Ok(()) => r == Ok::<_, DynamicActorError>(actor_ref) && final(self).dynamic() == old(
                    self,
                ).dynamic(),
                Err(why) => r == Err::<ActorRef, _>(DynamicActorError::Control(why)) && (old(
                    self,
                ).is_dynamic() ==> final(self).slots() == if actor_ref.target().len() == 0 {
                    old(self).slots()
                } else {
                    old(self).slots().remove(actor_ref.target())
                }),
            },
    {
        match answer {
            Ok(()) => Ok(actor_ref),
            Err(why) => {
                if let Some(dynamic) = &mut self.dynamic {
                    let ghost before = dynamic.registry.slots();
                    let _ = dynamic.registry.deregister(actor_ref.id());
                    assert(actor_ref.target().len() > 0 ==> dynamic.registry.slots()
                        =~= before.remove(actor_ref.target()));
                }
                Err(DynamicActorError::from(why))
            },
        }
    }

    /// First half of removing an actor: the id of the child that the supervisor
    /// is to let go.
    pub fn remove_actor(&self, actor_id: &str) -> (r: Result<String, DynamicActorError>)
        ensures
            match r {
                Ok(id) => self.is_dynamic() && id@ == actor_id@,
                Err(error) => !self.is_dynamic() && error is Unsupported,
            },
    {
        match &self.dynamic {
            Some(_) => Ok(actor_id.to_owned()),
            None => Err(DynamicActorError::Unsupported),
        }
    }

    /// Whether removing an actor comes to `result` and leaves `after`, given what
    /// the supervisor answered when it was to let go of the child.
    pub open spec fn removes(
        &self,
        actor_id: Seq<char>,
        answer: Result<(), ControlError>,
        result: Result<(), DynamicActorError>,
        after: &Self,
    ) -> bool {
        match answer {
            Err(why) => result == Err::<(), _>(DynamicActorError::Control(why)) && after.dynamic()
                == self.dynamic(),
            Ok(()) => if !self.is_dynamic() {
                result matches Err(error) && error is Unsupported
            } else if actor_id.len() > 0 && self.slots().contains_key(actor_id) {
                result is Ok && after.slots() == self.slots().remove(actor_id)
            } else {
                &&& after.slots() == self.slots()
                &&& result matches Err(DynamicActorError::Registry(why))
                &&& if actor_id.len() == 0 {
                    why is EmptyActorId
                } else {
                    why matches RegistryError::UnknownActorId(id) && id@ == actor_id
                }
            },
        }
    }

    /// Second half of removing an actor: `answer` is what the supervisor
    /// answered when it was to let go of the child. An actor that the supervisor
    /// keeps stays registered.
    pub fn actor_removed(&mut self, actor_id: &str, answer: Result<(), ControlError>) -> (r: Result<
        (),
        DynamicActorError,
    >)
        ensures
            final(self).same_but_for_slots(old(self)),
            old(self).removes(actor_id@, answer, r, final(self)),
    {
        if let Err(why) = answer {
            return Err(DynamicActorError::from(why));
        }
        match &mut self.dynamic {
            None => Err(DynamicActorError::Unsupported),
            Some(dynamic) => match dynamic.registry.deregister(actor_id) {
                Ok(()) => Ok(()),
                Err(error) => Err(DynamicActorError::from(error)),
            },
        }
    }
}

/// An actor that the supervisor does not take in leaves no trace: the registered
/// actors are those from before the attempt.
pub proof fn refused_actor_leaves_no_trace(
    before: RuntimeHandle,
    during: RuntimeHandle,
    after: RuntimeHandle,
    actor_id: Seq<char>,
    slot: MailboxBinding,
)
    requires
        actor_id.len() > 0,
        !before.slots().contains_key(actor_id),
        during.slots() == before.slots().insert(actor_id, slot),
        after.slots() == during.slots().remove(actor_id),
    ensures
        after.slots() == before.slots(),
{
    assert(after.slots() =~= before.slots());
}

/// An actor that was added and removed again is gone: it is registered no longer,
/// its slot was emptied when its run ended, and what its sender sends while the
/// slot is empty is refused because it is not running. One that the supervisor
/// keeps stays registered.
pub proof fn removed_actors_are_gone<F, C>(
    before: RuntimeHandle,
    spec: ActorSpec<F>,
    options: DynamicActorOptions,
    added: NewActor<F, C>,
    registered: RuntimeHandle,
    cleared: Seq<usize>,
    during: RuntimeHandle,
    answer: Result<(), ControlError>,
    result: Result<(), DynamicActorError>,
    after: RuntimeHandle,
    envelope: Envelope,
    step: SendStep<SendError>,
)
    requires
        before.adds(spec, options, added, &registered),
        added.child.maker() matches ChildWork::Actor(actor) && actor.unbound(cleared),
        during.is_dynamic(),
        during.slots().contains_key(spec.name()),
        during.removes(spec.name(), answer, result, &after),
        started(added.actor_ref, None, envelope, step),
    ensures
        answer is Ok ==> result is Ok && !after.slots().contains_key(spec.name()),
        answer is Err ==> (result matches Err(DynamicActorError::Control(_)))
            && after.slots().contains_key(spec.name()),
        added.child.maker() matches ChildWork::Actor(actor) && actor.slot().is_emptied()
            && actor.slot().shows(added.actor_ref.follows()),
        step matches SendStep::Done(Err(SendError::ActorNotRunning { actor_id })) && actor_id@
            == spec.name(),
{
    if let ChildWork::Actor(actor) = added.child.maker() {
        assert(actor.filled()[0] == actor.slot());
        assert(actor.filled()[0].unbinds(cleared.contains(0)));
    }
}

/// An actor that is added runs as it was asked for: under its own id and the policies in the
/// options, with senders for the peers that these name and for no others. It is registered
/// from then on, and reached through the sender that is handed out; all others stay
/// registered as they were.
pub proof fn added_actors_run_as_asked<F, C>(
    before: RuntimeHandle,
    spec: ActorSpec<F>,
    options: DynamicActorOptions,
    added: NewActor<F, C>,
    after: RuntimeHandle,
    other: Seq<char>,
    peer: int,
)
    requires
        before.adds(spec, options, added, &after),
        other != spec.name(),
        0 <= peer < options.peer_ids@.len(),
    ensures
        ({
            let policies = added.child.policies();
            &&& policies.id@ == spec.name()
            &&& policies.restart == options.restart
            &&& policies.shutdown_policy == options.shutdown
            &&& policies.restart_intensity == options.restart_intensity
        }),
        !before.slots().contains_key(spec.name()),
        after.slots().contains_key(spec.name()),
        after.slots()[spec.name()].shows(added.actor_ref.follows()),
        added.actor_ref.target() == spec.name(),
        after.slots().contains_key(other) == before.slots().contains_key(other),
        after.slots().contains_key(other) ==> after.slots()[other] == before.slots()[other],
        added.child.maker() matches ChildWork::Actor(actor) && {
            let id = options.peer_ids@[peer]@;
            &&& actor.name() == spec.name()
            &&& actor.linked().contains_key(id)
            &&& actor.linked()[id].target() == id
            &&& before.slots()[id].shows(actor.linked()[id].follows())
            &&& (forall|i: int|
                0 <= i < options.peer_ids@.len() ==> (#[trigger] options.peer_ids@[i])@ != other)
                ==> !actor.linked().contains_key(other)
        },
{
    if let ChildWork::Actor(actor) = added.child.maker() {
        let id = options.peer_ids@[peer]@;
        assert(lists_id(options.peer_ids@, id));
        assert(actor.linked().contains_key(id));
        if actor.linked().contains_key(other) {
            assert(lists_id(options.peer_ids@, other));
        }
    }
}

} // verus!
