//! Each actor of a graph as a supervised child of its own.

use vstd::prelude::*;

use crate::actor::actor_set::{ActorSet, RunnableActor};
use crate::actor::binding::MailboxBinding;
use crate::actor::graph::Graph;
use crate::actor::ingress::IngressHandle;
use crate::actor::registry::ActorRegistry;
use crate::directory::Directory;
use crate::otp::error::BuildError;
use crate::otp::runtime::{actor_child_spec, hosts, ChildWork, Runtime};
use crate::supervisor::builder::{reports, Plan, SupervisorBuilder};
use crate::supervisor::child::ChildSpec;
use crate::supervisor::restart::{Restart, RestartIntensity};
use crate::supervisor::shutdown::ShutdownPolicy;
use crate::supervisor::supervisor::Supervisor;

verus! {

/// What is set for one actor in place of the defaults.
#[derive(Debug, Clone, Copy)]
pub struct ActorOverrides {
    /// The restart policy.
    pub restart: Option<Restart>,
    /// The restart intensity.
    pub restart_intensity: Option<RestartIntensity>,
    /// The shutdown policy.
    pub shutdown: Option<ShutdownPolicy>,
}

impl ActorOverrides {
    /// Nothing is set.
    pub open spec fn nothing() -> Self {
        ActorOverrides { restart: None, restart_intensity: None, shutdown: None }
    }
}

impl Default for ActorOverrides {
    fn default() -> (r: Self)
        ensures
            r == ActorOverrides::nothing(),
    {
        ActorOverrides { restart: None, restart_intensity: None, shutdown: None }
    }
}

/// Builder that adapts each actor in a graph into its own supervised child.
#[derive(Debug)]
pub struct SupervisedActors<F> {
    actor_set: ActorSet<F>,
    default_restart: Restart,
    default_shutdown: ShutdownPolicy,
    overrides: Directory<String, ActorOverrides>,
}

impl<F> SupervisedActors<F> {
    /// The actors.
    pub closed spec fn set(&self) -> ActorSet<F> {
        self.actor_set
    }

    /// The restart policy of actors for which none is set.
    pub closed spec fn usual_restart(&self) -> Restart {
        self.default_restart
    }

    /// The shutdown policy of actors for which none is set.
    pub closed spec fn usual_shutdown(&self) -> ShutdownPolicy {
        self.default_shutdown
    }

    /// What is set for single actors.
    pub closed spec fn exceptions(&self) -> Map<Seq<char>, ActorOverrides> {
        self.overrides@
    }

    /// What is set for an actor.
    pub open spec fn exception_for(&self, id: Seq<char>) -> ActorOverrides {
        if self.exceptions().contains_key(id) {
            self.exceptions()[id]
        } else {
            ActorOverrides::nothing()
        }
    }

    /// Everything but what is set for single actors is the same.
    pub open spec fn same_but_for_exceptions(&self, other: &Self) -> bool {
        &&& self.set() == other.set()
        &&& self.usual_restart() == other.usual_restart()
        &&& self.usual_shutdown() == other.usual_shutdown()
    }

    /// Whether something is set only for actors that there are.
    pub open spec fn exceptions_apply(&self) -> bool {
        forall|id: Seq<char>| #[trigger]
            self.exceptions().contains_key(id) ==> self.set().ids().contains(id)
    }

    /// Whether `error` names an actor for which something is set although it
    /// does not exist.
    pub open spec fn misapplied(&self, error: BuildError) -> bool {
        error matches BuildError::UnknownActor { actor_id } && self.exceptions().contains_key(
            actor_id@,
        ) && !self.set().ids().contains(actor_id@)
    }

    /// Whether `child` hosts `actor` under the policies that apply to it.
    pub open spec fn hosts_one<C>(
        &self,
        child: ChildSpec<ChildWork<F, C>>,
        actor: RunnableActor<F>,
    ) -> bool {
        let exception = self.exception_for(actor.name());
        hosts(
            child,
            actor,
            match exception.restart {
                Some(restart) => restart,
                None => self.usual_restart(),
            },
            match exception.shutdown {
                Some(shutdown) => shutdown,
                None => self.usual_shutdown(),
            },
            exception.restart_intensity,
        )
    }

    /// Whether `children` host the actors, in order, each under the policies
    /// that apply to it.
    pub open spec fn hosts_all<C>(&self, children: Seq<ChildSpec<ChildWork<F, C>>>) -> bool {
        &&& children.len() == self.set().members().len()
        &&& forall|i: int|
            0 <= i < children.len() ==> self.hosts_one(
                #[trigger] children[i],
                self.set().members()[i],
            )
    }

    /// Whether `handles` lead into the ingress points.
    pub open spec fn opens_all(&self, handles: Map<Seq<char>, IngressHandle>) -> bool {
        &&& handles.dom() == self.set().entrances().dom()
        &&& forall|name: Seq<char>| #[trigger]
            handles.contains_key(name) ==> self.set().leads_into(name, handles[name])
    }

    /// Decomposes a graph into per-actor supervised children.
    pub fn new(graph: Graph<F>) -> (r: Result<Self, BuildError>)
        requires
            graph.wf(),
        ensures
            r matches Ok(actors) && {
                &&& actors.set().wf()
                &&& actors.set().realizes(graph)
                &&& actors.usual_restart() is Transient
                &&& actors.usual_shutdown().mode is CooperativeThenAbort
                &&& actors.usual_shutdown().grace@ == 5_000_000_000
                &&& actors.exceptions() == Map::<Seq<char>, ActorOverrides>::empty()
            },
    {
        match graph.into_actor_set() {
            Ok(actor_set) => Ok(
                SupervisedActors {
                    actor_set,
                    default_restart: Restart::Transient,
                    default_shutdown: ShutdownPolicy::default(),
                    overrides: Directory::new(),
                },
            ),
            Err(error) => Err(BuildError::from(error)),
        }
    }

    /// Sets the default restart policy applied to every actor child.
    #[must_use]
    pub fn restart(self, restart: Restart) -> (r: Self)
        ensures
            r.set() == self.set(),
            r.usual_restart() == restart,
            r.usual_shutdown() == self.usual_shutdown(),
            r.exceptions() == self.exceptions(),
    {
        SupervisedActors { default_restart: restart, ..self }
    }

    /// Sets the default shutdown policy applied to every actor child.
    #[must_use]
    pub fn shutdown(self, shutdown: ShutdownPolicy) -> (r: Self)
        ensures
            r.set() == self.set(),
            r.usual_restart() == self.usual_restart(),
            r.usual_shutdown() == shutdown,
            r.exceptions() == self.exceptions(),
    {
        SupervisedActors { default_shutdown: shutdown, ..self }
    }

    fn exception(&self, actor_id: &String) -> (r: ActorOverrides)
        ensures
            r == self.exception_for(actor_id@),
    {
        match self.overrides.get(actor_id) {
            Some(overrides) => *overrides,
            None => ActorOverrides::default(),
        }
    }

    /// Overrides the restart policy for one actor.
    #[must_use]
    pub fn actor_restart(self, actor_id: String, restart: Restart) -> (r: Self)
        ensures
            r.same_but_for_exceptions(&self),
            r.exceptions() == self.exceptions().insert(
                actor_id@,
                ActorOverrides { restart: Some(restart), ..self.exception_for(actor_id@) },
            ),
    {
        let overrides = ActorOverrides { restart: Some(restart), ..self.exception(&actor_id) };
        let mut this = self;
        let _ = this.overrides.insert(actor_id, overrides);
        this
    }

    /// Overrides the restart intensity for one actor.
    #[must_use]
    pub fn actor_restart_intensity(self, actor_id: String, intensity: RestartIntensity) -> (r: Self)
        ensures
            r.same_but_for_exceptions(&self),
            r.exceptions() == self.exceptions().insert(
                actor_id@,
                ActorOverrides {
                    restart_intensity: Some(intensity),
                    ..self.exception_for(actor_id@)
                },
            ),
    {
        let overrides = ActorOverrides {
            restart_intensity: Some(intensity),
            ..self.exception(&actor_id)
        };
        let mut this = self;
        let _ = this.overrides.insert(actor_id, overrides);
        this
    }

    /// Overrides the shutdown policy for one actor.
    #[must_use]
    pub fn actor_shutdown(self, actor_id: String, shutdown: ShutdownPolicy) -> (r: Self)
        ensures
            r.same_but_for_exceptions(&self),
            r.exceptions() == self.exceptions().insert(
                actor_id@,
                ActorOverrides { shutdown: Some(shutdown), ..self.exception_for(actor_id@) },
            ),
    {
        let overrides = ActorOverrides { shutdown: Some(shutdown), ..self.exception(&actor_id) };
        let mut this = self;
        let _ = this.overrides.insert(actor_id, overrides);
        this
    }

    fn validate_overrides(&self) -> (r: Result<(), BuildError>)
        requires
            self.set().wf(),
        ensures
            match r {
                Ok(()) => self.exceptions_apply(),
                Err(error) => self.misapplied(error),
            },
    {
        let total: usize = self.overrides.check_names();
        let mut i: usize = 0;
        while i < total
            invariant
                i <= total,
                total == self.overrides.names().len(),
                self.set().wf(),
                self.overrides.names().to_set() == self.exceptions().dom(),
                forall|j: int|
                    0 <= j < i ==> self.set().ids().contains(#[trigger] self.overrides.names()[j]),
            decreases total - i,
        {
            let actor_id = self.overrides.key_at(i);
            match self.actor_set.actor(actor_id.as_str()) {
                None => {
                    return Err(BuildError::UnknownActor { actor_id: actor_id.clone() });
                },
                Some(actor) => {
                    proof {
                        let k = self.set().members().index_of(*actor);
                        assert(self.set().ids()[k] == actor.name());
                    }
                },
            }
            i = i + 1;
        }
        assert forall|id: Seq<char>| #[trigger]
            self.exceptions().contains_key(id) implies self.set().ids().contains(id) by {
            assert(self.overrides.names().to_set().contains(id));
            let k = self.overrides.names().index_of(id);
            assert(self.overrides.names()[k] == id);
        }
        Ok(())
    }

    fn actor_children<C>(self) -> (r: Vec<ChildSpec<ChildWork<F, C>>>)
        ensures
            self.hosts_all(r@),
    {
        let ghost members = self.set().members();
        let ghost all = self;
        let SupervisedActors { actor_set, default_restart, default_shutdown, overrides } = self;
        let mut left = actor_set.into_actors();
        let mut backwards: Vec<ChildSpec<ChildWork<F, C>>> = Vec::new();
        while left.len() > 0
            invariant
                left@.len() <= members.len(),
                left@ == members.take(left@.len() as int),
                members == all.set().members(),
                default_restart == all.usual_restart(),
                default_shutdown == all.usual_shutdown(),
                overrides@ == all.exceptions(),
                backwards@.len() == members.len() - left@.len(),
                forall|i: int|
                    0 <= i < backwards@.len() ==> all.hosts_one(
                        #[trigger] backwards@[i],
                        members[members.len() - 1 - i],
                    ),
            decreases left.len(),
        {
            if let Some(actor) = left.pop() {
                assert(actor == members[left@.len() as int]);
                let exception = match overrides.get(&actor.id().to_owned()) {
                    Some(exception) => *exception,
                    None => ActorOverrides::default(),
                };
                let restart = match exception.restart {
                    Some(restart) => restart,
                    None => default_restart,
                };
                let shutdown = match exception.shutdown {
                    Some(shutdown) => shutdown,
                    None => default_shutdown,
                };
                backwards.push(
                    actor_child_spec(actor, restart, shutdown, exception.restart_intensity),
                );
            }
        }
        let mut children: Vec<ChildSpec<ChildWork<F, C>>> = Vec::new();
        while backwards.len() > 0
            invariant
                backwards@.len() + children@.len() == members.len(),
                forall|i: int|
                    0 <= i < backwards@.len() ==> all.hosts_one(
                        #[trigger] backwards@[i],
                        members[members.len() - 1 - i],
                    ),
                forall|i: int|
                    0 <= i < children@.len() ==> all.hosts_one(#[trigger] children@[i], members[i]),
            decreases backwards.len(),
        {
            if let Some(child) = backwards.pop() {
                children.push(child);
            }
        }
        children
    }

    /// Builds reusable child specs plus stable ingress handles.
    pub fn build<C>(self) -> (r: Result<
        (Vec<ChildSpec<ChildWork<F, C>>>, Directory<String, IngressHandle>),
        BuildError,
    >)
        requires
            self.set().wf(),
        ensures
            match r {
                Ok((children, ingresses)) => {
                    &&& self.exceptions_apply()
                    &&& self.hosts_all(children@)
                    &&& self.opens_all(ingresses@)
                },
                Err(error) => self.misapplied(error),
            },
    {
        if let Err(error) = self.validate_overrides() {
            return Err(error);
        }
        let ingresses = self.actor_set.ingresses();
        Ok((self.actor_children(), ingresses))
    }

    /// Adds the actor children to a supervisor builder and returns the built
    /// supervisor plus stable ingress handles.
    pub fn build_supervisor<C>(self, builder: SupervisorBuilder<ChildWork<F, C>>) -> (r: Result<
        (Supervisor<ChildWork<F, C>>, Directory<String, IngressHandle>),
        BuildError,
    >)
        requires
            self.set().wf(),
        ensures
            match r {
                Ok((supervisor, ingresses)) => {
                    &&& self.exceptions_apply()
                    &&& self.supervises(builder.plan(), supervisor)
                    &&& self.opens_all(ingresses@)
                },
                Err(error) => self.rejects(builder.plan(), error),
            },
    {
        match self.build() {
            Ok((children, ingresses)) => {
                let ghost given = children@;
                let builder = with_children(builder, children);
                match builder.build() {
                    Ok(supervisor) => {
                        assert(self.hosts_all(given));
                        Ok((supervisor, ingresses))
                    },
                    Err(error) => {
                        assert(self.hosts_all(given));
                        Err(BuildError::from(error))
                    },
                }
            },
            Err(error) => Err(error),
        }
    }

    /// Whether `supervisor` supervises the actors after the children that were
    /// there before.
    pub open spec fn supervises<C>(
        &self,
        before: Plan<ChildWork<F, C>>,
        supervisor: Supervisor<ChildWork<F, C>>,
    ) -> bool {
        &&& supervisor.wf()
        &&& exists|children: Seq<ChildSpec<ChildWork<F, C>>>| #[trigger]
            self.hosts_all(children) && supervisor.plan() == before.extended(children)
                && before.extended(children).flaw() is None
    }

    /// Whether `error` is why the actors cannot be supervised: something is set
    /// for an actor that does not exist, or the configuration that they
    /// complete has a flaw.
    pub open spec fn rejects<C>(&self, before: Plan<ChildWork<F, C>>, error: BuildError) -> bool {
        if !self.exceptions_apply() {
            self.misapplied(error)
        } else {
            &&& error matches BuildError::Supervisor(why)
            &&& exists|children: Seq<ChildSpec<ChildWork<F, C>>>| #[trigger]
                self.hosts_all(children) && (before.extended(children).flaw() matches Some(flaw)
                    && reports(why, flaw))
        }
    }

    fn register_all(&self) -> (r: Result<ActorRegistry, BuildError>)
        requires
            self.set().wf(),
        ensures
            r matches Ok(registry) && self.registers_all(registry.slots()),
    {
        let ghost ids = self.set().ids();
        let mut registry = ActorRegistry::new();
        let actors = self.actor_set.actors();
        let mut i: usize = 0;
        while i < actors.len()
            invariant
                i <= actors.len(),
                ids == self.set().ids(),
                actors@ == self.set().members(),
                self.set().wf(),
                forall|id: Seq<char>| #[trigger]
                    registry.slots().contains_key(id) <==> ids.take(i as int).contains(id),
                forall|j: int|
                    0 <= j < i ==> registry.slots()[#[trigger] ids[j]]
                        == self.set().members()[j].slot(),
            decreases actors.len() - i,
        {
            proof {
                assert(ids[i as int] == actors@[i as int].name());
                assert(!ids.take(i as int).contains(ids[i as int]));
            }
            let ghost before = registry.slots();
            if let Err(error) = actors[i].register_with(&mut registry) {
                return Err(BuildError::from(error));
            }
            proof {
                let less = ids.take(i as int);
                let more = ids.take(i as int + 1);
                assert(more =~= less.push(ids[i as int]));
                assert forall|id: Seq<char>| #[trigger]
                    registry.slots().contains_key(id) <==> more.contains(id) by {
                    if less.contains(id) {
                        let k = less.index_of(id);
                        assert(more[k] == id);
                    }
                    assert(more[i as int] == ids[i as int]);
                }
            }
            i = i + 1;
        }
        assert(ids.take(i as int) =~= ids);
        Ok(registry)
    }

    /// Whether the actors, and no others, are registered with their slots.
    pub open spec fn registers_all(&self, slots: Map<Seq<char>, MailboxBinding>) -> bool {
        &&& forall|id: Seq<char>| #[trigger]
            slots.contains_key(id) <==> self.set().ids().contains(id)
        &&& forall|i: int|
            0 <= i < self.set().ids().len() ==> slots[#[trigger] self.set().ids()[i]]
                == self.set().members()[i].slot()
    }

    /// Adds the actor children to a supervisor builder and packages the result
    /// into a [`Runtime`] to which actors can be added.
    pub fn build_runtime<C>(self, builder: SupervisorBuilder<ChildWork<F, C>>) -> (r: Result<
        Runtime<F, C>,
        BuildError,
    >)
        requires
            self.set().wf(),
        ensures
            match r {
                Ok(runtime) => {
                    &&& self.exceptions_apply()
                    &&& self.supervises(builder.plan(), runtime.root())
                    &&& self.opens_all(runtime.handles())
                    &&& runtime.dynamic() matches Some(dynamic)
                    &&& self.registers_all(dynamic.slots())
                    &&& dynamic.factory().limits() == self.set().limits()
                },
                Err(error) => self.rejects(builder.plan(), error),
            },
    {
        if let Err(error) = self.validate_overrides() {
            return Err(error);
        }
        let registry = match self.register_all() {
            Ok(registry) => registry,
            Err(error) => {
                return Err(error);
            },
        };
        let actor_factory = self.actor_set.dynamic_factory();
        let ingresses = self.actor_set.ingresses();
        let children = self.actor_children();
        let ghost given = children@;
        let builder = with_children(builder, children);
        match builder.build() {
            Ok(supervisor) => {
                assert(self.hosts_all(given));
                Ok(Runtime::with_dynamic(supervisor, ingresses, registry, actor_factory))
            },
            Err(error) => {
                assert(self.hosts_all(given));
                Err(BuildError::from(error))
            },
        }
    }
}

impl<G> Plan<G> {
    /// The configuration with more children.
    pub open spec fn extended(self, children: Seq<ChildSpec<G>>) -> Self {
        Plan { children: self.children + children, ..self }
    }
}

fn with_children<G>(builder: SupervisorBuilder<G>, children: Vec<ChildSpec<G>>) -> (r:
    SupervisorBuilder<G>)
    ensures
        r.plan() == builder.plan().extended(children@),
{
    let ghost given = children@;
    let ghost before = builder.plan();
    let mut children = children;
    let mut backwards: Vec<ChildSpec<G>> = Vec::new();
    while children.len() > 0
        invariant
            children@.len() <= given.len(),
            children@ == given.take(children@.len() as int),
            backwards@.len() == given.len() - children@.len(),
            forall|i: int|
                0 <= i < backwards@.len() ==> #[trigger] backwards@[i] == given[given.len() - 1 - i],
        decreases children.len(),
    {
        if let Some(child) = children.pop() {
            backwards.push(child);
        }
    }
    let mut builder = builder;
    assert(before.children + given.take(0) =~= before.children);
    while backwards.len() > 0
        invariant
            backwards@.len() <= given.len(),
            forall|i: int|
                0 <= i < backwards@.len() ==> #[trigger] backwards@[i] == given[given.len() - 1 - i],
            builder.plan() == before.extended(given.take(given.len() - backwards@.len())),
        decreases backwards.len(),
    {
        if let Some(child) = backwards.pop() {
            let ghost k = given.len() - backwards@.len() - 1;
            assert(given.take(k + 1) =~= given.take(k).push(child));
            assert((before.children + given.take(k)).push(child) =~= before.children + given.take(
                k + 1,
            ));
            builder = builder.child(child);
        }
    }
    assert(given.take(given.len() as int) =~= given);
    builder
}

/// An actor runs under its own id, and under the policies that were set for it; where none
/// was, under those that were set for all. A restart intensity that was not set for it is
/// left to its supervisor. What is set for one actor does not reach another.
pub proof fn own_policies_go_before_the_usual<F, C>(
    actors: SupervisedActors<F>,
    children: Seq<ChildSpec<ChildWork<F, C>>>,
    i: int,
)
    requires
        actors.hosts_all(children),
        0 <= i < children.len(),
    ensures
        ({
            let actor = actors.set().members()[i];
            let policies = children[i].policies();
            let set = actors.exceptions().contains_key(actor.name());
            let own = actors.exceptions()[actor.name()];
            &&& children.len() == actors.set().members().len()
            &&& policies.id@ == actor.name()
            &&& children[i].maker() matches ChildWork::Actor(run) && run == actor
            &&& set && own.restart is Some ==> policies.restart == own.restart->Some_0
            &&& !set || own.restart is None ==> policies.restart == actors.usual_restart()
            &&& set && own.shutdown is Some ==> policies.shutdown_policy == own.shutdown->Some_0
            &&& !set || own.shutdown is None ==> policies.shutdown_policy == actors.usual_shutdown()
            &&& set ==> policies.restart_intensity == own.restart_intensity
            &&& !set ==> policies.restart_intensity is None
        }),
{
    assert(actors.hosts_one(children[i], actors.set().members()[i]));
}

} // verus!
