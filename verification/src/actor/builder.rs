//! Building a graph.

use vstd::prelude::*;

use crate::actor::actor::ActorSpec;
use crate::actor::binding::MailboxBinding;
use crate::actor::error::BuildError;
use crate::actor::graph::{Graph, IngressDefinition};
use crate::directory::{lemma_take_one_more, Directory};
use crate::text::texts;
use crate::time::Duration;

verus! {

/// Messages that a mailbox holds by default.
pub const DEFAULT_MAILBOX_CAPACITY: usize = 64;

/// Largest payload by default: 1 MiB.
pub const DEFAULT_MAX_ENVELOPE_BYTES: usize = 1_048_576;

/// Blocking tasks that an actor may have running by default.
pub const DEFAULT_MAX_BLOCKING_TASKS_PER_ACTOR: usize = 16;

/// Seconds that shutdown waits for blocking tasks by default.
pub const DEFAULT_BLOCKING_SHUTDOWN_SECS: u64 = 5;

/// What a builder has been told so far.
pub ghost struct Draft<F> {
    pub name: Option<Seq<char>>,
    pub actors: Seq<ActorSpec<F>>,
    pub links: Seq<(Seq<char>, Seq<char>)>,
    pub ingresses: Seq<(Seq<char>, Seq<char>)>,
    pub mailbox_capacity: usize,
    pub max_envelope_bytes: Option<usize>,
    pub max_blocking_tasks_per_actor: Option<usize>,
    pub blocking_shutdown_timeout: Duration,
}

/// What can be wrong with a draft.
pub ghost enum Flaw {
    EmptyName,
    NoActors,
    NoCapacity,
    EmptyActorId,
    DuplicateActor(Seq<char>),
    UnknownLinkSource(Seq<char>),
    UnknownLinkTarget(Seq<char>, Seq<char>),
    EmptyIngressName,
    DuplicateIngress(Seq<char>),
    UnknownIngressTarget(Seq<char>, Seq<char>),
}

/// The first flaw among `flaw(0)`, ..., `flaw(n - 1)`.
pub open spec fn first_flaw(flaw: spec_fn(int) -> Option<Flaw>, n: nat) -> Option<Flaw>
    decreases n,
{
    if n == 0 {
        None
    } else {
        match first_flaw(flaw, (n - 1) as nat) {
            Some(found) => Some(found),
            None => flaw(n - 1),
        }
    }
}

proof fn first_flaw_stays(flaw: spec_fn(int) -> Option<Flaw>, k: nat, n: nat)
    requires
        k <= n,
        first_flaw(flaw, k) is Some,
    ensures
        first_flaw(flaw, n) == first_flaw(flaw, k),
    decreases n,
{
    if k < n {
        first_flaw_stays(flaw, k, (n - 1) as nat);
    }
}

/// The ids of the actors.
pub open spec fn ids<F>(actors: Seq<ActorSpec<F>>) -> Seq<Seq<char>> {
    actors.map_values(|actor: ActorSpec<F>| actor.name())
}

/// The first components of a list of pairs.
pub open spec fn firsts(pairs: Seq<(Seq<char>, Seq<char>)>) -> Seq<Seq<char>> {
    pairs.map_values(|pair: (Seq<char>, Seq<char>)| pair.0)
}

/// The second components of those pairs that start with `id`, in order.
pub open spec fn seconds_of(pairs: Seq<(Seq<char>, Seq<char>)>, id: Seq<char>) -> Seq<Seq<char>>
    decreases pairs.len(),
{
    if pairs.len() == 0 {
        Seq::empty()
    } else if pairs.last().0 == id {
        seconds_of(pairs.drop_last(), id).push(pairs.last().1)
    } else {
        seconds_of(pairs.drop_last(), id)
    }
}

/// The first components of those pairs that end with `id`, in order.
pub open spec fn firsts_of(pairs: Seq<(Seq<char>, Seq<char>)>, id: Seq<char>) -> Seq<Seq<char>>
    decreases pairs.len(),
{
    if pairs.len() == 0 {
        Seq::empty()
    } else if pairs.last().1 == id {
        firsts_of(pairs.drop_last(), id).push(pairs.last().0)
    } else {
        firsts_of(pairs.drop_last(), id)
    }
}

impl<F> Draft<F> {
    /// The ids of the actors.
    pub open spec fn ids(self) -> Seq<Seq<char>> {
        ids(self.actors)
    }

    /// What is wrong with actor number `i`, given those before it.
    pub open spec fn actor_flaw(self, i: int) -> Option<Flaw> {
        let id = self.ids()[i];
        if id.len() == 0 {
            Some(Flaw::EmptyActorId)
        } else if self.ids().take(i).contains(id) {
            Some(Flaw::DuplicateActor(id))
        } else {
            None
        }
    }

    /// What is wrong with link number `i`.
    pub open spec fn link_flaw(self, i: int) -> Option<Flaw> {
        let (from, to) = self.links[i];
        if !self.ids().contains(from) {
            Some(Flaw::UnknownLinkSource(from))
        } else if !self.ids().contains(to) {
            Some(Flaw::UnknownLinkTarget(from, to))
        } else {
            None
        }
    }

    /// What is wrong with ingress number `i`, given those before it.
    pub open spec fn ingress_flaw(self, i: int) -> Option<Flaw> {
        let (name, target) = self.ingresses[i];
        if name.len() == 0 {
            Some(Flaw::EmptyIngressName)
        } else if firsts(self.ingresses).take(i).contains(name) {
            Some(Flaw::DuplicateIngress(name))
        } else if !self.ids().contains(target) {
            Some(Flaw::UnknownIngressTarget(name, target))
        } else {
            None
        }
    }

    /// What is wrong with each actor.
    pub open spec fn actor_flaws(self) -> spec_fn(int) -> Option<Flaw> {
        |i: int| self.actor_flaw(i)
    }

    /// What is wrong with each link.
    pub open spec fn link_flaws(self) -> spec_fn(int) -> Option<Flaw> {
        |i: int| self.link_flaw(i)
    }

    /// What is wrong with each ingress.
    pub open spec fn ingress_flaws(self) -> spec_fn(int) -> Option<Flaw> {
        |i: int| self.ingress_flaw(i)
    }

    /// The flaw that a build of this draft reports. Flaws are looked for in the
    /// graph's own settings first, then in its actors, links and ingresses, each
    /// in order of definition.
    pub open spec fn flaw(self) -> Option<Flaw> {
        if self.name == Some(Seq::<char>::empty()) {
            Some(Flaw::EmptyName)
        } else if self.actors.len() == 0 {
            Some(Flaw::NoActors)
        } else if self.mailbox_capacity == 0 {
            Some(Flaw::NoCapacity)
        } else {
            match first_flaw(self.actor_flaws(), self.actors.len()) {
                Some(flaw) => Some(flaw),
                None => match first_flaw(self.link_flaws(), self.links.len()) {
                    Some(flaw) => Some(flaw),
                    None => first_flaw(self.ingress_flaws(), self.ingresses.len()),
                },
            }
        }
    }
}

/// Whether `error` reports `flaw`.
pub open spec fn reports(error: BuildError, flaw: Flaw) -> bool {
    match flaw {
        Flaw::EmptyName => error matches BuildError::InvalidConfig(detail) && detail@
            == "graph name must not be empty"@,
        Flaw::NoActors => error is EmptyActors,
        Flaw::NoCapacity => error matches BuildError::InvalidConfig(detail) && detail@
            == "mailbox capacity must be non-zero"@,
        Flaw::EmptyActorId => error matches BuildError::InvalidConfig(detail) && detail@
            == "actor id must not be empty"@,
        Flaw::DuplicateActor(id) => error matches BuildError::DuplicateActorId(text) && text@ == id,
        Flaw::UnknownLinkSource(id) => error matches BuildError::UnknownLinkSource { actor }
            && actor@ == id,
        Flaw::UnknownLinkTarget(source, id) => error matches BuildError::UnknownLinkTarget {
            from,
            actor,
        } && from@ == source && actor@ == id,
        Flaw::EmptyIngressName => error matches BuildError::InvalidConfig(detail) && detail@
            == "ingress name must not be empty"@,
        Flaw::DuplicateIngress(name) => error matches BuildError::DuplicateIngressName(text)
            && text@ == name,
        Flaw::UnknownIngressTarget(name, id) => error matches BuildError::UnknownIngressTarget {
            ingress,
            actor,
        } && ingress@ == name && actor@ == id,
    }
}

/// The texts of a list of pairs of strings.
pub open spec fn pair_texts(pairs: Seq<(String, String)>) -> Seq<(Seq<char>, Seq<char>)> {
    pairs.map_values(|pair: (String, String)| (pair.0@, pair.1@))
}

/// Builder for constructing a validated actor graph.
///
/// Actors, links and ingress points are all defined up front before calling
/// [`build`](Self::build).
#[derive(Debug)]
pub struct GraphBuilder<F> {
    name: Option<String>,
    actors: Vec<ActorSpec<F>>,
    links: Vec<(String, String)>,
    ingresses: Vec<(String, String)>,
    mailbox_capacity: usize,
    max_envelope_bytes: Option<usize>,
    max_blocking_tasks_per_actor: Option<usize>,
    blocking_shutdown_timeout: Duration,
}

impl<F> Default for GraphBuilder<F> {
    fn default() -> (r: Self)
        ensures
            r.draft() == empty_draft::<F>(r.draft().blocking_shutdown_timeout),
            r.draft().blocking_shutdown_timeout@ == DEFAULT_BLOCKING_SHUTDOWN_SECS * 1_000_000_000,
    {
        GraphBuilder::new()
    }
}

/// The draft that a new builder starts with.
pub open spec fn empty_draft<F>(timeout: Duration) -> Draft<F> {
    Draft {
        name: None,
        actors: Seq::empty(),
        links: Seq::empty(),
        ingresses: Seq::empty(),
        mailbox_capacity: DEFAULT_MAILBOX_CAPACITY,
        max_envelope_bytes: Some(DEFAULT_MAX_ENVELOPE_BYTES),
        max_blocking_tasks_per_actor: Some(DEFAULT_MAX_BLOCKING_TASKS_PER_ACTOR),
        blocking_shutdown_timeout: timeout,
    }
}

impl<F> GraphBuilder<F> {
    /// What the builder has been told so far.
    pub closed spec fn draft(&self) -> Draft<F> {
        Draft {
            name: match self.name {
                Some(name) => Some(name@),
                None => None,
            },
            actors: self.actors@,
            links: pair_texts(self.links@),
            ingresses: pair_texts(self.ingresses@),
            mailbox_capacity: self.mailbox_capacity,
            max_envelope_bytes: self.max_envelope_bytes,
            max_blocking_tasks_per_actor: self.max_blocking_tasks_per_actor,
            blocking_shutdown_timeout: self.blocking_shutdown_timeout,
        }
    }

    /// Creates a new builder with no actors and default limits.
    pub fn new() -> (r: Self)
        ensures
            r.draft() == empty_draft::<F>(r.draft().blocking_shutdown_timeout),
            r.draft().blocking_shutdown_timeout@ == DEFAULT_BLOCKING_SHUTDOWN_SECS * 1_000_000_000,
    {
        let r = GraphBuilder {
            name: None,
            actors: Vec::new(),
            links: Vec::new(),
            ingresses: Vec::new(),
            mailbox_capacity: DEFAULT_MAILBOX_CAPACITY,
            max_envelope_bytes: Some(DEFAULT_MAX_ENVELOPE_BYTES),
            max_blocking_tasks_per_actor: Some(DEFAULT_MAX_BLOCKING_TASKS_PER_ACTOR),
            blocking_shutdown_timeout: Duration::from_secs(DEFAULT_BLOCKING_SHUTDOWN_SECS),
        };
        assert(r.draft().actors =~= Seq::empty());
        assert(r.draft().links =~= Seq::empty());
        assert(r.draft().ingresses =~= Seq::empty());
        r
    }

    /// Sets the graph name.
    #[must_use]
    pub fn name(self, name: String) -> (r: Self)
        ensures
            r.draft() == (Draft { name: Some(name@), ..self.draft() }),
    {
        let mut this = self;
        this.name = Some(name);
        this
    }

    /// Appends an actor to the graph.
    #[must_use]
    pub fn actor(self, actor: ActorSpec<F>) -> (r: Self)
        ensures
            r.draft() == (Draft { actors: self.draft().actors.push(actor), ..self.draft() }),
    {
        let mut this = self;
        this.actors.push(actor);
        this
    }

    /// Adds a directed link from `from` to `to`.
    #[must_use]
    pub fn link(self, from: String, to: String) -> (r: Self)
        ensures
            r.draft() == (Draft { links: self.draft().links.push((from@, to@)), ..self.draft() }),
    {
        let mut this = self;
        this.links.push((from, to));
        assert(this.draft().links =~= self.draft().links.push((from@, to@)));
        this
    }

    /// Adds a named stable ingress point that routes external messages to the
    /// target actor.
    #[must_use]
    pub fn ingress(self, name: String, target_actor: String) -> (r: Self)
        ensures
            r.draft() == (Draft {
                ingresses: self.draft().ingresses.push((name@, target_actor@)),
                ..self.draft()
            }),
    {
        let mut this = self;
        this.ingresses.push((name, target_actor));
        assert(this.draft().ingresses =~= self.draft().ingresses.push((name@, target_actor@)));
        this
    }

    /// Sets the bounded mailbox capacity used for every actor in the graph.
    #[must_use]
    pub fn mailbox_capacity(self, capacity: usize) -> (r: Self)
        ensures
            r.draft() == (Draft { mailbox_capacity: capacity, ..self.draft() }),
    {
        let mut this = self;
        this.mailbox_capacity = capacity;
        this
    }

    /// Sets the maximum envelope size accepted by actor mailboxes.
    #[must_use]
    pub fn max_envelope_bytes(self, max_bytes: usize) -> (r: Self)
        ensures
            r.draft() == (Draft { max_envelope_bytes: Some(max_bytes), ..self.draft() }),
    {
        let mut this = self;
        this.max_envelope_bytes = Some(max_bytes);
        this
    }

    /// Disables the mailbox envelope size limit.
    #[must_use]
    pub fn disable_envelope_size_limit(self) -> (r: Self)
        ensures
            r.draft() == (Draft { max_envelope_bytes: None, ..self.draft() }),
    {
        let mut this = self;
        this.max_envelope_bytes = None;
        this
    }

    /// Sets the maximum number of active blocking tasks allowed per actor.
    #[must_use]
    pub fn max_blocking_tasks_per_actor(self, limit: usize) -> (r: Self)
        ensures
            r.draft() == (Draft { max_blocking_tasks_per_actor: Some(limit), ..self.draft() }),
    {
        let mut this = self;
        this.max_blocking_tasks_per_actor = Some(limit);
        this
    }

    /// Disables the per-actor blocking task concurrency limit.
    #[must_use]
    pub fn unbounded_blocking_tasks_per_actor(self) -> (r: Self)
        ensures
            r.draft() == (Draft { max_blocking_tasks_per_actor: None, ..self.draft() }),
    {
        let mut this = self;
        this.max_blocking_tasks_per_actor = None;
        this
    }

    /// Sets how long shutdown waits for blocking tasks to stop after
    /// cancellation is requested.
    #[must_use]
    pub fn blocking_shutdown_timeout(self, timeout: Duration) -> (r: Self)
        ensures
            r.draft() == (Draft { blocking_shutdown_timeout: timeout, ..self.draft() }),
    {
        let mut this = self;
        this.blocking_shutdown_timeout = timeout;
        this
    }

    /// Checks the actors and gives each an empty list of links and an empty
    /// slot.
    fn gather_actors(&self) -> (r: Result<
        (Directory<String, Vec<String>>, Directory<String, MailboxBinding>),
        BuildError,
    >)
        ensures
            match (r, first_flaw(self.draft().actor_flaws(), self.draft().actors.len())) {
                (Err(error), Some(flaw)) => reports(error, flaw),
                (Ok((links, bindings)), None) => {
                    &&& self.draft().ids().no_duplicates()
                    &&& forall|i: int|
                        0 <= i < self.draft().ids().len() ==> #[trigger] self.draft().ids()[i].len()
                            > 0
                    &&& links@.dom() == self.draft().ids().to_set()
                    &&& forall|id: Seq<char>| #[trigger]
                        links@.contains_key(id) ==> links@[id]@.len() == 0
                    &&& bindings@.dom() == self.draft().ids().to_set()
                    &&& forall|id: Seq<char>| #[trigger]
                        bindings@.contains_key(id) ==> bindings@[id].starts_empty()
                },
                _ => false,
            },
    {
        let ghost d = self.draft();
        let mut links: Directory<String, Vec<String>> = Directory::new();
        let mut bindings: Directory<String, MailboxBinding> = Directory::new();
        let mut i: usize = 0;
        assert(d.ids().take(0).to_set() =~= Set::empty());
        while i < self.actors.len()
            invariant
                d == self.draft(),
                i <= self.actors.len(),
                first_flaw(d.actor_flaws(), i as nat) is None,
                d.ids().take(i as int).no_duplicates(),
                forall|j: int| 0 <= j < i ==> #[trigger] d.ids()[j].len() > 0,
                links@.dom() == d.ids().take(i as int).to_set(),
                forall|id: Seq<char>| #[trigger]
                    links@.contains_key(id) ==> links@[id]@.len() == 0,
                bindings@.dom() == d.ids().take(i as int).to_set(),
                forall|id: Seq<char>| #[trigger]
                    bindings@.contains_key(id) ==> bindings@[id].starts_empty(),
            decreases self.actors.len() - i,
        {
            let id = self.actors[i].id().to_owned();
            let ghost before = d.ids().take(i as int);
            proof {
                assert(d.ids()[i as int] == id@);
                assert(d.actor_flaws()(i as int) == d.actor_flaw(i as int));
                assert(first_flaw(d.actor_flaws(), i as nat + 1) == d.actor_flaw(i as int));
                if d.actor_flaw(i as int) is Some {
                    first_flaw_stays(d.actor_flaws(), i as nat + 1, d.actors.len());
                }
                assert(before.contains(id@) == before.to_set().contains(id@));
            }
            if id.as_str().is_empty() {
                return Err(BuildError::InvalidConfig("actor id must not be empty"));
            }
            if links.contains(&id) {
                return Err(BuildError::DuplicateActorId(id));
            }
            let _ = links.insert(id.clone(), Vec::new());
            let _ = bindings.insert(id.clone(), MailboxBinding::default());
            proof {
                lemma_take_one_more(d.ids(), i as int);
            }
            i = i + 1;
        }
        assert(d.ids().take(i as int) =~= d.ids());
        Ok((links, bindings))
    }

    /// Checks the links and adds each to the list of its source.
    fn gather_links(&self, empty: Directory<String, Vec<String>>) -> (r: Result<
        Directory<String, Vec<String>>,
        BuildError,
    >)
        requires
            empty@.dom() == self.draft().ids().to_set(),
            forall|id: Seq<char>| #[trigger] empty@.contains_key(id) ==> empty@[id]@.len() == 0,
        ensures
            match (r, first_flaw(self.draft().link_flaws(), self.draft().links.len())) {
                (Err(error), Some(flaw)) => reports(error, flaw),
                (Ok(links), None) => {
                    &&& links@.dom() == self.draft().ids().to_set()
                    &&& forall|id: Seq<char>| #[trigger]
                        links@.contains_key(id) ==> texts(links@[id]@) == seconds_of(
                            self.draft().links,
                            id,
                        )
                },
                _ => false,
            },
    {
        let ghost d = self.draft();
        let ghost known = d.ids().to_set();
        let mut links = empty;
        let mut i: usize = 0;
        proof {
            assert forall|id: Seq<char>| #[trigger] links@.contains_key(id) implies texts(links@[id]@)
                == seconds_of(d.links.take(0), id) by {
                assert(texts(links@[id]@) =~= Seq::empty());
            }
        }
        while i < self.links.len()
            invariant
                d == self.draft(),
                known == d.ids().to_set(),
                i <= self.links.len(),
                first_flaw(d.link_flaws(), i as nat) is None,
                links@.dom() == known,
                forall|id: Seq<char>| #[trigger]
                    links@.contains_key(id) ==> texts(links@[id]@) == seconds_of(
                        d.links.take(i as int),
                        id,
                    ),
            decreases self.links.len() - i,
        {
            let from = &self.links[i].0;
            let to = &self.links[i].1;
            proof {
                assert(d.links[i as int] == (from@, to@));
                assert(d.link_flaws()(i as int) == d.link_flaw(i as int));
                assert(first_flaw(d.link_flaws(), i as nat + 1) == d.link_flaw(i as int));
                if d.link_flaw(i as int) is Some {
                    first_flaw_stays(d.link_flaws(), i as nat + 1, d.links.len());
                }
                assert(d.ids().contains(from@) == known.contains(from@));
                assert(d.ids().contains(to@) == known.contains(to@));
            }
            if !links.contains(from) {
                return Err(BuildError::UnknownLinkSource { actor: from.clone() });
            }
            if !links.contains(to) {
                return Err(BuildError::UnknownLinkTarget { from: from.clone(), actor: to.clone() });
            }
            let ghost before = links@;
            let mut outgoing = match links.remove(from) {
                Some(outgoing) => outgoing,
                None => Vec::new(),
            };
            let ghost listed = outgoing@;
            outgoing.push(to.clone());
            assert(texts(outgoing@) =~= texts(listed).push(to@));
            let _ = links.insert(from.clone(), outgoing);
            proof {
                let earlier = d.links.take(i as int);
                let later = d.links.take(i as int + 1);
                assert(later.drop_last() =~= earlier);
                assert(later.last() == (from@, to@));
                assert(links@.dom() =~= known);
                assert forall|id: Seq<char>| #[trigger] links@.contains_key(id) implies texts(
                    links@[id]@,
                ) == seconds_of(later, id) by {
                    assert(before.contains_key(id));
                    if id != from@ {
                        assert(links@[id] == before[id]);
                    }
                }
            }
            i = i + 1;
        }
        assert(d.links.take(i as int) =~= d.links);
        Ok(links)
    }

    /// Checks the ingress points. Returns their definitions, and the names of
    /// the ingress points of each actor that has any.
    fn gather_ingresses(&self, links: &Directory<String, Vec<String>>) -> (r: Result<
        (Directory<String, IngressDefinition>, Directory<String, Vec<String>>),
        BuildError,
    >)
        requires
            links@.dom() == self.draft().ids().to_set(),
        ensures
            match (r, first_flaw(self.draft().ingress_flaws(), self.draft().ingresses.len())) {
                (Err(error), Some(flaw)) => reports(error, flaw),
                (Ok((ingresses, names_by_actor)), None) => {
                    let pairs = self.draft().ingresses;
                    &&& firsts(pairs).no_duplicates()
                    &&& ingresses@.dom() == firsts(pairs).to_set()
                    &&& ingresses.names() == firsts(pairs)
                    &&& forall|name: Seq<char>| #[trigger]
                        ingresses@.contains_key(name) ==> ingresses@[name].slot().starts_empty()
                    &&& forall|i: int|
                        0 <= i < pairs.len() ==> ingresses@[(#[trigger] pairs[i]).0].target()
                            == pairs[i].1 && self.draft().ids().contains(pairs[i].1)
                    &&& forall|id: Seq<char>|
                        #![trigger names_by_actor@.contains_key(id)]
                        #![trigger firsts_of(pairs, id)]
                        firsts_of(pairs, id) == if names_by_actor@.contains_key(id) {
                            texts(names_by_actor@[id]@)
                        } else {
                            Seq::empty()
                        }
                },
                _ => false,
            },
    {
        let ghost d = self.draft();
        let ghost pairs = d.ingresses;
        let mut ingresses: Directory<String, IngressDefinition> = Directory::new();
        let mut names_by_actor: Directory<String, Vec<String>> = Directory::new();
        let mut i: usize = 0;
        assert(firsts(pairs).take(0) =~= Seq::empty());
        while i < self.ingresses.len()
            invariant
                d == self.draft(),
                pairs == d.ingresses,
                links@.dom() == d.ids().to_set(),
                i <= self.ingresses.len(),
                first_flaw(d.ingress_flaws(), i as nat) is None,
                firsts(pairs).take(i as int).no_duplicates(),
                ingresses.names() == firsts(pairs).take(i as int),
                ingresses@.dom() == firsts(pairs).take(i as int).to_set(),
                forall|name: Seq<char>| #[trigger]
                    ingresses@.contains_key(name) ==> ingresses@[name].slot().starts_empty(),
                forall|j: int|
                    0 <= j < i ==> ingresses@[(#[trigger] pairs[j]).0].target() == pairs[j].1
                        && d.ids().contains(pairs[j].1),
                forall|id: Seq<char>|
                    #![trigger names_by_actor@.contains_key(id)]
                    #![trigger firsts_of(pairs.take(i as int), id)]
                    firsts_of(pairs.take(i as int), id) == if names_by_actor@.contains_key(id) {
                        texts(names_by_actor@[id]@)
                    } else {
                        Seq::empty()
                    },
            decreases self.ingresses.len() - i,
        {
            let name = &self.ingresses[i].0;
            let target = &self.ingresses[i].1;
            let ghost before = firsts(pairs).take(i as int);
            proof {
                assert(pairs[i as int] == (name@, target@));
                assert(firsts(pairs)[i as int] == name@);
                assert(d.ingress_flaws()(i as int) == d.ingress_flaw(i as int));
                assert(first_flaw(d.ingress_flaws(), i as nat + 1) == d.ingress_flaw(i as int));
                if d.ingress_flaw(i as int) is Some {
                    first_flaw_stays(d.ingress_flaws(), i as nat + 1, pairs.len());
                }
                assert(before.contains(name@) == before.to_set().contains(name@));
                assert(d.ids().contains(target@) == d.ids().to_set().contains(target@));
            }
            if name.as_str().is_empty() {
                return Err(BuildError::InvalidConfig("ingress name must not be empty"));
            }
            if ingresses.contains(name) {
                return Err(BuildError::DuplicateIngressName(name.clone()));
            }
            if !links.contains(target) {
                return Err(
                    BuildError::UnknownIngressTarget {
                        ingress: name.clone(),
                        actor: target.clone(),
                    },
                );
            }
            let ghost known = names_by_actor@;
            let mut names = match names_by_actor.remove(target) {
                Some(names) => names,
                None => Vec::new(),
            };
            let ghost listed = names@;
            names.push(name.clone());
            assert(texts(names@) =~= texts(listed).push(name@));
            let _ = names_by_actor.insert(target.clone(), names);
            let definition = IngressDefinition::new(target.clone(), MailboxBinding::default());
            let _ = ingresses.insert(name.clone(), definition);
            proof {
                lemma_take_one_more(firsts(pairs), i as int);
                assert forall|j: int| 0 <= j < i + 1 implies ingresses@[(#[trigger] pairs[j]).0].target()
                    == pairs[j].1 && d.ids().contains(pairs[j].1) by {
                    if j < i {
                        assert(firsts(pairs)[j] == pairs[j].0);
                        assert(before[j] == pairs[j].0);
                    }
                }
                let earlier = pairs.take(i as int);
                let later = pairs.take(i as int + 1);
                assert(later.drop_last() =~= earlier);
                assert(later.last() == (name@, target@));
                assert forall|id: Seq<char>| firsts_of(later, id) == if names_by_actor@.contains_key(
                    id,
                ) {
                    texts(names_by_actor@[id]@)
                } else {
                    Seq::empty()
                } by {
                    assert(known.contains_key(id) || !known.contains_key(id));
                    if id == target@ {
                        assert(firsts_of(earlier, id) =~= texts(listed));
                    }
                }
            }
            i = i + 1;
        }
        assert(firsts(pairs).take(i as int) =~= firsts(pairs));
        assert(pairs.take(i as int) =~= pairs);
        Ok((ingresses, names_by_actor))
    }

    /// Validates the graph and returns an immutable [`Graph`].
    pub fn build(self) -> (r: Result<Graph<F>, BuildError>)
        ensures
            match (r, self.draft().flaw()) {
                (Err(error), Some(flaw)) => reports(error, flaw),
                (Ok(graph), None) => graph.wf() && graph.realizes(self.draft())
                    && graph.starts_unbound(),
                _ => false,
            },
    {
        if let Some(name) = &self.name {
            if name.as_str().is_empty() {
                assert(name@ =~= Seq::<char>::empty());
                return Err(BuildError::InvalidConfig("graph name must not be empty"));
            }
        }
        if self.actors.len() == 0 {
            return Err(BuildError::EmptyActors);
        }
        if self.mailbox_capacity == 0 {
            return Err(BuildError::InvalidConfig("mailbox capacity must be non-zero"));
        }
        let (links, bindings) = match self.gather_actors() {
            Ok(gathered) => gathered,
            Err(error) => return Err(error),
        };
        let links = match self.gather_links(links) {
            Ok(links) => links,
            Err(error) => return Err(error),
        };
        let (ingresses, ingress_names_by_actor) = match self.gather_ingresses(&links) {
            Ok(gathered) => gathered,
            Err(error) => return Err(error),
        };
        let ghost d = self.draft();
        proof {
            lemma_links_within(d);
        }
        let _ = bindings.check_names();
        let name = match self.name {
            Some(name) => name,
            None => anonymous_graph_name(),
        };
        let graph = Graph::new(
            name,
            self.actors,
            links,
            bindings,
            self.mailbox_capacity,
            self.max_envelope_bytes,
            self.max_blocking_tasks_per_actor,
            self.blocking_shutdown_timeout,
            ingresses,
            ingress_names_by_actor,
        );
        proof {
            assert forall|id: Seq<char>| #[trigger] d.ids().contains(id) implies graph.links_from(id)
                == seconds_of(d.links, id) by {
                assert(links@.contains_key(id));
            }
            assert forall|id: Seq<char>, k: int|
                graph.link_sources().contains(id) && 0 <= k < graph.links_from(id).len()
                implies graph.ids().contains(#[trigger] graph.links_from(id)[k]) by {
                assert(links@.contains_key(id));
            }
        }
        Ok(graph)
    }
}

/// The name of a graph that was not given one.
pub open spec fn anonymous_name() -> Seq<char> {
    "anonymous"@
}

fn anonymous_graph_name() -> (r: String)
    ensures
        r@ == anonymous_name(),
{
    "anonymous".to_owned()
}

proof fn lemma_no_flaw_before(flaw: spec_fn(int) -> Option<Flaw>, i: int, n: nat)
    requires
        first_flaw(flaw, n) is None,
        0 <= i < n,
    ensures
        flaw(i) is None,
    decreases n,
{
    if i < n - 1 {
        lemma_no_flaw_before(flaw, i, (n - 1) as nat);
    }
}

/// The second components listed for `id` come from the list of pairs.
proof fn lemma_seconds_of_member(pairs: Seq<(Seq<char>, Seq<char>)>, id: Seq<char>, k: int)
    requires
        0 <= k < seconds_of(pairs, id).len(),
    ensures
        exists|i: int| 0 <= i < pairs.len() && #[trigger] pairs[i] == (id, seconds_of(pairs, id)[k]),
    decreases pairs.len(),
{
    let rest = pairs.drop_last();
    if pairs.last().0 == id {
        if k < seconds_of(rest, id).len() {
            lemma_seconds_of_member(rest, id, k);
            let i = choose|i: int|
                0 <= i < rest.len() && #[trigger] rest[i] == (id, seconds_of(rest, id)[k]);
            assert(pairs[i] == (id, seconds_of(pairs, id)[k]));
        } else {
            assert(pairs[pairs.len() - 1] == (id, seconds_of(pairs, id)[k]));
        }
    } else {
        lemma_seconds_of_member(rest, id, k);
        let i = choose|i: int|
            0 <= i < rest.len() && #[trigger] rest[i] == (id, seconds_of(rest, id)[k]);
        assert(pairs[i] == (id, seconds_of(pairs, id)[k]));
    }
}

/// Links without a flaw lead to actors.
proof fn lemma_links_within<F>(d: Draft<F>)
    requires
        first_flaw(d.link_flaws(), d.links.len()) is None,
    ensures
        forall|id: Seq<char>, k: int|
            0 <= k < seconds_of(d.links, id).len() ==> d.ids().contains(
                #[trigger] seconds_of(d.links, id)[k],
            ),
{
    assert forall|id: Seq<char>, k: int| 0 <= k < seconds_of(d.links, id).len() implies d.ids().contains(
        #[trigger] seconds_of(d.links, id)[k],
    ) by {
        lemma_seconds_of_member(d.links, id, k);
        let i = choose|i: int|
            0 <= i < d.links.len() && #[trigger] d.links[i] == (id, seconds_of(d.links, id)[k]);
        lemma_no_flaw_before(d.link_flaws(), i, d.links.len());
        assert(d.link_flaws()(i) == d.link_flaw(i));
    }
}

} // verus!
