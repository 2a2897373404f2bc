//! Running a graph of actors.

use tokio::sync::mpsc;
use tokio_util::sync::CancellationToken;
use vstd::prelude::*;

use crate::actor::actor::ActorSpec;
use crate::actor::binding::{
    ascending_below, bind_all, clear_all, MailboxBinding, MailboxRef, Placement,
};
use crate::actor::builder::{anonymous_name, firsts, firsts_of, ids, seconds_of, Draft};
use crate::actor::context::{ActorContext, ActorRef};
use crate::actor::envelope::Envelope;
use crate::actor::error::{about_actor, GraphError};
use crate::actor::ingress::IngressHandle;
use crate::directory::{lemma_take_one_more, Directory};
use crate::queues::{fed_by, mailbox_channel, max_capacity, room_of};
use crate::text::{copy_texts, same_text, texts};
use crate::time::Duration;
use crate::token::parent_of;

verus! {

/// An ingress point: the actor behind it, and the slot that its handles follow.
#[derive(Debug)]
pub struct IngressDefinition {
    pub(crate) target_actor: String,
    pub(crate) binding: MailboxBinding,
}

impl IngressDefinition {
    /// The id of the actor behind the ingress.
    pub closed spec fn target(&self) -> Seq<char> {
        self.target_actor@
    }

    /// The slot that handles to the ingress follow.
    pub closed spec fn slot(&self) -> MailboxBinding {
        self.binding
    }

    /// Defines an ingress.
    pub fn new(target_actor: String, binding: MailboxBinding) -> (r: Self)
        ensures
            r.target() == target_actor@,
            r.slot() == binding,
    {
        IngressDefinition { target_actor, binding }
    }

    /// A handle to the ingress, whose name is given.
    pub fn handle(&self, name: String) -> (r: IngressHandle)
        ensures
            r.ingress_name() == name@,
            r.actor() == self.target(),
            self.slot().shows(r.follows()),
    {
        IngressHandle::new(name, self.target_actor.clone(), self.binding.subscribe())
    }
}

/// Immutable actor graph specification.
#[derive(Debug)]
pub struct Graph<F> {
    pub(crate) name: String,
    pub(crate) actors: Vec<ActorSpec<F>>,
    pub(crate) links: Directory<String, Vec<String>>,
    pub(crate) bindings: Directory<String, MailboxBinding>,
    pub(crate) mailbox_capacity: usize,
    pub(crate) max_envelope_bytes: Option<usize>,
    pub(crate) max_blocking_tasks_per_actor: Option<usize>,
    pub(crate) blocking_shutdown_timeout: Duration,
    pub(crate) ingresses: Directory<String, IngressDefinition>,
    pub(crate) ingress_names_by_actor: Directory<String, Vec<String>>,
}

impl<F> Graph<F> {
    /// The graph's name.
    pub closed spec fn graph_name(&self) -> Seq<char> {
        self.name@
    }

    /// The actors in order of definition.
    pub closed spec fn specs(&self) -> Seq<ActorSpec<F>> {
        self.actors@
    }

    /// The actors' ids in order of definition.
    pub open spec fn ids(&self) -> Seq<Seq<char>> {
        ids(self.specs())
    }

    /// The actors that have a list of links.
    pub closed spec fn link_sources(&self) -> Set<Seq<char>> {
        self.links@.dom()
    }

    /// The ids that an actor is linked to, in order of definition.
    pub closed spec fn links_from(&self, id: Seq<char>) -> Seq<Seq<char>> {
        texts(self.links@[id]@)
    }

    /// The actors' slots.
    pub closed spec fn slots(&self) -> Map<Seq<char>, MailboxBinding> {
        self.bindings@
    }

    /// The ids of the actors that have a slot, in the order of the slots.
    pub closed spec fn slot_names(&self) -> Seq<Seq<char>> {
        self.bindings.names()
    }

    /// The ingress points.
    pub closed spec fn entrances(&self) -> Map<Seq<char>, IngressDefinition> {
        self.ingresses@
    }

    /// The names of the ingress points in order of definition.
    pub closed spec fn entrance_names(&self) -> Seq<Seq<char>> {
        self.ingresses.names()
    }

    /// The names of an actor's ingress points in order of definition.
    pub closed spec fn entrances_to(&self, id: Seq<char>) -> Seq<Seq<char>> {
        if self.ingress_names_by_actor@.contains_key(id) {
            texts(self.ingress_names_by_actor@[id]@)
        } else {
            Seq::empty()
        }
    }

    /// How many messages a mailbox holds.
    pub closed spec fn capacity(&self) -> usize {
        self.mailbox_capacity
    }

    /// The largest payload that a mailbox takes.
    pub closed spec fn envelope_limit(&self) -> Option<usize> {
        self.max_envelope_bytes
    }

    /// How many blocking tasks an actor may have running.
    pub closed spec fn blocking_limit(&self) -> Option<usize> {
        self.max_blocking_tasks_per_actor
    }

    /// How long shutdown waits for blocking tasks.
    pub closed spec fn blocking_timeout(&self) -> Duration {
        self.blocking_shutdown_timeout
    }

    /// The parts fit together: ids are unique and not empty; every actor has a
    /// list of links and a slot; links and ingress points lead to actors.
    pub open spec fn wf(&self) -> bool {
        &&& self.ids().len() > 0
        &&& self.ids().no_duplicates()
        &&& forall|i: int| 0 <= i < self.ids().len() ==> #[trigger] self.ids()[i].len() > 0
        &&& self.link_sources() == self.ids().to_set()
        &&& forall|id: Seq<char>, k: int|
            self.link_sources().contains(id) && 0 <= k < self.links_from(id).len()
                ==> self.ids().contains(#[trigger] self.links_from(id)[k])
        &&& self.slots().dom() == self.ids().to_set()
        &&& self.slot_names().no_duplicates()
        &&& self.slot_names().to_set() == self.slots().dom()
        &&& self.entrance_names().no_duplicates()
        &&& self.entrance_names().to_set() == self.entrances().dom()
        &&& forall|name: Seq<char>| #[trigger]
            self.entrances().contains_key(name) ==> self.ids().contains(
                self.entrances()[name].target(),
            )
        &&& self.capacity() > 0
    }

    /// Every slot was made empty: nothing is bound before the first run.
    pub open spec fn starts_unbound(&self) -> bool {
        &&& forall|id: Seq<char>| #[trigger]
            self.slots().contains_key(id) ==> self.slots()[id].starts_empty()
        &&& forall|name: Seq<char>| #[trigger]
            self.entrances().contains_key(name) ==> self.entrances()[name].slot().starts_empty()
    }

    /// The graph is what the draft describes.
    pub open spec fn realizes(&self, d: Draft<F>) -> bool {
        &&& self.graph_name() == match d.name {
            Some(name) => name,
            None => anonymous_name(),
        }
        &&& self.specs() == d.actors
        &&& forall|id: Seq<char>| #[trigger]
            d.ids().contains(id) ==> self.links_from(id) == seconds_of(d.links, id)
        &&& self.entrance_names() == firsts(d.ingresses)
        &&& forall|i: int|
            0 <= i < d.ingresses.len() ==> self.entrances()[(#[trigger] d.ingresses[i]).0].target()
                == d.ingresses[i].1
        &&& forall|id: Seq<char>| #[trigger]
            self.entrances_to(id) == firsts_of(d.ingresses, id)
        &&& self.capacity() == d.mailbox_capacity
        &&& self.envelope_limit() == d.max_envelope_bytes
        &&& self.blocking_limit() == d.max_blocking_tasks_per_actor
        &&& self.blocking_timeout() == d.blocking_shutdown_timeout
    }

    /// Puts a graph together.
    pub(crate) fn new(
        name: String,
        actors: Vec<ActorSpec<F>>,
        links: Directory<String, Vec<String>>,
        bindings: Directory<String, MailboxBinding>,
        mailbox_capacity: usize,
        max_envelope_bytes: Option<usize>,
        max_blocking_tasks_per_actor: Option<usize>,
        blocking_shutdown_timeout: Duration,
        ingresses: Directory<String, IngressDefinition>,
        ingress_names_by_actor: Directory<String, Vec<String>>,
    ) -> (r: Self)
        ensures
            r.graph_name() == name@,
            r.specs() == actors@,
            r.link_sources() == links@.dom(),
            forall|id: Seq<char>| #[trigger] r.links_from(id) == texts(links@[id]@),
            r.slots() == bindings@,
            r.slot_names() == bindings.names(),
            r.entrances() == ingresses@,
            r.entrance_names() == ingresses.names(),
            forall|id: Seq<char>| #[trigger]
                r.entrances_to(id) == if ingress_names_by_actor@.contains_key(id) {
                    texts(ingress_names_by_actor@[id]@)
                } else {
                    Seq::empty()
                },
            r.capacity() == mailbox_capacity,
            r.envelope_limit() == max_envelope_bytes,
            r.blocking_limit() == max_blocking_tasks_per_actor,
            r.blocking_timeout() == blocking_shutdown_timeout,
    {
        Graph {
            name,
            actors,
            links,
            bindings,
            mailbox_capacity,
            max_envelope_bytes,
            max_blocking_tasks_per_actor,
            blocking_shutdown_timeout,
            ingresses,
            ingress_names_by_actor,
        }
    }
}

/// The detail of the error that an actor has no list of links.
pub open spec fn no_links_text(id: Seq<char>) -> Seq<char> {
    "actor `"@ + id + "` is missing its link definition"@
}

/// The detail of the error that an actor has no slot.
pub open spec fn no_slot_text(id: Seq<char>) -> Seq<char> {
    "actor `"@ + id + "` is missing its mailbox binding"@
}

/// The detail of the error that an actor has no mailbox to receive from.
pub open spec fn no_receiver_text(id: Seq<char>) -> Seq<char> {
    "actor `"@ + id + "` is missing its mailbox receiver"@
}

/// The detail of the error that an ingress leads to an actor without a mailbox.
pub open spec fn no_mailbox_text(name: Seq<char>, id: Seq<char>) -> Seq<char> {
    "ingress `"@ + name + "` references missing actor mailbox `"@ + id + "`"@
}

/// Whether `error` reports invalid state with the given detail.
pub open spec fn invalid_state(error: GraphError, text: Seq<char>) -> bool {
    error matches GraphError::InvalidState { detail } && detail@ == text
}

impl<F> Graph<F> {
    /// Whether `handle` is for the ingress with the name.
    pub open spec fn leads_into(&self, name: Seq<char>, handle: IngressHandle) -> bool {
        &&& handle.ingress_name() == name
        &&& handle.actor() == self.entrances()[name].target()
        &&& self.entrances()[name].slot().shows(handle.follows())
    }

    /// Whether `peers` are senders for the actors that the one with the id is
    /// linked to.
    pub open spec fn peers_of(&self, id: Seq<char>, peers: Map<Seq<char>, ActorRef>) -> bool {
        &&& peers.dom() == self.links_from(id).to_set()
        &&& forall|peer: Seq<char>| #[trigger]
            peers.contains_key(peer) ==> self.sends_to(id, peer, peers[peer])
    }

    /// Whether `sender` is one for the actor `target` in the hands of the actor
    /// `source`: it follows the slot of its target.
    pub open spec fn sends_to(&self, source: Seq<char>, target: Seq<char>, sender: ActorRef) -> bool {
        &&& sender.target() == target
        &&& sender.source() == Some(source)
        &&& self.slots()[target].shows(sender.follows())
    }

    /// Returns the graph name.
    pub fn name(&self) -> (r: &str)
        ensures
            r@ == self.graph_name(),
    {
        self.name.as_str()
    }

    /// The actors in order of definition.
    pub fn actors(&self) -> (r: &Vec<ActorSpec<F>>)
        ensures
            r@ == self.specs(),
    {
        &self.actors
    }

    /// Takes the actors and the ingress points out.
    pub(crate) fn into_parts(self) -> (r: (Vec<ActorSpec<F>>, Directory<String, IngressDefinition>))
        ensures
            r.0@ == self.specs(),
            r.1@ == self.entrances(),
            r.1.names() == self.entrance_names(),
    {
        (self.actors, self.ingresses)
    }

    /// How many messages a mailbox holds.
    pub fn mailbox_capacity(&self) -> (r: usize)
        ensures
            r == self.capacity(),
    {
        self.mailbox_capacity
    }

    /// The largest payload that a mailbox takes.
    pub fn max_envelope_bytes(&self) -> (r: Option<usize>)
        ensures
            r == self.envelope_limit(),
    {
        self.max_envelope_bytes
    }

    /// How many blocking tasks an actor may have running.
    pub fn max_blocking_tasks_per_actor(&self) -> (r: Option<usize>)
        ensures
            r == self.blocking_limit(),
    {
        self.max_blocking_tasks_per_actor
    }

    /// How long shutdown waits for blocking tasks.
    pub fn blocking_shutdown_timeout(&self) -> (r: Duration)
        ensures
            r == self.blocking_timeout(),
    {
        self.blocking_shutdown_timeout
    }

    /// The number of ingress points.
    pub fn ingress_count(&self) -> (r: usize)
        ensures
            r == self.entrance_names().len(),
    {
        self.ingresses.len()
    }

    /// Returns a stable handle to a named ingress, if it exists.
    pub fn ingress(&self, name: &str) -> (r: Option<IngressHandle>)
        ensures
            match r {
                Some(handle) => self.entrances().contains_key(name@) && self.leads_into(
                    name@,
                    handle,
                ),
                None => !self.entrances().contains_key(name@),
            },
    {
        match self.ingresses.get(&name.to_owned()) {
            Some(definition) => Some(definition.handle(name.to_owned())),
            None => None,
        }
    }

    /// Returns stable handles for every named ingress.
    pub fn ingresses(&self) -> (r: Directory<String, IngressHandle>)
        ensures
            r.names() == self.entrance_names(),
            r@.dom() == self.entrances().dom(),
            forall|name: Seq<char>| #[trigger]
                r@.contains_key(name) ==> self.leads_into(name, r@[name]),
    {
        let total: usize = self.ingresses.check_names();
        let mut r: Directory<String, IngressHandle> = Directory::new();
        let ghost names = self.entrance_names();
        let mut i: usize = 0;
        while i < total
            invariant
                i <= total,
                total == names.len(),
                names == self.entrance_names(),
                names.no_duplicates(),
                names.to_set() == self.entrances().dom(),
                r.names() == names.take(i as int),
                r.names().to_set() == r@.dom(),
                forall|name: Seq<char>| #[trigger]
                    r@.contains_key(name) ==> self.leads_into(name, r@[name]),
            decreases total - i,
        {
            let name = self.ingresses.key_at(i);
            let definition = self.ingresses.value_at(i);
            proof {
                assert(names[i as int] == name@);
                assert(!names.take(i as int).contains(name@));
                if r@.contains_key(name@) {
                    assert(r.names().to_set().contains(name@));
                }
                assert(names.take(i as int + 1) =~= names.take(i as int).push(name@));
            }
            let _ = r.insert(name.clone(), definition.handle(name.clone()));
            let _ = r.check_names();
            i = i + 1;
        }
        assert(names.take(i as int) =~= names);
        r
    }

    /// The slot of an actor.
    pub fn actor_binding(&self, actor_id: &String) -> (r: Result<&MailboxBinding, GraphError>)
        ensures
            match r {
                Ok(binding) => self.slots().contains_key(actor_id@) && *binding
                    == self.slots()[actor_id@],
                Err(error) => !self.slots().contains_key(actor_id@) && invalid_state(
                    error,
                    no_slot_text(actor_id@),
                ),
            },
    {
        match self.bindings.get(actor_id) {
            Some(binding) => Ok(binding),
            None => Err(
                GraphError::InvalidState {
                    detail: about_actor(actor_id, "` is missing its mailbox binding"),
                },
            ),
        }
    }

    /// The names of an actor's ingress points.
    pub fn ingress_names_for_actor(&self, actor_id: &String) -> (r: Vec<String>)
        ensures
            texts(r@) == self.entrances_to(actor_id@),
    {
        match self.ingress_names_by_actor.get(actor_id) {
            Some(names) => copy_texts(names),
            None => {
                let r: Vec<String> = Vec::new();
                assert(texts(r@) =~= Seq::empty());
                r
            },
        }
    }

    /// Senders for the actors that one actor is linked to.
    pub fn peer_refs(&self, actor_id: &String) -> (r: Result<Directory<String, ActorRef>, GraphError>)
        ensures
            match r {
                Ok(peers) => self.link_sources().contains(actor_id@) && self.peers_of(
                    actor_id@,
                    peers@,
                ) && forall|k: int|
                    0 <= k < self.links_from(actor_id@).len() ==> self.slots().contains_key(
                        #[trigger] self.links_from(actor_id@)[k],
                    ),
                Err(error) => if self.link_sources().contains(actor_id@) {
                    exists|k: int|
                        0 <= k < self.links_from(actor_id@).len() && !self.slots().contains_key(
                            #[trigger] self.links_from(actor_id@)[k],
                        ) && invalid_state(error, no_slot_text(self.links_from(actor_id@)[k]))
                            && forall|j: int|
                            0 <= j < k ==> self.slots().contains_key(
                                #[trigger] self.links_from(actor_id@)[j],
                            )
                } else {
                    invalid_state(error, no_links_text(actor_id@))
                },
            },
    {
        let linked_peers = match self.links.get(actor_id) {
            Some(linked_peers) => linked_peers,
            None => {
                return Err(
                    GraphError::InvalidState {
                        detail: about_actor(actor_id, "` is missing its link definition"),
                    },
                );
            },
        };
        let ghost links = self.links_from(actor_id@);
        let mut peers: Directory<String, ActorRef> = Directory::new();
        let mut i: usize = 0;
        assert(links.take(0).to_set() =~= Set::empty());
        while i < linked_peers.len()
            invariant
                i <= linked_peers.len(),
                self.link_sources().contains(actor_id@),
                links == texts(linked_peers@),
                links == self.links_from(actor_id@),
                peers@.dom() == links.take(i as int).to_set(),
                forall|peer: Seq<char>| #[trigger]
                    peers@.contains_key(peer) ==> self.sends_to(actor_id@, peer, peers@[peer]),
                forall|k: int| 0 <= k < i ==> self.slots().contains_key(#[trigger] links[k]),
            decreases linked_peers.len() - i,
        {
            let peer_id = &linked_peers[i];
            assert(links[i as int] == peer_id@);
            let binding = match self.actor_binding(peer_id) {
                Ok(binding) => binding,
                Err(error) => {
                    return Err(error);
                },
            };
            let peer = ActorRef::from_binding(
                peer_id.clone(),
                binding.subscribe(),
                Some(actor_id.clone()),
            );
            let _ = peers.insert(peer_id.clone(), peer);
            proof {
                lemma_take_one_more(links, i as int);
            }
            i = i + 1;
        }
        assert(links.take(i as int) =~= links);
        Ok(peers)
    }

    /// A sender for an actor's own mailbox.
    pub fn actor_ref(&self, actor_id: &String) -> (r: Result<ActorRef, GraphError>)
        ensures
            match r {
                Ok(own) => self.slots().contains_key(actor_id@) && self.sends_to(
                    actor_id@,
                    actor_id@,
                    own,
                ),
                Err(error) => !self.slots().contains_key(actor_id@) && invalid_state(
                    error,
                    no_slot_text(actor_id@),
                ),
            },
    {
        match self.actor_binding(actor_id) {
            Ok(binding) => Ok(
                ActorRef::from_binding(
                    actor_id.clone(),
                    binding.subscribe(),
                    Some(actor_id.clone()),
                ),
            ),
            Err(error) => Err(error),
        }
    }

    /// Whether the two are the halves of a mailbox for the actor with the id.
    pub open spec fn is_mailbox_of(
        &self,
        id: Seq<char>,
        mailbox: MailboxRef,
        receiver: mpsc::Receiver<Envelope>,
    ) -> bool {
        &&& mailbox.actor() == id
        &&& mailbox.limit() == self.envelope_limit()
        &&& mailbox.outlet() == fed_by(receiver)
        &&& room_of(mailbox.outlet()) == self.capacity()
    }

    /// Gives every actor a new mailbox. Returns both halves of each, by actor.
    pub fn create_mailboxes(&self) -> (r: (
        Directory<String, MailboxRef>,
        Directory<String, mpsc::Receiver<Envelope>>,
    ))
        requires
            self.wf(),
            self.capacity() <= max_capacity(),
        ensures
            r.0@.dom() == self.ids().to_set(),
            r.1@.dom() == self.ids().to_set(),
            forall|id: Seq<char>| #[trigger]
                r.0@.contains_key(id) ==> self.is_mailbox_of(id, r.0@[id], r.1@[id]),
    {
        let ghost ids = self.ids();
        let mut mailboxes: Directory<String, MailboxRef> = Directory::new();
        let mut receivers: Directory<String, mpsc::Receiver<Envelope>> = Directory::new();
        let mut i: usize = 0;
        assert(ids.take(0).to_set() =~= Set::empty());
        while i < self.actors.len()
            invariant
                i <= self.actors.len(),
                ids == self.ids(),
                self.wf(),
                self.capacity() <= max_capacity(),
                mailboxes@.dom() == ids.take(i as int).to_set(),
                receivers@.dom() == ids.take(i as int).to_set(),
                forall|id: Seq<char>| #[trigger]
                    mailboxes@.contains_key(id) ==> self.is_mailbox_of(
                        id,
                        mailboxes@[id],
                        receivers@[id],
                    ),
            decreases self.actors.len() - i,
        {
            let id = self.actors[i].id().to_owned();
            assert(ids[i as int] == id@);
            let (sender, receiver) = mailbox_channel(self.mailbox_capacity);
            let mailbox = MailboxRef::new(id.clone(), sender, self.max_envelope_bytes);
            let _ = mailboxes.insert(id.clone(), mailbox);
            let _ = receivers.insert(id.clone(), receiver);
            proof {
                lemma_take_one_more(ids, i as int);
            }
            i = i + 1;
        }
        assert(ids.take(i as int) =~= ids);
        (mailboxes, receivers)
    }

    /// Whether `placement` puts the mailbox of an actor into the actor's slot.
    pub open spec fn seats(
        &self,
        id: Seq<char>,
        mailboxes: Map<Seq<char>, MailboxRef>,
        placement: Placement,
    ) -> bool {
        &&& placement.slot == self.slots()[id]
        &&& placement.mailbox == mailboxes[id]
    }

    /// Where the actors' mailboxes belong, in the order of the slots.
    pub fn actor_placements(&self, mailboxes: &Directory<String, MailboxRef>) -> (r: Vec<Placement>)
        requires
            forall|id: Seq<char>| #[trigger]
                self.slots().contains_key(id) ==> mailboxes@.contains_key(id),
        ensures
            r@.len() == self.slot_names().len(),
            forall|i: int|
                0 <= i < r@.len() ==> self.seats(
                    self.slot_names()[i],
                    mailboxes@,
                    #[trigger] r@[i],
                ),
    {
        let total: usize = self.bindings.check_names();
        let mut placements: Vec<Placement> = Vec::new();
        let mut i: usize = 0;
        while i < total
            invariant
                i <= total,
                total == self.slot_names().len(),
                self.slot_names().to_set() == self.slots().dom(),
                forall|id: Seq<char>| #[trigger]
                    self.slots().contains_key(id) ==> mailboxes@.contains_key(id),
                placements@.len() == i,
                forall|j: int|
                    0 <= j < i ==> self.seats(
                        self.slot_names()[j],
                        mailboxes@,
                        #[trigger] placements@[j],
                    ),
            decreases total - i,
        {
            let id = self.bindings.key_at(i);
            proof {
                assert(self.slot_names()[i as int] == id@);
                assert(self.slot_names().to_set().contains(id@));
                assert(self.slots().contains_key(id@));
            }
            if let Some(mailbox) = mailboxes.get(id) {
                placements.push(
                    Placement {
                        slot: self.bindings.value_at(i).clone(),
                        mailbox: mailbox.clone(),
                    },
                );
            }
            i = i + 1;
        }
        placements
    }

    /// The actors' slots.
    pub fn actor_slots(&self) -> (r: Vec<MailboxBinding>)
        ensures
            r@.len() == self.slot_names().len(),
            forall|i: int|
                0 <= i < r@.len() ==> #[trigger] r@[i] == self.slots()[self.slot_names()[i]],
    {
        let total: usize = self.bindings.len();
        let mut slots: Vec<MailboxBinding> = Vec::new();
        let mut i: usize = 0;
        while i < total
            invariant
                i <= total,
                total == self.slot_names().len(),
                slots@.len() == i,
                forall|j: int|
                    0 <= j < i ==> #[trigger] slots@[j] == self.slots()[self.slot_names()[j]],
            decreases total - i,
        {
            slots.push(self.bindings.value_at(i).clone());
            i = i + 1;
        }
        slots
    }

    /// Puts each actor's mailbox into its slot, so that its peers reach it.
    pub fn bind_actors_with(&self, mailboxes: &Directory<String, MailboxRef>)
        requires
            forall|id: Seq<char>| #[trigger]
                self.slots().contains_key(id) ==> mailboxes@.contains_key(id),
        ensures
            forall|i: int|
                0 <= i < self.slot_names().len() ==> self.slots()[
                    #[trigger] self.slot_names()[i]
                ].takes(mailboxes@[self.slot_names()[i]]),
    {
        let placements = self.actor_placements(mailboxes);
        let bound = bind_all(&placements);
        assert forall|i: int| 0 <= i < self.slot_names().len() implies self.slots()[
            #[trigger] self.slot_names()[i]
        ].takes(mailboxes@[self.slot_names()[i]]) by {
            assert(self.seats(self.slot_names()[i], mailboxes@, placements@[i]));
            assert(placements@[i].slot.binds(
                placements@[i].mailbox,
                bound@.contains(i as usize),
            ));
        }
    }

    /// Whether every actor's slot was emptied.
    pub open spec fn unbinds_actors(&self) -> bool {
        forall|i: int|
            0 <= i < self.slot_names().len() ==> self.slots()[
                #[trigger] self.slot_names()[i]
            ].is_emptied()
    }

    /// Empties the actors' slots.
    pub fn clear_actors(&self)
        ensures
            self.unbinds_actors(),
    {
        let slots = self.actor_slots();
        let cleared = clear_all(&slots);
        assert forall|i: int| 0 <= i < self.slot_names().len() implies self.slots()[
            #[trigger] self.slot_names()[i]
        ].is_emptied() by {
            assert(slots@[i].unbinds(cleared@.contains(i as usize)));
        }
    }

    /// Whether `placement` puts the mailbox of the actor behind an ingress into
    /// the slot of the ingress.
    pub open spec fn opens(
        &self,
        name: Seq<char>,
        mailboxes: Map<Seq<char>, MailboxRef>,
        placement: Placement,
    ) -> bool {
        &&& mailboxes.contains_key(self.entrances()[name].target())
        &&& placement.slot == self.entrances()[name].slot()
        &&& placement.mailbox == mailboxes[self.entrances()[name].target()]
    }

    /// Where the mailboxes of the actors behind the ingress points belong, in
    /// order of definition.
    pub fn ingress_placements(&self, mailboxes: &Directory<String, MailboxRef>) -> (r: Result<
        Vec<Placement>,
        GraphError,
    >)
        ensures
            match r {
                Ok(placements) => {
                    &&& placements@.len() == self.entrance_names().len()
                    &&& forall|i: int|
                        0 <= i < placements@.len() ==> self.opens(
                            self.entrance_names()[i],
                            mailboxes@,
                            #[trigger] placements@[i],
                        )
                },
                Err(error) => self.lacks_mailbox(mailboxes@, error),
            },
    {
        let total: usize = self.ingresses.len();
        let mut placements: Vec<Placement> = Vec::new();
        let mut i: usize = 0;
        while i < total
            invariant
                i <= total,
                total == self.entrance_names().len(),
                placements@.len() == i,
                forall|j: int|
                    0 <= j < placements@.len() ==> self.opens(
                        self.entrance_names()[j],
                        mailboxes@,
                        #[trigger] placements@[j],
                    ),
            decreases total - i,
        {
            let name = self.ingresses.key_at(i);
            let definition = self.ingresses.value_at(i);
            assert(self.entrance_names()[i as int] == name@);
            let mailbox = match mailboxes.get(&definition.target_actor) {
                Some(mailbox) => mailbox.clone(),
                None => {
                    let mut detail = "ingress `".to_owned();
                    detail.append(name.as_str());
                    detail.append("` references missing actor mailbox `");
                    detail.append(definition.target_actor.as_str());
                    detail.append("`");
                    return Err(GraphError::InvalidState { detail });
                },
            };
            placements.push(Placement { slot: definition.binding.clone(), mailbox });
            i = i + 1;
        }
        Ok(placements)
    }

    /// Whether `error` says that an ingress leads to an actor without a mailbox,
    /// which one does.
    pub open spec fn lacks_mailbox(
        &self,
        mailboxes: Map<Seq<char>, MailboxRef>,
        error: GraphError,
    ) -> bool {
        exists|i: int|
            {
                let name = #[trigger] self.entrance_names()[i];
                &&& 0 <= i < self.entrance_names().len()
                &&& !mailboxes.contains_key(self.entrances()[name].target())
                &&& invalid_state(error, no_mailbox_text(name, self.entrances()[name].target()))
            }
    }

    /// Whether the actor behind an ingress has a mailbox, and `newly` is what
    /// filling the slot of the ingress with it can come to.
    pub open spec fn binds_ingress(
        &self,
        name: Seq<char>,
        mailboxes: Map<Seq<char>, MailboxRef>,
        newly: bool,
    ) -> bool {
        let ingress = self.entrances()[name];
        &&& mailboxes.contains_key(ingress.target())
        &&& ingress.slot().binds(mailboxes[ingress.target()], newly)
    }

    /// Puts the mailboxes of the actors behind the ingress points into the
    /// slots that the ingress handles follow. Returns the numbers of those that
    /// were empty before.
    pub fn bind_ingresses_with(&self, mailboxes: &Directory<String, MailboxRef>) -> (r: Result<
        Vec<usize>,
        GraphError,
    >)
        ensures
            match r {
                Ok(bound) => ascending_below(bound@, self.entrance_names().len()) && forall|i: int|
                    0 <= i < self.entrance_names().len() ==> self.binds_ingress(
                        #[trigger] self.entrance_names()[i],
                        mailboxes@,
                        bound@.contains(i as usize),
                    ),
                Err(error) => self.lacks_mailbox(mailboxes@, error),
            },
    {
        match self.ingress_placements(mailboxes) {
            Ok(placements) => {
                let bound = bind_all(&placements);
                assert forall|i: int| 0 <= i < self.entrance_names().len() implies self.binds_ingress(
                    #[trigger] self.entrance_names()[i],
                    mailboxes@,
                    bound@.contains(i as usize),
                ) by {
                    assert(self.opens(self.entrance_names()[i], mailboxes@, placements@[i]));
                }
                Ok(bound)
            },
            Err(error) => Err(error),
        }
    }

    /// The slots that the ingress handles follow, in order of definition.
    pub fn ingress_slots(&self) -> (r: Vec<MailboxBinding>)
        ensures
            r@.len() == self.entrance_names().len(),
            forall|i: int|
                0 <= i < r@.len() ==> #[trigger] r@[i]
                    == self.entrances()[self.entrance_names()[i]].slot(),
    {
        let total: usize = self.ingresses.len();
        let mut slots: Vec<MailboxBinding> = Vec::new();
        let mut i: usize = 0;
        while i < total
            invariant
                i <= total,
                total == self.entrance_names().len(),
                slots@.len() == i,
                forall|j: int|
                    0 <= j < i ==> #[trigger] slots@[j]
                        == self.entrances()[self.entrance_names()[j]].slot(),
            decreases total - i,
        {
            slots.push(self.ingresses.value_at(i).binding.clone());
            i = i + 1;
        }
        slots
    }

    /// Whether the slot of every ingress was emptied, and `cleared` are the
    /// numbers of those that were filled before.
    pub open spec fn unbinds_ingresses(&self, cleared: Seq<usize>) -> bool {
        &&& ascending_below(cleared, self.entrance_names().len())
        &&& forall|i: int|
            0 <= i < self.entrance_names().len() ==> self.entrances()[
                #[trigger] self.entrance_names()[i]
            ].slot().unbinds(cleared.contains(i as usize))
    }

    /// Empties the slots that the ingress handles follow. Returns the numbers of
    /// those that were filled before.
    pub fn clear_ingresses(&self) -> (r: Vec<usize>)
        ensures
            self.unbinds_ingresses(r@),
    {
        let slots = self.ingress_slots();
        let cleared = clear_all(&slots);
        assert forall|i: int| 0 <= i < self.entrance_names().len() implies self.entrances()[
            #[trigger] self.entrance_names()[i]
        ].slot().unbinds(cleared@.contains(i as usize)) by {
            assert(slots@[i].unbinds(cleared@.contains(i as usize)));
        }
        cleared
    }

    /// The name and the slot of an ingress, by number, and whether it leads to
    /// an actor.
    pub fn entrance_at(&self, i: usize, actor_id: &String) -> (r: (String, MailboxBinding, bool))
        requires
            i < self.entrance_names().len(),
        ensures
            r.0@ == self.entrance_names()[i as int],
            r.1 == self.entrances()[r.0@].slot(),
            r.2 == (self.entrances()[r.0@].target() == actor_id@),
    {
        let definition = self.ingresses.value_at(i);
        (
            self.ingresses.key_at(i).clone(),
            definition.binding.clone(),
            same_text(definition.target_actor.as_str(), actor_id.as_str()),
        )
    }

    /// The name of an ingress and the actor behind it, by number.
    pub fn ingress_at(&self, i: usize) -> (r: (&str, &str))
        requires
            i < self.entrance_names().len(),
        ensures
            r.0@ == self.entrance_names()[i as int],
            r.1@ == self.entrances()[r.0@].target(),
    {
        (self.ingresses.key_at(i).as_str(), self.ingresses.value_at(i).target_actor.as_str())
    }

    /// What each actor is started with, in order of definition: its mailbox, its
    /// peers, and a token that derives from `shutdown`.
    pub fn actor_contexts(
        &self,
        receivers: Directory<String, mpsc::Receiver<Envelope>>,
        shutdown: &CancellationToken,
    ) -> (r: Result<Vec<ActorContext>, GraphError>)
        requires
            self.wf(),
        ensures
            match r {
                Ok(contexts) => {
                    &&& forall|i: int|
                        0 <= i < self.ids().len() ==> receivers@.contains_key(
                            #[trigger] self.ids()[i],
                        )
                    &&& contexts@.len() == self.ids().len()
                    &&& forall|i: int|
                        0 <= i < contexts@.len() ==> {
                            let id = self.ids()[i];
                            &&& (#[trigger] contexts@[i]).actor() == id
                            &&& contexts@[i].inbox() == receivers@[id]
                            &&& self.peers_of(id, contexts@[i].linked())
                            &&& self.sends_to(id, id, contexts@[i].own())
                            &&& parent_of(contexts@[i].stop()) == *shutdown
                        }
                },
                Err(error) => exists|i: int|
                    0 <= i < self.ids().len() && !receivers@.contains_key(#[trigger] self.ids()[i])
                        && invalid_state(error, no_receiver_text(self.ids()[i])) && forall|j: int|
                        0 <= j < i ==> receivers@.contains_key(#[trigger] self.ids()[j]),
            },
    {
        let ghost ids = self.ids();
        let ghost all = receivers@;
        let mut left = receivers;
        let mut contexts: Vec<ActorContext> = Vec::new();
        let mut i: usize = 0;
        while i < self.actors.len()
            invariant
                i <= self.actors.len(),
                ids == self.ids(),
                all == receivers@,
                self.wf(),
                forall|id: Seq<char>|
                    !ids.take(i as int).contains(id) ==> (#[trigger] left@.contains_key(id)
                        == all.contains_key(id)) && (left@.contains_key(id) ==> left@[id]
                        == all[id]),
                forall|j: int| 0 <= j < i ==> all.contains_key(#[trigger] ids[j]),
                contexts@.len() == i,
                forall|j: int|
                    0 <= j < contexts@.len() ==> {
                        let id = ids[j];
                        &&& (#[trigger] contexts@[j]).actor() == id
                        &&& contexts@[j].inbox() == all[id]
                        &&& self.peers_of(id, contexts@[j].linked())
                        &&& self.sends_to(id, id, contexts@[j].own())
                        &&& parent_of(contexts@[j].stop()) == *shutdown
                    },
            decreases self.actors.len() - i,
        {
            let id = self.actors[i].id().to_owned();
            proof {
                assert(ids[i as int] == id@);
                assert(ids.contains(id@));
                assert(ids.to_set().contains(id@));
                assert(!ids.take(i as int).contains(id@));
            }
            let peers = match self.peer_refs(&id) {
                Ok(peers) => peers,
                Err(error) => {
                    proof {
                        let links = self.links_from(id@);
                        let k = choose|k: int|
                            0 <= k < links.len() && !self.slots().contains_key(
                                #[trigger] links[k],
                            );
                        assert(ids.contains(links[k]));
                        assert(ids.to_set().contains(links[k]));
                    }
                    return Err(error);
                },
            };
            assert(left@.contains_key(id@) == all.contains_key(id@));
            let mailbox = match left.remove(&id) {
                Some(mailbox) => mailbox,
                None => {
                    return Err(
                        GraphError::InvalidState {
                            detail: about_actor(&id, "` is missing its mailbox receiver"),
                        },
                    );
                },
            };
            let myself = match self.actor_ref(&id) {
                Ok(myself) => myself,
                Err(error) => {
                    return Err(error);
                },
            };
            contexts.push(ActorContext::new(id, mailbox, peers, myself, shutdown.child_token()));
            proof {
                let before = ids.take(i as int);
                let after = ids.take(i as int + 1);
                assert(after =~= before.push(ids[i as int]));
                assert forall|x: Seq<char>| !after.contains(x) implies !before.contains(x) && x
                    != ids[i as int] by {
                    if before.contains(x) {
                        let k = before.index_of(x);
                        assert(after[k] == x);
                    }
                    assert(after[i as int] == ids[i as int]);
                }
            }
            i = i + 1;
        }
        Ok(contexts)
    }
}

/// Ingress handles outlive reruns: in whatever run a graph is, a handle to an
/// ingress follows the slot that the mailbox of the actor behind it is put into,
/// and that mailbox feeds what the actor receives from.
pub proof fn ingress_handles_reach_every_run<F>(
    graph: Graph<F>,
    name: Seq<char>,
    handle: IngressHandle,
    mailboxes: Map<Seq<char>, MailboxRef>,
    receivers: Map<Seq<char>, mpsc::Receiver<Envelope>>,
    placements: Seq<Placement>,
)
    requires
        graph.wf(),
        graph.entrances().contains_key(name),
        graph.leads_into(name, handle),
        forall|id: Seq<char>| #[trigger]
            mailboxes.contains_key(id) ==> graph.is_mailbox_of(id, mailboxes[id], receivers[id]),
        placements.len() == graph.entrance_names().len(),
        forall|i: int|
            0 <= i < placements.len() ==> graph.opens(
                graph.entrance_names()[i],
                mailboxes,
                #[trigger] placements[i],
            ),
    ensures
        exists|i: int|
            {
                &&& 0 <= i < placements.len()
                &&& (#[trigger] placements[i]).slot.shows(handle.follows())
                &&& placements[i].mailbox.actor() == handle.actor()
                &&& placements[i].mailbox.outlet() == fed_by(receivers[handle.actor()])
            },
{
    assert(graph.entrance_names().to_set().contains(name));
    let i = graph.entrance_names().index_of(name);
    assert(graph.opens(graph.entrance_names()[i], mailboxes, placements[i]));
    assert(placements[i].slot.shows(handle.follows()));
}

/// Senders outlive reruns: in whatever run a graph is, the sender that one actor
/// has for another follows the slot that the mailbox of the other is put into,
/// and that mailbox feeds what the other receives from.
pub proof fn senders_reach_every_run<F>(
    graph: Graph<F>,
    source: Seq<char>,
    target: Seq<char>,
    sender: ActorRef,
    mailboxes: Map<Seq<char>, MailboxRef>,
    receivers: Map<Seq<char>, mpsc::Receiver<Envelope>>,
    placements: Seq<Placement>,
)
    requires
        graph.wf(),
        graph.ids().contains(target),
        graph.sends_to(source, target, sender),
        mailboxes.dom() == graph.ids().to_set(),
        forall|id: Seq<char>| #[trigger]
            mailboxes.contains_key(id) ==> graph.is_mailbox_of(id, mailboxes[id], receivers[id]),
        placements.len() == graph.slot_names().len(),
        forall|i: int|
            0 <= i < placements.len() ==> graph.seats(
                graph.slot_names()[i],
                mailboxes,
                #[trigger] placements[i],
            ),
    ensures
        exists|i: int|
            {
                &&& 0 <= i < placements.len()
                &&& (#[trigger] placements[i]).slot.shows(sender.follows())
                &&& placements[i].mailbox.actor() == sender.target()
                &&& placements[i].mailbox.outlet() == fed_by(receivers[target])
            },
{
    assert(graph.ids().to_set().contains(target));
    assert(graph.slot_names().to_set().contains(target));
    let i = graph.slot_names().index_of(target);
    assert(graph.seats(graph.slot_names()[i], mailboxes, placements[i]));
    assert(placements[i].slot.shows(sender.follows()));
}

} // verus!
