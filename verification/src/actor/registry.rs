//! Runtime directory of actors.

use vstd::prelude::*;

use crate::actor::binding::MailboxBinding;
use crate::actor::context::ActorRef;
use crate::directory::Directory;
use crate::text::{sort_texts, sorted, texts};

verus! {

/// Errors returned while registering or deregistering runtime actors.
#[derive(Debug, Clone, PartialEq, Eq)]
pub enum RegistryError {
    /// Actor ids must not be empty.
    EmptyActorId,
    /// An actor with this id is already registered.
    DuplicateActorId(String),
    /// No actor with this id exists in the registry.
    UnknownActorId(String),
}

impl RegistryError {
    /// What [`message`](Self::message) says.
    pub open spec fn text(self) -> Seq<char> {
        match self {
            RegistryError::EmptyActorId => "actor id must not be empty"@,
            RegistryError::DuplicateActorId(id) => "duplicate actor id `"@ + id@ + "`"@,
            RegistryError::UnknownActorId(id) => "unknown actor `"@ + id@ + "`"@,
        }
    }

    /// The error in words.
    pub fn message(&self) -> (r: String)
        ensures
            r@ == self.text(),
    {
        match self {
            RegistryError::EmptyActorId => "actor id must not be empty".to_owned(),
            RegistryError::DuplicateActorId(id) => {
                let mut out = "duplicate actor id `".to_owned();
                out.append(id.as_str());
                out.append("`");
                out
            },
            RegistryError::UnknownActorId(id) => {
                let mut out = "unknown actor `".to_owned();
                out.append(id.as_str());
                out.append("`");
                out
            },
        }
    }
}

/// Runtime directory of restart-stable actor references.
///
/// The registry is for discovery at run time, not for static topology: the links
/// of a graph remain available through the actors' contexts. An entry is the
/// slot that the actor's mailboxes are put into, so it outlives restarts.
#[derive(Debug)]
pub struct ActorRegistry {
    entries: Directory<String, MailboxBinding>,
}

impl Default for ActorRegistry {
    fn default() -> (r: Self)
        ensures
            r.slots() == Map::<Seq<char>, MailboxBinding>::empty(),
    {
        ActorRegistry::new()
    }
}

impl ActorRegistry {
    /// The slots of the registered actors, by id.
    pub closed spec fn slots(&self) -> Map<Seq<char>, MailboxBinding> {
        self.entries@
    }

    /// Whether `sender` is one for a registered actor, handed to `source`.
    pub open spec fn sends_to(
        &self,
        actor_id: Seq<char>,
        source: Option<Seq<char>>,
        sender: ActorRef,
    ) -> bool {
        &&& self.slots().contains_key(actor_id)
        &&& sender.target() == actor_id
        &&& sender.source() == source
        &&& self.slots()[actor_id].shows(sender.follows())
    }

    /// Creates an empty actor registry.
    pub fn new() -> (r: Self)
        ensures
            r.slots() == Map::<Seq<char>, MailboxBinding>::empty(),
    {
        ActorRegistry { entries: Directory::new() }
    }

    /// Returns `true` if the registry has an entry for `actor_id`.
    pub fn contains(&self, actor_id: &str) -> (r: bool)
        ensures
            r == self.slots().contains_key(actor_id@),
    {
        self.entries.contains(&actor_id.to_owned())
    }

    /// Returns the registered actor ids in sorted order.
    pub fn actor_ids(&self) -> (r: Vec<String>)
        ensures
            sorted(texts(r@)),
            texts(r@).no_duplicates(),
            texts(r@).to_set() == self.slots().dom(),
    {
        let total: usize = self.entries.check_names();
        let ghost names = self.entries.names();
        let mut ids: Vec<String> = Vec::new();
        let mut i: usize = 0;
        while i < total
            invariant
                i <= total,
                total == names.len(),
                names == self.entries.names(),
                texts(ids@) == names.take(i as int),
            decreases total - i,
        {
            let id = self.entries.key_at(i).clone();
            proof {
                assert(texts(ids@.push(id)) =~= texts(ids@).push(id@));
                assert(names.take(i as int + 1) =~= names.take(i as int).push(id@));
            }
            ids.push(id);
            i = i + 1;
        }
        assert(names.take(i as int) =~= names);
        sort_texts(&mut ids);
        proof {
            let after = texts(ids@);
            lemma_same_items(names, after);
        }
        ids
    }

    /// Returns a stable actor reference for external callers.
    pub fn actor_ref(&self, actor_id: &str) -> (r: Option<ActorRef>)
        ensures
            match r {
                Some(sender) => self.sends_to(actor_id@, None, sender),
                None => !self.slots().contains_key(actor_id@),
            },
    {
        self.actor_ref_for_source(actor_id, None)
    }

    /// Returns a stable actor reference that is to be handed to an actor.
    pub fn actor_ref_for_source(&self, actor_id: &str, source_actor_id: Option<&String>) -> (r:
        Option<ActorRef>)
        ensures
            match r {
                Some(sender) => self.sends_to(
                    actor_id@,
                    match source_actor_id {
                        Some(source) => Some(source@),
                        None => None,
                    },
                    sender,
                ),
                None => !self.slots().contains_key(actor_id@),
            },
    {
        match self.entries.get(&actor_id.to_owned()) {
            Some(binding) => Some(
                ActorRef::from_binding(
                    actor_id.to_owned(),
                    binding.subscribe(),
                    match source_actor_id {
                        Some(source) => Some(source.clone()),
                        None => None,
                    },
                ),
            ),
            None => None,
        }
    }

    /// Adds an actor entry to the registry.
    pub fn register_entry(&mut self, actor_id: String, binding: MailboxBinding) -> (r: Result<
        (),
        RegistryError,
    >)
        ensures
            match r {
                Ok(()) => {
                    &&& actor_id@.len() > 0
                    &&& !old(self).slots().contains_key(actor_id@)
                    &&& final(self).slots() == old(self).slots().insert(actor_id@, binding)
                },
                Err(error) => {
                    &&& final(self).slots() == old(self).slots()
                    &&& if actor_id@.len() == 0 {
                        error is EmptyActorId
                    } else {
                        &&& old(self).slots().contains_key(actor_id@)
                        &&& error matches RegistryError::DuplicateActorId(id) && id@ == actor_id@
                    }
                },
            },
    {
        if actor_id.as_str().is_empty() {
            return Err(RegistryError::EmptyActorId);
        }
        if self.entries.contains(&actor_id) {
            return Err(RegistryError::DuplicateActorId(actor_id));
        }
        let _ = self.entries.insert(actor_id, binding);
        Ok(())
    }

    /// Removes an actor entry from the registry.
    pub fn deregister(&mut self, actor_id: &str) -> (r: Result<(), RegistryError>)
        ensures
            match r {
                Ok(()) => {
                    &&& actor_id@.len() > 0
                    &&& old(self).slots().contains_key(actor_id@)
                    &&& final(self).slots() == old(self).slots().remove(actor_id@)
                },
                Err(error) => {
                    &&& final(self).slots() == old(self).slots()
                    &&& if actor_id@.len() == 0 {
                        error is EmptyActorId
                    } else {
                        &&& !old(self).slots().contains_key(actor_id@)
                        &&& error matches RegistryError::UnknownActorId(id) && id@ == actor_id@
                    }
                },
            },
    {
        if actor_id.is_empty() {
            return Err(RegistryError::EmptyActorId);
        }
        match self.entries.remove(&actor_id.to_owned()) {
            Some(_) => Ok(()),
            None => {
                assert(self.slots() =~= old(self).slots());
                Err(RegistryError::UnknownActorId(actor_id.to_owned()))
            },
        }
    }
}

/// The slots after registering and deregistering the same actor are the slots
/// before.
pub proof fn deregistering_undoes_registering(
    before: Map<Seq<char>, MailboxBinding>,
    actor_id: Seq<char>,
    binding: MailboxBinding,
)
    requires
        !before.contains_key(actor_id),
    ensures
        before.insert(actor_id, binding).remove(actor_id) == before,
{
    assert(before.insert(actor_id, binding).remove(actor_id) =~= before);
}

proof fn lemma_same_items(before: Seq<Seq<char>>, after: Seq<Seq<char>>)
    requires
        before.no_duplicates(),
        before.to_multiset() == after.to_multiset(),
    ensures
        after.no_duplicates(),
        after.to_set() == before.to_set(),
{
    before.lemma_multiset_has_no_duplicates();
    before.to_multiset_ensures();
    after.to_multiset_ensures();
    after.lemma_multiset_has_no_duplicates_conv();
    assert(after.to_set() =~= before.to_set()) by {
        assert forall|x: Seq<char>| after.contains(x) == before.contains(x) by {
            assert(before.contains(x) <==> before.to_multiset().count(x) > 0);
            assert(after.contains(x) <==> after.to_multiset().count(x) > 0);
        }
    }
}

} // verus!
