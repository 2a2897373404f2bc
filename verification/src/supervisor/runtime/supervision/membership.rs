//! Who belongs to a supervisor.

use tokio_util::sync::CancellationToken;
use vstd::prelude::*;

use crate::directory::Directory;
use crate::supervisor::child::ChildSpecInner;
use crate::supervisor::error::{BuildError, ControlError};
use crate::supervisor::event::SupervisorEvent;
use crate::supervisor::restart::RestartIntensity;
use crate::supervisor::runtime::child_runtime::{
    ChildEntry, ChildRuntime, MembershipState, RuntimeChildState,
};
use crate::supervisor::runtime::model::{running_slots, Core, SupervisorState, TaskMeta};
use crate::supervisor::runtime::slots;
use crate::supervisor::runtime::supervision::{announced, Publication, SupervisorRuntime};
use crate::supervisor::shutdown::ShutdownPolicy;
use crate::supervisor::snapshot::{NestedSnapshotNotification, SupervisorSnapshot};
use crate::supervisor::strategy::Strategy;
use crate::text::{copy_texts, same_text, texts};
use crate::time::Duration;
use crate::token::is_new;

verus! {

impl ChildEntry {
    /// Whether the child is new: it has the given policies and has never run.
    pub open spec fn fresh(
        self,
        spec: ChildSpecInner,
        instance: nat,
        default_intensity: RestartIntensity,
    ) -> bool {
        &&& self.id == spec.id
        &&& self.instance == instance
        &&& self.membership is Active
        &&& self.runtime.spec == spec
        &&& self.runtime.restart_tracker.limit() == match spec.restart_intensity {
            Some(intensity) => intensity,
            None => default_intensity,
        }
        &&& self.runtime.restart_tracker.restarts().len() == 0
        &&& self.runtime.generation == 0
        &&& self.runtime.state is Stopped
        &&& !self.runtime.has_started
        &&& self.runtime.next_restart_deadline is None
        &&& self.last_exit is None
        &&& self.terminal_status is None
        &&& self.restart_count == 0
        &&& self.nested_snapshot is None
    }

    /// The child in another relation to its supervisor.
    pub open spec fn in_membership(self, membership: MembershipState) -> ChildEntry {
        ChildEntry { membership, ..self }
    }
}

impl Core {
    /// The state with one more child, in the slot `key`.
    pub open spec fn enrolled(self, key: usize, entry: ChildEntry) -> Core {
        Core {
            entries: self.entries.insert(key, entry),
            order: self.order.push(key),
            next_instance: self.next_instance + 1,
            ..self
        }
    }

    proof fn enrolled_is_wf(self, key: usize, entry: ChildEntry)
        requires
            self.wf(),
            !self.entries.contains_key(key),
            !entry.runtime.state.active(),
            entry.runtime.next_restart_deadline is None,
            entry.runtime.generation == 0,
            entry.instance == self.next_instance,
            entry.id@.len() > 0,
            !self.has_id(entry.id@),
        ensures
            self.enrolled(key, entry).wf(),
    {
        let after = self.enrolled(key, entry);
        assert forall|other: usize| #[trigger] after.entries.contains_key(other) implies after.backed(
            other,
        ) by {
            if other != key {
                self.stays_backed(after, other);
            }
        }
        assert(!self.order.to_set().contains(key));
        assert(!self.order.contains(key));
        assert(after.order.to_set() =~= self.order.to_set().insert(key)) by {
            assert forall|k: usize| after.order.contains(k) == (self.order.contains(k) || k == key) by {
                if self.order.contains(k) {
                    let i = self.order.index_of(k);
                    assert(after.order[i] == k);
                }
                assert(after.order[self.order.len() as int] == key);
            }
        }
        assert(after.entries.dom() =~= self.entries.dom().insert(key));
        assert(running_slots(after.entries) =~= running_slots(self.entries));
    }

    /// The slot of the member with the id, if there is one.
    pub open spec fn is_member(self, key: usize, id: Seq<char>) -> bool {
        &&& self.entries.contains_key(key)
        &&& !(self.entries[key].membership is Removed)
        &&& self.entries[key].id@ == id
    }

    /// Whether a child is not taken in, for the reason that `error` gives.
    pub open spec fn refuses(self, spec: ChildSpecInner, error: ControlError) -> bool {
        if !(self.state is Running) {
            error is SupervisorStopping
        } else if spec_flaw(spec) is Some {
            error matches ControlError::InvalidConfig(detail) && spec_flaw(spec) == Some(detail@)
        } else {
            &&& self.has_id(spec.id@)
            &&& error matches ControlError::DuplicateChildId(id) && id@ == spec.id@
        }
    }

    /// Whether another child than the one under `key` is an active member.
    pub open spec fn has_other_member(self, key: usize) -> bool {
        exists|other: usize| #[trigger]
            self.entries.contains_key(other) && other != key
                && self.entries[other].membership is Active
    }

    /// The state after the child under `key`, which may have a task, was asked
    /// to leave.
    pub open spec fn leaving(self, key: usize) -> Core {
        Core {
            entries: self.entries.insert(
                key,
                self.entries[key].in_membership(MembershipState::Removing).in_state(
                    RuntimeChildState::Stopping,
                ),
            ),
            running: self.running_without(key),
            ..self
        }
    }

    proof fn leaving_is_wf(self, key: usize)
        requires
            self.wf(),
            self.entries.contains_key(key),
            !(self.entries[key].membership is Removed),
            self.entries[key].runtime.state.active(),
        ensures
            self.leaving(key).wf(),
            self.entries[key].runtime.state.counted() ==> self.running > 0,
    {
        let after = self.leaving(key);
        assert forall|other: usize| #[trigger] after.entries.contains_key(other) implies after.backed(
            other,
        ) by {
            self.stays_backed(after, other);
        }
        self.order.unique_seq_to_set();
        assert(after.entries.dom() =~= self.entries.dom());
        assert(running_slots(after.entries) =~= running_slots(self.entries).remove(key));
        if self.entries[key].runtime.state.counted() {
            assert(running_slots(self.entries).contains(key));
            if self.running == 0 {
                assert(running_slots(self.entries) =~= Set::empty());
            }
        }
    }
}

/// What the configuration of a child gets wrong.
pub open spec fn spec_flaw(spec: ChildSpecInner) -> Option<Seq<char>> {
    if spec.id@.len() == 0 {
        Some("child id must not be empty"@)
    } else {
        match spec.restart_intensity {
            Some(intensity) => intensity.flaw(),
            None => None,
        }
    }
}

/// What is left to do about a removal.
#[derive(Debug)]
pub enum Removal {
    /// Nothing, the child is gone.
    Done,
    /// Stop the child under `key` as `policy` says; it is gone when its task
    /// ends.
    Stop {
        /// The slot of the child.
        key: usize,
        /// How the child is to be stopped.
        policy: ShutdownPolicy,
    },
}

impl SupervisorRuntime {
    /// A supervisor with the given children, none of them started.
    pub fn new(
        strategy: Strategy,
        default_intensity: RestartIntensity,
        specs: &Vec<ChildSpecInner>,
        path_prefix: Vec<String>,
    ) -> (r: Self)
        requires
            specs@.len() < u64::MAX,
            forall|i: int| 0 <= i < specs@.len() ==> (#[trigger] specs@[i]).id@.len() > 0,
            forall|i: int, j: int|
                0 <= i < j < specs@.len() ==> (#[trigger] specs@[i]).id@ != (#[trigger] specs@[j]).id@,
        ensures
            r.state().wf(),
            r.state().strategy == strategy,
            r.state().default_intensity == default_intensity,
            r.state().state is Running,
            r.state().last_exit is None,
            r.state().group_deadline is None,
            r.state().live == 0,
            r.state().running == 0,
            r.state().next_task == 0,
            r.state().next_instance == specs@.len(),
            r.state().order.len() == specs@.len(),
            forall|i: int|
                0 <= i < specs@.len() ==> r.state().entries[#[trigger] r.state().order[i]].fresh(
                    specs@[i],
                    i as nat,
                    default_intensity,
                ),
            r.unsent().len() == 0,
            is_new(r.group()),
            r.path() == texts(path_prefix@),
    {
        let mut r = SupervisorRuntime {
            strategy,
            default_intensity,
            children: slots::no_slots(),
            child_order: Vec::new(),
            state: SupervisorState::Running,
            last_exit: None,
            running_children: 0,
            live_tasks: 0,
            task_map: Directory::new(),
            next_task: 0,
            next_instance: 0,
            group_restart_deadline: None,
            group_token: CancellationToken::new(),
            path_prefix,
            outbox: Vec::new(),
        };
        proof {
            assert(running_slots(r.state().entries) =~= Set::empty());
            assert(r.state().order.to_set() =~= r.state().entries.dom());
        }
        let mut i: usize = 0;
        while i < specs.len()
            invariant
                i <= specs.len(),
                specs@.len() < u64::MAX,
                forall|i: int| 0 <= i < specs@.len() ==> (#[trigger] specs@[i]).id@.len() > 0,
                forall|i: int, j: int|
                    0 <= i < j < specs@.len() ==> (#[trigger] specs@[i]).id@
                        != (#[trigger] specs@[j]).id@,
                r.state().wf(),
                r.state().strategy == strategy,
                r.state().default_intensity == default_intensity,
                r.state().state is Running,
                r.state().last_exit is None,
                r.state().group_deadline is None,
                r.state().live == 0,
                r.state().running == 0,
                r.state().next_task == 0,
                r.state().next_instance == i,
                r.state().order.len() == i,
                forall|j: int|
                    0 <= j < i ==> r.state().entries[#[trigger] r.state().order[j]].fresh(
                        specs@[j],
                        j as nat,
                        default_intensity,
                    ),
                r.unsent().len() == 0,
                is_new(r.group()),
                r.path() == texts(path_prefix@),
            decreases specs.len() - i,
        {
            let ghost before = r.state();
            proof {
                if before.has_id(specs@[i as int].id@) {
                    let key = choose|key: usize| #[trigger]
                        before.entries.contains_key(key) && !(before.entries[key].membership is Removed)
                            && before.entries[key].id@ == specs@[i as int].id@;
                    assert(before.order.to_set().contains(key));
                    let j = before.order.index_of(key);
                    assert(before.entries[before.order[j]].fresh(
                        specs@[j],
                        j as nat,
                        default_intensity,
                    ));
                }
            }
            let key = r.enroll(specs[i].clone());
            proof {
                assert forall|j: int| 0 <= j < i + 1 implies r.state().entries[#[trigger] r.state().order[j]].fresh(
                    specs@[j],
                    j as nat,
                    default_intensity,
                ) by {
                    if j < i {
                        assert(r.state().order[j] == before.order[j]);
                        assert(before.order.to_set().contains(before.order[j]));
                    }
                }
            }
            i = i + 1;
        }
        r
    }

    /// Gives a child a slot.
    fn enroll(&mut self, spec: ChildSpecInner) -> (key: usize)
        requires
            old(self).state().wf(),
            old(self).state().next_instance < u64::MAX,
            spec.id@.len() > 0,
            !old(self).state().has_id(spec.id@),
        ensures
            !old(self).state().entries.contains_key(key),
            final(self).state() == old(self).state().enrolled(
                key,
                final(self).state().entries[key],
            ),
            final(self).state().entries[key].fresh(
                spec,
                old(self).state().next_instance,
                old(self).state().default_intensity,
            ),
            final(self).state().wf(),
            final(self).unsent() == old(self).unsent(),
            final(self).group() == old(self).group(),
            final(self).path() == old(self).path(),
    {
        let ghost before = self.state();
        let id = spec.id.clone();
        let entry = ChildEntry {
            id,
            instance: self.next_instance,
            membership: MembershipState::Active,
            runtime: ChildRuntime::new(spec, self.default_intensity),
            last_exit: None,
            terminal_status: None,
            restart_count: 0,
            nested_snapshot: None,
        };
        let ghost listed = entry;
        self.next_instance = self.next_instance + 1;
        let key = slots::occupy(&mut self.children, entry);
        self.child_order.push(key);
        proof {
            before.enrolled_is_wf(key, listed);
            assert(self.state() =~= before.enrolled(key, listed));
        }
        key
    }

    /// The slot of the member with the id.
    pub fn find(&self, id: &str) -> (r: Option<usize>)
        requires
            self.state().wf(),
        ensures
            match r {
                Some(key) => self.state().is_member(key, id@),
                None => !self.state().has_id(id@),
            },
    {
        let ghost state = self.state();
        let mut i: usize = 0;
        while i < self.child_order.len()
            invariant
                i <= self.child_order.len(),
                state == self.state(),
                state.wf(),
                forall|j: int| 0 <= j < i ==> !state.is_member(#[trigger] state.order[j], id@),
            decreases self.child_order.len() - i,
        {
            let key: usize = self.child_order[i];
            assert(state.order[i as int] == key);
            assert(state.order.to_set().contains(key));
            match slots::entry(&self.children, key) {
                Some(entry) => {
                    if entry.membership != MembershipState::Removed && same_text(
                        entry.id.as_str(),
                        id,
                    ) {
                        return Some(key);
                    }
                },
                None => {},
            }
            i = i + 1;
        }
        proof {
            if state.has_id(id@) {
                let key = choose|key: usize| #[trigger]
                    state.entries.contains_key(key) && !(state.entries[key].membership is Removed)
                        && state.entries[key].id@ == id@;
                assert(state.order.to_set().contains(key));
                let j = state.order.index_of(key);
                assert(!state.is_member(state.order[j], id@));
            }
        }
        None
    }

    /// Takes a child in. It is to be started next.
    pub fn add_child(&mut self, spec: ChildSpecInner) -> (r: Result<usize, ControlError>)
        requires
            old(self).state().wf(),
            old(self).state().next_instance < u64::MAX,
        ensures
            final(self).state().wf(),
            final(self).unsent() == old(self).unsent(),
            final(self).group() == old(self).group(),
            final(self).path() == old(self).path(),
            r is Err ==> final(self).state() == old(self).state(),
            ({
                let before = old(self).state();
                match r {
                    Err(error) => before.refuses(spec, error),
                    Ok(key) => {
                        &&& before.state is Running
                        &&& spec_flaw(spec) is None
                        &&& !before.has_id(spec.id@)
                        &&& !before.entries.contains_key(key)
                        &&& final(self).state() == before.enrolled(
                            key,
                            final(self).state().entries[key],
                        )
                        &&& final(self).state().entries[key].fresh(
                            spec,
                            before.next_instance,
                            before.default_intensity,
                        )
                    },
                }
            }),
    {
        if self.state != SupervisorState::Running {
            return Err(ControlError::SupervisorStopping);
        }
        if spec.id.as_str().is_empty() {
            return Err(ControlError::InvalidConfig("child id must not be empty"));
        }
        if let Some(intensity) = &spec.restart_intensity {
            match intensity.validate() {
                Err(BuildError::InvalidConfig(detail)) => {
                    return Err(ControlError::InvalidConfig(detail));
                },
                _ => {},
            }
        }
        if let Some(key) = self.find(spec.id.as_str()) {
            proof {
                assert(self.state().is_member(key, spec.id@));
                assert(self.state().entries.contains_key(key));
            }
            return Err(ControlError::DuplicateChildId(spec.id));
        }
        Ok(self.enroll(spec))
    }

    /// Whether another child than the one under `key` is an active member.
    fn other_member(&self, key: usize) -> (r: bool)
        requires
            self.state().wf(),
        ensures
            r == self.state().has_other_member(key),
    {
        let ghost state = self.state();
        let mut i: usize = 0;
        while i < self.child_order.len()
            invariant
                i <= self.child_order.len(),
                state == self.state(),
                state.wf(),
                forall|j: int|
                    0 <= j < i && #[trigger] state.order[j] != key
                        ==> !(state.entries[state.order[j]].membership is Active),
            decreases self.child_order.len() - i,
        {
            let other: usize = self.child_order[i];
            assert(state.order[i as int] == other);
            assert(state.order.to_set().contains(other));
            match slots::entry(&self.children, other) {
                Some(entry) => {
                    if other != key && entry.membership == MembershipState::Active {
                        assert(state.entries.contains_key(other));
                        return true;
                    }
                },
                None => {},
            }
            i = i + 1;
        }
        proof {
            if state.has_other_member(key) {
                let other = choose|other: usize| #[trigger]
                    state.entries.contains_key(other) && other != key
                        && state.entries[other].membership is Active;
                assert(state.order.to_set().contains(other));
                let j = state.order.index_of(other);
                assert(state.order[j] != key);
            }
        }
        false
    }

    /// Lets a child go. A child without a task is gone at once, even if a
    /// restart of it was pending; another one when its task ends.
    pub fn remove_child(&mut self, id: &str, now: Duration) -> (r: Result<Removal, ControlError>)
        requires
            old(self).state().wf(),
        ensures
            final(self).state().wf(),
            final(self).group() == old(self).group(),
            final(self).path() == old(self).path(),
            r is Err ==> final(self).state() == old(self).state() && final(self).unsent() == old(
                self,
            ).unsent(),
            ({
                let before = old(self).state();
                match r {
                    Err(ControlError::SupervisorStopping) => !(before.state is Running),
                    Err(ControlError::UnknownChildId(name)) => before.state is Running
                        && !before.has_id(id@) && name@ == id@,
                    Err(ControlError::ChildRemovalInProgress(name)) => before.state is Running
                        && name@ == id@ && exists|key: usize| #[trigger]
                        before.is_member(key, id@) && before.entries[key].membership is Removing,
                    Err(ControlError::LastChildRemovalUnsupported) => before.state is Running
                        && exists|key: usize| #[trigger]
                        before.is_member(key, id@) && before.entries[key].membership is Active
                            && !before.has_other_member(key),
                    Err(_) => false,
                    Ok(removal) => before.state is Running && exists|key: usize| #[trigger]
                        before.is_member(key, id@) && before.entries[key].membership is Active
                            && before.has_other_member(key) && removed(
                            before,
                            old(self).unsent(),
                            key,
                            now,
                            removal,
                            final(self).state(),
                            final(self).unsent(),
                        ),
                }
            }),
    {
        let ghost before = self.state();
        if self.state != SupervisorState::Running {
            return Err(ControlError::SupervisorStopping);
        }
        let key = match self.find(id) {
            Some(key) => key,
            None => {
                return Err(ControlError::UnknownChildId(id.to_owned()));
            },
        };
        assert(before.is_member(key, id@));
        let membership = match slots::entry(&self.children, key) {
            Some(entry) => entry.membership,
            None => MembershipState::Removed,
        };
        if membership == MembershipState::Removing {
            return Err(ControlError::ChildRemovalInProgress(id.to_owned()));
        }
        if !self.other_member(key) {
            return Err(ControlError::LastChildRemovalUnsupported);
        }
        let active: bool;
        let mut counted = false;
        let mut policy = ShutdownPolicy::default();
        let mut name = String::new();
        match slots::entry_mut(&mut self.children, key) {
            Some(entry) => {
                active = entry.runtime.state.is_active();
                counted = entry.runtime.state.is_counted();
                policy = entry.runtime.spec.shutdown_policy;
                name = entry.id.clone();
                entry.membership = MembershipState::Removing;
                if active {
                    entry.runtime.state = RuntimeChildState::Stopping;
                }
            },
            None => {
                active = false;
            },
        }
        if active {
            proof {
                before.leaving_is_wf(key);
            }
            if counted {
                self.running_children = self.running_children - 1;
            }
            assert(self.state() =~= before.leaving(key));
            self.send_event(now, SupervisorEvent::ChildRemoveRequested { id: name });
            return Ok(Removal::Stop { key, policy });
        }
        let ghost marked = before.entries[key].in_membership(MembershipState::Removing);
        proof {
            before.changed_is_wf(key, marked);
            assert(self.state() =~= before.changed(key, marked));
        }
        self.send_event(now, SupervisorEvent::ChildRemoveRequested { id: name.clone() });
        self.vacate(key);
        proof {
            assert(self.state().entries =~= before.vacated(key).entries);
            assert(self.state() =~= before.vacated(key));
        }
        self.send_event(now, SupervisorEvent::ChildRemoved { id: name });
        Ok(Removal::Done)
    }

    /// Gives up waiting for the task of a child that is to be removed: the child
    /// is no member any more, and its task is left alone.
    pub fn abandon(&mut self, key: usize) -> (r: Option<ControlError>)
        requires
            old(self).state().wf(),
        ensures
            final(self).state().wf(),
            final(self).unsent() == old(self).unsent(),
            final(self).group() == old(self).group(),
            final(self).path() == old(self).path(),
            ({
                let before = old(self).state();
                if before.entries.contains_key(key) && before.entries[key].membership is Removing {
                    &&& r matches Some(ControlError::ShutdownTimedOut(id)) && id
                        == before.entries[key].id
                    &&& final(self).state() == before.changed(
                        key,
                        before.entries[key].in_membership(MembershipState::Removed),
                    )
                } else {
                    r is None && final(self).state() == before
                }
            }),
    {
        let ghost before = self.state();
        let mut r: Option<ControlError> = None;
        match slots::entry_mut(&mut self.children, key) {
            Some(entry) => {
                if entry.membership == MembershipState::Removing {
                    entry.membership = MembershipState::Removed;
                    r = Some(ControlError::ShutdownTimedOut(entry.id.clone()));
                }
            },
            None => {},
        }
        proof {
            if before.entries.contains_key(key) {
                before.changed_is_wf(key, self.state().entries[key]);
                assert(self.state() =~= before.changed(key, self.state().entries[key]));
                if r is None {
                    assert(self.state() =~= before);
                }
            }
        }
        r
    }

    /// The path of the child under `key` below the root.
    pub fn child_path(&self, key: usize) -> (r: Option<Vec<String>>)
        ensures
            match r {
                Some(path) => self.state().entries.contains_key(key) && texts(path@)
                    == self.path().push(self.state().entries[key].id@),
                None => !self.state().entries.contains_key(key),
            },
    {
        match slots::entry(&self.children, key) {
            Some(entry) => {
                let mut path = copy_texts(&self.path_prefix);
                path.push(entry.id.clone());
                assert(texts(path@) =~= self.path().push(entry.id@));
                Some(path)
            },
            None => None,
        }
    }

    /// Takes over the latest snapshot of a nested supervisor, unless it comes
    /// from an incarnation that has been superseded. Returns whether it did.
    pub fn accept_nested_snapshot(
        &mut self,
        notification: NestedSnapshotNotification,
        snapshot: Option<SupervisorSnapshot>,
    ) -> (r: bool)
        requires
            old(self).state().wf(),
        ensures
            final(self).state().wf(),
            final(self).unsent() == old(self).unsent(),
            final(self).group() == old(self).group(),
            final(self).path() == old(self).path(),
            ({
                let before = old(self).state();
                let key = notification.parent_key;
                &&& r == before.is_current(
                    TaskMeta {
                        key,
                        instance: notification.parent_instance,
                        generation: notification.generation,
                    },
                )
                &&& final(self).state() == if r {
                    before.changed(
                        key,
                        ChildEntry { nested_snapshot: snapshot, ..before.entries[key] },
                    )
                } else {
                    before
                }
            }),
    {
        let ghost before = self.state();
        let key: usize = notification.parent_key;
        let mut accepted = false;
        match slots::entry_mut(&mut self.children, key) {
            Some(entry) => {
                if entry.instance == notification.parent_instance && entry.runtime.generation
                    == notification.generation {
                    entry.nested_snapshot = snapshot;
                    accepted = true;
                }
            },
            None => {},
        }
        proof {
            if before.entries.contains_key(key) {
                before.changed_is_wf(key, self.state().entries[key]);
                assert(self.state() =~= before.changed(key, self.state().entries[key]));
                if !accepted {
                    assert(self.state() =~= before);
                }
            }
        }
        accepted
    }
}

/// Whether the child under `key` was let go as `removal` says: asked to leave if
/// it may have a task, otherwise gone at once.
pub open spec fn removed(
    before: Core,
    unsent_before: Seq<Publication>,
    key: usize,
    now: Duration,
    removal: Removal,
    after: Core,
    unsent_after: Seq<Publication>,
) -> bool {
    let entry = before.entries[key];
    let requested = SupervisorEvent::ChildRemoveRequested { id: entry.id };
    if entry.runtime.state.active() {
        &&& removal == (Removal::Stop { key, policy: entry.runtime.spec.shutdown_policy })
        &&& after == before.leaving(key)
        &&& announced(unsent_before, unsent_after, after, now, requested)
    } else {
        &&& removal is Done
        &&& after == before.vacated(key)
        &&& announced(
            unsent_before,
            unsent_after.drop_last(),
            before.changed(key, entry.in_membership(MembershipState::Removing)),
            now,
            requested,
        )
        &&& announced(
            unsent_after.drop_last(),
            unsent_after,
            after,
            now,
            SupervisorEvent::ChildRemoved { id: entry.id },
        )
    }
}

} // verus!
