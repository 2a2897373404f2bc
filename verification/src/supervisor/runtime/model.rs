//! The state of a running supervisor as a mathematical value, and the steps
//! that it takes.

use vstd::prelude::*;

use crate::supervisor::error::SupervisorExit;
use crate::supervisor::event::ExitStatusView;
use crate::supervisor::restart::RestartIntensity;
use crate::supervisor::runtime::child_runtime::{
    ChildEntry, ChildRuntime, MembershipState, RuntimeChildState,
};
use crate::supervisor::runtime::slots::lists_keys;
use crate::supervisor::snapshot::{
    same_snapshot, ChildMembershipView, ChildSnapshot, ChildStateView, SupervisorSnapshot,
    SupervisorStateView,
};
use crate::supervisor::strategy::Strategy;
use crate::time::Duration;

verus! {

/// Where a supervisor is in its life.
#[derive(Clone, Copy, Debug, PartialEq, Eq, Structural)]
pub enum SupervisorState {
    /// It runs its children.
    Running,
    /// It stops its children.
    Stopping,
    /// It has stopped.
    Stopped,
}

/// Which child a task belongs to.
#[derive(Clone, Copy, Debug, PartialEq, Eq, Structural)]
pub struct TaskMeta {
    /// The slot of the child.
    pub key: usize,
    /// Which of the children that have used the slot.
    pub instance: u64,
    /// Which incarnation of the child.
    pub generation: u64,
}

/// Everything that a supervisor decides by.
#[verifier::ext_equal]
pub ghost struct Core {
    pub strategy: Strategy,
    pub default_intensity: RestartIntensity,
    pub entries: Map<usize, ChildEntry>,
    pub order: Seq<usize>,
    pub state: SupervisorState,
    pub last_exit: Option<SupervisorExit>,
    pub running: nat,
    pub live: nat,
    pub tasks: Map<nat, TaskMeta>,
    pub next_task: nat,
    pub next_instance: nat,
    pub group_deadline: Option<Duration>,
}

/// The slots whose child counts as running.
pub open spec fn running_slots(entries: Map<usize, ChildEntry>) -> Set<usize> {
    entries.dom().filter(|key: usize| entries[key].runtime.state.counted())
}

/// The next number, if there is one.
pub open spec fn next_u64(n: u64) -> u64 {
    if n < u64::MAX {
        (n + 1) as u64
    } else {
        n
    }
}

/// The keys of the slots in increasing order.
pub open spec fn keys_in_order(entries: Map<usize, ChildEntry>) -> Seq<usize> {
    choose|keys: Seq<usize>| lists_keys(keys, entries)
}

impl ChildEntry {
    /// Whether the child may have a task that its supervisor still answers for.
    pub open spec fn engaged(self) -> bool {
        !(self.membership is Removed) && self.runtime.state.active()
    }

    /// The child in another state.
    pub open spec fn in_state(self, state: RuntimeChildState) -> ChildEntry {
        ChildEntry { runtime: ChildRuntime { state, ..self.runtime }, ..self }
    }

    /// The generation that the next start of the child has.
    pub open spec fn next_generation(self) -> u64 {
        if self.runtime.has_started {
            next_u64(self.runtime.generation)
        } else {
            self.runtime.generation
        }
    }

    /// The child after it was started.
    pub open spec fn started(self) -> ChildEntry {
        ChildEntry {
            runtime: ChildRuntime {
                generation: self.next_generation(),
                state: RuntimeChildState::Running,
                has_started: true,
                next_restart_deadline: None,
                ..self.runtime
            },
            terminal_status: None,
            nested_snapshot: None,
            ..self
        }
    }

    /// The child after its task ended.
    pub open spec fn exited(self, status: ExitStatusView) -> ChildEntry {
        ChildEntry {
            runtime: ChildRuntime { state: RuntimeChildState::Stopped, ..self.runtime },
            last_exit: Some(status),
            terminal_status: Some(status),
            ..self
        }
    }

    /// Whether `snapshot` shows the child as it is at `now`.
    pub open spec fn shown_as(self, now: Duration, snapshot: ChildSnapshot) -> bool {
        &&& snapshot.id == self.id
        &&& snapshot.generation == self.runtime.generation
        &&& snapshot.state == match self.runtime.state {
            RuntimeChildState::Starting => ChildStateView::Starting,
            RuntimeChildState::Running => ChildStateView::Running,
            RuntimeChildState::Stopping => ChildStateView::Stopping,
            RuntimeChildState::Stopped => ChildStateView::Stopped,
        }
        &&& snapshot.membership == match self.membership {
            MembershipState::Active => ChildMembershipView::Active,
            _ => ChildMembershipView::Removing,
        }
        &&& snapshot.last_exit == self.last_exit
        &&& snapshot.restart_count == self.restart_count
        &&& match (snapshot.next_restart_in, self.runtime.next_restart_deadline) {
            (Some(left), Some(deadline)) => left@ == if deadline@ >= now@ {
                deadline@ - now@
            } else {
                0
            },
            (None, None) => true,
            _ => false,
        }
        &&& match (snapshot.supervisor, self.nested_snapshot) {
            (Some(shown), Some(nested)) => same_snapshot(nested, *shown),
            (None, None) => true,
            _ => false,
        }
    }
}

impl Core {
    /// The books are right, and every child that may have a task has one on them.
    pub open spec fn wf(self) -> bool {
        &&& self.sound()
        &&& forall|key: usize| #[trigger] self.entries.contains_key(key) ==> self.backed(key)
    }

    /// Whether the child under `key` has stopped, or its task is on the books.
    pub open spec fn backed(self, key: usize) -> bool {
        self.entries[key].runtime.state.active() ==> exists|task: nat| self.works_for(task, key)
    }

    /// Whether the task is on the books for the present incarnation of the child
    /// under `key`.
    pub open spec fn works_for(self, task: nat, key: usize) -> bool {
        &&& self.tasks.contains_key(task)
        &&& self.tasks[task].key == key
        &&& self.is_current(self.tasks[task])
    }

    /// Every child but the one under `key` has stopped or has its task on the
    /// books.
    pub open spec fn backed_but(self, key: usize) -> bool {
        forall|other: usize| #[trigger]
            self.entries.contains_key(other) && other != key ==> self.backed(other)
    }

    /// The children are in order and in slots, one each, and have different ids,
    /// none of them empty; those that count as running are counted; so are the
    /// tasks. Children that run at most once do not wait for a restart, and
    /// generations are counted from zero.
    pub open spec fn sound(self) -> bool {
        &&& self.order.no_duplicates()
        &&& self.order.to_set() == self.entries.dom()
        &&& self.running == running_slots(self.entries).len()
        &&& self.tasks.dom().finite()
        &&& self.live == self.tasks.dom().len()
        &&& forall|task: nat| #[trigger] self.tasks.contains_key(task) ==> task < self.next_task
        &&& forall|key: usize| #[trigger]
            self.entries.contains_key(key) ==> self.entries[key].instance < self.next_instance
        &&& self.ids_are_given()
        &&& self.ids_are_unique()
        &&& self.temporaries_run_once()
        &&& self.generations_start_at_zero()
    }

    /// No child has an empty id.
    pub open spec fn ids_are_given(self) -> bool {
        forall|key: usize| #[trigger]
            self.entries.contains_key(key) ==> self.entries[key].id@.len() > 0
    }

    /// No two members have the same id.
    pub open spec fn ids_are_unique(self) -> bool {
        forall|a: usize, b: usize|
            #![trigger self.entries.contains_key(a), self.entries.contains_key(b)]
            self.entries.contains_key(a) && self.entries.contains_key(b)
                && !(self.entries[a].membership is Removed) && !(
            self.entries[b].membership is Removed) && self.entries[a].id@ == self.entries[b].id@
                ==> a == b
    }

    /// No child that runs at most once waits for a restart.
    pub open spec fn temporaries_run_once(self) -> bool {
        forall|key: usize| #[trigger]
            self.entries.contains_key(key) && self.entries[key].runtime.spec.restart is Temporary
                ==> self.entries[key].runtime.next_restart_deadline is None
    }

    /// A child that has not been started is in its first generation.
    pub open spec fn generations_start_at_zero(self) -> bool {
        forall|key: usize| #[trigger]
            self.entries.contains_key(key) && !self.entries[key].runtime.has_started
                ==> self.entries[key].runtime.generation == 0
    }

    /// The slots of the children that belong to the supervisor, in order.
    pub open spec fn members(self) -> Seq<usize> {
        self.order.filter(|key: usize| !(self.entries[key].membership is Removed))
    }

    /// Whether a child that belongs to the supervisor has the id.
    pub open spec fn has_id(self, id: Seq<char>) -> bool {
        exists|key: usize| #[trigger]
            self.entries.contains_key(key) && !(self.entries[key].membership is Removed)
                && self.entries[key].id@ == id
    }

    /// Whether `snapshot` shows the supervisor as it is at `now`.
    pub open spec fn shown_as(self, now: Duration, snapshot: SupervisorSnapshot) -> bool {
        &&& snapshot.state == match self.state {
            SupervisorState::Running => SupervisorStateView::Running,
            SupervisorState::Stopping => SupervisorStateView::Stopping,
            SupervisorState::Stopped => SupervisorStateView::Stopped,
        }
        &&& snapshot.last_exit == self.last_exit
        &&& snapshot.strategy == self.strategy
        &&& snapshot.children@.len() == self.members().len()
        &&& forall|i: int|
            0 <= i < self.members().len() ==> self.entries[self.members()[i]].shown_as(
                now,
                #[trigger] snapshot.children@[i],
            )
    }

    /// There is room for one more task.
    pub open spec fn has_room(self) -> bool {
        self.next_task < u64::MAX && self.live < usize::MAX
    }

    /// The state after the child under `key` was started.
    pub open spec fn spawned(self, key: usize) -> Core {
        let entry = self.entries[key];
        Core {
            entries: self.entries.insert(key, entry.started()),
            running: if entry.runtime.state.counted() {
                self.running
            } else {
                self.running + 1
            },
            live: self.live + 1,
            tasks: self.tasks.insert(
                self.next_task,
                TaskMeta { key, instance: entry.instance, generation: entry.next_generation() },
            ),
            next_task: self.next_task + 1,
            ..self
        }
    }

    /// The state after every child that counts as running was asked to stop.
    pub open spec fn cancelled(self) -> Core {
        Core {
            entries: Map::new(
                |key: usize| self.entries.contains_key(key),
                |key: usize|
                    if self.entries[key].runtime.state.counted() {
                        self.entries[key].in_state(RuntimeChildState::Stopping)
                    } else {
                        self.entries[key]
                    },
            ),
            running: 0,
            ..self
        }
    }

    /// Whether a task belongs to the present incarnation of the child in its
    /// slot.
    pub open spec fn is_current(self, meta: TaskMeta) -> bool {
        &&& self.entries.contains_key(meta.key)
        &&& self.entries[meta.key].instance == meta.instance
        &&& self.entries[meta.key].runtime.generation == meta.generation
    }

    /// The state after a task was taken off the books.
    pub open spec fn without_task(self, task: nat) -> Core {
        Core { live: (self.live - 1) as nat, tasks: self.tasks.remove(task), ..self }
    }

    /// The state after the task of the child under `key` ended.
    pub open spec fn exited(self, key: usize, status: ExitStatusView) -> Core {
        Core {
            entries: self.entries.insert(key, self.entries[key].exited(status)),
            running: self.running_without(key),
            ..self
        }
    }

    /// The state after the child under `key` was taken out of its slot.
    pub open spec fn vacated(self, key: usize) -> Core {
        Core {
            entries: self.entries.remove(key),
            order: self.order.remove(self.order.index_of(key)),
            running: self.running_without(key),
            ..self
        }
    }

    /// How many other children count as running.
    pub open spec fn running_without(self, key: usize) -> nat {
        if self.entries[key].runtime.state.counted() {
            (self.running - 1) as nat
        } else {
            self.running
        }
    }

    /// The state with another child in the slot, or the same one changed.
    pub open spec fn changed(self, key: usize, entry: ChildEntry) -> Core {
        Core { entries: self.entries.insert(key, entry), ..self }
    }

    /// The state after the children under `keys` were started one by one.
    pub open spec fn spawned_each(self, keys: Seq<usize>) -> Core
        decreases keys.len(),
    {
        if keys.len() == 0 {
            self
        } else {
            self.spawned_each(keys.drop_last()).spawned(keys.last())
        }
    }

    /// A child that keeps its incarnation keeps its task.
    pub proof fn stays_backed(self, after: Core, key: usize)
        requires
            self.backed(key),
            after.entries.contains_key(key),
            after.entries[key].runtime.state.active() ==> {
                &&& self.entries[key].runtime.state.active()
                &&& after.entries[key].instance == self.entries[key].instance
                &&& after.entries[key].runtime.generation == self.entries[key].runtime.generation
            },
            forall|task: nat| #[trigger]
                self.works_for(task, key) ==> after.tasks.contains_key(task) && after.tasks[task]
                    == self.tasks[task],
        ensures
            after.backed(key),
    {
        if after.entries[key].runtime.state.active() {
            let task = choose|task: nat| self.works_for(task, key);
            assert(after.works_for(task, key));
        }
    }

    /// Whether the books are right is a matter of the children and the tasks.
    pub proof fn wf_goes_by_children(self, after: Core)
        requires
            self.wf(),
            after == (Core {
                state: after.state,
                last_exit: after.last_exit,
                group_deadline: after.group_deadline,
                ..self
            }),
        ensures
            after.wf(),
    {
        assert forall|key: usize| #[trigger] after.entries.contains_key(key) implies after.backed(
            key,
        ) by {
            self.stays_backed(after, key);
        }
    }

    /// Taking a task off the books keeps the counts right. If the task was that
    /// of a child, this child has none now.
    pub proof fn without_task_is_sound(self, task: nat)
        requires
            self.wf(),
            self.tasks.contains_key(task),
        ensures
            self.without_task(task).sound(),
            self.without_task(task).backed_but(self.tasks[task].key),
            !self.is_current(self.tasks[task]) ==> self.without_task(task).wf(),
            self.live > 0,
    {
        let after = self.without_task(task);
        assert forall|key: usize| #[trigger]
            self.entries.contains_key(key) && (key != self.tasks[task].key || !self.is_current(
                self.tasks[task],
            )) implies after.backed(key) by {
            self.stays_backed(after, key);
        }
        assert(self.tasks.dom().contains(task));
        assert(self.without_task(task).tasks.dom() =~= self.tasks.dom().remove(task));
        if self.live == 0 {
            assert(self.tasks.dom() =~= Set::empty());
        }
    }

    /// The end of a child's task keeps the counts right.
    pub proof fn exited_is_wf(self, key: usize, status: ExitStatusView)
        requires
            self.sound(),
            self.backed_but(key),
            self.entries.contains_key(key),
        ensures
            self.exited(key, status).wf(),
            self.entries[key].runtime.state.counted() ==> self.running > 0,
    {
        let after = self.exited(key, status);
        assert forall|other: usize| #[trigger] after.entries.contains_key(other) implies after.backed(
            other,
        ) by {
            if other != key {
                self.stays_backed(after, other);
            }
        }
        self.order.unique_seq_to_set();
        assert(after.entries.dom() =~= self.entries.dom());
        assert(running_slots(after.entries) =~= running_slots(self.entries).remove(key));
        if self.entries[key].runtime.state.counted() {
            assert(running_slots(self.entries).contains(key));
            if self.running == 0 {
                assert(running_slots(self.entries) =~= Set::empty());
            }
        }
    }

    /// Taking a child out of its slot keeps the counts right.
    pub proof fn vacated_is_wf(self, key: usize)
        requires
            self.sound(),
            self.backed_but(key),
            self.entries.contains_key(key),
        ensures
            self.vacated(key).wf(),
            self.entries[key].runtime.state.counted() ==> self.running > 0,
            self.order.contains(key),
    {
        let after = self.vacated(key);
        assert forall|other: usize| #[trigger] after.entries.contains_key(other) implies after.backed(
            other,
        ) by {
            self.stays_backed(after, other);
        }
        self.order.unique_seq_to_set();
        assert(self.order.to_set().contains(key));
        lemma_remove_one(self.order, key);
        assert(after.entries.dom() =~= self.entries.dom().remove(key));
        assert(running_slots(after.entries) =~= running_slots(self.entries).remove(key));
        if self.entries[key].runtime.state.counted() {
            assert(running_slots(self.entries).contains(key));
            if self.running == 0 {
                assert(running_slots(self.entries) =~= Set::empty());
            }
        }
    }

    /// Changing a child in its slot keeps the counts right, unless it starts or
    /// stops running by that.
    pub proof fn changed_is_wf(self, key: usize, entry: ChildEntry)
        requires
            self.wf(),
            self.entries.contains_key(key),
            entry.runtime.state.counted() == self.entries[key].runtime.state.counted(),
            entry.runtime.state.active() ==> self.entries[key].runtime.state.active(),
            entry.runtime.generation == self.entries[key].runtime.generation,
            entry.instance == self.entries[key].instance,
            entry.id@ == self.entries[key].id@,
            entry.membership is Removed || !(self.entries[key].membership is Removed),
            entry.runtime.spec.restart is Temporary ==> entry.runtime.next_restart_deadline is None,
            !entry.runtime.has_started ==> entry.runtime.generation == 0,
        ensures
            self.changed(key, entry).wf(),
    {
        let after = self.changed(key, entry);
        assert forall|other: usize| #[trigger] after.entries.contains_key(other) implies after.backed(
            other,
        ) by {
            self.stays_backed(after, other);
        }
        assert(after.entries.dom() =~= self.entries.dom());
        assert(running_slots(after.entries) =~= running_slots(self.entries));
    }

    /// Starting children keeps the order and the slots.
    pub proof fn spawned_each_keeps_slots(self, keys: Seq<usize>)
        requires
            self.wf(),
            forall|i: int| 0 <= i < keys.len() ==> self.entries.contains_key(#[trigger] keys[i]),
        ensures
            self.spawned_each(keys).wf(),
            self.spawned_each(keys).entries.dom() == self.entries.dom(),
            self.spawned_each(keys).order == self.order,
            self.spawned_each(keys).next_task == self.next_task + keys.len(),
            self.spawned_each(keys).live == self.live + keys.len(),
        decreases keys.len(),
    {
        if keys.len() > 0 {
            let rest = keys.drop_last();
            assert forall|i: int| 0 <= i < rest.len() implies self.entries.contains_key(
                #[trigger] rest[i],
            ) by {
                assert(keys[i] == rest[i]);
            }
            self.spawned_each_keeps_slots(rest);
            assert(self.entries.contains_key(keys[keys.len() - 1]));
            let before = self.spawned_each(rest);
            before.spawned_is_wf(keys.last());
            assert(before.spawned(keys.last()).entries.dom() =~= self.entries.dom());
        }
    }

    /// Starting a child keeps the counts right.
    pub proof fn spawned_is_wf(self, key: usize)
        requires
            self.wf(),
            self.entries.contains_key(key),
        ensures
            self.spawned(key).wf(),
            self.spawned(key).running <= self.order.len(),
    {
        let after = self.spawned(key);
        assert forall|other: usize| #[trigger] after.entries.contains_key(other) implies after.backed(
            other,
        ) by {
            if other == key {
                assert(after.works_for(self.next_task, key));
            } else {
                assert(!self.tasks.contains_key(self.next_task));
                self.stays_backed(after, other);
            }
        }
        let before_set = running_slots(self.entries);
        let after_set = running_slots(after.entries);
        self.order.unique_seq_to_set();
        assert(after.entries.dom() =~= self.entries.dom());
        assert(after_set =~= before_set.insert(key));
        assert(self.entries[key].runtime.state.counted() == before_set.contains(key));
        assert(after_set.subset_of(self.entries.dom()));
        vstd::set_lib::lemma_len_subset(after_set, self.entries.dom());
        assert(!self.tasks.contains_key(self.next_task));
        assert(after.tasks.dom() =~= self.tasks.dom().insert(self.next_task));
    }

    /// Asking all to stop leaves none running.
    pub proof fn cancelled_is_wf(self)
        requires
            self.wf(),
        ensures
            self.cancelled().wf(),
            running_slots(self.cancelled().entries) == Set::<usize>::empty(),
    {
        let after = self.cancelled();
        assert forall|key: usize| #[trigger] after.entries.contains_key(key) implies after.backed(
            key,
        ) by {
            self.stays_backed(after, key);
        }
        assert(after.entries.dom() =~= self.entries.dom());
        assert(running_slots(after.entries) =~= Set::empty());
        self.order.unique_seq_to_set();
    }
}

/// Removing an element from a list without duplicates leaves the others.
pub proof fn lemma_remove_one(keys: Seq<usize>, key: usize)
    requires
        keys.no_duplicates(),
        keys.contains(key),
    ensures
        keys.remove(keys.index_of(key)).no_duplicates(),
        keys.remove(keys.index_of(key)).to_set() == keys.to_set().remove(key),
{
    let at = keys.index_of(key);
    let after = keys.remove(at);
    assert forall|k: usize| after.contains(k) == (keys.contains(k) && k != key) by {
        if keys.contains(k) && k != key {
            let i = keys.index_of(k);
            if i < at {
                assert(after[i] == k);
            } else {
                assert(after[i - 1] == k);
            }
        }
        if after.contains(k) {
            let i = after.index_of(k);
            if i < at {
                assert(keys[i] == k);
            } else {
                assert(keys[i + 1] == k);
            }
        }
    }
    assert(after.to_set() =~= keys.to_set().remove(key));
}

/// Two lists of the same keys in increasing order are the same.
proof fn lemma_increasing_unique(a: Seq<usize>, b: Seq<usize>)
    requires
        a.to_set() == b.to_set(),
        forall|i: int, j: int| 0 <= i < j < a.len() ==> a[i] < a[j],
        forall|i: int, j: int| 0 <= i < j < b.len() ==> b[i] < b[j],
    ensures
        a == b,
    decreases a.len(),
{
    if a.len() == 0 {
        if b.len() > 0 {
            assert(b.to_set().contains(b[0]));
            assert(a.to_set().contains(b[0]));
        }
        assert(a =~= b);
    } else {
        assert(a.to_set().contains(a.last()));
        assert(b.to_set().contains(a.last()));
        let k = b.index_of(a.last());
        assert(b.to_set().contains(b.last()));
        assert(a.to_set().contains(b.last()));
        let m = a.index_of(b.last());
        assert(a.last() == b.last());
        let x = a.drop_last();
        let y = b.drop_last();
        assert forall|key: usize| x.to_set().contains(key) == y.to_set().contains(key) by {
            if x.contains(key) {
                let i = x.index_of(key);
                assert(a[i] == key);
                assert(a.to_set().contains(key));
                assert(b.to_set().contains(key));
                let j = b.index_of(key);
                assert(j < b.len() - 1);
                assert(y[j] == key);
            }
            if y.contains(key) {
                let i = y.index_of(key);
                assert(b[i] == key);
                assert(b.to_set().contains(key));
                assert(a.to_set().contains(key));
                let j = a.index_of(key);
                assert(j < a.len() - 1);
                assert(x[j] == key);
            }
        }
        assert(x.to_set() =~= y.to_set());
        lemma_increasing_unique(x, y);
        assert(a =~= x.push(a.last()));
        assert(b =~= y.push(b.last()));
    }
}

/// There is a list of the keys in order.
pub proof fn keys_are_listed(state: Core)
    requires
        state.sound(),
    ensures
        lists_keys(keys_in_order(state.entries), state.entries),
{
    broadcast use vstd::seq_lib::group_to_multiset_ensures;

    let at_most = |a: usize, b: usize| a <= b;
    let keys = state.order.sort_by(at_most);
    state.order.lemma_sort_by_ensures(at_most);
    state.order.lemma_multiset_has_no_duplicates();
    keys.lemma_multiset_has_no_duplicates_conv();
    assert(keys.to_set() =~= state.entries.dom()) by {
        assert forall|key: usize| keys.contains(key) == state.entries.contains_key(key) by {
            assert(state.order.to_set().contains(key) == state.order.contains(key));
            assert(keys.to_multiset().count(key) == state.order.to_multiset().count(key));
        }
    }
    assert forall|i: int, j: int| 0 <= i < j < keys.len() implies keys[i] < keys[j] by {
        assert(at_most(keys[i], keys[j]));
        assert(keys[i] != keys[j]);
    }
    assert(lists_keys(keys, state.entries));
}

/// A list of the keys in increasing order is the list of the keys in order.
pub proof fn keys_are_listed_one_way(keys: Seq<usize>, entries: Map<usize, ChildEntry>)
    requires
        lists_keys(keys, entries),
    ensures
        keys == keys_in_order(entries),
{
    lemma_increasing_unique(keys, keys_in_order(entries));
}

} // verus!
