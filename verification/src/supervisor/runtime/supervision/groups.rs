//! Starting all children, and restarting all of them together.

use tokio_util::sync::CancellationToken;
use vstd::prelude::*;

use crate::supervisor::error::SupervisorError;
use crate::supervisor::event::SupervisorEvent;
use crate::supervisor::restart::Restart;
use crate::supervisor::runtime::child_runtime::{ChildEntry, MembershipState};
use crate::supervisor::runtime::model::{running_slots, Core};
use crate::supervisor::runtime::slots;
use crate::supervisor::runtime::supervision::spawn::{starts, SpawnPlan};
use crate::supervisor::runtime::supervision::{announced, Publication, SupervisorRuntime};
use crate::time::Duration;
use crate::token::{is_new, is_told};

verus! {

/// The events of a list of publications.
pub open spec fn events_of(publications: Seq<Publication>) -> Seq<SupervisorEvent> {
    publications.map_values(|publication: Publication| publication.event)
}

impl ChildEntry {
    /// The events of the next start of the child.
    pub open spec fn start_events(self) -> Seq<SupervisorEvent> {
        let started = SupervisorEvent::ChildStarted {
            id: self.id,
            generation: self.next_generation(),
        };
        if self.runtime.has_started {
            seq![
                started,
                SupervisorEvent::ChildRestarted {
                    id: self.id,
                    old_generation: self.runtime.generation,
                    new_generation: self.next_generation(),
                },
            ]
        } else {
            seq![started]
        }
    }
}

impl Core {
    /// The events of starting the children under `keys` one by one.
    pub open spec fn start_events(self, keys: Seq<usize>) -> Seq<SupervisorEvent>
        decreases keys.len(),
    {
        if keys.len() == 0 {
            Seq::empty()
        } else {
            let rest = keys.drop_last();
            self.start_events(rest) + self.spawned_each(rest).entries[keys.last()].start_events()
        }
    }

    /// The state after one more restart of each of the children under `keys`
    /// was counted.
    pub open spec fn recounted(self, keys: Seq<usize>) -> Core {
        Core {
            entries: Map::new(
                |key: usize| self.entries.contains_key(key),
                |key: usize|
                    if keys.contains(key) {
                        self.entries[key].counted_restart()
                    } else {
                        self.entries[key]
                    },
            ),
            ..self
        }
    }

    /// There is room for `n` more tasks.
    pub open spec fn has_room_for(self, n: nat) -> bool {
        self.next_task + n <= u64::MAX && self.live + n <= usize::MAX
    }

    /// Counting restarts keeps the state well-formed.
    proof fn recounted_is_wf(self, keys: Seq<usize>)
        requires
            self.wf(),
        ensures
            self.recounted(keys).wf(),
    {
        let after = self.recounted(keys);
        assert forall|key: usize| #[trigger] after.entries.contains_key(key) implies after.backed(
            key,
        ) by {
            self.stays_backed(after, key);
        }
        assert(after.entries.dom() =~= self.entries.dom());
        assert(running_slots(after.entries) =~= running_slots(self.entries));
    }
}

/// Whether `plans` are for starting the children under `keys`, in a supervisor
/// whose state is `before`, with tokens that derive from `group`.
pub open spec fn plans_for(
    plans: Seq<SpawnPlan>,
    before: Core,
    group: CancellationToken,
    keys: Seq<usize>,
) -> bool {
    &&& plans.len() == keys.len()
    &&& forall|i: int|
        0 <= i < plans.len() ==> starts(
            #[trigger] plans[i],
            before.spawned_each(keys.take(i)),
            group,
            keys[i],
        )
}

/// Whether `after` is `before` with one publication more for each event of
/// starting the children under `keys`, each with a snapshot of the supervisor
/// as it was on the way.
pub open spec fn starts_announced(
    before: Seq<Publication>,
    after: Seq<Publication>,
    state: Core,
    keys: Seq<usize>,
    now: Duration,
) -> bool {
    &&& before.len() <= after.len()
    &&& after.take(before.len() as int) == before
    &&& events_of(after.skip(before.len() as int)) == state.start_events(keys)
    &&& forall|i: int|
        before.len() <= i < after.len() ==> exists|k: int|
            0 < k <= keys.len() && #[trigger] state.spawned_each(keys.take(k)).shown_as(
                now,
                (#[trigger] after[i]).snapshot,
            )
}

impl SupervisorRuntime {
    fn spawn_each(&mut self, keys: &Vec<usize>, now: Duration) -> (r: Result<
        Vec<SpawnPlan>,
        SupervisorError,
    >)
        requires
            old(self).state().wf(),
            old(self).state().has_room_for(keys@.len()),
            forall|i: int|
                0 <= i < keys@.len() ==> old(self).state().entries.contains_key(#[trigger] keys@[i]),
        ensures
            final(self).state() == old(self).state().spawned_each(keys@),
            final(self).state().wf(),
            final(self).group() == old(self).group(),
            final(self).path() == old(self).path(),
            r matches Ok(plans) && plans_for(
                plans@,
                old(self).state(),
                old(self).group(),
                keys@,
            ),
            starts_announced(
                old(self).unsent(),
                final(self).unsent(),
                old(self).state(),
                keys@,
                now,
            ),
    {
        let ghost before = self.state();
        let ghost sent = self.unsent();
        let mut plans: Vec<SpawnPlan> = Vec::new();
        let mut i: usize = 0;
        proof {
            assert(self.unsent().take(sent.len() as int) =~= sent);
            assert(events_of(self.unsent().skip(sent.len() as int)) =~= before.start_events(
                keys@.take(0),
            ));
        }
        while i < keys.len()
            invariant
                i <= keys.len(),
                before == old(self).state(),
                before.wf(),
                before.has_room_for(keys@.len()),
                sent == old(self).unsent(),
                forall|j: int|
                    0 <= j < keys@.len() ==> before.entries.contains_key(#[trigger] keys@[j]),
                self.state() == before.spawned_each(keys@.take(i as int)),
                self.state().wf(),
                self.group() == old(self).group(),
                self.path() == old(self).path(),
                plans_for(plans@, before, old(self).group(), keys@.take(i as int)),
                starts_announced(sent, self.unsent(), before, keys@.take(i as int), now),
            decreases keys.len() - i,
        {
            let key: usize = keys[i];
            let ghost earlier = keys@.take(i as int);
            let ghost later = keys@.take(i as int + 1);
            let ghost state = self.state();
            let ghost unsent = self.unsent();
            proof {
                assert(later.drop_last() =~= earlier);
                assert(later.last() == key);
                before.spawned_each_keeps_slots(earlier);
            }
            let plan = match self.restart_child(key, now) {
                Ok(plan) => plan,
                Err(error) => {
                    return Err(error);
                },
            };
            plans.push(plan);
            proof {
                let after = self.unsent();
                let entry = state.entries[key];
                let n = sent.len() as int;
                assert(self.state() == before.spawned_each(later));
                if entry.runtime.has_started {
                    assert(after.drop_last().drop_last() =~= unsent);
                    assert(after =~= unsent.push(after[unsent.len() as int]).push(
                        after[unsent.len() as int + 1],
                    ));
                    assert(after.drop_last().last() == after[unsent.len() as int]);
                } else {
                    assert(after =~= unsent.push(after[unsent.len() as int]));
                }
                assert(after.take(n) =~= sent) by {
                    assert(unsent.take(n) == sent);
                }
                assert(events_of(after.skip(n)) =~= events_of(unsent.skip(n))
                    + entry.start_events());
                assert(before.start_events(later) == before.start_events(earlier)
                    + entry.start_events());
                assert forall|j: int| n <= j < after.len() implies exists|k: int|
                    0 < k <= later.len() && #[trigger] before.spawned_each(later.take(k)).shown_as(
                        now,
                        (#[trigger] after[j]).snapshot,
                    ) by {
                    if j < unsent.len() {
                        assert(after[j] == unsent[j]);
                        let k = choose|k: int|
                            0 < k <= earlier.len() && #[trigger] before.spawned_each(
                                earlier.take(k),
                            ).shown_as(now, unsent[j].snapshot);
                        assert(later.take(k) =~= earlier.take(k));
                        assert(before.spawned_each(later.take(k)).shown_as(now, after[j].snapshot));
                    } else {
                        assert(later.take(later.len() as int) =~= later);
                        assert(before.spawned_each(later.take(later.len() as int)).shown_as(
                            now,
                            after[j].snapshot,
                        ));
                    }
                }
                assert forall|j: int| 0 <= j < plans@.len() implies starts(
                    #[trigger] plans@[j],
                    before.spawned_each(later.take(j)),
                    old(self).group(),
                    later[j],
                ) by {
                    assert(later.take(j) =~= earlier.take(j));
                    if j < i {
                        assert(later[j] == earlier[j]);
                    } else {
                        assert(later.take(j) =~= earlier);
                    }
                }
            }
            i = i + 1;
        }
        assert(keys@.take(i as int) =~= keys@);
        Ok(plans)
    }

    /// Starts all children, in order.
    pub fn start(&mut self, now: Duration) -> (r: Result<Vec<SpawnPlan>, SupervisorError>)
        requires
            old(self).state().wf(),
            old(self).state().has_room_for(old(self).state().order.len()),
        ensures
            final(self).state() == old(self).state().spawned_each(old(self).state().order),
            final(self).state().wf(),
            final(self).group() == old(self).group(),
            final(self).path() == old(self).path(),
            r matches Ok(plans) && plans_for(
                plans@,
                old(self).state(),
                old(self).group(),
                old(self).state().order,
            ),
            exists|started: Seq<Publication>|
                announced(
                    old(self).unsent(),
                    started,
                    old(self).state(),
                    now,
                    SupervisorEvent::SupervisorStarted,
                ) && #[trigger] starts_announced(
                    started,
                    final(self).unsent(),
                    old(self).state(),
                    old(self).state().order,
                    now,
                ),
    {
        let ghost before = self.state();
        self.send_event(now, SupervisorEvent::SupervisorStarted);
        let mut keys: Vec<usize> = Vec::new();
        let mut i: usize = 0;
        while i < self.child_order.len()
            invariant
                i <= self.child_order.len(),
                keys@ == self.child_order@.take(i as int),
            decreases self.child_order.len() - i,
        {
            keys.push(self.child_order[i]);
            assert(self.child_order@.take(i as int + 1) =~= self.child_order@.take(i as int).push(
                self.child_order@[i as int],
            ));
            i = i + 1;
        }
        proof {
            assert(keys@ =~= before.order);
            assert forall|j: int| 0 <= j < keys@.len() implies before.entries.contains_key(
                #[trigger] keys@[j],
            ) by {
                assert(before.order.to_set().contains(keys@[j]));
            }
        }
        self.spawn_each(&keys, now)
    }

    /// Begins a restart of all children: every child is asked to stop.
    pub fn begin_group_restart(&mut self)
        requires
            old(self).state().wf(),
        ensures
            final(self).state() == old(self).state().cancelled(),
            final(self).state().wf(),
            final(self).group() == old(self).group(),
            is_told(old(self).group()),
            final(self).path() == old(self).path(),
            final(self).unsent() == old(self).unsent(),
    {
        self.cancel_running_children();
    }

    /// The children that take part in a restart of all children.
    fn respawning_children(&self) -> (r: Vec<usize>)
        requires
            self.state().wf(),
        ensures
            r@ == self.state().respawning(),
            forall|i: int| 0 <= i < r@.len() ==> self.state().entries.contains_key(#[trigger] r@[i]),
            r@.len() <= self.state().order.len(),
            r@.no_duplicates(),
    {
        let ghost state = self.state();
        let ghost chosen = |key: usize| state.respawns(key);
        let mut r: Vec<usize> = Vec::new();
        let mut i: usize = 0;
        proof {
            reveal(Seq::filter);
        }
        while i < self.child_order.len()
            invariant
                i <= self.child_order.len(),
                state == self.state(),
                state.wf(),
                chosen == (|key: usize| state.respawns(key)),
                r@ == state.order.take(i as int).filter(chosen),
                r@.len() <= i,
                r@.no_duplicates(),
                forall|j: int|
                    0 <= j < r@.len() ==> state.entries.contains_key(#[trigger] r@[j])
                        && state.order.take(i as int).contains(r@[j]),
            decreases self.child_order.len() - i,
        {
            let key: usize = self.child_order[i];
            proof {
                reveal(Seq::filter);
                let taken = state.order.take(i as int + 1);
                assert(taken.drop_last() =~= state.order.take(i as int));
                assert(taken.last() == key);
                assert(state.order.to_set().contains(key));
                assert(!state.order.take(i as int).contains(key));
                assert forall|k: usize| state.order.take(i as int).contains(k) implies taken.contains(
                    k,
                ) by {
                    let j = state.order.take(i as int).index_of(k);
                    assert(taken[j] == k);
                }
                assert(taken[i as int] == key);
            }
            match slots::entry(&self.children, key) {
                Some(entry) => {
                    if entry.membership == MembershipState::Active && entry.runtime.spec.restart
                        != Restart::Temporary {
                        r.push(key);
                    }
                },
                None => {},
            }
            i = i + 1;
        }
        assert(state.order.take(i as int) =~= state.order);
        r
    }

    /// Starts the children again that take part in a restart of all of them, in
    /// order, under a token that has not been cancelled. Children that run at
    /// most once are left out.
    pub fn respawn_group(&mut self, now: Duration) -> (r: Result<Vec<SpawnPlan>, SupervisorError>)
        requires
            old(self).state().wf(),
            old(self).state().has_room_for(old(self).state().order.len()),
        ensures
            ({
                let before = old(self).state();
                let keys = before.respawning();
                let counted = (Core { group_deadline: None, ..before }).recounted(keys);
                &&& final(self).state() == counted.spawned_each(keys)
                &&& r matches Ok(plans) && plans_for(
                    plans@,
                    counted,
                    final(self).group(),
                    keys,
                )
                &&& starts_announced(old(self).unsent(), final(self).unsent(), counted, keys, now)
            }),
            final(self).state().wf(),
            is_new(final(self).group()),
            final(self).path() == old(self).path(),
    {
        let ghost before = self.state();
        let keys = self.respawning_children();
        self.group_restart_deadline = None;
        self.group_token = CancellationToken::new();
        assert(is_new(self.group()));
        let ghost base = self.state();
        assert(base =~= (Core { group_deadline: None, ..before }));
        proof {
            before.wf_goes_by_children(base);
        }
        let mut i: usize = 0;
        assert(base.recounted(keys@.take(0)) =~= base);
        while i < keys.len()
            invariant
                i <= keys.len(),
                before == old(self).state(),
                before.wf(),
                keys@.no_duplicates(),
                base == (Core { group_deadline: None, ..before }),
                base.wf(),
                forall|j: int|
                    0 <= j < keys@.len() ==> base.entries.contains_key(#[trigger] keys@[j]),
                self.state() == base.recounted(keys@.take(i as int)),
                self.unsent() == old(self).unsent(),
                is_new(self.group()),
                self.path() == old(self).path(),
            decreases keys.len() - i,
        {
            let key: usize = keys[i];
            let ghost current = self.state();
            match slots::entry_mut(&mut self.children, key) {
                Some(entry) => {
                    if entry.restart_count < u64::MAX {
                        entry.restart_count = entry.restart_count + 1;
                    }
                },
                None => {},
            }
            proof {
                let earlier = keys@.take(i as int);
                let later = keys@.take(i as int + 1);
                assert(later =~= earlier.push(key));
                assert(!earlier.contains(key));
                assert forall|k: usize| later.contains(k) == (earlier.contains(k) || k == key) by {
                    if earlier.contains(k) {
                        let j = earlier.index_of(k);
                        assert(later[j] == k);
                    }
                    assert(later[i as int] == key);
                }
                assert(self.state().entries =~= base.recounted(later).entries);
                assert(self.state() =~= base.recounted(later));
            }
            i = i + 1;
        }
        proof {
            assert(keys@.take(i as int) =~= keys@);
            base.recounted_is_wf(keys@);
        }
        self.spawn_each(&keys, now)
    }
}

} // verus!
