//! What the end of a child leads to.

use vstd::prelude::*;

use crate::supervisor::child::ChildSpecInner;
use crate::supervisor::event::ExitStatusView;
use crate::supervisor::restart::{Restart, RestartIntensity};
use crate::supervisor::runtime::child_runtime::ChildEntry;
use crate::supervisor::runtime::exit::ExitStatus;
use crate::supervisor::runtime::laws::each_is_started_once;
use crate::supervisor::runtime::model::{lemma_remove_one, Core};
use crate::supervisor::runtime::supervision::exits::exit_taken;
use crate::supervisor::runtime::supervision::restarts::{restart_planned, RestartPlan};
use crate::supervisor::runtime::supervision::steps::{reacted, Move, Reaction};
use crate::supervisor::runtime::supervision::Publication;
use crate::supervisor::snapshot::ChildSnapshot;
use crate::time::{Duration, MAX_NANOS};

verus! {

/// Whether `shown` tells how a task ended.
pub open spec fn tells_how(shown: Option<ExitStatusView>, status: ExitStatus) -> bool {
    match status {
        ExitStatus::Completed => shown matches Some(ExitStatusView::Completed),
        ExitStatus::Failed(error) => shown matches Some(ExitStatusView::Failed(text)) && text@
            == error.text(),
        ExitStatus::Panicked => shown matches Some(ExitStatusView::Panicked),
        ExitStatus::Aborted => shown matches Some(ExitStatusView::Aborted),
    }
}

/// The end of a child is judged by how it ended: a clean end is no failure, and an
/// error, a panic and an abort are. By that, a permanent child is restarted however
/// it ended, a transient one after a failure, and a temporary one never. The child
/// has stopped, how it ended is on record, its task is off the books, and no other
/// child is touched.
pub proof fn ends_are_judged_by_how_they_came(
    before: Core,
    unsent_before: Seq<Publication>,
    task: nat,
    status: ExitStatus,
    now: Duration,
    random: u128,
    reaction: Reaction,
    after: Core,
    unsent_after: Seq<Publication>,
    other: usize,
)
    requires
        reacted(
            before,
            unsent_before,
            task,
            status,
            now,
            random,
            reaction,
            after,
            unsent_after,
        ),
        before.is_current(before.tasks[task]),
        before.entries[before.tasks[task].key].membership is Active,
        other != before.tasks[task].key,
    ensures
        ({
            let key = before.tasks[task].key;
            let wanted = match before.entries[key].runtime.spec.restart {
                Restart::Permanent => true,
                Restart::Transient => !(status is Completed),
                Restart::Temporary => false,
            };
            &&& reaction matches Reaction::Decided(slot, plan) && slot == key && (plan
                is NotRestarted <==> !wanted)
            &&& after.entries[key].runtime.state is Stopped
            &&& tells_how(after.entries[key].last_exit, status)
            &&& after.entries[other] == before.entries[other]
            &&& after.tasks == before.tasks.remove(task)
            &&& after.live == (before.live - 1) as nat
            &&& after.order == before.order
        }),
{
}

/// Only the present incarnation of a child counts: the end of one that has been
/// superseded changes nothing but that its task is off the books. The end of a child
/// that is to be removed, or was given up, takes it out.
pub proof fn other_ends_restart_nothing(
    before: Core,
    unsent_before: Seq<Publication>,
    task: nat,
    status: ExitStatus,
    now: Duration,
    random: u128,
    reaction: Reaction,
    after: Core,
    unsent_after: Seq<Publication>,
)
    requires
        before.wf(),
        reacted(
            before,
            unsent_before,
            task,
            status,
            now,
            random,
            reaction,
            after,
            unsent_after,
        ),
    ensures
        ({
            let meta = before.tasks[task];
            let entry = before.entries[meta.key];
            let current = before.entries.contains_key(meta.key) && entry.instance == meta.instance
                && entry.runtime.generation == meta.generation;
            &&& !current ==> reaction is Ignored && after.entries == before.entries && after.order
                == before.order && unsent_after == unsent_before
            &&& current && !(entry.membership is Active) ==> reaction == Reaction::Removed(meta.key)
                && after.entries == before.entries.remove(meta.key) && !after.order.contains(
                meta.key,
            )
            &&& after.tasks == before.tasks.remove(task)
        }),
{
    let meta = before.tasks[task];
    if before.is_current(meta) && !(before.entries[meta.key].membership is Active) {
        before.order.unique_seq_to_set();
        assert(before.order.to_set().contains(meta.key));
        lemma_remove_one(before.order, meta.key);
        let left = before.order.remove(before.order.index_of(meta.key));
        assert(after.order == left);
        assert(!left.to_set().contains(meta.key));
    }
}

/// A child without a restart intensity of its own goes by its supervisor's, any other
/// by its own. A new child has not been restarted yet, and none is pending.
pub proof fn children_go_by_their_own_intensity(
    entry: ChildEntry,
    spec: ChildSpecInner,
    instance: nat,
    default_intensity: RestartIntensity,
)
    requires
        entry.fresh(spec, instance, default_intensity),
    ensures
        spec.restart_intensity matches Some(own) ==> entry.runtime.restart_tracker.limit() == own,
        spec.restart_intensity is None ==> entry.runtime.restart_tracker.limit()
            == default_intensity,
        entry.runtime.restart_tracker.restarts() == Seq::<Duration>::empty(),
        entry.restart_count == 0,
        entry.runtime.next_restart_deadline is None,
        entry.runtime.generation == 0,
        entry.runtime.spec == spec,
{
    assert(entry.runtime.restart_tracker.restarts() =~= Seq::<Duration>::empty());
}

proof fn lemma_filter_keeps_distinct(keys: Seq<usize>, chosen: spec_fn(usize) -> bool)
    requires
        keys.no_duplicates(),
    ensures
        keys.filter(chosen).no_duplicates(),
        forall|key: usize| #[trigger]
            keys.filter(chosen).contains(key) <==> keys.contains(key) && chosen(key),
    decreases keys.len(),
{
    reveal(Seq::filter);
    if keys.len() > 0 {
        let rest = keys.drop_last();
        let last = keys.last();
        lemma_filter_keeps_distinct(rest, chosen);
        let kept = rest.filter(chosen);
        let all = keys.filter(chosen);
        assert(!rest.contains(last));
        assert forall|key: usize| #[trigger]
            all.contains(key) <==> keys.contains(key) && chosen(key) by {
            if rest.contains(key) {
                let i = rest.index_of(key);
                assert(keys[i] == key);
            }
            if keys.contains(key) && key != last {
                let i = keys.index_of(key);
                assert(rest[i] == key);
            }
            assert(keys[keys.len() - 1] == last);
            if kept.contains(key) {
                let i = kept.index_of(key);
                assert(all[i] == key);
            }
            if chosen(last) {
                assert(all[kept.len() as int] == last);
            }
            if all.contains(key) && !(chosen(last) && key == last) {
                let i = all.index_of(key);
                assert(i < kept.len());
                assert(kept[i] == key);
            }
        }
        assert(!kept.contains(last));
        if chosen(last) {
            assert(all =~= kept.push(last));
            assert forall|i: int, j: int|
                0 <= i < all.len() && 0 <= j < all.len() && i != j implies all[i] != all[j] by {
                if i < kept.len() {
                    assert(kept.contains(kept[i]));
                }
                if j < kept.len() {
                    assert(kept.contains(kept[j]));
                }
            }
        } else {
            assert(all =~= kept);
        }
    } else {
        assert(keys.filter(chosen) =~= Seq::empty());
    }
}

/// A restart of all children starts every child again that belongs to the supervisor
/// and does not run at most once, each in its next generation and counted as one more
/// restart; the others stay as they are. No restart of all is pending after that.
pub proof fn group_restarts_reach_everybody(before: Core, after: Core, key: usize)
    requires
        before.wf(),
        before.entries.contains_key(key),
        before.entries[key].runtime.has_started,
        before.entries[key].runtime.generation < u64::MAX,
        before.entries[key].restart_count < u64::MAX,
        after == (Core { group_deadline: None, ..before }).recounted(
            before.respawning(),
        ).spawned_each(before.respawning()),
    ensures
        ({
            let entry = before.entries[key];
            let again = entry.membership is Active && !(entry.runtime.spec.restart is Temporary);
            let left = after.entries[key];
            &&& again ==> {
                &&& left.runtime.state is Running
                &&& left.runtime.generation == entry.runtime.generation + 1
                &&& left.restart_count == entry.restart_count + 1
                &&& left.runtime.next_restart_deadline is None
                &&& left.runtime.spec == entry.runtime.spec
                &&& left.id == entry.id
            }
            &&& !again ==> left == entry
            &&& after.group_deadline is None
        }),
{
    let keys = before.respawning();
    let counted = (Core { group_deadline: None, ..before }).recounted(keys);
    lemma_filter_keeps_distinct(before.order, |k: usize| before.respawns(k));
    assert(before.order.to_set().contains(key));
    each_is_started_once(counted, keys);
    assert(counted.spawned_each(keys).entries[key] == if keys.contains(key) {
        counted.entries[key].started()
    } else {
        counted.entries[key]
    });
    lemma_group_stays(counted, keys);
}

proof fn lemma_group_stays(state: Core, keys: Seq<usize>)
    ensures
        state.spawned_each(keys).group_deadline == state.group_deadline,
    decreases keys.len(),
{
    if keys.len() > 0 {
        lemma_group_stays(state, keys.drop_last());
    }
}

/// Restarts that are due at the same time are done in the order of the children, each
/// once.
pub proof fn due_restarts_go_in_order(state: Core, now: Duration, keys: Vec<usize>, i: int, j: int)
    requires
        state.wf(),
        state.moves(now, Move::Restart(keys)),
        0 <= i < j < keys@.len(),
    ensures
        state.order.contains(keys@[i]),
        state.order.contains(keys@[j]),
        state.order.index_of(keys@[i]) < state.order.index_of(keys@[j]),
{
    lemma_filter_keeps_order(state.order, |k: usize| state.is_due(now, k), i, j);
}

proof fn lemma_filter_keeps_order(
    keys: Seq<usize>,
    chosen: spec_fn(usize) -> bool,
    i: int,
    j: int,
)
    requires
        keys.no_duplicates(),
        0 <= i < j < keys.filter(chosen).len(),
    ensures
        keys.contains(keys.filter(chosen)[i]),
        keys.contains(keys.filter(chosen)[j]),
        keys.index_of(keys.filter(chosen)[i]) < keys.index_of(keys.filter(chosen)[j]),
    decreases keys.len(),
{
    reveal(Seq::filter);
    lemma_filter_keeps_distinct(keys, chosen);
    let all = keys.filter(chosen);
    assert(all.contains(all[i]));
    assert(all.contains(all[j]));
    let rest = keys.drop_last();
    let kept = rest.filter(chosen);
    lemma_filter_keeps_distinct(rest, chosen);
    let at = keys.index_of(all[i]);
    let to = keys.index_of(all[j]);
    assert(keys[at] == all[i]);
    assert(keys[to] == all[j]);
    if j < kept.len() {
        lemma_filter_keeps_order(rest, chosen, i, j);
        let from = rest.index_of(kept[i]);
        let until = rest.index_of(kept[j]);
        assert(rest[from] == kept[i]);
        assert(rest[until] == kept[j]);
        assert(keys[from] == all[i]);
        assert(keys[until] == all[j]);
    } else {
        assert(all[j] == keys.last());
        assert(keys[keys.len() - 1] == all[j]);
        assert(to == keys.len() - 1);
        assert(all[i] != all[j]);
    }
}

/// A restart that is scheduled is shown: how long it is until then, counted from
/// when the snapshot is taken, and one restart more.
pub proof fn scheduled_restarts_are_shown(
    before: Core,
    key: usize,
    failure: bool,
    now: Duration,
    random: u128,
    delay: Duration,
    planned: Core,
    at: Duration,
    shown: ChildSnapshot,
)
    requires
        before.strategy is OneForOne,
        restart_planned(before, key, failure, now, random, RestartPlan::Scheduled(delay), planned),
        now@ + delay@ <= MAX_NANOS,
        before.entries[key].restart_count < u64::MAX,
        planned.entries[key].shown_as(at, shown),
    ensures
        shown.next_restart_in matches Some(left) && left@ == if at@ <= now@ + delay@ {
            now@ + delay@ - at@
        } else {
            0
        },
        shown.restart_count == before.entries[key].restart_count + 1,
        shown.id == before.entries[key].id,
        shown.generation == before.entries[key].runtime.generation,
        before.entries[key].runtime.state is Stopped ==> shown.state is Stopped,
{
}

/// A child that was started is shown as running, in the generation that it was
/// started in, with no restart pending.
pub proof fn started_children_are_shown_running(
    before: Core,
    key: usize,
    now: Duration,
    shown: ChildSnapshot,
)
    requires
        before.spawned(key).entries[key].shown_as(now, shown),
        before.entries[key].runtime.has_started ==> before.entries[key].runtime.generation
            < u64::MAX,
    ensures
        shown.state is Running,
        shown.next_restart_in is None,
        shown.supervisor is None,
        shown.generation == if before.entries[key].runtime.has_started {
            before.entries[key].runtime.generation + 1
        } else {
            before.entries[key].runtime.generation as int
        },
        shown.last_exit == before.entries[key].last_exit,
        shown.restart_count == before.entries[key].restart_count,
{
}

/// A task that ends is taken off the books, and a child ends with its task: as long
/// as the end is that of its present incarnation, the child has stopped after it or
/// is gone, and every other child is as it was.
pub proof fn ended_tasks_leave_the_books(before: Core, task: nat, after: Core, other: usize)
    requires
        before.wf(),
        exit_taken(before, task, after),
    ensures
        after.live == before.live - 1,
        !after.tasks.contains_key(task),
        before.is_current(before.tasks[task]) ==> (after.entries.contains_key(
            before.tasks[task].key,
        ) ==> after.entries[before.tasks[task].key].runtime.state is Stopped),
        other != before.tasks[task].key && before.entries.contains_key(other)
            ==> after.entries.contains_key(other) && after.entries[other] == before.entries[other],
{
    before.without_task_is_sound(task);
}

/// A failure counts against the supervisor only if the child stays down: it is forgotten as
/// soon as a restart is scheduled, and when the child is started, but how the child ended
/// last stays on record. That of a child that is not restarted stays.
pub proof fn restarted_failures_are_forgotten(
    before: Core,
    key: usize,
    failure: bool,
    now: Duration,
    random: u128,
    plan: RestartPlan,
    after: Core,
)
    requires
        restart_planned(before, key, failure, now, random, plan, after),
    ensures
        plan is Scheduled ==> after.entries[key].terminal_status is None,
        !(plan is Scheduled) ==> after.entries[key].terminal_status
            == before.entries[key].terminal_status,
        after.entries[key].last_exit == before.entries[key].last_exit,
        before.spawned(key).entries[key].terminal_status is None,
        before.spawned(key).entries[key].last_exit == before.entries[key].last_exit,
{
}

} // verus!
