//! How long a supervisor waits before it acts.

use vstd::prelude::*;

use crate::supervisor::error::ControlError;
use crate::supervisor::restart::{BackoffPolicy, Restart};
use crate::supervisor::runtime::intensity::{
    in_window, jitter_covers_the_upper_half, lemma_power_step,
};
use crate::supervisor::runtime::model::{keys_are_listed, keys_in_order, Core};
use crate::supervisor::runtime::stop_laws::lemma_engaged_are_listed;
use crate::supervisor::runtime::supervision::restarts::{restart_planned, RestartPlan};
use crate::supervisor::runtime::supervision::shutdown::{
    drain_advances, drain_begins, Drain, DrainReason, DrainStep, Modes,
};
use crate::supervisor::runtime::supervision::steps::{
    removal_advances, removal_begins, Move, RemovalRun, RemovalStep,
};
use crate::supervisor::runtime::supervision::stop::{
    stop_advances, stop_begins, Stop, StopCause, StopStep,
};
use crate::supervisor::runtime::supervision::Publication;
use crate::supervisor::shutdown::{ShutdownMode, ShutdownPolicy};
use crate::time::{Duration, MAX_NANOS};

verus! {

/// The number of restarts at `times` that lie no further back from `now` than
/// `within`.
pub open spec fn restarts_within(times: Seq<Duration>, now: Duration, within: Duration) -> nat {
    times.filter(|time: Duration| now@ - time@ <= within@).len()
}

/// What becomes of a child that has ended is up to its policies. Whether it is
/// restarted depends on its restart policy: always, after a failure only, or never.
/// How often depends on its intensity: one restart too many within the window, of
/// those that were recorded, and the supervisor gives up. How soon depends on its
/// backoff, which goes by the number of restarts within the window so far.
pub proof fn restarts_follow_the_policies(
    before: Core,
    key: usize,
    failure: bool,
    now: Duration,
    random: u128,
    plan: RestartPlan,
    planned: Core,
)
    requires
        restart_planned(before, key, failure, now, random, plan, planned),
    ensures
        ({
            let runtime = before.entries[key].runtime;
            let limit = runtime.restart_tracker.limit();
            let recent = restarts_within(runtime.restart_tracker.restarts(), now, limit.within);
            let wanted = match runtime.spec.restart {
                Restart::Permanent => true,
                Restart::Transient => failure,
                Restart::Temporary => false,
            };
            &&& plan is NotRestarted <==> !wanted
            &&& plan is IntensityExceeded <==> wanted && recent >= limit.max_restarts
            &&& plan is Scheduled <==> wanted && recent < limit.max_restarts
            &&& plan matches RestartPlan::Scheduled(delay) ==> delay@
                == limit.backoff.spread_delay(recent, random)
            &&& wanted ==> restarts_within(
                planned.entries[key].runtime.restart_tracker.restarts(),
                now,
                limit.within,
            ) == recent + 1
        }),
{
    let runtime = before.entries[key].runtime;
    let within = runtime.restart_tracker.limit().within;
    let times = runtime.restart_tracker.restarts();
    let near = |time: Duration| now@ - time@ <= within@;
    let kept = times.filter(near);
    Duration::view_is_not_negative(within);
    assert(near =~= (|time: Duration| in_window(time, now, within)));
    assert(before.entries[key].recent_restarts(now) == kept);
    lemma_filter_again(times, near);
    reveal(Seq::filter);
    assert(kept.push(now).drop_last() =~= kept);
    assert(near(now));
}

proof fn lemma_filter_again(times: Seq<Duration>, chosen: spec_fn(Duration) -> bool)
    ensures
        times.filter(chosen).filter(chosen) == times.filter(chosen),
    decreases times.len(),
{
    reveal(Seq::filter);
    if times.len() > 0 {
        let rest = times.drop_last();
        lemma_filter_again(rest, chosen);
        if chosen(times.last()) {
            assert(rest.filter(chosen).push(times.last()).drop_last() =~= rest.filter(chosen));
        }
    }
}

/// With one-for-all supervision, a group restart that is scheduled at `now` waits
/// for its backoff: before that is over the group is not restarted, and from then on
/// it is. Until then the supervisor waits for no longer than that, and for exactly
/// that long unless a single child is to be restarted before.
pub proof fn group_restarts_wait_for_their_backoff(
    before: Core,
    key: usize,
    failure: bool,
    now: Duration,
    random: u128,
    delay: Duration,
    planned: Core,
    at: Duration,
    next: Move,
)
    requires
        before.state is Running,
        before.strategy is OneForAll,
        restart_planned(before, key, failure, now, random, RestartPlan::Scheduled(delay), planned),
        now@ + delay@ <= MAX_NANOS,
        planned.moves(at, next),
    ensures
        next is RestartGroup <==> at@ >= now@ + delay@,
        !(next is Finish),
        next matches Move::Wait(first) ==> (first matches Some(until) && until@ <= now@ + delay@),
        (forall|other: usize| !#[trigger] planned.awaits_restart(other)) && at@ < now@ + delay@
            && planned.due(at).len() == 0 ==> (next matches Move::Wait(Some(until)) && until@
            == now@ + delay@),
{
}

/// With one-for-one supervision, a restart that is scheduled at `now` waits for its
/// backoff: before that is over the child is not restarted, and from then on it is,
/// unless it is to be removed or all children are to be restarted.
pub proof fn restarts_wait_for_their_backoff(
    before: Core,
    key: usize,
    failure: bool,
    now: Duration,
    random: u128,
    delay: Duration,
    planned: Core,
    at: Duration,
    next: Move,
)
    requires
        before.wf(),
        before.entries.contains_key(key),
        before.state is Running,
        before.strategy is OneForOne,
        before.group_deadline is None,
        restart_planned(before, key, failure, now, random, RestartPlan::Scheduled(delay), planned),
        now@ + delay@ <= MAX_NANOS,
        planned.moves(at, next),
    ensures
        at@ < now@ + delay@ ==> !(next matches Move::Restart(keys) && keys@.contains(key)),
        at@ >= now@ + delay@ && before.entries[key].membership is Active ==> (next
            matches Move::Restart(keys) && keys@.contains(key)),
        before.entries[key].membership is Active ==> (next matches Move::Wait(first) ==> (first
            matches Some(until) && until@ <= now@ + delay@)),
{
    broadcast use vstd::seq_lib::group_filter_ensures;

    let due = |k: usize| planned.is_due(at, k);
    assert(planned.order == before.order);
    assert(before.order.to_set().contains(key));
    let i = planned.order.index_of(key);
    assert(planned.order[i] == key);
    if before.entries[key].membership is Active {
        assert(planned.awaits_restart(key));
        if at@ >= now@ + delay@ {
            assert(due(planned.order[i]));
            assert(planned.order.filter(due).contains(planned.order[i]));
        }
    }
    if planned.due(at).contains(key) {
        planned.order.lemma_filter_contains_rev(due, key);
        let j = planned.due(at).index_of(key);
        assert(due(planned.due(at)[j]));
    }
}

/// Children that are to be aborted at once are, and no others: those that may have a
/// task, are members, and are to be stopped that way.
pub proof fn only_those_to_be_aborted_are_aborted_at_once(
    state: Core,
    reason: DrainReason,
    drain: Drain,
    keys: Vec<usize>,
    key: usize,
)
    requires
        state.wf(),
        drain_begins(state, reason, drain, DrainStep::Abort(keys)),
    ensures
        keys@.contains(key) <==> {
            &&& state.entries.contains_key(key)
            &&& !(state.entries[key].membership is Removed)
            &&& !(state.entries[key].runtime.state is Stopped)
            &&& state.entries[key].runtime.spec.shutdown_policy.mode is Abort
        },
{
    lemma_listed(state, Modes::Only(ShutdownMode::Abort), key);
}

/// What is listed are the engaged children of the given modes.
proof fn lemma_listed(state: Core, modes: Modes, key: usize)
    requires
        state.wf(),
    ensures
        state.engaged(modes).contains(key) <==> state.entries.contains_key(key)
            && state.entries[key].engaged() && modes.holds(
            state.entries[key].runtime.spec.shutdown_policy.mode,
        ),
{
    broadcast use vstd::seq_lib::group_filter_ensures;

    let chosen = |k: usize| state.engages(modes, k);
    let keys = keys_in_order(state.entries);
    keys_are_listed(state);
    if state.engaged(modes).contains(key) {
        keys.lemma_filter_contains_rev(chosen, key);
        assert(keys.to_set().contains(key));
        let i = state.engaged(modes).index_of(key);
        assert(chosen(state.engaged(modes)[i]));
    } else if state.entries.contains_key(key) && state.engages(modes, key) {
        lemma_engaged_are_listed(state, modes, key);
    }
}

/// Whether no child that may have a task, is a member and has a grace period has a
/// longer one.
pub open spec fn graces_within(state: Core, longest: Duration) -> bool {
    forall|key: usize| #[trigger]
        state.entries.contains_key(key) && !(state.entries[key].membership is Removed) && !(
        state.entries[key].runtime.state is Stopped) && !(
        state.entries[key].runtime.spec.shutdown_policy.mode is Abort)
            ==> state.entries[key].runtime.spec.shutdown_policy.grace@ <= longest@
}

/// Every child has its grace period when all are stopped. A drain that begins to wait
/// at `now`, while there is a task, waits at least until the grace period of each
/// child that has one is over: as long as there is a task, it neither aborts a child
/// before that nor ends. It waits no longer than the longest of these periods.
pub proof fn drains_grant_every_grace_period(
    begun: Core,
    reason: DrainReason,
    drain: Drain,
    first: DrainStep,
    state: Core,
    now: Duration,
    waiting: Drain,
    step: DrainStep,
    key: usize,
    longest: Duration,
    later_state: Core,
    at: Duration,
    after: Drain,
    next: DrainStep,
)
    requires
        drain_begins(begun, reason, drain, first),
        begun.entries.contains_key(key),
        !(begun.entries[key].membership is Removed),
        !(begun.entries[key].runtime.state is Stopped),
        !(begun.entries[key].runtime.spec.shutdown_policy.mode is Abort),
        graces_within(begun, longest),
        state.live > 0,
        drain_advances(state, drain, now, waiting, step),
        now@ + longest@ <= MAX_NANOS,
        drain_advances(later_state, waiting, at, after, next),
    ensures
        ({
            let grace = begun.entries[key].runtime.spec.shutdown_policy.grace@;
            &&& step matches DrainStep::AwaitExit(until) && now@ + grace <= until@ <= now@
                + longest@
            &&& later_state.live > 0 && at@ < now@ + grace ==> next == step && after == waiting
            &&& at@ >= now@ + longest@ ==> !(next is AwaitExit)
        }),
{
    let waits = |k: usize|
        begun.entries.contains_key(k) && begun.entries[k].engaged() && !(
        begun.entries[k].runtime.spec.shutdown_policy.mode is Abort);
    assert(waits(key));
    assert(forall|k: usize| #[trigger] waits(k) ==> begun.entries.contains_key(k));
}

/// Every child has its grace period when its supervisor stops: from when the waiting
/// begins, as long as there is a task, nothing is aborted before the grace period of
/// each child that has one is over, nor does the supervisor end. It waits no longer
/// than the longest of these periods.
pub proof fn stops_grant_every_grace_period(
    begun: Core,
    cause: StopCause,
    stop: Stop,
    first: StopStep,
    state: Core,
    unsent: Seq<Publication>,
    now: Duration,
    waiting: Stop,
    step: StopStep,
    between: Core,
    unsent_between: Seq<Publication>,
    key: usize,
    longest: Duration,
    later_state: Core,
    unsent_later: Seq<Publication>,
    at: Duration,
    after: Stop,
    next: StopStep,
    left: Core,
    unsent_left: Seq<Publication>,
)
    requires
        stop_begins(begun, cause, stop, first),
        begun.entries.contains_key(key),
        !(begun.entries[key].membership is Removed),
        !(begun.entries[key].runtime.state is Stopped),
        !(begun.entries[key].runtime.spec.shutdown_policy.mode is Abort),
        graces_within(begun, longest),
        state.live > 0,
        stop_advances(state, unsent, stop, now, waiting, step, between, unsent_between),
        now@ + longest@ <= MAX_NANOS,
        stop_advances(later_state, unsent_later, waiting, at, after, next, left, unsent_left),
    ensures
        ({
            let grace = begun.entries[key].runtime.spec.shutdown_policy.grace@;
            &&& step matches StopStep::AwaitExit(until) && now@ + grace <= until@ <= now@
                + longest@
            &&& later_state.live > 0 && at@ < now@ + grace ==> next == step && left == later_state
                && unsent_left == unsent_later
            &&& at@ >= now@ + longest@ ==> !(next is AwaitExit)
        }),
{
    let waits = |k: usize|
        begun.entries.contains_key(k) && begun.entries[k].engaged() && !(
        begun.entries[k].runtime.spec.shutdown_policy.mode is Abort);
    assert(waits(key));
    assert(forall|k: usize| #[trigger] waits(k) ==> begun.entries.contains_key(k));
}

/// Once the waiting is over, the tasks that are left are aborted, but for those of
/// children that are only ever asked to stop.
pub proof fn drains_abort_what_is_left(
    state: Core,
    waiting: Drain,
    at: Duration,
    after: Drain,
    keys: Vec<usize>,
    key: usize,
)
    requires
        state.wf(),
        drain_advances(state, waiting, at, after, DrainStep::Abort(keys)),
    ensures
        keys@.contains(key) <==> {
            &&& state.entries.contains_key(key)
            &&& !(state.entries[key].membership is Removed)
            &&& !(state.entries[key].runtime.state is Stopped)
            &&& !(state.entries[key].runtime.spec.shutdown_policy.mode is Cooperative)
        },
{
    lemma_listed(state, Modes::AllBut(ShutdownMode::Cooperative), key);
}

/// A child that is to be removed is asked to stop and given its grace period. A
/// removal that begins to wait at `now` neither aborts the child nor gives up on it
/// before the period is over, as long as the supervisor runs and the child has not
/// ended. After that the child is aborted, or if it is only ever asked to stop, given
/// up with an error. A child that is to be aborted at once is.
pub proof fn removals_grant_the_grace_period(
    key: usize,
    policy: ShutdownPolicy,
    begun: RemovalRun,
    first: RemovalStep,
    state: Core,
    now: Duration,
    waiting: RemovalRun,
    step: RemovalStep,
    between: Core,
    later_state: Core,
    at: Duration,
    after: RemovalRun,
    next: RemovalStep,
    left: Core,
)
    requires
        removal_begins(key, policy, begun, first),
        state.state is Running,
        state.is_leaving(key),
        removal_advances(state, begun, now, waiting, step, between),
        now@ + policy.grace@ <= MAX_NANOS,
        later_state.state is Running,
        later_state.is_leaving(key),
        removal_advances(later_state, waiting, at, after, next, left),
    ensures
        first == RemovalStep::Ask(key),
        between == state,
        policy.mode is Abort ==> step == RemovalStep::Abort(key) && (next
            matches RemovalStep::Done(Ok(_))),
        !(policy.mode is Abort) ==> (step matches RemovalStep::AwaitExit(until) && until@ == now@
            + policy.grace@),
        !(policy.mode is Abort) && at@ < now@ + policy.grace@ ==> next == step && after == waiting
            && left == later_state,
        policy.mode is CooperativeThenAbort && at@ >= now@ + policy.grace@ ==> next
            == RemovalStep::Abort(key) && left == later_state,
        policy.mode is Cooperative && at@ >= now@ + policy.grace@ ==> (next matches RemovalStep::Done(
            Err(ControlError::ShutdownTimedOut(id)),
        ) && id == later_state.entries[key].id),
{
}

/// The first restart waits for the base of an exponential backoff, and every further
/// one within the window for the configured factor times as long as the one before,
/// but none for longer than the bound.
pub proof fn each_attempt_multiplies_the_delay(
    base: Duration,
    factor: u32,
    max: Duration,
    attempt: nat,
    random: u128,
)
    ensures
        ({
            let backoff = BackoffPolicy::Exponential { base, factor, max };
            let one = backoff.spread_delay(attempt, random);
            let next = backoff.spread_delay(attempt + 1, random);
            &&& backoff.spread_delay(0, random) == if base@ <= max@ {
                base@
            } else {
                max@
            }
            &&& next == if factor * one <= max@ {
                factor * one
            } else {
                max@
            }
        }),
{
    let f = factor as int;
    let p = vstd::arithmetic::power::pow(f, attempt);
    vstd::arithmetic::power::lemma_pow0(f);
    Duration::view_is_not_negative(base);
    Duration::view_is_not_negative(max);
    lemma_power_step(base@, f, attempt);
    let grown = base@ * p;
    assert(f >= 1 ==> f * max@ >= max@) by (nonlinear_arith)
        requires
            max@ >= 0,
    ;
    assert(f * grown == grown * f) by (nonlinear_arith);
    if f == 0 {
        assert(f * grown == 0) by (nonlinear_arith)
            requires
                f == 0,
        ;
        assert(f * max@ == 0) by (nonlinear_arith)
            requires
                f == 0,
        ;
    }
}

/// A jittered backoff takes its progression from the plain one, and each delay falls
/// between half of the plain one and all of it. There is no point in between that it
/// cannot fall on. The others do not depend on chance: a fixed delay is always the
/// same, and an immediate restart does not wait.
pub proof fn jitter_spreads_the_upper_half(
    base: Duration,
    factor: u32,
    max: Duration,
    attempt: nat,
    random: u128,
    other: u128,
    delay: Duration,
    point: int,
)
    requires
        0 <= point <= u128::MAX,
    ensures
        ({
            let plain = BackoffPolicy::Exponential { base, factor, max }.spread_delay(
                attempt,
                random,
            );
            let jittered = BackoffPolicy::JitteredExponential { base, factor, max };
            let half = plain / 2;
            &&& plain == BackoffPolicy::Exponential { base, factor, max }.spread_delay(attempt, other)
            &&& half <= jittered.spread_delay(attempt, random) <= plain
            &&& half <= half + point <= plain ==> jittered.spread_delay(attempt, point as u128)
                == half + point
        }),
        BackoffPolicy::Fixed(delay).spread_delay(attempt, random) == delay@,
        BackoffPolicy::Immediate.spread_delay(attempt, random) == 0,
{
    let plain = BackoffPolicy::Exponential { base, factor, max }.delay(attempt);
    Duration::view_is_not_negative(base);
    Duration::view_is_not_negative(max);
    lemma_power_step(base@, factor as int, attempt);
    assert(plain >= 0);
    jitter_covers_the_upper_half(plain, random as int, plain / 2);
    if plain / 2 + point <= plain {
        jitter_covers_the_upper_half(plain, random as int, plain / 2 + point);
    }
}

} // verus!
