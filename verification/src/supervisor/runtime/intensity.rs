//! How often, and after what delay, a child may be restarted.

use vstd::arithmetic::power::pow;
use vstd::prelude::*;

use crate::supervisor::restart::{BackoffPolicy, RestartIntensity};
use crate::time::{Duration, MAX_NANOS};

verus! {

/// Whether a restart at `time` lies in the window of length `within` that ends
/// at `now`.
pub open spec fn in_window(time: Duration, now: Duration, within: Duration) -> bool {
    now@ - time@ <= within@
}

/// The restarts in the window that ends at `now`.
pub open spec fn recent(times: Seq<Duration>, now: Duration, within: Duration) -> Seq<Duration> {
    times.filter(|time: Duration| in_window(time, now, within))
}

/// `base * factor^attempt`, but no more than `max`.
pub open spec fn exponential_delay(base: int, factor: int, max: int, attempt: nat) -> int {
    let delay = base * pow(factor, attempt);
    if delay <= max {
        delay
    } else {
        max
    }
}

/// A point in the upper half of a delay, picked by `random`: each point is picked
/// by as many values of `random` as any other, but for the remainder.
pub open spec fn spread(delay: int, random: int) -> int {
    delay / 2 + random % (delay - delay / 2 + 1)
}

impl BackoffPolicy {
    /// The delay before a restart, when `attempt` restarts lie in the window
    /// already, before any jitter.
    pub open spec fn delay(self, attempt: nat) -> int {
        match self {
            BackoffPolicy::Immediate => 0,
            BackoffPolicy::Fixed(delay) => delay@,
            BackoffPolicy::Exponential { base, factor, max } => exponential_delay(
                base@,
                factor as int,
                max@,
                attempt,
            ),
            BackoffPolicy::JitteredExponential { base, factor, max } => exponential_delay(
                base@,
                factor as int,
                max@,
                attempt,
            ),
        }
    }

    /// The delay before a restart, with the jitter that `random` makes of it.
    pub open spec fn spread_delay(self, attempt: nat, random: u128) -> int {
        if self is JitteredExponential {
            spread(self.delay(attempt), random as int)
        } else {
            self.delay(attempt)
        }
    }

    /// The delay before a restart, when `attempt` restarts lie in the window
    /// already. `random` decides where in its upper half a jittered delay falls.
    pub fn restart_delay(self, attempt: usize, random: u128) -> (r: Duration)
        ensures
            r@ == self.spread_delay(attempt as nat, random),
    {
        match self {
            BackoffPolicy::Immediate => Duration::zero(),
            BackoffPolicy::Fixed(delay) => delay,
            BackoffPolicy::Exponential { base, factor, max } => grown(base, factor, max, attempt),
            BackoffPolicy::JitteredExponential { base, factor, max } => jittered(
                grown(base, factor, max, attempt),
                random,
            ),
        }
    }
}

/// A jittered delay stays between half of the delay and all of it, and there is
/// no point in between that it cannot be.
pub proof fn jitter_covers_the_upper_half(delay: int, random: int, point: int)
    requires
        0 <= delay,
        0 <= random,
        delay / 2 <= point <= delay,
    ensures
        delay / 2 <= spread(delay, random) <= delay,
        spread(delay, point - delay / 2) == point,
{
    let width = delay - delay / 2 + 1;
    assert(0 <= random % width < width) by (nonlinear_arith)
        requires
            width > 0,
    ;
    let offset = point - delay / 2;
    assert(offset % width == offset) by (nonlinear_arith)
        requires
            0 <= offset < width,
    ;
}

/// Without restarts in the window the delay is `base`, unless that is over the
/// bound.
pub proof fn first_restart_waits_base(base: int, factor: int, max: int)
    requires
        base <= max,
    ensures
        exponential_delay(base, factor, max, 0) == base,
{
    vstd::arithmetic::power::lemma_pow0(factor);
}

/// An exponential delay never exceeds its bound and, with a factor of at least
/// one, never shrinks from one attempt to the next.
pub proof fn exponential_delay_grows(base: int, factor: int, max: int, attempt: nat)
    requires
        base >= 0,
        factor >= 1,
    ensures
        exponential_delay(base, factor, max, attempt) <= max,
        exponential_delay(base, factor, max, attempt) <= exponential_delay(
            base,
            factor,
            max,
            attempt + 1,
        ),
{
    lemma_power_step(base, factor, attempt);
}

/// One more attempt multiplies by the factor.
pub proof fn lemma_power_step(base: int, factor: int, attempt: nat)
    requires
        base >= 0,
        factor >= 0,
    ensures
        base * pow(factor, attempt + 1) == (base * pow(factor, attempt)) * factor,
        pow(factor, attempt) >= 0,
        base * pow(factor, attempt) >= 0,
        factor >= 1 ==> base * pow(factor, attempt) <= base * pow(factor, attempt + 1),
    decreases attempt,
{
    reveal(pow);
    let p = pow(factor, attempt);
    if attempt > 0 {
        lemma_power_step(base, factor, (attempt - 1) as nat);
        let q = pow(factor, (attempt - 1) as nat);
        assert(p == factor * q);
        assert(factor * q >= 0) by (nonlinear_arith)
            requires
                factor >= 0,
                q >= 0,
        ;
    }
    assert(pow(factor, attempt + 1) == factor * p);
    assert(base * (factor * p) == (base * p) * factor) by (nonlinear_arith);
    assert(base * p >= 0) by (nonlinear_arith)
        requires
            base >= 0,
            p >= 0,
    ;
    let grown = base * p;
    assert(factor >= 1 ==> grown <= grown * factor) by (nonlinear_arith)
        requires
            grown >= 0,
    ;
}

/// Once over the bound, an exponential delay stays over it.
proof fn lemma_stays_over(base: int, factor: int, max: int, from: nat, to: nat)
    requires
        base >= 0,
        factor >= 1,
        from <= to,
        base * pow(factor, from) > max,
    ensures
        base * pow(factor, to) > max,
    decreases to,
{
    if from < to {
        lemma_stays_over(base, factor, max, from, (to - 1) as nat);
        lemma_power_step(base, factor, (to - 1) as nat);
    }
}

fn grown(base: Duration, factor: u32, max: Duration, attempt: usize) -> (r: Duration)
    ensures
        r@ == exponential_delay(base@, factor as int, max@, attempt as nat),
{
    let bound: u128 = max.as_nanos();
    let mut delay: u128 = base.as_nanos();
    let mut done: usize = 0;
    proof {
        vstd::arithmetic::power::lemma_pow0(factor as int);
    }
    if factor == 0 {
        proof {
            if attempt > 0 {
                lemma_power_step(base@, 0, (attempt - 1) as nat);
            }
        }
        return if attempt == 0 && delay <= bound {
            base
        } else if attempt == 0 {
            max
        } else {
            Duration::zero()
        };
    }
    while done < attempt
        invariant
            done <= attempt,
            factor >= 1,
            delay == base@ * pow(factor as int, done as nat),
            0 <= base@,
            0 <= delay <= MAX_NANOS,
            bound == max@,
            0 <= max@ <= MAX_NANOS,
        decreases attempt - done,
    {
        if delay > bound {
            proof {
                lemma_stays_over(base@, factor as int, max@, done as nat, attempt as nat);
            }
            return max;
        }
        proof {
            lemma_power_step(base@, factor as int, done as nat);
            assert(delay * factor <= MAX_NANOS * 0xffff_ffff) by (nonlinear_arith)
                requires
                    0 <= delay <= MAX_NANOS,
                    0 <= factor <= 0xffff_ffff,
            ;
        }
        let next: u128 = delay * (factor as u128);
        if next > bound {
            proof {
                lemma_stays_over(base@, factor as int, max@, done as nat + 1, attempt as nat);
            }
            return max;
        }
        delay = next;
        done = done + 1;
    }
    if delay > bound {
        return max;
    }
    Duration::from_nanos(delay)
}

/// Spreads a delay over its upper half.
fn jittered(delay: Duration, random: u128) -> (r: Duration)
    ensures
        r@ == spread(delay@, random as int),
{
    let nanos: u128 = delay.as_nanos();
    let half: u128 = nanos / 2;
    let width: u128 = nanos - half;
    let offset: u128 = random % (width + 1);
    Duration::from_nanos(half + offset)
}

/// Record of a child's recent restarts.
#[derive(Debug)]
pub struct RestartTracker {
    intensity: RestartIntensity,
    times: Vec<Duration>,
}

impl RestartTracker {
    /// The limit that it watches.
    pub closed spec fn limit(&self) -> RestartIntensity {
        self.intensity
    }

    /// When the recent restarts took place.
    pub closed spec fn restarts(&self) -> Seq<Duration> {
        self.times@
    }

    /// A tracker without restarts.
    pub fn new(intensity: RestartIntensity) -> (r: Self)
        ensures
            r.limit() == intensity,
            r.restarts() == Seq::<Duration>::empty(),
    {
        RestartTracker { intensity, times: Vec::new() }
    }

    /// Records a restart at `now`. Returns the delay before it, or nothing if
    /// that makes more restarts within the window than the limit allows.
    pub fn record(&mut self, now: Duration, random: u128) -> (r: Option<Duration>)
        ensures
            final(self).limit() == old(self).limit(),
            ({
                let window = recent(old(self).restarts(), now, old(self).limit().within);
                let backoff = old(self).limit().backoff;
                &&& final(self).restarts() == window.push(now)
                &&& r is Some <==> window.len() + 1 <= old(self).limit().max_restarts
                &&& r matches Some(delay) ==> delay@ == backoff.spread_delay(window.len(), random)
            }),
    {
        let ghost before = self.times@;
        let within = self.intensity.within;
        let mut kept: Vec<Duration> = Vec::new();
        let mut i: usize = 0;
        proof {
            reveal(Seq::filter);
        }
        while i < self.times.len()
            invariant
                i <= self.times.len(),
                self.times@ == before,
                kept@ == recent(before.take(i as int), now, within),
            decreases self.times.len() - i,
        {
            let time = self.times[i];
            proof {
                reveal(Seq::filter);
                Duration::view_is_not_negative(within);
                let taken = before.take(i as int + 1);
                assert(taken.drop_last() =~= before.take(i as int));
                assert(taken.last() == time);
            }
            if !within.is_shorter_than(now.saturating_sub(time)) {
                kept.push(time);
            }
            i = i + 1;
        }
        assert(before.take(i as int) =~= before);
        let attempt: usize = kept.len();
        kept.push(now);
        self.times = kept;
        if attempt < self.intensity.max_restarts {
            Some(self.intensity.backoff.restart_delay(attempt, random))
        } else {
            None
        }
    }
}

/// What a tracker holds after recording the restarts of `history` one by one.
pub open spec fn remembered(history: Seq<Duration>, within: Duration) -> Seq<Duration>
    decreases history.len(),
{
    if history.len() == 0 {
        Seq::empty()
    } else {
        recent(remembered(history.drop_last(), within), history.last(), within).push(history.last())
    }
}

/// Whether the times of `history` follow one another.
pub open spec fn in_order(history: Seq<Duration>) -> bool {
    forall|i: int, j: int|
        0 <= i <= j < history.len() ==> (#[trigger] history[i])@ <= (#[trigger] history[j])@
}

/// A tracker forgets nothing that counts: after any number of restarts, one
/// after the other, it holds exactly those that lie in the window that ends with
/// the last one. So a restart is refused exactly when it makes more restarts
/// within the window than the limit allows, of all that ever took place.
pub proof fn tracker_counts_the_window(history: Seq<Duration>, within: Duration)
    requires
        history.len() > 0,
        in_order(history),
    ensures
        remembered(history, within) == recent(history, history.last(), within),
    decreases history.len(),
{
    let before = history.drop_last();
    let now = history.last();
    Duration::view_is_not_negative(within);
    reveal(Seq::filter);
    assert(recent(history, now, within) =~= recent(before, now, within).push(now));
    if before.len() == 0 {
        assert(remembered(before, within) =~= Seq::empty());
        assert(recent(remembered(before, within), now, within) =~= Seq::empty());
        assert(recent(before, now, within) =~= Seq::empty());
    } else {
        let earlier = before.last();
        assert(history[before.len() - 1] == earlier);
        assert(history[history.len() - 1] == now);
        assert(in_order(before)) by {
            assert forall|i: int, j: int| 0 <= i <= j < before.len() implies (#[trigger] before[i])@
                <= (#[trigger] before[j])@ by {
                assert(history[i] == before[i] && history[j] == before[j]);
            }
        }
        tracker_counts_the_window(before, within);
        lemma_recent_of_recent(before, earlier, now, within);
    }
}

/// What was recent earlier and is recent now is what is recent now.
proof fn lemma_recent_of_recent(
    times: Seq<Duration>,
    earlier: Duration,
    now: Duration,
    within: Duration,
)
    requires
        earlier@ <= now@,
    ensures
        recent(recent(times, earlier, within), now, within) == recent(times, now, within),
    decreases times.len(),
{
    reveal(Seq::filter);
    if times.len() == 0 {
        assert(recent(times, earlier, within) =~= times);
    } else {
        let rest = times.drop_last();
        let last = times.last();
        lemma_recent_of_recent(rest, earlier, now, within);
        let inner = recent(rest, earlier, within);
        if in_window(last, earlier, within) {
            assert(recent(times, earlier, within) =~= inner.push(last));
            assert(inner.push(last).drop_last() =~= inner);
        } else {
            assert(recent(times, earlier, within) =~= inner);
        }
    }
}

} // verus!
