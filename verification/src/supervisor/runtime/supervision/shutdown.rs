//! Stopping children.

use vstd::prelude::*;

use crate::supervisor::error::{SupervisorError, SupervisorExit};
use crate::supervisor::event::SupervisorEvent;
use crate::supervisor::runtime::child_runtime::{MembershipState, RuntimeChildState};
use crate::supervisor::runtime::model::{
    keys_are_listed_one_way, keys_in_order, running_slots, Core, SupervisorState,
};
use crate::supervisor::runtime::slots;
use crate::supervisor::runtime::supervision::{announced, SupervisorRuntime};
use crate::supervisor::shutdown::ShutdownMode;
use crate::text::{join, joined, texts};
use crate::time::{later, Duration};
use crate::token::is_told;

verus! {

/// Why the children are being stopped.
#[derive(Clone, Copy, Debug, PartialEq, Eq, Structural)]
pub enum DrainReason {
    /// The supervisor shuts down.
    Shutdown,
    /// All children are about to be restarted.
    GroupRestart,
}

/// The label under which a drain is reported.
pub fn shutdown_operation(reason: DrainReason) -> (r: &'static str)
    ensures
        r@ == match reason {
            DrainReason::Shutdown => "shutdown"@,
            DrainReason::GroupRestart => "group_restart"@,
        },
{
    match reason {
        DrainReason::Shutdown => "shutdown",
        DrainReason::GroupRestart => "group_restart",
    }
}

/// Some of the shutdown modes.
#[derive(Clone, Copy, Debug, PartialEq, Eq, Structural)]
pub enum Modes {
    /// All of them.
    All,
    /// One of them.
    Only(ShutdownMode),
    /// All but one.
    AllBut(ShutdownMode),
}

impl Modes {
    /// Whether a mode is among them.
    pub open spec fn holds(self, mode: ShutdownMode) -> bool {
        match self {
            Modes::All => true,
            Modes::Only(one) => mode == one,
            Modes::AllBut(one) => mode != one,
        }
    }

    /// Whether a mode is among them.
    pub fn contains(self, mode: ShutdownMode) -> (r: bool)
        ensures
            r == self.holds(mode),
    {
        match self {
            Modes::All => true,
            Modes::Only(one) => mode == one,
            Modes::AllBut(one) => mode != one,
        }
    }
}

impl Core {
    /// Whether the child under `key` may have a task that its supervisor still
    /// answers for, and is to be stopped in one of the given modes.
    pub open spec fn engages(self, modes: Modes, key: usize) -> bool {
        &&& self.entries[key].engaged()
        &&& modes.holds(self.entries[key].runtime.spec.shutdown_policy.mode)
    }

    /// The slots of the engaged children of some shutdown modes, in the order of
    /// the slots.
    pub open spec fn engaged(self, modes: Modes) -> Seq<usize> {
        keys_in_order(self.entries).filter(|key: usize| self.engages(modes, key))
    }

    /// The state of a supervisor that has ended.
    pub open spec fn ended(self, exit: SupervisorExit) -> Core {
        Core { state: SupervisorState::Stopped, last_exit: Some(exit), ..self }
    }

    /// The ids of the children in some slots.
    pub open spec fn ids_of(self, keys: Seq<usize>) -> Seq<Seq<char>> {
        keys.map_values(|key: usize| self.entries[key].id@)
    }

    /// The ids of the engaged children of some shutdown modes, as a list.
    pub open spec fn engaged_names(self, modes: Modes) -> Seq<char> {
        joined(self.ids_of(self.engaged(modes)), ", "@)
    }

    /// Whether `grace` is the longest grace period of an engaged child that is
    /// given one.
    pub open spec fn longest_grace(self, grace: Option<Duration>) -> bool {
        let waits = |key: usize|
            self.entries.contains_key(key) && self.entries[key].engaged()
                && !(self.entries[key].runtime.spec.shutdown_policy.mode is Abort);
        match grace {
            None => forall|key: usize| !#[trigger] waits(key),
            Some(grace) => {
                &&& exists|key: usize| #[trigger]
                    waits(key) && self.entries[key].runtime.spec.shutdown_policy.grace == grace
                &&& forall|key: usize| #[trigger]
                    waits(key) ==> self.entries[key].runtime.spec.shutdown_policy.grace@ <= grace@
            },
        }
    }
}

/// How far a drain has got.
#[derive(Debug)]
pub enum DrainStage {
    /// Children that are to be aborted at once have been, the others wait for
    /// up to `grace`.
    Aborting { grace: Option<Duration> },
    /// Children have until `deadline` to stop by themselves.
    Waiting { deadline: Duration },
    /// All that were left have been aborted, but for those that are only ever
    /// asked: `timed_out` are the ids of these.
    Forcing { timed_out: String },
}

/// A drain in progress.
#[derive(Debug)]
pub struct Drain {
    /// What it is for.
    pub reason: DrainReason,
    /// How far it has got.
    pub stage: DrainStage,
}

/// What a drain needs next.
#[derive(Debug)]
pub enum DrainStep {
    /// Abort the tasks in these slots, report the tasks that have ended, then
    /// go on.
    Abort(Vec<usize>),
    /// Wait for a task to end, but not past the deadline, then go on.
    AwaitExit(Duration),
    /// The drain is over.
    Done(Result<(), SupervisorError>),
}

/// What a drain comes to when `timed_out` should have stopped by themselves and
/// `remaining` have not stopped at all: children that ignored their grace period
/// are an error; tasks that linger after an abort are one only if they stand in
/// the way of a restart.
pub open spec fn concludes(
    reason: DrainReason,
    timed_out: Seq<char>,
    remaining: Seq<char>,
    result: Result<(), SupervisorError>,
) -> bool {
    if timed_out.len() > 0 {
        result matches Err(SupervisorError::ShutdownTimedOut(names)) && names@ == timed_out
    } else if remaining.len() > 0 && reason is GroupRestart {
        result matches Err(SupervisorError::ShutdownTimedOut(names)) && names@ == remaining
    } else {
        result is Ok
    }
}

/// Whether `(drain, step)` is how a drain begins: those that are to be aborted at
/// once come first, the others have as long as the longest grace period among them.
pub open spec fn drain_begins(
    state: Core,
    reason: DrainReason,
    drain: Drain,
    step: DrainStep,
) -> bool {
    &&& drain.reason == reason
    &&& drain.stage matches DrainStage::Aborting { grace } && state.longest_grace(grace)
    &&& step matches DrainStep::Abort(keys) && keys@ == state.engaged(
        Modes::Only(ShutdownMode::Abort),
    )
}

/// Whether `(after, step)` is what a drain does once the grace period is over.
pub open spec fn forces(
    state: Core,
    reason: DrainReason,
    after: Drain,
    step: DrainStep,
) -> bool {
    let timed_out = state.engaged_names(Modes::Only(ShutdownMode::Cooperative));
    let remaining = state.engaged_names(Modes::All);
    if remaining.len() > 0 {
        &&& step matches DrainStep::Abort(keys) && keys@ == state.engaged(
            Modes::AllBut(ShutdownMode::Cooperative),
        )
        &&& after.reason == reason
        &&& after.stage matches DrainStage::Forcing { timed_out: names } && names@ == timed_out
    } else {
        step matches DrainStep::Done(result) && concludes(reason, timed_out, remaining, result)
    }
}

/// Whether `(after, step)` is how a drain goes on from `before` at `now`.
pub open spec fn drain_advances(
    state: Core,
    before: Drain,
    now: Duration,
    after: Drain,
    step: DrainStep,
) -> bool {
    match before.stage {
        DrainStage::Aborting { grace } => if state.live == 0 {
            step matches DrainStep::Done(Ok(()))
        } else {
            match grace {
                Some(grace) => {
                    &&& after.reason == before.reason
                    &&& after.stage matches DrainStage::Waiting { deadline }
                    &&& deadline@ == later(now, grace)
                    &&& step matches DrainStep::AwaitExit(until) && until == deadline
                },
                None => forces(state, before.reason, after, step),
            }
        },
        DrainStage::Waiting { deadline } => if state.live == 0 || now@ >= deadline@ {
            forces(state, before.reason, after, step)
        } else {
            after == before && step == DrainStep::AwaitExit(deadline)
        },
        DrainStage::Forcing { timed_out } => step matches DrainStep::Done(result) && concludes(
            before.reason,
            timed_out@,
            state.engaged_names(Modes::All),
            result,
        ),
    }
}

impl SupervisorRuntime {
    /// Asks every child that counts as running to stop, youngest first: they are
    /// marked, and the token from which theirs derive is cancelled.
    pub fn cancel_running_children(&mut self)
        requires
            old(self).state().wf(),
        ensures
            final(self).state() == old(self).state().cancelled(),
            final(self).state().wf(),
            final(self).group() == old(self).group(),
            is_told(old(self).group()),
            final(self).path() == old(self).path(),
            final(self).unsent() == old(self).unsent(),
    {
        let ghost before = self.state();
        let ghost target = before.cancelled().entries;
        let mut cancelled: usize = 0;
        let mut i: usize = self.child_order.len();
        proof {
            before.order.unique_seq_to_set();
        }
        while i > 0
            invariant
                i <= self.child_order.len(),
                before.wf(),
                before.entries.dom().finite(),
                target == before.cancelled().entries,
                self.state() == (Core { entries: self.state().entries, ..before }),
                self.group() == old(self).group(),
                self.path() == old(self).path(),
                self.unsent() == old(self).unsent(),
                self.state().entries.dom() == before.entries.dom(),
                forall|j: int|
                    i <= j < before.order.len() ==> self.state().entries[#[trigger] before.order[j]]
                        == target[before.order[j]],
                forall|j: int|
                    0 <= j < i ==> self.state().entries[#[trigger] before.order[j]]
                        == before.entries[before.order[j]],
                cancelled + running_slots(self.state().entries).len() == before.running,
            decreases i,
        {
            i = i - 1;
            let key: usize = self.child_order[i];
            let ghost current = self.state().entries;
            proof {
                assert(before.order[i as int] == key);
                assert(before.order.to_set().contains(key));
            }
            let mut stopped = false;
            match slots::entry_mut(&mut self.children, key) {
                Some(entry) => {
                    if entry.runtime.state.is_counted() {
                        entry.runtime.state = RuntimeChildState::Stopping;
                        stopped = true;
                    }
                },
                None => {},
            }
            proof {
                let after = self.state().entries;
                assert(after.dom() =~= before.entries.dom());
                if stopped {
                    assert(running_slots(after) =~= running_slots(current).remove(key));
                    assert(running_slots(current).contains(key));
                } else {
                    assert(after =~= current);
                }
            }
            if stopped {
                cancelled = cancelled + 1;
            }
        }
        proof {
            assert(self.state().entries =~= target) by {
                assert forall|key: usize| #[trigger] target.contains_key(key) implies self.state().entries[key]
                    == target[key] by {
                    assert(before.order.to_set().contains(key));
                    let j = before.order.index_of(key);
                    assert(before.order[j] == key);
                }
            }
            before.cancelled_is_wf();
        }
        self.running_children = self.running_children - cancelled;
        self.group_token.cancel();
        assert(self.state() =~= before.cancelled());
    }

    /// Begins to shut down: every child is asked to stop.
    pub fn begin_shutdown(&mut self, now: Duration)
        requires
            old(self).state().wf(),
        ensures
            final(self).state() == (Core {
                state: SupervisorState::Stopping,
                ..old(self).state().cancelled()
            }),
            final(self).state().wf(),
            final(self).group() == old(self).group(),
            is_told(old(self).group()),
            final(self).path() == old(self).path(),
            announced(
                old(self).unsent(),
                final(self).unsent(),
                final(self).state(),
                now,
                SupervisorEvent::SupervisorStopping,
            ),
    {
        self.state = SupervisorState::Stopping;
        proof {
            old(self).state().wf_goes_by_children(self.state());
        }
        self.cancel_running_children();
        assert(self.state() =~= (Core {
            state: SupervisorState::Stopping,
            ..old(self).state().cancelled()
        }));
        self.send_event(now, SupervisorEvent::SupervisorStopping);
    }

    /// Ends the supervisor's life.
    pub fn finish_with_exit(&mut self, exit: SupervisorExit, now: Duration)
        requires
            old(self).state().wf(),
        ensures
            final(self).state() == old(self).state().ended(exit),
            final(self).state().wf(),
            final(self).group() == old(self).group(),
            final(self).path() == old(self).path(),
            announced(
                old(self).unsent(),
                final(self).unsent(),
                final(self).state(),
                now,
                SupervisorEvent::SupervisorStopped,
            ),
    {
        self.state = SupervisorState::Stopped;
        self.last_exit = Some(exit);
        proof {
            old(self).state().wf_goes_by_children(self.state());
        }
        self.send_event(now, SupervisorEvent::SupervisorStopped);
    }

    /// The slots of the engaged children of some shutdown modes.
    fn engaged_children(&self, modes: Modes) -> (r: Vec<usize>)
        requires
            self.state().wf(),
        ensures
            r@ == self.state().engaged(modes),
            forall|i: int| 0 <= i < r@.len() ==> self.state().entries.contains_key(#[trigger] r@[i]),
    {
        let ghost state = self.state();
        let ghost chosen = |key: usize| state.engages(modes, key);
        let keys = slots::occupied_keys(&self.children);
        proof {
            keys_are_listed_one_way(keys@, state.entries);
            reveal(Seq::filter);
        }
        let mut r: Vec<usize> = Vec::new();
        let mut i: usize = 0;
        while i < keys.len()
            invariant
                i <= keys.len(),
                state == self.state(),
                keys@.to_set() == state.entries.dom(),
                chosen == (|key: usize| state.engages(modes, key)),
                r@ == keys@.take(i as int).filter(chosen),
                forall|j: int| 0 <= j < r@.len() ==> state.entries.contains_key(#[trigger] r@[j]),
            decreases keys.len() - i,
        {
            let key: usize = keys[i];
            proof {
                reveal(Seq::filter);
                let taken = keys@.take(i as int + 1);
                assert(taken.drop_last() =~= keys@.take(i as int));
                assert(taken.last() == key);
                assert(keys@.to_set().contains(key));
            }
            match slots::entry(&self.children, key) {
                Some(entry) => {
                    if entry.membership != MembershipState::Removed
                        && entry.runtime.state.is_active() && modes.contains(
                        entry.runtime.spec.shutdown_policy.mode,
                    ) {
                        r.push(key);
                    }
                },
                None => {},
            }
            i = i + 1;
        }
        assert(keys@.take(i as int) =~= keys@);
        assert(state.engaged(modes) == keys@.filter(chosen));
        r
    }

    /// The ids of the children in some slots, as a list.
    fn child_names(&self, keys: &Vec<usize>) -> (r: String)
        requires
            forall|i: int| 0 <= i < keys@.len() ==> self.state().entries.contains_key(
                #[trigger] keys@[i],
            ),
        ensures
            r@ == joined(self.state().ids_of(keys@), ", "@),
    {
        let ghost state = self.state();
        let mut names: Vec<String> = Vec::new();
        let mut i: usize = 0;
        while i < keys.len()
            invariant
                i <= keys.len(),
                state == self.state(),
                forall|j: int| 0 <= j < keys@.len() ==> state.entries.contains_key(
                    #[trigger] keys@[j],
                ),
                texts(names@) == state.ids_of(keys@.take(i as int)),
            decreases keys.len() - i,
        {
            let ghost listed = names@;
            match slots::entry(&self.children, keys[i]) {
                Some(entry) => {
                    names.push(entry.id.clone());
                    assert(texts(names@) =~= texts(listed).push(entry.id@));
                },
                None => {},
            }
            assert(state.ids_of(keys@.take(i as int + 1)) =~= state.ids_of(keys@.take(i as int)).push(
                state.entries[keys@[i as int]].id@,
            ));
            i = i + 1;
        }
        assert(keys@.take(i as int) =~= keys@);
        join(&names, ", ")
    }

    /// The ids of the engaged children of some shutdown modes, as a list.
    fn engaged_child_names(&self, modes: Modes) -> (r: String)
        requires
            self.state().wf(),
        ensures
            r@ == self.state().engaged_names(modes),
    {
        let keys = self.engaged_children(modes);
        self.child_names(&keys)
    }

    /// The longest grace period of an engaged child that is given one.
    fn max_grace(&self) -> (r: Option<Duration>)
        requires
            self.state().wf(),
        ensures
            self.state().longest_grace(r),
    {
        let ghost state = self.state();
        let ghost waits = |key: usize|
            state.entries.contains_key(key) && state.entries[key].engaged()
                && !(state.entries[key].runtime.spec.shutdown_policy.mode is Abort);
        let keys = slots::occupied_keys(&self.children);
        let mut r: Option<Duration> = None;
        let mut i: usize = 0;
        while i < keys.len()
            invariant
                i <= keys.len(),
                state == self.state(),
                keys@.to_set() == state.entries.dom(),
                waits == (|key: usize|
                    state.entries.contains_key(key) && state.entries[key].engaged()
                        && !(state.entries[key].runtime.spec.shutdown_policy.mode is Abort)),
                match r {
                    None => forall|j: int| 0 <= j < i ==> !waits(#[trigger] keys@[j]),
                    Some(grace) => {
                        &&& exists|key: usize| #[trigger]
                            waits(key) && state.entries[key].runtime.spec.shutdown_policy.grace
                                == grace
                        &&& forall|j: int|
                            0 <= j < i && waits(#[trigger] keys@[j])
                                ==> state.entries[keys@[j]].runtime.spec.shutdown_policy.grace@
                                <= grace@
                    },
                },
            decreases keys.len() - i,
        {
            let key: usize = keys[i];
            proof {
                assert(keys@.to_set().contains(key));
            }
            match slots::entry(&self.children, key) {
                Some(entry) => {
                    if entry.membership != MembershipState::Removed
                        && entry.runtime.state.is_active() {
                        let grace = entry.runtime.spec.shutdown_policy.grace;
                        match entry.runtime.spec.shutdown_policy.mode {
                            ShutdownMode::Abort => {
                                assert(!waits(key));
                            },
                            _ => {
                                assert(waits(key));
                                r = match r {
                                    Some(current) => Some(current.max(grace)),
                                    None => Some(grace),
                                };
                            },
                        }
                    } else {
                        assert(!waits(key));
                    }
                },
                None => {},
            }
            i = i + 1;
        }
        proof {
            assert forall|key: usize| #[trigger] waits(key) implies keys@.contains(key) by {
                assert(keys@.to_set().contains(key));
            }
            match r {
                None => {
                    assert forall|key: usize| !#[trigger] waits(key) by {
                        if waits(key) {
                            let j = keys@.index_of(key);
                            assert(!waits(keys@[j]));
                        }
                    }
                },
                Some(grace) => {
                    assert forall|key: usize| #[trigger] waits(key) implies state.entries[key].runtime.spec.shutdown_policy.grace@
                        <= grace@ by {
                        let j = keys@.index_of(key);
                        assert(keys@[j] == key);
                    }
                },
            }
        }
        r
    }

    /// Begins to wait for the children to stop. Those that are to be aborted at
    /// once come first; for the others there is one deadline, given by the
    /// longest grace period among them.
    pub fn begin_drain(&self, reason: DrainReason) -> (r: (Drain, DrainStep))
        requires
            self.state().wf(),
        ensures
            drain_begins(self.state(), reason, r.0, r.1),
    {
        let (drain, keys) = self.first_aborts(reason);
        (drain, DrainStep::Abort(keys))
    }

    /// A drain at its beginning, and the slots of the children that are to be
    /// aborted at once.
    pub(super) fn first_aborts(&self, reason: DrainReason) -> (r: (Drain, Vec<usize>))
        requires
            self.state().wf(),
        ensures
            r.0.reason == reason,
            r.0.stage matches DrainStage::Aborting { grace } && self.state().longest_grace(grace),
            r.1@ == self.state().engaged(Modes::Only(ShutdownMode::Abort)),
    {
        let grace = self.max_grace();
        let keys = self.engaged_children(Modes::Only(ShutdownMode::Abort));
        (Drain { reason, stage: DrainStage::Aborting { grace } }, keys)
    }

    fn conclude(&self, reason: DrainReason, timed_out: String) -> (r: Result<(), SupervisorError>)
        requires
            self.state().wf(),
        ensures
            concludes(reason, timed_out@, self.state().engaged_names(Modes::All), r),
    {
        let remaining = self.engaged_child_names(Modes::All);
        if !timed_out.as_str().is_empty() {
            return Err(SupervisorError::ShutdownTimedOut(timed_out));
        }
        if !remaining.as_str().is_empty() {
            return match reason {
                DrainReason::Shutdown => Ok(()),
                DrainReason::GroupRestart => Err(SupervisorError::ShutdownTimedOut(remaining)),
            };
        }
        Ok(())
    }

    fn force(&self, reason: DrainReason) -> (r: (Drain, DrainStep))
        requires
            self.state().wf(),
        ensures
            forces(self.state(), reason, r.0, r.1),
    {
        let timed_out = self.engaged_child_names(Modes::Only(ShutdownMode::Cooperative));
        let remaining = self.engaged_child_names(Modes::All);
        if !remaining.as_str().is_empty() {
            let keys = self.engaged_children(Modes::AllBut(ShutdownMode::Cooperative));
            return (
                Drain { reason, stage: DrainStage::Forcing { timed_out } },
                DrainStep::Abort(keys),
            );
        }
        let result = self.conclude(reason, timed_out);
        (
            Drain { reason, stage: DrainStage::Forcing { timed_out: String::new() } },
            DrainStep::Done(result),
        )
    }

    /// Goes on with a drain, after what the last step asked for has been done
    /// and the tasks that have ended have been reported.
    pub fn advance_drain(&self, drain: Drain, now: Duration) -> (r: (Drain, DrainStep))
        requires
            self.state().wf(),
        ensures
            drain_advances(self.state(), drain, now, r.0, r.1),
    {
        let reason = drain.reason;
        match drain.stage {
            DrainStage::Aborting { grace } => {
                if self.live_tasks == 0 {
                    return (
                        Drain { reason, stage: DrainStage::Aborting { grace } },
                        DrainStep::Done(Ok(())),
                    );
                }
                match grace {
                    Some(grace) => {
                        let deadline = now.saturating_add(grace);
                        (
                            Drain { reason, stage: DrainStage::Waiting { deadline } },
                            DrainStep::AwaitExit(deadline),
                        )
                    },
                    None => self.force(reason),
                }
            },
            DrainStage::Waiting { deadline } => {
                if self.live_tasks == 0 || !now.is_shorter_than(deadline) {
                    self.force(reason)
                } else {
                    (
                        Drain { reason, stage: DrainStage::Waiting { deadline } },
                        DrainStep::AwaitExit(deadline),
                    )
                }
            },
            DrainStage::Forcing { timed_out } => {
                let result = self.conclude(reason, timed_out);
                (
                    Drain { reason, stage: DrainStage::Forcing { timed_out: String::new() } },
                    DrainStep::Done(result),
                )
            },
        }
    }
}

} // verus!
