//! Ending the blocking work of an actor that is done.

use vstd::prelude::*;

use crate::actor::actor::{ActorResult, BoxError};
use crate::actor::blocking::{
    noted, BlockingRuntime, BlockingTaskEntry, BlockingTaskError, BlockingTaskFailure,
    BlockingTaskId, HandleState, TaskNews,
};
use crate::time::{later, Duration, MAX_NANOS};
use crate::token::is_told;

verus! {

/// What became of the task that was waited for.
#[derive(Debug)]
pub enum FinishEvent {
    /// It has ended with this result, or could not be joined.
    Joined(Option<Result<(), BlockingTaskError>>),
    /// It has not ended in time.
    TimedOut,
}

/// The end of an actor's blocking work, in progress.
#[derive(Debug)]
pub struct BlockingFinish {
    deadline: Duration,
    left: Vec<BlockingTaskEntry>,
    actor_result: ActorResult,
    first_failure: Option<BlockingTaskFailure>,
}

/// What it takes next to end an actor's blocking work.
#[derive(Debug)]
pub enum FinishStep {
    /// Wait for the task to end, but not past the deadline, then go on.
    AwaitTask {
        /// How far it has got.
        finish: BlockingFinish,
        /// The task.
        task: BlockingTaskId,
        /// When to stop waiting.
        deadline: Duration,
    },
    /// The deadline is over: see whether the task has ended, without waiting for
    /// it, then go on.
    CheckTask {
        /// How far it has got.
        finish: BlockingFinish,
        /// The task.
        task: BlockingTaskId,
    },
    /// The actor has this result. Tasks that have not ended are left alone.
    Done(ActorResult),
}

impl BlockingRuntime {
    /// The tasks that are running, oldest first.
    pub open spec fn running_in_order(&self) -> Seq<BlockingTaskEntry> {
        self.order().map_values(|n: nat| self.tasks()[n]).filter(
            |entry: BlockingTaskEntry| entry.running(),
        )
    }
}

/// Whether `found` is the failure that the news of a task amounts to: none if it
/// has not ended in time.
pub open spec fn amounts_to(
    entry: BlockingTaskEntry,
    event: FinishEvent,
    found: Option<BlockingTaskFailure>,
) -> bool {
    match event {
        FinishEvent::Joined(joined) => entry.settles(joined, found),
        FinishEvent::TimedOut => found is None,
    }
}

/// The first of two failures.
pub open spec fn earlier(
    known: Option<BlockingTaskFailure>,
    found: Option<BlockingTaskFailure>,
) -> Option<BlockingTaskFailure> {
    match known {
        Some(failure) => Some(failure),
        None => found,
    }
}

/// Whether `step` is what is to be done at `now` about the tasks that are left:
/// the oldest is waited for until the deadline and no longer, and once none is
/// left, the actor's own error goes before the first failure.
pub open spec fn comes_next(
    left: Seq<BlockingTaskEntry>,
    deadline: int,
    own: ActorResult,
    known: Option<BlockingTaskFailure>,
    now: Duration,
    step: FinishStep,
) -> bool {
    if left.len() == 0 {
        step matches FinishStep::Done(result) && BlockingRuntime::finishes_with(own, known, result)
    } else if now@ < deadline {
        &&& step matches FinishStep::AwaitTask { finish, task, deadline: until }
        &&& finish.stands(left, deadline, own, known)
        &&& task == left[0].task()
        &&& until@ == deadline
    } else {
        &&& step matches FinishStep::CheckTask { finish, task }
        &&& finish.stands(left, deadline, own, known)
        &&& task == left[0].task()
    }
}

impl BlockingFinish {
    /// When waiting stops.
    pub closed spec fn deadline(&self) -> Duration {
        self.deadline
    }

    /// The tasks of which nothing has been heard, oldest first.
    pub closed spec fn left(&self) -> Seq<BlockingTaskEntry> {
        self.left@
    }

    /// What the actor itself returned.
    pub closed spec fn own(&self) -> ActorResult {
        self.actor_result
    }

    /// The first failure of a task so far.
    pub closed spec fn known(&self) -> Option<BlockingTaskFailure> {
        self.first_failure
    }

    /// Whether it has got this far.
    pub open spec fn stands(
        &self,
        left: Seq<BlockingTaskEntry>,
        deadline: int,
        own: ActorResult,
        known: Option<BlockingTaskFailure>,
    ) -> bool {
        self.left() == left && self.deadline()@ == deadline && self.own() == own && self.known()
            == known
    }

    fn next(self, now: Duration) -> (r: FinishStep)
        ensures
            comes_next(self.left(), self.deadline()@, self.own(), self.known(), now, r),
    {
        if self.left.len() == 0 {
            return FinishStep::Done(
                BlockingRuntime::finish(self.actor_result, self.first_failure),
            );
        }
        let task = self.left[0].id();
        let deadline = self.deadline;
        if now.is_shorter_than(deadline) {
            FinishStep::AwaitTask { finish: self, task, deadline }
        } else {
            FinishStep::CheckTask { finish: self, task }
        }
    }

    /// Goes on after the oldest task was waited for.
    pub fn advance(self, event: FinishEvent, now: Duration) -> (r: FinishStep)
        ensures
            if self.left().len() == 0 {
                comes_next(self.left(), self.deadline()@, self.own(), self.known(), now, r)
            } else {
                exists|found: Option<BlockingTaskFailure>| #[trigger]
                    amounts_to(self.left()[0], event, found) && comes_next(
                        self.left().skip(1),
                        self.deadline()@,
                        self.own(),
                        earlier(self.known(), found),
                        now,
                        r,
                    )
            },
    {
        if self.left.len() == 0 {
            return self.next(now);
        }
        let ghost before = self.left@;
        let BlockingFinish { deadline, left, actor_result, first_failure } = self;
        let mut left = left;
        let entry = left.remove(0);
        assert(left@ =~= before.skip(1));
        let found = match event {
            FinishEvent::Joined(joined) => entry.settle(joined),
            FinishEvent::TimedOut => None,
        };
        assert(amounts_to(before[0], event, found));
        let first_failure = BlockingRuntime::first_failure(first_failure, found);
        BlockingFinish { deadline, left, actor_result, first_failure }.next(now)
    }
}

impl BlockingRuntime {
    /// Begins to end the blocking work of an actor that returned `actor_result`:
    /// new work is turned away from now on, and every task is asked to stop and
    /// then waited for, up to `timeout` in all. `first_failure` is the first
    /// failure of a task that the actor has not heard of yet, if there is one.
    pub fn begin_finish(
        &mut self,
        actor_result: ActorResult,
        first_failure: Option<BlockingTaskFailure>,
        now: Duration,
        timeout: Duration,
    ) -> (r: FinishStep)
        requires
            old(self).wf(),
        ensures
            final(self).wf(),
            final(self).actor() == old(self).actor(),
            final(self).max_running() == old(self).max_running(),
            final(self).issued() == old(self).issued(),
            final(self).closed(),
            final(self).tasks() == Map::<nat, BlockingTaskEntry>::empty(),
            final(self).order() == Seq::<nat>::empty(),
            forall|i: int|
                0 <= i < old(self).order().len() ==> is_told(
                    old(self).tasks()[#[trigger] old(self).order()[i]].stop(),
                ),
            comes_next(
                old(self).running_in_order(),
                later(now, timeout),
                actor_result,
                first_failure,
                now,
                r,
            ),
    {
        let ghost listed = self.order().map_values(|n: nat| self.tasks()[n]);
        let ghost runs = |entry: BlockingTaskEntry| entry.running();
        let ghost names = self.order();
        let ghost tasks = self.tasks();
        let mut entries = self.close_and_take_all();
        assert(entries@ =~= listed);
        assert forall|i: int| 0 <= i < names.len() implies is_told(
            tasks[#[trigger] names[i]].stop(),
        ) by {
            assert(entries@[i] == tasks[names[i]]);
        }
        let ghost total = entries@.len();
        let mut left: Vec<BlockingTaskEntry> = Vec::new();
        proof {
            reveal(Seq::filter);
            assert(listed.skip(0) =~= listed);
        }
        while entries.len() > 0
            invariant
                entries@.len() <= total,
                total == listed.len(),
                entries@ == listed.skip(total - entries@.len()),
                runs == (|entry: BlockingTaskEntry| entry.running()),
                left@ == listed.take(total - entries@.len()).filter(runs),
            decreases entries.len(),
        {
            let ghost at = total - entries@.len();
            let entry = entries.remove(0);
            proof {
                reveal(Seq::filter);
                let taken = listed.take(at + 1);
                assert(taken.drop_last() =~= listed.take(at));
                assert(taken.last() == entry);
                assert(entries@ =~= listed.skip(at + 1));
            }
            if entry.is_running() {
                left.push(entry);
            }
        }
        assert(listed.take(total as int) =~= listed);
        let deadline = now.saturating_add(timeout);
        BlockingFinish { deadline, left, actor_result, first_failure }.next(now)
    }
}

/// Whether `states` is how the end of an actor's blocking work goes on under
/// `events`, up to where no task is left.
pub open spec fn finish_course(
    events: Seq<FinishEvent>,
    found: Seq<Option<BlockingTaskFailure>>,
    states: Seq<BlockingFinish>,
) -> bool {
    &&& states.len() == events.len() + 1
    &&& found.len() == events.len()
    &&& states.last().left().len() == 0
    &&& forall|i: int|
        0 <= i < events.len() ==> {
            &&& (#[trigger] states[i]).left().len() > 0
            &&& amounts_to(states[i].left()[0], events[i], found[i])
            &&& states[i + 1].stands(
                states[i].left().skip(1),
                states[i].deadline()@,
                states[i].own(),
                earlier(states[i].known(), found[i]),
            )
        }
}

proof fn lemma_so_far(
    events: Seq<FinishEvent>,
    found: Seq<Option<BlockingTaskFailure>>,
    states: Seq<BlockingFinish>,
    at: int,
)
    requires
        finish_course(events, found, states),
        0 <= at < states.len(),
    ensures
        states[at].own() == states[0].own(),
        at <= states[0].left().len(),
        states[at].left() == states[0].left().skip(at),
        states[0].known() is Some ==> states[at].known() == states[0].known(),
        states[0].known() is None ==> {
            &&& states[at].known() is None <==> forall|i: int|
                0 <= i < at ==> (#[trigger] found[i]) is None
            &&& forall|k: int|
                0 <= k < at && (#[trigger] found[k]) is Some && (forall|i: int|
                    0 <= i < k ==> (#[trigger] found[i]) is None) ==> states[at].known() == found[k]
        },
    decreases at,
{
    if at == 0 {
        assert(states[0].left().skip(0) =~= states[0].left());
    } else {
        lemma_so_far(events, found, states, at - 1);
        let before = states[at - 1];
        assert(before.left().len() > 0);
        assert(before.left().skip(1) =~= states[0].left().skip(at));
        assert(states[at].stands(
            before.left().skip(1),
            before.deadline()@,
            before.own(),
            earlier(before.known(), found[at - 1]),
        ));
    }
}

/// The end of an actor's blocking work hears of every task once, and then decides:
/// the actor's own error goes first, then a failure that was known from the start,
/// then the first failure of a task, in the order of the tasks. A task that has
/// not ended in time adds none.
pub proof fn own_errors_go_before_failures(
    events: Seq<FinishEvent>,
    found: Seq<Option<BlockingTaskFailure>>,
    states: Seq<BlockingFinish>,
    now: Duration,
    step: FinishStep,
)
    requires
        finish_course(events, found, states),
        comes_next(
            states.last().left(),
            states.last().deadline()@,
            states.last().own(),
            states.last().known(),
            now,
            step,
        ),
    ensures
        events.len() == states[0].left().len(),
        forall|i: int|
            0 <= i < events.len() && (#[trigger] events[i]) is TimedOut ==> found[i] is None,
        states[0].own() is Err ==> step == FinishStep::Done(states[0].own()),
        states[0].own() is Ok && states[0].known() is Some ==> step == FinishStep::Done(
            Err(BoxError::BlockingTask(states[0].known()->Some_0)),
        ),
        states[0].own() is Ok && states[0].known() is None && (forall|i: int|
            0 <= i < found.len() ==> (#[trigger] found[i]) is None) ==> (step matches FinishStep::Done(
            result,
        ) && result is Ok),
        states[0].own() is Ok && states[0].known() is None ==> forall|k: int|
            0 <= k < found.len() && (#[trigger] found[k]) is Some && (forall|i: int|
                0 <= i < k ==> (#[trigger] found[i]) is None) ==> step == FinishStep::Done(
                Err(BoxError::BlockingTask(found[k]->Some_0)),
            ),
{
    lemma_so_far(events, found, states, states.len() - 1);
    assert forall|i: int| 0 <= i < events.len() && (#[trigger] events[i]) is TimedOut implies found[i]
        is None by {
        assert(states[i].left().len() > 0);
        assert(amounts_to(states[i].left()[0], events[i], found[i]));
    }
}

/// Whether `books` is how an actor's books read one after the other, each time
/// after one piece of news: of which task it is and what. `found` is what the actor
/// is to fail with because of it, if anything.
pub open spec fn books_course(
    news: Seq<(nat, TaskNews)>,
    found: Seq<Option<BlockingTaskFailure>>,
    books: Seq<Map<nat, BlockingTaskEntry>>,
) -> bool {
    &&& books.len() == news.len() + 1
    &&& found.len() == news.len()
    &&& forall|i: int|
        0 <= i < news.len() ==> noted(
            #[trigger] books[i],
            news[i].0,
            news[i].1,
            found[i],
            books[i + 1],
        )
}

/// Whether the handle of the task with number `n` is dropped by the piece of news
/// at `dropped` without being awaited, and nothing else is heard of the task but
/// that it ends.
pub open spec fn drops_unawaited(news: Seq<(nat, TaskNews)>, n: nat, dropped: int) -> bool {
    &&& 0 <= dropped < news.len()
    &&& news[dropped] == (n, TaskNews::HandleDropped)
    &&& forall|i: int|
        0 <= i < news.len() && (#[trigger] news[i]).0 == n && i != dropped ==> news[i].1 is Ended
}

/// Whether the task with number `n` has not ended by the piece of news at `at`.
pub open spec fn not_ended(news: Seq<(nat, TaskNews)>, n: nat, at: int) -> bool {
    forall|i: int| 0 <= i < at && (#[trigger] news[i]).0 == n ==> !(news[i].1 is Ended)
}

/// Whether the books have the task under its number, as it was when it started.
pub open spec fn is_booked(
    books: Map<nat, BlockingTaskEntry>,
    n: nat,
    started: BlockingTaskEntry,
) -> bool {
    &&& books.contains_key(n)
    &&& books[n].task() == started.task()
    &&& books[n].task_name() == started.task_name()
}

proof fn lemma_until_it_ends(
    news: Seq<(nat, TaskNews)>,
    found: Seq<Option<BlockingTaskFailure>>,
    books: Seq<Map<nat, BlockingTaskEntry>>,
    n: nat,
    dropped: int,
    at: int,
)
    requires
        books_course(news, found, books),
        drops_unawaited(news, n, dropped),
        books[0].contains_key(n),
        books[0][n].running(),
        books[0][n].handle() is Held,
        0 <= at <= news.len(),
        not_ended(news, n, at),
    ensures
        is_booked(books[at], n, books[0][n]),
        books[at][n].running(),
        books[at][n].handle() == if dropped < at {
            HandleState::Dropped
        } else {
            HandleState::Held
        },
    decreases at,
{
    broadcast use BlockingTaskEntry::with_keeps_identity;

    if at > 0 {
        lemma_until_it_ends(news, found, books, n, dropped, at - 1);
        let before = books[at - 1];
        assert(noted(before, news[at - 1].0, news[at - 1].1, found[at - 1], books[at - 1 + 1]));
    }
}

proof fn lemma_until_it_is_dropped(
    news: Seq<(nat, TaskNews)>,
    found: Seq<Option<BlockingTaskFailure>>,
    books: Seq<Map<nat, BlockingTaskEntry>>,
    n: nat,
    dropped: int,
    ended: int,
    error: BlockingTaskError,
    at: int,
)
    requires
        books_course(news, found, books),
        drops_unawaited(news, n, dropped),
        books[0].contains_key(n),
        books[0][n].running(),
        books[0][n].handle() is Held,
        0 <= ended < at <= dropped,
        not_ended(news, n, ended),
        news[ended] == (n, TaskNews::Ended(Err(error))),
        !(error is Cancelled),
    ensures
        is_booked(books[at], n, books[0][n]),
        books[at][n].unclaimed() == Some(error),
    decreases at,
{
    broadcast use BlockingTaskEntry::with_keeps_identity;

    let before = books[at - 1];
    assert(noted(before, news[at - 1].0, news[at - 1].1, found[at - 1], books[at - 1 + 1]));
    if at - 1 == ended {
        lemma_until_it_ends(news, found, books, n, dropped, ended);
    } else {
        lemma_until_it_is_dropped(news, found, books, n, dropped, ended, error, at - 1);
    }
}

/// The running tasks of an actor are waited for when its blocking work is ended,
/// each as it stands on the books.
proof fn lemma_running_are_left(runtime: BlockingRuntime, n: nat)
    requires
        runtime.wf(),
    ensures
        runtime.tasks().contains_key(n) && runtime.tasks()[n].running()
            ==> runtime.running_in_order().contains(runtime.tasks()[n]),
        forall|k: int|
            0 <= k < runtime.running_in_order().len() && (
            #[trigger] runtime.running_in_order()[k]).task().number() == n
                ==> runtime.tasks().contains_key(n) && runtime.running_in_order()[k]
                == runtime.tasks()[n],
{
    broadcast use vstd::seq_lib::group_filter_ensures;

    let listed = runtime.order().map_values(|m: nat| runtime.tasks()[m]);
    let runs = |entry: BlockingTaskEntry| entry.running();
    let left = listed.filter(runs);
    if runtime.tasks().contains_key(n) && runtime.tasks()[n].running() {
        assert(runtime.order().to_set().contains(n));
        let at = runtime.order().index_of(n);
        assert(listed[at] == runtime.tasks()[n]);
        assert(left.contains(listed[at]));
    }
    assert forall|k: int| 0 <= k < left.len() && (#[trigger] left[k]).task().number() == n implies runtime.tasks().contains_key(
        n,
    ) && left[k] == runtime.tasks()[n] by {
        listed.lemma_filter_contains_rev(runs, left[k]);
        let at = listed.index_of(left[k]);
        let m = runtime.order()[at];
        assert(runtime.order().to_set().contains(m));
        assert(runtime.tasks().contains_key(m));
    }
}

/// A failure whose handle was dropped without being awaited fails the actor.
///
/// If the task has ended before the actor's blocking work is, the failure is what
/// the books hand out: as soon as the task has failed and the handle was dropped,
/// whichever comes last. Otherwise the task is among those that are waited for, and
/// its failure is what the actor ends with, unless the actor has an error of its
/// own or an earlier failure is known.
pub proof fn dropped_failures_fail_the_actor(
    news: Seq<(nat, TaskNews)>,
    found: Seq<Option<BlockingTaskFailure>>,
    books: Seq<Map<nat, BlockingTaskEntry>>,
    n: nat,
    dropped: int,
    error: BlockingTaskError,
    runtime: BlockingRuntime,
    events: Seq<FinishEvent>,
    heard: Seq<Option<BlockingTaskFailure>>,
    states: Seq<BlockingFinish>,
    now: Duration,
    step: FinishStep,
)
    requires
        books_course(news, found, books),
        books[0].contains_key(n),
        books[0][n].running(),
        books[0][n].handle() is Held,
        drops_unawaited(news, n, dropped),
        !(error is Cancelled),
        runtime.wf(),
        runtime.tasks() == books.last(),
        finish_course(events, heard, states),
        states[0].left() == runtime.running_in_order(),
        comes_next(
            states.last().left(),
            states.last().deadline()@,
            states.last().own(),
            states.last().known(),
            now,
            step,
        ),
    ensures
        forall|ended: int|
            0 <= ended < news.len() && #[trigger] news[ended] == (
                n,
                TaskNews::Ended(Err(error)),
            ) && not_ended(news, n, ended) ==> (found[if ended < dropped {
                dropped
            } else {
                ended
            }] matches Some(failure) && books[0][n].reports(failure, error)),
        not_ended(news, n, news.len() as int) ==> {
            &&& exists|k: int|
                0 <= k < events.len() && (#[trigger] states[0].left()[k]).task().number() == n
            &&& forall|k: int|
                0 <= k < events.len() && (#[trigger] states[0].left()[k]).task().number() == n
                    && events[k] == FinishEvent::Joined(Some(Err(error))) ==> {
                    &&& heard[k] matches Some(failure) && books[0][n].reports(failure, error)
                    &&& states[0].own() is Ok && states[0].known() is None && (forall|i: int|
                        0 <= i < k ==> (#[trigger] heard[i]) is None) ==> step == FinishStep::Done(
                        Err(BoxError::BlockingTask(heard[k]->Some_0)),
                    )
                }
        },
{
    own_errors_go_before_failures(events, heard, states, now, step);
    assert forall|ended: int|
        0 <= ended < news.len() && #[trigger] news[ended] == (n, TaskNews::Ended(Err(error)))
            && not_ended(news, n, ended) implies (found[if ended < dropped {
        dropped
    } else {
        ended
    }] matches Some(failure) && books[0][n].reports(failure, error)) by {
        let last = if ended < dropped {
            dropped
        } else {
            ended
        };
        assert(noted(books[last], news[last].0, news[last].1, found[last], books[last + 1]));
        if ended < dropped {
            lemma_until_it_is_dropped(news, found, books, n, dropped, ended, error, dropped);
        } else {
            lemma_until_it_ends(news, found, books, n, dropped, ended);
        }
    }
    if not_ended(news, n, news.len() as int) {
        lemma_until_it_ends(news, found, books, n, dropped, news.len() as int);
        lemma_running_are_left(runtime, n);
        let entry = runtime.tasks()[n];
        let at = states[0].left().index_of(entry);
        assert(states[0].left()[at] == entry);
        assert forall|k: int|
            0 <= k < events.len() && (#[trigger] states[0].left()[k]).task().number() == n
                && events[k] == FinishEvent::Joined(Some(Err(error))) implies {
            &&& heard[k] matches Some(failure) && books[0][n].reports(failure, error)
            &&& states[0].own() is Ok && states[0].known() is None && (forall|i: int|
                0 <= i < k ==> (#[trigger] heard[i]) is None) ==> step == FinishStep::Done(
                Err(BoxError::BlockingTask(heard[k]->Some_0)),
            )
        } by {
            assert(states[0].left()[k] == entry);
            lemma_so_far(events, heard, states, k);
            assert(states[k].left()[0] == entry);
            assert(amounts_to(states[k].left()[0], events[k], heard[k]));
        }
    }
}

/// The end of an actor's blocking work that begins at `now` lasts no longer than the
/// timeout: as long as a task is left, it is waited for before that is over, with that
/// as the deadline, and only looked after from then on.
pub proof fn blocking_work_has_until_the_timeout(
    left: Seq<BlockingTaskEntry>,
    now: Duration,
    timeout: Duration,
    own: ActorResult,
    known: Option<BlockingTaskFailure>,
    at: Duration,
    step: FinishStep,
)
    requires
        left.len() > 0,
        now@ + timeout@ <= MAX_NANOS,
        comes_next(left, later(now, timeout), own, known, at, step),
    ensures
        at@ < now@ + timeout@ ==> (step matches FinishStep::AwaitTask { task, deadline, .. } && task
            == left[0].task() && deadline@ == now@ + timeout@),
        at@ >= now@ + timeout@ ==> (step matches FinishStep::CheckTask { task, .. } && task
            == left[0].task()),
{
}

} // verus!
