//! Blocking work that an actor starts beside its own future.

use tokio_util::sync::CancellationToken;
use vstd::prelude::*;

use crate::actor::actor::{ActorResult, BoxError};
use crate::actor::context::ActorRef;
use crate::actor::error::about_actor;
use crate::directory::{lemma_take_one_more, Directory, Key};
use crate::text::{append_decimal, decimal};
use crate::token::{answers, is_new, is_told};

verus! {

/// Stable identifier for a blocking task owned by an actor.
#[derive(Clone, Copy, Debug, PartialEq, Eq, Hash, Structural)]
pub struct BlockingTaskId(u64);

impl Key for BlockingTaskId {
    type Name = nat;

    closed spec fn name(&self) -> nat {
        self.0 as nat
    }

    fn same(&self, other: &Self) -> (r: bool) {
        self.0 == other.0
    }

    fn duplicate(&self) -> (r: Self) {
        *self
    }
}

impl BlockingTaskId {
    /// The number of the task.
    pub closed spec fn number(self) -> nat {
        self.0 as nat
    }

    /// A task is found under its number.
    pub broadcast proof fn named_by_number(self)
        ensures
            #[trigger] self.name() == self.number(),
    {
    }

    /// The id in words: its number.
    pub fn message(&self) -> (r: String)
        ensures
            r@ == decimal(self.number()),
    {
        let mut out = String::new();
        append_decimal(&mut out, self.0);
        assert(out@ =~= decimal(self.number()));
        out
    }
}

/// Options used when spawning a blocking task from an actor.
#[derive(Clone, Debug)]
pub struct BlockingOptions {
    name: Option<String>,
}

impl Default for BlockingOptions {
    fn default() -> (r: Self)
        ensures
            r.task_name() is None,
    {
        BlockingOptions { name: None }
    }
}

/// The text of an optional string.
pub open spec fn optional_text(text: Option<String>) -> Option<Seq<char>> {
    match text {
        Some(text) => Some(text@),
        None => None,
    }
}

impl BlockingOptions {
    /// The name that the task is to have.
    pub closed spec fn task_name(&self) -> Option<Seq<char>> {
        optional_text(self.name)
    }

    /// Creates a named blocking task option set.
    pub fn named(name: String) -> (r: Self)
        ensures
            r.task_name() == Some(name@),
    {
        BlockingOptions { name: Some(name) }
    }

    /// Takes the name out.
    pub fn into_name(self) -> (r: Option<String>)
        ensures
            optional_text(r) == self.task_name(),
    {
        self.name
    }
}

/// Errors returned by blocking task closures.
#[derive(Debug, PartialEq, Eq)]
pub enum BlockingOperationError {
    /// The blocking task observed cooperative cancellation.
    Cancelled,
    /// The blocking task returned an application error.
    Failed(BoxError),
}

impl BlockingOperationError {
    /// What [`message`](Self::message) says.
    pub open spec fn text(self) -> Seq<char> {
        match self {
            BlockingOperationError::Cancelled => "blocking task was cancelled"@,
            BlockingOperationError::Failed(_) => "blocking task failed"@,
        }
    }

    /// The error in words.
    pub fn message(&self) -> (r: String)
        ensures
            r@ == self.text(),
    {
        match self {
            BlockingOperationError::Cancelled => "blocking task was cancelled".to_owned(),
            BlockingOperationError::Failed(_) => "blocking task failed".to_owned(),
        }
    }
}

impl From<BoxError> for BlockingOperationError {
    fn from(value: BoxError) -> (r: Self) {
        BlockingOperationError::Failed(value)
    }
}

impl vstd::std_specs::convert::FromSpecImpl<BoxError> for BlockingOperationError {
    open spec fn obeys_from_spec() -> bool {
        true
    }

    open spec fn from_spec(value: BoxError) -> Self {
        BlockingOperationError::Failed(value)
    }
}

/// Errors returned when spawning a blocking task from an actor.
#[derive(Clone, Debug, PartialEq, Eq)]
pub enum SpawnBlockingError {
    /// The actor is shutting down, so new blocking work is rejected.
    ShuttingDown { actor_id: String },
    /// The actor has as many active blocking tasks as it may have.
    LimitReached { actor_id: String, limit: usize },
}

impl SpawnBlockingError {
    /// What [`message`](Self::message) says.
    pub open spec fn text(self) -> Seq<char> {
        match self {
            SpawnBlockingError::ShuttingDown { actor_id } => "actor `"@ + actor_id@
                + "` is shutting down"@,
            SpawnBlockingError::LimitReached { actor_id, limit } => "actor `"@ + actor_id@
                + "` reached its limit of blocking tasks: "@ + decimal(limit as nat),
        }
    }

    /// The error in words.
    pub fn message(&self) -> (r: String)
        ensures
            r@ == self.text(),
    {
        match self {
            SpawnBlockingError::ShuttingDown { actor_id } => about_actor(
                actor_id,
                "` is shutting down",
            ),
            SpawnBlockingError::LimitReached { actor_id, limit } => {
                let mut out = about_actor(actor_id, "` reached its limit of blocking tasks: ");
                append_decimal(&mut out, *limit as u64);
                out
            },
        }
    }
}

/// Shared, cloneable account of an error returned by blocking work: the text
/// that the error displays.
#[derive(Clone, Debug, PartialEq, Eq)]
pub struct SharedError(String);

impl SharedError {
    /// What [`message`](Self::message) says.
    pub closed spec fn text(self) -> Seq<char> {
        self.0@
    }

    /// The error in words.
    pub fn message(&self) -> (r: String)
        ensures
            r@ == self.text(),
    {
        self.0.clone()
    }
}

impl From<BoxError> for SharedError {
    fn from(value: BoxError) -> (r: Self)
        ensures
            r.text() == value.text(),
    {
        SharedError(value.message())
    }
}

impl vstd::std_specs::convert::FromSpecImpl<BoxError> for SharedError {
    open spec fn obeys_from_spec() -> bool {
        false
    }

    open spec fn from_spec(value: BoxError) -> Self {
        arbitrary()
    }
}

/// Errors returned by blocking task handles.
#[derive(Clone, Debug, PartialEq, Eq)]
pub enum BlockingTaskError {
    /// The blocking task could not be started.
    Rejected(SpawnBlockingError),
    /// The blocking task observed cooperative cancellation.
    Cancelled,
    /// The blocking task returned an application error.
    Failed(SharedError),
    /// The blocking task panicked.
    Panicked,
    /// The task runtime lost the completion result unexpectedly.
    Unavailable,
}

impl BlockingTaskError {
    /// What [`message`](Self::message) says.
    pub open spec fn text(self) -> Seq<char> {
        match self {
            BlockingTaskError::Rejected(error) => error.text(),
            BlockingTaskError::Cancelled => "blocking task was cancelled"@,
            BlockingTaskError::Failed(_) => "blocking task failed"@,
            BlockingTaskError::Panicked => "blocking task panicked"@,
            BlockingTaskError::Unavailable => "blocking task result became unavailable"@,
        }
    }

    /// The error in words.
    pub fn message(&self) -> (r: String)
        ensures
            r@ == self.text(),
    {
        match self {
            BlockingTaskError::Rejected(error) => error.message(),
            BlockingTaskError::Cancelled => "blocking task was cancelled".to_owned(),
            BlockingTaskError::Failed(_) => "blocking task failed".to_owned(),
            BlockingTaskError::Panicked => "blocking task panicked".to_owned(),
            BlockingTaskError::Unavailable => "blocking task result became unavailable".to_owned(),
        }
    }
}

impl From<SpawnBlockingError> for BlockingTaskError {
    fn from(value: SpawnBlockingError) -> (r: Self) {
        BlockingTaskError::Rejected(value)
    }
}

impl vstd::std_specs::convert::FromSpecImpl<SpawnBlockingError> for BlockingTaskError {
    open spec fn obeys_from_spec() -> bool {
        true
    }

    open spec fn from_spec(value: SpawnBlockingError) -> Self {
        BlockingTaskError::Rejected(value)
    }
}

/// A blocking task failure with task identity attached.
#[derive(Clone, Debug, PartialEq, Eq)]
pub struct BlockingTaskFailure {
    task_id: BlockingTaskId,
    task_name: Option<String>,
    error: BlockingTaskError,
}

impl BlockingTaskFailure {
    /// The task that failed.
    pub closed spec fn task(self) -> BlockingTaskId {
        self.task_id
    }

    /// Its name.
    pub closed spec fn name(self) -> Option<Seq<char>> {
        optional_text(self.task_name)
    }

    /// How it failed.
    pub closed spec fn cause(self) -> BlockingTaskError {
        self.error
    }

    /// What [`message`](Self::message) says.
    pub open spec fn text(self) -> Seq<char> {
        match self.name() {
            Some(name) => "blocking task `"@ + decimal(self.task().number()) + "` (`"@ + name
                + "`) failed"@,
            None => "blocking task `"@ + decimal(self.task().number()) + "` failed"@,
        }
    }

    /// Attaches a task's identity to its error.
    pub fn new(
        task_id: BlockingTaskId,
        task_name: Option<String>,
        error: BlockingTaskError,
    ) -> (r: Self)
        ensures
            r.task() == task_id,
            r.name() == optional_text(task_name),
            r.cause() == error,
    {
        BlockingTaskFailure { task_id, task_name, error }
    }

    /// Returns the failed blocking task id.
    pub fn task_id(&self) -> (r: BlockingTaskId)
        ensures
            r == self.task(),
    {
        self.task_id
    }

    /// Returns the optional blocking task name.
    pub fn task_name(&self) -> (r: Option<&str>)
        ensures
            match r {
                Some(name) => self.name() == Some(name@),
                None => self.name() is None,
            },
    {
        match &self.task_name {
            Some(name) => Some(name.as_str()),
            None => None,
        }
    }

    /// Returns the underlying blocking task error.
    pub fn error(&self) -> (r: &BlockingTaskError)
        ensures
            *r == self.cause(),
    {
        &self.error
    }

    /// The failure in words.
    pub fn message(&self) -> (r: String)
        ensures
            r@ == self.text(),
    {
        let mut out = "blocking task `".to_owned();
        append_decimal(&mut out, self.task_id.0);
        match &self.task_name {
            Some(name) => {
                out.append("` (`");
                out.append(name.as_str());
                out.append("`) failed");
            },
            None => {
                out.append("` failed");
            },
        }
        out
    }
}

/// Synchronous context passed to blocking task closures.
#[derive(Debug)]
pub struct BlockingContext {
    myself: ActorRef,
    actor_shutdown: CancellationToken,
    task_cancel: CancellationToken,
}

impl BlockingContext {
    /// The sender for the owning actor's mailbox.
    pub closed spec fn owner(&self) -> ActorRef {
        self.myself
    }

    /// The token that asks the owning actor to stop.
    pub closed spec fn actor_stop(&self) -> CancellationToken {
        self.actor_shutdown
    }

    /// The token that asks the task to stop.
    pub closed spec fn task_stop(&self) -> CancellationToken {
        self.task_cancel
    }

    /// Whether `cancelled` is what the two tokens can come to: the task is
    /// cancelled if one of them says so, and not if both deny it.
    pub open spec fn comes_to(&self, cancelled: bool) -> bool {
        if cancelled {
            answers(self.task_stop(), true) || answers(self.actor_stop(), true)
        } else {
            answers(self.task_stop(), false) && answers(self.actor_stop(), false)
        }
    }

    /// Puts a context together.
    pub fn new(
        myself: ActorRef,
        actor_shutdown: CancellationToken,
        task_cancel: CancellationToken,
    ) -> (r: Self)
        ensures
            r.owner() == myself,
            r.actor_stop() == actor_shutdown,
            r.task_stop() == task_cancel,
    {
        BlockingContext { myself, actor_shutdown, task_cancel }
    }

    /// Returns `true` if the task or its owning actor has been cancelled.
    pub fn is_cancelled(&self) -> (r: bool)
        ensures
            self.comes_to(r),
    {
        self.task_cancel.is_cancelled() || self.actor_shutdown.is_cancelled()
    }

    /// What a checkpoint returns to a task that was, or was not, cancelled.
    pub fn checkpoint_when(cancelled: bool) -> (r: Result<(), BlockingOperationError>)
        ensures
            r == if cancelled {
                Err::<(), _>(BlockingOperationError::Cancelled)
            } else {
                Ok(())
            },
    {
        if cancelled {
            Err(BlockingOperationError::Cancelled)
        } else {
            Ok(())
        }
    }

    /// Returns an error once the task should stop.
    pub fn checkpoint(&self) -> (r: Result<(), BlockingOperationError>)
        ensures
            self.comes_to(r is Err),
            r matches Err(error) ==> error is Cancelled,
    {
        BlockingContext::checkpoint_when(self.is_cancelled())
    }

    /// Returns a sender targeting the owning actor's mailbox.
    pub fn myself(&self) -> (r: &ActorRef)
        ensures
            *r == self.owner(),
    {
        &self.myself
    }
}

/// Handle to a blocking task spawned by an actor.
#[derive(Debug)]
pub struct BlockingHandle {
    id: BlockingTaskId,
    name: Option<String>,
    cancel: CancellationToken,
}

impl BlockingHandle {
    /// The task.
    pub closed spec fn task(&self) -> BlockingTaskId {
        self.id
    }

    /// Its name.
    pub closed spec fn task_name(&self) -> Option<Seq<char>> {
        optional_text(self.name)
    }

    /// The token that asks the task to stop.
    pub closed spec fn stop(&self) -> CancellationToken {
        self.cancel
    }

    /// The task as it is put on the books: running, its handle held.
    pub closed spec fn listed(&self) -> BlockingTaskEntry {
        BlockingTaskEntry {
            id: self.id,
            name: self.name,
            cancel: self.cancel,
            handle: HandleState::Held,
            failure: None,
        }
    }

    /// What is on the books agrees with the handle.
    pub broadcast proof fn listed_agrees(&self)
        ensures
            (#[trigger] self.listed()).task() == self.task(),
            self.listed().task_name() == self.task_name(),
            self.listed().stop() == self.stop(),
            self.listed().handle() is Held,
            self.listed().running(),
    {
    }

    /// Returns the blocking task id.
    pub fn id(&self) -> (r: BlockingTaskId)
        ensures
            r == self.task(),
    {
        self.id
    }

    /// Returns the optional blocking task name.
    pub fn name(&self) -> (r: Option<&str>)
        ensures
            match r {
                Some(name) => self.task_name() == Some(name@),
                None => self.task_name() is None,
            },
    {
        match &self.name {
            Some(name) => Some(name.as_str()),
            None => None,
        }
    }

    /// Requests cooperative cancellation of the blocking task.
    pub fn cancel(&self)
        ensures
            is_told(self.stop()),
    {
        self.cancel.cancel();
    }

    /// The token that asks the task to stop.
    pub fn token(&self) -> (r: &CancellationToken)
        ensures
            *r == self.stop(),
    {
        &self.cancel
    }

    /// What waiting for the task returns, given what its completion channel
    /// delivered, nothing if the result got lost.
    pub fn wait_result(received: Option<Result<(), BlockingTaskError>>) -> (r: Result<
        (),
        BlockingTaskError,
    >)
        ensures
            r == match received {
                Some(result) => result,
                None => Err::<(), _>(BlockingTaskError::Unavailable),
            },
    {
        match received {
            Some(result) => result,
            None => Err(BlockingTaskError::Unavailable),
        }
    }
}

/// How a blocking closure came to an end.
#[derive(Debug)]
pub enum ClosureOutcome {
    /// It returned this.
    Returned(Result<(), BlockingOperationError>),
    /// It panicked.
    Panicked,
}

/// What a closure's end means for its task.
pub fn task_result(outcome: ClosureOutcome) -> (r: Result<(), BlockingTaskError>)
    ensures
        match outcome {
            ClosureOutcome::Returned(Ok(())) => r is Ok,
            ClosureOutcome::Returned(Err(BlockingOperationError::Cancelled)) => r == Err::<(), _>(
                BlockingTaskError::Cancelled,
            ),
            ClosureOutcome::Returned(Err(BlockingOperationError::Failed(error))) => r matches Err(
                BlockingTaskError::Failed(shared),
            ) && shared.text() == error.text(),
            ClosureOutcome::Panicked => r == Err::<(), _>(BlockingTaskError::Panicked),
        },
{
    match outcome {
        ClosureOutcome::Returned(Ok(())) => Ok(()),
        ClosureOutcome::Returned(Err(BlockingOperationError::Cancelled)) => Err(
            BlockingTaskError::Cancelled,
        ),
        ClosureOutcome::Returned(Err(BlockingOperationError::Failed(error))) => Err(
            BlockingTaskError::Failed(SharedError::from(error)),
        ),
        ClosureOutcome::Panicked => Err(BlockingTaskError::Panicked),
    }
}

/// What became of the handle of a task.
#[derive(Clone, Copy, Debug, PartialEq, Eq, Structural)]
pub enum HandleState {
    /// It exists and nobody has waited on it.
    Held,
    /// Somebody waits, or has waited, on it: a failure is theirs to handle.
    Awaited,
    /// It was dropped without being awaited: a failure is the actor's.
    Dropped,
}

/// A task that is on the books.
#[derive(Debug)]
pub struct BlockingTaskEntry {
    id: BlockingTaskId,
    name: Option<String>,
    cancel: CancellationToken,
    handle: HandleState,
    failure: Option<BlockingTaskError>,
}

impl BlockingTaskEntry {
    /// The task.
    pub closed spec fn task(&self) -> BlockingTaskId {
        self.id
    }

    /// Its name.
    pub closed spec fn task_name(&self) -> Option<Seq<char>> {
        optional_text(self.name)
    }

    /// The token that asks it to stop.
    pub closed spec fn stop(&self) -> CancellationToken {
        self.cancel
    }

    /// What became of its handle.
    pub closed spec fn handle(&self) -> HandleState {
        self.handle
    }

    /// The failure with which it ended, while its handle is still held.
    pub closed spec fn unclaimed(&self) -> Option<BlockingTaskError> {
        self.failure
    }

    /// A running task has not ended yet.
    pub open spec fn running(&self) -> bool {
        self.unclaimed() is None
    }

    /// The same task with another handle state and another unclaimed failure.
    pub closed spec fn with(self, handle: HandleState, failure: Option<BlockingTaskError>) -> Self {
        BlockingTaskEntry { handle, failure, ..self }
    }

    /// [`with`](Self::with) changes nothing else.
    pub broadcast proof fn with_keeps_identity(
        self,
        handle: HandleState,
        failure: Option<BlockingTaskError>,
    )
        ensures
            (#[trigger] self.with(handle, failure)).task() == self.task(),
            self.with(handle, failure).task_name() == self.task_name(),
            self.with(handle, failure).stop() == self.stop(),
            self.with(handle, failure).handle() == handle,
            self.with(handle, failure).unclaimed() == failure,
    {
    }

    fn restated(&self, handle: HandleState, failure: Option<BlockingTaskError>) -> (r: Self)
        ensures
            r == self.with(handle, failure),
    {
        BlockingTaskEntry {
            id: self.id,
            name: match &self.name {
                Some(name) => Some(name.clone()),
                None => None,
            },
            cancel: self.cancel.clone(),
            handle,
            failure,
        }
    }

    /// Returns the task's id.
    pub fn id(&self) -> (r: BlockingTaskId)
        ensures
            r == self.task(),
    {
        self.id
    }

    /// Whether `failure` reports `error` under the task's identity.
    pub open spec fn reports(&self, failure: BlockingTaskFailure, error: BlockingTaskError) -> bool {
        failure.task() == self.task() && failure.name() == self.task_name() && failure.cause()
            == error
    }

    /// Whether the end of a task that was taken off the books means `found` for
    /// its actor.
    pub open spec fn settles(
        &self,
        joined: Option<Result<(), BlockingTaskError>>,
        found: Option<BlockingTaskFailure>,
    ) -> bool {
        match joined {
            None => found matches Some(failure) && self.reports(
                failure,
                BlockingTaskError::Unavailable,
            ),
            Some(Err(error)) => if self.handle() is Dropped && !(error is Cancelled) {
                found matches Some(failure) && self.reports(failure, error)
            } else {
                found is None
            },
            Some(Ok(())) => found is None,
        }
    }

    /// Whether the task has not ended yet.
    pub fn is_running(&self) -> (r: bool)
        ensures
            r == self.running(),
    {
        self.failure.is_none()
    }

    /// What the end of a task that was taken off the books means for its actor.
    /// `joined` is its result, or nothing if the task could not be joined.
    pub fn settle(self, joined: Option<Result<(), BlockingTaskError>>) -> (r: Option<
        BlockingTaskFailure,
    >)
        ensures
            self.settles(joined, r),
    {
        match joined {
            None => Some(
                BlockingTaskFailure::new(self.id, self.name, BlockingTaskError::Unavailable),
            ),
            Some(Ok(())) => None,
            Some(Err(error)) => match self.handle {
                HandleState::Dropped => match error {
                    BlockingTaskError::Cancelled => None,
                    error => Some(BlockingTaskFailure::new(self.id, self.name, error)),
                },
                _ => None,
            },
        }
    }
}

/// The tasks that are running, among `names`.
pub open spec fn running_tasks(names: Set<nat>, tasks: Map<nat, BlockingTaskEntry>) -> Set<nat> {
    names.filter(|name: nat| tasks[name].running())
}

/// What can be heard of a task.
pub ghost enum TaskNews {
    /// It was started.
    Started(BlockingTaskEntry),
    /// Its handle is being waited on.
    HandleAwaited,
    /// Its handle was dropped.
    HandleDropped,
    /// It has ended.
    Ended(Result<(), BlockingTaskError>),
}

/// Whether the books read `after` once the news of the task with number `n` were
/// entered into `before`, and `found` is the failure that the actor is to fail
/// with because of them, if any.
///
/// A failure belongs to whoever waits on the handle, or may still come to wait.
/// Once the handle was dropped without being awaited it belongs to the actor, be
/// it that the task fails after that or that it failed before. Cancellation is
/// no failure.
pub open spec fn noted(
    before: Map<nat, BlockingTaskEntry>,
    n: nat,
    news: TaskNews,
    found: Option<BlockingTaskFailure>,
    after: Map<nat, BlockingTaskEntry>,
) -> bool {
    let known = before.contains_key(n);
    let entry = before[n];
    match news {
        TaskNews::Started(entry) => {
            &&& !known
            &&& entry.running() && entry.handle() is Held
            &&& found is None
            &&& after == before.insert(n, entry)
        },
        TaskNews::HandleAwaited => {
            &&& found is None
            &&& after == if known && entry.running() {
                before.insert(n, entry.with(HandleState::Awaited, None))
            } else {
                before.remove(n)
            }
        },
        TaskNews::HandleDropped => if known && !entry.running() {
            &&& found matches Some(failure) && entry.reports(failure, entry.unclaimed()->Some_0)
            &&& after == before.remove(n)
        } else if known && entry.handle() is Held {
            &&& found is None
            &&& after == before.insert(n, entry.with(HandleState::Dropped, None))
        } else {
            found is None && after == before
        },
        TaskNews::Ended(result) => if !known || !entry.running() {
            found is None && after == before
        } else {
            match result {
                Err(error) if !(error is Cancelled) => match entry.handle() {
                    HandleState::Dropped => {
                        &&& found matches Some(failure) && entry.reports(failure, error)
                        &&& after == before.remove(n)
                    },
                    HandleState::Awaited => found is None && after == before.remove(n),
                    HandleState::Held => found is None && after == before.insert(
                        n,
                        entry.with(HandleState::Held, Some(error)),
                    ),
                },
                _ => found is None && after == before.remove(n),
            }
        },
    }
}

/// The books on an actor's blocking tasks.
#[derive(Debug)]
pub struct BlockingRuntime {
    actor_id: String,
    limit: Option<usize>,
    closing: bool,
    next_id: u64,
    tasks: Directory<BlockingTaskId, BlockingTaskEntry>,
}

impl BlockingRuntime {
    /// The actor that owns the tasks.
    pub closed spec fn actor(&self) -> Seq<char> {
        self.actor_id@
    }

    /// The largest number of tasks that may run at once, if there is one.
    pub closed spec fn max_running(&self) -> Option<usize> {
        self.limit
    }

    /// Whether new work is turned away for good.
    pub closed spec fn closed(&self) -> bool {
        self.closing
    }

    /// How many ids have been given out.
    pub closed spec fn issued(&self) -> nat {
        self.next_id as nat
    }

    /// The tasks on the books, by number.
    pub closed spec fn tasks(&self) -> Map<nat, BlockingTaskEntry> {
        self.tasks@
    }

    /// The numbers of the tasks on the books, oldest first.
    pub closed spec fn order(&self) -> Seq<nat> {
        self.tasks.names()
    }

    /// The numbers of the tasks that are running.
    pub open spec fn running(&self) -> Set<nat> {
        running_tasks(self.tasks().dom(), self.tasks())
    }

    /// Every task on the books is listed once, and stands under its own number,
    /// which was given out before; one that has ended is kept only for a handle that is still held,
    /// and only with a failure that is not a cancellation. No more tasks run
    /// than the limit allows.
    pub open spec fn wf(&self) -> bool {
        &&& self.tasks().dom().finite()
        &&& self.order().no_duplicates()
        &&& self.order().to_set() == self.tasks().dom()
        &&& self.max_running() matches Some(max) ==> self.running().len() <= max
        &&& forall|n: nat| #[trigger]
            self.tasks().contains_key(n) ==> n < self.issued() && self.tasks()[n].task().number()
                == n
        &&& forall|n: nat| #[trigger]
            self.tasks().contains_key(n) && !self.tasks()[n].running() ==> {
                &&& self.tasks()[n].handle() is Held
                &&& !(self.tasks()[n].unclaimed()->Some_0 is Cancelled)
            }
    }

    /// Opens the books for an actor.
    pub fn new(actor_id: String, limit: Option<usize>) -> (r: Self)
        ensures
            r.wf(),
            r.actor() == actor_id@,
            r.max_running() == limit,
            !r.closed(),
            r.issued() == 0,
            r.tasks() == Map::<nat, BlockingTaskEntry>::empty(),
            r.order() == Seq::<nat>::empty(),
    {
        let r = BlockingRuntime {
            actor_id,
            limit,
            closing: false,
            next_id: 0,
            tasks: Directory::new(),
        };
        assert(r.running() =~= Set::empty());
        r
    }

    /// How many ids have been given out.
    pub fn issued_ids(&self) -> (r: u64)
        ensures
            r == self.issued(),
    {
        self.next_id
    }

    /// The number of tasks that are running.
    pub fn running_count(&self) -> (r: usize)
        ensures
            r == self.running().len(),
    {
        let total: usize = self.tasks.len();
        let mut count: usize = 0;
        let mut i: usize = 0;
        let ghost names = self.order();
        let _ = self.tasks.check_names();
        assert(running_tasks(names.take(0).to_set(), self.tasks()) =~= Set::empty());
        while i < total
            invariant
                i <= total,
                total == names.len(),
                names == self.order(),
                names.no_duplicates(),
                count <= i,
                running_tasks(names.take(i as int).to_set(), self.tasks()).finite(),
                count == running_tasks(names.take(i as int).to_set(), self.tasks()).len(),
            decreases total - i,
        {
            let ended = self.tasks.value_at(i).failure.is_some();
            proof {
                let before = running_tasks(names.take(i as int).to_set(), self.tasks());
                let after = running_tasks(names.take(i as int + 1).to_set(), self.tasks());
                let name = names[i as int];
                lemma_take_one_more(names, i as int);
                assert(!names.take(i as int).contains(name));
                if ended {
                    assert(after =~= before);
                } else {
                    assert(after =~= before.insert(name));
                }
            }
            if !ended {
                count = count + 1;
            }
            i = i + 1;
        }
        proof {
            assert(names.take(i as int) =~= names);
        }
        count
    }

    /// The order of the tasks after the one with the number was left on the books
    /// or taken off them.
    pub open spec fn order_after(&self, n: nat, kept: bool) -> Seq<nat> {
        if kept || !self.tasks().contains_key(n) {
            self.order()
        } else {
            self.order().remove(self.order().index_of(n))
        }
    }

    /// Whether new work is turned away because of the limit.
    pub open spec fn at_limit(&self) -> bool {
        match self.max_running() {
            Some(max) => self.running().len() >= max,
            None => false,
        }
    }

    /// Puts a new task on the books, unless the actor is shutting down or has
    /// as many running tasks as it may have.
    ///
    /// Ids are given out in order, so that no two tasks of an actor share one.
    pub fn spawn_blocking(&mut self, shutting_down: bool, options: BlockingOptions) -> (r: Result<
        BlockingHandle,
        SpawnBlockingError,
    >)
        requires
            old(self).wf(),
            old(self).issued() < u64::MAX,
        ensures
            final(self).wf(),
            final(self).actor() == old(self).actor(),
            final(self).max_running() == old(self).max_running(),
            final(self).closed() == old(self).closed(),
            match r {
                Err(SpawnBlockingError::ShuttingDown { actor_id }) => (old(self).closed()
                    || shutting_down) && actor_id@ == old(self).actor(),
                Err(SpawnBlockingError::LimitReached { actor_id, limit }) => !(old(self).closed()
                    || shutting_down) && old(self).at_limit() && actor_id@ == old(self).actor()
                    && old(self).max_running() == Some(limit),
                Ok(handle) => {
                    &&& !old(self).closed() && !shutting_down && !old(self).at_limit()
                    &&& handle.task().number() == old(self).issued()
                    &&& handle.task_name() == options.task_name()
                    &&& is_new(handle.stop())
                    &&& final(self).issued() == old(self).issued() + 1
                    &&& final(self).order() == old(self).order().push(handle.task().number())
                    &&& noted(
                        old(self).tasks(),
                        handle.task().number(),
                        TaskNews::Started(handle.listed()),
                        None,
                        final(self).tasks(),
                    )
                },
            },
            r is Err ==> final(self).tasks() == old(self).tasks() && final(self).order() == old(
                self,
            ).order() && final(self).issued() == old(self).issued(),
    {
        if self.closing || shutting_down {
            return Err(SpawnBlockingError::ShuttingDown { actor_id: self.actor_id.clone() });
        }
        if let Some(limit) = self.limit {
            if self.running_count() >= limit {
                return Err(
                    SpawnBlockingError::LimitReached { actor_id: self.actor_id.clone(), limit },
                );
            }
        }
        let id = BlockingTaskId(self.next_id);
        let cancel = CancellationToken::new();
        let name = options.into_name();
        let entry_name = match &name {
            Some(name) => Some(name.clone()),
            None => None,
        };
        let entry = BlockingTaskEntry {
            id,
            name: entry_name,
            cancel: cancel.clone(),
            handle: HandleState::Held,
            failure: None,
        };
        self.next_id = self.next_id + 1;
        let _ = self.tasks.insert(id, entry);
        assert(self.running() =~= old(self).running().insert(id.number()));
        Ok(BlockingHandle { id, name, cancel })
    }

    /// Taking a task off the books, or restating one that is on them, starts
    /// none.
    proof fn no_task_started(before: Self, after: Self, n: nat)
        requires
            before.wf(),
            after.tasks() == before.tasks().remove(n) || (before.tasks().contains_key(n) && (exists|
                entry: BlockingTaskEntry,
            | #[trigger]
                before.tasks().insert(n, entry) == after.tasks() && (entry.running()
                    ==> before.tasks()[n].running()))),
        ensures
            after.tasks().dom().finite(),
            after.running().len() <= before.running().len(),
    {
        assert(after.running().subset_of(before.running()));
        vstd::set_lib::lemma_len_subset(after.running(), before.running());
    }

    /// Notes that the handle of a task is being waited on, so that its failure
    /// is handled there.
    pub fn handle_awaited(&mut self, task_id: BlockingTaskId)
        requires
            old(self).wf(),
        ensures
            final(self).wf(),
            final(self).actor() == old(self).actor(),
            final(self).max_running() == old(self).max_running(),
            final(self).closed() == old(self).closed(),
            final(self).issued() == old(self).issued(),
            final(self).order() == old(self).order_after(
                task_id.number(),
                final(self).tasks().contains_key(task_id.number()),
            ),
            noted(
                old(self).tasks(),
                task_id.number(),
                TaskNews::HandleAwaited,
                None,
                final(self).tasks(),
            ),
    {
        broadcast use BlockingTaskEntry::with_keeps_identity;

        let restated = match self.tasks.get(&task_id) {
            Some(entry) => match entry.failure {
                None => Some(entry.restated(HandleState::Awaited, None)),
                Some(_) => None,
            },
            None => None,
        };
        match restated {
            Some(entry) => {
                let _ = self.tasks.insert(task_id, entry);
            },
            None => {
                let _ = self.tasks.remove(&task_id);
            },
        }
        proof {
            Self::no_task_started(*old(self), *self, task_id.number());
        }
    }

    /// Notes that the handle of a task was dropped. If nobody waited on it, a
    /// failure is the actor's from now on: one that has already happened is
    /// returned.
    pub fn handle_dropped(&mut self, task_id: BlockingTaskId) -> (r: Option<BlockingTaskFailure>)
        requires
            old(self).wf(),
        ensures
            final(self).wf(),
            final(self).actor() == old(self).actor(),
            final(self).max_running() == old(self).max_running(),
            final(self).closed() == old(self).closed(),
            final(self).issued() == old(self).issued(),
            final(self).order() == old(self).order_after(
                task_id.number(),
                final(self).tasks().contains_key(task_id.number()),
            ),
            noted(
                old(self).tasks(),
                task_id.number(),
                TaskNews::HandleDropped,
                r,
                final(self).tasks(),
            ),
    {
        broadcast use BlockingTaskEntry::with_keeps_identity;

        let (ended, held) = match self.tasks.get(&task_id) {
            Some(entry) => (entry.failure.is_some(), entry.handle == HandleState::Held),
            None => return None,
        };
        if ended {
            let r = match self.tasks.remove(&task_id) {
                Some(entry) => match entry.failure {
                    Some(error) => Some(BlockingTaskFailure::new(entry.id, entry.name, error)),
                    None => None,
                },
                None => None,
            };
            proof {
                Self::no_task_started(*old(self), *self, task_id.number());
            }
            return r;
        }
        if held {
            let restated = match self.tasks.get(&task_id) {
                Some(entry) => entry.restated(HandleState::Dropped, None),
                None => return None,
            };
            let _ = self.tasks.insert(task_id, restated);
            proof {
                Self::no_task_started(*old(self), *self, task_id.number());
            }
        }
        None
    }

    /// Notes that a task has ended. A failure that nobody can wait for any more
    /// is returned, for the actor to fail with. Cancellation is no failure.
    pub fn completed(
        &mut self,
        task_id: BlockingTaskId,
        result: Result<(), BlockingTaskError>,
    ) -> (r: Option<BlockingTaskFailure>)
        requires
            old(self).wf(),
        ensures
            final(self).wf(),
            final(self).actor() == old(self).actor(),
            final(self).max_running() == old(self).max_running(),
            final(self).closed() == old(self).closed(),
            final(self).issued() == old(self).issued(),
            final(self).order() == old(self).order_after(
                task_id.number(),
                final(self).tasks().contains_key(task_id.number()),
            ),
            noted(
                old(self).tasks(),
                task_id.number(),
                TaskNews::Ended(result),
                r,
                final(self).tasks(),
            ),
    {
        broadcast use BlockingTaskEntry::with_keeps_identity;

        let handle = match self.tasks.get(&task_id) {
            Some(entry) => {
                if entry.failure.is_some() {
                    return None;
                }
                entry.handle
            },
            None => return None,
        };
        let failure = match result {
            Ok(()) => None,
            Err(BlockingTaskError::Cancelled) => None,
            Err(error) => Some(error),
        };
        if let Some(error) = failure {
            if handle == HandleState::Held {
                let restated = match self.tasks.get(&task_id) {
                    Some(entry) => entry.restated(HandleState::Held, Some(error)),
                    None => return None,
                };
                let _ = self.tasks.insert(task_id, restated);
                proof {
                    Self::no_task_started(*old(self), *self, task_id.number());
                }
                return None;
            }
            let removed = self.tasks.remove(&task_id);
            proof {
                Self::no_task_started(*old(self), *self, task_id.number());
            }
            return match removed {
                Some(entry) => match handle {
                    HandleState::Dropped => Some(
                        BlockingTaskFailure::new(entry.id, entry.name, error),
                    ),
                    _ => None,
                },
                None => None,
            };
        }
        let _ = self.tasks.remove(&task_id);
        proof {
            Self::no_task_started(*old(self), *self, task_id.number());
        }
        None
    }

    /// Takes a task off the books.
    pub fn take_task(&mut self, task_id: BlockingTaskId) -> (r: Option<BlockingTaskEntry>)
        requires
            old(self).wf(),
        ensures
            final(self).wf(),
            final(self).actor() == old(self).actor(),
            final(self).max_running() == old(self).max_running(),
            final(self).closed() == old(self).closed(),
            final(self).issued() == old(self).issued(),
            final(self).order() == old(self).order_after(
                task_id.number(),
                final(self).tasks().contains_key(task_id.number()),
            ),
            final(self).tasks() == old(self).tasks().remove(task_id.number()),
            match r {
                Some(entry) => old(self).tasks().contains_key(task_id.number()) && entry == old(
                    self,
                ).tasks()[task_id.number()],
                None => !old(self).tasks().contains_key(task_id.number()),
            },
    {
        let r = self.tasks.remove(&task_id);
        proof {
            Self::no_task_started(*old(self), *self, task_id.number());
        }
        r
    }

    /// Closes the books: new work is turned away from now on, every task on
    /// them is asked to stop, and all of them are handed over, oldest first.
    pub fn close_and_take_all(&mut self) -> (r: Vec<BlockingTaskEntry>)
        requires
            old(self).wf(),
        ensures
            final(self).wf(),
            final(self).actor() == old(self).actor(),
            final(self).max_running() == old(self).max_running(),
            final(self).issued() == old(self).issued(),
            final(self).closed(),
            final(self).tasks() == Map::<nat, BlockingTaskEntry>::empty(),
            final(self).order() == Seq::<nat>::empty(),
            r@.len() == old(self).order().len(),
            forall|i: int|
                0 <= i < r@.len() ==> #[trigger] r@[i] == old(self).tasks()[old(self).order()[i]]
                    && is_told(r@[i].stop()),
    {
        self.closing = true;
        let entries = self.tasks.take_all();
        assert(self.running() =~= Set::empty());
        let mut i: usize = 0;
        while i < entries.len()
            invariant
                i <= entries.len(),
                forall|j: int| 0 <= j < i ==> is_told((#[trigger] entries@[j]).stop()),
            decreases entries.len() - i,
        {
            entries[i].cancel.cancel();
            i = i + 1;
        }
        entries
    }

    /// Whether `result` is that of an actor whose future returned `actor_result`,
    /// given the first failure among its blocking tasks.
    pub open spec fn finishes_with(
        actor_result: ActorResult,
        first_failure: Option<BlockingTaskFailure>,
        result: ActorResult,
    ) -> bool {
        match (actor_result, first_failure) {
            (Err(error), _) => result == Err::<(), _>(error),
            (Ok(()), Some(failure)) => result == Err::<(), _>(BoxError::BlockingTask(failure)),
            (Ok(()), None) => result is Ok,
        }
    }

    /// The result of an actor whose future returned `actor_result`, given the
    /// first failure among its blocking tasks: the actor's own error goes first.
    pub fn finish(actor_result: ActorResult, first_failure: Option<BlockingTaskFailure>) -> (r:
        ActorResult)
        ensures
            Self::finishes_with(actor_result, first_failure, r),
    {
        match actor_result {
            Err(error) => Err(error),
            Ok(()) => match first_failure {
                Some(failure) => Err(BoxError::BlockingTask(failure)),
                None => Ok(()),
            },
        }
    }

    /// Keeps the first of several failures.
    pub fn first_failure(
        known: Option<BlockingTaskFailure>,
        next: Option<BlockingTaskFailure>,
    ) -> (r: Option<BlockingTaskFailure>)
        ensures
            r == match known {
                Some(failure) => Some(failure),
                None => next,
            },
    {
        match known {
            Some(failure) => Some(failure),
            None => next,
        }
    }
}

} // verus!
