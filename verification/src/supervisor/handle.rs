//! Controlling a running supervisor.

use tokio::sync::mpsc;
use vstd::prelude::*;

use crate::directory::Directory;
use crate::queues::{offer, refused_messages_come_back, responds, Ledger, TrySendFailure};
use crate::supervisor::child::ChildSpec;
use crate::supervisor::error::{ControlError, SupervisorError, SupervisorExit};
use crate::text::{copy_texts, join, joined, texts};

verus! {

/// A request to a running supervisor.
#[derive(Debug)]
pub enum SupervisorCommand<F> {
    /// Take the child in.
    AddChild(ChildSpec<F>),
    /// Let the child with the id go.
    RemoveChild(String),
}

/// Where requests to a supervisor go. `C` is a request together with the way to
/// answer it.
#[derive(Debug)]
#[verifier::reject_recursive_types(C)]
pub struct ControlEndpoint<C> {
    command_tx: mpsc::Sender<C>,
}

impl<C> Clone for ControlEndpoint<C> {
    fn clone(&self) -> (r: Self)
        ensures
            r == *self,
    {
        ControlEndpoint { command_tx: self.command_tx.clone() }
    }
}

impl<C> ControlEndpoint<C> {
    /// The channel behind it.
    pub closed spec fn outlet(&self) -> mpsc::Sender<C> {
        self.command_tx
    }

    /// An endpoint for the supervisor that receives from the channel.
    pub fn new(command_tx: mpsc::Sender<C>) -> (r: Self)
        ensures
            r.outlet() == command_tx,
    {
        ControlEndpoint { command_tx }
    }

    /// The channel through which a request waits for room.
    pub fn sender(&self) -> (r: &mpsc::Sender<C>)
        ensures
            *r == self.outlet(),
    {
        &self.command_tx
    }

    /// What becomes of a request that does not wait for room, given what the
    /// channel answered.
    pub open spec fn queued_as(outcome: Result<(), TrySendFailure<C>>) -> Result<(), ControlError> {
        match outcome {
            Ok(()) => Ok(()),
            Err(TrySendFailure::Full(_)) => Err(ControlError::Busy),
            Err(TrySendFailure::Closed(_)) => Err(ControlError::Unavailable),
        }
    }

    /// Whether an attempt to queue `command` without waiting comes to `result`:
    /// the channel is offered the request, and its answer decides.
    pub open spec fn tried(&self, command: C, result: Result<(), ControlError>) -> bool {
        exists|outcome: Result<(), TrySendFailure<C>>| #[trigger]
            responds(self.outlet(), command, outcome) && result == Self::queued_as(outcome)
    }

    /// What becomes of a request that does not wait for room, given whether the
    /// channel took it.
    pub fn queued(outcome: Result<(), TrySendFailure<C>>) -> (r: Result<(), ControlError>)
        ensures
            r == Self::queued_as(outcome),
    {
        match outcome {
            Ok(()) => Ok(()),
            Err(TrySendFailure::Full(_)) => Err(ControlError::Busy),
            Err(TrySendFailure::Closed(_)) => Err(ControlError::Unavailable),
        }
    }

    /// Queues a request if there is room for it. Whether there is depends on the
    /// channel at the time.
    pub fn try_send(&self, command: C) -> (r: Result<(), ControlError>)
        ensures
            self.tried(command, r),
    {
        let mut ledger = Ledger::new();
        let outcome = offer(&self.command_tx, command, &mut ledger);
        let r = ControlEndpoint::<C>::queued(outcome);
        assert(responds(self.outlet(), command, outcome));
        r
    }

    /// What a request that waited for room is answered, given what came back.
    pub open spec fn answered_as(reply: Option<Result<(), ControlError>>) -> Result<
        (),
        ControlError,
    > {
        match reply {
            Some(answer) => answer,
            None => Err(ControlError::Unavailable),
        }
    }

    /// What a request that waited for room is answered, given what came back:
    /// nothing if it was not taken, or taken and dropped.
    pub fn answer(reply: Option<Result<(), ControlError>>) -> (r: Result<(), ControlError>)
        ensures
            r == Self::answered_as(reply),
    {
        match reply {
            Some(answer) => answer,
            None => Err(ControlError::Unavailable),
        }
    }
}

/// The supervisors of a tree that can be reached for control, by path below the
/// root.
#[derive(Debug)]
pub struct NestedControlRegistry<E> {
    endpoints: Directory<Vec<String>, E>,
}

impl<E> Default for NestedControlRegistry<E> {
    fn default() -> (r: Self)
        ensures
            r.endpoints() == Map::<Seq<Seq<char>>, E>::empty(),
    {
        NestedControlRegistry { endpoints: Directory::new() }
    }
}

impl<E> NestedControlRegistry<E> {
    /// The endpoints by path.
    pub closed spec fn endpoints(&self) -> Map<Seq<Seq<char>>, E> {
        self.endpoints@
    }

    /// Makes the supervisor at `path` known, in place of another one there.
    pub fn insert(&mut self, path: Vec<String>, endpoint: E)
        ensures
            final(self).endpoints() == old(self).endpoints().insert(texts(path@), endpoint),
    {
        let _ = self.endpoints.insert(path, endpoint);
    }

    /// Forgets the supervisor at `path`.
    pub fn remove(&mut self, path: &Vec<String>)
        ensures
            final(self).endpoints() == old(self).endpoints().remove(texts(path@)),
    {
        let _ = self.endpoints.remove(path);
    }

    /// The supervisor at `path`.
    pub fn get(&self, path: &Vec<String>) -> (r: Option<&E>)
        ensures
            match r {
                Some(endpoint) => self.endpoints().contains_key(texts(path@)) && *endpoint
                    == self.endpoints()[texts(path@)],
                None => !self.endpoints().contains_key(texts(path@)),
            },
    {
        self.endpoints.get(path)
    }

    /// The supervisor that a path below the one at `prefix` leads to.
    pub fn endpoint_for_path(&self, prefix: &Vec<String>, relative_path: &Vec<String>) -> (r: Result<
        &E,
        ControlError,
    >)
        ensures
            ({
                let path = texts(prefix@) + texts(relative_path@);
                match r {
                    Ok(endpoint) => self.endpoints().contains_key(path) && *endpoint
                        == self.endpoints()[path],
                    Err(ControlError::UnknownChildId(name)) => !self.endpoints().contains_key(path)
                        && name@ == joined(path, "."@),
                    Err(_) => false,
                }
            }),
    {
        let mut path = copy_texts(prefix);
        let mut i: usize = 0;
        assert(relative_path@.take(0) =~= Seq::empty());
        assert(path@ =~= prefix@ + relative_path@.take(0));
        while i < relative_path.len()
            invariant
                i <= relative_path.len(),
                path@ == prefix@ + relative_path@.take(i as int),
            decreases relative_path.len() - i,
        {
            path.push(relative_path[i].clone());
            assert(path@ =~= prefix@ + relative_path@.take(i as int + 1));
            i = i + 1;
        }
        proof {
            assert(relative_path@.take(i as int) =~= relative_path@);
            assert(texts(path@) =~= texts(prefix@) + texts(relative_path@));
        }
        match self.get(&path) {
            Some(endpoint) => Ok(endpoint),
            None => Err(ControlError::UnknownChildId(join(&path, "."))),
        }
    }

    /// The supervisor that a path below the one at `prefix` leads to, or nothing
    /// if the path is empty and means that one itself.
    pub fn endpoint_for_relative_path(
        &self,
        prefix: &Vec<String>,
        relative_path: &Vec<String>,
    ) -> (r: Result<Option<&E>, ControlError>)
        ensures
            ({
                let path = texts(prefix@) + texts(relative_path@);
                match r {
                    Ok(None) => relative_path@.len() == 0,
                    Ok(Some(endpoint)) => relative_path@.len() > 0 && self.endpoints().contains_key(
                        path,
                    ) && *endpoint == self.endpoints()[path],
                    Err(ControlError::UnknownChildId(name)) => relative_path@.len() > 0
                        && !self.endpoints().contains_key(path) && name@ == joined(path, "."@),
                    Err(_) => false,
                }
            }),
    {
        if relative_path.len() == 0 {
            return Ok(None);
        }
        match self.endpoint_for_path(prefix, relative_path) {
            Ok(endpoint) => Ok(Some(endpoint)),
            Err(error) => Err(error),
        }
    }
}

/// The place of a nested supervisor in its tree.
#[derive(Debug)]
pub struct NestedControlScope {
    child_path: Vec<String>,
}

impl Clone for NestedControlScope {
    fn clone(&self) -> (r: Self)
        ensures
            r.path() == self.path(),
    {
        NestedControlScope { child_path: copy_texts(&self.child_path) }
    }
}

impl NestedControlScope {
    /// The path of the supervisor below the root.
    pub closed spec fn path(&self) -> Seq<Seq<char>> {
        texts(self.child_path@)
    }

    /// The place at `child_path`.
    pub fn new(child_path: Vec<String>) -> (r: Self)
        ensures
            r.path() == texts(child_path@),
    {
        NestedControlScope { child_path }
    }

    /// The place of a child that runs outside of any tree: right below a root
    /// of its own.
    pub fn detached(child_id: String) -> (r: Self)
        ensures
            r.path() == seq![child_id@],
    {
        let mut child_path: Vec<String> = Vec::new();
        child_path.push(child_id);
        let r = NestedControlScope { child_path };
        assert(r.path() =~= seq![child_id@]);
        r
    }

    /// The path of the supervisor below the root.
    pub fn child_path(&self) -> (r: Vec<String>)
        ensures
            texts(r@) == self.path(),
    {
        copy_texts(&self.child_path)
    }

    /// Makes the supervisor at the place known.
    pub fn register<E>(&self, registry: &mut NestedControlRegistry<E>, endpoint: E)
        ensures
            final(registry).endpoints() == old(registry).endpoints().insert(self.path(), endpoint),
    {
        registry.insert(copy_texts(&self.child_path), endpoint);
    }

    /// Forgets the supervisor at the place.
    pub fn deregister<E>(&self, registry: &mut NestedControlRegistry<E>)
        ensures
            final(registry).endpoints() == old(registry).endpoints().remove(self.path()),
    {
        registry.remove(&self.child_path);
    }
}

/// A supervisor that was made known is found at its path, and no longer once it
/// is forgotten; others are not affected.
pub proof fn registration_round_trip<E>(
    before: Map<Seq<Seq<char>>, E>,
    path: Seq<Seq<char>>,
    endpoint: E,
)
    ensures
        before.insert(path, endpoint).contains_key(path),
        before.insert(path, endpoint)[path] == endpoint,
        !before.insert(path, endpoint).remove(path).contains_key(path),
        !before.contains_key(path) ==> before.insert(path, endpoint).remove(path) == before,
        forall|other: Seq<Seq<char>>|
            other != path ==> #[trigger] before.insert(path, endpoint).contains_key(other)
                == before.contains_key(other),
{
    assert(!before.contains_key(path) ==> before.insert(path, endpoint).remove(path) =~= before);
}

/// How a supervisor came to an end.
pub type SupervisorResult = Result<SupervisorExit, SupervisorError>;

/// How to find out how a supervisor came to an end.
#[derive(Debug)]
pub enum WaitPlan {
    /// It is known already.
    Known(SupervisorResult),
    /// Join the supervisor's task, which nobody else does.
    Join,
    /// Somebody else joins the task. Follow what they find out.
    Follow,
}

/// Whether somebody joins a supervisor's task.
#[derive(Debug)]
pub struct JoinState {
    claimed: bool,
}

impl JoinState {
    /// Whether somebody joins the task, or has done so.
    pub closed spec fn is_claimed(&self) -> bool {
        self.claimed
    }

    /// How to find out, given whether somebody joins the task and what is known
    /// already.
    pub open spec fn plan(claimed: bool, known: Option<SupervisorResult>) -> WaitPlan {
        match known {
            Some(result) => WaitPlan::Known(result),
            None => if claimed {
                WaitPlan::Follow
            } else {
                WaitPlan::Join
            },
        }
    }

    /// Whether joining the task comes to `result`, given what it returned, or why
    /// it could not be joined.
    pub open spec fn joins_as(
        joined: Result<SupervisorResult, String>,
        result: SupervisorResult,
    ) -> bool {
        match joined {
            Ok(returned) => result == returned,
            Err(why) => result matches Err(SupervisorError::Internal(detail)) && detail@
                == "supervisor task failed to join: "@ + why@,
        }
    }

    /// Whether following comes to `result`, given what there is to see in the end.
    pub open spec fn follows_as(
        published: Option<Option<SupervisorResult>>,
        result: SupervisorResult,
    ) -> bool {
        match published {
            None => result matches Err(SupervisorError::Internal(detail)) && detail@
                == "supervisor completion channel closed"@,
            Some(None) => result matches Err(SupervisorError::Internal(detail)) && detail@
                == "missing supervisor completion result"@,
            Some(Some(seen)) => result == seen,
        }
    }

    /// Nobody does yet.
    pub fn new() -> (r: Self)
        ensures
            !r.is_claimed(),
    {
        JoinState { claimed: false }
    }

    /// Decides how to find out how the supervisor came to an end, given what is
    /// known already. The first to ask joins the task, the others follow.
    pub fn wait(&mut self, known: Option<SupervisorResult>) -> (r: WaitPlan)
        ensures
            r == Self::plan(old(self).is_claimed(), known),
            final(self).is_claimed() == (old(self).is_claimed() || known is None),
    {
        match known {
            Some(result) => WaitPlan::Known(result),
            None => {
                if self.claimed {
                    WaitPlan::Follow
                } else {
                    self.claimed = true;
                    WaitPlan::Join
                }
            },
        }
    }

    /// What joining the task comes to, given what it returned, or why it could
    /// not be joined.
    pub fn join_result(joined: Result<SupervisorResult, String>) -> (r: SupervisorResult)
        ensures
            Self::joins_as(joined, r),
    {
        match joined {
            Ok(result) => result,
            Err(why) => {
                let mut detail = "supervisor task failed to join: ".to_owned();
                detail.append(why.as_str());
                Err(SupervisorError::Internal(detail))
            },
        }
    }

    /// What following comes to: `published` is what there is to see in the end,
    /// or nothing at all if there is no one left to publish it.
    pub fn follow_result(published: Option<Option<SupervisorResult>>) -> (r: SupervisorResult)
        ensures
            Self::follows_as(published, r),
    {
        match published {
            None => Err(
                SupervisorError::Internal("supervisor completion channel closed".to_owned()),
            ),
            Some(None) => Err(
                SupervisorError::Internal("missing supervisor completion result".to_owned()),
            ),
            Some(Some(result)) => result,
        }
    }
}

/// What those who wait for a supervisor share.
pub ghost struct WaitState {
    /// Whether somebody joins the task.
    pub claimed: bool,
    /// Whether whoever joins the task has done so.
    pub joined: bool,
    /// What the task returned, or why it could not be joined, once it has ended.
    pub ended: Option<Result<SupervisorResult, String>>,
    /// What has been published.
    pub published: Option<SupervisorResult>,
}

/// What can happen to those who wait for a supervisor.
pub ghost enum WaitEvent {
    /// The task ends. What it returns it publishes itself.
    Ended(Result<SupervisorResult, String>),
    /// Somebody asks how to find out.
    Asked,
    /// Whoever joins the task has done so, and publishes what came of it.
    Joined(SupervisorResult),
}

impl WaitState {
    /// Nobody waits, and the task has not ended.
    pub open spec fn is_initial(self) -> bool {
        !self.claimed && !self.joined && self.ended is None && self.published is None
    }

    /// Whether `event` can lead from here to `after`.
    pub open spec fn advances(self, event: WaitEvent, after: WaitState) -> bool {
        match event {
            WaitEvent::Ended(joined) => {
                &&& self.ended is None
                &&& after == (WaitState {
                    ended: Some(joined),
                    published: match joined {
                        Ok(result) => Some(result),
                        Err(_) => self.published,
                    },
                    ..self
                })
            },
            WaitEvent::Asked => after == (WaitState {
                claimed: self.claimed || self.published is None,
                ..self
            }),
            WaitEvent::Joined(result) => {
                &&& self.claimed && !self.joined
                &&& self.ended matches Some(joined) && JoinState::joins_as(joined, result)
                &&& after == (WaitState { joined: true, published: Some(result), ..self })
            },
        }
    }
}

/// Whether `states` is a course of what those who wait share.
pub open spec fn wait_course(events: Seq<WaitEvent>, states: Seq<WaitState>) -> bool {
    &&& states.len() == events.len() + 1
    &&& states[0].is_initial()
    &&& forall|i: int|
        0 <= i < events.len() ==> (#[trigger] states[i]).advances(events[i], states[i + 1])
}

/// Whether somebody who asks in the state number `asked` can be given `result` in
/// the state number `at`: what is known, what the join has come to, or what
/// there is to see in the end.
pub open spec fn wait_gives(
    states: Seq<WaitState>,
    asked: int,
    at: int,
    result: SupervisorResult,
) -> bool {
    &&& 0 <= asked <= at < states.len()
    &&& match JoinState::plan(states[asked].claimed, states[asked].published) {
        WaitPlan::Known(known) => result == known,
        WaitPlan::Join => states[at].joined && states[at].published == Some(result),
        WaitPlan::Follow => states[at].published is Some && JoinState::follows_as(
            Some(states[at].published),
            result,
        ),
    }
}

proof fn lemma_published_stays(events: Seq<WaitEvent>, states: Seq<WaitState>, from: int, to: int)
    requires
        wait_course(events, states),
        0 <= from <= to < states.len(),
    ensures
        states[to].published matches Some(result) ==> match states[to].ended {
            None => false,
            Some(Ok(returned)) => result == returned,
            Some(Err(why)) => states[to].joined && JoinState::joins_as(Err(why), result),
        },
        states[from].published is Some ==> states[to].published == states[from].published,
    decreases to,
{
    if to > 0 {
        lemma_published_stays(events, states, if from < to {
            from
        } else {
            to - 1
        }, to - 1);
        assert(states[to - 1].advances(events[to - 1], states[to]));
    }
}

/// Everybody who waits for a supervisor is given the same result, whether they
/// ask first, together with others or later. If the supervisor's task could be
/// joined it is what the supervisor returned, and it is an orderly end only then.
pub proof fn every_wait_gives_one_result(
    events: Seq<WaitEvent>,
    states: Seq<WaitState>,
    one_asked: int,
    one_at: int,
    one: SupervisorResult,
    other_asked: int,
    other_at: int,
    other: SupervisorResult,
)
    requires
        wait_course(events, states),
        wait_gives(states, one_asked, one_at, one),
        wait_gives(states, other_asked, other_at, other),
    ensures
        one == other,
        states.last().ended matches Some(Ok(returned)) ==> one == returned,
        one is Ok ==> states.last().ended == Some(Ok::<_, String>(one)),
{
    let last = states.len() - 1;
    lemma_published_stays(events, states, one_asked, last);
    lemma_published_stays(events, states, one_at, last);
    lemma_published_stays(events, states, other_asked, last);
    lemma_published_stays(events, states, other_at, last);
}

/// A request that is answered that the control plane is busy was not queued: the
/// channel handed it back.
pub proof fn busy_requests_are_not_queued<C>(endpoint: ControlEndpoint<C>, command: C)
    requires
        endpoint.tried(command, Err(ControlError::Busy)),
    ensures
        responds(endpoint.outlet(), command, Err(TrySendFailure::Full(command))),
{
    let outcome = choose|outcome: Result<(), TrySendFailure<C>>| #[trigger]
        responds(endpoint.outlet(), command, outcome) && Err::<(), _>(ControlError::Busy)
            == ControlEndpoint::queued_as(outcome);
    refused_messages_come_back(endpoint.outlet(), command, outcome);
}

/// What a request that does not wait is answered is up to the channel alone: it is
/// queued if the channel took it, busy if the channel was full, and unavailable if
/// nobody receives from the channel any more.
pub proof fn answers_follow_the_channel<C>(
    endpoint: ControlEndpoint<C>,
    command: C,
    result: Result<(), ControlError>,
)
    requires
        endpoint.tried(command, result),
    ensures
        match result {
            Ok(()) => responds(endpoint.outlet(), command, Ok(())),
            Err(ControlError::Busy) => responds(
                endpoint.outlet(),
                command,
                Err(TrySendFailure::Full(command)),
            ),
            Err(ControlError::Unavailable) => responds(
                endpoint.outlet(),
                command,
                Err(TrySendFailure::Closed(command)),
            ),
            Err(_) => false,
        },
{
    let outcome = choose|outcome: Result<(), TrySendFailure<C>>| #[trigger]
        responds(endpoint.outlet(), command, outcome) && result
            == ControlEndpoint::<C>::queued_as(outcome);
    refused_messages_come_back(endpoint.outlet(), command, outcome);
    if let Ok(nothing) = outcome {
        assert(nothing == ());
    }
}

} // verus!
