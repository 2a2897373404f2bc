//! Building a supervisor.

use vstd::prelude::*;

use crate::supervisor::child::ChildSpec;
use crate::supervisor::error::BuildError;
use crate::supervisor::restart::RestartIntensity;
use crate::supervisor::runtime::supervision::membership::spec_flaw;
use crate::supervisor::strategy::Strategy;
use crate::supervisor::supervisor::Supervisor;
use crate::text::same_text;

verus! {

/// Commands that may be waiting by default.
pub const DEFAULT_CONTROL_CHANNEL_CAPACITY: usize = 64;

/// Events that a slow subscriber may fall behind by default.
pub const DEFAULT_EVENT_CHANNEL_CAPACITY: usize = 256;

/// How a supervisor is configured.
pub ghost struct Plan<F> {
    pub strategy: Strategy,
    pub restart_intensity: RestartIntensity,
    pub children: Seq<ChildSpec<F>>,
    pub control_channel_capacity: usize,
    pub event_channel_capacity: usize,
}

/// What can be wrong with a configuration.
pub ghost enum PlanFlaw {
    NoChildren,
    Invalid(Seq<char>),
    DuplicateChild(Seq<char>),
}

/// The ids of some children.
pub open spec fn child_ids<F>(children: Seq<ChildSpec<F>>) -> Seq<Seq<char>> {
    children.map_values(|child: ChildSpec<F>| child.policies().id@)
}

/// What is wrong with the first of `children` that has a flaw: one of its own,
/// or the id of an earlier one.
pub open spec fn children_flaw<F>(children: Seq<ChildSpec<F>>) -> Option<PlanFlaw>
    decreases children.len(),
{
    if children.len() == 0 {
        None
    } else {
        let before = children.drop_last();
        let spec = children.last().policies();
        match children_flaw(before) {
            Some(flaw) => Some(flaw),
            None => match spec_flaw(spec) {
                Some(detail) => Some(PlanFlaw::Invalid(detail)),
                None => if child_ids(before).contains(spec.id@) {
                    Some(PlanFlaw::DuplicateChild(spec.id@))
                } else {
                    None
                },
            },
        }
    }
}

impl<F> Plan<F> {
    /// The flaw that a build with this configuration reports. Flaws are looked
    /// for in the supervisor's own settings first, then in its children in
    /// order.
    pub open spec fn flaw(self) -> Option<PlanFlaw> {
        if self.children.len() == 0 {
            Some(PlanFlaw::NoChildren)
        } else if self.control_channel_capacity == 0 {
            Some(PlanFlaw::Invalid("control channel capacity must be non-zero"@))
        } else if self.event_channel_capacity == 0 {
            Some(PlanFlaw::Invalid("event channel capacity must be non-zero"@))
        } else if self.restart_intensity.flaw() is Some {
            Some(PlanFlaw::Invalid(self.restart_intensity.flaw()->Some_0))
        } else {
            children_flaw(self.children)
        }
    }
}

/// Whether `error` reports `flaw`.
pub open spec fn reports(error: BuildError, flaw: PlanFlaw) -> bool {
    match flaw {
        PlanFlaw::NoChildren => error is EmptyChildren,
        PlanFlaw::Invalid(text) => error matches BuildError::InvalidConfig(detail) && detail@
            == text,
        PlanFlaw::DuplicateChild(id) => error matches BuildError::DuplicateChildId(text) && text@
            == id,
    }
}

/// Builder for a supervisor.
#[derive(Debug)]
pub struct SupervisorBuilder<F> {
    strategy: Strategy,
    restart_intensity: RestartIntensity,
    children: Vec<ChildSpec<F>>,
    control_channel_capacity: usize,
    event_channel_capacity: usize,
}

impl<F> SupervisorBuilder<F> {
    /// The configuration so far.
    pub closed spec fn plan(&self) -> Plan<F> {
        Plan {
            strategy: self.strategy,
            restart_intensity: self.restart_intensity,
            children: self.children@,
            control_channel_capacity: self.control_channel_capacity,
            event_channel_capacity: self.event_channel_capacity,
        }
    }

    /// Creates a builder without children and with default settings.
    pub fn new() -> (r: Self)
        ensures
            r.plan().strategy is OneForOne,
            r.plan().restart_intensity.max_restarts == 5,
            r.plan().restart_intensity.within@ == 30_000_000_000,
            r.plan().restart_intensity.backoff is Immediate,
            r.plan().children.len() == 0,
            r.plan().control_channel_capacity == DEFAULT_CONTROL_CHANNEL_CAPACITY,
            r.plan().event_channel_capacity == DEFAULT_EVENT_CHANNEL_CAPACITY,
    {
        SupervisorBuilder {
            strategy: Strategy::default(),
            restart_intensity: RestartIntensity::default(),
            children: Vec::new(),
            control_channel_capacity: DEFAULT_CONTROL_CHANNEL_CAPACITY,
            event_channel_capacity: DEFAULT_EVENT_CHANNEL_CAPACITY,
        }
    }

    /// Sets the restart strategy.
    #[must_use]
    pub fn strategy(self, strategy: Strategy) -> (r: Self)
        ensures
            r.plan() == (Plan { strategy, ..self.plan() }),
    {
        let mut this = self;
        this.strategy = strategy;
        this
    }

    /// Sets the restart intensity of children that have none of their own.
    #[must_use]
    pub fn restart_intensity(self, intensity: RestartIntensity) -> (r: Self)
        ensures
            r.plan() == (Plan { restart_intensity: intensity, ..self.plan() }),
    {
        let mut this = self;
        this.restart_intensity = intensity;
        this
    }

    /// Appends a child.
    #[must_use]
    pub fn child(self, child: ChildSpec<F>) -> (r: Self)
        ensures
            r.plan() == (Plan { children: self.plan().children.push(child), ..self.plan() }),
    {
        let mut this = self;
        this.children.push(child);
        this
    }

    /// Sets how many commands may be waiting.
    #[must_use]
    pub fn control_channel_capacity(self, capacity: usize) -> (r: Self)
        ensures
            r.plan() == (Plan { control_channel_capacity: capacity, ..self.plan() }),
    {
        let mut this = self;
        this.control_channel_capacity = capacity;
        this
    }

    /// Sets how many events a slow subscriber may fall behind.
    #[must_use]
    pub fn event_channel_capacity(self, capacity: usize) -> (r: Self)
        ensures
            r.plan() == (Plan { event_channel_capacity: capacity, ..self.plan() }),
    {
        let mut this = self;
        this.event_channel_capacity = capacity;
        this
    }

    fn check_children(&self) -> (r: Result<(), BuildError>)
        ensures
            match (r, children_flaw(self.plan().children)) {
                (Ok(()), None) => {
                    let ids = child_ids(self.plan().children);
                    ids.no_duplicates() && forall|k: int|
                        0 <= k < ids.len() ==> (#[trigger] ids[k]).len() > 0
                },
                (Err(error), Some(flaw)) => reports(error, flaw),
                _ => false,
            },
    {
        let ghost children = self.plan().children;
        let mut i: usize = 0;
        while i < self.children.len()
            invariant
                i <= self.children.len(),
                children == self.children@,
                children_flaw(children.take(i as int)) is None,
                child_ids(children.take(i as int)).no_duplicates(),
                forall|k: int|
                    0 <= k < i ==> (#[trigger] child_ids(children.take(i as int))[k]).len() > 0,
            decreases self.children.len() - i,
        {
            let ghost before = children.take(i as int);
            let ghost after = children.take(i as int + 1);
            let spec = self.children[i].inner();
            proof {
                assert(after.drop_last() =~= before);
                assert(after.last() == children[i as int]);
                assert(child_ids(after) =~= child_ids(before).push(spec.id@));
                if children_flaw(after) is Some {
                    lemma_children_flaw_stays(children, i as int + 1);
                }
            }
            if spec.id.as_str().is_empty() {
                return Err(BuildError::InvalidConfig("child id must not be empty"));
            }
            if let Some(intensity) = &spec.restart_intensity {
                if let Err(error) = intensity.validate() {
                    return Err(error);
                }
            }
            let mut j: usize = 0;
            while j < i
                invariant
                    j <= i < self.children.len(),
                    children == self.children@,
                    before == children.take(i as int),
                    *spec == children[i as int].policies(),
                    after == children.take(i as int + 1),
                    spec_flaw(*spec) is None,
                    children_flaw(before) is None,
                    after.drop_last() == before,
                    after.last() == children[i as int],
                    children_flaw(after) is Some ==> children_flaw(children) == children_flaw(
                        after,
                    ),
                    forall|k: int|
                        0 <= k < j ==> (#[trigger] child_ids(before)[k]) != spec.id@,
                decreases i - j,
            {
                assert(child_ids(before)[j as int] == children[j as int].policies().id@);
                if same_text(self.children[j].id(), spec.id.as_str()) {
                    assert(child_ids(before).contains(spec.id@));
                    return Err(BuildError::DuplicateChildId(spec.id.clone()));
                }
                j = j + 1;
            }
            i = i + 1;
        }
        assert(children.take(i as int) =~= children);
        Ok(())
    }

    /// Checks the configuration and returns a [`Supervisor`].
    pub fn build(self) -> (r: Result<Supervisor<F>, BuildError>)
        ensures
            match (r, self.plan().flaw()) {
                (Ok(supervisor), None) => supervisor.wf() && supervisor.plan() == self.plan(),
                (Err(error), Some(flaw)) => reports(error, flaw),
                _ => false,
            },
    {
        if self.children.len() == 0 {
            return Err(BuildError::EmptyChildren);
        }
        if self.control_channel_capacity == 0 {
            return Err(BuildError::InvalidConfig("control channel capacity must be non-zero"));
        }
        if self.event_channel_capacity == 0 {
            return Err(BuildError::InvalidConfig("event channel capacity must be non-zero"));
        }
        if let Err(error) = self.restart_intensity.validate() {
            return Err(error);
        }
        if let Err(error) = self.check_children() {
            return Err(error);
        }
        Ok(
            Supervisor::new(
                self.strategy,
                self.restart_intensity,
                self.children,
                self.control_channel_capacity,
                self.event_channel_capacity,
            ),
        )
    }
}

impl<F> Default for SupervisorBuilder<F> {
    fn default() -> (r: Self)
        ensures
            r.plan().strategy is OneForOne,
            r.plan().restart_intensity.max_restarts == 5,
            r.plan().restart_intensity.within@ == 30_000_000_000,
            r.plan().restart_intensity.backoff is Immediate,
            r.plan().children.len() == 0,
            r.plan().control_channel_capacity == DEFAULT_CONTROL_CHANNEL_CAPACITY,
            r.plan().event_channel_capacity == DEFAULT_EVENT_CHANNEL_CAPACITY,
    {
        SupervisorBuilder::new()
    }
}

proof fn lemma_children_flaw_stays<F>(children: Seq<ChildSpec<F>>, k: int)
    requires
        0 <= k <= children.len(),
        children_flaw(children.take(k)) is Some,
    ensures
        children_flaw(children) == children_flaw(children.take(k)),
    decreases children.len(),
{
    if k < children.len() {
        let before = children.drop_last();
        assert(before.take(k) =~= children.take(k));
        lemma_children_flaw_stays(before, k);
    } else {
        assert(children.take(k) =~= children);
    }
}

} // verus!
