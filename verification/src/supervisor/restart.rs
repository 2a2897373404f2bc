//! When, how often and how soon a child is restarted.

use vstd::prelude::*;

use crate::supervisor::error::BuildError;
use crate::time::Duration;

verus! {

/// Controls whether a child is restarted after it exits.
#[derive(Clone, Copy, Debug, PartialEq, Eq, Structural)]
pub enum Restart {
    /// Always restart the child, regardless of exit status.
    Permanent,
    /// Restart only on failure. A clean exit is treated as intentional
    /// completion.
    Transient,
    /// Never restart. The child runs at most once.
    Temporary,
}

impl Default for Restart {
    fn default() -> (r: Self)
        ensures
            r is Transient,
    {
        Restart::Transient
    }
}

impl Restart {
    /// Whether a child with this policy is restarted after an exit.
    pub open spec fn restarts(self, is_failure: bool) -> bool {
        match self {
            Restart::Permanent => true,
            Restart::Transient => is_failure,
            Restart::Temporary => false,
        }
    }

    /// Whether a child with this policy is to be restarted after an exit.
    pub fn should_restart(self, is_failure: bool) -> (r: bool)
        ensures
            r == self.restarts(is_failure),
    {
        match self {
            Restart::Permanent => true,
            Restart::Transient => is_failure,
            Restart::Temporary => false,
        }
    }
}

/// Delay strategy applied between restart attempts.
#[derive(Clone, Copy, Debug, PartialEq, Eq, Structural)]
pub enum BackoffPolicy {
    /// Restart immediately with no delay.
    Immediate,
    /// Wait a constant duration before every restart attempt.
    Fixed(Duration),
    /// Wait an exponentially increasing duration: `base * factor^attempt`,
    /// clamped to `max`. The attempt count is the number of restarts recorded
    /// within the current intensity window.
    Exponential {
        /// Initial delay applied on the first restart.
        base: Duration,
        /// Multiplicative factor applied per attempt.
        factor: u32,
        /// Upper bound on the computed delay.
        max: Duration,
    },
    /// Same progression as [`Exponential`](BackoffPolicy::Exponential), but
    /// each delay is jittered into its upper half.
    JitteredExponential {
        /// Initial delay applied on the first restart.
        base: Duration,
        /// Multiplicative factor applied per attempt.
        factor: u32,
        /// Upper bound on the computed delay before jitter is applied.
        max: Duration,
    },
}

impl Default for BackoffPolicy {
    fn default() -> (r: Self)
        ensures
            r is Immediate,
    {
        BackoffPolicy::Immediate
    }
}

/// What a policy with a base, a factor and a bound gets wrong.
pub open spec fn exponential_flaw(base: Duration, factor: u32, max: Duration) -> Option<Seq<char>> {
    if base@ == 0 {
        Some("exponential backoff base must be non-zero"@)
    } else if factor == 0 {
        Some("exponential backoff factor must be non-zero"@)
    } else if max@ == 0 {
        Some("exponential backoff max must be non-zero"@)
    } else {
        None
    }
}

/// Whether `result` is what a check with this outcome returns.
pub open spec fn checked(result: Result<(), BuildError>, flaw: Option<Seq<char>>) -> bool {
    match (result, flaw) {
        (Ok(()), None) => true,
        (Err(BuildError::InvalidConfig(detail)), Some(text)) => detail@ == text,
        _ => false,
    }
}

impl BackoffPolicy {
    /// What the policy gets wrong.
    pub open spec fn flaw(self) -> Option<Seq<char>> {
        match self {
            BackoffPolicy::Immediate => None,
            BackoffPolicy::Fixed(delay) => if delay@ == 0 {
                Some("fixed backoff delay must be non-zero"@)
            } else {
                None
            },
            BackoffPolicy::Exponential { base, factor, max } => exponential_flaw(base, factor, max),
            BackoffPolicy::JitteredExponential { base, factor, max } => exponential_flaw(
                base,
                factor,
                max,
            ),
        }
    }

    /// Checks the policy.
    pub fn validate(self) -> (r: Result<(), BuildError>)
        ensures
            checked(r, self.flaw()),
    {
        match self {
            BackoffPolicy::Immediate => Ok(()),
            BackoffPolicy::Fixed(delay) => require_non_zero_duration(
                delay,
                "fixed backoff delay must be non-zero",
            ),
            BackoffPolicy::Exponential { base, factor, max } => validate_exponential(
                base,
                factor,
                max,
            ),
            BackoffPolicy::JitteredExponential { base, factor, max } => validate_exponential(
                base,
                factor,
                max,
            ),
        }
    }
}

fn validate_exponential(base: Duration, factor: u32, max: Duration) -> (r: Result<(), BuildError>)
    ensures
        checked(r, exponential_flaw(base, factor, max)),
{
    if let Err(error) = require_non_zero_duration(
        base,
        "exponential backoff base must be non-zero",
    ) {
        return Err(error);
    }
    if factor == 0 {
        return Err(BuildError::InvalidConfig("exponential backoff factor must be non-zero"));
    }
    require_non_zero_duration(max, "exponential backoff max must be non-zero")
}

/// Bounds on how often a child (or child group) may be restarted before the
/// supervisor gives up.
///
/// Tracks a sliding window of restart timestamps: if more than `max_restarts`
/// occur within `within`, the intensity limit is breached.
#[derive(Clone, Copy, Debug, PartialEq, Eq, Structural)]
pub struct RestartIntensity {
    /// Maximum number of restarts allowed inside the sliding window.
    pub max_restarts: usize,
    /// Length of the sliding window. Must be non-zero.
    pub within: Duration,
    /// Delay strategy inserted before each restart attempt.
    pub backoff: BackoffPolicy,
}

impl Default for RestartIntensity {
    /// Five restarts within thirty seconds, with no backoff.
    fn default() -> (r: Self)
        ensures
            r.max_restarts == 5,
            r.within@ == 30_000_000_000,
            r.backoff is Immediate,
    {
        RestartIntensity::new(5, Duration::from_secs(30))
    }
}

impl RestartIntensity {
    /// Creates a new intensity limit with no backoff.
    pub fn new(max_restarts: usize, within: Duration) -> (r: Self)
        ensures
            r == (RestartIntensity { max_restarts, within, backoff: BackoffPolicy::Immediate }),
    {
        RestartIntensity { max_restarts, within, backoff: BackoffPolicy::Immediate }
    }

    /// Attaches a [`BackoffPolicy`] to the intensity configuration.
    #[must_use]
    pub fn with_backoff(self, backoff: BackoffPolicy) -> (r: Self)
        ensures
            r == (RestartIntensity { backoff, ..self }),
    {
        RestartIntensity { backoff, ..self }
    }

    /// What the configuration gets wrong.
    pub open spec fn flaw(&self) -> Option<Seq<char>> {
        if self.within@ == 0 {
            Some("restart intensity window must be non-zero"@)
        } else {
            self.backoff.flaw()
        }
    }

    /// Checks the configuration.
    pub fn validate(&self) -> (r: Result<(), BuildError>)
        ensures
            checked(r, self.flaw()),
    {
        if let Err(error) = require_non_zero_duration(
            self.within,
            "restart intensity window must be non-zero",
        ) {
            return Err(error);
        }
        self.backoff.validate()
    }
}

fn require_non_zero_duration(duration: Duration, message: &'static str) -> (r: Result<
    (),
    BuildError,
>)
    ensures
        checked(
            r,
            if duration@ == 0 {
                Some(message@)
            } else {
                None
            },
        ),
{
    if duration.is_zero() {
        return Err(BuildError::InvalidConfig(message));
    }
    Ok(())
}

} // verus!
