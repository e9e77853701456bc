//! How a listener that fails is started anew.

use vstd::prelude::*;
use crate::text::{copy_text, join_texts, joined, views};

verus! {

/// The shortest rest, in nanoseconds.
pub const MINIMUM_DELAY: u64 = 1_000_000;

/// How long a listener rests between two starts, in nanoseconds.
#[derive(Clone, Copy, Debug, PartialEq, Eq, Structural)]
pub struct RestartPolicy {
    pub initial_delay: u64,
    pub max_delay: u64,
    /// A start that lasted so long makes the next rest the first again.
    pub reset_after: u64,
}

impl Default for RestartPolicy {
    fn default() -> (r: RestartPolicy)
        ensures
            r == (RestartPolicy {
                initial_delay: 250_000_000,
                max_delay: 30_000_000_000,
                reset_after: 60_000_000_000,
            }),
    {
        RestartPolicy {
            initial_delay: 250_000_000,
            max_delay: 30_000_000_000,
            reset_after: 60_000_000_000,
        }
    }
}

/// How a listener ended.
#[derive(Debug, PartialEq, Eq)]
pub enum UdpFailure {
    Returned,
    Error(String),
    Panic,
    Cancelled,
}

impl UdpFailure {
    pub open spec fn text_spec(self) -> Seq<char> {
        match self {
            UdpFailure::Returned => "listener returned unexpectedly"@,
            UdpFailure::Error(error) => joined(seq!["listener error: "@, error@]),
            UdpFailure::Panic => "listener task panicked"@,
            UdpFailure::Cancelled => "listener task was cancelled"@,
        }
    }

    pub fn text(&self) -> (r: String)
        ensures
            r@ == self.text_spec(),
    {
        match self {
            UdpFailure::Returned => copy_text("listener returned unexpectedly"),
            UdpFailure::Error(error) => {
                let parts: [&str; 2] = ["listener error: ", error.as_str()];
                assert(views(parts@) =~= seq!["listener error: "@, error@]);
                join_texts(parts.as_slice())
            },
            UdpFailure::Panic => copy_text("listener task panicked"),
            UdpFailure::Cancelled => copy_text("listener task was cancelled"),
        }
    }
}

pub open spec fn at_least(value: u64, least: u64) -> u64 {
    if value < least {
        least
    } else {
        value
    }
}

/// A rest within the limits of a policy.
pub open spec fn bounded_spec(policy: RestartPolicy, delay: u64) -> u64 {
    let rest = at_least(delay, MINIMUM_DELAY);
    let limit = at_least(policy.max_delay, MINIMUM_DELAY);
    if rest > limit {
        limit
    } else {
        rest
    }
}

pub fn bounded_delay(policy: RestartPolicy, delay: u64) -> (r: u64)
    ensures
        r == bounded_spec(policy, delay),
{
    let rest: u64 = if delay < MINIMUM_DELAY {
        MINIMUM_DELAY
    } else {
        delay
    };
    let limit: u64 = if policy.max_delay < MINIMUM_DELAY {
        MINIMUM_DELAY
    } else {
        policy.max_delay
    };
    if rest > limit {
        limit
    } else {
        rest
    }
}

/// The rest after one: twice as long, within the limits.
pub open spec fn next_spec(policy: RestartPolicy, delay: u64) -> u64 {
    bounded_spec(
        policy,
        if delay > u64::MAX / 2 {
            u64::MAX
        } else {
            (delay * 2) as u64
        },
    )
}

pub fn next_delay(policy: RestartPolicy, delay: u64) -> (r: u64)
    ensures
        r == next_spec(policy, delay),
{
    let double: u64 = if delay > u64::MAX / 2 {
        u64::MAX
    } else {
        delay * 2
    };
    bounded_delay(policy, double)
}

/// A listener between two starts.
#[derive(Clone, Copy, Debug, PartialEq, Eq, Structural)]
pub struct Supervisor {
    pub policy: RestartPolicy,
    pub delay: u64,
}

/// What follows.
#[derive(Clone, Copy, Debug, PartialEq, Eq, Structural)]
pub enum SupervisorAction {
    Start,
    Rest { delay: u64 },
    Stop,
}

impl Supervisor {
    pub fn new(policy: RestartPolicy) -> (r: Supervisor)
        ensures
            r == (Supervisor { policy, delay: bounded_spec(policy, policy.initial_delay) }),
    {
        Supervisor { policy, delay: bounded_delay(policy, policy.initial_delay) }
    }

    /// A start, unless the server stops.
    pub fn start(&self, stopping: bool) -> (r: SupervisorAction)
        ensures
            r == if stopping {
                SupervisorAction::Stop
            } else {
                SupervisorAction::Start
            },
    {
        if stopping {
            SupervisorAction::Stop
        } else {
            SupervisorAction::Start
        }
    }

    /// The rest after a start that lasted so long.
    pub open spec fn rest_spec(self, elapsed: u64) -> u64 {
        if elapsed >= self.policy.reset_after {
            bounded_spec(self.policy, self.policy.initial_delay)
        } else {
            self.delay
        }
    }

    /// A start has ended, however it did.
    pub fn ended(&mut self, elapsed: u64, stopping: bool) -> (r: SupervisorAction)
        ensures
            final(self).policy == old(self).policy,
            r == if stopping {
                SupervisorAction::Stop
            } else {
                SupervisorAction::Rest { delay: old(self).rest_spec(elapsed) }
            },
            final(self).delay == if stopping {
                old(self).delay
            } else {
                next_spec(old(self).policy, old(self).rest_spec(elapsed))
            },
    {
        if stopping {
            return SupervisorAction::Stop;
        }
        let rest: u64 = if elapsed >= self.policy.reset_after {
            bounded_delay(self.policy, self.policy.initial_delay)
        } else {
            self.delay
        };
        self.delay = next_delay(self.policy, rest);
        SupervisorAction::Rest { delay: rest }
    }
}

/// The rest after so many starts that all ended at once.
pub open spec fn rest_after(policy: RestartPolicy, count: nat) -> u64
    decreases count,
{
    if count == 0 {
        bounded_spec(policy, policy.initial_delay)
    } else {
        next_spec(policy, rest_after(policy, (count - 1) as nat))
    }
}

/// Rests grow to their limit, are never longer, and never so short that a
/// listener that fails at once is started over and over.
pub proof fn law_rests_are_bounded(policy: RestartPolicy, count: nat)
    ensures
        MINIMUM_DELAY <= rest_after(policy, count) <= at_least(policy.max_delay, MINIMUM_DELAY),
        rest_after(policy, count) <= rest_after(policy, count + 1),
        rest_after(policy, count + 1) == at_least(policy.max_delay, MINIMUM_DELAY) || rest_after(
            policy,
            count + 1,
        ) == 2 * rest_after(policy, count),
    decreases count,
{
    reveal_with_fuel(rest_after, 2);
    if count > 0 {
        law_rests_are_bounded(policy, (count - 1) as nat);
    }
}

} // verus!
