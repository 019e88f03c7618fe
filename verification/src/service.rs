use vstd::prelude::*;

verus! {

/// How a looping job paces itself.
#[derive(Clone, Copy, Debug, PartialEq, Eq)]
pub struct LoopConfig {
    /// Time to pause between iterations, doing nothing.
    pub delay_secs: i32,
    /// The longest you would ever expect it to take to execute a single
    /// iteration, not including the delay.
    pub max_iteration_secs: i32,
}

/// A job that knows how it should be looped.
pub trait SelfConfiguredLoop {
    fn loop_config(&self) -> LoopConfig;
}

impl<T> SelfConfiguredLoop for (T, LoopConfig) {
    /// The configuration paired with the job.
    fn loop_config(&self) -> (c: LoopConfig)
        ensures
            c == self.1,
    {
        self.1
    }
}

impl LoopConfig {
    /// The longest a looping job may go without a heartbeat before it is
    /// deemed dead: one pause plus one iteration.
    pub fn heartbeat_ttl(&self) -> (ttl: i32)
        requires
            i32::MIN <= self.delay_secs + self.max_iteration_secs <= i32::MAX,
        ensures
            ttl == self.delay_secs + self.max_iteration_secs,
    {
        self.delay_secs + self.max_iteration_secs
    }

    /// The pause between iterations in whole seconds, as the unsigned
    /// reinterpretation of `delay_secs`.
    pub fn pause_secs(&self) -> (secs: u64)
        ensures
            secs == self.delay_secs as u64,
    {
        self.delay_secs as u64
    }
}

/// The number of consecutive failures after an iteration that succeeded or
/// not, given the number before it; the count wraps around as an atomic
/// counter does.
pub open spec fn next_failure_count(previous: usize, succeeded: bool) -> usize {
    if succeeded {
        0
    } else if previous == usize::MAX {
        0
    } else {
        (previous + 1) as usize
    }
}

/// The number of consecutive failures after an iteration that succeeded or
/// not, given the number before it.
pub fn failures_after(previous: usize, succeeded: bool) -> (n: usize)
    ensures
        n == next_failure_count(previous, succeeded),
{
    if succeeded {
        0
    } else {
        previous.wrapping_add(1)
    }
}

/// A looping job is healthy exactly when its last attempt did not fail.
pub fn loop_is_healthy(consecutive_failures: usize) -> (healthy: bool)
    ensures
        healthy == (consecutive_failures == 0),
{
    consecutive_failures == 0
}

/// A success makes a looping job healthy; a failure makes it unhealthy,
/// unless the failure count wraps around.
pub proof fn lemma_health_follows_last_iteration(previous: usize, succeeded: bool)
    requires
        previous < usize::MAX,
    ensures
        (next_failure_count(previous, succeeded) == 0) == succeeded,
{
}

} // verus!
