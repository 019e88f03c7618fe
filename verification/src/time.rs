use std::time::{Duration, SystemTime};
use vstd::prelude::*;

verus! {

/// The current time, as the library sees it: seconds on some monotone-ish scale.
///
/// Users implement this to inject a clock; nothing is promised of the value
/// it returns, so every function that reads it is verified for every value.
pub trait Clock: Send + Sync {
    fn current_timestamp(&self) -> u64;
}

impl<C: Clock + ?Sized> Clock for std::sync::Arc<C> {
    /// Reads the shared clock.
    fn current_timestamp(&self) -> (r: u64)
        ensures
            call_ensures(C::current_timestamp, (&**self,), r),
    {
        (**self).current_timestamp()
    }
}

impl<C: Clock + ?Sized> Clock for Box<C> {
    /// Reads the boxed clock.
    fn current_timestamp(&self) -> (r: u64)
        ensures
            call_ensures(C::current_timestamp, (&**self,), r),
    {
        (**self).current_timestamp()
    }
}

/// A clock that reads the system time, in seconds since the UNIX epoch,
/// multiplied by a speed-up factor.
pub struct SystemClock(u64);

impl SystemClock {
    /// The factor by which this clock runs faster than real time.
    pub closed spec fn scale(&self) -> u64 {
        self.0
    }

    /// A clock that runs at real speed.
    pub fn default() -> (c: Self)
        ensures
            c.scale() == 1,
    {
        SystemClock(1)
    }

    /// A clock that runs `scale` times faster than real time.
    pub fn accelerated(scale: u64) -> (c: Self)
        ensures
            c.scale() == scale,
    {
        SystemClock(scale)
    }
}

#[verifier::external_type_specification]
#[verifier::external_body]
pub struct ExSystemTime(SystemTime);

/// `SystemTime::now`: the current system time. Nothing is claimed of it.
#[verifier::external_body]
fn system_time_now() -> SystemTime {
    SystemTime::now()
}

/// `SystemTime::duration_since` against `UNIX_EPOCH`: `None` where the time
/// lies before the epoch. Nothing is claimed of the duration itself.
#[verifier::external_body]
fn duration_since_unix_epoch(t: SystemTime) -> Option<Duration> {
    t.duration_since(SystemTime::UNIX_EPOCH).ok()
}

/// `Duration::as_secs`: the whole seconds of a duration. Nothing is claimed,
/// since the duration is opaque here.
#[verifier::external_body]
fn duration_whole_secs(d: Duration) -> u64 {
    d.as_secs()
}

/// The timestamp of a system clock running `scale` times faster than real
/// time, where `since_epoch` is the whole seconds read since the UNIX epoch
/// (`None` where the system time lies before it): the seconds times the
/// scale, wrapping on overflow, or 0.
pub open spec fn scaled_time(since_epoch: Option<u64>, scale: u64) -> u64 {
    match since_epoch {
        Some(secs) => vstd::wrapping::u64_specs::wrapping_mul(secs, scale),
        None => 0,
    }
}

/// The timestamp of a system clock running `scale` times faster than real
/// time, given the whole seconds read since the UNIX epoch (`None` where the
/// system time lies before it).
pub fn scaled_timestamp(since_epoch: Option<u64>, scale: u64) -> (r: u64)
    ensures
        r == scaled_time(since_epoch, scale),
{
    match since_epoch {
        Some(secs) => secs.wrapping_mul(scale),
        None => 0,
    }
}

impl Clock for SystemClock {
    /// Seconds since the UNIX epoch times the scale (wrapping on overflow),
    /// or 0 where the system time lies before the epoch. Which seconds were
    /// read depends on the time: `scaled_timestamp` says what any reading
    /// gives.
    fn current_timestamp(&self) -> (r: u64)
        ensures
            exists|since_epoch: Option<u64>| r == #[trigger] scaled_time(since_epoch, self.scale()),
    {
        let since_epoch = match duration_since_unix_epoch(system_time_now()) {
            Some(d) => Some(duration_whole_secs(d)),
            None => None,
        };
        let r = scaled_timestamp(since_epoch, self.0);
        assert(r == scaled_time(since_epoch, self.scale()));
        r
    }
}

/// Sleeps through tokio's timer, `scale` times faster than asked.
pub struct TokioSleeper(pub u32);

impl TokioSleeper {
    /// A sleeper that sleeps as long as asked.
    pub fn default() -> (s: Self)
        ensures
            s.0 == 1,
    {
        TokioSleeper(1)
    }

    /// A sleeper that sleeps `scale` times shorter than asked.
    pub fn accelerated(scale: u32) -> (s: Self)
        ensures
            s.0 == scale,
    {
        TokioSleeper(scale)
    }
}

/// A sleeper that never sleeps.
pub struct Insomniac;

} // verus!
