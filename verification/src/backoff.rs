use std::collections::HashMap;
use std::hash::Hash;
use std::sync::Arc;
use vstd::prelude::*;
use vstd::std_specs::hash::obeys_key_model;

use crate::time::{scaled_time, Clock, SystemClock};

verus! {

broadcast use vstd::std_specs::hash::group_hash_axioms;

/// What the tracker remembers of one kind of event.
///
/// Events must not be recorded here if they occurred...
/// - within a delay window
/// - before the last `clear`
#[derive(Clone, Copy, Debug, PartialEq, Eq)]
pub struct BackoffEntry {
    /// Total quantity of registered events that occurred outside a delay window.
    pub count: u64,
    /// The time that the last event occurred outside a delay window.
    pub last: u64,
    /// The time window to wait since `last` before being "ready".
    pub delay: u64,
}

/// How to progress from `min_delay` to `max_delay`.
#[derive(Clone, Copy, Debug, PartialEq, Eq)]
pub enum BackoffStrategy {
    /// The wrapped integer is the base b of the exponential b^n where n is the
    /// number of events. Each event will trigger a delay b times as large as
    /// the prior delay.
    Exponential(u64),
    /// Cliff means you wait exactly the minimum delay for some number of
    /// events, then you suddenly switch to waiting the maximum interval for
    /// each event. The wrapped integer is the number of times to delay with the
    /// minimum interval before switching to the max interval.
    Cliff(u64),
}

#[derive(Clone, Copy, Debug, PartialEq, Eq)]
pub struct BackoffConfig {
    /// The minimum amount of time to wait before trying again.
    pub min_delay: u64,
    /// The maximum amount of time to wait before trying again.
    pub max_delay: u64,
    /// How to progress from min_delay to max_delay.
    pub strategy: BackoffStrategy,
}

/// The delay that the first recorded event of a kind starts with.
pub open spec fn first_delay(c: BackoffConfig) -> u64 {
    match c.strategy {
        BackoffStrategy::Cliff(n) => if n == 0 { c.max_delay } else { c.min_delay },
        BackoffStrategy::Exponential(_) => c.min_delay,
    }
}

/// The delay that an event outside the window of `e` sets.
pub open spec fn next_delay(c: BackoffConfig, e: BackoffEntry) -> u64 {
    match c.strategy {
        BackoffStrategy::Exponential(b) => if e.delay * b <= c.max_delay {
            (e.delay * b) as u64
        } else {
            c.max_delay
        },
        BackoffStrategy::Cliff(n) => if e.count >= n { c.max_delay } else { c.min_delay },
    }
}

/// Whether the delay window of `e` has passed at time `now`.
pub open spec fn window_passed(e: BackoffEntry, now: u64) -> bool {
    e.last + e.delay < now
}

/// Whether an action on `item` may be taken at time `now`.
pub open spec fn ready_in<T>(m: Map<T, BackoffEntry>, item: T, now: u64) -> bool {
    m.contains_key(item) ==> window_passed(m[item], now)
}

/// The history after an event on `item` at time `now`.
pub open spec fn after_event<T>(
    m: Map<T, BackoffEntry>,
    c: BackoffConfig,
    item: T,
    now: u64,
) -> Map<T, BackoffEntry> {
    if !m.contains_key(item) {
        m.insert(item, BackoffEntry { count: 1, last: now, delay: first_delay(c) })
    } else if window_passed(m[item], now) {
        let e = m[item];
        m.insert(
            item,
            BackoffEntry {
                count: if e.count < u64::MAX { (e.count + 1) as u64 } else { e.count },
                last: now,
                delay: next_delay(c, e),
            },
        )
    } else {
        m
    }
}

/// The history after a singular event: other kinds are forgotten first
/// unless `item` is already known.
pub open spec fn after_singular_event<T>(
    m: Map<T, BackoffEntry>,
    c: BackoffConfig,
    item: T,
    now: u64,
) -> Map<T, BackoffEntry> {
    after_event(if m.contains_key(item) { m } else { Map::empty() }, c, item, now)
}

/// The history after an event that `singular` says is singular or not.
pub open spec fn after_any_event<T>(
    m: Map<T, BackoffEntry>,
    c: BackoffConfig,
    item: T,
    now: u64,
    singular: bool,
) -> Map<T, BackoffEntry> {
    if singular {
        after_singular_event(m, c, item, now)
    } else {
        after_event(m, c, item, now)
    }
}

impl BackoffConfig {
    /// Simple rate limiter with a constant rate, doesn't backoff progressively.
    pub fn constant(period: u64) -> (c: Self)
        ensures
            c == (BackoffConfig {
                min_delay: period,
                max_delay: period,
                strategy: BackoffStrategy::Cliff(0),
            }),
    {
        BackoffConfig { min_delay: period, max_delay: period, strategy: BackoffStrategy::Cliff(0) }
    }

    /// Once an event occurs, it will never be ready again unless cleared.
    pub fn once() -> (c: Self)
        ensures
            c == once_config(),
    {
        BackoffConfig {
            min_delay: u64::MAX,
            max_delay: u64::MAX,
            strategy: BackoffStrategy::Cliff(0),
        }
    }

    /// The delay that the first event of a kind starts with.
    pub fn initial_delay(&self) -> (d: u64)
        ensures
            d == first_delay(*self),
    {
        match self.strategy {
            BackoffStrategy::Cliff(0) => self.max_delay,
            _ => self.min_delay,
        }
    }

    /// The delay that an event outside the window of `e` sets.
    fn delay_after(&self, e: &BackoffEntry) -> (d: u64)
        ensures
            d == next_delay(*self, *e),
    {
        match self.strategy {
            BackoffStrategy::Exponential(b) => match e.delay.checked_mul(b) {
                Some(p) => if p <= self.max_delay { p } else { self.max_delay },
                None => self.max_delay,
            },
            BackoffStrategy::Cliff(n) => if e.count >= n { self.max_delay } else { self.min_delay },
        }
    }
}

impl Default for BackoffConfig {
    /// 30 seconds at first, growing threefold up to an hour.
    fn default() -> (c: Self)
        ensures
            c == (BackoffConfig {
                min_delay: 30,
                max_delay: 3600,
                strategy: BackoffStrategy::Exponential(3),
            }),
    {
        BackoffConfig { min_delay: 30, max_delay: 3600, strategy: BackoffStrategy::default() }
    }
}

impl Default for BackoffStrategy {
    /// 3 is the closest integer to Euler's constant, which makes it the
    /// obvious choice as a standard base for an exponential.
    fn default() -> (s: Self)
        ensures
            s == BackoffStrategy::Exponential(3),
    {
        BackoffStrategy::Exponential(3)
    }
}

/// Whether the window of `e` has passed at `now`, without overflow.
fn window_has_passed(e: &BackoffEntry, now: u64) -> (b: bool)
    ensures
        b == window_passed(*e, now),
{
    match e.last.checked_add(e.delay) {
        Some(end) => end < now,
        None => false,
    }
}

/// Where a tracker reads the time: a clock it was given, or the system clock.
enum TimeSource<C> {
    Given(C),
    System(SystemClock),
}

/// A time source that reads the given clock.
fn given_clock<C>(clock: C) -> (s: TimeSource<C>)
    ensures
        s == TimeSource::<C>::Given(clock),
{
    TimeSource::Given(clock)
}

/// Tracks events that you don't want to repeat very often, and lets you know
/// when it's safe to take the action that may cause those events.
pub struct BackoffTracker<T> {
    field: HashMap<T, BackoffEntry>,
    clock: TimeSource<Arc<dyn Clock>>,
    config: BackoffConfig,
}

impl<T> View for BackoffTracker<T> {
    type V = Map<T, BackoffEntry>;

    closed spec fn view(&self) -> Map<T, BackoffEntry> {
        self.field@
    }
}

impl<T> BackoffTracker<T> {
    /// Every entry of the history is one that the tracker's configuration
    /// can produce. Every tracker is so, from construction on.
    #[verifier::type_invariant]
    pub open spec fn well_formed(&self) -> bool {
        history_consistent(self@, self.config_of())
    }

    /// The configuration the tracker was made with.
    pub closed spec fn config_of(&self) -> BackoffConfig {
        self.config
    }

    /// A tracker that remembers nothing yet, reads time from `clock` and
    /// backs off as `config` says.
    pub fn new(clock: Arc<dyn Clock>, config: BackoffConfig) -> (t: Self)
        ensures
            t@ == Map::<T, BackoffEntry>::empty(),
            t.config_of() == config,
            t.well_formed(),
            forall|x: u64|
                #[trigger] t.clock_may_read(x) <==> call_ensures(
                    <Arc<dyn Clock> as Clock>::current_timestamp,
                    (&clock,),
                    x,
                ),
    {
        let source = given_clock(clock);
        BackoffTracker { field: HashMap::new(), clock: source, config }
    }
}

impl<T> BackoffTracker<T> {
    /// Whether this tracker's clock may read exactly what the clock of
    /// `other` may read.
    pub open spec fn same_clock(&self, other: Self) -> bool {
        forall|t: u64| #[trigger] self.clock_may_read(t) == other.clock_may_read(t)
    }

    /// Whether `t` is a time that the tracker's clock may read.
    pub closed spec fn clock_may_read(&self, t: u64) -> bool {
        match self.clock {
            TimeSource::Given(c) => call_ensures(
                <Arc<dyn Clock> as Clock>::current_timestamp,
                (&c,),
                t,
            ),
            TimeSource::System(s) => call_ensures(
                <SystemClock as Clock>::current_timestamp,
                (&s,),
                t,
            ),
        }
    }

    /// The time the tracker's clock reads now.
    pub fn current_timestamp(&self) -> (r: u64)
        ensures
            self.clock_may_read(r),
    {
        match &self.clock {
            TimeSource::Given(c) => Clock::current_timestamp(c),
            TimeSource::System(s) => Clock::current_timestamp(s),
        }
    }
}

impl<T> Default for BackoffTracker<T> {
    /// A tracker on the system clock at real speed (scale 1) with the default
    /// configuration: it reads time exactly as such a system clock does.
    fn default() -> (t: Self)
        ensures
            t@ == Map::<T, BackoffEntry>::empty(),
            t.config_of() == (BackoffConfig {
                min_delay: 30,
                max_delay: 3600,
                strategy: BackoffStrategy::Exponential(3),
            }),
            t.well_formed(),
            forall|x: u64|
                #[trigger] t.clock_may_read(x) ==> exists|since_epoch: Option<u64>|
                    x == #[trigger] scaled_time(since_epoch, 1),
            exists|c: SystemClock|
                #[trigger] c.scale() == 1 && forall|x: u64|
                    #[trigger] t.clock_may_read(x) <==> call_ensures(
                        <SystemClock as Clock>::current_timestamp,
                        (&c,),
                        x,
                    ),
    {
        let system = SystemClock::default();
        let t = BackoffTracker {
            field: HashMap::new(),
            clock: TimeSource::System(system),
            config: BackoffConfig::default(),
        };
        assert(system.scale() == 1);
        t
    }
}

impl<T: Eq + Hash> BackoffTracker<T> {
    /// Whether an action on `item` may be taken at time `now`.
    pub fn is_ready_at(&self, item: &T, now: u64) -> (r: bool)
        requires
            obeys_key_model::<T>(),
        ensures
            r == ready_in(self@, *item, now),
    {
        match self.field.get(item) {
            Some(e) => window_has_passed(e, now),
            None => true,
        }
    }

    /// Whether an action on `item` may be taken now, by the tracker's clock.
    pub fn is_ready(&self, item: &T) -> (r: bool)
        requires
            obeys_key_model::<T>(),
        ensures
            exists|now: u64| self.clock_may_read(now) && r == #[trigger] ready_in(self@, *item, now),
            !self@.contains_key(*item) ==> r,
    {
        let now = self.current_timestamp();
        let r = self.is_ready_at(item, now);
        assert(r == ready_in(self@, *item, now));
        r
    }

    /// Records an event on `item` at time `now`.
    pub fn event_at(&mut self, item: T, now: u64)
        requires
            obeys_key_model::<T>(),
        ensures
            final(self)@ == after_event(old(self)@, old(self).config_of(), item, now),
            final(self).config_of() == old(self).config_of(),
            final(self).same_clock(*old(self)),
            final(self).well_formed(),
    {
        proof {
            use_type_invariant(&*self);
            lemma_history_stays_consistent(self@, self.config, item, now, Set::empty());
        }
        let mut history = self.take_history();
        let found = match history.get(&item) {
            Some(e) => Some(*e),
            None => None,
        };
        match found {
            None => {
                let delay = self.config.initial_delay();
                history.insert(item, BackoffEntry { count: 1, last: now, delay });
            },
            Some(e) => {
                if window_has_passed(&e, now) {
                    let delay = self.config.delay_after(&e);
                    let count = e.count.saturating_add(1);
                    history.insert(item, BackoffEntry { count, last: now, delay });
                }
            },
        }
        self.field = history;
    }

    /// Moves the history out, leaving the tracker with none.
    fn take_history(&mut self) -> (h: HashMap<T, BackoffEntry>)
        ensures
            h@ == old(self)@,
            final(self)@ == Map::<T, BackoffEntry>::empty(),
            final(self).config == old(self).config,
            final(self).clock == old(self).clock,
    {
        let mut h: HashMap<T, BackoffEntry> = HashMap::new();
        std::mem::swap(&mut h, &mut self.field);
        h
    }

    /// Records an event on `item` at the time the tracker's clock reads.
    pub fn event(&mut self, item: T)
        requires
            obeys_key_model::<T>(),
        ensures
            exists|now: u64|
                old(self).clock_may_read(now) && final(self)@ == #[trigger] after_event(
                    old(self)@,
                    old(self).config_of(),
                    item,
                    now,
                ),
            final(self).config_of() == old(self).config_of(),
            final(self).same_clock(*old(self)),
            final(self).well_formed(),
    {
        let now = self.current_timestamp();
        self.event_at(item, now);
    }

    /// Like `event_at`, but it clears all history of other events when a new
    /// event is received.
    pub fn singular_event_at(&mut self, item: T, now: u64)
        requires
            obeys_key_model::<T>(),
        ensures
            final(self)@ == after_singular_event(old(self)@, old(self).config_of(), item, now),
            final(self).config_of() == old(self).config_of(),
            final(self).same_clock(*old(self)),
            final(self).well_formed(),
    {
        if !self.field.contains_key(&item) {
            self.field = HashMap::new();
        }
        self.event_at(item, now);
    }

    /// Like `event`, but it clears all history of other events when a new event
    /// is received.
    ///
    /// Use this when you only need to backoff events that are consecutive
    /// duplicates, but don't need to backoff events if different events occur
    /// in between.
    pub fn singular_event(&mut self, item: T)
        requires
            obeys_key_model::<T>(),
        ensures
            exists|now: u64|
                old(self).clock_may_read(now) && final(self)@ == #[trigger] after_singular_event(
                    old(self)@,
                    old(self).config_of(),
                    item,
                    now,
                ),
            final(self).config_of() == old(self).config_of(),
            final(self).same_clock(*old(self)),
            final(self).well_formed(),
    {
        let now = self.current_timestamp();
        self.singular_event_at(item, now);
    }

    /// Forgets the history of `item`.
    pub fn clear(&mut self, item: &T)
        requires
            obeys_key_model::<T>(),
        ensures
            final(self)@ == old(self)@.remove(*item),
            final(self).config_of() == old(self).config_of(),
            final(self).same_clock(*old(self)),
            final(self).well_formed(),
    {
        proof {
            use_type_invariant(&*self);
            lemma_history_stays_consistent(self@, self.config, *item, 0, Set::empty());
        }
        let mut history = self.take_history();
        if history.contains_key(item) {
            history.remove(item);
        } else {
            assert(old(self)@.remove(*item) =~= old(self)@);
        }
        self.field = history;
    }

    /// Forgets the history of every item in `items`.
    pub fn clear_many(&mut self, items: &[T])
        requires
            obeys_key_model::<T>(),
        ensures
            final(self)@ == old(self)@.remove_keys(items@.to_set()),
            final(self).config_of() == old(self).config_of(),
            final(self).same_clock(*old(self)),
            final(self).well_formed(),
    {
        proof {
            use_type_invariant(&*self);
        }
        let ghost before = self@;
        let mut history = self.take_history();
        let n = items.len();
        let mut i: usize = 0;
        while i < n
            invariant
                obeys_key_model::<T>(),
                n == items@.len(),
                i <= n,
                history@ == before.remove_keys(items@.subrange(0, i as int).to_set()),
            decreases n - i,
        {
            history.remove(&items[i]);
            let ghost done = items@.subrange(0, i as int);
            assert(items@.subrange(0, i + 1) =~= done.push(items@[i as int]));
            assert(items@.subrange(0, i + 1).to_set() =~= done.to_set().insert(items@[i as int])) by {
                broadcast use vstd::seq_lib::group_seq_properties;
            }
            assert(history@ =~= before.remove_keys(items@.subrange(0, i + 1).to_set()));
            i = i + 1;
        }
        assert(items@.subrange(0, n as int) =~= items@);
        proof {
            lemma_history_stays_consistent(
                before,
                self.config,
                items@[0],
                0,
                items@.to_set(),
            );
        }
        self.field = history;
    }
}


/// High level management of code execution using backoff tracking primitives.
impl<T: Eq + Hash> BackoffTracker<T> {
    /// Runs `f` if `id` is ready at `now`; where `predicate` holds of what it
    /// returns, records an event on `id` at `later` (a singular one if
    /// `singular`). Returns `None`, running nothing, where `id` is not ready.
    pub fn backoff_generic_at<F, X, P>(
        &mut self,
        id: T,
        f: F,
        singular: bool,
        predicate: P,
        now: u64,
        later: u64,
    ) -> (r: Option<X>) where F: Fn() -> X, P: Fn(&X) -> bool
        requires
            obeys_key_model::<T>(),
            ready_in(old(self)@, id, now) ==> f.requires(()),
            forall|x: &X| #[trigger] predicate.requires((x,)),
        ensures
            final(self).config_of() == old(self).config_of(),
            final(self).same_clock(*old(self)),
            final(self).well_formed(),
            r is Some <==> ready_in(old(self)@, id, now),
            match r {
                None => final(self)@ == old(self)@,
                Some(x) => {
                    &&& f.ensures((), x)
                    &&& {
                        ||| predicate.ensures((&x,), false) && final(self)@ == old(self)@
                        ||| predicate.ensures((&x,), true) && final(self)@ == after_any_event(
                            old(self)@,
                            old(self).config_of(),
                            id,
                            later,
                            singular,
                        )
                    }
                },
            },
    {
        proof {
            use_type_invariant(&*self);
        }
        if !self.is_ready_at(&id, now) {
            return None;
        }
        let result = f();
        if predicate(&result) {
            self.any_event_at(id, later, singular);
        }
        Some(result)
    }

    /// Records an event on `item` at `now`, singular or not.
    fn any_event_at(&mut self, item: T, now: u64, singular: bool)
        requires
            obeys_key_model::<T>(),
        ensures
            final(self)@ == after_any_event(old(self)@, old(self).config_of(), item, now, singular),
            final(self).config_of() == old(self).config_of(),
            final(self).same_clock(*old(self)),
            final(self).well_formed(),
    {
        if singular {
            self.singular_event_at(item, now);
        } else {
            self.event_at(item, now);
        }
    }

    /// Generic function used by other `backoff_` functions.
    ///
    /// Run the code if ready. Trigger an event when the predicate is true
    /// Returns None if the execution was skipped due to not being ready.
    /// Readiness is decided at the time the tracker's clock reads first; the
    /// event is recorded at the time it reads after the code ran.
    pub fn backoff_generic<F, X, P>(&mut self, id: T, f: F, singular: bool, predicate: P) -> (r:
        Option<X>) where F: Fn() -> X, P: Fn(&X) -> bool
        requires
            obeys_key_model::<T>(),
            forall|now: u64|
                #![trigger old(self).clock_may_read(now)]
                old(self).clock_may_read(now) && ready_in(old(self)@, id, now) ==> f.requires(()),
            forall|x: &X| #[trigger] predicate.requires((x,)),
        ensures
            final(self).config_of() == old(self).config_of(),
            final(self).same_clock(*old(self)),
            final(self).well_formed(),
            exists|now: u64|
                old(self).clock_may_read(now) && (r is Some <==> #[trigger] ready_in(
                    old(self)@,
                    id,
                    now,
                )),
            r is None ==> final(self)@ == old(self)@,
            match r {
                None => true,
                Some(x) => {
                    &&& f.ensures((), x)
                    &&& {
                        ||| predicate.ensures((&x,), false) && final(self)@ == old(self)@
                        ||| predicate.ensures((&x,), true) && exists|later: u64|
                            old(self).clock_may_read(later) && final(self)@
                                == #[trigger] after_any_event(
                                old(self)@,
                                old(self).config_of(),
                                id,
                                later,
                                singular,
                            )
                    }
                },
            },
    {
        proof {
            use_type_invariant(&*self);
        }
        let now = self.current_timestamp();
        if !self.is_ready_at(&id, now) {
            assert(old(self).clock_may_read(now) && !ready_in(old(self)@, id, now));
            return None;
        }
        assert(old(self).clock_may_read(now) && ready_in(old(self)@, id, now));
        let result = f();
        if predicate(&result) {
            let later = self.current_timestamp();
            self.any_event_at(id, later, singular);
            assert(old(self).clock_may_read(later));
        }
        Some(result)
    }

    /// Use this if you'd like to rate limit some code regardless of its outcome.
    ///
    /// Triggers an event on any execution. see `backoff_generic`.
    pub fn backoff<F: Fn() -> X, X>(&mut self, id: T, f: F) -> (r: Option<X>)
        requires
            obeys_key_model::<T>(),
            forall|now: u64|
                #![trigger old(self).clock_may_read(now)]
                old(self).clock_may_read(now) && ready_in(old(self)@, id, now) ==> f.requires(()),
        ensures
            final(self).config_of() == old(self).config_of(),
            final(self).same_clock(*old(self)),
            final(self).well_formed(),
            exists|now: u64|
                old(self).clock_may_read(now) && (r is Some <==> #[trigger] ready_in(
                    old(self)@,
                    id,
                    now,
                )),
            r is None ==> final(self)@ == old(self)@,
            match r {
                None => true,
                Some(x) => {
                    &&& f.ensures((), x)
                    &&& exists|later: u64|
                        old(self).clock_may_read(later) && final(self)@ == #[trigger] after_event(
                            old(self)@,
                            old(self).config_of(),
                            id,
                            later,
                        )
                },
            },
    {
        let fired = |_x: &X| -> (b: bool)
            ensures
                b,
            { true };
        self.backoff_generic(id, f, false, fired)
    }

    /// Use this if you'd like to rate limit some code regardless of its
    /// outcome, but not if other events occur in between.
    ///
    /// Triggers an event on any execution. see `backoff_generic` and
    /// `singular_event`
    pub fn backoff_singular<F: Fn() -> X, X>(&mut self, id: T, f: F) -> (r: Option<X>)
        requires
            obeys_key_model::<T>(),
            forall|now: u64|
                #![trigger old(self).clock_may_read(now)]
                old(self).clock_may_read(now) && ready_in(old(self)@, id, now) ==> f.requires(()),
        ensures
            final(self).config_of() == old(self).config_of(),
            final(self).same_clock(*old(self)),
            final(self).well_formed(),
            exists|now: u64|
                old(self).clock_may_read(now) && (r is Some <==> #[trigger] ready_in(
                    old(self)@,
                    id,
                    now,
                )),
            r is None ==> final(self)@ == old(self)@,
            match r {
                None => true,
                Some(x) => {
                    &&& f.ensures((), x)
                    &&& exists|later: u64|
                        old(self).clock_may_read(later) && final(self)@ == #[trigger] after_singular_event(
                            old(self)@,
                            old(self).config_of(),
                            id,
                            later,
                        )
                },
            },
    {
        let fired = |_x: &X| -> (b: bool)
            ensures
                b,
            { true };
        self.backoff_generic(id, f, true, fired)
    }

    /// Use this if you'd like to rate limit some code when it fails.
    /// Triggers an event on Err. see `backoff_generic`.
    pub fn backoff_errors<F, O, E>(&mut self, id: T, f: F) -> (r: Option<Result<O, E>>) where
        F: Fn() -> Result<O, E>,
        requires
            obeys_key_model::<T>(),
            forall|now: u64|
                #![trigger old(self).clock_may_read(now)]
                old(self).clock_may_read(now) && ready_in(old(self)@, id, now) ==> f.requires(()),
        ensures
            final(self).config_of() == old(self).config_of(),
            final(self).same_clock(*old(self)),
            final(self).well_formed(),
            exists|now: u64|
                old(self).clock_may_read(now) && (r is Some <==> #[trigger] ready_in(
                    old(self)@,
                    id,
                    now,
                )),
            r is None ==> final(self)@ == old(self)@,
            match r {
                None => true,
                Some(x) => {
                    &&& f.ensures((), x)
                    &&& x is Ok ==> final(self)@ == old(self)@
                    &&& x is Err ==> exists|later: u64|
                        old(self).clock_may_read(later) && final(self)@ == #[trigger] after_event(
                            old(self)@,
                            old(self).config_of(),
                            id,
                            later,
                        )
                },
            },
    {
        let fired = |x: &Result<O, E>| -> (b: bool)
            ensures
                b == x is Err,
            { x.is_err() };
        self.backoff_generic(id, f, false, fired)
    }

    /// Use this if you'd like to rate limit some code when it succeeds.
    /// Triggers an event on Ok. see `backoff_generic`.
    pub fn backoff_oks<F, O, E>(&mut self, id: T, f: F) -> (r: Option<Result<O, E>>) where
        F: Fn() -> Result<O, E>,
        requires
            obeys_key_model::<T>(),
            forall|now: u64|
                #![trigger old(self).clock_may_read(now)]
                old(self).clock_may_read(now) && ready_in(old(self)@, id, now) ==> f.requires(()),
        ensures
            final(self).config_of() == old(self).config_of(),
            final(self).same_clock(*old(self)),
            final(self).well_formed(),
            exists|now: u64|
                old(self).clock_may_read(now) && (r is Some <==> #[trigger] ready_in(
                    old(self)@,
                    id,
                    now,
                )),
            r is None ==> final(self)@ == old(self)@,
            match r {
                None => true,
                Some(x) => {
                    &&& f.ensures((), x)
                    &&& x is Err ==> final(self)@ == old(self)@
                    &&& x is Ok ==> exists|later: u64|
                        old(self).clock_may_read(later) && final(self)@ == #[trigger] after_event(
                            old(self)@,
                            old(self).config_of(),
                            id,
                            later,
                        )
                },
            },
    {
        let fired = |x: &Result<O, E>| -> (b: bool)
            ensures
                b == x is Ok,
            { x.is_ok() };
        self.backoff_generic(id, f, false, fired)
    }
}

/// An event makes its kind not ready at the very instant it is recorded.
pub proof fn lemma_event_blocks_same_instant<T>(
    m: Map<T, BackoffEntry>,
    c: BackoffConfig,
    item: T,
    now: u64,
)
    ensures
        !ready_in(after_event(m, c, item, now), item, now),
        !ready_in(after_singular_event(m, c, item, now), item, now),
{
}

/// Events that occur within a delay window are not recorded: the history
/// stays as it was.
pub proof fn lemma_event_in_window_is_ignored<T>(
    m: Map<T, BackoffEntry>,
    c: BackoffConfig,
    item: T,
    now: u64,
)
    requires
        !ready_in(m, item, now),
    ensures
        after_event(m, c, item, now) == m,
{
}

/// An event on one kind changes nothing of any other kind.
pub proof fn lemma_event_leaves_other_items<T>(
    m: Map<T, BackoffEntry>,
    c: BackoffConfig,
    item: T,
    other: T,
    now: u64,
    t: u64,
)
    requires
        other != item,
    ensures
        ready_in(after_event(m, c, item, now), other, t) == ready_in(m, other, t),
        after_event(m, c, item, now).contains_key(other) == m.contains_key(other),
        m.contains_key(other) ==> after_event(m, c, item, now)[other] == m[other],
{
}

/// After `clear`, the item is ready at any time, and other items are as
/// ready as they were.
pub proof fn lemma_clear_makes_ready<T>(m: Map<T, BackoffEntry>, item: T, other: T, t: u64)
    ensures
        ready_in(m.remove(item), item, t),
        other != item ==> ready_in(m.remove(item), other, t) == ready_in(m, other, t),
{
}

/// Whether every kind in the history waits the longest possible delay.
pub open spec fn all_delays_maximal<T>(m: Map<T, BackoffEntry>) -> bool {
    forall|k: T| #[trigger] m.contains_key(k) ==> m[k].delay == u64::MAX
}

/// With `BackoffConfig::once()`, once an event occurs, its kind is never
/// ready again (until cleared), whatever the time and whatever events follow:
/// every recorded delay is the longest possible, further events keep it so,
/// and no kind with history is ready at any time.
pub proof fn lemma_once_never_ready_again<T>(
    m: Map<T, BackoffEntry>,
    item: T,
    other: T,
    now: u64,
    t: u64,
)
    requires
        all_delays_maximal(m),
    ensures
        all_delays_maximal(after_event(m, once_config(), item, now)),
        all_delays_maximal(after_singular_event(m, once_config(), item, now)),
        !ready_in(after_event(m, once_config(), item, now), item, t),
        !ready_in(after_singular_event(m, once_config(), item, now), item, t),
        m.contains_key(other) ==> !ready_in(m, other, t),
{
}

/// The configuration of `BackoffConfig::once()`.
pub open spec fn once_config() -> BackoffConfig {
    BackoffConfig { min_delay: u64::MAX, max_delay: u64::MAX, strategy: BackoffStrategy::Cliff(0) }
}

/// With `BackoffConfig::constant(period)`, an event on a ready kind makes it
/// ready again exactly once more than `period` has passed.
pub proof fn lemma_constant_rate<T>(
    m: Map<T, BackoffEntry>,
    period: u64,
    item: T,
    now: u64,
    t: u64,
)
    requires
        ready_in(m, item, now),
    ensures
        ready_in(
            after_event(
                m,
                BackoffConfig { min_delay: period, max_delay: period, strategy: BackoffStrategy::Cliff(0) },
                item,
                now,
            ),
            item,
            t,
        ) <==> t > now + period,
{
}

/// Whether every recorded delay is at most the configured maximum.
pub open spec fn delays_within_max<T>(m: Map<T, BackoffEntry>, c: BackoffConfig) -> bool {
    forall|k: T| #[trigger] m.contains_key(k) ==> m[k].delay <= c.max_delay
}

/// Where the minimum delay does not exceed the maximum, no event ever sets a
/// delay beyond the maximum: a history that starts empty keeps every delay
/// within it, and a kind whose event was recorded at `now` is ready again at
/// any time later than `now` plus the maximum delay.
pub proof fn lemma_delays_stay_within_max<T>(
    m: Map<T, BackoffEntry>,
    c: BackoffConfig,
    item: T,
    now: u64,
    t: u64,
)
    requires
        c.min_delay <= c.max_delay,
        delays_within_max(m, c),
    ensures
        delays_within_max(Map::<T, BackoffEntry>::empty(), c),
        delays_within_max(after_event(m, c, item, now), c),
        delays_within_max(after_singular_event(m, c, item, now), c),
        ready_in(m, item, now) && t > now + c.max_delay ==> ready_in(
            after_event(m, c, item, now),
            item,
            t,
        ),
        ready_in(m, item, now) && t > now + c.max_delay ==> ready_in(
            after_singular_event(m, c, item, now),
            item,
            t,
        ),
{
}

/// A singular event on a kind that has no history leaves only that kind in
/// the history.
pub proof fn lemma_singular_event_forgets_others<T>(
    m: Map<T, BackoffEntry>,
    c: BackoffConfig,
    item: T,
    now: u64,
)
    requires
        !m.contains_key(item),
    ensures
        after_singular_event(m, c, item, now).dom() == set![item],
{
    assert(after_singular_event(m, c, item, now).dom() =~= set![item]);
}

/// With an exponential strategy, an event outside the window multiplies the
/// delay by the base, up to the maximum delay.
pub proof fn lemma_exponential_growth<T>(
    m: Map<T, BackoffEntry>,
    c: BackoffConfig,
    base: u64,
    item: T,
    now: u64,
)
    requires
        c.strategy == BackoffStrategy::Exponential(base),
        m.contains_key(item),
        window_passed(m[item], now),
    ensures
        after_event(m, c, item, now)[item].delay == if m[item].delay * base <= c.max_delay {
            m[item].delay * base
        } else {
            c.max_delay as int
        },
        after_event(m, c, item, now)[item].last == now,
{
}

/// `b` to the power `e`.
pub open spec fn power(b: int, e: nat) -> int
    decreases e,
{
    if e == 0 {
        1
    } else {
        b * power(b, (e - 1) as nat)
    }
}

/// The delay the exponential strategy of base `b` sets at the `k`-th
/// recorded event of a kind: the minimum delay times `b` to the `k - 1`,
/// capped at the maximum delay.
pub open spec fn exponential_delay(c: BackoffConfig, b: u64, k: nat) -> int {
    let d = c.min_delay * power(b as int, (k - 1) as nat);
    if d <= c.max_delay {
        d
    } else {
        c.max_delay as int
    }
}

/// Whether the entry of `item`, if any, holds the delay that the exponential
/// strategy of base `b` gives after as many events as it counts.
pub open spec fn exponential_entry<T>(
    m: Map<T, BackoffEntry>,
    c: BackoffConfig,
    b: u64,
    item: T,
) -> bool {
    m.contains_key(item) ==> m[item].count >= 1 && m[item].delay == exponential_delay(
        c,
        b,
        m[item].count as nat,
    )
}

proof fn lemma_power_nonnegative(b: int, e: nat)
    requires
        b >= 0,
    ensures
        power(b, e) >= 0,
        b == 0 && e > 0 ==> power(b, e) == 0,
    decreases e,
{
    if e > 0 {
        lemma_power_nonnegative(b, (e - 1) as nat);
        assert(b * power(b, (e - 1) as nat) >= 0) by (nonlinear_arith)
            requires
                b >= 0,
                power(b, (e - 1) as nat) >= 0,
        ;
    }
}

/// With an exponential strategy of base `b` whose minimum delay does not
/// exceed its maximum, the `k`-th recorded event of a kind sets the delay
/// `min(min_delay * b^(k - 1), max_delay)`: the first event sets it, and every
/// later event (plain or singular) keeps it so, while the count has room.
pub proof fn lemma_exponential_delays<T>(
    m: Map<T, BackoffEntry>,
    c: BackoffConfig,
    b: u64,
    item: T,
    now: u64,
)
    requires
        c.strategy == BackoffStrategy::Exponential(b),
        c.min_delay <= c.max_delay,
        exponential_entry(m, c, b, item),
        m.contains_key(item) ==> m[item].count < u64::MAX,
    ensures
        exponential_entry(Map::<T, BackoffEntry>::empty(), c, b, item),
        exponential_entry(after_event(m, c, item, now), c, b, item),
        exponential_entry(after_singular_event(m, c, item, now), c, b, item),
{
    assert(power(b as int, 0) == 1);
    assert(c.min_delay * power(b as int, 0) == c.min_delay);
    if m.contains_key(item) && window_passed(m[item], now) {
        let e = m[item];
        let k = e.count as nat;
        let p = power(b as int, (k - 1) as nat);
        let q = power(b as int, k);
        assert(q == b * p);
        lemma_power_nonnegative(b as int, (k - 1) as nat);
        let minp = c.min_delay * p;
        assert(c.min_delay * q == minp * b) by (nonlinear_arith)
            requires
                q == b * p,
                minp == c.min_delay * p,
        ;
        if minp <= c.max_delay {
            assert(e.delay == minp);
        } else {
            assert(e.delay == c.max_delay);
            // The cap was reached, so the base is at least 1 and the uncapped
            // delay only grows.
            assert(b >= 1) by {
                if b == 0 {
                    if k > 1 {
                        lemma_power_nonnegative(b as int, (k - 1) as nat);
                        assert(p == 0);
                    } else {
                        assert(p == 1);
                    }
                    assert(minp <= c.max_delay) by (nonlinear_arith)
                        requires
                            minp == c.min_delay * p,
                            p == 0 || p == 1,
                            c.min_delay <= c.max_delay,
                    ;
                }
            }
            assert(minp * b >= minp) by (nonlinear_arith)
                requires
                    b >= 1,
                    minp >= 0,
            ;
            assert(e.delay * b >= c.max_delay) by (nonlinear_arith)
                requires
                    b >= 1,
                    e.delay == c.max_delay,
            ;
        }
    }
}

/// Whether `e` is an entry that `c` can produce: at least one event was
/// counted; its delay is within the maximum where the minimum does not exceed
/// it; it is the maximum under `Cliff(0)`; and under an exponential strategy
/// it is the minimum times the base to one less than the count, capped at the
/// maximum, while the count has room.
pub open spec fn entry_consistent(c: BackoffConfig, e: BackoffEntry) -> bool {
    &&& e.count >= 1
    &&& c.min_delay <= c.max_delay ==> e.delay <= c.max_delay
    &&& match c.strategy {
        BackoffStrategy::Exponential(b) => c.min_delay <= c.max_delay && e.count < u64::MAX
            ==> e.delay == exponential_delay(c, b, e.count as nat),
        BackoffStrategy::Cliff(n) => n == 0 ==> e.delay == c.max_delay,
    }
}

/// Whether every entry of the history `m` is one that `c` can produce.
pub open spec fn history_consistent<T>(m: Map<T, BackoffEntry>, c: BackoffConfig) -> bool {
    forall|k: T| #[trigger] m.contains_key(k) ==> entry_consistent(c, m[k])
}

/// A history that starts empty stays one that its configuration can produce,
/// whatever events are recorded and whatever is forgotten.
pub proof fn lemma_history_stays_consistent<T>(
    m: Map<T, BackoffEntry>,
    c: BackoffConfig,
    item: T,
    now: u64,
    gone: Set<T>,
)
    requires
        history_consistent(m, c),
    ensures
        history_consistent(Map::<T, BackoffEntry>::empty(), c),
        history_consistent(after_event(m, c, item, now), c),
        history_consistent(after_singular_event(m, c, item, now), c),
        history_consistent(m.remove(item), c),
        history_consistent(m.remove_keys(gone), c),
{
    lemma_event_keeps_consistent(m, c, item, now);
    lemma_event_keeps_consistent(Map::<T, BackoffEntry>::empty(), c, item, now);
}

proof fn lemma_event_keeps_consistent<T>(
    m: Map<T, BackoffEntry>,
    c: BackoffConfig,
    item: T,
    now: u64,
)
    requires
        history_consistent(m, c),
    ensures
        history_consistent(after_event(m, c, item, now), c),
{
    let m2 = after_event(m, c, item, now);
    if let BackoffStrategy::Exponential(b) = c.strategy {
        if c.min_delay <= c.max_delay {
            if !m.contains_key(item) || m[item].count < u64::MAX {
                lemma_exponential_delays(m, c, b, item, now);
            }
        }
    }
    assert forall|k: T| #[trigger] m2.contains_key(k) implies entry_consistent(c, m2[k]) by {
        if k != item {
            assert(m.contains_key(k));
        }
    }
}

/// What a history that its configuration can produce gives the laws above:
/// every delay is within the maximum where the minimum does not exceed it,
/// every delay is maximal under `BackoffConfig::once()`, and under an
/// exponential strategy each entry whose count has room holds the
/// exponential delay. So no wait is longer than the maximum: a kind is ready
/// at any time later than its last recorded event plus the maximum delay.
pub proof fn lemma_consistent_history_facts<T>(
    m: Map<T, BackoffEntry>,
    c: BackoffConfig,
    item: T,
    t: u64,
)
    requires
        history_consistent(m, c),
    ensures
        c.min_delay <= c.max_delay ==> delays_within_max(m, c),
        c.min_delay <= c.max_delay && m.contains_key(item) && t > m[item].last + c.max_delay
            ==> ready_in(m, item, t),
        c == once_config() ==> all_delays_maximal(m),
        forall|b: u64|
            c.strategy == BackoffStrategy::Exponential(b) && c.min_delay <= c.max_delay && (
            m.contains_key(item) ==> m[item].count < u64::MAX) ==> #[trigger] exponential_entry(
                m,
                c,
                b,
                item,
            ),
{
}

/// With a cliff strategy `Cliff(n)`, the minimum delay is waited `n` times:
/// an event outside the window keeps the minimum delay while fewer than `n`
/// events were recorded, then switches to the maximum.
pub proof fn lemma_cliff_switch<T>(
    m: Map<T, BackoffEntry>,
    c: BackoffConfig,
    n: u64,
    item: T,
    now: u64,
)
    requires
        c.strategy == BackoffStrategy::Cliff(n),
        m.contains_key(item),
        window_passed(m[item], now),
    ensures
        after_event(m, c, item, now)[item].delay == if m[item].count >= n {
            c.max_delay
        } else {
            c.min_delay
        },
{
}

} // verus!
