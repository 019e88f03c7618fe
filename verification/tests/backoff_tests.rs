use std::sync::atomic::{AtomicU64, Ordering};
use std::sync::Arc;

use app_frame::backoff::{BackoffConfig, BackoffStrategy, BackoffTracker};
use app_frame::time::Clock;

struct ManualClock(AtomicU64);

impl Clock for ManualClock {
    fn current_timestamp(&self) -> u64 {
        self.0.load(Ordering::SeqCst)
    }
}

fn tracker(config: BackoffConfig) -> (BackoffTracker<u64>, Arc<ManualClock>) {
    let clock = Arc::new(ManualClock(AtomicU64::new(0)));
    let shared: Arc<dyn Clock> = clock.clone();
    (BackoffTracker::new(shared, config), clock)
}

fn set(clock: &ManualClock, t: u64) {
    clock.0.store(t, Ordering::SeqCst);
}

fn exp_config() -> BackoffConfig {
    BackoffConfig { min_delay: 10, max_delay: 100, strategy: BackoffStrategy::Exponential(3) }
}

#[test]
fn unknown_items_are_ready() {
    let (t, _) = tracker(exp_config());
    assert!(t.is_ready(&7));
    assert!(t.is_ready_at(&7, 0));
}

#[test]
fn event_blocks_the_same_instant() {
    let (mut t, _) = tracker(exp_config());
    t.event_at(1, 50);
    assert!(!t.is_ready_at(&1, 50));
    assert!(t.is_ready_at(&2, 50));
}

#[test]
fn exponential_delays_grow_up_to_the_maximum() {
    let (mut t, _) = tracker(exp_config());
    t.event_at(1, 0); // delay 10
    assert!(!t.is_ready_at(&1, 10));
    assert!(t.is_ready_at(&1, 11));
    t.event_at(1, 5); // within the window: ignored
    assert!(t.is_ready_at(&1, 11));
    t.event_at(1, 11); // delay 30
    assert!(!t.is_ready_at(&1, 41));
    assert!(t.is_ready_at(&1, 42));
    t.event_at(1, 42); // delay 90
    assert!(!t.is_ready_at(&1, 132));
    assert!(t.is_ready_at(&1, 133));
    t.event_at(1, 133); // delay min(270, 100)
    assert!(!t.is_ready_at(&1, 233));
    assert!(t.is_ready_at(&1, 234));
}

#[test]
fn exponential_overflow_is_capped_at_the_maximum() {
    let config = BackoffConfig {
        min_delay: u64::MAX / 2,
        max_delay: u64::MAX - 1,
        strategy: BackoffStrategy::Exponential(4),
    };
    let (mut t, _) = tracker(config);
    t.event_at(1, 0);
    t.event_at(1, u64::MAX / 2 + 1);
    assert!(!t.is_ready_at(&1, u64::MAX));
}

#[test]
fn constant_rate_limit() {
    let (mut t, clock) = tracker(BackoffConfig::constant(5));
    set(&clock, 100);
    t.event(3);
    assert!(!t.is_ready_at(&3, 105));
    assert!(t.is_ready_at(&3, 106));
    set(&clock, 106);
    assert!(t.is_ready(&3));
}

#[test]
fn once_is_never_ready_again_until_cleared() {
    let (mut t, _) = tracker(BackoffConfig::once());
    t.event_at(9, 10);
    assert!(!t.is_ready_at(&9, u64::MAX));
    t.event_at(9, u64::MAX);
    assert!(!t.is_ready_at(&9, u64::MAX));
    t.clear(&9);
    assert!(t.is_ready_at(&9, 11));
}

#[test]
fn cliff_switches_to_the_maximum_after_enough_events() {
    let config = BackoffConfig { min_delay: 5, max_delay: 50, strategy: BackoffStrategy::Cliff(2) };
    let (mut t, _) = tracker(config);
    t.event_at(1, 0); // first minimum wait
    assert!(t.is_ready_at(&1, 6));
    t.event_at(1, 6); // second minimum wait
    assert!(!t.is_ready_at(&1, 11));
    assert!(t.is_ready_at(&1, 12));
    t.event_at(1, 12); // two minimum waits done: the maximum from now on
    assert!(!t.is_ready_at(&1, 62));
    assert!(t.is_ready_at(&1, 63));
    t.event_at(1, 63);
    assert!(!t.is_ready_at(&1, 113));
    assert!(t.is_ready_at(&1, 114));
}

#[test]
fn cliff_one_waits_the_minimum_once() {
    let config =
        BackoffConfig { min_delay: 10, max_delay: 100, strategy: BackoffStrategy::Cliff(1) };
    let (mut t, _) = tracker(config);
    t.event_at(1, 0);
    assert!(!t.is_ready_at(&1, 10));
    assert!(t.is_ready_at(&1, 11));
    t.event_at(1, 11);
    assert!(!t.is_ready_at(&1, 22));
    assert!(!t.is_ready_at(&1, 111));
    assert!(t.is_ready_at(&1, 112));
}

#[test]
fn cliff_zero_starts_at_the_maximum() {
    let config = BackoffConfig { min_delay: 5, max_delay: 50, strategy: BackoffStrategy::Cliff(0) };
    assert_eq!(config.initial_delay(), 50);
    let config = BackoffConfig { min_delay: 5, max_delay: 50, strategy: BackoffStrategy::Cliff(1) };
    assert_eq!(config.initial_delay(), 5);
    assert_eq!(exp_config().initial_delay(), 10);
}

#[test]
fn singular_event_forgets_other_items() {
    let (mut t, _) = tracker(exp_config());
    t.event_at(1, 0);
    t.event_at(2, 0);
    t.singular_event_at(1, 1); // 1 is known: history kept
    assert!(!t.is_ready_at(&2, 1));
    t.singular_event_at(3, 1); // 3 is new: others forgotten
    assert!(t.is_ready_at(&1, 1));
    assert!(t.is_ready_at(&2, 1));
    assert!(!t.is_ready_at(&3, 1));
}

#[test]
fn singular_event_reads_the_clock() {
    let (mut t, clock) = tracker(exp_config());
    set(&clock, 20);
    t.event(1);
    t.singular_event(2);
    assert!(t.is_ready_at(&1, 20));
    assert!(!t.is_ready_at(&2, 30));
    assert!(t.is_ready_at(&2, 31));
}

#[test]
fn clear_many_forgets_each_item() {
    let (mut t, _) = tracker(exp_config());
    t.event_at(1, 0);
    t.event_at(2, 0);
    t.event_at(3, 0);
    t.clear_many(&[1, 3, 4]);
    assert!(t.is_ready_at(&1, 0));
    assert!(!t.is_ready_at(&2, 0));
    assert!(t.is_ready_at(&3, 0));
}

#[test]
fn backoff_runs_only_when_ready() {
    let (mut t, clock) = tracker(BackoffConfig::constant(10));
    set(&clock, 0);
    assert_eq!(t.backoff(1, || 5), Some(5));
    assert_eq!(t.backoff(1, || 6), None);
    set(&clock, 11);
    assert_eq!(t.backoff(1, || 7), Some(7));
}

#[test]
fn backoff_errors_counts_only_errors() {
    let (mut t, _) = tracker(BackoffConfig::constant(10));
    assert_eq!(t.backoff_errors(1, || Ok::<u8, u8>(1)), Some(Ok(1)));
    assert_eq!(t.backoff_errors(1, || Ok::<u8, u8>(2)), Some(Ok(2)));
    assert_eq!(t.backoff_errors(1, || Err::<u8, u8>(3)), Some(Err(3)));
    assert_eq!(t.backoff_errors(1, || Ok::<u8, u8>(4)), None);
}

#[test]
fn backoff_oks_counts_only_successes() {
    let (mut t, _) = tracker(BackoffConfig::constant(10));
    assert_eq!(t.backoff_oks(1, || Err::<u8, u8>(1)), Some(Err(1)));
    assert_eq!(t.backoff_oks(1, || Ok::<u8, u8>(2)), Some(Ok(2)));
    assert_eq!(t.backoff_oks(1, || Ok::<u8, u8>(3)), None);
}

#[test]
fn backoff_singular_forgets_other_items() {
    let (mut t, _) = tracker(BackoffConfig::constant(10));
    assert_eq!(t.backoff(1, || 1), Some(1));
    assert_eq!(t.backoff_singular(2, || 2), Some(2));
    assert_eq!(t.backoff(1, || 3), Some(3));
}

#[test]
fn backoff_generic_uses_the_predicate() {
    let (mut t, _) = tracker(BackoffConfig::constant(10));
    assert_eq!(t.backoff_generic(1, || 4, false, |x: &i32| *x > 5), Some(4));
    assert_eq!(t.backoff_generic(1, || 6, false, |x: &i32| *x > 5), Some(6));
    assert_eq!(t.backoff_generic(1, || 7, false, |x: &i32| *x > 5), None);
}

#[test]
fn default_configuration() {
    let c = BackoffConfig::default();
    assert_eq!(c.min_delay, 30);
    assert_eq!(c.max_delay, 3600);
    assert_eq!(c.strategy, BackoffStrategy::Exponential(3));
    assert_eq!(BackoffStrategy::default(), BackoffStrategy::Exponential(3));
    let o = BackoffConfig::once();
    assert_eq!((o.min_delay, o.max_delay, o.strategy), (u64::MAX, u64::MAX, BackoffStrategy::Cliff(0)));
    let k = BackoffConfig::constant(7);
    assert_eq!((k.min_delay, k.max_delay, k.strategy), (7, 7, BackoffStrategy::Cliff(0)));
    let t: BackoffTracker<u64> = BackoffTracker::default();
    assert!(t.is_ready(&1));
}

#[test]
fn backoff_generic_at_decides_at_the_given_time() {
    let (mut t, _) = tracker(BackoffConfig::constant(10));
    assert_eq!(t.backoff_generic_at(1, || 1, false, |_: &i32| true, 100, 100), Some(1));
    assert_eq!(t.backoff_generic_at(1, || 2, false, |_: &i32| true, 110, 110), None);
    assert_eq!(t.backoff_generic_at(1, || 3, false, |_: &i32| false, 111, 111), Some(3));
    // The predicate was false: nothing recorded, still ready.
    assert!(t.is_ready_at(&1, 111));
    // The event is recorded at the later time.
    assert_eq!(t.backoff_generic_at(1, || 4, false, |_: &i32| true, 111, 200), Some(4));
    assert!(!t.is_ready_at(&1, 210));
    assert!(t.is_ready_at(&1, 211));
}

#[test]
fn exponential_delay_after_k_events() {
    // min 2, base 3, max 50: delays 2, 6, 18, 50 (54 capped), 50.
    let config = BackoffConfig { min_delay: 2, max_delay: 50, strategy: BackoffStrategy::Exponential(3) };
    let (mut t, _) = tracker(config);
    let mut now = 0;
    for expected in [2u64, 6, 18, 50, 50] {
        t.event_at(1, now);
        assert!(!t.is_ready_at(&1, now + expected));
        assert!(t.is_ready_at(&1, now + expected + 1));
        now += expected + 1;
    }
}

#[test]
fn once_stays_blocked_over_further_events() {
    let (mut t, _) = tracker(BackoffConfig::once());
    t.event_at(1, 0);
    t.event_at(1, 1_000);
    t.singular_event_at(1, u64::MAX);
    assert!(!t.is_ready_at(&1, u64::MAX));
    assert!(t.is_ready_at(&2, 0));
}

#[test]
fn no_wait_exceeds_the_maximum() {
    let config = BackoffConfig { min_delay: 7, max_delay: 20, strategy: BackoffStrategy::Exponential(10) };
    let (mut t, _) = tracker(config);
    let mut now = 5;
    for _ in 0..4 {
        t.event_at(3, now);
        assert!(t.is_ready_at(&3, now + 21));
        now += 21;
    }
}
