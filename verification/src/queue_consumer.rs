use std::collections::HashMap;
use std::hash::Hash;
use std::time::Duration;
use vstd::prelude::*;
use vstd::std_specs::hash::obeys_key_model;

use crate::backoff::{after_event, ready_in, BackoffEntry, BackoffTracker};

verus! {

/// How to behave when the number of items in the queue is between 0 and
/// max_chunk_size.
#[derive(Clone, Copy, Debug, PartialEq, Eq)]
pub enum BatchStrategy {
    /// React as soon as anything is received
    Responsive,
    /// React only when the number of items received reaches the full chunk size
    Efficient,
}

/// How a queue receiver polls, chunks and deduplicates.
#[derive(Clone, Copy, Debug)]
pub struct QueueReceiveConfig {
    /// How long to wait between polling attempts when the queue is empty
    pub poll_interval: Duration,
    /// The longest period to wait before returning an empty vec. None means wait forever
    pub max_wait: Option<Duration>,
    /// The largest number of items to return per method call. None means no limit.
    pub max_chunk_size: Option<usize>,
    /// The number of items the queue must hold before a receive takes any.
    pub min_chunk_size: usize,
    /// If an identical item is read from the queue multiple times within this
    /// many seconds, only the first one is used. None disables deduplication.
    pub cooldown: Option<Duration>,
    /// How to behave when the number of items in the queue is between 0 and
    /// max_chunk_size.
    pub batch_strategy: BatchStrategy,
}

/// One setting of a `QueueReceiveConfig`, to replace the configured one.
#[derive(Clone, Copy, Debug)]
pub enum Override {
    PollInterval(Duration),
    MaxWait(Option<Duration>),
    MaxChunkSize(Option<usize>),
    MinChunkSize(usize),
    Cooldown(Option<Duration>),
    BatchStrategy(BatchStrategy),
}

/// `c` with the one setting that `o` names replaced.
pub open spec fn apply_override(c: QueueReceiveConfig, o: Override) -> QueueReceiveConfig {
    match o {
        Override::PollInterval(x) => QueueReceiveConfig { poll_interval: x, ..c },
        Override::MaxWait(x) => QueueReceiveConfig { max_wait: x, ..c },
        Override::MaxChunkSize(x) => QueueReceiveConfig { max_chunk_size: x, ..c },
        Override::MinChunkSize(x) => QueueReceiveConfig { min_chunk_size: x, ..c },
        Override::Cooldown(x) => QueueReceiveConfig { cooldown: x, ..c },
        Override::BatchStrategy(x) => QueueReceiveConfig { batch_strategy: x, ..c },
    }
}

/// `c` with the settings of `s` applied in order, the last one winning.
pub open spec fn apply_overrides(c: QueueReceiveConfig, s: Seq<Override>) -> QueueReceiveConfig
    decreases s.len(),
{
    if s.len() == 0 {
        c
    } else {
        apply_override(apply_overrides(c, s.drop_last()), s.last())
    }
}

/// Every setting of `c`, one override each, in field order.
pub open spec fn overrides_of(c: QueueReceiveConfig) -> Seq<Override> {
    seq![
        Override::PollInterval(c.poll_interval),
        Override::MaxWait(c.max_wait),
        Override::MaxChunkSize(c.max_chunk_size),
        Override::MinChunkSize(c.min_chunk_size),
        Override::Cooldown(c.cooldown),
        Override::BatchStrategy(c.batch_strategy),
    ]
}

/// The length of `d` in whole nanoseconds, as `Duration::as_nanos` gives it.
pub uninterp spec fn duration_nanos(d: Duration) -> u128;

/// `Duration::from_secs`: a duration of `secs` whole seconds, that is
/// `secs` times a billion nanoseconds.
#[verifier::external_body]
fn duration_of_secs(secs: u64) -> (d: Duration)
    ensures
        duration_nanos(d) == secs * 1_000_000_000,
{
    Duration::from_secs(secs)
}

impl Default for QueueReceiveConfig {
    /// Polls every second, waits forever, takes every item one by one at
    /// least, and does not deduplicate.
    fn default() -> (c: Self)
        ensures
            duration_nanos(c.poll_interval) == 1_000_000_000,
            c.max_wait is None,
            c.max_chunk_size is None,
            c.min_chunk_size == 1,
            c.cooldown is None,
            c.batch_strategy == BatchStrategy::Responsive,
    {
        QueueReceiveConfig {
            poll_interval: duration_of_secs(1),
            max_wait: None,
            max_chunk_size: None,
            min_chunk_size: 1,
            cooldown: None,
            batch_strategy: BatchStrategy::Responsive,
        }
    }
}

impl QueueReceiveConfig {
    /// This configuration with `settings` applied in order.
    pub fn with(self, settings: &[Override]) -> (c: QueueReceiveConfig)
        ensures
            c == apply_overrides(self, settings@),
    {
        let mut c = self;
        let mut i: usize = 0;
        while i < settings.len()
            invariant
                i <= settings@.len(),
                c == apply_overrides(self, settings@.subrange(0, i as int)),
            decreases settings@.len() - i,
        {
            let setting = settings[i];
            match setting {
                Override::PollInterval(x) => c.poll_interval = x,
                Override::MaxWait(x) => c.max_wait = x,
                Override::MaxChunkSize(x) => c.max_chunk_size = x,
                Override::Cooldown(x) => c.cooldown = x,
                Override::BatchStrategy(x) => c.batch_strategy = x,
                Override::MinChunkSize(x) => c.min_chunk_size = x,
            }
            assert(settings@.subrange(0, i + 1).drop_last() =~= settings@.subrange(0, i as int));
            i = i + 1;
        }
        assert(settings@.subrange(0, i as int) =~= settings@);
        c
    }
}

impl From<QueueReceiveConfig> for Vec<Override> {
    /// Every setting of the configuration, as overrides, in field order.
    fn from(value: QueueReceiveConfig) -> (v: Vec<Override>)
        ensures
            v@ == overrides_of(value),
    {
        let mut v: Vec<Override> = Vec::new();
        v.push(Override::PollInterval(value.poll_interval));
        v.push(Override::MaxWait(value.max_wait));
        v.push(Override::MaxChunkSize(value.max_chunk_size));
        v.push(Override::MinChunkSize(value.min_chunk_size));
        v.push(Override::Cooldown(value.cooldown));
        v.push(Override::BatchStrategy(value.batch_strategy));
        assert(v@ =~= overrides_of(value));
        v
    }
}

/// No whole-vector result is promised for `From`: vectors of overrides are
/// compared by their contents, which `from` states through `overrides_of`.
impl vstd::std_specs::convert::FromSpecImpl<QueueReceiveConfig> for Vec<Override> {
    open spec fn obeys_from_spec() -> bool {
        false
    }

    open spec fn from_spec(v: QueueReceiveConfig) -> Vec<Override> {
        arbitrary()
    }
}

/// An override sets the one field it names to its value and leaves every
/// other field as it was.
pub proof fn lemma_override_sets_only_its_field(c: QueueReceiveConfig, o: Override)
    ensures
        ({
            let r = apply_override(c, o);
            &&& r.poll_interval == match o {
                Override::PollInterval(x) => x,
                _ => c.poll_interval,
            }
            &&& r.max_wait == match o {
                Override::MaxWait(x) => x,
                _ => c.max_wait,
            }
            &&& r.max_chunk_size == match o {
                Override::MaxChunkSize(x) => x,
                _ => c.max_chunk_size,
            }
            &&& r.min_chunk_size == match o {
                Override::MinChunkSize(x) => x,
                _ => c.min_chunk_size,
            }
            &&& r.cooldown == match o {
                Override::Cooldown(x) => x,
                _ => c.cooldown,
            }
            &&& r.batch_strategy == match o {
                Override::BatchStrategy(x) => x,
                _ => c.batch_strategy,
            }
        }),
{
}

/// A field that no setting names keeps its configured value (settings of the
/// largest chunk leave the cooldown alone, for one); each setting applies on
/// top of those before it, so the last one that names a field decides it.
pub proof fn lemma_overrides_keep_unnamed_fields(c: QueueReceiveConfig, s: Seq<Override>)
    ensures
        (forall|i: int| 0 <= i < s.len() ==> !(#[trigger] s[i] is Cooldown))
            ==> apply_overrides(c, s).cooldown == c.cooldown,
        (forall|i: int| 0 <= i < s.len() ==> !(#[trigger] s[i] is MaxChunkSize))
            ==> apply_overrides(c, s).max_chunk_size == c.max_chunk_size,
        (forall|i: int| 0 <= i < s.len() ==> !(#[trigger] s[i] is PollInterval))
            ==> apply_overrides(c, s).poll_interval == c.poll_interval,
        (forall|i: int| 0 <= i < s.len() ==> !(#[trigger] s[i] is MaxWait))
            ==> apply_overrides(c, s).max_wait == c.max_wait,
        (forall|i: int| 0 <= i < s.len() ==> !(#[trigger] s[i] is MinChunkSize))
            ==> apply_overrides(c, s).min_chunk_size == c.min_chunk_size,
        (forall|i: int| 0 <= i < s.len() ==> !(#[trigger] s[i] is BatchStrategy))
            ==> apply_overrides(c, s).batch_strategy == c.batch_strategy,
        s.len() > 0 ==> apply_overrides(c, s) == apply_override(
            apply_overrides(c, s.drop_last()),
            s.last(),
        ),
    decreases s.len(),
{
    if s.len() > 0 {
        lemma_overrides_keep_unnamed_fields(c, s.drop_last());
        lemma_override_sets_only_its_field(apply_overrides(c, s.drop_last()), s.last());
        assert forall|i: int| 0 <= i < s.drop_last().len() implies s.drop_last()[i] == s[i] by {}
    }
}

/// Applying every setting of a configuration gives that configuration back,
/// whatever configuration the settings are applied to.
pub proof fn lemma_overrides_round_trip(base: QueueReceiveConfig, c: QueueReceiveConfig)
    ensures
        apply_overrides(base, overrides_of(c)) == c,
{
    let s = overrides_of(c);
    reveal_with_fuel(apply_overrides, 7);
    assert(s.drop_last().drop_last().drop_last().drop_last().drop_last().drop_last() =~= Seq::<
        Override,
    >::empty());
}


/// The history after events on each of `items`, in order, all at `now`.
pub open spec fn after_events<T>(
    m: Map<T, BackoffEntry>,
    c: crate::backoff::BackoffConfig,
    items: Seq<T>,
    now: u64,
) -> Map<T, BackoffEntry>
    decreases items.len(),
{
    if items.len() == 0 {
        m
    } else {
        after_event(after_events(m, c, items.drop_last(), now), c, items.last(), now)
    }
}

/// The items of `items` that the history `m` lets through at `now`, in order.
pub open spec fn ready_items<T>(m: Map<T, BackoffEntry>, items: Seq<T>, now: u64) -> Seq<T> {
    items.filter(|x: T| ready_in(m, x, now))
}

/// The inputs whose preparation succeeded, what they were prepared into,
/// and the inputs whose preparation failed, each in the order of `s`.
pub open spec fn prepared_split<T, I, E>(s: Seq<(T, Result<I, E>)>) -> (Seq<T>, Seq<I>, Seq<T>)
    decreases s.len(),
{
    if s.len() == 0 {
        (Seq::empty(), Seq::empty(), Seq::empty())
    } else {
        let prev = prepared_split(s.drop_last());
        match s.last().1 {
            Ok(v) => (prev.0.push(s.last().0), prev.1.push(v), prev.2),
            Err(_) => (prev.0, prev.1, prev.2.push(s.last().0)),
        }
    }
}

/// Splits the results of preparing each input into the inputs that were
/// prepared, what they were prepared into, and the inputs that failed, each
/// in order; the errors themselves are dropped.
pub fn split_prepared<T, I, E>(results: Vec<(T, Result<I, E>)>) -> (r: (Vec<T>, Vec<I>, Vec<T>))
    ensures
        r.0@ == prepared_split(results@).0,
        r.1@ == prepared_split(results@).1,
        r.2@ == prepared_split(results@).2,
{
    let ghost all = results@;
    let mut ok_inputs: Vec<T> = Vec::new();
    let mut prepared: Vec<I> = Vec::new();
    let mut err_inputs: Vec<T> = Vec::new();
    assert(all.take(0) =~= Seq::<(T, Result<I, E>)>::empty());
    for pair in it: results.into_iter()
        invariant
            it.seq() == all,
            ok_inputs@ == prepared_split(all.take(it.index() as int)).0,
            prepared@ == prepared_split(all.take(it.index() as int)).1,
            err_inputs@ == prepared_split(all.take(it.index() as int)).2,
    {
        let ghost i = it.index() as int;
        assert(pair == all[i]);
        assert(all.take(i + 1).drop_last() =~= all.take(i));
        let (input, result) = pair;
        match result {
            Ok(v) => {
                ok_inputs.push(input);
                prepared.push(v);
            },
            Err(_) => {
                err_inputs.push(input);
            },
        }
    }
    assert(all.take(all.len() as int) =~= all);
    (ok_inputs, prepared, err_inputs)
}

/// How a processed batch turned out.
#[derive(Debug)]
pub enum BatchOutcome<T> {
    /// The batch and every input succeeded.
    Succeeded,
    /// The batch succeeded but these inputs failed to be prepared.
    SomeInputsFailed(Vec<T>),
    /// The batch itself failed: every input counts as failed.
    BatchFailed(Vec<T>),
}

/// What a batch whose prepared inputs are `ok_inputs`, whose failed inputs
/// are `err_inputs`, and whose batch step succeeded or not, amounts to.
pub fn batch_outcome<T>(ok_inputs: Vec<T>, err_inputs: Vec<T>, batch_succeeded: bool) -> (r:
    BatchOutcome<T>)
    ensures
        match r {
            BatchOutcome::BatchFailed(all) => !batch_succeeded && all@ == ok_inputs@ + err_inputs@,
            BatchOutcome::SomeInputsFailed(failed) => batch_succeeded && err_inputs@.len() > 0
                && failed@ == err_inputs@,
            BatchOutcome::Succeeded => batch_succeeded && err_inputs@.len() == 0,
        },
{
    if !batch_succeeded {
        let mut all = ok_inputs;
        let mut rest = err_inputs;
        all.append(&mut rest);
        BatchOutcome::BatchFailed(all)
    } else if err_inputs.len() > 0 {
        BatchOutcome::SomeInputsFailed(err_inputs)
    } else {
        BatchOutcome::Succeeded
    }
}

/// Backoff bookkeeping of batch processing.
impl<T: Eq + Hash> BackoffTracker<T> {
    /// The items of `items` that are ready at `now`, in order.
    pub fn keep_ready_at(&self, items: Vec<T>, now: u64) -> (kept: Vec<T>)
        requires
            obeys_key_model::<T>(),
        ensures
            kept@ == ready_items(self@, items@, now),
    {
        let ghost all = items@;
        let ghost pred = |x: T| ready_in(self@, x, now);
        let mut kept: Vec<T> = Vec::new();
        assert(all.take(0).filter(pred) =~= Seq::<T>::empty()) by {
            reveal(Seq::filter);
        }
        for x in it: items.into_iter()
            invariant
                obeys_key_model::<T>(),
                pred == (|x: T| ready_in(self@, x, now)),
                it.seq() == all,
                kept@ == all.take(it.index() as int).filter(pred),
        {
            let ghost i = it.index() as int;
            assert(x == all[i]);
            proof {
                reveal(Seq::filter);
                assert(all.take(i + 1).drop_last() =~= all.take(i));
            }
            if self.is_ready_at(&x, now) {
                kept.push(x);
            }
        }
        assert(all.take(all.len() as int) =~= all);
        kept
    }

    /// The items of `items` that are ready at the time the tracker's clock
    /// reads (one reading for all), in order.
    pub fn keep_ready(&self, items: Vec<T>) -> (kept: Vec<T>)
        requires
            obeys_key_model::<T>(),
        ensures
            exists|now: u64|
                #[trigger] self.clock_may_read(now) && kept@ == ready_items(self@, items@, now),
    {
        let now = self.current_timestamp();
        self.keep_ready_at(items, now)
    }

    /// Records the outcome of a processed batch at the time the tracker's
    /// clock reads; see `record_batch_at`.
    pub fn record_batch(&mut self, ok_inputs: Vec<T>, err_inputs: Vec<T>, batch_succeeded: bool)
        requires
            obeys_key_model::<T>(),
        ensures
            final(self).config_of() == old(self).config_of(),
            final(self).same_clock(*old(self)),
            final(self).well_formed(),
            exists|now: u64|
                {
                    &&& #[trigger] old(self).clock_may_read(now)
                    &&& batch_succeeded ==> final(self)@ == after_events(
                        old(self)@.remove_keys(ok_inputs@.to_set()),
                        old(self).config_of(),
                        err_inputs@,
                        now,
                    )
                    &&& !batch_succeeded ==> final(self)@ == after_events(
                        old(self)@,
                        old(self).config_of(),
                        ok_inputs@ + err_inputs@,
                        now,
                    )
                },
    {
        let now = self.current_timestamp();
        self.record_batch_at(ok_inputs, err_inputs, batch_succeeded, now);
    }

    /// Records the outcome of a processed batch at `now`: where the batch
    /// failed, an event on every input, prepared ones first; where it
    /// succeeded, the history of each prepared input is cleared, then an event
    /// is recorded on each input that failed to be prepared.
    pub fn record_batch_at(
        &mut self,
        ok_inputs: Vec<T>,
        err_inputs: Vec<T>,
        batch_succeeded: bool,
        now: u64,
    )
        requires
            obeys_key_model::<T>(),
        ensures
            final(self).config_of() == old(self).config_of(),
            final(self).same_clock(*old(self)),
            final(self).well_formed(),
            batch_succeeded ==> final(self)@ == after_events(
                old(self)@.remove_keys(ok_inputs@.to_set()),
                old(self).config_of(),
                err_inputs@,
                now,
            ),
            !batch_succeeded ==> final(self)@ == after_events(
                old(self)@,
                old(self).config_of(),
                ok_inputs@ + err_inputs@,
                now,
            ),
    {
        if batch_succeeded {
            self.clear_many(ok_inputs.as_slice());
            self.events_at(err_inputs, now);
        } else {
            let mut all = ok_inputs;
            let mut rest = err_inputs;
            all.append(&mut rest);
            self.events_at(all, now);
        }
    }

    /// Records an event on each of `items`, in order, at `now`.
    pub fn events_at(&mut self, items: Vec<T>, now: u64)
        requires
            obeys_key_model::<T>(),
        ensures
            final(self).config_of() == old(self).config_of(),
            final(self).same_clock(*old(self)),
            final(self).well_formed(),
            final(self)@ == after_events(old(self)@, old(self).config_of(), items@, now),
    {
        proof {
            use_type_invariant(&*self);
        }
        let ghost all = items@;
        assert(all.take(0) =~= Seq::<T>::empty());
        for x in it: items.into_iter()
            invariant
                obeys_key_model::<T>(),
                it.seq() == all,
                self.config_of() == old(self).config_of(),
                self.same_clock(*old(self)),
                self.well_formed(),
                self@ == after_events(old(self)@, old(self).config_of(), all.take(it.index() as int), now),
        {
            let ghost i = it.index() as int;
            assert(x == all[i]);
            assert(all.take(i + 1).drop_last() =~= all.take(i));
            self.event_at(x, now);
        }
        assert(all.take(all.len() as int) =~= all);
    }
}


/// Whether an item last seen at `last` (nanoseconds since the UNIX epoch, or
/// never if `None`) may be taken again at `now` under `cooldown`.
pub open spec fn cooled_down_spec(last: Option<u128>, now: u128, cooldown: u128) -> bool {
    match last {
        Some(l) => now - l >= cooldown,
        None => now >= cooldown,
    }
}

/// History of the last time each item was taken from a queue, in
/// nanoseconds since the UNIX epoch, to deduplicate items within a cooldown.
pub struct CooldownLog<T> {
    last_appearances: HashMap<T, u128>,
}

impl<T> View for CooldownLog<T> {
    type V = Map<T, u128>;

    closed spec fn view(&self) -> Map<T, u128> {
        self.last_appearances@
    }
}

impl<T> CooldownLog<T> {
    /// A log in which nothing has been seen yet.
    pub fn new() -> (log: Self)
        ensures
            log@ == Map::<T, u128>::empty(),
    {
        CooldownLog { last_appearances: HashMap::new() }
    }
}

impl<T: Eq + Hash> CooldownLog<T> {
    /// When `item` was last taken, if ever.
    pub fn last_seen(&self, item: &T) -> (r: Option<u128>)
        requires
            obeys_key_model::<T>(),
        ensures
            r == self@.get(*item),
    {
        match self.last_appearances.get(item) {
            Some(t) => Some(*t),
            None => None,
        }
    }

    /// Whether `item` may be taken at `now`: at least `cooldown` has passed
    /// since it was last taken (an item never taken counts as taken at the
    /// epoch).
    pub fn cooled_down(&self, item: &T, now: u128, cooldown: u128) -> (r: bool)
        requires
            obeys_key_model::<T>(),
            self@.contains_key(*item) ==> self@[*item] <= now,
        ensures
            r == cooled_down_spec(self@.get(*item), now, cooldown),
    {
        let last: u128 = match self.last_appearances.get(item) {
            Some(t) => *t,
            None => 0,
        };
        now - last >= cooldown
    }

    /// Records that `item` was taken at `now`.
    pub fn record(&mut self, item: T, now: u128)
        requires
            obeys_key_model::<T>(),
        ensures
            final(self)@ == old(self)@.insert(item, now),
    {
        self.last_appearances.insert(item, now);
    }
}

/// The most items that one receive may return under `config`.
pub open spec fn chunk_limit_of(config: QueueReceiveConfig) -> usize {
    match config.max_chunk_size {
        Some(m) => m,
        None => usize::MAX,
    }
}

/// The most items that one receive may return under `config`.
pub fn chunk_limit(config: &QueueReceiveConfig) -> (n: usize)
    ensures
        n == chunk_limit_of(*config),
{
    match config.max_chunk_size {
        Some(m) => m,
        None => usize::MAX,
    }
}

/// An item taken at `taken` is not taken again before `cooldown` has passed.
pub proof fn lemma_cooldown_blocks_repeats(taken: u128, now: u128, cooldown: u128)
    requires
        taken <= now < taken + cooldown,
    ensures
        !cooled_down_spec(Some(taken), now, cooldown),
{
}

impl QueueReceiveConfig {
    /// Whether a queue holding `queued` items holds enough for a receive to
    /// take any.
    pub fn enough_queued(&self, queued: usize) -> (r: bool)
        ensures
            r == (queued >= self.min_chunk_size),
    {
        queued >= self.min_chunk_size
    }
}

/// What a waiting receive does next.
#[derive(Clone, Copy, Debug, PartialEq, Eq)]
pub enum RecvStep {
    /// Not enough is queued yet: wait a poll interval.
    Sleep,
    /// Enough is queued: take what the queue holds, and return it unless
    /// nothing was taken.
    TryTake,
    /// The longest wait has passed: return nothing.
    GiveUp,
}

/// What a receive under `config` does next, having waited `waited_nanos`
/// nanoseconds so far with `queued` items in the queue, where `max_wait_nanos`
/// is its longest wait (`None` for no limit). It gives up once the longest
/// wait has passed; otherwise it takes items once at least the minimum chunk
/// is queued and, under the efficient strategy, a full chunk.
pub fn recv_step(
    config: &QueueReceiveConfig,
    queued: usize,
    waited_nanos: u128,
    max_wait_nanos: Option<u128>,
) -> (s: RecvStep)
    ensures
        (max_wait_nanos matches Some(m) && waited_nanos > m) <==> s == RecvStep::GiveUp,
        s == RecvStep::TryTake <==> (!(max_wait_nanos matches Some(m) && waited_nanos > m)
            && queued >= config.min_chunk_size && (config.batch_strategy
            == BatchStrategy::Efficient ==> queued >= chunk_limit_of(*config))),
{
    let timed_out = match max_wait_nanos {
        Some(m) => waited_nanos > m,
        None => false,
    };
    if timed_out {
        return RecvStep::GiveUp;
    }
    let full_enough = match config.batch_strategy {
        BatchStrategy::Efficient => queued >= chunk_limit(config),
        BatchStrategy::Responsive => true,
    };
    if config.enough_queued(queued) && full_enough {
        RecvStep::TryTake
    } else {
        RecvStep::Sleep
    }
}

/// The items of one receive, gathered one at a time as they leave the queue:
/// at most a limit of them, skipping items seen within the cooldown.
pub struct ChunkTaker<T> {
    items: Vec<T>,
    limit: usize,
}

impl<T> View for ChunkTaker<T> {
    type V = Seq<T>;

    closed spec fn view(&self) -> Seq<T> {
        self.items@
    }
}

impl<T> ChunkTaker<T> {
    /// The most items it takes.
    pub closed spec fn limit(&self) -> usize {
        self.limit
    }

    /// A taker that has taken nothing, with the limit of `config`.
    pub fn new(config: &QueueReceiveConfig) -> (t: Self)
        ensures
            t@ == Seq::<T>::empty(),
            t.limit() == chunk_limit_of(*config),
    {
        ChunkTaker { items: Vec::new(), limit: chunk_limit(config) }
    }

    /// Whether it takes more items.
    pub fn wants_more(&self) -> (r: bool)
        ensures
            r == (self@.len() < self.limit()),
    {
        self.items.len() < self.limit
    }

    /// The items taken, in the order they were offered.
    pub fn into_items(self) -> (v: Vec<T>)
        ensures
            v@ == self@,
    {
        self.items
    }
}

impl<T: Eq + Hash> ChunkTaker<T> {
    /// Offers `item`, which left the queue at `now`; `key` is a copy of it to
    /// remember it by. Without a cooldown the item is taken; with one, it is
    /// taken (and remembered at `now`) only if it has cooled down.
    pub fn offer(
        &mut self,
        log: &mut CooldownLog<T>,
        item: T,
        key: T,
        now: u128,
        cooldown: Option<u128>,
    ) -> (taken: bool)
        requires
            obeys_key_model::<T>(),
            old(log)@.contains_key(key) ==> old(log)@[key] <= now,
        ensures
            taken == match cooldown {
                None => true,
                Some(c) => cooled_down_spec(old(log)@.get(key), now, c),
            },
            taken ==> final(self)@ == old(self)@.push(item),
            !taken ==> final(self)@ == old(self)@,
            final(self).limit() == old(self).limit(),
            cooldown is Some && taken ==> final(log)@ == old(log)@.insert(key, now),
            !(cooldown is Some && taken) ==> final(log)@ == old(log)@,
    {
        match cooldown {
            None => {
                self.items.push(item);
                true
            },
            Some(c) => {
                if log.cooled_down(&key, now, c) {
                    log.record(key, now);
                    self.items.push(item);
                    true
                } else {
                    false
                }
            },
        }
    }
}

} // verus!
