use std::sync::atomic::AtomicUsize;
use std::sync::Arc;
use vstd::prelude::*;
use vstd::string::*;

use crate::health_endpoint::HealthEndpointConfig;
use crate::text::{decimal, decimal_string, replace_all, replaced};
use crate::time::Clock;

verus! {

/// Why and since when a service is deemed unhealthy.
#[derive(Clone, Debug)]
pub struct Unhealthy {
    pub since: i32,
    pub reasons: Vec<String>,
}

/// The health of one service at one check.
#[derive(Clone, Debug)]
pub enum ServiceStatus {
    Healthy,
    Unhealthy(Unhealthy),
}

/// The status of the service at position `id` of the manager, by name.
#[derive(Clone, Debug)]
pub struct ServiceReport<Status> {
    pub id: usize,
    pub name: String,
    pub status: Status,
}

/// The services found alive and dead at one check, and when it happened.
#[derive(Clone, Debug)]
pub struct ServiceReportSummary {
    pub alive: Vec<ServiceReport<()>>,
    pub dead: Vec<ServiceReport<Unhealthy>>,
    pub timestamp: i32,
}

/// The texts of a sequence of strings.
pub open spec fn texts(v: Seq<String>) -> Seq<Seq<char>> {
    v.map_values(|s: String| s@)
}

/// The reason given for a service whose heartbeat is overdue.
pub open spec fn heartbeat_reason(silent_for: int, ttl: int) -> Seq<char> {
    "No heartbeat for "@ + decimal(silent_for) + " seconds (ttl: "@ + decimal(ttl) + ")"@
}

/// The reason given for a service that fails its own health checks.
pub open spec fn failing_reason(failing_for: int) -> Seq<char> {
    "Failed health checks for "@ + decimal(failing_for) + " seconds"@
}

/// Whether the heartbeat of a service that last beat at `last_beat` is
/// overdue at `current` under `ttl`.
pub open spec fn heartbeat_overdue(current: i32, last_beat: i32, ttl: i32) -> bool {
    current - last_beat >= ttl
}

/// When a service that fails its health checks started failing, given the
/// start stored so far (0 for none).
pub open spec fn failing_start(current: i32, stored: usize) -> i32 {
    if stored == 0 {
        current
    } else {
        stored as i32
    }
}

/// The failing start stored after a check.
pub open spec fn stored_after_check(current: i32, healthy: bool, stored: usize) -> usize {
    if healthy {
        0
    } else if stored == 0 {
        current as usize
    } else {
        stored
    }
}

/// Since when a service is deemed unhealthy: since its heartbeat fell due,
/// or since it started failing its health checks, whichever is earlier of
/// those that apply (0 where neither does).
pub open spec fn unhealthy_since(
    current: i32,
    last_beat: i32,
    ttl: i32,
    healthy: bool,
    stored: usize,
) -> i32 {
    let by_heartbeat: i32 = if heartbeat_overdue(current, last_beat, ttl) {
        (last_beat + ttl) as i32
    } else {
        0
    };
    let overdue = heartbeat_overdue(current, last_beat, ttl);
    if healthy {
        by_heartbeat
    } else {
        let start = failing_start(current, stored);
        if overdue && by_heartbeat < start {
            by_heartbeat
        } else {
            start
        }
    }
}

/// The reasons for which a service is deemed unhealthy, in order.
pub open spec fn unhealthy_reasons(
    current: i32,
    last_beat: i32,
    ttl: i32,
    healthy: bool,
    stored: usize,
) -> Seq<Seq<char>> {
    (if heartbeat_overdue(current, last_beat, ttl) {
        seq![heartbeat_reason(current - last_beat, ttl as int)]
    } else {
        Seq::<Seq<char>>::empty()
    }) + (if healthy {
        Seq::<Seq<char>>::empty()
    } else {
        seq![failing_reason(current - failing_start(current, stored))]
    })
}

/// Whether `s` is healthy exactly where there is no reason against it, and
/// otherwise carries these reasons and this start.
pub open spec fn status_is(s: ServiceStatus, since: i32, reasons: Seq<Seq<char>>) -> bool {
    match s {
        ServiceStatus::Healthy => reasons.len() == 0,
        ServiceStatus::Unhealthy(u) => reasons.len() > 0 && u.since == since && texts(u.reasons@)
            == reasons,
    }
}

/// Whether `s` is the health of a service at `current` whose raw last
/// heartbeat is `beat` (truncated to `i32`), whose ttl is `ttl`, which says it
/// is healthy or not, and whose stored failing start is `stored`.
pub open spec fn assessed_as(
    s: ServiceStatus,
    current: i32,
    beat: usize,
    ttl: i32,
    healthy: bool,
    stored: usize,
) -> bool {
    status_is(
        s,
        unhealthy_since(current, beat as i32, ttl, healthy, stored),
        unhealthy_reasons(current, beat as i32, ttl, healthy, stored),
    )
}

/// How a service is assessed, whatever its inputs: it is healthy exactly when
/// its heartbeat is not overdue and it says it is healthy. Otherwise it is
/// unhealthy since the earliest start that applies, no later than its failing
/// start where it fails its health checks and no later than the time its next
/// heartbeat fell due where that is overdue; an overdue heartbeat is always
/// its first reason.
pub proof fn lemma_assessment(
    s: ServiceStatus,
    current: i32,
    beat: usize,
    ttl: i32,
    healthy: bool,
    stored: usize,
)
    requires
        assessed_as(s, current, beat, ttl, healthy, stored),
    ensures
        s is Healthy <==> healthy && !heartbeat_overdue(current, beat as i32, ttl),
        match s {
            ServiceStatus::Healthy => true,
            ServiceStatus::Unhealthy(u) => {
                &&& !healthy ==> u.since <= failing_start(current, stored)
                &&& heartbeat_overdue(current, beat as i32, ttl) ==> u.since <= ((beat as i32)
                    + ttl) as i32
                &&& {
                    ||| !healthy && u.since == failing_start(current, stored)
                    ||| heartbeat_overdue(current, beat as i32, ttl) && u.since == ((beat as i32)
                        + ttl) as i32
                }
                &&& heartbeat_overdue(current, beat as i32, ttl) ==> texts(u.reasons@)[0]
                    == heartbeat_reason(current - beat as i32, ttl as int)
                &&& !healthy ==> texts(u.reasons@).last() == failing_reason(
                    current - failing_start(current, stored),
                )
            },
        },
{
}

fn heartbeat_reason_text(silent_for: i64, ttl: i32) -> (s: String)
    ensures
        s@ == heartbeat_reason(silent_for as int, ttl as int),
{
    let s = String::from_str("No heartbeat for ");
    let s = s.concat(decimal_string(silent_for).as_str());
    let s = s.concat(" seconds (ttl: ");
    let s = s.concat(decimal_string(ttl as i64).as_str());
    let s = s.concat(")");
    s
}

fn failing_reason_text(failing_for: i64) -> (s: String)
    ensures
        s@ == failing_reason(failing_for as int),
{
    let s = String::from_str("Failed health checks for ");
    let s = s.concat(decimal_string(failing_for).as_str());
    s.concat(" seconds")
}

/// The health of a service at `current`, given the raw time of its last
/// heartbeat, its heartbeat ttl, whether it says it is healthy, and the
/// stored start of its failing health checks (0 for none); also the start
/// to store afterwards.
///
/// A service is unhealthy when its heartbeat is overdue or it fails its own
/// health checks; it is deemed unhealthy since its heartbeat fell due or
/// since it started failing, whichever is earlier of those that apply. Times are
/// whole seconds; the raw heartbeat is truncated to `i32`, and the time its
/// next beat fell due wraps around as `i32` arithmetic does.
pub fn assess_service(
    current: i32,
    beat: usize,
    ttl: i32,
    healthy: bool,
    stored: usize,
) -> (r: (ServiceStatus, usize))
    ensures
        assessed_as(r.0, current, beat, ttl, healthy, stored),
        r.1 == stored_after_check(current, healthy, stored),
{
    let last_beat = beat as i32;
    let mut since: i32 = 0;
    let mut reasons: Vec<String> = Vec::new();
    let silent_for: i64 = current as i64 - last_beat as i64;
    let overdue = silent_for >= ttl as i64;
    if overdue {
        since = (last_beat as i64 + ttl as i64) as i32;
        reasons.push(heartbeat_reason_text(silent_for, ttl));
    }
    let new_stored: usize;
    if healthy {
        new_stored = 0;
    } else {
        let start: i32 = if stored == 0 {
            current
        } else {
            stored as i32
        };
        new_stored = if stored == 0 {
            current as usize
        } else {
            stored
        };
        if !overdue || start < since {
            since = start;
        }
        reasons.push(failing_reason_text(current as i64 - start as i64));
    }
    let ghost want = unhealthy_reasons(current, last_beat, ttl, healthy, stored);
    assert(texts(reasons@) =~= want);
    if reasons.len() == 0 {
        (ServiceStatus::Healthy, new_stored)
    } else {
        (ServiceStatus::Unhealthy(Unhealthy { since, reasons }), new_stored)
    }
}

/// The raw heartbeat time stored for a clock reading.
fn heartbeat_stamp(t: u64) -> (s: usize)
    ensures
        s == t as usize,
{
    t as usize
}

/// The failing start stored for a check at `current`, as a raw value.
pub open spec fn start_stamp(current: i32) -> usize {
    current as usize
}

/// The failing start stored for a check at `current`.
fn stored_start(current: i32) -> (s: usize)
    ensures
        s == start_stamp(current),
{
    current as usize
}

/// Checks one service at `current`: reads its last heartbeat from `heart`,
/// and updates the start of its failing health checks in `failing_since`
/// (0 for none) the way `assess_service` says, atomically where it starts.
///
/// The atomics may be written by other threads: the status is stated for the
/// values that were read, whatever they were.
pub fn check_service(
    heart: &AtomicUsize,
    failing_since: &AtomicUsize,
    current: i32,
    ttl: i32,
    healthy: bool,
) -> (s: ServiceStatus)
    ensures
        exists|beat: usize, stored: usize|
            {
                &&& #[trigger] assessed_as(s, current, beat, ttl, healthy, stored)
                &&& call_ensures(
                    AtomicUsize::load,
                    (heart, std::sync::atomic::Ordering::Relaxed),
                    beat,
                )
                &&& healthy ==> stored == 0 && call_ensures(
                    AtomicUsize::store,
                    (failing_since, 0usize, std::sync::atomic::Ordering::Relaxed),
                    (),
                )
                &&& !healthy ==> {
                    ||| stored == 0 && exists|previous: usize|
                        #[trigger] call_ensures(
                            AtomicUsize::compare_exchange,
                            (
                                failing_since,
                                0usize,
                                start_stamp(current),
                                std::sync::atomic::Ordering::Relaxed,
                                std::sync::atomic::Ordering::Relaxed,
                            ),
                            Ok::<usize, usize>(previous),
                        )
                    ||| call_ensures(
                        AtomicUsize::compare_exchange,
                        (
                            failing_since,
                            0usize,
                            start_stamp(current),
                            std::sync::atomic::Ordering::Relaxed,
                            std::sync::atomic::Ordering::Relaxed,
                        ),
                        Err::<usize, usize>(stored),
                    )
                }
            },
{
    let beat = heart.load(std::sync::atomic::Ordering::Relaxed);
    let stored: usize;
    if healthy {
        failing_since.store(0, std::sync::atomic::Ordering::Relaxed);
        stored = 0;
    } else {
        let start = stored_start(current);
        let exchanged = failing_since.compare_exchange(
            0,
            start,
            std::sync::atomic::Ordering::Relaxed,
            std::sync::atomic::Ordering::Relaxed,
        );
        stored = match exchanged {
            Ok(previous) => {
                assert(call_ensures(
                    AtomicUsize::compare_exchange,
                    (
                        failing_since,
                        0usize,
                        start_stamp(current),
                        std::sync::atomic::Ordering::Relaxed,
                        std::sync::atomic::Ordering::Relaxed,
                    ),
                    Ok::<usize, usize>(previous),
                ));
                0
            },
            Err(existing) => existing,
        };
    }
    let (status, _) = assess_service(current, beat, ttl, healthy, stored);
    status
}

/// A liveness signal that a service gives while it runs.
pub trait Heartbeat: Send + Sync {
    fn beat(&self);
}

impl Heartbeat for () {
    /// Signals nothing.
    fn beat(&self) {
    }
}

impl Heartbeat for (Arc<AtomicUsize>, Arc<dyn Clock>) {
    /// Stores the time the clock reads into the heart.
    fn beat(&self) {
        let now = heartbeat_stamp(self.1.current_timestamp());
        self.0.store(now, std::sync::atomic::Ordering::Relaxed);
    }
}

/// The reports of the healthy services among `s`, by position, in order.
pub open spec fn alive_reports(s: Seq<(String, ServiceStatus)>) -> Seq<ServiceReport<()>>
    decreases s.len(),
{
    if s.len() == 0 {
        Seq::empty()
    } else {
        let prev = alive_reports(s.drop_last());
        match s.last().1 {
            ServiceStatus::Healthy => prev.push(
                ServiceReport { id: (s.len() - 1) as usize, name: s.last().0, status: () },
            ),
            ServiceStatus::Unhealthy(_) => prev,
        }
    }
}

/// The reports of the unhealthy services among `s`, by position, in order.
pub open spec fn dead_reports(s: Seq<(String, ServiceStatus)>) -> Seq<ServiceReport<Unhealthy>>
    decreases s.len(),
{
    if s.len() == 0 {
        Seq::empty()
    } else {
        let prev = dead_reports(s.drop_last());
        match s.last().1 {
            ServiceStatus::Healthy => prev,
            ServiceStatus::Unhealthy(u) => prev.push(
                ServiceReport { id: (s.len() - 1) as usize, name: s.last().0, status: u },
            ),
        }
    }
}

/// The summary of a check at `timestamp` whose statuses, by service
/// position, are `statuses` (each with the service's name).
pub fn summarize(statuses: Vec<(String, ServiceStatus)>, timestamp: i32) -> (s:
    ServiceReportSummary)
    ensures
        s.alive@ == alive_reports(statuses@),
        s.dead@ == dead_reports(statuses@),
        s.timestamp == timestamp,
{
    let ghost all = statuses@;
    let mut alive: Vec<ServiceReport<()>> = Vec::new();
    let mut dead: Vec<ServiceReport<Unhealthy>> = Vec::new();
    let mut index: usize = 0;
    assert(all.take(0) =~= Seq::<(String, ServiceStatus)>::empty());
    let count = statuses.len();
    for entry in it: statuses.into_iter()
        invariant
            it.seq() == all,
            all.len() == count,
            index == it.index(),
            alive@ == alive_reports(all.take(it.index() as int)),
            dead@ == dead_reports(all.take(it.index() as int)),
    {
        let ghost i = it.index() as int;
        assert(entry == all[i]);
        assert(all.take(i + 1).drop_last() =~= all.take(i));
        let (name, status) = entry;
        match status {
            ServiceStatus::Healthy => {
                alive.push(ServiceReport { id: index, name, status: () });
            },
            ServiceStatus::Unhealthy(u) => {
                dead.push(ServiceReport { id: index, name, status: u });
            },
        }
        index = index + 1;
    }
    assert(all.take(all.len() as int) =~= all);
    ServiceReportSummary { alive, dead, timestamp }
}

/// Every service of a check is reported exactly once: alive or dead.
pub proof fn lemma_each_service_reported_once(s: Seq<(String, ServiceStatus)>)
    ensures
        alive_reports(s).len() + dead_reports(s).len() == s.len(),
    decreases s.len(),
{
    if s.len() > 0 {
        lemma_each_service_reported_once(s.drop_last());
    }
}

/// Failing seconds are counted from the first failing check: a service that
/// starts failing at a check at `t0` has `t0` stored, keeps it at every later
/// failing check, and at such a check at `t1` with a fresh heartbeat it is
/// deemed unhealthy since `t0`, failing for `t1 - t0` seconds. A healthy
/// check forgets the start.
pub proof fn lemma_failing_seconds_accumulate(t0: i32, t1: i32, beat: i32, ttl: i32)
    requires
        0 < t0 <= t1,
        !heartbeat_overdue(t1, beat, ttl),
    ensures
        stored_after_check(t0, false, 0) == t0 as usize,
        stored_after_check(t1, false, t0 as usize) == t0 as usize,
        unhealthy_since(t1, beat, ttl, false, t0 as usize) == t0,
        unhealthy_reasons(t1, beat, ttl, false, t0 as usize) == seq![failing_reason(t1 - t0)],
        stored_after_check(t1, true, t0 as usize) == 0,
{
    assert((t0 as usize) as i32 == t0);
    assert(unhealthy_reasons(t1, beat, ttl, false, t0 as usize) =~= seq![
        failing_reason(t1 - t0),
    ]);
}

/// The positions of the dead services that have been unhealthy for longer
/// than `attempt_recovery_after` at `now`, in order.
pub open spec fn recovery_due(
    dead: Seq<ServiceReport<Unhealthy>>,
    attempt_recovery_after: i32,
    now: i32,
) -> Seq<usize>
    decreases dead.len(),
{
    if dead.len() == 0 {
        Seq::empty()
    } else {
        let prev = recovery_due(dead.drop_last(), attempt_recovery_after, now);
        if dead.last().status.since + attempt_recovery_after < now {
            prev.push(dead.last().id)
        } else {
            prev
        }
    }
}

/// A service is restarted only once it has failed for longer than the
/// recovery delay: where its heartbeat is fresh and it has failed its health
/// checks since `stored`, its report is picked for restart at `now` exactly
/// when `stored + attempt_recovery_after < now`.
pub proof fn lemma_restart_after_recovery_delay(
    report: ServiceReport<Unhealthy>,
    current: i32,
    beat: i32,
    ttl: i32,
    stored: usize,
    attempt_recovery_after: i32,
    now: i32,
)
    requires
        0 < stored <= i32::MAX,
        !heartbeat_overdue(current, beat, ttl),
        report.status.since == unhealthy_since(current, beat, ttl, false, stored),
    ensures
        report.status.since == stored,
        recovery_due(seq![report], attempt_recovery_after, now) == if stored
            + attempt_recovery_after < now {
            seq![report.id]
        } else {
            Seq::<usize>::empty()
        },
{
    let s = seq![report];
    assert(s.drop_last() =~= Seq::<ServiceReport<Unhealthy>>::empty());
    assert(recovery_due(s.drop_last(), attempt_recovery_after, now) == Seq::<usize>::empty());
    assert(Seq::<usize>::empty().push(report.id) =~= seq![report.id]);
}

/// The positions of the services of `summary` to restart at `now`: the dead
/// ones that have been unhealthy for longer than `attempt_recovery_after`.
pub fn services_to_restart(
    summary: &ServiceReportSummary,
    attempt_recovery_after: i32,
    now: i32,
) -> (ids: Vec<usize>)
    ensures
        ids@ == recovery_due(summary.dead@, attempt_recovery_after, now),
{
    let mut ids: Vec<usize> = Vec::new();
    let n = summary.dead.len();
    let mut i: usize = 0;
    assert(summary.dead@.take(0) =~= Seq::<ServiceReport<Unhealthy>>::empty());
    while i < n
        invariant
            n == summary.dead@.len(),
            i <= n,
            ids@ == recovery_due(summary.dead@.take(i as int), attempt_recovery_after, now),
        decreases n - i,
    {
        let report = &summary.dead[i];
        assert(summary.dead@.take(i + 1).drop_last() =~= summary.dead@.take(i as int));
        if (report.status.since as i64) + (attempt_recovery_after as i64) < now as i64 {
            ids.push(report.id);
        }
        i = i + 1;
    }
    assert(summary.dead@.take(n as int) =~= summary.dead@);
    ids
}

/// What to publish about a report.
#[derive(Clone, Copy, Debug, PartialEq, Eq)]
pub enum Publication {
    /// Some services are unhealthy: report them as an error.
    Unhealthy,
    /// All services are healthy and their number changed: list them.
    HealthyList,
    /// All services are healthy, and it is time to say so: give their number.
    HealthyCount,
    /// Nothing to publish.
    Nothing,
}

/// Decides whether a report needs to be published, remembering what was
/// published last.
pub struct ServiceReportPublisher {
    /// Least time between two reports that all services are healthy, unless
    /// their number changes.
    pub log_interval: i32,
    /// When it last said that all services are healthy.
    pub last_healthy_log: i32,
    /// The number of healthy services in the last report.
    pub last_healthy_count: usize,
    /// The number of unhealthy services in the last report.
    pub last_dead_count: usize,
}

/// Whether a report of `healthy` healthy and `dead` unhealthy services at
/// `timestamp` is due to be told, as far as the history `p` goes.
pub open spec fn report_due(p: ServiceReportPublisher, healthy: int, dead: int, timestamp: i32) -> bool {
    timestamp - p.last_healthy_log >= p.log_interval || healthy != p.last_healthy_count || dead
        != p.last_dead_count
}

/// What to publish about a report of `healthy` healthy and `dead` unhealthy
/// services at `timestamp`, given the history `p`.
pub open spec fn publication(
    p: ServiceReportPublisher,
    healthy: int,
    dead: int,
    timestamp: i32,
) -> Publication {
    if dead > 0 {
        Publication::Unhealthy
    } else if report_due(p, healthy, dead, timestamp) {
        if healthy + dead != p.last_healthy_count + p.last_dead_count {
            Publication::HealthyList
        } else {
            Publication::HealthyCount
        }
    } else {
        Publication::Nothing
    }
}

/// The history after such a report.
pub open spec fn after_report(
    p: ServiceReportPublisher,
    healthy: usize,
    dead: usize,
    timestamp: i32,
) -> ServiceReportPublisher {
    ServiceReportPublisher {
        log_interval: p.log_interval,
        last_healthy_log: if dead == 0 && report_due(p, healthy as int, dead as int, timestamp) {
            timestamp
        } else {
            p.last_healthy_log
        },
        last_healthy_count: healthy,
        last_dead_count: dead,
    }
}

impl ServiceReportPublisher {
    /// A publisher that has published nothing.
    pub fn new(log_interval: i32) -> (p: Self)
        ensures
            p == (ServiceReportPublisher {
                log_interval,
                last_healthy_log: 0,
                last_healthy_count: 0,
                last_dead_count: 0,
            }),
    {
        ServiceReportPublisher {
            log_interval,
            last_healthy_log: 0,
            last_healthy_count: 0,
            last_dead_count: 0,
        }
    }

    /// Decide if anything needs to be published about `summary`.
    pub fn handle_report(&mut self, summary: &ServiceReportSummary) -> (r: Publication)
        ensures
            r == publication(
                *old(self),
                summary.alive@.len() as int,
                summary.dead@.len() as int,
                summary.timestamp,
            ),
            *final(self) == after_report(
                *old(self),
                summary.alive@.len() as usize,
                summary.dead@.len() as usize,
                summary.timestamp,
            ),
    {
        let n_healthy = summary.alive.len();
        let n_dead = summary.dead.len();
        let due = (summary.timestamp as i64) - (self.last_healthy_log as i64)
            >= self.log_interval as i64 || n_healthy != self.last_healthy_count || n_dead
            != self.last_dead_count;
        let r;
        if n_dead > 0 {
            r = Publication::Unhealthy;
        } else if due {
            if (n_healthy as u128) + (n_dead as u128) != (self.last_healthy_count as u128)
                + (self.last_dead_count as u128) {
                r = Publication::HealthyList;
            } else {
                r = Publication::HealthyCount;
            }
            self.last_healthy_log = summary.timestamp;
        } else {
            r = Publication::Nothing;
        }
        self.last_healthy_count = n_healthy;
        self.last_dead_count = n_dead;
        r
    }
}

/// With a positive log interval, a report that all services are healthy,
/// handled twice in a row at the same time, is published at most once.
pub proof fn lemma_no_repeated_healthy_publication(
    p: ServiceReportPublisher,
    healthy: usize,
    timestamp: i32,
)
    requires
        p.log_interval > 0,
    ensures
        publication(after_report(p, healthy, 0, timestamp), healthy as int, 0, timestamp)
            == Publication::Nothing,
{
}

/// Unhealthy services are reported at every check, and such a report leaves
/// the time of the last healthy report as it was.
pub proof fn lemma_unhealthy_always_published(
    p: ServiceReportPublisher,
    healthy: usize,
    dead: usize,
    timestamp: i32,
)
    requires
        dead > 0,
    ensures
        publication(p, healthy as int, dead as int, timestamp) == Publication::Unhealthy,
        after_report(p, healthy, dead, timestamp).last_healthy_log == p.last_healthy_log,
{
}

/// What `{:#?}` renders a list of strings with the texts `v` as (std's
/// pretty debug formatting).
pub uninterp spec fn strings_debug_text(v: Seq<Seq<char>>) -> Seq<char>;

/// `format!("{:#?}")` on a vector of strings: its text is named by
/// `strings_debug_text` of the strings' texts; nothing more is claimed.
#[verifier::external_body]
fn debug_text_of_strings(v: &Vec<String>) -> (s: String)
    ensures
        s@ == strings_debug_text(texts(v@)),
{
    format!("{v:#?}")
}

/// A list of names, one per line, each indented: the pretty debug rendering
/// without quotes, brackets or separating commas.
pub open spec fn pretty_text(v: Seq<Seq<char>>) -> Seq<char> {
    replaced(
        replaced(
            replaced(replaced(strings_debug_text(v), "\""@, ""@), "[\n"@, "\n"@),
            ",\n"@,
            "\n"@,
        ),
        "\n]"@,
        ""@,
    )
}

/// The names in `v`, one per line, indented.
pub fn pretty(v: &Vec<String>) -> (s: String)
    ensures
        s@ == pretty_text(texts(v@)),
{
    proof {
        reveal_strlit("\"");
        reveal_strlit("[\n");
        reveal_strlit(",\n");
        reveal_strlit("\n]");
    }
    let debug = debug_text_of_strings(v);
    let s = replace_all(debug.as_str(), "\"", "");
    let s = replace_all(s.as_str(), "[\n", "\n");
    let s = replace_all(s.as_str(), ",\n", "\n");
    replace_all(s.as_str(), "\n]", "")
}

/// Why a run configuration is refused.
#[derive(Clone, Copy, Debug, PartialEq, Eq)]
pub enum RunConfigError {
    /// The log interval is negative.
    NegativeLogInterval,
    /// The delay before attempting recovery is negative.
    NegativeRecoveryDelay,
}

/// How an application is monitored once started.
pub struct RunConfig {
    /// Interval in seconds between application status log messages when there are no problems.
    pub log_interval: i32,
    /// Services will be restarted after they have been in a failing state for this many seconds.
    pub attempt_recovery_after: i32,
    /// Set to None to disable the http health endpoint.
    pub http_health_endpoint: Option<HealthEndpointConfig>,
}

impl RunConfig {
    /// Checks the intervals: neither may be negative.
    pub fn validate(&self) -> (r: Result<(), RunConfigError>)
        ensures
            self.log_interval < 0 ==> r == Err::<(), RunConfigError>(
                RunConfigError::NegativeLogInterval,
            ),
            self.log_interval >= 0 && self.attempt_recovery_after < 0 ==> r == Err::<
                (),
                RunConfigError,
            >(RunConfigError::NegativeRecoveryDelay),
            self.log_interval >= 0 && self.attempt_recovery_after >= 0 ==> r is Ok,
    {
        if self.log_interval < 0 {
            Err(RunConfigError::NegativeLogInterval)
        } else if self.attempt_recovery_after < 0 {
            Err(RunConfigError::NegativeRecoveryDelay)
        } else {
            Ok(())
        }
    }
}

impl Default for RunConfig {
    /// Logs every six hours, attempts recovery after two minutes, and serves
    /// the default health endpoint.
    fn default() -> (c: Self)
        ensures
            c.log_interval == 21600,
            c.attempt_recovery_after == 120,
            c.http_health_endpoint matches Some(h) && h.port == 3417
                && crate::health_endpoint::status_number(h.success_status) == 200
                && crate::health_endpoint::status_number(h.fail_status) == 500,
    {
        RunConfig {
            log_interval: 21600,
            attempt_recovery_after: 120,
            http_health_endpoint: Some(HealthEndpointConfig::default()),
        }
    }
}

} // verus!
