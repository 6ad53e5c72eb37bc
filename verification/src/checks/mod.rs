//! Check results and the decision rules shared by the metric checks.

pub mod disk;
pub mod inodes;
pub mod iops;
pub mod iowait;
pub mod load;
pub mod memory;
pub mod network;
pub mod network_errors;
pub mod ntp;
pub mod swap;

use vstd::prelude::*;
use crate::config::{AppConfig, Threshold};
use crate::registry::Registry;
use crate::text::clone_strings;

verus! {

/// What one run of a check reports.
pub enum CheckResult {
    /// One status for the whole service, e.g. `OK` with `1min: 1.20`.
    Single { status: String, message: String },
    /// One `(status, message)` per sub-item (a mount point, an interface),
    /// keyed by the sub-item's name.
    Multi(Registry<(String, String)>),
}

/// `CRITICAL` at or above the critical threshold, else `WARNING` at or
/// above the warning threshold, else `OK`.
pub open spec fn threshold_status_of(at_critical: bool, at_warning: bool) -> Seq<char> {
    if at_critical {
        "CRITICAL"@
    } else if at_warning {
        "WARNING"@
    } else {
        "OK"@
    }
}

/// The status of a measurement, given whether it reaches each threshold.
pub fn threshold_status(at_critical: bool, at_warning: bool) -> (r: String)
    ensures
        r@ == threshold_status_of(at_critical, at_warning),
{
    if at_critical {
        "CRITICAL".to_owned()
    } else if at_warning {
        "WARNING".to_owned()
    } else {
        "OK".to_owned()
    }
}

/// A single-status result.
pub fn single_result(status: &str, message: &str) -> (r: CheckResult)
    ensures
        r matches CheckResult::Single { status: s, message: m } && s@ == status@ && m@
            == message@,
{
    CheckResult::Single { status: status.to_owned(), message: message.to_owned() }
}

/// The per-item result of a check, or nothing where no item reported.
pub fn multi_result(results: Registry<(String, String)>) -> (r: Option<CheckResult>)
    ensures
        results.keys().len() == 0 ==> r is None,
        results.keys().len() > 0 ==> (r matches Some(CheckResult::Multi(items)) && items.keys()
            == results.keys() && items.values() == results.values()),
{
    if results.len() == 0 {
        None
    } else {
        Some(CheckResult::Multi(results))
    }
}

/// The per-item reports of one run: for each watched item in order, its
/// `(status, message)` where it reported, a later report of the same item
/// replacing an earlier one.
pub open spec fn report_map(
    items: Seq<Seq<char>>,
    reports: Seq<Option<(Seq<char>, Seq<char>)>>,
) -> Map<Seq<char>, (Seq<char>, Seq<char>)>
    decreases items.len(),
{
    if items.len() == 0 || reports.len() == 0 {
        Map::empty()
    } else {
        let m = report_map(items.drop_last(), reports.drop_last());
        match reports.last() {
            Some(r) => m.insert(items.last(), r),
            None => m,
        }
    }
}

/// The per-item result of one run from the report of each watched item
/// (`reports[i]` for `items[i]`): nothing where no item reported.
pub fn collect_reports(items: &Vec<String>, reports: Vec<Option<(String, String)>>) -> (r: Option<
    CheckResult,
>)
    requires
        items@.len() == reports@.len(),
    ensures
        match r {
            None => report_map(items.deep_view(), reports.deep_view()).is_empty(),
            Some(CheckResult::Multi(found)) => found.map() == report_map(
                items.deep_view(),
                reports.deep_view(),
            ) && !found.map().is_empty(),
            Some(CheckResult::Single { .. }) => false,
        },
{
    let mut found: Registry<(String, String)> = Registry::new();
    let n = items.len();
    let mut i: usize = 0;
    let ghost all = reports.deep_view();
    while i < n
        invariant
            n == items@.len(),
            i <= n,
            reports@.len() == n,
            reports.deep_view() == all,
            found.map() == report_map(items.deep_view().take(i as int), all.take(i as int)),
        decreases n - i,
    {
        proof {
            assert(items.deep_view().take(i + 1).drop_last() =~= items.deep_view().take(i as int));
            assert(all.take(i + 1).drop_last() =~= all.take(i as int));
            assert(items.deep_view().take(i + 1).last() == items@[i as int]@);
            assert(all.take(i + 1).last() == reports@[i as int].deep_view());
        }
        match &reports[i] {
            Some((status, message)) => {
                found.insert(items[i].clone(), (status.clone(), message.clone()));
            },
            None => {},
        }
        i = i + 1;
    }
    proof {
        assert(items.deep_view().take(n as int) =~= items.deep_view());
        assert(all.take(n as int) =~= all);
        found.lemma_shape();
    }
    if found.len() == 0 {
        proof {
            assert(found.map() =~= Map::empty());
        }
        None
    } else {
        proof {
            assert(found.map().contains_key(found.keys()[0]));
        }
        Some(CheckResult::Multi(found))
    }
}

/// The warning and critical thresholds of service `key`, or the check's
/// defaults where the configuration has no such service.
pub fn service_thresholds(
    config: &AppConfig,
    key: &str,
    default_warning: Threshold,
    default_critical: Threshold,
) -> (r: (Threshold, Threshold))
    ensures
        config.services.map().contains_key(key@) ==> r.0 == config.services.map()[key@].warning
            && r.1 == config.services.map()[key@].critical,
        !config.services.map().contains_key(key@) ==> r.0 == default_warning && r.1
            == default_critical,
{
    match config.services.get(key) {
        Some(service) => (service.warning, service.critical),
        None => (default_warning, default_critical),
    }
}

/// The list a service configures (`disks` or `interfaces`, as `pick`
/// selects), or just `fallback` where the service or the list is missing.
pub open spec fn targets_of(
    services: Map<Seq<char>, crate::config::ServiceView>,
    key: Seq<char>,
    interfaces: bool,
    fallback: Seq<char>,
) -> Seq<Seq<char>> {
    if services.contains_key(key) {
        let list = if interfaces {
            services[key].interfaces
        } else {
            services[key].disks
        };
        match list {
            Some(l) => l,
            None => seq![fallback],
        }
    } else {
        seq![fallback]
    }
}

/// The mount points or interfaces service `key` watches.
pub fn service_targets(config: &AppConfig, key: &str, interfaces: bool, fallback: &str) -> (r: Vec<
    String,
>)
    ensures
        r.deep_view() == targets_of(config.services.map(), key@, interfaces, fallback@),
{
    let mut fallback_list: Vec<String> = Vec::new();
    fallback_list.push(fallback.to_owned());
    proof {
        assert(fallback_list.deep_view() =~= seq![fallback@]);
    }
    match config.services.get(key) {
        Some(service) => {
            let list = if interfaces {
                &service.interfaces
            } else {
                &service.disks
            };
            match list {
                Some(l) => clone_strings(l),
                None => fallback_list,
            }
        },
        None => fallback_list,
    }
}

} // verus!

verus! {

/// One network interface's counters as the system reports them.
pub struct Reading {
    pub name: String,
    pub first: u64,
    pub second: u64,
}

pub struct ReadingView {
    pub name: Seq<char>,
    pub first: u64,
    pub second: u64,
}

impl View for Reading {
    type V = ReadingView;

    open spec fn view(&self) -> ReadingView {
        ReadingView { name: self.name@, first: self.first, second: self.second }
    }
}

/// The counters of an interface at the previous run, and when (in
/// nanoseconds of a monotonic clock) they were read.
#[derive(Clone, Copy, PartialEq, Eq, Structural)]
pub struct Snapshot {
    pub first: u64,
    pub second: u64,
    pub taken_at: u64,
}

impl View for Snapshot {
    type V = Snapshot;

    open spec fn view(&self) -> Snapshot {
        *self
    }
}

/// What one run yields for one watched interface.
#[derive(Clone, Copy, PartialEq, Eq, Structural)]
pub enum CounterOutcome {
    /// The system reports no interface of that name.
    Missing,
    /// The first reading: there is nothing to compare with yet.
    Baseline,
    /// No time passed since the previous reading.
    Stalled,
    /// Counter increases since the previous reading, over `elapsed`
    /// nanoseconds.
    Delta { first: u64, second: u64, elapsed: u64 },
}

/// `a - b`, or 0 where `b` is larger.
pub open spec fn saturating_sub_of(a: u64, b: u64) -> u64 {
    if a >= b {
        (a - b) as u64
    } else {
        0
    }
}

/// The first reading named `name`.
pub open spec fn reading_for(readings: Seq<ReadingView>, name: Seq<char>) -> Option<ReadingView>
    decreases readings.len(),
{
    if readings.len() == 0 {
        None
    } else if readings[0].name == name {
        Some(readings[0])
    } else {
        reading_for(readings.drop_first(), name)
    }
}

/// What watching `target` yields against the stored snapshots.
pub open spec fn outcome_of(
    history: Map<Seq<char>, Snapshot>,
    readings: Seq<ReadingView>,
    target: Seq<char>,
    now: u64,
) -> CounterOutcome {
    match reading_for(readings, target) {
        None => CounterOutcome::Missing,
        Some(r) => if history.contains_key(target) {
            let h = history[target];
            let elapsed = saturating_sub_of(now, h.taken_at);
            if elapsed > 0 {
                CounterOutcome::Delta {
                    first: saturating_sub_of(r.first, h.first),
                    second: saturating_sub_of(r.second, h.second),
                    elapsed,
                }
            } else {
                CounterOutcome::Stalled
            }
        } else {
            CounterOutcome::Baseline
        },
    }
}

/// The snapshots after watching `target`: a found interface's counters are
/// stored with the reading time.
pub open spec fn history_after(
    history: Map<Seq<char>, Snapshot>,
    readings: Seq<ReadingView>,
    target: Seq<char>,
    now: u64,
) -> Map<Seq<char>, Snapshot> {
    match reading_for(readings, target) {
        None => history,
        Some(r) => history.insert(target, Snapshot { first: r.first, second: r.second, taken_at: now }),
    }
}

/// Watching each target in turn: the final snapshots and one outcome per
/// target.
pub open spec fn sweep(
    history: Map<Seq<char>, Snapshot>,
    readings: Seq<ReadingView>,
    targets: Seq<Seq<char>>,
    now: u64,
) -> (Map<Seq<char>, Snapshot>, Seq<CounterOutcome>)
    decreases targets.len(),
{
    if targets.len() == 0 {
        (history, Seq::empty())
    } else {
        let (h, outcomes) = sweep(history, readings, targets.drop_last(), now);
        let t = targets.last();
        (history_after(h, readings, t, now), outcomes.push(outcome_of(h, readings, t, now)))
    }
}

/// The position of the first reading named `name`.
fn find_reading(readings: &Vec<Reading>, name: &str) -> (r: Option<usize>)
    ensures
        match r {
            Some(i) => i < readings@.len() && reading_for(
                readings@.map_values(|x: Reading| x@),
                name@,
            ) == Some(readings@[i as int]@),
            None => reading_for(readings@.map_values(|x: Reading| x@), name@) is None,
        },
{
    let ghost all = readings@.map_values(|x: Reading| x@);
    let n = readings.len();
    let mut i: usize = 0;
    proof {
        assert(all.skip(0) =~= all);
    }
    while i < n
        invariant
            n == readings@.len(),
            all == readings@.map_values(|x: Reading| x@),
            i <= n,
            reading_for(all, name@) == reading_for(all.skip(i as int), name@),
        decreases n - i,
    {
        proof {
            assert(all.skip(i as int)[0] == readings@[i as int]@);
            assert(all.skip(i as int).drop_first() =~= all.skip(i + 1));
        }
        if crate::text::str_eq(readings[i].name.as_str(), name) {
            return Some(i);
        }
        i = i + 1;
    }
    proof {
        assert(all.skip(i as int) =~= Seq::<ReadingView>::empty());
    }
    None
}

/// Watches each target in turn against the stored snapshots, updating them.
pub fn sweep_counters(
    history: &mut Registry<Snapshot>,
    readings: &Vec<Reading>,
    targets: &Vec<String>,
    now: u64,
) -> (r: Vec<CounterOutcome>)
    ensures
        (final(history).map(), r@) == sweep(
            old(history).map(),
            readings@.map_values(|x: Reading| x@),
            targets.deep_view(),
            now,
        ),
{
    let ghost all = readings@.map_values(|x: Reading| x@);
    let ghost h0 = history.map();
    let ghost ts = targets.deep_view();
    let mut outcomes: Vec<CounterOutcome> = Vec::new();
    let n = targets.len();
    let mut i: usize = 0;
    proof {
        assert(ts.take(0) =~= Seq::<Seq<char>>::empty());
        assert(outcomes@ =~= Seq::<CounterOutcome>::empty());
    }
    while i < n
        invariant
            n == targets@.len(),
            ts == targets.deep_view(),
            all == readings@.map_values(|x: Reading| x@),
            i <= n,
            (history.map(), outcomes@) == sweep(h0, all, ts.take(i as int), now),
        decreases n - i,
    {
        let target = targets[i].as_str();
        let ghost h = history.map();
        proof {
            assert(ts.take(i + 1).drop_last() =~= ts.take(i as int));
            assert(ts.take(i + 1).last() == target@);
        }
        let outcome = match find_reading(readings, target) {
            None => CounterOutcome::Missing,
            Some(j) => {
                let reading = &readings[j];
                let outcome = match history.get(target) {
                    Some(prev) => {
                        let elapsed = now.saturating_sub(prev.taken_at);
                        if elapsed > 0 {
                            CounterOutcome::Delta {
                                first: reading.first.saturating_sub(prev.first),
                                second: reading.second.saturating_sub(prev.second),
                                elapsed,
                            }
                        } else {
                            CounterOutcome::Stalled
                        }
                    },
                    None => CounterOutcome::Baseline,
                };
                history.insert(
                    target.to_owned(),
                    Snapshot { first: reading.first, second: reading.second, taken_at: now },
                );
                outcome
            },
        };
        outcomes.push(outcome);
        i = i + 1;
    }
    proof {
        assert(ts.take(n as int) =~= ts);
    }
    outcomes
}

} // verus!
