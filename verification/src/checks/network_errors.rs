//! Packet error rates of the configured network interfaces.

use vstd::prelude::*;
use crate::checks::{
    service_targets, service_thresholds, sweep, sweep_counters, targets_of, CounterOutcome,
    Reading, ReadingView, Snapshot,
};
use crate::config::{AppConfig, Threshold};
use crate::registry::Registry;

verus! {

/// The check of receive plus transmit errors per second on each configured
/// interface (`en0` when none are configured); it keeps the error total of
/// the previous run per interface.
pub struct NetworkErrorsCheck;

/// A reading of receive (`first`) and transmit (`second`) errors, as one
/// error total (0 where the two do not add up within 64 bits).
pub open spec fn error_total(r: ReadingView) -> ReadingView {
    ReadingView {
        name: r.name,
        first: if r.first + r.second <= u64::MAX {
            (r.first + r.second) as u64
        } else {
            0
        },
        second: 0,
    }
}

impl NetworkErrorsCheck {
    /// The check; the previous readings it compares with are kept apart, in
    /// one history shared by every run in the process.
    pub fn new() -> (r: Self)
        ensures
            r == NetworkErrorsCheck,
    {
        NetworkErrorsCheck
    }

    pub fn name(&self) -> (r: &'static str)
        ensures
            r@ == "Network Errors"@,
    {
        "Network Errors"
    }

    pub fn config_key(&self) -> (r: &'static str)
        ensures
            r@ == "network_errors"@,
    {
        "network_errors"
    }

    pub fn default_period(&self) -> (r: u64)
        ensures
            r == 60,
    {
        60
    }

    /// The interfaces to watch.
    pub fn targets(&self, config: &AppConfig) -> (r: Vec<String>)
        ensures
            r.deep_view() == targets_of(config.services.map(), "network_errors"@, true, "en0"@),
    {
        service_targets(config, "network_errors", true, "en0")
    }

    /// Warning and critical errors per second (0.05 and 1.0 by default).
    pub fn thresholds(&self, config: &AppConfig) -> (r: (Threshold, Threshold))
        ensures
            config.services.map().contains_key("network_errors"@) ==> r.0
                == config.services.map()["network_errors"@].warning && r.1
                == config.services.map()["network_errors"@].critical,
            !config.services.map().contains_key("network_errors"@) ==> r.0.bits
                == 0x3fa9_9999_9999_999a && r.1.bits == 0x3ff0_0000_0000_0000,
    {
        service_thresholds(
            config,
            "network_errors",
            Threshold { bits: 0x3fa9_9999_9999_999a },
            Threshold { bits: 0x3ff0_0000_0000_0000 },
        )
    }

    /// Watches each target given the receive (`first`) and transmit
    /// (`second`) error counters read at time `now`; the outcomes compare
    /// error totals (their `second` is always 0).
    pub fn observe(history: &mut Registry<Snapshot>, readings: &Vec<Reading>, targets: &Vec<String>, now: u64) -> (r: Vec<
        CounterOutcome,
    >)
        requires
            forall|i: int|
                0 <= i < readings@.len() && targets.deep_view().contains(readings@[i].name@)
                    ==> readings@[i].first + readings@[i].second <= u64::MAX,
        ensures
            (final(history).map(), r@) == sweep(
                old(history).map(),
                readings@.map_values(|x: Reading| error_total(x@)),
                targets.deep_view(),
                now,
            ),
    {
        let mut totals: Vec<Reading> = Vec::new();
        let n = readings.len();
        let mut i: usize = 0;
        while i < n
            invariant
                n == readings@.len(),
                i <= n,
                totals@.len() == i,
                forall|j: int| 0 <= j < i ==> #[trigger] totals@[j]@ == error_total(readings@[j]@),
            decreases n - i,
        {
            let r = &readings[i];
            let total = match r.first.checked_add(r.second) {
                Some(t) => t,
                None => 0,
            };
            totals.push(Reading { name: r.name.clone(), first: total, second: 0 });
            i = i + 1;
        }
        proof {
            assert(totals@.map_values(|x: Reading| x@) =~= readings@.map_values(
                |x: Reading| error_total(x@),
            ));
        }
        sweep_counters(history, &totals, targets, now)
    }

    /// The report of one watched interface: the missing or baseline report,
    /// nothing where no time passed, and `rate` (the measured report) for a
    /// counter increase.
    pub fn report(target: &str, outcome: &CounterOutcome, rate: Option<(String, String)>) -> (r:
        Option<(String, String)>)
        ensures
            match outcome {
                CounterOutcome::Missing => r matches Some(m) && m.0@ == "ERROR"@ && m.1@
                    == "Interface "@ + target@ + " not found"@,
                CounterOutcome::Baseline => r matches Some(m) && m.0@ == "OK"@ && m.1@
                    
                    == "Initializing baseline counters... Error rate will calculate on next loop."@,
                CounterOutcome::Stalled => r is None,
                CounterOutcome::Delta { .. } => r == rate,
            },
    {
        match outcome {
            CounterOutcome::Missing => Some(Self::missing(target)),
            CounterOutcome::Baseline => Some(Self::baseline()),
            CounterOutcome::Stalled => None,
            CounterOutcome::Delta { .. } => rate,
        }
    }

    /// The report for a watched interface the system does not have.
    pub fn missing(target: &str) -> (r: (String, String))
        ensures
            r.0@ == "ERROR"@,
            r.1@ == "Interface "@ + target@ + " not found"@,
    {
        let mut message = "Interface ".to_owned();
        message.append(target);
        message.append(" not found");
        ("ERROR".to_owned(), message)
    }

    /// The report of an interface's first reading.
    pub fn baseline() -> (r: (String, String))
        ensures
            r.0@ == "OK"@,
            r.1@
                == "Initializing baseline counters... Error rate will calculate on next loop."@,
    {
        (
            "OK".to_owned(),
            "Initializing baseline counters... Error rate will calculate on next loop.".to_owned(),
        )
    }
}

} // verus!
