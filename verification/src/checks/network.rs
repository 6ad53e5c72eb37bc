//! Throughput of the configured network interfaces.

use vstd::prelude::*;
use crate::checks::{
    service_targets, service_thresholds, sweep, sweep_counters, targets_of, CounterOutcome,
    Reading, Snapshot,
};
use crate::config::{AppConfig, Threshold};
use crate::registry::Registry;

verus! {

/// The check of received plus transmitted megabits per second on each
/// configured interface (`en0` when none are configured); it keeps the byte
/// counters of the previous run per interface.
pub struct NetworkCheck;

impl NetworkCheck {
    /// The check; the previous readings it compares with are kept apart, in
    /// one history shared by every run in the process.
    pub fn new() -> (r: Self)
        ensures
            r == NetworkCheck,
    {
        NetworkCheck
    }

    pub fn name(&self) -> (r: &'static str)
        ensures
            r@ == "Network Throughput"@,
    {
        "Network Throughput"
    }

    pub fn config_key(&self) -> (r: &'static str)
        ensures
            r@ == "network"@,
    {
        "network"
    }

    pub fn default_period(&self) -> (r: u64)
        ensures
            r == 10,
    {
        10
    }

    /// The interfaces to watch.
    pub fn targets(&self, config: &AppConfig) -> (r: Vec<String>)
        ensures
            r.deep_view() == targets_of(config.services.map(), "network"@, true, "en0"@),
    {
        service_targets(config, "network", true, "en0")
    }

    /// Warning and critical megabits per second (600.0 and 900.0 by default).
    pub fn thresholds(&self, config: &AppConfig) -> (r: (Threshold, Threshold))
        ensures
            config.services.map().contains_key("network"@) ==> r.0
                == config.services.map()["network"@].warning && r.1
                == config.services.map()["network"@].critical,
            !config.services.map().contains_key("network"@) ==> r.0.bits
                == 0x4082_c000_0000_0000 && r.1.bits == 0x408c_2000_0000_0000,
    {
        service_thresholds(
            config,
            "network",
            Threshold { bits: 0x4082_c000_0000_0000 },
            Threshold { bits: 0x408c_2000_0000_0000 },
        )
    }

    /// Watches each target given the received (`first`) and transmitted
    /// (`second`) byte counters read at time `now`.
    pub fn observe(history: &mut Registry<Snapshot>, readings: &Vec<Reading>, targets: &Vec<String>, now: u64) -> (r: Vec<
        CounterOutcome,
    >)
        ensures
            (final(history).map(), r@) == sweep(
                old(history).map(),
                readings@.map_values(|x: Reading| x@),
                targets.deep_view(),
                now,
            ),
    {
        sweep_counters(history, readings, targets, now)
    }

    /// The report of one watched interface: the missing or baseline report,
    /// nothing where no time passed, and `rate` (the measured report) for a
    /// counter increase.
    pub fn report(target: &str, outcome: &CounterOutcome, rate: Option<(String, String)>) -> (r:
        Option<(String, String)>)
        ensures
            match outcome {
                CounterOutcome::Missing => r matches Some(m) && m.0@ == "ERROR"@ && m.1@
                    == "Interface "@ + target@ + " not found"@,
                CounterOutcome::Baseline => r matches Some(m) && m.0@ == "OK"@ && m.1@
                    
                    == "Initializing baseline counters... Throughput will calculate on next loop."@,
                CounterOutcome::Stalled => r is None,
                CounterOutcome::Delta { .. } => r == rate,
            },
    {
        match outcome {
            CounterOutcome::Missing => Some(Self::missing(target)),
            CounterOutcome::Baseline => Some(Self::baseline()),
            CounterOutcome::Stalled => None,
            CounterOutcome::Delta { .. } => rate,
        }
    }

    /// The report for a watched interface the system does not have.
    pub fn missing(target: &str) -> (r: (String, String))
        ensures
            r.0@ == "ERROR"@,
            r.1@ == "Interface "@ + target@ + " not found"@,
    {
        let mut message = "Interface ".to_owned();
        message.append(target);
        message.append(" not found");
        ("ERROR".to_owned(), message)
    }

    /// The report of an interface's first reading.
    pub fn baseline() -> (r: (String, String))
        ensures
            r.0@ == "OK"@,
            r.1@
                == "Initializing baseline counters... Throughput will calculate on next loop."@,
    {
        (
            "OK".to_owned(),
            "Initializing baseline counters... Throughput will calculate on next loop.".to_owned(),
        )
    }
}

} // verus!
