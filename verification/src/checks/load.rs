//! The 1, 5 and 15 minute load averages.

use vstd::prelude::*;
use crate::checks::service_thresholds;
use crate::config::{AppConfig, Threshold};

verus! {

/// The check of the system load averages.
pub struct LoadAverageCheck;

impl LoadAverageCheck {
    pub fn name(&self) -> (r: &'static str)
        ensures
            r@ == "Load Average"@,
    {
        "Load Average"
    }

    pub fn config_key(&self) -> (r: &'static str)
        ensures
            r@ == "load"@,
    {
        "load"
    }

    pub fn default_period(&self) -> (r: u64)
        ensures
            r == 10,
    {
        10
    }

    /// Warning and critical load (16.0 and 24.0 by default); a status is
    /// decided by the highest of the three averages.
    pub fn thresholds(&self, config: &AppConfig) -> (r: (Threshold, Threshold))
        ensures
            config.services.map().contains_key("load"@) ==> r.0
                == config.services.map()["load"@].warning && r.1
                == config.services.map()["load"@].critical,
            !config.services.map().contains_key("load"@) ==> r.0.bits == 0x4030_0000_0000_0000
                && r.1.bits == 0x4038_0000_0000_0000,
    {
        service_thresholds(
            config,
            "load",
            Threshold { bits: 0x4030_0000_0000_0000 },
            Threshold { bits: 0x4038_0000_0000_0000 },
        )
    }
}

} // verus!
