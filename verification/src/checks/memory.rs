//! RAM utilization.

use vstd::prelude::*;
use crate::checks::service_thresholds;
use crate::config::{AppConfig, Threshold};

verus! {

/// The check of RAM utilization; the caller keeps the handle it reads the
/// system's memory figures through.
pub struct MemoryUsageCheck;

impl MemoryUsageCheck {
    pub fn new() -> (r: Self)
        ensures
            r == MemoryUsageCheck,
    {
        MemoryUsageCheck
    }

    pub fn name(&self) -> (r: &'static str)
        ensures
            r@ == "Memory Usage"@,
    {
        "Memory Usage"
    }

    pub fn config_key(&self) -> (r: &'static str)
        ensures
            r@ == "memory"@,
    {
        "memory"
    }

    pub fn default_period(&self) -> (r: u64)
        ensures
            r == 60,
    {
        60
    }

    /// Warning and critical used-RAM percentages (80.0 and 90.0 by default).
    pub fn thresholds(&self, config: &AppConfig) -> (r: (Threshold, Threshold))
        ensures
            config.services.map().contains_key("memory"@) ==> r.0
                == config.services.map()["memory"@].warning && r.1
                == config.services.map()["memory"@].critical,
            !config.services.map().contains_key("memory"@) ==> r.0.bits
                == 0x4054_0000_0000_0000 && r.1.bits == 0x4056_8000_0000_0000,
    {
        service_thresholds(
            config,
            "memory",
            Threshold { bits: 0x4054_0000_0000_0000 },
            Threshold { bits: 0x4056_8000_0000_0000 },
        )
    }
}

} // verus!
