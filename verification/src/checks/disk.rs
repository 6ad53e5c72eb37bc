//! Used space on the configured mount points.

use vstd::prelude::*;
use crate::checks::{service_targets, service_thresholds, targets_of};
use crate::config::{AppConfig, Threshold};

verus! {

/// The check of used space on each configured mount point (`/` when none
/// are configured).
pub struct DiskUsageCheck;

impl DiskUsageCheck {
    pub fn name(&self) -> (r: &'static str)
        ensures
            r@ == "Disk Space"@,
    {
        "Disk Space"
    }

    pub fn config_key(&self) -> (r: &'static str)
        ensures
            r@ == "disk"@,
    {
        "disk"
    }

    pub fn default_period(&self) -> (r: u64)
        ensures
            r == 60,
    {
        60
    }

    /// The mount points to inspect.
    pub fn targets(&self, config: &AppConfig) -> (r: Vec<String>)
        ensures
            r.deep_view() == targets_of(config.services.map(), "disk"@, false, "/"@),
    {
        service_targets(config, "disk", false, "/")
    }

    /// Warning and critical used-space percentages (90.0 and 95.0 by default).
    pub fn thresholds(&self, config: &AppConfig) -> (r: (Threshold, Threshold))
        ensures
            config.services.map().contains_key("disk"@) ==> r.0
                == config.services.map()["disk"@].warning && r.1
                == config.services.map()["disk"@].critical,
            !config.services.map().contains_key("disk"@) ==> r.0.bits == 0x4056_8000_0000_0000
                && r.1.bits == 0x4057_c000_0000_0000,
    {
        service_thresholds(
            config,
            "disk",
            Threshold { bits: 0x4056_8000_0000_0000 },
            Threshold { bits: 0x4057_c000_0000_0000 },
        )
    }

    /// The report for a configured path that is not a mount point.
    pub fn unmounted(path: &str) -> (r: (String, String))
        ensures
            r.0@ == "ERROR"@,
            r.1@ == "Could not check "@ + path@,
    {
        let mut message = "Could not check ".to_owned();
        message.append(path);
        ("ERROR".to_owned(), message)
    }
    /// The report of one configured path: the unmounted report where no
    /// disk is mounted there (`measured` is `None`), nothing where the disk
    /// has no capacity (`Some(None)`), else the measured report.
    pub fn report(path: &str, measured: Option<Option<(String, String)>>) -> (r: Option<
        (String, String),
    >)
        ensures
            match measured {
                None => r matches Some(m) && m.0@ == "ERROR"@ && m.1@ == "Could not check "@ + path@,
                Some(found) => r == found,
            },
    {
        match measured {
            None => Some(Self::unmounted(path)),
            Some(found) => found,
        }
    }
}

} // verus!
