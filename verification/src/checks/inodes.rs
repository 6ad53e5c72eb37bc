//! Used inodes on the configured mount points.

use vstd::prelude::*;
use crate::checks::{service_targets, service_thresholds, targets_of};
use crate::config::{AppConfig, Threshold};

verus! {

/// The check of used inodes on each configured mount point (`/` when none
/// are configured).
pub struct InodesUsageCheck;

impl InodesUsageCheck {
    pub fn name(&self) -> (r: &'static str)
        ensures
            r@ == "Inode Utilization"@,
    {
        "Inode Utilization"
    }

    pub fn config_key(&self) -> (r: &'static str)
        ensures
            r@ == "inodes"@,
    {
        "inodes"
    }

    pub fn default_period(&self) -> (r: u64)
        ensures
            r == 60,
    {
        60
    }

    /// The mount points to inspect.
    pub fn targets(&self, config: &AppConfig) -> (r: Vec<String>)
        ensures
            r.deep_view() == targets_of(config.services.map(), "inodes"@, false, "/"@),
    {
        service_targets(config, "inodes", false, "/")
    }

    /// Warning and critical used-inode percentages (80.0 and 90.0 by default).
    pub fn thresholds(&self, config: &AppConfig) -> (r: (Threshold, Threshold))
        ensures
            config.services.map().contains_key("inodes"@) ==> r.0
                == config.services.map()["inodes"@].warning && r.1
                == config.services.map()["inodes"@].critical,
            !config.services.map().contains_key("inodes"@) ==> r.0.bits
                == 0x4054_0000_0000_0000 && r.1.bits == 0x4056_8000_0000_0000,
    {
        service_thresholds(
            config,
            "inodes",
            Threshold { bits: 0x4054_0000_0000_0000 },
            Threshold { bits: 0x4056_8000_0000_0000 },
        )
    }

    /// The report for a path whose file-system statistics cannot be read.
    pub fn unreadable(path: &str) -> (r: (String, String))
        ensures
            r.0@ == "ERROR"@,
            r.1@ == "Failed statvfs execution for path: "@ + path@,
    {
        let mut message = "Failed statvfs execution for path: ".to_owned();
        message.append(path);
        ("ERROR".to_owned(), message)
    }
    /// The report of one configured path: the unreadable report where its
    /// statistics could not be read (`measured` is `None`), nothing where it
    /// has no inodes (`Some(None)`), else the measured report.
    pub fn report(path: &str, measured: Option<Option<(String, String)>>) -> (r: Option<
        (String, String),
    >)
        ensures
            match measured {
                None => r matches Some(m) && m.0@ == "ERROR"@ && m.1@ == "Failed statvfs execution for path: "@ + path@,
                Some(found) => r == found,
            },
    {
        match measured {
            None => Some(Self::unreadable(path)),
            Some(found) => found,
        }
    }
}

} // verus!
