//! Disk operations per second, from `/proc/diskstats` counters.

use vstd::prelude::*;
use crate::checks::{service_thresholds, CheckResult};
use crate::config::{holds_string, AppConfig, Threshold};
use crate::text::{
    chars_of, clone_opt_strings, contains_char, parse_u64_or_zero, parse_u64_or_zero_str, split_words, starts_with,
    str_starts_with, words,
};

verus! {

/// Whether a `/proc/diskstats` device counts as a whole disk: `sdX` (three
/// bytes long, so its third character is ASCII) or an `nvme` name without a
/// partition `p`.
pub open spec fn counted_disk(name: Seq<char>) -> bool {
    ||| starts_with(name, "sd"@) && name.len() == 3 && (name[2] as u32) < 0x80
    ||| starts_with(name, "nvme"@) && !name.contains('p')
}

/// Whether a device counts: it is one of the configured `disks`, or, where
/// none are configured, a whole disk.
pub open spec fn counted_device(name: Seq<char>, disks: Option<Seq<Seq<char>>>) -> bool {
    match disks {
        Some(d) => d.contains(name),
        None => counted_disk(name),
    }
}

/// The completed reads and writes one `/proc/diskstats` line contributes.
pub open spec fn diskstats_line(line: Seq<char>, disks: Option<Seq<Seq<char>>>) -> (nat, nat) {
    let f = words(line);
    if f.len() >= 14 && counted_device(f[2], disks) {
        (parse_u64_or_zero(f[3]) as nat, parse_u64_or_zero(f[7]) as nat)
    } else {
        (0, 0)
    }
}

/// The completed reads of all counted devices.
pub open spec fn diskstats_reads(lines: Seq<Seq<char>>, disks: Option<Seq<Seq<char>>>) -> nat
    decreases lines.len(),
{
    if lines.len() == 0 {
        0
    } else {
        diskstats_reads(lines.drop_last(), disks) + diskstats_line(lines.last(), disks).0
    }
}

/// The completed writes of all counted devices.
pub open spec fn diskstats_writes(lines: Seq<Seq<char>>, disks: Option<Seq<Seq<char>>>) -> nat
    decreases lines.len(),
{
    if lines.len() == 0 {
        0
    } else {
        diskstats_writes(lines.drop_last(), disks) + diskstats_line(lines.last(), disks).1
    }
}

/// The counters of the previous run and when (in nanoseconds of a monotonic
/// clock) they were read.
#[derive(Clone, Copy, PartialEq, Eq, Structural)]
pub struct IopsHistory {
    pub last_read_ios: u64,
    pub last_write_ios: u64,
    pub last_check_time: u64,
}

/// What one reading of the counters yields.
#[derive(Clone, Copy, PartialEq, Eq, Structural)]
pub enum IopsSample {
    /// The first reading: there is nothing to compare with yet.
    Baseline,
    /// No time passed since the previous reading.
    Stalled,
    /// Operations completed since the previous reading, over `elapsed`
    /// nanoseconds.
    Rates { reads: u64, writes: u64, elapsed: u64 },
}

/// The check of disk operations per second.
pub struct IopsCheck {
    pub history: Option<IopsHistory>,
}

/// `a - b`, or 0 where `b` is larger.
pub open spec fn saturating_diff(a: u64, b: u64) -> u64 {
    if a >= b {
        (a - b) as u64
    } else {
        0
    }
}

/// One line's contribution, computed.
fn diskstats_line_counts(line: &str, disks: &Option<Vec<String>>) -> (r: (u64, u64))
    ensures
        r.0 as nat == diskstats_line(line@, disks.deep_view()).0,
        r.1 as nat == diskstats_line(line@, disks.deep_view()).1,
{
    let f = split_words(line);
    if f.len() >= 14 {
        let name = f[2].as_str();
        let counted = match disks {
            Some(d) => holds_string(d, name),
            None => {
                proof {
                    reveal_strlit("sd");
                    reveal_strlit("nvme");
                }
                let cs = chars_of(name);
                (str_starts_with(name, "sd") && cs.len() == 3 && (cs[2] as u32) < 0x80) || (
                str_starts_with(name, "nvme") && !contains_char(name, 'p'))
            },
        };
        if counted {
            return (parse_u64_or_zero_str(f[3].as_str()), parse_u64_or_zero_str(f[7].as_str()));
        }
    }
    (0, 0)
}

impl IopsCheck {
    /// A check with no previous reading.
    pub fn new() -> (r: Self)
        ensures
            r.history is None,
    {
        IopsCheck { history: None }
    }

    pub fn name(&self) -> (r: &'static str)
        ensures
            r@ == "Disk IOPS"@,
    {
        "Disk IOPS"
    }

    pub fn config_key(&self) -> (r: &'static str)
        ensures
            r@ == "iops"@,
    {
        "iops"
    }

    pub fn default_period(&self) -> (r: u64)
        ensures
            r == 60,
    {
        60
    }

    /// Warning and critical operations per second (2000.0 and 5000.0 by
    /// default).
    pub fn thresholds(&self, config: &AppConfig) -> (r: (Threshold, Threshold))
        ensures
            config.services.map().contains_key("iops"@) ==> r.0
                == config.services.map()["iops"@].warning && r.1
                == config.services.map()["iops"@].critical,
            !config.services.map().contains_key("iops"@) ==> r.0.bits == 0x409f_4000_0000_0000
                && r.1.bits == 0x40b3_8800_0000_0000,
    {
        service_thresholds(
            config,
            "iops",
            Threshold { bits: 0x409f_4000_0000_0000 },
            Threshold { bits: 0x40b3_8800_0000_0000 },
        )
    }

    /// The configured disks of the service, if any.
    pub fn disks(&self, config: &AppConfig) -> (r: Option<Vec<String>>)
        ensures
            r.deep_view() == if config.services.map().contains_key("iops"@) {
                config.services.map()["iops"@].disks
            } else {
                None
            },
    {
        match config.services.get("iops") {
            Some(service) => clone_opt_strings(&service.disks),
            None => None,
        }
    }

    /// The completed reads and writes of the counted devices (the configured
    /// `disks`, else the whole disks) in the lines of `/proc/diskstats`;
    /// `None` where a total does not fit in 64 bits.
    pub fn tally_diskstats(lines: &Vec<String>, disks: &Option<Vec<String>>) -> (r: Option<
        (u64, u64),
    >)
        ensures
            ({
                let d = disks.deep_view();
                match r {
                    Some((reads, writes)) => reads as nat == diskstats_reads(lines.deep_view(), d)
                        && writes as nat == diskstats_writes(lines.deep_view(), d),
                    None => diskstats_reads(lines.deep_view(), d) > u64::MAX || diskstats_writes(
                        lines.deep_view(),
                        d,
                    ) > u64::MAX,
                }
            }),
    {
        let n = lines.len();
        let mut reads: u64 = 0;
        let mut writes: u64 = 0;
        let mut i: usize = 0;
        let ghost all = lines.deep_view();
        while i < n
            invariant
                n == lines@.len(),
                all == lines.deep_view(),
                i <= n,
                reads as nat == diskstats_reads(all.take(i as int), disks.deep_view()),
                writes as nat == diskstats_writes(all.take(i as int), disks.deep_view()),
            decreases n - i,
        {
            proof {
                assert(all.take(i + 1).drop_last() =~= all.take(i as int));
                assert(all.take(i + 1).last() == lines@[i as int]@);
            }
            let (r, w) = diskstats_line_counts(lines[i].as_str(), disks);
            match (reads.checked_add(r), writes.checked_add(w)) {
                (Some(nr), Some(nw)) => {
                    reads = nr;
                    writes = nw;
                },
                _ => {
                    proof {
                        lemma_counts_grow(all, disks.deep_view(), i as int + 1);
                    }
                    return None;
                },
            }
            i = i + 1;
        }
        proof {
            assert(all.take(n as int) =~= all);
        }
        Some((reads, writes))
    }

    /// Records a reading of the counters taken at time `now` and says what
    /// it yields against the previous one.
    pub fn record(&mut self, reads: u64, writes: u64, now: u64) -> (r: IopsSample)
        ensures
            final(self).history == Some(
                IopsHistory { last_read_ios: reads, last_write_ios: writes, last_check_time: now },
            ),
            match old(self).history {
                None => r == IopsSample::Baseline,
                Some(h) => {
                    let elapsed = saturating_diff(now, h.last_check_time);
                    if elapsed > 0 {
                        r == IopsSample::Rates {
                            reads: saturating_diff(reads, h.last_read_ios),
                            writes: saturating_diff(writes, h.last_write_ios),
                            elapsed,
                        }
                    } else {
                        r == IopsSample::Stalled
                    }
                },
            },
    {
        let sample = match self.history {
            None => IopsSample::Baseline,
            Some(h) => {
                let elapsed = now.saturating_sub(h.last_check_time);
                if elapsed > 0 {
                    IopsSample::Rates {
                        reads: reads.saturating_sub(h.last_read_ios),
                        writes: writes.saturating_sub(h.last_write_ios),
                        elapsed,
                    }
                } else {
                    IopsSample::Stalled
                }
            },
        };
        self.history = Some(
            IopsHistory { last_read_ios: reads, last_write_ios: writes, last_check_time: now },
        );
        sample
    }

    /// The result of one reading: the baseline result for the first, nothing
    /// where no time passed, and the `measured` status and message (where
    /// given) for a rate.
    pub fn sample_result(sample: &IopsSample, measured: Option<(String, String)>) -> (r:
        Option<CheckResult>)
        ensures
            match sample {
                IopsSample::Baseline => r matches Some(CheckResult::Single { status, message })
                    && status@ == "OK"@ && message@ == 
                    "Initializing IOPS baseline counters... Calculating rates on next loop iteration."@,
                IopsSample::Stalled => r is None,
                IopsSample::Rates { .. } => match measured {
                    Some(m) => r matches Some(CheckResult::Single { status, message })
                        && status@ == m.0@ && message@ == m.1@,
                    None => r is None,
                },
            },
    {
        match sample {
            IopsSample::Baseline => Some(Self::baseline_result()),
            IopsSample::Stalled => None,
            IopsSample::Rates { .. } => match measured {
                Some(m) => Some(CheckResult::Single { status: m.0, message: m.1 }),
                None => None,
            },
        }
    }

    /// The result of the first reading.
    pub fn baseline_result() -> (r: CheckResult)
        ensures
            r matches CheckResult::Single { status, message } && status@ == "OK"@ && message@
                == "Initializing IOPS baseline counters... Calculating rates on next loop iteration."@,
    {
        CheckResult::Single {
            status: "OK".to_owned(),
            message: "Initializing IOPS baseline counters... Calculating rates on next loop iteration.".to_owned(),
        }
    }
}

/// A `/proc/diskstats` line of any current kernel (at least 14 fields; newer
/// kernels append discard and flush counters) whose device counts adds its
/// completed reads (field 3) and completed writes (field 7) to the totals;
/// any other line adds nothing.
pub proof fn lemma_diskstats_line_fields(
    lines: Seq<Seq<char>>,
    line: Seq<char>,
    disks: Option<Seq<Seq<char>>>,
)
    ensures
        ({
            let f = words(line);
            let counted = f.len() >= 14 && counted_device(f[2], disks);
            &&& diskstats_reads(lines.push(line), disks) == diskstats_reads(lines, disks) + if counted {
                parse_u64_or_zero(f[3]) as nat
            } else {
                0
            }
            &&& diskstats_writes(lines.push(line), disks) == diskstats_writes(lines, disks)
                + if counted {
                parse_u64_or_zero(f[7]) as nat
            } else {
                0
            }
        }),
{
    assert(lines.push(line).drop_last() =~= lines);
}

proof fn lemma_counts_grow(all: Seq<Seq<char>>, disks: Option<Seq<Seq<char>>>, k: int)
    requires
        0 <= k <= all.len(),
    ensures
        diskstats_reads(all.take(k), disks) <= diskstats_reads(all, disks),
        diskstats_writes(all.take(k), disks) <= diskstats_writes(all, disks),
    decreases all.len() - k,
{
    if k < all.len() {
        lemma_counts_grow(all, disks, k + 1);
        assert(all.take(k + 1).drop_last() =~= all.take(k));
    } else {
        assert(all.take(k) =~= all);
    }
}

} // verus!
