//! CPU time spent waiting for I/O, from the `cpu` line of `/proc/stat`.

use vstd::prelude::*;
use crate::checks::{service_thresholds, CheckResult};
use crate::checks::iops::saturating_diff;
use crate::config::{AppConfig, Threshold};
use crate::text::{parse_u64_or_zero, parse_u64_or_zero_str, split_words, words};

verus! {

/// The sum of the tick counts `ws` hold (0 for a word that is no number).
pub open spec fn tick_sum(ws: Seq<Seq<char>>) -> nat
    decreases ws.len(),
{
    if ws.len() == 0 {
        0
    } else {
        tick_sum(ws.drop_last()) + parse_u64_or_zero(ws.last()) as nat
    }
}

/// What the aggregate `cpu` line of `/proc/stat` yields.
#[derive(Clone, Copy, PartialEq, Eq, Structural)]
pub enum CpuLine {
    /// Fewer than six fields: no I/O wait column.
    TooShort,
    /// The I/O wait ticks and the ticks of all columns together.
    Ticks { iowait: u64, total: u64 },
    /// The columns add up to more than 64 bits hold.
    Overflow,
}

/// The reading of a `cpu user nice system idle iowait ...` line: the fifth
/// column, and the sum of all columns after the label.
pub open spec fn cpu_line_of(line: Seq<char>) -> CpuLine {
    let f = words(line);
    if f.len() < 6 {
        CpuLine::TooShort
    } else if tick_sum(f.drop_first()) > u64::MAX {
        CpuLine::Overflow
    } else {
        CpuLine::Ticks {
            iowait: parse_u64_or_zero(f[5]),
            total: tick_sum(f.drop_first()) as u64,
        }
    }
}

/// The tick counters of the previous run.
#[derive(Clone, Copy, PartialEq, Eq, Structural)]
pub struct IoWaitHistory {
    pub last_iowait_ticks: u64,
    pub last_total_ticks: u64,
}

/// What one reading of the counters yields.
#[derive(Clone, Copy, PartialEq, Eq, Structural)]
pub enum IoWaitSample {
    /// The first reading: there is nothing to compare with yet.
    Baseline,
    /// No CPU time passed since the previous reading.
    Stalled,
    /// I/O wait ticks out of all ticks since the previous reading.
    Delta { iowait_ticks: u64, total_ticks: u64 },
}

/// The check of CPU I/O wait.
pub struct IoWaitCheck {
    pub history: Option<IoWaitHistory>,
}

proof fn lemma_tick_sum_grows(ws: Seq<Seq<char>>, k: int)
    requires
        0 <= k <= ws.len(),
    ensures
        tick_sum(ws.take(k)) <= tick_sum(ws),
    decreases ws.len() - k,
{
    if k < ws.len() {
        lemma_tick_sum_grows(ws, k + 1);
        assert(ws.take(k + 1).drop_last() =~= ws.take(k));
    } else {
        assert(ws.take(k) =~= ws);
    }
}

impl IoWaitCheck {
    /// A check with no previous reading.
    pub fn new() -> (r: Self)
        ensures
            r.history is None,
    {
        IoWaitCheck { history: None }
    }

    pub fn name(&self) -> (r: &'static str)
        ensures
            r@ == "CPU I/O Wait"@,
    {
        "CPU I/O Wait"
    }

    pub fn config_key(&self) -> (r: &'static str)
        ensures
            r@ == "iowait"@,
    {
        "iowait"
    }

    pub fn default_period(&self) -> (r: u64)
        ensures
            r == 60,
    {
        60
    }

    /// Warning and critical I/O wait percentages (5.0 and 10.0 by default).
    pub fn thresholds(&self, config: &AppConfig) -> (r: (Threshold, Threshold))
        ensures
            config.services.map().contains_key("iowait"@) ==> r.0
                == config.services.map()["iowait"@].warning && r.1
                == config.services.map()["iowait"@].critical,
            !config.services.map().contains_key("iowait"@) ==> r.0.bits
                == 0x4014_0000_0000_0000 && r.1.bits == 0x4024_0000_0000_0000,
    {
        service_thresholds(
            config,
            "iowait",
            Threshold { bits: 0x4014_0000_0000_0000 },
            Threshold { bits: 0x4024_0000_0000_0000 },
        )
    }

    /// Reads the first line of `/proc/stat`.
    pub fn parse_cpu_line(line: &str) -> (r: CpuLine)
        ensures
            r == cpu_line_of(line@),
    {
        let f = split_words(line);
        if f.len() < 6 {
            return CpuLine::TooShort;
        }
        let iowait = parse_u64_or_zero_str(f[5].as_str());
        let ghost cols = f.deep_view().drop_first();
        let mut total: u64 = 0;
        let mut j: usize = 1;
        proof {
            assert(cols.take(0) =~= Seq::<Seq<char>>::empty());
        }
        while j < f.len()
            invariant
                cols == f.deep_view().drop_first(),
                f.deep_view() == words(line@),
                f@.len() >= 6,
                1 <= j <= f@.len(),
                total as nat == tick_sum(cols.take(j - 1)),
            decreases f@.len() - j,
        {
            proof {
                assert(cols.take(j as int).drop_last() =~= cols.take(j - 1));
                assert(cols.take(j as int).last() == f@[j as int]@);
            }
            let ticks = parse_u64_or_zero_str(f[j].as_str());
            match total.checked_add(ticks) {
                Some(next) => {
                    total = next;
                },
                None => {
                    proof {
                        assert(tick_sum(cols.take(j as int)) == tick_sum(cols.take(j - 1))
                            + parse_u64_or_zero(f@[j as int]@) as nat);
                        lemma_tick_sum_grows(cols, j as int);
                    }
                    return CpuLine::Overflow;
                },
            }
            j = j + 1;
        }
        proof {
            assert(cols.take(j - 1) =~= cols);
        }
        CpuLine::Ticks { iowait, total }
    }

    /// Records a reading of the tick counters and says what it yields
    /// against the previous one.
    pub fn record(&mut self, iowait: u64, total: u64) -> (r: IoWaitSample)
        ensures
            final(self).history == Some(
                IoWaitHistory { last_iowait_ticks: iowait, last_total_ticks: total },
            ),
            match old(self).history {
                None => r == IoWaitSample::Baseline,
                Some(h) => if saturating_diff(total, h.last_total_ticks) > 0 {
                    r == IoWaitSample::Delta {
                        iowait_ticks: saturating_diff(iowait, h.last_iowait_ticks),
                        total_ticks: saturating_diff(total, h.last_total_ticks),
                    }
                } else {
                    r == IoWaitSample::Stalled
                },
            },
    {
        let sample = match self.history {
            None => IoWaitSample::Baseline,
            Some(h) => {
                let total_delta = total.saturating_sub(h.last_total_ticks);
                let iowait_delta = iowait.saturating_sub(h.last_iowait_ticks);
                if total_delta > 0 {
                    IoWaitSample::Delta { iowait_ticks: iowait_delta, total_ticks: total_delta }
                } else {
                    IoWaitSample::Stalled
                }
            },
        };
        self.history = Some(IoWaitHistory { last_iowait_ticks: iowait, last_total_ticks: total });
        sample
    }

    /// The result of one reading: the baseline result for the first, nothing
    /// where no time passed, and the `measured` status and message (where
    /// given) for a rate.
    pub fn sample_result(sample: &IoWaitSample, measured: Option<(String, String)>) -> (r:
        Option<CheckResult>)
        ensures
            match sample {
                IoWaitSample::Baseline => r matches Some(CheckResult::Single { status, message })
                    && status@ == "OK"@ && message@ == 
                    "Initializing CPU I/O Wait baseline counters... Calculating rates on next loop iteration."@,
                IoWaitSample::Stalled => r is None,
                IoWaitSample::Delta { .. } => match measured {
                    Some(m) => r matches Some(CheckResult::Single { status, message })
                        && status@ == m.0@ && message@ == m.1@,
                    None => r is None,
                },
            },
    {
        match sample {
            IoWaitSample::Baseline => Some(Self::baseline_result()),
            IoWaitSample::Stalled => None,
            IoWaitSample::Delta { .. } => match measured {
                Some(m) => Some(CheckResult::Single { status: m.0, message: m.1 }),
                None => None,
            },
        }
    }

    /// The result of the first reading.
    pub fn baseline_result() -> (r: CheckResult)
        ensures
            r matches CheckResult::Single { status, message } && status@ == "OK"@ && message@
                == "Initializing CPU I/O Wait baseline counters... Calculating rates on next loop iteration."@,
    {
        CheckResult::Single {
            status: "OK".to_owned(),
            message: "Initializing CPU I/O Wait baseline counters... Calculating rates on next loop iteration.".to_owned(),
        }
    }
}

} // verus!
