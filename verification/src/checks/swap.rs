//! Swap space utilization.

use vstd::prelude::*;
use crate::checks::{service_thresholds, CheckResult};
use crate::config::{AppConfig, Threshold};
use crate::text::{parse_u64, parse_u64_str, split_words, starts_with, str_starts_with, words};

verus! {

/// The check of swap space utilization.
pub struct SwapUsageCheck;

/// The number in the second word of a `/proc/meminfo` line, if it is one.
pub open spec fn meminfo_value(line: Seq<char>) -> Option<u64> {
    let w = words(line);
    if w.len() > 1 {
        parse_u64(w[1])
    } else {
        None
    }
}

/// The `SwapTotal:` and `SwapFree:` values of meminfo `lines`, reading on
/// from `total` and `free` and stopping once both are known; a later line
/// of a kind replaces an earlier one.
pub open spec fn meminfo_scan(lines: Seq<Seq<char>>, total: Option<u64>, free: Option<u64>) -> (
    Option<u64>,
    Option<u64>,
)
    decreases lines.len(),
{
    if lines.len() == 0 {
        (total, free)
    } else {
        let line = lines[0];
        let t = if starts_with(line, "SwapTotal:"@) {
            meminfo_value(line)
        } else {
            total
        };
        let f = if !starts_with(line, "SwapTotal:"@) && starts_with(line, "SwapFree:"@) {
            meminfo_value(line)
        } else {
            free
        };
        if t is Some && f is Some {
            (t, f)
        } else {
            meminfo_scan(lines.drop_first(), t, f)
        }
    }
}

/// What the swap totals say: `Ok(Some((used, total)))` for configured swap,
/// `Ok(None)` where there is none, an error where the values are partial.
pub open spec fn swap_usage_of(total: Option<u64>, free: Option<u64>) -> Result<
    Option<(u64, u64)>,
    Seq<char>,
> {
    match (total, free) {
        (Some(t), Some(f)) if t > 0 => Ok(Some((if f <= t { (t - f) as u64 } else { 0 }, t))),
        (Some(t), _) if t == 0 => Ok(None),
        (None, None) => Ok(None),
        _ => Err("Failed to accurately parse /proc/meminfo swap keys"@),
    }
}

/// The number in the second word of a meminfo line.
fn meminfo_value_str(line: &str) -> (r: Option<u64>)
    ensures
        r == meminfo_value(line@),
{
    let w = split_words(line);
    if w.len() > 1 {
        parse_u64_str(w[1].as_str())
    } else {
        None
    }
}

impl SwapUsageCheck {
    pub fn name(&self) -> (r: &'static str)
        ensures
            r@ == "Swap Utilization"@,
    {
        "Swap Utilization"
    }

    pub fn config_key(&self) -> (r: &'static str)
        ensures
            r@ == "swap"@,
    {
        "swap"
    }

    pub fn default_period(&self) -> (r: u64)
        ensures
            r == 30,
    {
        30
    }

    /// Warning and critical utilization percentages (40.0 and 70.0 by default).
    pub fn thresholds(&self, config: &AppConfig) -> (r: (Threshold, Threshold))
        ensures
            config.services.map().contains_key("swap"@) ==> r.0
                == config.services.map()["swap"@].warning && r.1
                == config.services.map()["swap"@].critical,
            !config.services.map().contains_key("swap"@) ==> r.0.bits == 0x4044_0000_0000_0000
                && r.1.bits == 0x4051_8000_0000_0000,
    {
        service_thresholds(
            config,
            "swap",
            Threshold { bits: 0x4044_0000_0000_0000 },
            Threshold { bits: 0x4051_8000_0000_0000 },
        )
    }

    /// The `SwapTotal:` and `SwapFree:` values (in kB) of `/proc/meminfo`.
    pub fn meminfo_swap(lines: &Vec<String>) -> (r: (Option<u64>, Option<u64>))
        ensures
            r == meminfo_scan(lines.deep_view(), None, None),
    {
        let mut total: Option<u64> = None;
        let mut free: Option<u64> = None;
        let n = lines.len();
        let mut i: usize = 0;
        proof {
            reveal_strlit("SwapTotal:");
            reveal_strlit("SwapFree:");
            assert(lines.deep_view().skip(0) =~= lines.deep_view());
        }
        while i < n
            invariant
                n == lines@.len(),
                i <= n,
                meminfo_scan(lines.deep_view(), None, None) == meminfo_scan(
                    lines.deep_view().skip(i as int),
                    total,
                    free,
                ),
                !(total is Some && free is Some),
            decreases n - i,
        {
            let line = lines[i].as_str();
            let ghost rest = lines.deep_view().skip(i as int);
            proof {
                assert(rest[0] == line@);
                assert(rest.drop_first() =~= lines.deep_view().skip(i + 1));
            }
            if str_starts_with(line, "SwapTotal:") {
                total = meminfo_value_str(line);
            } else if str_starts_with(line, "SwapFree:") {
                free = meminfo_value_str(line);
            }
            if total.is_some() && free.is_some() {
                return (total, free);
            }
            i = i + 1;
        }
        proof {
            assert(lines.deep_view().skip(i as int) =~= Seq::<Seq<char>>::empty());
        }
        (total, free)
    }

    /// Used and total swap, none where no swap is configured, or the error of
    /// a partial reading.
    pub fn swap_usage(total: Option<u64>, free: Option<u64>) -> (r: Result<
        Option<(u64, u64)>,
        String,
    >)
        ensures
            match r {
                Ok(usage) => swap_usage_of(total, free) == Ok::<_, Seq<char>>(usage),
                Err(e) => swap_usage_of(total, free) == Err::<Option<(u64, u64)>, _>(e@),
            },
    {
        match (total, free) {
            (Some(t), Some(f)) if t > 0 => Ok(Some((t.saturating_sub(f), t))),
            (Some(t), _) if t == 0 => Ok(None),
            (None, None) => Ok(None),
            _ => Err("Failed to accurately parse /proc/meminfo swap keys".to_owned()),
        }
    }

    /// The result of a reading that needs no measurement: no swap, or an
    /// error; `None` for configured swap, whose utilization is measured.
    pub fn settled_result(usage: &Result<Option<(u64, u64)>, String>) -> (r: Option<CheckResult>)
        ensures
            match usage {
                Ok(Some(_)) => r is None,
                Ok(None) => r matches Some(CheckResult::Single { status, message }) && status@
                    == "OK"@ && message@
                    == "Swap space is not active or unallocated on this system"@,
                Err(e) => r matches Some(CheckResult::Single { status, message }) && status@
                    == "UNKNOWN"@ && message@ == e@,
            },
    {
        match usage {
            Ok(Some(_)) => None,
            Ok(None) => Some(
                CheckResult::Single {
                    status: "OK".to_owned(),
                    message: "Swap space is not active or unallocated on this system".to_owned(),
                },
            ),
            Err(e) => Some(CheckResult::Single { status: "UNKNOWN".to_owned(), message: e.clone() }),
        }
    }
}

} // verus!
