//! Target bit rates: from a share of the present rate, from a size to fit,
//! or from a named quality.

use vstd::prelude::*;
use crate::error::{AudioError, ErrorView};
use crate::probe::{probe_bitrate, probe_duration, probed_bit_rate, probed_duration, Entry};
use crate::text::same_text;

verus! {

/// The lowest rate that is ever asked for, in kilobits per second.
pub const MIN_KBPS: i32 = 32;

/// The highest rate that can be asked for: the largest that 32 bits hold.
pub const MAX_KBPS: i32 = 2_147_483_647;

/// A rate held up to the lowest, and cut off only where 32 bits end.
pub open spec fn clamp_kbps(raw: int) -> int {
    if raw < MIN_KBPS {
        MIN_KBPS as int
    } else if raw > MAX_KBPS {
        MAX_KBPS as int
    } else {
        raw
    }
}

/// The rate that is a percentage of a rate in bits per second: the whole
/// kilobits of the share, and at least the lowest rate.
pub open spec fn percentage_kbps(bit_rate_bps: int, percentage: int) -> int {
    clamp_kbps((bit_rate_bps * percentage) / 100_000)
}

/// The rate at which a duration fills a size in mebibytes: the whole
/// kilobits per second, and at least the lowest rate. A duration of zero
/// asks for the highest.
pub open spec fn size_kbps(size_mb: int, duration_micros: int) -> int {
    if duration_micros == 0 {
        MAX_KBPS as int
    } else {
        clamp_kbps((size_mb * 8_388_608_000) / duration_micros)
    }
}

/// The rate of a named quality: 64 for `low`, 256 for `high`, and 128 for
/// `medium` and for every other name.
pub open spec fn quality_rate(quality: Seq<char>) -> int {
    if quality == "low"@ {
        64
    } else if quality == "high"@ {
        256
    } else {
        128
    }
}

/// How a target rate follows from a probe.
#[derive(Debug, Clone, Copy, PartialEq, Eq, Structural)]
pub enum RateRule {
    /// This percentage of the probed bit rate.
    Percentage(i32),
    /// The rate that fills this many mebibytes over the probed duration.
    Size(u32),
}

/// The property that a rule needs probed.
pub open spec fn rule_entry(rule: RateRule) -> Entry {
    match rule {
        RateRule::Percentage(_) => Entry::BitRate,
        RateRule::Size(_) => Entry::Duration,
    }
}

/// The target rate that a rule gives for the outcome of its probe.
pub open spec fn rule_rate(rule: RateRule, success: bool, stdout: Seq<char>, stderr: Seq<char>)
    -> Result<i32, ErrorView> {
    match rule {
        RateRule::Percentage(p) => match probed_bit_rate(success, stdout, stderr) {
            Ok(bps) => Ok(percentage_kbps(bps as int, p as int) as i32),
            Err(e) => Err(e),
        },
        RateRule::Size(mb) => match probed_duration(success, stdout, stderr) {
            Ok(micros) => Ok(size_kbps(mb as int, micros as int) as i32),
            Err(e) => Err(e),
        },
    }
}

fn clamp(raw: i64) -> (k: i32)
    ensures
        k == clamp_kbps(raw as int),
{
    if raw < 32 {
        32
    } else if raw > 2_147_483_647 {
        2_147_483_647
    } else {
        raw as i32
    }
}

/// The target rate for a percentage of a probed bit rate.
pub fn percentage_target_kbps(bit_rate_bps: i32, percentage: i32) -> (k: i32)
    ensures
        k == percentage_kbps(bit_rate_bps as int, percentage as int),
        MIN_KBPS <= k <= MAX_KBPS,
{
    assert(-4_611_686_018_427_387_904 <= (bit_rate_bps as int) * (percentage as int)
        <= 4_611_686_018_427_387_904) by (nonlinear_arith)
        requires
            -2_147_483_648 <= bit_rate_bps <= 2_147_483_647,
            -2_147_483_648 <= percentage <= 2_147_483_647,
    ;
    let share: i64 = (bit_rate_bps as i64) * (percentage as i64);
    if share <= 0 {
        32
    } else {
        clamp(share / 100_000)
    }
}

/// The target rate that fills a size in mebibytes over a duration in
/// microseconds.
pub fn size_target_kbps(size_mb: u32, duration_micros: u64) -> (k: i32)
    ensures
        k == size_kbps(size_mb as int, duration_micros as int),
        MIN_KBPS <= k <= MAX_KBPS,
{
    if duration_micros == 0 {
        return 2_147_483_647;
    }
    let millibits: u128 = (size_mb as u128) * 8_388_608_000;
    let raw: u128 = millibits / (duration_micros as u128);
    if raw > 2_147_483_647 {
        2_147_483_647
    } else {
        clamp(raw as i64)
    }
}

/// The rate of a named quality.
pub fn quality_kbps(quality: &str) -> (k: i32)
    ensures
        k == quality_rate(quality@),
{
    if same_text(quality, "low") {
        64
    } else if same_text(quality, "high") {
        256
    } else {
        128
    }
}

impl RateRule {
    /// The property that this rule needs probed.
    pub fn entry(&self) -> (e: Entry)
        ensures
            e == rule_entry(*self),
    {
        match self {
            RateRule::Percentage(_) => Entry::BitRate,
            RateRule::Size(_) => Entry::Duration,
        }
    }

    /// The target rate that this rule gives for the outcome of its probe.
    pub fn rate(&self, success: bool, stdout: &str, stderr: &str) -> (r: Result<i32, AudioError>)
        ensures
            match rule_rate(*self, success, stdout@, stderr@) {
                Ok(k) => r is Ok && r.unwrap() == k,
                Err(e) => r is Err && r.unwrap_err()@ == e,
            },
    {
        match self {
            RateRule::Percentage(p) => match probe_bitrate(success, stdout, stderr) {
                Ok(bps) => Ok(percentage_target_kbps(bps, *p)),
                Err(e) => Err(e),
            },
            RateRule::Size(mb) => match probe_duration(success, stdout, stderr) {
                Ok(micros) => Ok(size_target_kbps(*mb, micros)),
                Err(e) => Err(e),
            },
        }
    }
}

} // verus!
