//! Render-side decisions: how a percentage is classed into a colour band,
//! how wide a progress bar's filled part is, and which unit a byte rate is
//! shown in. Turning these into terminal cells is the renderer's job.

use vstd::prelude::*;

verus! {

/// The colour band of a percentage: green up to 50%, yellow up to 80%,
/// red above.
#[derive(Clone, Copy, Debug, PartialEq, Eq, Structural)]
pub enum UsageLevel {
    Low,
    Medium,
    High,
}

/// The band a milli-percent value falls in.
pub open spec fn spec_usage_level(value: int) -> UsageLevel {
    if value > 80_000 {
        UsageLevel::High
    } else if value > 50_000 {
        UsageLevel::Medium
    } else {
        UsageLevel::Low
    }
}

/// Class a milli-percent value into its colour band: above 80% is high,
/// above 50% medium, the rest low.
pub fn get_percentage_style(value: u32) -> (r: UsageLevel)
    ensures
        r == spec_usage_level(value as int),
{
    if value > 80_000 {
        UsageLevel::High
    } else if value > 50_000 {
        UsageLevel::Medium
    } else {
        UsageLevel::Low
    }
}

/// The filled width of a progress bar: the value, clamped to 100%, scaled
/// to the bar's width and rounded to the nearest cell.
pub open spec fn spec_filled_width(value: int, width: int) -> int {
    let clamped = if value > 100_000 {
        100_000
    } else {
        value
    };
    (clamped * width + 50_000) / 100_000
}

/// How many of `width` cells of a progress bar are filled for a
/// milli-percent value.
pub fn progress_filled_width(value: u32, width: usize) -> (r: usize)
    ensures
        r == spec_filled_width(value as int, width as int),
        r <= width,
{
    let clamped: u64 = if value > 100_000 {
        100_000
    } else {
        value as u64
    };
    proof {
        assert(clamped as int * (width as int) <= 100_000 * (width as int)) by (nonlinear_arith)
            requires
                clamped <= 100_000,
                width >= 0,
        ;
        assert((100_000 * (width as int) + 50_000) / 100_000 == width as int);
    }
    let product: u128 = clamped as u128 * (width as u128);
    let filled: u128 = (product + 50_000) / 100_000;
    filled as usize
}

/// The unit a byte rate is displayed in: the largest binary unit the rate
/// reaches, bytes below one kibibyte.
#[derive(Clone, Copy, Debug, PartialEq, Eq, Structural)]
pub enum RateUnit {
    Bytes,
    Kibi,
    Mebi,
    Gibi,
}

pub const KIB: u64 = 1024;

pub const MIB: u64 = 1048576;

pub const GIB: u64 = 1073741824;

/// The display unit of a byte rate.
pub open spec fn spec_rate_unit(bytes_per_sec: int) -> RateUnit {
    if bytes_per_sec >= GIB as int {
        RateUnit::Gibi
    } else if bytes_per_sec >= MIB as int {
        RateUnit::Mebi
    } else if bytes_per_sec >= KIB as int {
        RateUnit::Kibi
    } else {
        RateUnit::Bytes
    }
}

/// Pick the unit a byte rate is displayed in.
pub fn rate_unit(bytes_per_sec: u64) -> (r: RateUnit)
    ensures
        r == spec_rate_unit(bytes_per_sec as int),
{
    if bytes_per_sec >= GIB {
        RateUnit::Gibi
    } else if bytes_per_sec >= MIB {
        RateUnit::Mebi
    } else if bytes_per_sec >= KIB {
        RateUnit::Kibi
    } else {
        RateUnit::Bytes
    }
}

} // verus!
