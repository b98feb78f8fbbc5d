//! Resource-usage percentages and exponential smoothing.
//!
//! Percentages are carried as fixed-point integers in units of a thousandth
//! of a percent ("milli-percent"), so `200_000` means `200.0%`. This keeps
//! the arithmetic exact and lets every formula be stated and proved as is.

use vstd::prelude::*;

verus! {

/// Scale factor: milli-percent units per whole percent times 100, i.e. the
/// multiplier that turns a plain ratio into milli-percent.
pub const PERCENT_SCALE: u64 = 100_000;

/// One raw CPU reading of a stats sample: the container's cumulative CPU
/// time, the host's cumulative CPU time, and the number of online CPUs.
/// The runtime may omit any field.
#[derive(Clone, Copy, Debug, PartialEq, Eq, Structural)]
pub struct CpuSample {
    pub total_usage: Option<u64>,
    pub system_cpu_usage: Option<u64>,
    pub online_cpus: Option<u32>,
}

/// One raw memory reading of a stats sample: bytes in use and the limit.
#[derive(Clone, Copy, Debug, PartialEq, Eq, Structural)]
pub struct MemorySample {
    pub usage: Option<u64>,
    pub limit: Option<u64>,
}

/// CPU usage in milli-percent: the share of the system-wide CPU-time delta
/// consumed by the container, times the number of online CPUs, times 100.
/// Values above 100% are possible on multi-core hosts. A missing reading
/// (current or previous) yields zero; within a reading, a missing counter
/// counts as zero and a missing CPU count as one; any non-positive delta
/// yields zero; a result too large for `u32` saturates.
pub open spec fn spec_cpu_percent(cpu_stats: Option<CpuSample>, precpu_stats: Option<
    CpuSample,
>) -> int {
    match (cpu_stats, precpu_stats) {
        (Some(cs), Some(ps)) => {
            let cur = opt_or_zero(cs.total_usage);
            let pre = opt_or_zero(ps.total_usage);
            let sys = opt_or_zero(cs.system_cpu_usage);
            let presys = opt_or_zero(ps.system_cpu_usage);
            let cpus = match cs.online_cpus {
                Some(n) => n as int,
                None => 1,
            };
            if cur > pre && sys > presys {
                saturate_u32((cur - pre) * cpus * PERCENT_SCALE as int / (sys - presys))
            } else {
                0
            }
        },
        _ => 0,
    }
}

pub open spec fn opt_or_zero(v: Option<u64>) -> int {
    match v {
        Some(n) => n as int,
        None => 0,
    }
}

pub open spec fn saturate_u32(v: int) -> int {
    if v > u32::MAX as int {
        u32::MAX as int
    } else {
        v
    }
}

/// CPU usage of one stats sample, in milli-percent, from the current and
/// the previous reading.
pub fn calculate_cpu_percentage(cpu_stats: Option<CpuSample>, precpu_stats: Option<CpuSample>) -> (r:
    u32)
    ensures
        r as int == spec_cpu_percent(cpu_stats, precpu_stats),
{
    let (cs, ps) = match (cpu_stats, precpu_stats) {
        (Option::Some(cs), Option::Some(ps)) => (cs, ps),
        _ => {
            return 0;
        },
    };
    let cur = cs.total_usage.unwrap_or(0);
    let pre = ps.total_usage.unwrap_or(0);
    let sys = cs.system_cpu_usage.unwrap_or(0);
    let presys = ps.system_cpu_usage.unwrap_or(0);
    let cpus = cs.online_cpus.unwrap_or(1);
    if cur > pre && sys > presys {
        let delta: u64 = cur - pre;
        proof {
            assert(delta as u128 * (cpus as u128) <= u64::MAX as u128 * (u32::MAX as u128))
                by (nonlinear_arith)
                requires
                    delta <= u64::MAX,
                    cpus <= u32::MAX,
            ;
            assert(delta as u128 * (cpus as u128) * (PERCENT_SCALE as u128) <= u64::MAX as u128
                * (u32::MAX as u128) * 100_000u128) by (nonlinear_arith)
                requires
                    delta <= u64::MAX,
                    cpus <= u32::MAX,
                    PERCENT_SCALE == 100_000u64,
            ;
        }
        let weighted: u128 = delta as u128 * cpus as u128;
        let num = weighted * (PERCENT_SCALE as u128);
        let q = num / (sys - presys) as u128;
        if q > u32::MAX as u128 {
            u32::MAX
        } else {
            q as u32
        }
    } else {
        0
    }
}

/// Memory usage in milli-percent: usage over limit times 100. The result
/// is zero when the reading itself, the usage, or the limit is missing, or
/// the limit is not positive; an overflowing result saturates at
/// `u32::MAX`.
pub open spec fn spec_memory_percent(memory_stats: Option<MemorySample>) -> int {
    match memory_stats {
        Some(ms) => {
            let u = opt_or_zero(ms.usage);
            match ms.limit {
                Some(l) => if l > 0 {
                    saturate_u32(u * PERCENT_SCALE as int / (l as int))
                } else {
                    0
                },
                None => 0,
            }
        },
        None => 0,
    }
}

/// Memory usage of one stats sample, in milli-percent.
pub fn calculate_memory_percentage(memory_stats: Option<MemorySample>) -> (r: u32)
    ensures
        r as int == spec_memory_percent(memory_stats),
{
    let ms = match memory_stats {
        Option::Some(ms) => ms,
        Option::None => {
            return 0;
        },
    };
    let u = ms.usage.unwrap_or(0);
    let l = match ms.limit {
        Option::Some(l) => l,
        Option::None => {
            return 0;
        },
    };
    if l > 0 {
        proof {
            assert(u as u128 * (PERCENT_SCALE as u128) <= u64::MAX as u128 * 100_000u128)
                by (nonlinear_arith)
                requires
                    u <= u64::MAX,
                    PERCENT_SCALE == 100_000u64,
            ;
        }
        let q = u as u128 * (PERCENT_SCALE as u128) / (l as u128);
        if q > u32::MAX as u128 {
            u32::MAX
        } else {
            q as u32
        }
    } else {
        0
    }
}

/// One exponential-moving-average step with smoothing factor 3/10:
/// `(3·x + 7·prev) / 10`, in integer (floor) division.
pub open spec fn spec_ema(prev: int, x: int) -> int {
    (3 * x + 7 * prev) / 10
}

/// The smoothed value of a sample given the previous smoothed value, if
/// any: the first sample passes through unsmoothed.
pub open spec fn spec_smoothed(prev: Option<u32>, x: u32) -> int {
    match prev {
        Some(p) => spec_ema(p as int, x as int),
        None => x as int,
    }
}

/// One smoothing step over milli-percent values.
pub fn ema_step(prev: u32, x: u32) -> (r: u32)
    ensures
        r as int == spec_ema(prev as int, x as int),
{
    ((3u64 * (x as u64) + 7u64 * (prev as u64)) / 10u64) as u32
}

/// The exponential moving average of the first `k + 1` samples of a
/// series: the first sample itself, then each sample folded in with factor
/// 3/10.
pub open spec fn spec_ema_series(xs: Seq<int>, k: int) -> int
    decreases k,
{
    if k <= 0 {
        xs[0]
    } else {
        spec_ema(spec_ema_series(xs, k - 1), xs[k])
    }
}

/// The law of the smoothed series: the first smoothed value is the first
/// sample, and every later one is `(3·xₖ + 7·smoothed₍ₖ₋₁₎) / 10`.
pub proof fn lemma_ema_law(xs: Seq<int>, k: int)
    requires
        0 <= k < xs.len(),
    ensures
        spec_ema_series(xs, 0) == xs[0],
        k > 0 ==> spec_ema_series(xs, k) == (3 * xs[k] + 7 * spec_ema_series(xs, k - 1)) / 10,
{
}

/// A prefix of a series smooths the same way whether or not more samples
/// follow.
proof fn lemma_ema_series_prefix(xs: Seq<int>, v: int, k: int)
    requires
        0 <= k < xs.len(),
    ensures
        spec_ema_series(xs.push(v), k) == spec_ema_series(xs, k),
    decreases k,
{
    if k > 0 {
        lemma_ema_series_prefix(xs, v, k - 1);
    }
}

/// The per-container smoothing state: the previous smoothed CPU and memory
/// values, with the (ghost) series of raw samples seen so far. It lives
/// inside one stat-streaming task and dies with it, so a restarted stream
/// starts smoothing afresh.
pub struct Smoother {
    pub prev_cpu: Option<u32>,
    pub prev_memory: Option<u32>,
    /// Every raw CPU sample fed in, oldest first.
    pub cpu_samples: Ghost<Seq<int>>,
    /// Every raw memory sample fed in, oldest first.
    pub memory_samples: Ghost<Seq<int>>,
}

impl Smoother {
    /// The held values are exactly the exponential moving averages of the
    /// samples seen so far.
    pub open spec fn wf(self) -> bool {
        &&& match self.prev_cpu {
            Some(p) => self.cpu_samples@.len() > 0 && p as int == spec_ema_series(
                self.cpu_samples@,
                self.cpu_samples@.len() - 1,
            ),
            None => self.cpu_samples@.len() == 0,
        }
        &&& match self.prev_memory {
            Some(p) => self.memory_samples@.len() > 0 && p as int == spec_ema_series(
                self.memory_samples@,
                self.memory_samples@.len() - 1,
            ),
            None => self.memory_samples@.len() == 0,
        }
    }

    /// Fresh state: no sample seen yet.
    pub fn new() -> (r: Smoother)
        ensures
            r.wf(),
            r.prev_cpu is None,
            r.prev_memory is None,
            r.cpu_samples@.len() == 0,
            r.memory_samples@.len() == 0,
    {
        Smoother {
            prev_cpu: Option::None,
            prev_memory: Option::None,
            cpu_samples: Ghost(Seq::empty()),
            memory_samples: Ghost(Seq::empty()),
        }
    }

    /// Feed one raw sample (CPU and memory in milli-percent); the result
    /// is the smoothed pair, which also becomes the new state. Each
    /// returned value is exactly the exponential moving average of every
    /// sample seen so far: the first sample unsmoothed, each later one
    /// folded in as `(3·x + 7·previous) / 10`.
    pub fn observe(&mut self, cpu: u32, memory: u32) -> (r: (u32, u32))
        requires
            old(self).wf(),
        ensures
            final(self).wf(),
            final(self).cpu_samples@ == old(self).cpu_samples@.push(cpu as int),
            final(self).memory_samples@ == old(self).memory_samples@.push(memory as int),
            r.0 as int == spec_ema_series(
                final(self).cpu_samples@,
                final(self).cpu_samples@.len() - 1,
            ),
            r.1 as int == spec_ema_series(
                final(self).memory_samples@,
                final(self).memory_samples@.len() - 1,
            ),
            r.0 as int == spec_smoothed(old(self).prev_cpu, cpu),
            r.1 as int == spec_smoothed(old(self).prev_memory, memory),
            final(self).prev_cpu == Some(r.0),
            final(self).prev_memory == Some(r.1),
    {
        let smoothed_cpu = match self.prev_cpu {
            Option::Some(p) => ema_step(p, cpu),
            Option::None => cpu,
        };
        let smoothed_memory = match self.prev_memory {
            Option::Some(p) => ema_step(p, memory),
            Option::None => memory,
        };
        proof {
            if self.cpu_samples@.len() > 0 {
                lemma_ema_series_prefix(
                    self.cpu_samples@,
                    cpu as int,
                    self.cpu_samples@.len() - 1,
                );
            }
            if self.memory_samples@.len() > 0 {
                lemma_ema_series_prefix(
                    self.memory_samples@,
                    memory as int,
                    self.memory_samples@.len() - 1,
                );
            }
        }
        self.cpu_samples = Ghost(self.cpu_samples@.push(cpu as int));
        self.memory_samples = Ghost(self.memory_samples@.push(memory as int));
        self.prev_cpu = Option::Some(smoothed_cpu);
        self.prev_memory = Option::Some(smoothed_memory);
        (smoothed_cpu, smoothed_memory)
    }
}

} // verus!
