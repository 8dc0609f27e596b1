//! The adaptive performance governor.
//!
//! The engine measures the wall-clock cost of its recent ticks (the
//! host supplies the measurements) and keeps the average of a sliding
//! window.  Once at least five samples exist, the average selects one
//! of four modes via fixed microsecond thresholds, and each mode maps
//! to a minimum interval between executed ticks.  A tick that comes
//! sooner than the interval is shed entirely.

use vstd::prelude::*;

verus! {

/// How many samples the sliding window keeps.
pub const SAMPLE_WINDOW: usize = 10;

/// How many samples must exist before the governor adapts.
pub const MIN_SAMPLES: usize = 5;

/// The governor's modes, from healthy to overloaded.
#[derive(Clone, Copy, Debug, PartialEq, Eq, Structural)]
pub enum PerformanceMode {
    /// Average tick cost at most 10 ms.
    Normal,
    /// Average tick cost above 10 ms.
    Reduced,
    /// Average tick cost above 16 ms.
    Minimal,
    /// Average tick cost above 25 ms.
    Critical,
}

/// The mode selected for an average tick cost in microseconds.
pub open spec fn spec_mode_for_avg_us(avg_us: u64) -> PerformanceMode {
    if avg_us > 25_000 {
        PerformanceMode::Critical
    } else if avg_us > 16_000 {
        PerformanceMode::Minimal
    } else if avg_us > 10_000 {
        PerformanceMode::Reduced
    } else {
        PerformanceMode::Normal
    }
}

/// The mode selected for an average tick cost in microseconds.
pub fn mode_for_avg_us(avg_us: u64) -> (r: PerformanceMode)
    ensures
        r == spec_mode_for_avg_us(avg_us),
{
    if avg_us > 25_000 {
        PerformanceMode::Critical
    } else if avg_us > 16_000 {
        PerformanceMode::Minimal
    } else if avg_us > 10_000 {
        PerformanceMode::Reduced
    } else {
        PerformanceMode::Normal
    }
}

/// The minimum inter-tick interval of a mode, in milliseconds.
pub open spec fn spec_interval_ms_for(mode: PerformanceMode) -> i64 {
    match mode {
        PerformanceMode::Normal => 100,
        PerformanceMode::Reduced => 200,
        PerformanceMode::Minimal => 400,
        PerformanceMode::Critical => 750,
    }
}

/// The minimum inter-tick interval of a mode, in milliseconds.
pub fn interval_ms_for(mode: PerformanceMode) -> (r: i64)
    ensures
        r == spec_interval_ms_for(mode),
{
    match mode {
        PerformanceMode::Normal => 100,
        PerformanceMode::Reduced => 200,
        PerformanceMode::Minimal => 400,
        PerformanceMode::Critical => 750,
    }
}

/// The sum of a sample window.
pub open spec fn spec_sum(s: Seq<u64>) -> int
    decreases s.len(),
{
    if s.len() == 0 {
        0
    } else {
        spec_sum(s.drop_last()) + s.last()
    }
}

/// The average of a sample window, rounded down.
pub open spec fn spec_avg(s: Seq<u64>) -> int {
    spec_sum(s) / (s.len() as int)
}

/// The average of the sample window, rounded down.
pub fn average_us(times: &Vec<u64>) -> (r: u64)
    requires
        times@.len() >= 1,
    ensures
        r == spec_avg(times@),
{
    let n = times.len();
    let mut acc: u128 = 0;
    let mut i: usize = 0;
    while i < n
        invariant
            i <= n,
            n == times@.len(),
            acc == spec_sum(times@.take(i as int)),
            acc <= (i as int) * (u64::MAX as int),
        decreases n - i,
    {
        proof {
            assert(times@.take(i + 1).drop_last() =~= times@.take(i as int));
            assert(times@.take(i + 1).last() == times@[i as int]);
        }
        acc = acc + (times[i] as u128);
        i = i + 1;
    }
    proof {
        assert(times@.take(n as int) =~= times@);
        vstd::arithmetic::div_mod::lemma_div_is_ordered(
            acc as int,
            (n as int) * (u64::MAX as int),
            n as int,
        );
        vstd::arithmetic::div_mod::lemma_div_multiples_vanish(u64::MAX as int, n as int);
    }
    (acc / (n as u128)) as u64
}

/// Append a sample to the window, shedding the oldest once the window
/// is full.
pub fn push_sample(times: &mut Vec<u64>, sample_us: u64)
    ensures
        final(times)@ == if old(times)@.len() < SAMPLE_WINDOW {
            old(times)@.push(sample_us)
        } else {
            old(times)@.push(sample_us).subrange(1, old(times)@.len() as int + 1)
        },
        final(times)@.len() <= old(times)@.len() as int + 1,
{
    times.push(sample_us);
    if times.len() > SAMPLE_WINDOW {
        times.remove(0);
        proof {
            assert(times@ =~= old(times)@.push(sample_us).subrange(
                1,
                old(times)@.len() as int + 1,
            ));
        }
    }
}

} // verus!
