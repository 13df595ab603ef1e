//! Rates of monotonic counters, with counter-reset detection.

use vstd::prelude::*;

verus! {

/// A rate: `delta` units over `elapsed_ms` milliseconds.
///
/// The pair is kept as it is, so the rate is exact; `per_second` rounds it.
#[derive(Clone, Copy, Debug, PartialEq, Eq, Structural)]
pub struct Rate {
    pub delta: u64,
    pub elapsed_ms: u64,
}

impl Rate {
    /// No movement over no time.
    pub open spec fn zero_spec() -> Rate {
        Rate { delta: 0, elapsed_ms: 0 }
    }

    /// No movement over no time.
    pub fn zero() -> (r: Rate)
        ensures
            r == Rate::zero_spec(),
    {
        Rate { delta: 0, elapsed_ms: 0 }
    }

    /// Units per second, rounded down; `0` over an empty interval.
    pub fn per_second(&self) -> (r: u128)
        ensures
            self.elapsed_ms == 0 ==> r == 0,
            self.elapsed_ms > 0 ==> r == (self.delta * 1000) / (self.elapsed_ms as int),
    {
        if self.elapsed_ms == 0 {
            0
        } else {
            (self.delta as u128 * 1000) / self.elapsed_ms as u128
        }
    }
}

/// The last value and time (in milliseconds) seen of one counter.
#[derive(Clone, Copy, Debug, PartialEq, Eq, Structural)]
pub struct Baseline {
    pub value: u64,
    pub at_ms: u64,
}

/// What a sample of `current` at `now_ms` yields against `previous`: the
/// increase over the time since the previous sample, or a zero rate where there
/// is no previous sample, the counter went down, or no time has passed.
pub open spec fn rate_of(previous: Option<Baseline>, current: u64, now_ms: u64) -> Rate {
    match previous {
        Some(b) => if current >= b.value && now_ms > b.at_ms {
            Rate { delta: (current - b.value) as u64, elapsed_ms: (now_ms - b.at_ms) as u64 }
        } else {
            Rate { delta: 0, elapsed_ms: 0 }
        },
        None => Rate { delta: 0, elapsed_ms: 0 },
    }
}

/// Turns successive readings of one cumulative counter into rates.
pub struct RateSampler {
    pub previous: Option<Baseline>,
}

impl RateSampler {
    /// A sampler that has seen nothing yet.
    pub fn new() -> (r: RateSampler)
        ensures
            r.previous is None,
    {
        RateSampler { previous: None }
    }

    /// Records `current` read at `now_ms` and returns the rate since the
    /// previous reading; the reading becomes the new baseline in every case.
    pub fn sample(&mut self, current: u64, now_ms: u64) -> (r: Rate)
        ensures
            r == rate_of(old(self).previous, current, now_ms),
            final(self).previous == Some(Baseline { value: current, at_ms: now_ms }),
    {
        let r = match self.previous {
            Some(b) => if current >= b.value && now_ms > b.at_ms {
                Rate { delta: current - b.value, elapsed_ms: now_ms - b.at_ms }
            } else {
                Rate::zero()
            },
            None => Rate::zero(),
        };
        self.previous = Some(Baseline { value: current, at_ms: now_ms });
        r
    }
}

/// A counter that did not go down yields exactly its increase over the time
/// elapsed since the previous reading.
pub proof fn lemma_rate_is_increase_over_elapsed(b: Baseline, current: u64, now_ms: u64)
    requires
        current >= b.value,
        now_ms > b.at_ms,
    ensures
        rate_of(Some(b), current, now_ms).delta == current - b.value,
        rate_of(Some(b), current, now_ms).elapsed_ms == now_ms - b.at_ms,
{
}

/// A counter that went down yields a zero rate, and the sampler keeps the new
/// reading as its baseline.
pub proof fn lemma_reset_yields_zero(s: RateSampler, b: Baseline, current: u64, now_ms: u64)
    requires
        s.previous == Some(b),
        current < b.value,
    ensures
        rate_of(s.previous, current, now_ms).delta == 0,
        rate_of(s.previous, current, now_ms) == Rate::zero_spec(),
{
}

/// The first reading of a counter yields a zero rate.
pub proof fn lemma_first_sample_is_zero(current: u64, now_ms: u64)
    ensures
        rate_of(None, current, now_ms).delta == 0,
        rate_of(None, current, now_ms) == Rate::zero_spec(),
{
}

} // verus!
