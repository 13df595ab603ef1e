//! Aggregate network throughput over all interfaces.

use vstd::prelude::*;
use crate::rate::{Rate, RateSampler, rate_of};

verus! {

/// `n`, or `u64::MAX` where `n` is larger.
pub open spec fn capped(n: nat) -> u64 {
    if n > u64::MAX {
        u64::MAX
    } else {
        n as u64
    }
}

/// The sum of the received-byte counters (first components) in `c`.
pub open spec fn sum_received(c: Seq<(u64, u64)>) -> nat
    decreases c.len(),
{
    if c.len() == 0 {
        0
    } else {
        (sum_received(c.drop_last()) + c.last().0) as nat
    }
}

/// The sum of the transmitted-byte counters (second components) in `c`.
pub open spec fn sum_transmitted(c: Seq<(u64, u64)>) -> nat
    decreases c.len(),
{
    if c.len() == 0 {
        0
    } else {
        (sum_transmitted(c.drop_last()) + c.last().1) as nat
    }
}

/// The received and transmitted byte counters of all interfaces summed,
/// each sum capped at `u64::MAX`.
pub fn total_counters(counters: &Vec<(u64, u64)>) -> (r: (u64, u64))
    ensures
        r.0 == capped(sum_received(counters@)),
        r.1 == capped(sum_transmitted(counters@)),
{
    let mut rx: u64 = 0;
    let mut tx: u64 = 0;
    let mut i: usize = 0;
    while i < counters.len()
        invariant
            i <= counters@.len(),
            rx == capped(sum_received(counters@.take(i as int))),
            tx == capped(sum_transmitted(counters@.take(i as int))),
        decreases counters@.len() - i,
    {
        let (r, t) = counters[i];
        assert(counters@.take(i + 1).drop_last() =~= counters@.take(i as int));
        rx = rx.saturating_add(r);
        tx = tx.saturating_add(t);
        i = i + 1;
    }
    assert(counters@.take(counters@.len() as int) =~= counters@);
    (rx, tx)
}

/// Download and upload rates over all interfaces together.
pub struct NetworkMonitor {
    pub rx: RateSampler,
    pub tx: RateSampler,
    /// Current download rate.
    pub network_rx_rate: Rate,
    /// Current upload rate.
    pub network_tx_rate: Rate,
}

impl NetworkMonitor {
    /// A monitor with no readings yet and zero rates.
    pub fn new() -> (r: NetworkMonitor)
        ensures
            r.rx.previous is None,
            r.tx.previous is None,
            r.network_rx_rate == Rate::zero_spec(),
            r.network_tx_rate == Rate::zero_spec(),
    {
        NetworkMonitor {
            rx: RateSampler::new(),
            tx: RateSampler::new(),
            network_rx_rate: Rate::zero(),
            network_tx_rate: Rate::zero(),
        }
    }

    /// Takes the byte counters `(received, transmitted)` of every interface,
    /// read at `now_ms`, and updates both rates from their sums, each
    /// direction on its own.
    pub fn update(&mut self, counters: &Vec<(u64, u64)>, now_ms: u64)
        ensures
            final(self).network_rx_rate == rate_of(
                old(self).rx.previous,
                capped(sum_received(counters@)),
                now_ms,
            ),
            final(self).network_tx_rate == rate_of(
                old(self).tx.previous,
                capped(sum_transmitted(counters@)),
                now_ms,
            ),
            final(self).rx.previous matches Some(b) && b.value == capped(sum_received(counters@))
                && b.at_ms == now_ms,
            final(self).tx.previous matches Some(b) && b.value == capped(
                sum_transmitted(counters@),
            ) && b.at_ms == now_ms,
    {
        let (total_rx, total_tx) = total_counters(counters);
        self.network_rx_rate = self.rx.sample(total_rx, now_ms);
        self.network_tx_rate = self.tx.sample(total_tx, now_ms);
    }
}

} // verus!
