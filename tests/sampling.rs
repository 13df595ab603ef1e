use cosmic_monitor::network::{total_counters, NetworkMonitor};
use cosmic_monitor::rate::{Rate, RateSampler};
use cosmic_monitor::usage::percent_hundredths;

#[test]
fn rate_is_increase_over_elapsed() {
    let mut s = RateSampler::new();
    s.sample(1_000, 0);
    let r = s.sample(3_000, 2_000);
    assert_eq!(r, Rate { delta: 2_000, elapsed_ms: 2_000 });
    assert_eq!(r.per_second(), 1_000);
}

#[test]
fn counter_reset_yields_zero_and_new_baseline() {
    let mut s = RateSampler::new();
    s.sample(5_000, 0);
    let r = s.sample(100, 1_000);
    assert_eq!(r.delta, 0);
    assert_eq!(r.per_second(), 0);
    let r = s.sample(600, 2_000);
    assert_eq!(r, Rate { delta: 500, elapsed_ms: 1_000 });
}

#[test]
fn first_sample_yields_zero() {
    let mut s = RateSampler::new();
    let r = s.sample(123_456, 99);
    assert_eq!(r.delta, 0);
    assert_eq!(r.per_second(), 0);
}

#[test]
fn no_elapsed_time_yields_zero() {
    let mut s = RateSampler::new();
    s.sample(10, 5);
    assert_eq!(s.sample(20, 5).per_second(), 0);
}

#[test]
fn per_second_rounds_down() {
    assert_eq!(Rate { delta: 10, elapsed_ms: 3_000 }.per_second(), 3);
    assert_eq!(Rate { delta: 1, elapsed_ms: 1 }.per_second(), 1_000);
    assert_eq!(Rate::zero().per_second(), 0);
}

#[test]
fn counters_are_summed_over_all_interfaces() {
    assert_eq!(total_counters(&vec![(100, 10), (200, 20), (0, 5)]), (300, 35));
    assert_eq!(total_counters(&vec![]), (0, 0));
    assert_eq!(total_counters(&vec![(u64::MAX, 1), (1, 1)]), (u64::MAX, 2));
}

#[test]
fn network_rates_follow_each_direction() {
    let mut m = NetworkMonitor::new();
    m.update(&vec![(100, 10), (200, 20)], 0);
    assert_eq!(m.network_rx_rate.per_second(), 0);
    m.update(&vec![(400, 40), (500, 60)], 1_000);
    assert_eq!(m.network_rx_rate, Rate { delta: 600, elapsed_ms: 1_000 });
    assert_eq!(m.network_tx_rate, Rate { delta: 70, elapsed_ms: 1_000 });
    m.update(&vec![(10, 200)], 2_000);
    assert_eq!(m.network_rx_rate.per_second(), 0);
    assert_eq!(m.network_tx_rate, Rate { delta: 100, elapsed_ms: 1_000 });
}

#[test]
fn usage_is_zero_when_total_is_zero() {
    assert_eq!(percent_hundredths(0, 0), 0);
    assert_eq!(percent_hundredths(5, 0), 0);
}

#[test]
fn usage_in_hundredths_of_percent() {
    assert_eq!(percent_hundredths(1, 4), 2_500);
    assert_eq!(percent_hundredths(1, 3), 3_333);
    assert_eq!(percent_hundredths(8, 8), 10_000);
}
