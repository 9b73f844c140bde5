//! Modem counters and uptime.

use sonde::modem::status::ModemCounters;

#[test]
fn initial_values_are_zero() {
    let c = ModemCounters::new();
    assert_eq!(c.tx_count(), 0);
    assert_eq!(c.rx_count(), 0);
    assert_eq!(c.tx_fail_count(), 0);
}

#[test]
fn inc_tx_increments() {
    let mut c = ModemCounters::new();
    c.inc_tx();
    c.inc_tx();
    c.inc_tx();
    assert_eq!(c.tx_count(), 3);
}

#[test]
fn inc_rx_increments() {
    let mut c = ModemCounters::new();
    c.inc_rx();
    c.inc_rx();
    assert_eq!(c.rx_count(), 2);
}

#[test]
fn inc_tx_fail_increments() {
    let mut c = ModemCounters::new();
    c.inc_tx_fail();
    assert_eq!(c.tx_fail_count(), 1);
}

#[test]
fn counters_are_independent() {
    let mut c = ModemCounters::new();
    c.inc_tx();
    c.inc_tx();
    c.inc_rx();
    c.inc_tx_fail();
    c.inc_tx_fail();
    c.inc_tx_fail();
    assert_eq!(c.tx_count(), 2);
    assert_eq!(c.rx_count(), 1);
    assert_eq!(c.tx_fail_count(), 3);
}

#[test]
fn reset_zeroes_all_counters() {
    let mut c = ModemCounters::new();
    c.inc_tx();
    c.inc_rx();
    c.inc_tx_fail();
    c.reset(0);
    assert_eq!(c.tx_count(), 0);
    assert_eq!(c.rx_count(), 0);
    assert_eq!(c.tx_fail_count(), 0);
}

#[test]
fn uptime_near_zero_at_boot() {
    let c = ModemCounters::new();
    assert_eq!(c.uptime_s(0), 0);
}

#[test]
fn uptime_reflects_elapsed_time() {
    // The boot lies five seconds back.
    let now_ms = 60_000;
    let boot_ms = now_ms - 5_000;
    let c = ModemCounters::new_with_boot_time(boot_ms);
    let uptime = c.uptime_s(now_ms);
    assert!((4..=6).contains(&uptime), "expected ~5s, got {}", uptime);
    assert_eq!(uptime, 5);
}

#[test]
fn uptime_resets_on_reset() {
    let now_ms = 60_000;
    let boot_ms = now_ms - 5_000;
    let mut c = ModemCounters::new_with_boot_time(boot_ms);
    assert!(c.uptime_s(now_ms) >= 4);
    c.reset(now_ms);
    assert_eq!(c.uptime_s(now_ms), 0);
}

#[test]
fn counters_work_after_reset() {
    let mut c = ModemCounters::new();
    c.inc_tx();
    c.inc_rx();
    c.reset(0);
    c.inc_tx();
    c.inc_tx();
    c.inc_tx_fail();
    assert_eq!(c.tx_count(), 2);
    assert_eq!(c.rx_count(), 0);
    assert_eq!(c.tx_fail_count(), 1);
}

#[test]
fn uptime_counts_whole_seconds_from_the_last_reset() {
    let mut c = ModemCounters::new_with_boot_time(1_000);
    c.reset(11_500);
    assert_eq!(c.uptime_s(12_499), 0);
    assert_eq!(c.uptime_s(12_500), 1);
    assert_eq!(c.uptime_s(71_500), 60);
}

#[test]
fn uptime_before_boot_is_zero() {
    let c = ModemCounters::new_with_boot_time(10_000);
    assert_eq!(c.uptime_s(9_000), 0);
}
