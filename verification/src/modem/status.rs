//! Modem counters and status tracking.
//!
//! Counts transmitted frames, forwarded frames and failed transmissions, and
//! measures the uptime.  All of them, the uptime included, restart from zero
//! at boot and on RESET.

use vstd::prelude::*;

verus! {

/// What the counters hold, as mathematical values.
pub ghost struct CountersView {
    pub tx: u32,
    pub rx: u32,
    pub tx_fail: u32,
    /// Milliseconds after boot at which the counters were last reset.
    pub reset_epoch_ms: u64,
    /// The clock reading, in milliseconds, at boot.
    pub boot_time_ms: u64,
}

/// `a - b`, or zero where `b` is the larger.
pub open spec fn minus_or_zero(a: int, b: int) -> int {
    if a >= b {
        a - b
    } else {
        0
    }
}

/// One more than `n`, wrapping around to zero after the largest `u32`.
pub open spec fn next_count(n: u32) -> u32 {
    if n == u32::MAX {
        0
    } else {
        (n + 1) as u32
    }
}

/// `n` after `more` were counted, modulo 2^32.
pub open spec fn count_after(n: u32, more: nat) -> u32 {
    ((n + more) % 0x1_0000_0000) as u32
}

impl CountersView {
    /// Whole seconds between the last reset and `now_ms`, modulo 2^32.
    pub open spec fn uptime(self, now_ms: u64) -> int {
        let since_boot = minus_or_zero(now_ms as int, self.boot_time_ms as int);
        (minus_or_zero(since_boot, self.reset_epoch_ms as int) / 1000) % 0x1_0000_0000
    }

    /// The counters after `sent` more transmissions.
    pub open spec fn with_sends(self, sent: nat) -> CountersView {
        CountersView { tx: count_after(self.tx, sent), ..self }
    }

    /// The counters after a reset at `now_ms`.
    pub open spec fn after_reset(self, now_ms: u64) -> CountersView {
        CountersView {
            tx: 0,
            rx: 0,
            tx_fail: 0,
            reset_epoch_ms: minus_or_zero(now_ms as int, self.boot_time_ms as int) as u64,
            boot_time_ms: self.boot_time_ms,
        }
    }
}

/// Modem counters.  Clock readings are passed in, in milliseconds.
pub struct ModemCounters {
    tx_count: u32,
    rx_count: u32,
    tx_fail_count: u32,
    reset_epoch_ms: u64,
    boot_time_ms: u64,
}

impl View for ModemCounters {
    type V = CountersView;

    closed spec fn view(&self) -> CountersView {
        CountersView {
            tx: self.tx_count,
            rx: self.rx_count,
            tx_fail: self.tx_fail_count,
            reset_epoch_ms: self.reset_epoch_ms,
            boot_time_ms: self.boot_time_ms,
        }
    }
}

impl ModemCounters {
    /// Counters at boot, for a clock that starts at zero then.
    pub fn new() -> (counters: ModemCounters)
        ensures
            counters@ == (CountersView {
                tx: 0,
                rx: 0,
                tx_fail: 0,
                reset_epoch_ms: 0,
                boot_time_ms: 0,
            }),
    {
        ModemCounters::new_with_boot_time(0)
    }

    /// Counters of a modem that booted when its clock read `boot_time_ms`.
    pub fn new_with_boot_time(boot_time_ms: u64) -> (counters: ModemCounters)
        ensures
            counters@ == (CountersView {
                tx: 0,
                rx: 0,
                tx_fail: 0,
                reset_epoch_ms: 0,
                boot_time_ms,
            }),
    {
        ModemCounters {
            tx_count: 0,
            rx_count: 0,
            tx_fail_count: 0,
            reset_epoch_ms: 0,
            boot_time_ms,
        }
    }

    /// Count one transmitted frame.
    pub fn inc_tx(&mut self)
        ensures
            final(self)@ == (CountersView { tx: next_count(old(self)@.tx), ..old(self)@ }),
    {
        self.tx_count = self.tx_count.wrapping_add(1);
    }

    /// Count `sent` transmitted frames.
    pub(crate) fn add_tx(&mut self, sent: u32)
        ensures
            final(self)@ == old(self)@.with_sends(sent as nat),
    {
        self.tx_count = self.tx_count.wrapping_add(sent);
    }

    /// Count one frame forwarded from the radio to the serial link.
    pub fn inc_rx(&mut self)
        ensures
            final(self)@ == (CountersView { rx: next_count(old(self)@.rx), ..old(self)@ }),
    {
        self.rx_count = self.rx_count.wrapping_add(1);
    }

    /// Count one frame whose delivery failed.
    pub fn inc_tx_fail(&mut self)
        ensures
            final(self)@ == (CountersView { tx_fail: next_count(old(self)@.tx_fail), ..old(self)@ }),
    {
        self.tx_fail_count = self.tx_fail_count.wrapping_add(1);
    }

    /// Frames transmitted since boot or RESET.
    pub fn tx_count(&self) -> (count: u32)
        ensures
            count == self@.tx,
    {
        self.tx_count
    }

    /// Frames forwarded since boot or RESET.
    pub fn rx_count(&self) -> (count: u32)
        ensures
            count == self@.rx,
    {
        self.rx_count
    }

    /// Failed deliveries since boot or RESET.
    pub fn tx_fail_count(&self) -> (count: u32)
        ensures
            count == self@.tx_fail,
    {
        self.tx_fail_count
    }

    /// Whole seconds since boot or the last RESET, at clock reading `now_ms`.
    pub fn uptime_s(&self, now_ms: u64) -> (seconds: u32)
        ensures
            seconds as int == self@.uptime(now_ms),
    {
        let total_ms: u64 = now_ms.saturating_sub(self.boot_time_ms);
        let seconds: u64 = total_ms.saturating_sub(self.reset_epoch_ms) / 1000;
        (seconds % 0x1_0000_0000) as u32
    }

    /// Zero all counters and restart the uptime, at clock reading `now_ms`.
    pub fn reset(&mut self, now_ms: u64)
        ensures
            final(self)@ == old(self)@.after_reset(now_ms),
    {
        self.tx_count = 0;
        self.rx_count = 0;
        self.tx_fail_count = 0;
        self.reset_epoch_ms = now_ms.saturating_sub(self.boot_time_ms);
    }
}

/// Right after a reset, every counter and the uptime read zero.
pub proof fn law_reset_reads_zero(before: CountersView, now_ms: u64)
    ensures
        ({
            let after = before.after_reset(now_ms);
            after.tx == 0 && after.rx == 0 && after.tx_fail == 0 && after.uptime(now_ms) == 0
        }),
{
}

/// After a reset at `reset_ms`, the uptime at any later time counts from the
/// reset, whatever was counted before (below 2^32 seconds).
pub proof fn law_uptime_counts_from_reset(before: CountersView, reset_ms: u64, now_ms: u64)
    requires
        before.boot_time_ms <= reset_ms <= now_ms,
        (now_ms - reset_ms) / 1000 < 0x1_0000_0000,
    ensures
        before.after_reset(reset_ms).uptime(now_ms) == (now_ms - reset_ms) / 1000,
{
}

/// The uptime is the whole seconds that have passed since the counters were last
/// reset, or since boot; a clock that is behind that counts as not having moved.
pub proof fn law_uptime_is_in_whole_seconds(counters: CountersView, now_ms: u64)
    requires
        counters.boot_time_ms + counters.reset_epoch_ms <= now_ms,
        now_ms - counters.boot_time_ms - counters.reset_epoch_ms < 0x1_0000_0000 * 1000,
    ensures
        1000 * counters.uptime(now_ms) <= now_ms - counters.boot_time_ms - counters.reset_epoch_ms,
        now_ms - counters.boot_time_ms - counters.reset_epoch_ms < 1000 * (counters.uptime(now_ms)
            + 1),
{
}

/// A clock that is behind the last reset gives no uptime.
pub proof fn law_uptime_is_never_negative(counters: CountersView, now_ms: u64)
    requires
        now_ms <= counters.boot_time_ms + counters.reset_epoch_ms,
    ensures
        counters.uptime(now_ms) == 0,
{
}

/// Counting goes up by one, or by as many as were counted, and starts over after
/// the largest number; nothing else changes.
pub proof fn law_counters_go_up(counters: CountersView, n: u32, more: nat)
    ensures
        n < u32::MAX ==> next_count(n) == n + 1,
        n == u32::MAX ==> next_count(n) == 0,
        n + more <= u32::MAX ==> count_after(n, more) == n + more,
        count_after(n, 1) == next_count(n),
        (n + more - count_after(n, more)) % 0x1_0000_0000 == 0,
        counters.with_sends(more).tx == count_after(counters.tx, more),
        counters.with_sends(more) == (CountersView {
            tx: counters.with_sends(more).tx,
            ..counters
        }),
{
}

/// A reset keeps the boot time and notes when it took place.
pub proof fn law_reset_keeps_boot_time(counters: CountersView, now_ms: u64)
    ensures
        counters.after_reset(now_ms).boot_time_ms == counters.boot_time_ms,
        now_ms >= counters.boot_time_ms ==> counters.after_reset(now_ms).reset_epoch_ms == now_ms
            - counters.boot_time_ms,
{
}

} // verus!
