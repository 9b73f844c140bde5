//! How long the node sleeps until its next wake cycle.

use vstd::prelude::*;

verus! {

/// Shortest sleep in seconds.
pub const MIN_SLEEP_S: u32 = 1;

/// Why the node woke up.
#[derive(Clone, Copy, Debug, PartialEq, Eq, Structural)]
pub enum WakeReason {
    /// The wake interval has passed.
    Scheduled,
    /// A program asked for an early wake.
    Early,
}

/// Decides the duration of the next sleep.
#[derive(Clone, Copy, Debug, PartialEq, Eq, Structural)]
pub struct SleepManager {
    /// The wake interval that the gateway has set, in seconds.
    pub base_interval_s: u32,
    /// Why the node woke up.
    pub wake_reason: WakeReason,
    /// The sleep that a program asked for, in seconds.
    pub next_wake_s: Option<u32>,
}

impl SleepManager {
    /// The sleep before the lower bound is applied: what a program asked for,
    /// but never more than the base interval.
    pub open spec fn wanted_s(self) -> u32 {
        match self.next_wake_s {
            Some(s) => if s < self.base_interval_s {
                s
            } else {
                self.base_interval_s
            },
            None => self.base_interval_s,
        }
    }

    /// The duration of the next sleep.
    pub open spec fn sleep_s(self) -> u32 {
        if self.wanted_s() < MIN_SLEEP_S {
            MIN_SLEEP_S
        } else {
            self.wanted_s()
        }
    }

    /// No early wake is requested at first.
    pub fn new(base_interval_s: u32, wake_reason: WakeReason) -> (manager: SleepManager)
        ensures
            manager == (SleepManager { base_interval_s, wake_reason, next_wake_s: None }),
    {
        SleepManager { base_interval_s, wake_reason, next_wake_s: None }
    }

    /// A program asks to be woken after `seconds`.
    pub fn set_next_wake(&mut self, seconds: u32)
        ensures
            *final(self) == (SleepManager { next_wake_s: Some(seconds), ..*old(self) }),
    {
        self.next_wake_s = Some(seconds);
    }

    /// The duration of the next sleep in seconds.
    pub fn effective_sleep_s(&self) -> (seconds: u32)
        ensures
            seconds == self.sleep_s(),
    {
        let mut seconds: u32 = self.base_interval_s;
        if let Some(s) = self.next_wake_s {
            if s < seconds {
                seconds = s;
            }
        }
        if seconds < MIN_SLEEP_S {
            MIN_SLEEP_S
        } else {
            seconds
        }
    }

    /// Whether a program asked for a sleep shorter than the base interval.
    pub fn will_wake_early(&self) -> (early: bool)
        ensures
            early == (self.next_wake_s matches Some(s) && s < self.base_interval_s),
    {
        match self.next_wake_s {
            Some(s) => s < self.base_interval_s,
            None => false,
        }
    }
}

/// A program can shorten the sleep but never extend it beyond the base
/// interval, and the node always sleeps for at least a second.
pub proof fn law_sleep_is_bounded(manager: SleepManager)
    ensures
        manager.sleep_s() >= MIN_SLEEP_S,
        manager.base_interval_s >= MIN_SLEEP_S ==> manager.sleep_s() <= manager.base_interval_s,
{
}

/// The sleep lasts as long as a program asked for, if that is less than the base
/// interval, else for the base interval; only a sleep of no time is made a
/// second.
pub proof fn law_programs_shorten_the_sleep(manager: SleepManager, seconds: u32)
    ensures
        manager.next_wake_s is None && manager.base_interval_s >= 1 ==> manager.sleep_s()
            == manager.base_interval_s,
        manager.next_wake_s == Some(seconds) && 1 <= seconds <= manager.base_interval_s
            ==> manager.sleep_s() == seconds,
        manager.next_wake_s == Some(seconds) && seconds > manager.base_interval_s >= 1
            ==> manager.sleep_s() == manager.base_interval_s,
        manager.base_interval_s == 0 || manager.next_wake_s == Some(0u32) ==> manager.sleep_s()
            == 1,
{
}

} // verus!
