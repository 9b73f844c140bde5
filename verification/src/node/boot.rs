//! Boot decisions: what the node does after a reset.

use vstd::prelude::*;
use vstd::string::*;

use crate::node::error::NodeResult;
use crate::node::key_store::{
    factory_reset, factory_state, law_factory_reset_erases_everything, maps_after_reset, reset_ops,
    was_factory_reset,
};
use crate::node::map_storage::{MapContents, MapStorage, MapsView};
use crate::node::script::{
    after_all, lemma_all_succeeded, lemma_ran_nothing, lemma_ran_push, ops_of, outcome, ran,
    regardless, until_failure, Step,
};
use crate::node::sleep::{SleepManager, WakeReason, MIN_SLEEP_S};
use crate::node::test_mode::{error_outcome, execution_error_result};
use crate::node::traits::{keeps_promises, PlatformStorage, StorageOp, Stored};
use crate::node::types::{TestOutcome, TestStatus};
use crate::text::{decimal_text, push_decimal};

verus! {

/// What the node does after a boot, storage permitting.
#[derive(Clone, Copy, Debug, PartialEq, Eq, Structural)]
pub enum BootMode {
    PreProvisioningTest,
    BlePairing,
    WakeCycle,
}

/// Why the node was reset.
#[derive(Clone, Copy, Debug, PartialEq, Eq, Structural)]
pub enum BootResetReason {
    DeepSleepWake,
    SoftwareReset,
    PowerOn,
    Brownout,
    Other,
}

/// What the node does after a boot.
#[derive(Clone, Copy, Debug, PartialEq, Eq, Structural)]
pub enum BootAction {
    PreProvisioningTest,
    BlePairing,
    WakeCycle,
    /// Sleep without radio activity, to recover from a brownout.
    BrownoutRecoverySleep { seconds: u32 },
}

/// The mode for a node with or without a staged test and a key.
pub open spec fn mode_for(has_staged_test: bool, has_psk: bool) -> BootMode {
    if has_psk {
        BootMode::WakeCycle
    } else if has_staged_test {
        BootMode::PreProvisioningTest
    } else {
        BootMode::BlePairing
    }
}

/// Select the boot mode: a staged test comes first, but only on an unpaired
/// node.
pub fn select_boot_mode(has_staged_test: bool, has_psk: bool) -> (mode: BootMode)
    ensures
        mode == mode_for(has_staged_test, has_psk),
{
    if has_staged_test && !has_psk {
        BootMode::PreProvisioningTest
    } else if !has_psk {
        BootMode::BlePairing
    } else {
        BootMode::WakeCycle
    }
}

/// The label of a reset reason.
pub open spec fn reason_label(reason: BootResetReason) -> &'static str {
    match reason {
        BootResetReason::DeepSleepWake => "deep_sleep_wake",
        BootResetReason::SoftwareReset => "software_reset",
        BootResetReason::PowerOn => "power_on",
        BootResetReason::Brownout => "brownout",
        BootResetReason::Other => "other_reset",
    }
}

/// The label of a reset reason, for log lines.
pub fn boot_reason_label(reset_reason: BootResetReason) -> (label: &'static str)
    ensures
        label == reason_label(reset_reason),
{
    match reset_reason {
        BootResetReason::DeepSleepWake => "deep_sleep_wake",
        BootResetReason::SoftwareReset => "software_reset",
        BootResetReason::PowerOn => "power_on",
        BootResetReason::Brownout => "brownout",
        BootResetReason::Other => "other_reset",
    }
}

/// Whether a paired node sleeps first after this reset.
pub fn should_enter_brownout_recovery(reset_reason: BootResetReason, boot_mode: BootMode) -> (enter:
    bool)
    ensures
        enter == (reset_reason == BootResetReason::Brownout && boot_mode == BootMode::WakeCycle),
{
    reset_reason == BootResetReason::Brownout && boot_mode == BootMode::WakeCycle
}

/// How long a brownout recovery lasts: the base interval, but at least the
/// shortest sleep.
pub open spec fn recovery_sleep_s(base_interval_s: u32) -> u32 {
    if base_interval_s < MIN_SLEEP_S {
        MIN_SLEEP_S
    } else {
        base_interval_s
    }
}

/// How long a brownout recovery lasts.
pub fn brownout_recovery_sleep_s(base_interval_s: u32) -> (seconds: u32)
    ensures
        seconds == recovery_sleep_s(base_interval_s),
{
    SleepManager::new(base_interval_s, WakeReason::Scheduled).effective_sleep_s()
}

/// How long a brownout recovery lasts by the stored interval.  A request for
/// an early wake is dropped.
pub fn brownout_recovery_sleep_s_from_storage<S: PlatformStorage>(storage: &mut S) -> (seconds: u32)
    ensures
        S::changed(*old(storage), StorageOp::TakeEarlyWake, *final(storage), Ok(())),
        seconds == recovery_sleep_s(final(storage).holds().interval_s),
{
    let _ = storage.take_early_wake_flag();
    let (base_interval_s, _) = storage.read_schedule();
    brownout_recovery_sleep_s(base_interval_s)
}

/// What selecting the boot action may do.
pub open spec fn action_selected<S: PlatformStorage>(
    pre: S,
    reset_reason: BootResetReason,
    has_staged_test: bool,
    has_psk: bool,
    post: S,
    action: BootAction,
) -> bool {
    let mode = mode_for(has_staged_test, has_psk);
    if reset_reason == BootResetReason::Brownout && mode == BootMode::WakeCycle {
        &&& S::changed(pre, StorageOp::TakeEarlyWake, post, Ok(()))
        &&& action == (BootAction::BrownoutRecoverySleep {
            seconds: recovery_sleep_s(post.holds().interval_s),
        })
    } else {
        &&& post == pre
        &&& action == (match mode {
            BootMode::PreProvisioningTest => BootAction::PreProvisioningTest,
            BootMode::BlePairing => BootAction::BlePairing,
            BootMode::WakeCycle => BootAction::WakeCycle,
        })
    }
}

/// Select the boot action.
pub fn select_boot_action<S: PlatformStorage>(
    reset_reason: BootResetReason,
    has_staged_test: bool,
    has_psk: bool,
    storage: &mut S,
) -> (action: BootAction)
    ensures
        action_selected(
            *old(storage),
            reset_reason,
            has_staged_test,
            has_psk,
            *final(storage),
            action,
        ),
{
    let boot_mode = select_boot_mode(has_staged_test, has_psk);
    if should_enter_brownout_recovery(reset_reason, boot_mode) {
        BootAction::BrownoutRecoverySleep {
            seconds: brownout_recovery_sleep_s_from_storage(storage),
        }
    } else {
        match boot_mode {
            BootMode::PreProvisioningTest => BootAction::PreProvisioningTest,
            BootMode::BlePairing => BootAction::BlePairing,
            BootMode::WakeCycle => BootAction::WakeCycle,
        }
    }
}

/// The log line for the boot reason.
pub fn log_boot_reason(reset_reason: BootResetReason) -> (line: String)
    ensures
        line@ == "boot_reason="@ + reason_label(reset_reason)@ + " (ND-1000)"@,
{
    let mut line = String::from_str("boot_reason=");
    line.append(boot_reason_label(reset_reason));
    line.append(" (ND-1000)");
    line
}

/// The log line for a recovery sleep.
pub fn log_brownout_recovery_sleep(seconds: u32) -> (line: String)
    ensures
        line@ == "entering deep sleep duration_seconds="@ + decimal_text(seconds as nat)
            + " reason=brownout_recovery (ND-1007)"@,
{
    let mut line = String::from_str("entering deep sleep duration_seconds=");
    push_decimal(&mut line, seconds as u64);
    line.append(" reason=brownout_recovery (ND-1007)");
    line
}

/// Number of samples that the pairing button is read for.
pub const BUTTON_SAMPLE_COUNT: u32 = 50;

/// Sampling of the pairing button at boot: it counts as held only if every
/// sample finds it pressed.
#[derive(Clone, Copy, Debug, PartialEq, Eq, Structural)]
pub struct BootButton {
    /// Samples that found the button pressed.
    pub pressed: u32,
}

impl BootButton {
    /// No sample taken yet.
    pub fn new() -> (button: BootButton)
        ensures
            button.pressed == 0,
    {
        BootButton { pressed: 0 }
    }

    /// Take a sample; the input is low while the button is pressed.  Returns
    /// whether the button is held, once that is known.
    pub fn sample(&mut self, high: bool) -> (held: Option<bool>)
        requires
            old(self).pressed < BUTTON_SAMPLE_COUNT,
        ensures
            final(self).pressed == (if high {
                old(self).pressed as int
            } else {
                old(self).pressed + 1
            }),
            held == (if high {
                Some(false)
            } else if final(self).pressed == BUTTON_SAMPLE_COUNT {
                Some(true)
            } else {
                None::<bool>
            }),
    {
        if high {
            return Some(false);
        }
        self.pressed = self.pressed + 1;
        if self.pressed == BUTTON_SAMPLE_COUNT {
            Some(true)
        } else {
            None
        }
    }
}

/// Seconds that the node sleeps after a factory reset that failed.
pub const FAIL_CLOSED_SLEEP_S: u32 = 60;

/// What a boot leads to.
#[derive(Clone, Copy, Debug, PartialEq, Eq, Structural)]
pub enum BootPlan {
    /// The factory reset failed: sleep, and do nothing else.
    FailClosedSleep { seconds: u32 },
    /// Go on with this action.
    Proceed(BootAction),
}

/// Whether a staged test is stored.
pub open spec fn has_staged<S: PlatformStorage>(storage: S) -> bool {
    storage.holds().staged_test is Some
}

/// Whether a staged test is still there after an attempt to clear it.
pub open spec fn still_staged(cleared: NodeResult<()>) -> bool {
    cleared is Err
}

/// What planning a boot may do, once the factory reset is out of the way.
pub open spec fn was_planned<S: PlatformStorage>(
    pre: S,
    reset_reason: BootResetReason,
    has_psk: bool,
    post: S,
    plan: BootPlan,
) -> bool {
    if has_staged(pre) && has_psk {
        exists|mid: S, cleared: NodeResult<()>, action: BootAction| #[trigger]
            S::changed(pre, StorageOp::ClearStagedTest, mid, cleared) && #[trigger]
            action_selected(mid, reset_reason, still_staged(cleared), has_psk, post, action)
                && plan == BootPlan::Proceed(action)
    } else {
        exists|action: BootAction| #[trigger]
            action_selected(pre, reset_reason, has_staged(pre), has_psk, post, action) && plan
                == BootPlan::Proceed(action)
    }
}

/// What forgetting the staged test may do, which completes the reset of a
/// paired node: the node enters pairing mode, or sleeps where even that failed.
pub open spec fn was_unstaged<S: PlatformStorage>(pre: S, post: S, plan: BootPlan) -> bool {
    exists|cleared: NodeResult<()>| #[trigger]
        S::changed(pre, StorageOp::ClearStagedTest, post, cleared) && plan == (if still_staged(
            cleared,
        ) {
            BootPlan::FailClosedSleep { seconds: FAIL_CLOSED_SLEEP_S }
        } else {
            BootPlan::Proceed(BootAction::BlePairing)
        })
}

/// What a boot may do: a paired node whose button is held is reset to factory
/// state and forgets a staged test; on any other paired node a staged test is
/// stale and is cleared.
pub open spec fn was_booted<S: PlatformStorage>(
    pre: S,
    maps: MapsView,
    reset_reason: BootResetReason,
    button_held: bool,
    post: S,
    maps_after: MapsView,
    plan: BootPlan,
) -> bool {
    let paired = pre.holds().key is Some;
    if button_held && paired {
        exists|mid: S, result: NodeResult<()>| #[trigger]
            was_factory_reset(pre, maps, mid, maps_after, result) && match result {
                Ok(_) => was_unstaged(mid, post, plan),
                Err(_) => post == mid && plan == (BootPlan::FailClosedSleep {
                    seconds: FAIL_CLOSED_SLEEP_S,
                }),
            }
    } else {
        maps_after == maps && was_planned(pre, reset_reason, paired, post, plan)
    }
}

/// Decide what a boot leads to.
pub fn plan_boot<S: PlatformStorage>(
    reset_reason: BootResetReason,
    button_held: bool,
    storage: &mut S,
    map_storage: &mut MapStorage,
) -> (plan: BootPlan)
    requires
        old(map_storage)@.wf(),
    ensures
        final(map_storage)@.wf(),
        was_booted(
            *old(storage),
            old(map_storage)@,
            reset_reason,
            button_held,
            *final(storage),
            final(map_storage)@,
            plan,
        ),
{
    let has_psk = storage.read_key().is_some();
    if button_held && has_psk {
        let ghost pre = *storage;
        let ghost maps = map_storage@;
        let result = factory_reset(storage, map_storage);
        assert(was_factory_reset(pre, maps, *storage, map_storage@, result));
        if result.is_err() {
            return BootPlan::FailClosedSleep { seconds: FAIL_CLOSED_SLEEP_S };
        }
        let ghost mid = *storage;
        let cleared = storage.clear_staged_test_command();
        assert(S::changed(mid, StorageOp::ClearStagedTest, *storage, cleared));
        if cleared.is_err() {
            return BootPlan::FailClosedSleep { seconds: FAIL_CLOSED_SLEEP_S };
        }
        return BootPlan::Proceed(BootAction::BlePairing);
    }
    plan_from(reset_reason, has_psk, storage)
}

/// Decide what a boot leads to, once the factory reset is out of the way.
fn plan_from<S: PlatformStorage>(
    reset_reason: BootResetReason,
    has_psk: bool,
    storage: &mut S,
) -> (plan: BootPlan)
    ensures
        was_planned(*old(storage), reset_reason, has_psk, *final(storage), plan),
{
    let ghost pre = *storage;
    let mut has_staged_test = storage.read_staged_test_command().is_some();
    let action;
    if has_staged_test && has_psk {
        let cleared = storage.clear_staged_test_command();
        let ghost mid = *storage;
        if cleared.is_ok() {
            has_staged_test = false;
        }
        action = select_boot_action(reset_reason, has_staged_test, has_psk, storage);
        assert(S::changed(pre, StorageOp::ClearStagedTest, mid, cleared));
        assert(action_selected(
            mid,
            reset_reason,
            still_staged(cleared),
            has_psk,
            *storage,
            action,
        ));
    } else {
        action = select_boot_action(reset_reason, has_staged_test, has_psk, storage);
        assert(action_selected(pre, reset_reason, has_staged(pre), has_psk, *storage, action));
    }
    BootPlan::Proceed(action)
}

/// The channel for a staged test: the one that it names, else the stored one,
/// else the first.
pub fn test_channel(requested: Option<u8>, stored: Option<u8>) -> (channel: u8)
    ensures
        channel == (match requested {
            Some(c) => c,
            None => match stored {
                Some(c) => c,
                None => 1u8,
            },
        }),
{
    match requested {
        Some(c) => c,
        None => match stored {
            Some(c) => c,
            None => 1,
        },
    }
}

/// Record that a staged test of type `test_type` could not be started, and
/// clear it.  Failures are ignored.
pub fn record_unstarted_test<S: PlatformStorage>(storage: &mut S, test_type: u64)
    ensures
        exists|script: Seq<Step>| #[trigger]
            ran(*old(storage), script, *final(storage)) && regardless(
                seq![
                    (StorageOp::WriteTestResult { result: error_outcome(test_type, 0, 0) }),
                    StorageOp::ClearStagedTest,
                ],
                script,
            ),
{
    let ghost pre = *storage;
    let ghost mut script: Seq<Step> = Seq::empty();
    proof {
        lemma_ran_nothing(pre);
    }
    let failed = execution_error_result(test_type, 0, 0);
    let result = storage.write_test_result(&failed);
    proof {
        let step = Step { op: (StorageOp::WriteTestResult { result: failed@ }), result };
        lemma_ran_push(pre, script, pre, step, *storage);
        script = script.push(step);
    }
    let ghost mid = *storage;
    let result = storage.clear_staged_test_command();
    proof {
        let step = Step { op: StorageOp::ClearStagedTest, result };
        lemma_ran_push(pre, script, mid, step, *storage);
        script = script.push(step);
        assert(ran(pre, script, *storage));
    }
}

/// A node without a key never starts a wake cycle, and a paired node never
/// enters pairing or test mode.
pub proof fn law_only_paired_nodes_wake(has_staged_test: bool, has_psk: bool)
    ensures
        mode_for(has_staged_test, has_psk) == BootMode::WakeCycle <==> has_psk,
{
}

/// After a brownout a paired node sleeps, for the stored interval and at least
/// a second, before it uses the radio; faithful storage has then dropped a
/// request for an early wake.
pub proof fn law_brownout_recovery<S: PlatformStorage>(
    pre: S,
    has_staged_test: bool,
    post: S,
    action: BootAction,
    default_interval_s: u32,
)
    requires
        keeps_promises::<S>(default_interval_s),
        action_selected(pre, BootResetReason::Brownout, has_staged_test, true, post, action),
    ensures
        action == (BootAction::BrownoutRecoverySleep {
            seconds: recovery_sleep_s(pre.holds().interval_s),
        }),
        !post.holds().early_wake,
{
}

/// A paired node whose button is held at boot ends up in pairing mode, or
/// sleeps because the reset failed.  In pairing mode faithful storage holds
/// what a factory reset leaves, without a staged test, and all map values are
/// zero.
pub proof fn law_held_button_unpairs<S: PlatformStorage>(
    pre: S,
    maps: MapsView,
    reset_reason: BootResetReason,
    post: S,
    maps_after: MapsView,
    plan: BootPlan,
    default_interval_s: u32,
)
    requires
        keeps_promises::<S>(default_interval_s),
        pre.holds().key is Some,
        was_booted(pre, maps, reset_reason, true, post, maps_after, plan),
    ensures
        plan == BootPlan::Proceed(BootAction::BlePairing) || plan == (BootPlan::FailClosedSleep {
            seconds: FAIL_CLOSED_SLEEP_S,
        }),
        plan is Proceed ==> post.holds() == (Stored {
            staged_test: None,
            ..factory_state(pre.holds(), default_interval_s)
        }),
        plan is Proceed ==> maps_after.maps == maps.maps.map_values(|m: MapContents| m.zeroed()),
{
    let (mid, result) = choose|mid: S, result: NodeResult<()>| #[trigger]
        was_factory_reset(pre, maps, mid, maps_after, result) && match result {
            Ok(_) => was_unstaged(mid, post, plan),
            Err(_) => post == mid && plan == (BootPlan::FailClosedSleep {
                seconds: FAIL_CLOSED_SLEEP_S,
            }),
        };
    if plan is Proceed {
        law_factory_reset_erases_everything(pre, maps, mid, maps_after, result, default_interval_s);
    }
}

/// An unpaired node runs a staged test, and without one it enters pairing mode,
/// whatever the reason of the reset and whether the button is held or not; its
/// storage and its maps are not touched.
pub proof fn law_unpaired_nodes_test_or_pair<S: PlatformStorage>(
    pre: S,
    maps: MapsView,
    reset_reason: BootResetReason,
    button_held: bool,
    post: S,
    maps_after: MapsView,
    plan: BootPlan,
)
    requires
        pre.holds().key is None,
        was_booted(pre, maps, reset_reason, button_held, post, maps_after, plan),
    ensures
        pre.holds().staged_test is Some ==> plan == BootPlan::Proceed(
            BootAction::PreProvisioningTest,
        ),
        pre.holds().staged_test is None ==> plan == BootPlan::Proceed(BootAction::BlePairing),
        post == pre,
        maps_after == maps,
{
}

/// A paired node whose button is not held starts a wake cycle; only after a
/// brownout it sleeps first, for its interval and at least a second.  It stays
/// paired, keeps its maps, forgets a staged test, and drops a request for an
/// early wake only where it sleeps first.
pub proof fn law_paired_nodes_wake_or_recover<S: PlatformStorage>(
    pre: S,
    maps: MapsView,
    reset_reason: BootResetReason,
    post: S,
    maps_after: MapsView,
    plan: BootPlan,
    default_interval_s: u32,
)
    requires
        keeps_promises::<S>(default_interval_s),
        forall|s: S, t: S, r: NodeResult<()>| #[trigger]
            S::changed(s, StorageOp::ClearStagedTest, t, r) ==> r is Ok,
        pre.holds().key is Some,
        was_booted(pre, maps, reset_reason, false, post, maps_after, plan),
    ensures
        maps_after == maps,
        reset_reason != BootResetReason::Brownout ==> plan == BootPlan::Proceed(
            BootAction::WakeCycle,
        ) && post.holds() == (Stored { staged_test: None, ..pre.holds() }),
        reset_reason == BootResetReason::Brownout ==> plan == BootPlan::Proceed(
            BootAction::BrownoutRecoverySleep {
                seconds: if pre.holds().interval_s == 0 {
                    1
                } else {
                    pre.holds().interval_s
                },
            },
        ) && post.holds() == (Stored { staged_test: None, early_wake: false, ..pre.holds() }),
{
    if has_staged(pre) {
        let (mid, cleared, action) = choose|mid: S, cleared: NodeResult<()>, action: BootAction|
         #[trigger]
            S::changed(pre, StorageOp::ClearStagedTest, mid, cleared) && #[trigger]
            action_selected(mid, reset_reason, still_staged(cleared), true, post, action) && plan
                == BootPlan::Proceed(action);
        assert(cleared is Ok);
    }
}

/// A boot that ends in a sleep without anything else is one whose reset failed:
/// the button was held on a paired node, some change of its storage failed, and
/// the sleep lasts a minute.
pub proof fn law_failed_reset_sleeps_for_a_minute<S: PlatformStorage>(
    pre: S,
    maps: MapsView,
    reset_reason: BootResetReason,
    button_held: bool,
    post: S,
    maps_after: MapsView,
    plan: BootPlan,
)
    requires
        was_booted(pre, maps, reset_reason, button_held, post, maps_after, plan),
    ensures
        plan is FailClosedSleep ==> {
            &&& plan == (BootPlan::FailClosedSleep { seconds: 60 })
            &&& button_held && pre.holds().key is Some
            &&& exists|s: S, op: StorageOp, t: S, r: NodeResult<()>|
                r is Err && #[trigger] S::changed(s, op, t, r)
        },
{
    if plan is FailClosedSleep {
        let (mid, result) = choose|mid: S, result: NodeResult<()>| #[trigger]
            was_factory_reset(pre, maps, mid, maps_after, result) && match result {
                Ok(_) => was_unstaged(mid, post, plan),
                Err(_) => post == mid && plan == (BootPlan::FailClosedSleep {
                    seconds: FAIL_CLOSED_SLEEP_S,
                }),
            };
        if result is Err {
            let script = choose|script: Seq<Step>| #[trigger]
                ran(pre, script, mid) && until_failure(reset_ops(), script) && result == outcome(
                    script,
                ) && maps_after == maps_after_reset(maps, script);
            let s = choose|s: S|
                ran(pre, script.drop_last(), s) && #[trigger] S::changed(
                    s,
                    script.last().op,
                    mid,
                    script.last().result,
                );
            assert(S::changed(s, script.last().op, mid, script.last().result));
        }
    }
}

/// The button counts as held after fifty samples.
pub proof fn law_button_is_sampled_fifty_times()
    ensures
        BUTTON_SAMPLE_COUNT == 50,
{
}

/// A test that could not be started is reported as one that failed without an
/// attempt, and is not started again: faithful storage then holds that result
/// and no staged test.
pub proof fn law_unstarted_test_is_reported<S: PlatformStorage>(
    pre: S,
    test_type: u64,
    script: Seq<Step>,
    post: S,
    default_interval_s: u32,
)
    requires
        keeps_promises::<S>(default_interval_s),
        ran(pre, script, post),
        regardless(
            seq![
                (StorageOp::WriteTestResult { result: error_outcome(test_type, 0, 0) }),
                StorageOp::ClearStagedTest,
            ],
            script,
        ),
        forall|i: int| 0 <= i < script.len() ==> (#[trigger] script[i]).result is Ok,
    ensures
        post.holds() == (Stored {
            staged_test: None,
            test_result: Some(
                TestOutcome {
                    status: TestStatus::ExecutionError,
                    test_type: Some(test_type),
                    reply_frame: None,
                    reply_rssi_dbm: None,
                    attempt_count: 0,
                    elapsed_ms: 0,
                },
            ),
            ..pre.holds()
        }),
{
    lemma_all_succeeded(pre, script, post, default_interval_s);
    let ops = ops_of(script);
    reveal_with_fuel(after_all, 3);
    assert(ops[0] == script[0].op && ops[1] == script[1].op);
    assert(ops.drop_last().drop_last() =~= Seq::<StorageOp>::empty());
}

/// Resets are logged under fixed names.
pub proof fn law_reset_reasons_have_names(reason: BootResetReason)
    ensures
        reason is DeepSleepWake ==> reason_label(reason) == "deep_sleep_wake",
        reason is SoftwareReset ==> reason_label(reason) == "software_reset",
        reason is PowerOn ==> reason_label(reason) == "power_on",
        reason is Brownout ==> reason_label(reason) == "brownout",
        reason is Other ==> reason_label(reason) == "other_reset",
{
}

} // verus!
