//! What the node needs of its platform: persistent storage, a radio transport
//! and a clock.
//!
//! The spec functions of the traits that relate a state before a call to one
//! after it say what the call may do; an implementation that leaves them as
//! they are promises nothing.

use vstd::prelude::*;

use crate::node::error::NodeResult;
use crate::node::types::{
    bytes_view, result_view, staged_view, BoardLayout, Received, ReceivedFrame, StagedTest,
    StagedTestCommand, TestOutcome, TestResult,
};

verus! {

/// What persistent storage holds.
pub ghost struct Stored {
    /// Key hint and pre-shared key; `None` while the node is unpaired.
    pub key: Option<(u16, Seq<u8>)>,
    /// Base wake interval in seconds.
    pub interval_s: u32,
    /// Index of the active program partition.
    pub active_partition: u8,
    pub program_a: Option<Seq<u8>>,
    pub program_b: Option<Seq<u8>>,
    pub early_wake: bool,
    pub channel: Option<u8>,
    pub peer_payload: Option<Seq<u8>>,
    pub reg_complete: bool,
    pub board_layout: Option<BoardLayout>,
    pub staged_test: Option<StagedTest>,
    pub test_result: Option<TestOutcome>,
}

/// A change that storage is asked for.
pub ghost enum StorageOp {
    WriteKey { key_hint: u16, psk: Seq<u8> },
    EraseKey,
    WriteInterval { interval_s: u32 },
    WriteActivePartition { partition: u8 },
    ResetSchedule,
    WriteProgram { partition: u8, image: Seq<u8> },
    EraseProgram { partition: u8 },
    TakeEarlyWake,
    SetEarlyWake,
    WriteChannel { channel: u8 },
    WritePeerPayload { payload: Seq<u8> },
    ErasePeerPayload,
    WriteRegComplete { complete: bool },
    WriteBoardLayout { layout: BoardLayout },
    WriteStagedTest { command: StagedTest },
    ClearStagedTest,
    WriteTestResult { result: TestOutcome },
}

impl Stored {
    /// What storage holds after a change that succeeded, where the default
    /// wake interval is `default_interval_s`.
    pub open spec fn after(self, op: StorageOp, default_interval_s: u32) -> Stored {
        match op {
            StorageOp::WriteKey { key_hint, psk } => Stored { key: Some((key_hint, psk)), ..self },
            StorageOp::EraseKey => Stored { key: None, ..self },
            StorageOp::WriteInterval { interval_s } => Stored { interval_s, ..self },
            StorageOp::WriteActivePartition { partition } => Stored {
                active_partition: partition,
                ..self
            },
            StorageOp::ResetSchedule => Stored {
                interval_s: default_interval_s,
                active_partition: 0,
                ..self
            },
            StorageOp::WriteProgram { partition, image } => if partition == 0 {
                Stored { program_a: Some(image), ..self }
            } else {
                Stored { program_b: Some(image), ..self }
            },
            StorageOp::EraseProgram { partition } => if partition == 0 {
                Stored { program_a: None, ..self }
            } else {
                Stored { program_b: None, ..self }
            },
            StorageOp::TakeEarlyWake => Stored { early_wake: false, ..self },
            StorageOp::SetEarlyWake => Stored { early_wake: true, ..self },
            StorageOp::WriteChannel { channel } => Stored { channel: Some(channel), ..self },
            StorageOp::WritePeerPayload { payload } => Stored {
                peer_payload: Some(payload),
                ..self
            },
            StorageOp::ErasePeerPayload => Stored { peer_payload: None, ..self },
            StorageOp::WriteRegComplete { complete } => Stored { reg_complete: complete, ..self },
            StorageOp::WriteBoardLayout { layout } => Stored { board_layout: Some(layout), ..self },
            StorageOp::WriteStagedTest { command } => Stored {
                staged_test: Some(command),
                ..self
            },
            StorageOp::ClearStagedTest => Stored { staged_test: None, ..self },
            StorageOp::WriteTestResult { result } => Stored { test_result: Some(result), ..self },
        }
    }
}

/// A stored key, if any, as mathematical values.
pub open spec fn key_view(key: Option<(u16, [u8; 32])>) -> Option<(u16, Seq<u8>)> {
    match key {
        Some((key_hint, psk)) => Some((key_hint, psk@)),
        None => None,
    }
}

/// Persistent storage of the node.
///
/// A read returns what is stored.  Of a change the trait says only which
/// change was asked for; what that does is the implementation's business.
/// `law_*` functions that speak of stored values assume a faithful
/// implementation (`keeps_promises`).
pub trait PlatformStorage: Sized {
    /// What is stored.
    spec fn holds(&self) -> Stored;

    /// What a change may do.
    open spec fn changed(pre: Self, op: StorageOp, post: Self, result: NodeResult<()>) -> bool {
        true
    }

    fn read_key(&self) -> (key: Option<(u16, [u8; 32])>)
        ensures
            key_view(key) == self.holds().key,
    ;

    fn write_key(&mut self, key_hint: u16, psk: &[u8; 32]) -> (result: NodeResult<()>)
        ensures
            Self::changed(
                *old(self),
                (StorageOp::WriteKey { key_hint, psk: psk@ }),
                *final(self),
                result,
            ),
    ;

    fn erase_key(&mut self) -> (result: NodeResult<()>)
        ensures
            Self::changed(*old(self), StorageOp::EraseKey, *final(self), result),
    ;

    /// Base wake interval in seconds and active program partition.
    fn read_schedule(&self) -> (schedule: (u32, u8))
        ensures
            schedule == (self.holds().interval_s, self.holds().active_partition),
    ;

    fn write_schedule_interval(&mut self, interval_s: u32) -> (result: NodeResult<()>)
        ensures
            Self::changed(
                *old(self),
                (StorageOp::WriteInterval { interval_s }),
                *final(self),
                result,
            ),
    ;

    fn write_active_partition(&mut self, partition: u8) -> (result: NodeResult<()>)
        ensures
            Self::changed(
                *old(self),
                (StorageOp::WriteActivePartition { partition }),
                *final(self),
                result,
            ),
    ;

    fn reset_schedule(&mut self) -> (result: NodeResult<()>)
        ensures
            Self::changed(*old(self), StorageOp::ResetSchedule, *final(self), result),
    ;

    /// The program image of a partition, 0 or 1.
    fn read_program(&self, partition: u8) -> (image: Option<Vec<u8>>)
        ensures
            partition == 0 ==> bytes_view(image) == self.holds().program_a,
            partition == 1 ==> bytes_view(image) == self.holds().program_b,
    ;

    /// Store a program image in a partition, 0 or 1.
    fn write_program(&mut self, partition: u8, image: &[u8]) -> (result: NodeResult<()>)
        ensures
            Self::changed(
                *old(self),
                (StorageOp::WriteProgram { partition, image: image@ }),
                *final(self),
                result,
            ),
    ;

    fn erase_program(&mut self, partition: u8) -> (result: NodeResult<()>)
        ensures
            Self::changed(
                *old(self),
                (StorageOp::EraseProgram { partition }),
                *final(self),
                result,
            ),
    ;

    /// Whether an early wake was requested; the request is cleared.
    fn take_early_wake_flag(&mut self) -> (flag: bool)
        ensures
            flag == old(self).holds().early_wake,
            Self::changed(*old(self), StorageOp::TakeEarlyWake, *final(self), Ok(())),
    ;

    /// Note that the next wake comes early.
    fn set_early_wake_flag(&mut self) -> (result: NodeResult<()>)
        ensures
            Self::changed(*old(self), StorageOp::SetEarlyWake, *final(self), result),
    ;

    fn read_channel(&self) -> (channel: Option<u8>)
        ensures
            channel == self.holds().channel,
    ;

    fn write_channel(&mut self, channel: u8) -> (result: NodeResult<()>)
        ensures
            Self::changed(
                *old(self),
                (StorageOp::WriteChannel { channel }),
                *final(self),
                result,
            ),
    ;

    fn read_peer_payload(&self) -> (payload: Option<Vec<u8>>)
        ensures
            bytes_view(payload) == self.holds().peer_payload,
    ;

    fn write_peer_payload(&mut self, payload: &[u8]) -> (result: NodeResult<()>)
        ensures
            Self::changed(
                *old(self),
                (StorageOp::WritePeerPayload { payload: payload@ }),
                *final(self),
                result,
            ),
    ;

    fn erase_peer_payload(&mut self) -> (result: NodeResult<()>)
        ensures
            Self::changed(*old(self), StorageOp::ErasePeerPayload, *final(self), result),
    ;

    fn read_reg_complete(&self) -> (complete: bool)
        ensures
            complete == self.holds().reg_complete,
    ;

    fn write_reg_complete(&mut self, complete: bool) -> (result: NodeResult<()>)
        ensures
            Self::changed(
                *old(self),
                (StorageOp::WriteRegComplete { complete }),
                *final(self),
                result,
            ),
    ;

    fn read_board_layout(&self) -> (layout: Option<BoardLayout>)
        ensures
            layout == self.holds().board_layout,
    ;

    fn write_board_layout(&mut self, layout: &BoardLayout) -> (result: NodeResult<()>)
        ensures
            Self::changed(
                *old(self),
                (StorageOp::WriteBoardLayout { layout: *layout }),
                *final(self),
                result,
            ),
    ;

    fn read_staged_test_command(&self) -> (command: Option<StagedTestCommand>)
        ensures
            staged_view(command) == self.holds().staged_test,
    ;

    fn write_staged_test_command(&mut self, command: &StagedTestCommand) -> (result: NodeResult<()>)
        ensures
            Self::changed(
                *old(self),
                (StorageOp::WriteStagedTest { command: command@ }),
                *final(self),
                result,
            ),
    ;

    fn clear_staged_test_command(&mut self) -> (result: NodeResult<()>)
        ensures
            Self::changed(*old(self), StorageOp::ClearStagedTest, *final(self), result),
    ;

    fn read_test_result(&self) -> (result: Option<TestResult>)
        ensures
            result_view(result) == self.holds().test_result,
    ;

    fn write_test_result(&mut self, result: &TestResult) -> (written: NodeResult<()>)
        ensures
            Self::changed(
                *old(self),
                (StorageOp::WriteTestResult { result: result@ }),
                *final(self),
                written,
            ),
    ;
}

/// Storage that does what it is asked for: a change that succeeds changes just
/// that, and one that fails leaves everything else alone.
pub open spec fn keeps_promises<S: PlatformStorage>(default_interval_s: u32) -> bool {
    forall|pre: S, op: StorageOp, post: S, result: NodeResult<()>| #[trigger]
        S::changed(pre, op, post, result) ==> match result {
            Ok(_) => post.holds() == pre.holds().after(op, default_interval_s),
            Err(_) => touched_only(pre.holds(), op, post.holds()),
        }
}

/// Whether nothing besides what `op` is about differs between `pre` and
/// `post`: putting the change into effect hides the difference.
pub open spec fn touched_only(pre: Stored, op: StorageOp, post: Stored) -> bool {
    post.after(op, 0) == pre.after(op, 0)
}

/// A received frame, if any, as mathematical values.
pub open spec fn received_view(frame: NodeResult<Option<ReceivedFrame>>) -> NodeResult<
    Option<Received>,
> {
    match frame {
        Ok(Some(f)) => Ok(Some(f@)),
        Ok(None) => Ok(None),
        Err(error) => Err(error),
    }
}

/// The node's radio transport.
pub trait Transport: Sized {
    /// What sending `frame` may do.
    open spec fn was_sent(pre: Self, frame: Seq<u8>, post: Self, result: NodeResult<()>) -> bool {
        true
    }

    /// What waiting for a frame may do.
    open spec fn was_received(
        pre: Self,
        timeout_ms: u32,
        post: Self,
        frame: NodeResult<Option<Received>>,
    ) -> bool {
        true
    }

    /// Broadcast a frame.
    fn send(&mut self, frame: &[u8]) -> (result: NodeResult<()>)
        ensures
            Self::was_sent(*old(self), frame@, *final(self), result),
    ;

    /// Wait for a frame, for at most `timeout_ms` milliseconds.
    fn recv_with_metadata(&mut self, timeout_ms: u32) -> (frame: NodeResult<Option<ReceivedFrame>>)
        ensures
            Self::was_received(*old(self), timeout_ms, *final(self), received_view(frame)),
    ;
}

/// A monotonic clock.
pub trait Clock: Sized {
    /// What reading the clock may do.
    open spec fn was_read(pre: Self, post: Self, ms: u64) -> bool {
        true
    }

    /// What a delay of `ms` milliseconds may do.
    open spec fn delayed_ms(pre: Self, ms: u32, post: Self) -> bool {
        true
    }

    /// What a delay of `us` microseconds may do.
    open spec fn delayed_us(pre: Self, us: u32, post: Self) -> bool {
        true
    }

    /// Milliseconds since boot.
    fn elapsed_ms(&mut self) -> (ms: u64)
        ensures
            Self::was_read(*old(self), *final(self), ms),
    ;

    /// Wait for `ms` milliseconds.
    fn delay_ms(&mut self, ms: u32)
        ensures
            Self::delayed_ms(*old(self), ms, *final(self)),
    ;

    /// Wait for `us` microseconds.
    fn delay_us(&mut self, us: u32)
        ensures
            Self::delayed_us(*old(self), us, *final(self)),
    ;
}

} // verus!
