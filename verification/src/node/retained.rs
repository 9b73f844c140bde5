//! State in memory that survives sleep and software resets: the staged test,
//! the latest test result, the early-wake flag and the last battery reading.
//!
//! A record is valid only if both its marker and its flag are set; both are
//! cleared before a record is changed and set again as the last thing.

use vstd::prelude::*;

use crate::bytes::copy_range;
use crate::node::error::{NodeError, NodeResult};
use crate::node::types::{
    result_view, staged_view, StagedTest, StagedTestCommand, TestOutcome, TestResult,
    TestStatus, MAX_FRAME_SIZE,
};

verus! {

/// Marks a staged test.
pub const RTC_STAGED_TEST_MAGIC: u32 = 0x5354_434D;

/// Marks a test result.
pub const RTC_TEST_RESULT_MAGIC: u32 = 0x5452_4553;

/// A staged test in retained memory.
#[derive(Clone, Copy)]
pub struct RtcStagedTestCommand {
    pub magic: u32,
    pub valid: u32,
    pub test_type: u64,
    pub rf_channel_present: u32,
    pub rf_channel: u8,
    pub payload_len: u16,
    pub payload: [u8; 250],
}

/// A test result in retained memory.
#[derive(Clone, Copy)]
pub struct RtcTestResult {
    pub magic: u32,
    pub valid: u32,
    pub status: u8,
    pub test_type_present: u32,
    pub test_type: u64,
    pub reply_frame_len: u16,
    pub reply_frame: [u8; 250],
    pub reply_rssi_present: u32,
    pub reply_rssi_dbm: i8,
    pub attempt_count: u64,
    pub elapsed_ms: u64,
}

/// Whether a staged test is complete.
pub fn staged_test_command_is_valid(command: &RtcStagedTestCommand) -> (valid: bool)
    ensures
        valid == (command.magic == RTC_STAGED_TEST_MAGIC && command.valid == 1),
{
    command.magic == RTC_STAGED_TEST_MAGIC && command.valid == 1
}

/// Whether a test result is complete.
pub fn retained_test_result_is_valid(result: &RtcTestResult) -> (valid: bool)
    ensures
        valid == (result.magic == RTC_TEST_RESULT_MAGIC && result.valid == 1),
{
    result.magic == RTC_TEST_RESULT_MAGIC && result.valid == 1
}

/// `data`, filled up with zeros to the size of a frame.
pub open spec fn padded(data: Seq<u8>) -> Seq<u8> {
    Seq::new(
        250,
        |i: int|
            if i < data.len() {
                data[i]
            } else {
                0u8
            },
    )
}

/// Copy `data` into an array and fill it up with zeros.
fn pad(data: &[u8]) -> (array: [u8; 250])
    requires
        data@.len() <= 250,
    ensures
        array@ == padded(data@),
{
    let mut array: [u8; 250] = [0u8; 250];
    let mut i: usize = 0;
    while i < data.len()
        invariant
            i <= data@.len() <= 250,
            forall|j: int|
                0 <= j < 250 ==> #[trigger] array@[j] == (if j < i {
                    data@[j]
                } else {
                    0u8
                }),
        decreases data.len() - i,
    {
        array[i] = data[i];
        i = i + 1;
    }
    assert(array@ =~= padded(data@));
    array
}

impl RtcStagedTestCommand {
    /// The staged test that the record holds.
    pub open spec fn staged(&self) -> Option<StagedTest> {
        if self.magic == RTC_STAGED_TEST_MAGIC && self.valid == 1 && 0 < self.payload_len
            <= MAX_FRAME_SIZE {
            Some(
                StagedTest {
                    test_type: self.test_type,
                    rf_channel: if self.rf_channel_present != 0 {
                        Some(self.rf_channel)
                    } else {
                        None
                    },
                    payload: self.payload@.take(self.payload_len as int),
                },
            )
        } else {
            None
        }
    }

    /// Whether every byte of the record is zero.
    pub open spec fn is_zero(&self) -> bool {
        &&& self.magic == 0
        &&& self.valid == 0
        &&& self.test_type == 0
        &&& self.rf_channel_present == 0
        &&& self.rf_channel == 0
        &&& self.payload_len == 0
        &&& self.payload@ == padded(Seq::empty())
    }

    /// A record that holds nothing.
    pub fn zero() -> (record: RtcStagedTestCommand)
        ensures
            record.is_zero(),
            record.staged() is None,
    {
        let record = RtcStagedTestCommand {
            magic: 0,
            valid: 0,
            test_type: 0,
            rf_channel_present: 0,
            rf_channel: 0,
            payload_len: 0,
            payload: [0u8; 250],
        };
        assert(record.payload@ =~= padded(Seq::empty()));
        record
    }

    /// The staged test, if there is one.
    pub fn read(&self) -> (command: Option<StagedTestCommand>)
        ensures
            staged_view(command) == self.staged(),
    {
        if !staged_test_command_is_valid(self) {
            return None;
        }
        let payload_len: usize = self.payload_len as usize;
        if payload_len == 0 || payload_len > MAX_FRAME_SIZE {
            return None;
        }
        let rf_channel = if self.rf_channel_present != 0 {
            Some(self.rf_channel)
        } else {
            None
        };
        let payload = copy_range(self.payload.as_slice(), 0, payload_len);
        assert(payload@ =~= self.payload@.take(payload_len as int));
        Some(StagedTestCommand { test_type: self.test_type, rf_channel, payload })
    }

    /// Stage a test, whose frame has 1 to 250 bytes.
    pub fn write(&mut self, command: &StagedTestCommand) -> (result: NodeResult<()>)
        ensures
            match result {
                Ok(_) => {
                    &&& 0 < command@.payload.len() <= MAX_FRAME_SIZE
                    &&& final(self).staged() == Some(command@)
                    &&& final(self).payload@ == padded(command@.payload)
                },
                Err(error) => {
                    &&& !(0 < command@.payload.len() <= MAX_FRAME_SIZE)
                    &&& *final(self) == *old(self)
                    &&& error == NodeError::StorageError(
                        "staged test payload must be 1..=250 bytes",
                    )
                },
            },
    {
        if command.payload.len() == 0 || command.payload.len() > MAX_FRAME_SIZE {
            return Err(NodeError::StorageError("staged test payload must be 1..=250 bytes"));
        }
        self.magic = 0;
        self.valid = 0;
        self.test_type = command.test_type;
        self.rf_channel_present = if command.rf_channel.is_some() {
            1
        } else {
            0
        };
        self.rf_channel = match command.rf_channel {
            Some(channel) => channel,
            None => 0,
        };
        self.payload_len = command.payload.len() as u16;
        self.payload = pad(command.payload.as_slice());
        self.magic = RTC_STAGED_TEST_MAGIC;
        self.valid = 1;
        assert(self.payload@.take(self.payload_len as int) =~= command.payload@);
        Ok(())
    }

    /// Forget the staged test.
    pub fn clear(&mut self)
        ensures
            final(self).is_zero(),
            final(self).staged() is None,
    {
        *self = RtcStagedTestCommand::zero();
    }
}

/// The stored form of a test status.
pub open spec fn status_code(status: TestStatus) -> u8 {
    match status {
        TestStatus::Success => 0u8,
        TestStatus::Timeout => 1u8,
        TestStatus::ExecutionError => 2u8,
        TestStatus::NoResult => 3u8,
    }
}

/// The status that a stored form stands for.
pub open spec fn status_from(code: u8) -> Option<TestStatus> {
    if code == 0 {
        Some(TestStatus::Success)
    } else if code == 1 {
        Some(TestStatus::Timeout)
    } else if code == 2 {
        Some(TestStatus::ExecutionError)
    } else if code == 3 {
        Some(TestStatus::NoResult)
    } else {
        None
    }
}

/// Encode a test status.
fn encode_status(status: TestStatus) -> (code: u8)
    ensures
        code == status_code(status),
{
    match status {
        TestStatus::Success => 0,
        TestStatus::Timeout => 1,
        TestStatus::ExecutionError => 2,
        TestStatus::NoResult => 3,
    }
}

/// Decode a test status.
fn decode_status(code: u8) -> (status: Option<TestStatus>)
    ensures
        status == status_from(code),
{
    match code {
        0 => Some(TestStatus::Success),
        1 => Some(TestStatus::Timeout),
        2 => Some(TestStatus::ExecutionError),
        3 => Some(TestStatus::NoResult),
        _ => None,
    }
}

impl RtcTestResult {
    /// The result that the record holds, valid or not.
    pub open spec fn retained(&self) -> Option<TestOutcome> {
        if self.magic == RTC_TEST_RESULT_MAGIC && self.valid == 1 && self.reply_frame_len
            <= MAX_FRAME_SIZE && status_from(self.status) is Some {
            Some(
                TestOutcome {
                    status: status_from(self.status)->0,
                    test_type: if self.test_type_present != 0 {
                        Some(self.test_type)
                    } else {
                        None
                    },
                    reply_frame: if self.reply_frame_len == 0 {
                        None
                    } else {
                        Some(self.reply_frame@.take(self.reply_frame_len as int))
                    },
                    reply_rssi_dbm: if self.reply_rssi_present != 0 {
                        Some(self.reply_rssi_dbm)
                    } else {
                        None
                    },
                    attempt_count: self.attempt_count,
                    elapsed_ms: self.elapsed_ms,
                },
            )
        } else {
            None
        }
    }

    /// Whether every byte of the record is zero.
    pub open spec fn is_zero(&self) -> bool {
        &&& self.magic == 0
        &&& self.valid == 0
        &&& self.status == 0
        &&& self.test_type_present == 0
        &&& self.test_type == 0
        &&& self.reply_frame_len == 0
        &&& self.reply_frame@ == padded(Seq::empty())
        &&& self.reply_rssi_present == 0
        &&& self.reply_rssi_dbm == 0
        &&& self.attempt_count == 0
        &&& self.elapsed_ms == 0
    }

    /// A record that holds nothing.
    pub fn zero() -> (record: RtcTestResult)
        ensures
            record.is_zero(),
            record.retained() is None,
    {
        let record = RtcTestResult {
            magic: 0,
            valid: 0,
            status: 0,
            test_type_present: 0,
            test_type: 0,
            reply_frame_len: 0,
            reply_frame: [0u8; 250],
            reply_rssi_present: 0,
            reply_rssi_dbm: 0,
            attempt_count: 0,
            elapsed_ms: 0,
        };
        assert(record.reply_frame@ =~= padded(Seq::empty()));
        record
    }

    /// The retained result, if `validate` finds it valid.
    pub fn read<V: Fn(&TestResult) -> bool>(&self, validate: V) -> (result: Option<TestResult>)
        requires
            forall|r: &TestResult| #[trigger] call_requires(validate, (r,)),
        ensures
            match self.retained() {
                None => result is None,
                Some(retained) => exists|r: &TestResult, valid: bool|
                    r@ == retained && #[trigger] call_ensures(validate, (r,), valid) && result_view(
                        result,
                    ) == (if valid {
                        Some(retained)
                    } else {
                        None
                    }),
            },
    {
        if !retained_test_result_is_valid(self) {
            return None;
        }
        let len: usize = self.reply_frame_len as usize;
        if len > MAX_FRAME_SIZE {
            return None;
        }
        let status = match decode_status(self.status) {
            Some(status) => status,
            None => {
                return None;
            },
        };
        let reply_frame = if len == 0 {
            None
        } else {
            let frame = copy_range(self.reply_frame.as_slice(), 0, len);
            assert(frame@ =~= self.reply_frame@.take(len as int));
            Some(frame)
        };
        let decoded = TestResult {
            status,
            test_type: if self.test_type_present != 0 {
                Some(self.test_type)
            } else {
                None
            },
            reply_frame,
            reply_rssi_dbm: if self.reply_rssi_present != 0 {
                Some(self.reply_rssi_dbm)
            } else {
                None
            },
            attempt_count: self.attempt_count,
            elapsed_ms: self.elapsed_ms,
        };
        assert(self.retained() == Some(decoded@));
        let valid = validate(&decoded);
        assert(call_ensures(validate, (&decoded,), valid));
        if valid {
            Some(decoded)
        } else {
            None
        }
    }

    /// Keep a result.  `valid` says whether it is a valid one; an invalid one
    /// and one whose reply is longer than a frame are refused.
    pub fn write(&mut self, result: &TestResult, valid: bool) -> (written: NodeResult<()>)
        ensures
            match written {
                Ok(_) => {
                    &&& valid
                    &&& fits(result@)
                    &&& final(self).retained() == Some(stored_form(result@))
                    &&& final(self).reply_frame@ == padded(
                        match result@.reply_frame {
                            Some(frame) => frame,
                            None => Seq::empty(),
                        },
                    )
                },
                Err(error) => {
                    &&& !valid || !fits(result@)
                    &&& *final(self) == *old(self)
                    &&& error == (if !valid {
                        NodeError::StorageError("invalid retained test result")
                    } else {
                        NodeError::StorageError("retained test reply frame too large")
                    })
                },
            },
    {
        if !valid {
            return Err(NodeError::StorageError("invalid retained test result"));
        }
        let reply_len: usize = match &result.reply_frame {
            Some(frame) => frame.len(),
            None => 0,
        };
        if reply_len > MAX_FRAME_SIZE {
            return Err(NodeError::StorageError("retained test reply frame too large"));
        }
        self.magic = 0;
        self.valid = 0;
        self.status = encode_status(result.status);
        self.test_type_present = if result.test_type.is_some() {
            1
        } else {
            0
        };
        self.test_type = match result.test_type {
            Some(t) => t,
            None => 0,
        };
        self.reply_frame_len = reply_len as u16;
        self.reply_rssi_present = if result.reply_rssi_dbm.is_some() {
            1
        } else {
            0
        };
        self.reply_rssi_dbm = match result.reply_rssi_dbm {
            Some(rssi) => rssi,
            None => 0,
        };
        self.attempt_count = result.attempt_count;
        self.elapsed_ms = result.elapsed_ms;
        match &result.reply_frame {
            Some(frame) => {
                self.reply_frame = pad(frame.as_slice());
                assert(self.reply_frame@.take(reply_len as int) =~= frame@);
            },
            None => {
                self.reply_frame = [0u8; 250];
                assert(self.reply_frame@ =~= padded(Seq::empty()));
            },
        }
        self.magic = RTC_TEST_RESULT_MAGIC;
        self.valid = 1;
        Ok(())
    }
}

/// Whether the reply of a result, if it has one, fits into a frame.
pub open spec fn fits(result: TestOutcome) -> bool {
    result.reply_frame matches Some(frame) ==> frame.len() <= MAX_FRAME_SIZE
}

/// What is read back of a result: an empty reply counts as none.
pub open spec fn stored_form(result: TestOutcome) -> TestOutcome {
    TestOutcome {
        reply_frame: match result.reply_frame {
            Some(frame) => if frame.len() == 0 {
                None
            } else {
                Some(frame)
            },
            None => None,
        },
        ..result
    }
}

/// A status is read back as it was.
pub proof fn law_status_round_trip(status: TestStatus)
    ensures
        status_from(status_code(status)) == Some(status),
{
}

/// A result with a reply, or without one, is read back as it was; only an
/// empty reply is not told apart from none.
pub proof fn law_result_round_trip(result: TestOutcome)
    ensures
        (result.reply_frame matches Some(frame) ==> frame.len() > 0) ==> stored_form(result)
            == result,
{
}

/// Flags and readings in retained memory.
#[derive(Clone, Copy, Debug, PartialEq, Eq, Structural)]
pub struct RetainedFlags {
    pub early_wake: u32,
    pub last_battery_mv: u32,
    pub last_battery_valid: u32,
}

impl RetainedFlags {
    /// The last battery reading, if there is one.
    pub open spec fn battery(self) -> Option<u32> {
        if self.last_battery_valid == 0 {
            None
        } else {
            Some(self.last_battery_mv)
        }
    }

    /// Nothing is retained after a power loss.
    pub fn new() -> (flags: RetainedFlags)
        ensures
            flags.early_wake == 0,
            flags.battery() is None,
    {
        RetainedFlags { early_wake: 0, last_battery_mv: 0, last_battery_valid: 0 }
    }

    /// Whether an early wake was requested; the request is cleared.
    pub fn take_early_wake_flag(&mut self) -> (flag: bool)
        ensures
            flag == (old(self).early_wake != 0),
            *final(self) == (RetainedFlags { early_wake: 0, ..*old(self) }),
    {
        let flag = self.early_wake != 0;
        self.early_wake = 0;
        flag
    }

    /// Request an early wake.
    pub fn set_early_wake_flag(&mut self)
        ensures
            *final(self) == (RetainedFlags { early_wake: 1, ..*old(self) }),
    {
        self.early_wake = 1;
    }

    /// The last battery reading in millivolts, if there is one.
    pub fn read_last_battery_mv(&self) -> (mv: Option<u32>)
        ensures
            mv == self.battery(),
    {
        if self.last_battery_valid == 0 {
            None
        } else {
            Some(self.last_battery_mv)
        }
    }

    /// Retain a battery reading.
    pub fn write_last_battery_mv(&mut self, battery_mv: u32)
        ensures
            final(self).battery() == Some(battery_mv),
            final(self).early_wake == old(self).early_wake,
    {
        self.last_battery_mv = battery_mv;
        self.last_battery_valid = 1;
    }
}

/// A staged test is read exactly where its record is marked and flagged as
/// complete and its frame has 1 to 250 bytes; it is then what the record holds.
pub proof fn law_only_complete_staged_tests_are_read(record: RtcStagedTestCommand)
    ensures
        record.staged() is Some <==> record.magic == 0x5354_434D && record.valid == 1 && 1
            <= record.payload_len <= 250,
        record.staged() matches Some(test) ==> {
            &&& test.test_type == record.test_type
            &&& test.rf_channel is Some <==> record.rf_channel_present != 0
            &&& test.rf_channel matches Some(channel) ==> channel == record.rf_channel
            &&& test.payload.len() == record.payload_len
            &&& forall|i: int|
                0 <= i < record.payload_len ==> #[trigger] test.payload[i] == record.payload@[i]
        },
{
}

/// A result is read exactly where its record is marked and flagged as complete,
/// its status is known and its reply has at most 250 bytes; it is then what the
/// record holds, and a reply of no bytes is none.
pub proof fn law_only_complete_results_are_read(record: RtcTestResult)
    ensures
        record.retained() is Some <==> record.magic == 0x5452_4553 && record.valid == 1
            && record.reply_frame_len <= 250 && record.status <= 3,
        record.retained() matches Some(result) ==> {
            &&& result.status == status_from(record.status)->0
            &&& result.test_type is Some <==> record.test_type_present != 0
            &&& result.test_type matches Some(t) ==> t == record.test_type
            &&& result.reply_rssi_dbm is Some <==> record.reply_rssi_present != 0
            &&& result.reply_rssi_dbm matches Some(r) ==> r == record.reply_rssi_dbm
            &&& result.attempt_count == record.attempt_count
            &&& result.elapsed_ms == record.elapsed_ms
            &&& result.reply_frame is Some <==> record.reply_frame_len > 0
            &&& result.reply_frame matches Some(frame) ==> frame.len() == record.reply_frame_len
                && forall|i: int|
                0 <= i < frame.len() ==> #[trigger] frame[i] == record.reply_frame@[i]
        },
{
}

/// The stored forms of statuses are fixed and told apart.
pub proof fn law_statuses_have_fixed_codes(a: TestStatus, b: TestStatus, code: u8)
    ensures
        status_code(a) == status_code(b) ==> a == b,
        status_code(a) <= 3,
        status_from(code) is None <==> code > 3,
        status_from(code) matches Some(status) ==> status_code(status) == code,
        status_code(TestStatus::Success) == 0,
        status_code(TestStatus::Timeout) == 1,
        status_code(TestStatus::ExecutionError) == 2,
        status_code(TestStatus::NoResult) == 3,
{
}

/// What is kept of a result is all of it but an empty reply, and every reply of
/// up to 250 bytes can be kept; a frame is kept from its first byte on, with
/// zeros behind it.
pub proof fn law_results_are_kept_whole(result: TestOutcome, data: Seq<u8>, i: int)
    ensures
        stored_form(result).status == result.status,
        stored_form(result).test_type == result.test_type,
        stored_form(result).reply_rssi_dbm == result.reply_rssi_dbm,
        stored_form(result).attempt_count == result.attempt_count,
        stored_form(result).elapsed_ms == result.elapsed_ms,
        stored_form(result).reply_frame is None <==> (result.reply_frame is None
            || result.reply_frame->0.len() == 0),
        stored_form(result).reply_frame matches Some(frame) ==> result.reply_frame == Some(frame),
        fits(result) <==> (result.reply_frame is None || result.reply_frame->0.len() <= 250),
        padded(data).len() == 250,
        0 <= i < 250 && i < data.len() ==> padded(data)[i] == data[i],
        data.len() <= i < 250 ==> padded(data)[i] == 0,
{
}

/// A battery reading counts only where it was marked as one.
pub proof fn law_battery_needs_a_reading(flags: RetainedFlags)
    ensures
        flags.battery() is Some <==> flags.last_battery_valid != 0,
        flags.battery() matches Some(mv) ==> mv == flags.last_battery_mv,
{
}

/// A cleared record holds nothing: no marker, no flag, and no byte of a frame.
pub proof fn law_cleared_records_hold_nothing(
    command: RtcStagedTestCommand,
    result: RtcTestResult,
    i: int,
)
    requires
        0 <= i < 250,
    ensures
        command.is_zero() ==> command.staged() is None && command.magic == 0 && command.valid == 0
            && command.payload_len == 0 && command.payload@[i] == 0,
        result.is_zero() ==> result.retained() is None && result.magic == 0 && result.valid == 0
            && result.reply_frame_len == 0 && result.reply_frame@[i] == 0,
{
}

} // verus!
