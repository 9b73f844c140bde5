//! Plain values that the node's modules exchange.

use vstd::prelude::*;

verus! {

/// Largest radio frame.
pub const MAX_FRAME_SIZE: usize = 250;

/// Smallest radio frame: a header of 11 bytes and an authentication tag of 16.
pub const MIN_FRAME_SIZE: usize = 27;

/// Offset of the message type in a radio frame.
pub const OFFSET_MSG_TYPE: usize = 2;

/// The GPIO pins that a board provides.
#[derive(Clone, Copy, Debug, PartialEq, Eq, Structural)]
pub struct BoardLayout {
    pub i2c0_sda: Option<u8>,
    pub i2c0_scl: Option<u8>,
    pub one_wire_data: Option<u8>,
    pub battery_adc: Option<u8>,
    pub sensor_enable: Option<u8>,
}

/// The layout of boards that were provisioned without one: an I2C bus on the
/// first two pins.
pub open spec fn legacy_layout() -> BoardLayout {
    BoardLayout {
        i2c0_sda: Some(0),
        i2c0_scl: Some(1),
        one_wire_data: None,
        battery_adc: None,
        sensor_enable: None,
    }
}

impl BoardLayout {
    /// The layout of boards that were provisioned without one.
    pub fn legacy_compat() -> (layout: BoardLayout)
        ensures
            layout == legacy_layout(),
    {
        BoardLayout {
            i2c0_sda: Some(0),
            i2c0_scl: Some(1),
            one_wire_data: None,
            battery_adc: None,
            sensor_enable: None,
        }
    }
}

/// A pre-provisioning test that was requested and waits to be run.
#[derive(Debug, PartialEq, Eq)]
pub struct StagedTestCommand {
    pub test_type: u64,
    pub rf_channel: Option<u8>,
    pub payload: Vec<u8>,
}

/// A staged test as mathematical values.
pub ghost struct StagedTest {
    pub test_type: u64,
    pub rf_channel: Option<u8>,
    pub payload: Seq<u8>,
}

impl View for StagedTestCommand {
    type V = StagedTest;

    open spec fn view(&self) -> StagedTest {
        StagedTest {
            test_type: self.test_type,
            rf_channel: self.rf_channel,
            payload: self.payload@,
        }
    }
}

impl StagedTestCommand {
    /// A copy of the command.
    pub fn duplicate(&self) -> (copy: StagedTestCommand)
        ensures
            copy@ == self@,
    {
        StagedTestCommand {
            test_type: self.test_type,
            rf_channel: self.rf_channel,
            payload: crate::bytes::copy_bytes(self.payload.as_slice()),
        }
    }
}

/// A staged test, if any, as mathematical values.
pub open spec fn staged_view(command: Option<StagedTestCommand>) -> Option<StagedTest> {
    match command {
        Some(c) => Some(c@),
        None => None,
    }
}

/// How a pre-provisioning test ended.
#[derive(Clone, Copy, Debug, PartialEq, Eq, Structural)]
pub enum TestStatus {
    /// The expected reply arrived.
    Success,
    /// No reply arrived in time.
    Timeout,
    /// The test could not be run.
    ExecutionError,
    /// No test has been run.
    NoResult,
}

/// The expected reply arrived.
pub const TEST_RESULT_OK: TestStatus = TestStatus::Success;

/// No reply arrived in time.
pub const TEST_RESULT_TIMEOUT: TestStatus = TestStatus::Timeout;

/// The test could not be run.
pub const TEST_RESULT_EXECUTION_ERROR: TestStatus = TestStatus::ExecutionError;

/// No test has been run.
pub const TEST_RESULT_NO_RESULT: TestStatus = TestStatus::NoResult;

/// The result of a pre-provisioning test.
#[derive(Debug, PartialEq, Eq)]
pub struct TestResult {
    pub status: TestStatus,
    pub test_type: Option<u64>,
    pub reply_frame: Option<Vec<u8>>,
    pub reply_rssi_dbm: Option<i8>,
    pub attempt_count: u64,
    pub elapsed_ms: u64,
}

/// A test result as mathematical values.
pub ghost struct TestOutcome {
    pub status: TestStatus,
    pub test_type: Option<u64>,
    pub reply_frame: Option<Seq<u8>>,
    pub reply_rssi_dbm: Option<i8>,
    pub attempt_count: u64,
    pub elapsed_ms: u64,
}

/// Optional bytes as a sequence.
pub open spec fn bytes_view(bytes: Option<Vec<u8>>) -> Option<Seq<u8>> {
    match bytes {
        Some(b) => Some(b@),
        None => None,
    }
}

impl View for TestResult {
    type V = TestOutcome;

    open spec fn view(&self) -> TestOutcome {
        TestOutcome {
            status: self.status,
            test_type: self.test_type,
            reply_frame: bytes_view(self.reply_frame),
            reply_rssi_dbm: self.reply_rssi_dbm,
            attempt_count: self.attempt_count,
            elapsed_ms: self.elapsed_ms,
        }
    }
}

impl TestResult {
    /// A copy of the result.
    pub fn duplicate(&self) -> (copy: TestResult)
        ensures
            copy@ == self@,
    {
        TestResult {
            status: self.status,
            test_type: self.test_type,
            reply_frame: match &self.reply_frame {
                Some(frame) => Some(crate::bytes::copy_bytes(frame.as_slice())),
                None => None,
            },
            reply_rssi_dbm: self.reply_rssi_dbm,
            attempt_count: self.attempt_count,
            elapsed_ms: self.elapsed_ms,
        }
    }
}

/// A test result, if any, as mathematical values.
pub open spec fn result_view(result: Option<TestResult>) -> Option<TestOutcome> {
    match result {
        Some(r) => Some(r@),
        None => None,
    }
}

/// A frame received over the radio, with its signal strength where known.
#[derive(Debug, PartialEq, Eq)]
pub struct ReceivedFrame {
    pub data: Vec<u8>,
    pub rssi_dbm: Option<i8>,
}

/// A received frame as mathematical values.
pub ghost struct Received {
    pub data: Seq<u8>,
    pub rssi_dbm: Option<i8>,
}

impl View for ReceivedFrame {
    type V = Received;

    open spec fn view(&self) -> Received {
        Received { data: self.data@, rssi_dbm: self.rssi_dbm }
    }
}

/// Tests, results and frames stand for what they hold.
pub proof fn law_values_stand_for_themselves(
    command: StagedTestCommand,
    result: TestResult,
    frame: ReceivedFrame,
)
    ensures
        command@.test_type == command.test_type && command@.rf_channel == command.rf_channel,
        command@.payload == command.payload@,
        staged_view(Some(command)) == Some(command@) && staged_view(None) is None,
        result@.status == result.status && result@.test_type == result.test_type,
        result@.reply_rssi_dbm == result.reply_rssi_dbm,
        result@.attempt_count == result.attempt_count && result@.elapsed_ms == result.elapsed_ms,
        result@.reply_frame is Some <==> result.reply_frame is Some,
        result.reply_frame is Some ==> result@.reply_frame->0 == result.reply_frame->0@,
        result_view(Some(result)) == Some(result@) && result_view(None) is None,
        frame@.data == frame.data@ && frame@.rssi_dbm == frame.rssi_dbm,
        TEST_RESULT_OK is Success && TEST_RESULT_TIMEOUT is Timeout,
        TEST_RESULT_EXECUTION_ERROR is ExecutionError && TEST_RESULT_NO_RESULT is NoResult,
{
}

/// The layout of boards that were provisioned without one is an I2C bus on pins
/// 0 and 1, and nothing else.
pub proof fn law_legacy_layout_is_a_bus()
    ensures
        legacy_layout().i2c0_sda == Some(0u8),
        legacy_layout().i2c0_scl == Some(1u8),
        legacy_layout().one_wire_data is None,
        legacy_layout().battery_adc is None,
        legacy_layout().sensor_enable is None,
        MAX_FRAME_SIZE == 250,
        MIN_FRAME_SIZE == 27,
        OFFSET_MSG_TYPE == 2,
{
}

} // verus!
