//! Pre-provisioning test mode: a test is requested over BLE and staged, run
//! after a reboot, and its result is kept until it is read.

use vstd::prelude::*;

use crate::node::ble_pairing::{encode_ble_envelope, envelope};
use crate::node::error::NodeResult;
use crate::node::traits::{
    keeps_promises, received_view, Clock, PlatformStorage, StorageOp, Stored, Transport,
};
use crate::node::types::{
    staged_view, Received, ReceivedFrame, StagedTest, StagedTestCommand, TestOutcome,
    TestResult, TestStatus, MAX_FRAME_SIZE, MIN_FRAME_SIZE, OFFSET_MSG_TYPE,
};

verus! {

/// The test that sends a diagnostic frame and waits for the reply to it.
pub const TEST_TYPE_DIAG_FRAME: u64 = 1;

/// How often a diagnostic frame is sent again.
pub const TEST_MAX_RETRIES: u64 = 3;

/// Delay before a diagnostic frame is sent again, in milliseconds.
pub const TEST_RETRY_DELAY_MS: u32 = 200;

/// How long a reply is waited for, in milliseconds.
pub const TEST_LISTEN_TIMEOUT_MS: u32 = 2_000;

/// The answer to a test request.
#[derive(Clone, Copy, Debug, PartialEq, Eq, Structural)]
pub enum RunTestAck {
    /// The test was staged.
    Accepted,
    /// The request is malformed, or it could not be staged.
    Invalid,
    /// There is no such test.
    Unsupported,
}

/// The test was staged.
pub const RUN_TEST_ACK_OK: RunTestAck = RunTestAck::Accepted;

/// The request is malformed, or it could not be staged.
pub const RUN_TEST_ACK_INVALID: RunTestAck = RunTestAck::Invalid;

/// There is no such test.
pub const RUN_TEST_ACK_UNSUPPORTED: RunTestAck = RunTestAck::Unsupported;

/// A decoded test request.
#[derive(Debug, PartialEq, Eq)]
pub struct RunTestCommand {
    pub test_type: u64,
    pub rf_channel: Option<u8>,
    pub payload: Vec<u8>,
}

impl View for RunTestCommand {
    type V = StagedTest;

    open spec fn view(&self) -> StagedTest {
        StagedTest {
            test_type: self.test_type,
            rf_channel: self.rf_channel,
            payload: self.payload@,
        }
    }
}

/// The BLE message that carries an encoded RUN_TEST_ACK.  Without a body, as
/// where it could not be encoded, the message is empty; one that is too long
/// to be framed is dropped.
pub fn encode_run_test_ack(msg_type: u8, body: Option<Vec<u8>>) -> (data: Vec<u8>)
    ensures
        data@ == (match body {
            Some(b) => if b@.len() <= 0xffff {
                envelope(msg_type, b@)
            } else {
                Seq::<u8>::empty()
            },
            None => envelope(msg_type, Seq::<u8>::empty()),
        }),
{
    let body = match body {
        Some(b) => b,
        None => Vec::new(),
    };
    match encode_ble_envelope(msg_type, body.as_slice()) {
        Some(data) => data,
        None => Vec::new(),
    }
}

/// What a test request may do.
pub open spec fn was_staged<S: PlatformStorage>(
    pre: S,
    command: Option<StagedTest>,
    post: S,
    ack: RunTestAck,
    staged: Option<StagedTest>,
) -> bool {
    match command {
        None => post == pre && ack == RunTestAck::Invalid && staged is None,
        Some(c) => if c.test_type != TEST_TYPE_DIAG_FRAME {
            post == pre && ack == RunTestAck::Unsupported && staged is None
        } else {
            exists|result: NodeResult<()>| #[trigger]
                S::changed(pre, StorageOp::WriteStagedTest { command: c }, post, result) && (
                if result is Ok {
                    ack == RunTestAck::Accepted && staged == Some(c)
                } else {
                    ack == RunTestAck::Invalid && staged is None
                })
        },
    }
}

/// Validate and stage a test.  `command` is the decoded request; `None` if it
/// does not decode.
pub fn handle_run_test_command<S: PlatformStorage>(
    command: Option<RunTestCommand>,
    storage: &mut S,
) -> (answer: (RunTestAck, Option<StagedTestCommand>))
    ensures
        was_staged(
            *old(storage),
            match command {
                Some(c) => Some(c@),
                None => None,
            },
            *final(storage),
            answer.0,
            staged_view(answer.1),
        ),
{
    let command = match command {
        Some(c) => c,
        None => {
            return (RUN_TEST_ACK_INVALID, None);
        },
    };
    if command.test_type != TEST_TYPE_DIAG_FRAME {
        return (RUN_TEST_ACK_UNSUPPORTED, None);
    }
    let ghost pre = *storage;
    let staged = StagedTestCommand {
        test_type: command.test_type,
        rf_channel: command.rf_channel,
        payload: command.payload,
    };
    let result = storage.write_staged_test_command(&staged);
    assert(S::changed(pre, StorageOp::WriteStagedTest { command: command@ }, *storage, result));
    if result.is_err() {
        return (RUN_TEST_ACK_INVALID, None);
    }
    (RUN_TEST_ACK_OK, Some(staged))
}

/// The result that says that no test has been run.
pub open spec fn no_result_outcome() -> TestOutcome {
    TestOutcome {
        status: TestStatus::NoResult,
        test_type: None,
        reply_frame: None,
        reply_rssi_dbm: None,
        attempt_count: 0,
        elapsed_ms: 0,
    }
}

/// The result that says that a test could not be run.
pub open spec fn error_outcome(test_type: u64, attempt_count: u64, elapsed_ms: u64) -> TestOutcome {
    TestOutcome {
        status: TestStatus::ExecutionError,
        test_type: Some(test_type),
        reply_frame: None,
        reply_rssi_dbm: None,
        attempt_count,
        elapsed_ms,
    }
}

/// The result that says that no reply came in time.
pub open spec fn timeout_outcome(test_type: u64, attempt_count: u64, elapsed_ms: u64) -> TestOutcome {
    TestOutcome { status: TestStatus::Timeout, ..error_outcome(test_type, attempt_count, elapsed_ms)
    }
}

/// The result that reports a reply.
pub open spec fn success_outcome(
    test_type: u64,
    reply: Received,
    attempt_count: u64,
    elapsed_ms: u64,
) -> TestOutcome {
    TestOutcome {
        status: TestStatus::Success,
        test_type: Some(test_type),
        reply_frame: Some(reply.data),
        reply_rssi_dbm: reply.rssi_dbm,
        attempt_count,
        elapsed_ms,
    }
}

/// What is presented of a result that may not be valid.
pub open spec fn sanitized(result: TestOutcome, valid: bool) -> TestOutcome {
    if valid {
        result
    } else {
        match result.test_type {
            Some(test_type) => error_outcome(test_type, result.attempt_count, result.elapsed_ms),
            None => no_result_outcome(),
        }
    }
}

/// The result that says that no test has been run.
fn no_result_result() -> (result: TestResult)
    ensures
        result@ == no_result_outcome(),
{
    TestResult {
        status: TestStatus::NoResult,
        test_type: None,
        reply_frame: None,
        reply_rssi_dbm: None,
        attempt_count: 0,
        elapsed_ms: 0,
    }
}

/// The result that says that a test could not be run.
pub fn execution_error_result(test_type: u64, attempt_count: u64, elapsed_ms: u64) -> (result:
    TestResult)
    ensures
        result@ == error_outcome(test_type, attempt_count, elapsed_ms),
{
    TestResult {
        status: TestStatus::ExecutionError,
        test_type: Some(test_type),
        reply_frame: None,
        reply_rssi_dbm: None,
        attempt_count,
        elapsed_ms,
    }
}

/// Replace a result that is not valid by one that is; `valid` says whether it
/// is.
pub fn sanitize_test_result(result: &TestResult, valid: bool) -> (clean: TestResult)
    ensures
        clean@ == sanitized(result@, valid),
{
    if valid {
        return result.duplicate();
    }
    match result.test_type {
        Some(test_type) => execution_error_result(
            test_type,
            result.attempt_count,
            result.elapsed_ms,
        ),
        None => no_result_result(),
    }
}

/// The BLE message that carries a TEST_RESULT.  `validate` says whether a result
/// is valid, and `encode` encodes one; a result that is not valid is replaced
/// before it is encoded.
pub fn encode_test_result_response<V: Fn(&TestResult) -> bool, E: Fn(&TestResult) -> Vec<u8>>(
    msg_type: u8,
    result: &TestResult,
    validate: V,
    encode: E,
) -> (data: Vec<u8>)
    requires
        call_requires(validate, (result,)),
        forall|r: &TestResult| #[trigger] call_requires(encode, (r,)),
        forall|r: &TestResult, body: Vec<u8>| #[trigger]
            call_ensures(encode, (r,), body) ==> body@.len() <= 0xffff,
    ensures
        exists|valid: bool, clean: &TestResult, body: Vec<u8>|
            {
                &&& #[trigger] call_ensures(validate, (result,), valid)
                &&& clean@ == sanitized(result@, valid)
                &&& #[trigger] call_ensures(encode, (clean,), body)
                &&& data@ == envelope(msg_type, body@)
            },
{
    let valid = validate(result);
    let clean = sanitize_test_result(result, valid);
    let body = encode(&clean);
    assert(call_ensures(validate, (result,), valid));
    assert(call_ensures(encode, (&clean,), body));
    match encode_ble_envelope(msg_type, body.as_slice()) {
        Some(data) => data,
        None => Vec::new(),
    }
}

/// Read the latest test result; `validate` says whether a result is valid.
/// The request has no body.
pub fn handle_read_test_result<S: PlatformStorage, V: Fn(&TestResult) -> bool>(
    body: &[u8],
    storage: &S,
    validate: V,
) -> (answer: Result<TestResult, &'static str>)
    requires
        forall|result: &TestResult| #[trigger] call_requires(validate, (result,)),
    ensures
        match answer {
            Err(reason) => body@.len() > 0 && reason == "READ_TEST_RESULT body must be empty",
            Ok(result) => body@.len() == 0 && match storage.holds().test_result {
                None => result@ == no_result_outcome(),
                Some(retained) => exists|r: &TestResult, valid: bool|
                    r@ == retained && #[trigger] call_ensures(validate, (r,), valid) && result@
                        == sanitized(retained, valid),
            },
        },
{
    if body.len() > 0 {
        return Err("READ_TEST_RESULT body must be empty");
    }
    match storage.read_test_result() {
        None => Ok(no_result_result()),
        Some(retained) => {
            let valid = validate(&retained);
            assert(call_ensures(validate, (&retained,), valid));
            Ok(sanitize_test_result(&retained, valid))
        },
    }
}

/// A valid result is presented as it is, and one that was replaced is not
/// changed by being replaced again.
pub proof fn law_valid_result_is_presented_unchanged(result: TestOutcome)
    ensures
        sanitized(result, true) == result,
        sanitized(sanitized(result, false), false) == sanitized(result, false),
{
}

/// How the reply to a diagnostic frame is waited for.
#[derive(Clone, Copy, Debug, PartialEq, Eq, Structural)]
pub struct ReplyWait {
    /// Message type of the reply.
    pub msg_type: u8,
    /// Whether the wait goes on after another frame; where it does not, that
    /// frame ends the attempt.
    pub past_other_frames: bool,
}

/// Whether a received frame is the reply to a diagnostic frame, whose message
/// type is `diag_reply`.
pub open spec fn is_diag_reply(frame: Received, diag_reply: u8) -> bool {
    frame.data.len() >= MIN_FRAME_SIZE && frame.data[OFFSET_MSG_TYPE as int] == diag_reply
}

/// What is left of a listening time after a frame that was waited for from
/// `before` to `after`; at least a millisecond is used up.
pub open spec fn time_left(remaining_ms: u32, before: u64, after: u64) -> u32 {
    let elapsed = if after <= before {
        1int
    } else {
        after - before
    };
    if elapsed >= remaining_ms {
        0
    } else {
        (remaining_ms - elapsed) as u32
    }
}

/// The reply, if it is what one reception returned.
pub open spec fn reply_in(frame: NodeResult<Option<Received>>, diag_reply: u8) -> Option<Received> {
    match frame {
        Ok(Some(f)) => if is_diag_reply(f, diag_reply) {
            Some(f)
        } else {
            None
        },
        _ => None,
    }
}

/// What listening for a reply may do: another frame ends it, or is ignored
/// until the time is used up, the wait expires or the transport fails.
pub open spec fn was_listened<T: Transport, C: Clock>(
    t: T,
    c: C,
    remaining_ms: u32,
    wait: ReplyWait,
    t_after: T,
    c_after: C,
    reply: Option<Received>,
) -> bool
    decreases remaining_ms,
{
    if !wait.past_other_frames {
        exists|frame: NodeResult<Option<Received>>| #[trigger]
            T::was_received(t, remaining_ms, t_after, frame) && c_after == c && reply == reply_in(
                frame,
                wait.msg_type,
            )
    } else if remaining_ms == 0 {
        t_after == t && c_after == c && reply is None
    } else {
        exists|c1: C, before: u64, t1: T, frame: NodeResult<Option<Received>>| #[trigger]
            C::was_read(c, c1, before) && #[trigger] T::was_received(t, remaining_ms, t1, frame)
                && match frame {
                Ok(Some(f)) => if is_diag_reply(f, wait.msg_type) {
                    t_after == t1 && c_after == c1 && reply == Some(f)
                } else {
                    exists|c2: C, after: u64| #[trigger]
                        C::was_read(c1, c2, after) && was_listened(
                            t1,
                            c2,
                            time_left(remaining_ms, before, after),
                            wait,
                            t_after,
                            c_after,
                            reply,
                        )
                },
                _ => t_after == t1 && c_after == c1 && reply is None,
            }
    }
}

/// How the attempts of a diagnostic test ended.
pub ghost struct Attempts {
    /// Number of the last attempt.
    pub count: nat,
    /// Whether any frame could be sent.
    pub sent: bool,
    /// The reply, if one came.
    pub reply: Option<Received>,
}

/// What the delay before an attempt may do; there is none before the first.
pub open spec fn was_delayed<C: Clock>(c: C, made: nat, c_after: C) -> bool {
    if made > 0 {
        C::delayed_ms(c, TEST_RETRY_DELAY_MS, c_after)
    } else {
        c_after == c
    }
}

/// What the attempts after the first `made` ones may do; `sent` says whether a
/// frame was sent in those.
pub open spec fn was_attempted<T: Transport, C: Clock>(
    t: T,
    c: C,
    made: nat,
    sent: bool,
    payload: Seq<u8>,
    wait: ReplyWait,
    t_after: T,
    c_after: C,
    end: Attempts,
) -> bool
    decreases TEST_MAX_RETRIES + 1 - made,
{
    if made > TEST_MAX_RETRIES {
        t_after == t && c_after == c && end == (Attempts { count: made, sent, reply: None })
    } else {
        exists|c1: C, t1: T, result: NodeResult<()>| #[trigger]
            was_delayed(c, made, c1) && #[trigger] T::was_sent(t, payload, t1, result)
                && after_send(
                t1,
                c1,
                made,
                sent,
                result,
                payload,
                wait,
                t_after,
                c_after,
                end,
            )
    }
}

/// What follows a send: after a failed one the next attempt, else a wait for
/// the reply.
pub open spec fn after_send<T: Transport, C: Clock>(
    t: T,
    c: C,
    made: nat,
    sent: bool,
    result: NodeResult<()>,
    payload: Seq<u8>,
    wait: ReplyWait,
    t_after: T,
    c_after: C,
    end: Attempts,
) -> bool
    decreases TEST_MAX_RETRIES + 1 - made, 0nat,
    when made <= TEST_MAX_RETRIES
{
    if result is Err {
        was_attempted(t, c, made + 1, sent, payload, wait, t_after, c_after, end)
    } else {
        exists|t1: T, c1: C, reply: Option<Received>| #[trigger]
            was_listened(t, c, TEST_LISTEN_TIMEOUT_MS, wait, t1, c1, reply) && match reply {
                Some(_) => {
                    &&& t_after == t1 && c_after == c1
                    &&& end == (Attempts { count: made + 1, sent: true, reply })
                },
                None => was_attempted(
                    t1,
                    c1,
                    made + 1,
                    true,
                    payload,
                    wait,
                    t_after,
                    c_after,
                    end,
                ),
            }
    }
}

/// Whether a received frame is the reply to a diagnostic frame.
fn diag_reply_received(frame: &ReceivedFrame, diag_reply: u8) -> (matched: bool)
    ensures
        matched == is_diag_reply(frame@, diag_reply),
{
    frame.data.len() >= MIN_FRAME_SIZE && frame.data[OFFSET_MSG_TYPE] == diag_reply
}

/// Take the next frame, waited for at most `timeout_ms` milliseconds, if it is
/// the reply to a diagnostic frame.
fn listen_once<T: Transport>(transport: &mut T, timeout_ms: u32, diag_reply: u8) -> (reply: Option<
    ReceivedFrame,
>)
    ensures
        exists|frame: NodeResult<Option<Received>>| #[trigger]
            T::was_received(*old(transport), timeout_ms, *final(transport), frame) && reply_view(
                reply,
            ) == reply_in(frame, diag_reply),
{
    let frame = transport.recv_with_metadata(timeout_ms);
    assert(T::was_received(*old(transport), timeout_ms, *transport, received_view(frame)));
    match frame {
        Ok(Some(f)) => if diag_reply_received(&f, diag_reply) {
            Some(f)
        } else {
            None
        },
        _ => None,
    }
}

/// Listen for the reply to a diagnostic frame, for at most `timeout_ms`
/// milliseconds.
fn listen<T: Transport, C: Clock>(
    transport: &mut T,
    clock: &mut C,
    timeout_ms: u32,
    wait: ReplyWait,
) -> (reply: Option<ReceivedFrame>)
    ensures
        was_listened(
            *old(transport),
            *old(clock),
            timeout_ms,
            wait,
            *final(transport),
            *final(clock),
            reply_view(reply),
        ),
{
    let ghost t0 = *transport;
    let ghost c0 = *clock;
    if !wait.past_other_frames {
        return listen_once(transport, timeout_ms, wait.msg_type);
    }
    let mut remaining_ms: u32 = timeout_ms;
    while remaining_ms > 0
        invariant
            t0 == *old(transport),
            c0 == *old(clock),
            wait.past_other_frames,
            forall|t_after: T, c_after: C, reply: Option<Received>|
                #[trigger] was_listened(
                    *transport,
                    *clock,
                    remaining_ms,
                    wait,
                    t_after,
                    c_after,
                    reply,
                ) ==> was_listened(
                    t0,
                    c0,
                    timeout_ms,
                    wait,
                    t_after,
                    c_after,
                    reply,
                ),
        decreases remaining_ms,
    {
        let ghost t = *transport;
        let ghost c = *clock;
        let before = clock.elapsed_ms();
        let ghost c1 = *clock;
        let frame = transport.recv_with_metadata(remaining_ms);
        let ghost t1 = *transport;
        assert(C::was_read(c, c1, before));
        assert(T::was_received(t, remaining_ms, t1, received_view(frame)));
        match frame {
            Ok(Some(f)) => {
                if diag_reply_received(&f, wait.msg_type) {
                    assert(was_listened(
                        t,
                        c,
                        remaining_ms,
                        wait,
                        t1,
                        c1,
                        Some(f@),
                    ));
                    return Some(f);
                }
                let after = clock.elapsed_ms();
                let ghost c2 = *clock;
                assert(C::was_read(c1, c2, after));
                let mut elapsed: u64 = after.saturating_sub(before);
                if elapsed < 1 {
                    elapsed = 1;
                }
                let ghost was = remaining_ms;
                if elapsed >= remaining_ms as u64 {
                    remaining_ms = 0;
                } else {
                    remaining_ms = remaining_ms - elapsed as u32;
                }
                proof {
                    assert(remaining_ms == time_left(was, before, after));
                    assert forall|t_after: T, c_after: C, reply: Option<Received>|
                        #[trigger] was_listened(
                            *transport,
                            *clock,
                            remaining_ms,
                            wait,
                            t_after,
                            c_after,
                            reply,
                        ) implies was_listened(
                        t0,
                        c0,
                        timeout_ms,
                        wait,
                        t_after,
                        c_after,
                        reply,
                    ) by {
                        assert(was_listened(
                            t,
                            c,
                            was,
                            wait,
                            t_after,
                            c_after,
                            reply,
                        ));
                    }
                }
            },
            _ => {
                assert(was_listened(t, c, remaining_ms, wait, t1, c1, None::<Received>));
                return None;
            },
        }
    }
    assert(was_listened(
        *transport,
        *clock,
        remaining_ms,
        wait,
        *transport,
        *clock,
        None::<Received>,
    ));
    None
}

/// A reply, if any, as mathematical values.
pub open spec fn reply_view(reply: Option<ReceivedFrame>) -> Option<Received> {
    match reply {
        Some(f) => Some(f@),
        None => None,
    }
}

/// Make the attempts after the first `made` ones.  Returns the number of the
/// last attempt, whether any frame was sent, and the reply.
fn attempt<T: Transport, C: Clock>(
    transport: &mut T,
    clock: &mut C,
    made: u64,
    sent: bool,
    payload: &[u8],
    wait: ReplyWait,
) -> (end: (u64, bool, Option<ReceivedFrame>))
    requires
        made <= TEST_MAX_RETRIES + 1,
    ensures
        was_attempted(
            *old(transport),
            *old(clock),
            made as nat,
            sent,
            payload@,
            wait,
            *final(transport),
            *final(clock),
            (Attempts { count: end.0 as nat, sent: end.1, reply: reply_view(end.2) }),
        ),
        end.0 <= TEST_MAX_RETRIES + 1,
    decreases TEST_MAX_RETRIES + 1 - made,
{
    if made > TEST_MAX_RETRIES {
        return (made, sent, None);
    }
    let ghost t = *transport;
    let ghost c = *clock;
    if made > 0 {
        clock.delay_ms(TEST_RETRY_DELAY_MS);
    }
    let ghost c1 = *clock;
    let result = transport.send(payload);
    let ghost t1 = *transport;
    assert(was_delayed(c, made as nat, c1));
    assert(T::was_sent(t, payload@, t1, result));
    let end;
    if result.is_err() {
        end = attempt(transport, clock, made + 1, sent, payload, wait);
    } else {
        let reply = listen(transport, clock, TEST_LISTEN_TIMEOUT_MS, wait);
        assert(was_listened(
            t1,
            c1,
            TEST_LISTEN_TIMEOUT_MS,
            wait,
            *transport,
            *clock,
            reply_view(reply),
        ));
        match reply {
            Some(f) => {
                end = (made + 1, true, Some(f));
            },
            None => {
                end = attempt(transport, clock, made + 1, true, payload, wait);
            },
        }
    }
    assert(after_send(
        t1,
        c1,
        made as nat,
        sent,
        result,
        payload@,
        wait,
        *transport,
        *clock,
        Attempts { count: end.0 as nat, sent: end.1, reply: reply_view(end.2) },
    ));
    end
}

/// Whether a diagnostic test can be run: it names a channel from 1 to 13 and
/// carries a frame.
pub open spec fn can_run(command: StagedTest) -> bool {
    &&& command.rf_channel matches Some(channel)
    &&& 1 <= channel <= 13
    &&& 0 < command.payload.len() <= MAX_FRAME_SIZE
}

/// `a - b`, or zero where `b` is the larger.
pub open spec fn elapsed(a: u64, b: u64) -> u64 {
    if a >= b {
        (a - b) as u64
    } else {
        0
    }
}

/// The result of a test whose attempts ended like this.
pub open spec fn diag_outcome(test_type: u64, end: Attempts, elapsed_ms: u64) -> TestOutcome {
    match end.reply {
        Some(reply) => success_outcome(test_type, reply, end.count as u64, elapsed_ms),
        None => if end.sent {
            timeout_outcome(test_type, end.count as u64, elapsed_ms)
        } else {
            error_outcome(test_type, end.count as u64, elapsed_ms)
        },
    }
}

/// What a diagnostic test may do, once it has begun at `start`.
pub open spec fn was_tested_from<T: Transport, C: Clock>(
    t: T,
    c: C,
    start: u64,
    command: StagedTest,
    wait: ReplyWait,
    t_after: T,
    c_after: C,
    result: TestOutcome,
) -> bool {
    exists|c1: C, end: Attempts, now: u64| #[trigger]
        was_attempted(t, c, 0, false, command.payload, wait, t_after, c1, end) && #[trigger]
        C::was_read(c1, c_after, now) && result == diag_outcome(
            command.test_type,
            end,
            elapsed(now, start),
        )
}

/// What a diagnostic test may do.
pub open spec fn was_diag_tested<T: Transport, C: Clock>(
    t: T,
    c: C,
    command: StagedTest,
    wait: ReplyWait,
    t_after: T,
    c_after: C,
    result: TestOutcome,
) -> bool {
    exists|c1: C, start: u64| #[trigger]
        C::was_read(c, c1, start) && (if can_run(command) {
            was_tested_from(t, c1, start, command, wait, t_after, c_after, result)
        } else {
            t_after == t && c_after == c1 && result == error_outcome(command.test_type, 0, 0)
        })
}

/// Run a diagnostic test: send the frame and wait for the reply, and try again
/// a few times.
fn execute_diag_frame_test<T: Transport, C: Clock>(
    transport: &mut T,
    clock: &mut C,
    command: &StagedTestCommand,
    wait: ReplyWait,
) -> (result: TestResult)
    ensures
        was_diag_tested(
            *old(transport),
            *old(clock),
            command@,
            wait,
            *final(transport),
            *final(clock),
            result@,
        ),
{
    let ghost c = *clock;
    let start_ms = clock.elapsed_ms();
    let ghost t1 = *transport;
    let ghost c1 = *clock;
    assert(C::was_read(c, c1, start_ms));
    let channel_ok = match command.rf_channel {
        Some(channel) => 1 <= channel && channel <= 13,
        None => false,
    };
    if !channel_ok || command.payload.len() == 0 || command.payload.len() > MAX_FRAME_SIZE {
        return execution_error_result(command.test_type, 0, 0);
    }
    let (attempt_count, sent, reply) = attempt(
        transport,
        clock,
        0,
        false,
        command.payload.as_slice(),
        wait,
    );
    let ghost end = Attempts { count: attempt_count as nat, sent, reply: reply_view(reply) };
    let ghost c2 = *clock;
    assert(was_attempted(
        t1,
        c1,
        0,
        false,
        command@.payload,
        wait,
        *transport,
        c2,
        end,
    ));
    let now = clock.elapsed_ms();
    assert(C::was_read(c2, *clock, now));
    let elapsed_ms: u64 = now.saturating_sub(start_ms);
    let result = match reply {
        Some(frame) => TestResult {
            status: TestStatus::Success,
            test_type: Some(command.test_type),
            reply_frame: Some(frame.data),
            reply_rssi_dbm: frame.rssi_dbm,
            attempt_count,
            elapsed_ms,
        },
        None => if sent {
            TestResult {
                status: TestStatus::Timeout,
                test_type: Some(command.test_type),
                reply_frame: None,
                reply_rssi_dbm: None,
                attempt_count,
                elapsed_ms,
            }
        } else {
            execution_error_result(command.test_type, attempt_count, elapsed_ms)
        },
    };
    assert(result@ == diag_outcome(command.test_type, end, elapsed_ms));
    assert(was_tested_from(
        t1,
        c1,
        start_ms,
        command@,
        wait,
        *transport,
        *clock,
        result@,
    ));
    result
}

/// What keeping the result of a test may do: the result is written and the
/// staged test is cleared, even if the result could not be written.
pub open spec fn was_kept<S: PlatformStorage>(
    pre: S,
    result: TestOutcome,
    post: S,
    kept: NodeResult<()>,
) -> bool {
    exists|mid: S, written: NodeResult<()>, cleared: NodeResult<()>| #[trigger]
        S::changed(pre, StorageOp::WriteTestResult { result }, mid, written) && #[trigger]
        S::changed(mid, StorageOp::ClearStagedTest, post, cleared) && kept == (
        if written is Err {
            written
        } else {
            cleared
        })
}

/// What running the staged test may do.
pub open spec fn was_executed<S: PlatformStorage, T: Transport, C: Clock>(
    s: S,
    t: T,
    c: C,
    wait: ReplyWait,
    s_after: S,
    t_after: T,
    c_after: C,
    answer: NodeResult<Option<TestOutcome>>,
) -> bool {
    match s.holds().staged_test {
        None => s_after == s && t_after == t && c_after == c && answer == Ok::<
            Option<TestOutcome>,
            crate::node::error::NodeError,
        >(None),
        Some(command) => exists|result: TestOutcome, kept: NodeResult<()>|
            (if command.test_type == TEST_TYPE_DIAG_FRAME {
                was_diag_tested(t, c, command, wait, t_after, c_after, result)
            } else {
                t_after == t && c_after == c && result == error_outcome(command.test_type, 0, 0)
            }) && #[trigger] was_kept(s, result, s_after, kept) && answer == (match kept {
                Ok(_) => Ok(Some(result)),
                Err(error) => Err(error),
            }),
    }
}

/// The answer of a test run as mathematical values.
pub open spec fn answer_view(answer: NodeResult<Option<TestResult>>) -> NodeResult<
    Option<TestOutcome>,
> {
    match answer {
        Ok(Some(r)) => Ok(Some(r@)),
        Ok(None) => Ok(None),
        Err(error) => Err(error),
    }
}

/// Run the staged test, if there is one, keep its result and clear it.
/// `wait` says how the reply to a diagnostic frame is waited for.
pub fn execute_staged_test_command<S: PlatformStorage, T: Transport, C: Clock>(
    storage: &mut S,
    transport: &mut T,
    clock: &mut C,
    wait: ReplyWait,
) -> (answer: NodeResult<Option<TestResult>>)
    ensures
        was_executed(
            *old(storage),
            *old(transport),
            *old(clock),
            wait,
            *final(storage),
            *final(transport),
            *final(clock),
            answer_view(answer),
        ),
{
    let command = match storage.read_staged_test_command() {
        Some(command) => command,
        None => {
            return Ok(None);
        },
    };
    let ghost s = *storage;
    let result = if command.test_type == TEST_TYPE_DIAG_FRAME {
        execute_diag_frame_test(transport, clock, &command, wait)
    } else {
        execution_error_result(command.test_type, 0, 0)
    };
    let written = storage.write_test_result(&result);
    let ghost mid = *storage;
    assert(S::changed(s, StorageOp::WriteTestResult { result: result@ }, mid, written));
    let cleared = storage.clear_staged_test_command();
    assert(S::changed(mid, StorageOp::ClearStagedTest, *storage, cleared));
    let kept = if written.is_err() {
        written
    } else {
        cleared
    };
    assert(was_kept(s, result@, *storage, kept));
    match kept {
        Ok(()) => Ok(Some(result)),
        Err(error) => Err(error),
    }
}

/// What listening finds is a reply to a diagnostic frame.
proof fn lemma_listening_finds_replies<T: Transport, C: Clock>(
    t: T,
    c: C,
    remaining_ms: u32,
    wait: ReplyWait,
    t_after: T,
    c_after: C,
    reply: Option<Received>,
)
    requires
        was_listened(t, c, remaining_ms, wait, t_after, c_after, reply),
    ensures
        reply matches Some(f) ==> is_diag_reply(f, wait.msg_type),
    decreases remaining_ms,
{
    if remaining_ms > 0 && wait.past_other_frames {
        let (c1, before, t1, frame) = choose|
            c1: C,
            before: u64,
            t1: T,
            frame: NodeResult<Option<Received>>,
        | #[trigger]
            C::was_read(c, c1, before) && #[trigger] T::was_received(t, remaining_ms, t1, frame)
                && match frame {
                Ok(Some(f)) => if is_diag_reply(f, wait.msg_type) {
                    t_after == t1 && c_after == c1 && reply == Some(f)
                } else {
                    exists|c2: C, after: u64| #[trigger]
                        C::was_read(c1, c2, after) && was_listened(
                            t1,
                            c2,
                            time_left(remaining_ms, before, after),
                            wait,
                            t_after,
                            c_after,
                            reply,
                        )
                },
                _ => t_after == t1 && c_after == c1 && reply is None,
            };
        if let Ok(Some(f)) = frame {
            if !is_diag_reply(f, wait.msg_type) {
                let (c2, after) = choose|c2: C, after: u64| #[trigger]
                    C::was_read(c1, c2, after) && was_listened(
                        t1,
                        c2,
                        time_left(remaining_ms, before, after),
                        wait,
                        t_after,
                        c_after,
                        reply,
                    );
                lemma_listening_finds_replies(
                    t1,
                    c2,
                    time_left(remaining_ms, before, after),
                    wait,
                    t_after,
                    c_after,
                    reply,
                );
            }
        }
    }
}

/// A test makes at most four attempts, and all four unless a reply ends it;
/// the reply that it reports is one to a diagnostic frame.
pub proof fn law_attempts_are_bounded<T: Transport, C: Clock>(
    t: T,
    c: C,
    made: nat,
    sent: bool,
    payload: Seq<u8>,
    wait: ReplyWait,
    t_after: T,
    c_after: C,
    end: Attempts,
)
    requires
        made <= TEST_MAX_RETRIES + 1,
        was_attempted(t, c, made, sent, payload, wait, t_after, c_after, end),
    ensures
        made <= end.count <= TEST_MAX_RETRIES + 1,
        end.reply is None ==> end.count == TEST_MAX_RETRIES + 1,
        end.reply matches Some(f) ==> end.count > made && end.sent && is_diag_reply(f, wait.msg_type),
        sent ==> end.sent,
    decreases TEST_MAX_RETRIES + 1 - made,
{
    if made <= TEST_MAX_RETRIES {
        let (c1, t1, result) = choose|c1: C, t1: T, result: NodeResult<()>| #[trigger]
            was_delayed(c, made, c1) && #[trigger] T::was_sent(t, payload, t1, result)
                && after_send(
                t1,
                c1,
                made,
                sent,
                result,
                payload,
                wait,
                t_after,
                c_after,
                end,
            );
        if result is Err {
            law_attempts_are_bounded(
                t1,
                c1,
                made + 1,
                sent,
                payload,
                wait,
                t_after,
                c_after,
                end,
            );
        } else {
            let (t2, c2, reply) = choose|t2: T, c2: C, reply: Option<Received>| #[trigger]
                was_listened(t1, c1, TEST_LISTEN_TIMEOUT_MS, wait, t2, c2, reply)
                    && match reply {
                    Some(_) => {
                        &&& t_after == t2 && c_after == c2
                        &&& end == (Attempts { count: made + 1, sent: true, reply })
                    },
                    None => was_attempted(
                        t2,
                        c2,
                        made + 1,
                        true,
                        payload,
                        wait,
                        t_after,
                        c_after,
                        end,
                    ),
                };
            lemma_listening_finds_replies(
                t1,
                c1,
                TEST_LISTEN_TIMEOUT_MS,
                wait,
                t2,
                c2,
                reply,
            );
            if reply is None {
                law_attempts_are_bounded(
                    t2,
                    c2,
                    made + 1,
                    true,
                    payload,
                    wait,
                    t_after,
                    c_after,
                    end,
                );
            }
        }
    }
}

/// A test that was run is not run again, and its result can be read: faithful
/// storage then holds the result and no staged test.
pub proof fn law_result_is_kept<S: PlatformStorage, T: Transport, C: Clock>(
    s: S,
    t: T,
    c: C,
    wait: ReplyWait,
    s_after: S,
    t_after: T,
    c_after: C,
    result: TestOutcome,
    default_interval_s: u32,
)
    requires
        keeps_promises::<S>(default_interval_s),
        was_executed(s, t, c, wait, s_after, t_after, c_after, Ok(Some(result))),
    ensures
        s_after.holds() == (Stored {
            test_result: Some(result),
            staged_test: None,
            ..s.holds()
        }),
{
    let command = s.holds().staged_test->0;
    let kept: NodeResult<()> = choose|kept: NodeResult<()>| #[trigger]
        was_kept(s, result, s_after, kept) && kept is Ok;
    let (mid, written, cleared) = choose|
        mid: S,
        written: NodeResult<()>,
        cleared: NodeResult<()>,
    | #[trigger]
        S::changed(s, StorageOp::WriteTestResult { result }, mid, written) && #[trigger]
        S::changed(mid, StorageOp::ClearStagedTest, s_after, cleared) && kept == (
        if written is Err {
            written
        } else {
            cleared
        });
    assert(written is Ok && cleared is Ok);
}

/// A request for an unknown test or one that does not decode stages nothing;
/// an accepted one is what faithful storage then holds as the staged test.
pub proof fn law_accepted_test_is_staged<S: PlatformStorage>(
    pre: S,
    command: Option<StagedTest>,
    post: S,
    ack: RunTestAck,
    staged: Option<StagedTest>,
    default_interval_s: u32,
)
    requires
        keeps_promises::<S>(default_interval_s),
        was_staged(pre, command, post, ack, staged),
    ensures
        ack == RunTestAck::Accepted ==> command is Some && staged == command
            && post.holds().staged_test == command && command->0.test_type == TEST_TYPE_DIAG_FRAME,
        ack == RunTestAck::Unsupported ==> post == pre,
        ack != RunTestAck::Accepted ==> staged is None,
{
}

/// A test request is accepted, refused as unknown or refused as invalid: it is
/// unknown exactly where it asks for another test than the diagnostic frame, and
/// accepted exactly where it could be stored.
pub proof fn law_requests_are_judged<S: PlatformStorage>(
    pre: S,
    command: Option<StagedTest>,
    post: S,
    ack: RunTestAck,
    staged: Option<StagedTest>,
)
    requires
        was_staged(pre, command, post, ack, staged),
    ensures
        ack is Unsupported <==> (command matches Some(c) && c.test_type != 1),
        command is None ==> ack is Invalid && post == pre,
        command matches Some(c) ==> c.test_type == 1 ==> exists|result: NodeResult<()>| #[trigger]
            S::changed(pre, (StorageOp::WriteStagedTest { command: c }), post, result) && (
            ack is Accepted <==> result is Ok),
        staged is Some <==> ack is Accepted,
        staged is Some ==> staged == command,
{
}

/// A result that is presented in place of an invalid one says that the same test
/// could not be run, or that none was run where even its type is missing; it
/// never reports a reply.
pub proof fn law_replaced_results_report_no_reply(result: TestOutcome)
    ensures
        ({
            let clean = sanitized(result, false);
            &&& clean.reply_frame is None && clean.reply_rssi_dbm is None
            &&& result.test_type is Some ==> clean.status is ExecutionError && clean.test_type
                == result.test_type && clean.attempt_count == result.attempt_count
                && clean.elapsed_ms == result.elapsed_ms
            &&& result.test_type is None ==> clean == no_result_outcome()
        }),
        no_result_outcome().status is NoResult && no_result_outcome().test_type is None,
        no_result_outcome().reply_frame is None && no_result_outcome().reply_rssi_dbm is None,
        no_result_outcome().attempt_count == 0 && no_result_outcome().elapsed_ms == 0,
{
}

/// A result says how a test has ended: success with the reply and its signal
/// strength where one came, a timeout where only frames were sent, and an error
/// where none could be; with the type of the test, the number of attempts and
/// the time that it took.
pub proof fn law_results_say_how_tests_ended(test_type: u64, end: Attempts, elapsed_ms: u64)
    requires
        end.count <= 4,
    ensures
        ({
            let result = diag_outcome(test_type, end, elapsed_ms);
            &&& result.test_type == Some(test_type)
            &&& result.attempt_count == end.count
            &&& result.elapsed_ms == elapsed_ms
            &&& result.status is Success <==> end.reply is Some
            &&& result.status is Timeout <==> end.reply is None && end.sent
            &&& result.status is ExecutionError <==> end.reply is None && !end.sent
            &&& end.reply matches Some(reply) ==> result.reply_frame == Some(reply.data)
                && result.reply_rssi_dbm == reply.rssi_dbm
            &&& end.reply is None ==> result.reply_frame is None && result.reply_rssi_dbm is None
        }),
{
}

/// What cannot be run ends in an error without an attempt.
pub proof fn law_error_results_report_nothing(test_type: u64, attempt_count: u64, elapsed_ms: u64)
    ensures
        ({
            let result = error_outcome(test_type, attempt_count, elapsed_ms);
            &&& result.status is ExecutionError && result.test_type == Some(test_type)
            &&& result.reply_frame is None && result.reply_rssi_dbm is None
            &&& result.attempt_count == attempt_count && result.elapsed_ms == elapsed_ms
        }),
{
}

/// A test can be run exactly with a channel from 1 to 13 and a frame of 1 to 250
/// bytes; a reply has at least 27 bytes, and its third byte is its type; a wait
/// is shortened by the time that has passed, and by at least a millisecond.
pub proof fn law_test_limits(
    command: StagedTest,
    frame: Received,
    diag_reply: u8,
    remaining_ms: u32,
    before: u64,
    after: u64,
)
    ensures
        can_run(command) <==> command.rf_channel is Some && 1 <= command.rf_channel->0 <= 13 && 1
            <= command.payload.len() <= 250,
        is_diag_reply(frame, diag_reply) <==> frame.data.len() >= 27 && frame.data[2] == diag_reply,
        reply_in(Ok(Some(frame)), diag_reply) == (if frame.data.len() >= 27 && frame.data[2]
            == diag_reply {
            Some(frame)
        } else {
            None
        }),
        remaining_ms > 0 ==> time_left(remaining_ms, before, after) < remaining_ms,
        before < after && after - before <= remaining_ms ==> time_left(remaining_ms, before, after)
            == remaining_ms - (after - before),
        before <= after && after - before >= remaining_ms ==> time_left(remaining_ms, before, after)
            == 0,
        after <= before && remaining_ms > 0 ==> time_left(remaining_ms, before, after)
            == remaining_ms - 1,
        after >= before ==> elapsed(after, before) == after - before,
        after < before ==> elapsed(after, before) == 0,
{
}

/// Every attempt sends the frame of the test, all but the first after a delay of
/// 200 milliseconds, and listens for two seconds after a frame that was sent.
pub proof fn law_attempts_send_and_listen<T: Transport, C: Clock>(
    t: T,
    c: C,
    made: nat,
    sent: bool,
    payload: Seq<u8>,
    wait: ReplyWait,
    t_after: T,
    c_after: C,
    end: Attempts,
)
    requires
        made <= 3,
        was_attempted(t, c, made, sent, payload, wait, t_after, c_after, end),
    ensures
        exists|t1: T, result: NodeResult<()>| #[trigger]
            T::was_sent(t, payload, t1, result) && (result is Ok ==> exists|
                t2: T,
                frame: NodeResult<Option<Received>>,
            | #[trigger]
                T::was_received(t1, 2000, t2, frame)),
        made > 0 ==> exists|c1: C| #[trigger] C::delayed_ms(c, 200, c1),
{
    let (c1, t1, result) = choose|c1: C, t1: T, result: NodeResult<()>| #[trigger]
        was_delayed(c, made, c1) && #[trigger] T::was_sent(t, payload, t1, result) && after_send(
            t1,
            c1,
            made,
            sent,
            result,
            payload,
            wait,
            t_after,
            c_after,
            end,
        );
    if made > 0 {
        assert(C::delayed_ms(c, 200, c1));
    }
    if result is Ok {
        let (t2, c2, reply) = choose|t2: T, c2: C, reply: Option<Received>| #[trigger]
            was_listened(t1, c1, TEST_LISTEN_TIMEOUT_MS, wait, t2, c2, reply) && match reply {
                Some(_) => {
                    &&& t_after == t2 && c_after == c2
                    &&& end == (Attempts { count: made + 1, sent: true, reply })
                },
                None => was_attempted(
                    t2,
                    c2,
                    made + 1,
                    true,
                    payload,
                    wait,
                    t_after,
                    c_after,
                    end,
                ),
            };
        lemma_listening_receives(t1, c1, 2000, wait, t2, c2, reply);
    }
    assert(T::was_sent(t, payload, t1, result));
}

/// Listening begins with a reception of the full time.
proof fn lemma_listening_receives<T: Transport, C: Clock>(
    t: T,
    c: C,
    remaining_ms: u32,
    wait: ReplyWait,
    t_after: T,
    c_after: C,
    reply: Option<Received>,
)
    requires
        remaining_ms > 0,
        was_listened(t, c, remaining_ms, wait, t_after, c_after, reply),
    ensures
        exists|t2: T, frame: NodeResult<Option<Received>>| #[trigger]
            T::was_received(t, remaining_ms, t2, frame),
{
}

/// A test whose frame can never be sent makes four attempts and reports an
/// error; one whose frame is sent and never answered makes four attempts and
/// reports a timeout; one whose frame is answered at once makes a single one and
/// reports the reply.
pub proof fn law_attempts_end_as_the_radio_does<T: Transport, C: Clock>(
    t: T,
    c: C,
    made: nat,
    sent: bool,
    payload: Seq<u8>,
    wait: ReplyWait,
    t_after: T,
    c_after: C,
    end: Attempts,
)
    requires
        made <= 3,
        was_attempted(t, c, made, sent, payload, wait, t_after, c_after, end),
    ensures
        never_sends::<T>() ==> end == (Attempts { count: 4, sent, reply: None }),
        always_sends::<T>() && never_receives::<T>() ==> end == (Attempts {
            count: 4,
            sent: true,
            reply: None,
        }),
        always_sends::<T>() && always_replies::<T>(wait.msg_type) ==> end.count == made + 1
            && end.sent && end.reply is Some,
    decreases 4 - made,
{
    let (c1, t1, result) = choose|c1: C, t1: T, result: NodeResult<()>| #[trigger]
        was_delayed(c, made, c1) && #[trigger] T::was_sent(t, payload, t1, result) && after_send(
            t1,
            c1,
            made,
            sent,
            result,
            payload,
            wait,
            t_after,
            c_after,
            end,
        );
    if result is Err {
        if made < 3 {
            law_attempts_end_as_the_radio_does(
                t1,
                c1,
                made + 1,
                sent,
                payload,
                wait,
                t_after,
                c_after,
                end,
            );
        }
    } else {
        let (t2, c2, reply) = choose|t2: T, c2: C, reply: Option<Received>| #[trigger]
            was_listened(t1, c1, TEST_LISTEN_TIMEOUT_MS, wait, t2, c2, reply) && match reply {
                Some(_) => {
                    &&& t_after == t2 && c_after == c2
                    &&& end == (Attempts { count: made + 1, sent: true, reply })
                },
                None => was_attempted(
                    t2,
                    c2,
                    made + 1,
                    true,
                    payload,
                    wait,
                    t_after,
                    c_after,
                    end,
                ),
            };
        if reply is None && made < 3 {
            law_attempts_end_as_the_radio_does(
                t2,
                c2,
                made + 1,
                true,
                payload,
                wait,
                t_after,
                c_after,
                end,
            );
        }
    }
}

/// A transport that can send nothing.
pub open spec fn never_sends<T: Transport>() -> bool {
    forall|t: T, frame: Seq<u8>, t1: T, result: NodeResult<()>| #[trigger]
        T::was_sent(t, frame, t1, result) ==> result is Err
}

/// A transport that can always send.
pub open spec fn always_sends<T: Transport>() -> bool {
    forall|t: T, frame: Seq<u8>, t1: T, result: NodeResult<()>| #[trigger]
        T::was_sent(t, frame, t1, result) ==> result is Ok
}

/// A transport that receives nothing.
pub open spec fn never_receives<T: Transport>() -> bool {
    forall|t: T, ms: u32, t1: T, frame: NodeResult<Option<Received>>| #[trigger]
        T::was_received(t, ms, t1, frame) ==> !(frame matches Ok(Some(_)))
}

/// A transport on which every frame that comes is a reply, and one always comes.
pub open spec fn always_replies<T: Transport>(diag_reply: u8) -> bool {
    forall|t: T, ms: u32, t1: T, frame: NodeResult<Option<Received>>| #[trigger]
        T::was_received(t, ms, t1, frame) ==> (frame matches Ok(Some(f)) && f.data.len() >= 27
            && f.data[2] == diag_reply)
}

/// A frame that is no reply ends a wait for the first frame without one, and a
/// wait past other frames goes on with the time that is left.
pub proof fn law_other_frames_end_or_shorten_the_wait<T: Transport, C: Clock>(
    t: T,
    c: C,
    remaining_ms: u32,
    wait: ReplyWait,
    t_after: T,
    c_after: C,
    reply: Option<Received>,
)
    requires
        remaining_ms > 0,
        was_listened(t, c, remaining_ms, wait, t_after, c_after, reply),
        forall|t1: T, frame: NodeResult<Option<Received>>| #[trigger]
            T::was_received(t, remaining_ms, t1, frame) ==> (frame matches Ok(Some(f))
                && !is_diag_reply(f, wait.msg_type)),
    ensures
        !wait.past_other_frames ==> reply is None && c_after == c,
        wait.past_other_frames ==> exists|t1: T, c1: C, less_ms: u32|
            less_ms < remaining_ms && #[trigger] was_listened(
                t1,
                c1,
                less_ms,
                wait,
                t_after,
                c_after,
                reply,
            ),
{
    if wait.past_other_frames {
        let (c1, before, t1, frame) = choose|
            c1: C,
            before: u64,
            t1: T,
            frame: NodeResult<Option<Received>>,
        | #[trigger]
            C::was_read(c, c1, before) && #[trigger] T::was_received(t, remaining_ms, t1, frame)
                && match frame {
                Ok(Some(f)) => if is_diag_reply(f, wait.msg_type) {
                    t_after == t1 && c_after == c1 && reply == Some(f)
                } else {
                    exists|c2: C, after: u64| #[trigger]
                        C::was_read(c1, c2, after) && was_listened(
                            t1,
                            c2,
                            time_left(remaining_ms, before, after),
                            wait,
                            t_after,
                            c_after,
                            reply,
                        )
                },
                _ => t_after == t1 && c_after == c1 && reply is None,
            };
        let (c2, after) = choose|c2: C, after: u64| #[trigger]
            C::was_read(c1, c2, after) && was_listened(
                t1,
                c2,
                time_left(remaining_ms, before, after),
                wait,
                t_after,
                c_after,
                reply,
            );
        assert(was_listened(
            t1,
            c2,
            time_left(remaining_ms, before, after),
            wait,
            t_after,
            c_after,
            reply,
        ));
    }
}

/// Without a staged test nothing is done and nothing reported; a staged test of
/// another type, and one that cannot be run, sends nothing and is reported as
/// one that could not be run.
pub proof fn law_only_runnable_tests_use_the_radio<S: PlatformStorage, T: Transport, C: Clock>(
    s: S,
    t: T,
    c: C,
    wait: ReplyWait,
    s_after: S,
    t_after: T,
    c_after: C,
    answer: NodeResult<Option<TestOutcome>>,
)
    requires
        was_executed(s, t, c, wait, s_after, t_after, c_after, answer),
    ensures
        s.holds().staged_test is None ==> s_after == s && t_after == t && c_after == c && answer
            == Ok::<Option<TestOutcome>, crate::node::error::NodeError>(None),
        s.holds().staged_test matches Some(command) ==> {
            &&& command.test_type != 1 || !can_run(command) ==> t_after == t
            &&& answer matches Ok(found) ==> found is Some && found->0.test_type == Some(
                command.test_type,
            )
            &&& (command.test_type != 1 || !can_run(command)) && answer is Ok
                ==> answer->Ok_0->0.status is ExecutionError && answer->Ok_0->0.attempt_count == 0
        },
{
}

/// A test that can be run measures its time from before its first attempt until
/// after its last one, and its result is that of its attempts.
pub proof fn law_test_time_is_measured<T: Transport, C: Clock>(
    t: T,
    c: C,
    command: StagedTest,
    wait: ReplyWait,
    t_after: T,
    c_after: C,
    result: TestOutcome,
)
    requires
        can_run(command),
        was_diag_tested(t, c, command, wait, t_after, c_after, result),
    ensures
        exists|c1: C, start: u64, c2: C, now: u64| #[trigger]
            C::was_read(c, c1, start) && #[trigger] C::was_read(c2, c_after, now) && result.elapsed_ms
                == (if now >= start {
                now - start
            } else {
                0
            }),
        result.test_type == Some(command.test_type),
        1 <= result.attempt_count <= 4,
        never_sends::<T>() ==> result.status is ExecutionError && result.attempt_count == 4,
        always_sends::<T>() && never_receives::<T>() ==> result.status is Timeout
            && result.attempt_count == 4,
        always_sends::<T>() && always_replies::<T>(wait.msg_type) ==> result.status is Success
            && result.attempt_count == 1 && result.reply_frame is Some,
{
    let (c1, start) = choose|c1: C, start: u64| #[trigger]
        C::was_read(c, c1, start) && was_tested_from(
            t,
            c1,
            start,
            command,
            wait,
            t_after,
            c_after,
            result,
        );
    let (c2, end, now) = choose|c2: C, end: Attempts, now: u64| #[trigger]
        was_attempted(t, c1, 0, false, command.payload, wait, t_after, c2, end) && #[trigger]
        C::was_read(c2, c_after, now) && result == diag_outcome(
            command.test_type,
            end,
            elapsed(now, start),
        );
    law_attempts_are_bounded(t, c1, 0, false, command.payload, wait, t_after, c2, end);
    law_attempts_end_as_the_radio_does(t, c1, 0, false, command.payload, wait, t_after, c2, end);
    assert(C::was_read(c, c1, start) && C::was_read(c2, c_after, now));
}

/// A test is not run again even where its result could not be kept: the failure
/// is reported, and faithful storage that can forget a test has forgotten it.
pub proof fn law_failed_test_is_not_run_again<S: PlatformStorage, T: Transport, C: Clock>(
    s: S,
    t: T,
    c: C,
    wait: ReplyWait,
    s_after: S,
    t_after: T,
    c_after: C,
    answer: NodeResult<Option<TestOutcome>>,
    default_interval_s: u32,
)
    requires
        keeps_promises::<S>(default_interval_s),
        forall|a: S, b: S, r: NodeResult<()>| #[trigger]
            S::changed(a, StorageOp::ClearStagedTest, b, r) ==> r is Ok,
        was_executed(s, t, c, wait, s_after, t_after, c_after, answer),
    ensures
        s_after.holds().staged_test is None,
        answer is Err ==> exists|result: TestOutcome, b: S, r: NodeResult<()>|
            r is Err && #[trigger] S::changed(s, (StorageOp::WriteTestResult { result }), b, r),
{
    if let Some(command) = s.holds().staged_test {
        let (result, kept) = choose|result: TestOutcome, kept: NodeResult<()>|
            (if command.test_type == TEST_TYPE_DIAG_FRAME {
                was_diag_tested(t, c, command, wait, t_after, c_after, result)
            } else {
                t_after == t && c_after == c && result == error_outcome(command.test_type, 0, 0)
            }) && #[trigger] was_kept(s, result, s_after, kept) && answer == (match kept {
                Ok(_) => Ok(Some(result)),
                Err(error) => Err(error),
            });
        let (mid, written, cleared) = choose|
            mid: S,
            written: NodeResult<()>,
            cleared: NodeResult<()>,
        | #[trigger]
            S::changed(s, StorageOp::WriteTestResult { result }, mid, written) && #[trigger]
            S::changed(mid, StorageOp::ClearStagedTest, s_after, cleared) && kept == (
            if written is Err {
                written
            } else {
                cleared
            });
        assert(cleared is Ok);
        assert(S::changed(s, StorageOp::WriteTestResult { result }, mid, written));
    }
}

/// A wait that expires, or in which the transport fails, ends the listening
/// without a reply, and a reply ends it at once: nothing more is received.
pub proof fn law_listening_ends_with_the_wait<T: Transport, C: Clock>(
    t: T,
    c: C,
    remaining_ms: u32,
    wait: ReplyWait,
    t_after: T,
    c_after: C,
    reply: Option<Received>,
)
    requires
        remaining_ms > 0,
        was_listened(t, c, remaining_ms, wait, t_after, c_after, reply),
    ensures
        never_receives::<T>() ==> reply is None && exists|frame: NodeResult<Option<Received>>|
         #[trigger]
            T::was_received(t, remaining_ms, t_after, frame),
        always_replies::<T>(wait.msg_type) ==> reply is Some && T::was_received(
            t,
            remaining_ms,
            t_after,
            Ok(reply),
        ),
{
}

} // verus!
