//! Provisioning over BLE, and pre-provisioning tests.

use sonde::node::ble_pairing::{
    board_layout_bytes, encode_ble_envelope, encode_node_ack, handle_node_provision,
    is_mtu_acceptable, parse_ble_envelope, parse_node_provision, NodeProvision,
    ProvisionedBoardLayout, BLE_MIN_ATT_MTU, BLE_MSG_NODE_ACK, BLE_MSG_NODE_PROVISION,
    NODE_ACK_ALREADY_PAIRED, NODE_ACK_STORAGE_ERROR, NODE_ACK_SUCCESS, NODE_PROVISION_MIN_LEN,
    PEER_PAYLOAD_MAX_LEN,
};
use sonde::node::error::{NodeError, NodeResult};
use sonde::node::map_storage::MapStorage;
use sonde::node::test_mode::{
    encode_run_test_ack, encode_test_result_response, execute_staged_test_command,
    handle_read_test_result, handle_run_test_command, sanitize_test_result, RunTestCommand,
    RUN_TEST_ACK_INVALID, RUN_TEST_ACK_OK, RUN_TEST_ACK_UNSUPPORTED, TEST_TYPE_DIAG_FRAME, ReplyWait,
};
use sonde::node::traits::{Clock, PlatformStorage, Stored, Transport};
use sonde::node::types::{
    BoardLayout, ReceivedFrame, StagedTestCommand, TestResult, TestStatus,
    TEST_RESULT_EXECUTION_ERROR, TEST_RESULT_NO_RESULT, TEST_RESULT_OK, TEST_RESULT_TIMEOUT,
};

/// Message type of a diagnostic reply.
const MSG_DIAG_REPLY: u8 = 0x86;

/// The first frame that comes must be the reply.
const FIRST_FRAME: ReplyWait = ReplyWait {
    msg_type: MSG_DIAG_REPLY,
    past_other_frames: false,
};

/// Other frames may come before the reply.
const ANY_FRAME: ReplyWait = ReplyWait {
    msg_type: MSG_DIAG_REPLY,
    past_other_frames: true,
};

/// Envelope type of a test result.
const BLE_TEST_RESULT: u8 = 0x83;

/// A board with all pins.
fn sensor_node_layout() -> BoardLayout {
    BoardLayout {
        i2c0_sda: Some(4),
        i2c0_scl: Some(5),
        one_wire_data: Some(3),
        battery_adc: Some(2),
        sensor_enable: Some(10),
    }
}

/// Encode a test result, without the contents of its reply.
fn encode_result(result: &TestResult) -> Vec<u8> {
    let status = match result.status {
        TestStatus::Success => 0,
        TestStatus::Timeout => 1,
        TestStatus::ExecutionError => 2,
        TestStatus::NoResult => 3,
    };
    let mut body = vec![
        status,
        result.test_type.is_some() as u8,
        result.reply_frame.is_some() as u8,
        result.reply_rssi_dbm.is_some() as u8,
        result.reply_rssi_dbm.unwrap_or(0) as u8,
    ];
    body.extend_from_slice(&result.test_type.unwrap_or(0).to_be_bytes());
    body.extend_from_slice(&result.attempt_count.to_be_bytes());
    body.extend_from_slice(&result.elapsed_ms.to_be_bytes());
    body
}

fn decode_result(body: &[u8]) -> TestResult {
    let number = |at: usize| {
        let mut bytes = [0; 8];
        bytes.copy_from_slice(&body[at..at + 8]);
        u64::from_be_bytes(bytes)
    };
    TestResult {
        status: match body[0] {
            0 => TestStatus::Success,
            1 => TestStatus::Timeout,
            2 => TestStatus::ExecutionError,
            _ => TestStatus::NoResult,
        },
        test_type: if body[1] != 0 { Some(number(5)) } else { None },
        reply_frame: if body[2] != 0 { Some(vec![]) } else { None },
        reply_rssi_dbm: if body[3] != 0 { Some(body[4] as i8) } else { None },
        attempt_count: number(13),
        elapsed_ms: number(21),
    }
}

/// A success comes with a reply.
fn is_consistent(result: &TestResult) -> bool {
    result.status != TEST_RESULT_OK || result.reply_frame.is_some()
}

struct MockStorage {
    key: Option<(u16, [u8; 32])>,
    channel: Option<u8>,
    peer_payload: Option<Vec<u8>>,
    reg_complete: bool,
    board_layout: Option<BoardLayout>,
    staged_test_command: Option<StagedTestCommand>,
    test_result: Option<TestResult>,
    fail_write_key: bool,
    fail_write_channel: bool,
    fail_write_peer_payload: bool,
    fail_write_reg_complete: bool,
    fail_write_board_layout: bool,
    fail_write_staged_test_command: bool,
    fail_write_test_result: bool,
    fail_clear_staged_test_command: bool,
}

impl MockStorage {
    fn new() -> Self {
        Self {
            key: None,
            channel: None,
            peer_payload: None,
            reg_complete: false,
            board_layout: None,
            staged_test_command: None,
            test_result: None,
            fail_write_key: false,
            fail_write_channel: false,
            fail_write_peer_payload: false,
            fail_write_reg_complete: false,
            fail_write_board_layout: false,
            fail_write_staged_test_command: false,
            fail_write_test_result: false,
            fail_clear_staged_test_command: false,
        }
    }

    fn with_key(key_hint: u16, psk: [u8; 32]) -> Self {
        let mut s = Self::new();
        s.key = Some((key_hint, psk));
        s
    }
}

impl PlatformStorage for MockStorage {
    fn holds(&self) -> Stored {
        unreachable!("ghost code is never run")
    }

    fn read_key(&self) -> Option<(u16, [u8; 32])> {
        self.key
    }
    fn write_key(&mut self, key_hint: u16, psk: &[u8; 32]) -> NodeResult<()> {
        if self.fail_write_key {
            return Err(NodeError::StorageError("injected write_key failure"));
        }
        if self.key.is_some() {
            return Err(NodeError::StorageError("already paired"));
        }
        self.key = Some((key_hint, *psk));
        Ok(())
    }
    fn erase_key(&mut self) -> NodeResult<()> {
        self.key = None;
        Ok(())
    }
    fn read_schedule(&self) -> (u32, u8) {
        (60, 0)
    }
    fn write_schedule_interval(&mut self, _: u32) -> NodeResult<()> {
        Ok(())
    }
    fn write_active_partition(&mut self, _: u8) -> NodeResult<()> {
        Ok(())
    }
    fn reset_schedule(&mut self) -> NodeResult<()> {
        Ok(())
    }
    fn read_program(&self, _partition: u8) -> Option<Vec<u8>> {
        None
    }

    fn write_program(&mut self, _partition: u8, _image: &[u8]) -> NodeResult<()> {
        Ok(())
    }

    fn erase_program(&mut self, _: u8) -> NodeResult<()> {
        Ok(())
    }
    fn take_early_wake_flag(&mut self) -> bool {
        false
    }
    fn set_early_wake_flag(&mut self) -> NodeResult<()> {
        Ok(())
    }

    fn read_channel(&self) -> Option<u8> {
        self.channel
    }
    fn write_channel(&mut self, channel: u8) -> NodeResult<()> {
        if self.fail_write_channel {
            return Err(NodeError::StorageError("injected write_channel failure"));
        }
        self.channel = Some(channel);
        Ok(())
    }
    fn read_peer_payload(&self) -> Option<Vec<u8>> {
        self.peer_payload.clone()
    }
    fn write_peer_payload(&mut self, payload: &[u8]) -> NodeResult<()> {
        if self.fail_write_peer_payload {
            return Err(NodeError::StorageError(
                "injected write_peer_payload failure",
            ));
        }
        self.peer_payload = Some(payload.to_vec());
        Ok(())
    }
    fn erase_peer_payload(&mut self) -> NodeResult<()> {
        self.peer_payload = None;
        Ok(())
    }
    fn read_reg_complete(&self) -> bool {
        self.reg_complete
    }
    fn write_reg_complete(&mut self, complete: bool) -> NodeResult<()> {
        if self.fail_write_reg_complete {
            return Err(NodeError::StorageError(
                "injected write_reg_complete failure",
            ));
        }
        self.reg_complete = complete;
        Ok(())
    }
    fn read_board_layout(&self) -> Option<BoardLayout> {
        self.board_layout
    }
    fn write_board_layout(&mut self, layout: &BoardLayout) -> NodeResult<()> {
        if self.fail_write_board_layout {
            return Err(NodeError::StorageError(
                "injected write_board_layout failure",
            ));
        }
        self.board_layout = Some(*layout);
        Ok(())
    }
    fn read_staged_test_command(&self) -> Option<StagedTestCommand> {
        self.staged_test_command.as_ref().map(|c| c.duplicate())
    }
    fn write_staged_test_command(&mut self, command: &StagedTestCommand) -> NodeResult<()> {
        if self.fail_write_staged_test_command {
            return Err(NodeError::StorageError(
                "injected write_staged_test_command failure",
            ));
        }
        self.staged_test_command = Some(command.duplicate());
        Ok(())
    }
    fn clear_staged_test_command(&mut self) -> NodeResult<()> {
        if self.fail_clear_staged_test_command {
            return Err(NodeError::StorageError(
                "injected clear_staged_test_command failure",
            ));
        }
        self.staged_test_command = None;
        Ok(())
    }
    fn read_test_result(&self) -> Option<TestResult> {
        self.test_result.as_ref().map(|r| r.duplicate())
    }
    fn write_test_result(&mut self, result: &TestResult) -> NodeResult<()> {
        if self.fail_write_test_result {
            return Err(NodeError::StorageError(
                "injected write_test_result failure",
            ));
        }
        self.test_result = Some(result.duplicate());
        Ok(())
    }
}

fn make_provision(key_hint: u16, psk: [u8; 32], channel: u8, payload: &[u8]) -> NodeProvision {
    NodeProvision {
        key_hint,
        psk,
        rf_channel: channel,
        encrypted_payload: payload.to_vec(),
        board_layout: ProvisionedBoardLayout::Absent,
    }
}

#[derive(Default)]
struct MockClock {
    elapsed_ms: u64,
    delays_ms: Vec<u32>,
}

impl Clock for MockClock {
    fn elapsed_ms(&mut self) -> u64 {
        self.elapsed_ms
    }

    fn delay_ms(&mut self, ms: u32) {
        self.delays_ms.push(ms);
        self.elapsed_ms = self.elapsed_ms.saturating_add(ms as u64);
    }

    fn delay_us(&mut self, _us: u32) {}
}

struct MockTransport {
    sends: Vec<Vec<u8>>,
    replies: std::collections::VecDeque<Option<ReceivedFrame>>,
}

impl MockTransport {
    fn new(replies: Vec<Option<ReceivedFrame>>) -> Self {
        Self {
            sends: Vec::new(),
            replies: replies.into(),
        }
    }
}

impl Transport for MockTransport {
    fn send(&mut self, frame: &[u8]) -> NodeResult<()> {
        self.sends.push(frame.to_vec());
        Ok(())
    }

    fn recv_with_metadata(
        &mut self,
        _timeout_ms: u32,
    ) -> NodeResult<Option<ReceivedFrame>> {
        Ok(self.replies.pop_front().flatten())
    }
}

#[test]
fn parse_ble_envelope_ok() {
    let data = vec![0x01, 0x00, 0x03, 0xAA, 0xBB, 0xCC];
    let (msg_type, body) = parse_ble_envelope(&data).unwrap();
    assert_eq!(msg_type, 0x01);
    assert_eq!(body, &[0xAA, 0xBB, 0xCC]);
}

#[test]
fn parse_ble_envelope_empty_body() {
    let data = vec![0x81, 0x00, 0x00];
    let (msg_type, body) = parse_ble_envelope(&data).unwrap();
    assert_eq!(msg_type, 0x81);
    assert!(body.is_empty());
}

#[test]
fn parse_ble_envelope_too_short() {
    assert!(parse_ble_envelope(&[0x01, 0x00]).is_none());
}

#[test]
fn parse_ble_envelope_body_truncated() {
    // LEN=4 but only 2 bytes follow
    let data = vec![0x01, 0x00, 0x04, 0xAA, 0xBB];
    assert!(parse_ble_envelope(&data).is_none());
}

#[test]
fn parse_ble_envelope_trailing_bytes_rejected() {
    // LEN=2, 2 body bytes, plus 1 trailing byte
    let data = vec![0x01, 0x00, 0x02, 0xAA, 0xBB, 0xCC];
    assert!(parse_ble_envelope(&data).is_none());
}

#[test]
fn encode_ble_envelope_round_trip() {
    let body = [0x42u8; 10];
    let encoded = encode_ble_envelope(0x01, &body).unwrap();
    let (msg_type, decoded_body) = parse_ble_envelope(&encoded).unwrap();
    assert_eq!(msg_type, 0x01);
    assert_eq!(decoded_body, &body);
}

#[test]
fn encode_ble_envelope_rejects_oversize_body() {
    // A body larger than u16::MAX must return None.
    let big_body = vec![0xAAu8; u16::MAX as usize + 1];
    assert!(encode_ble_envelope(0x01, &big_body).is_none());
}

#[test]
fn encode_ble_envelope_accepts_max_body() {
    // Exactly u16::MAX bytes must succeed.
    let max_body = vec![0xBBu8; u16::MAX as usize];
    assert!(encode_ble_envelope(0x01, &max_body).is_some());
}

#[test]
fn parse_node_provision_ok() {
    let mut body = vec![0u8; 37 + 16];
    // key_hint = 0x1234 BE
    body[0] = 0x12;
    body[1] = 0x34;
    // psk: 32 bytes of 0x42
    for b in &mut body[2..34] {
        *b = 0x42;
    }
    // rf_channel = 6
    body[34] = 6;
    // payload_len = 16 BE
    body[35] = 0x00;
    body[36] = 0x10;
    // payload: 16 bytes of 0xAB
    for b in &mut body[37..53] {
        *b = 0xAB;
    }

    let p = parse_node_provision(&body, None).unwrap();
    assert_eq!(p.key_hint, 0x1234);
    assert_eq!(p.psk, [0x42u8; 32]);
    assert_eq!(p.rf_channel, 6);
    assert_eq!(p.encrypted_payload, vec![0xABu8; 16]);
}

#[test]
fn parse_node_provision_empty_payload() {
    let mut body = vec![0u8; 37];
    body[0] = 0x00;
    body[1] = 0x01; // key_hint = 1
    for b in &mut body[2..34] {
        *b = 0x42;
    }
    body[34] = 1; // channel 1
    body[35] = 0x00;
    body[36] = 0x00; // payload_len = 0

    let p = parse_node_provision(&body, None).unwrap();
    assert_eq!(p.key_hint, 1);
    assert!(p.encrypted_payload.is_empty());
}

#[test]
fn parse_node_provision_too_short() {
    assert!(parse_node_provision(&[0u8; 36], None).is_err());
}

#[test]
fn parse_node_provision_payload_truncated() {
    let mut body = vec![0u8; 39]; // claims 4-byte payload but only 2 bytes follow
    body[35] = 0x00;
    body[36] = 0x04; // payload_len = 4
                     // Only 2 bytes after offset 37 (body is 39 bytes = 37 + 2)
    assert!(parse_node_provision(&body, None).is_err());
}

#[test]
fn parse_node_provision_trailing_bytes_decode_board_layout() {
    let board_layout_cbor = [0xA2, 0x01, 0x04, 0x02, 0x05];
    let mut body = vec![0u8; 37 + board_layout_cbor.len()];
    body[2..34].fill(0x42); // psk
    body[34] = 1; // channel 1
    body[35] = 0x00;
    body[36] = 0x00; // payload_len = 0
    body[37..].copy_from_slice(&board_layout_cbor);
    assert_eq!(board_layout_bytes(&body), Some(&board_layout_cbor[..]));
    let provision = parse_node_provision(&body, Some(sensor_node_layout())).unwrap();
    assert_eq!(
        provision.board_layout,
        ProvisionedBoardLayout::Provided(sensor_node_layout())
    );
}

#[test]
fn parse_node_provision_trailing_non_cbor_rejected() {
    let mut body = vec![0u8; 38];
    body[2..34].fill(0x42); // psk
    body[34] = 1; // channel 1
    body[35] = 0x00;
    body[36] = 0x00; // payload_len = 0
    body[37] = 0xFF; // invalid CBOR
    assert!(parse_node_provision(&body, None).is_err());
}

#[test]
fn parse_node_provision_missing_board_layout_bytes_is_absent() {
    let mut body = vec![0u8; 37];
    body[2..34].fill(0x42);
    body[34] = 1;
    body[35] = 0x00;
    body[36] = 0x00;
    let provision = parse_node_provision(&body, None).unwrap();
    assert_eq!(provision.board_layout, ProvisionedBoardLayout::Absent);
}

#[test]
fn parse_node_provision_board_layout_with_trailing_junk_rejected() {
    let data = [0xA2, 0x01, 0x04, 0x02, 0x05, 0x00];
    let mut body = vec![0u8; 37 + data.len()];
    body[2..34].fill(0x42); // psk
    body[34] = 1; // channel 1
    body[35] = 0x00;
    body[36] = 0x00; // payload_len = 0
    body[37..].copy_from_slice(&data);
    // The junk is part of what has to decode, so it does not.
    assert_eq!(board_layout_bytes(&body), Some(&data[..]));
    assert!(parse_node_provision(&body, None).is_err());
}

#[test]
fn parse_node_provision_oversize_payload_rejected() {
    // payload_len exceeds PEER_PAYLOAD_MAX_LEN — rejected before allocation
    let payload_len = PEER_PAYLOAD_MAX_LEN + 1;
    let mut body = vec![0u8; 37 + payload_len];
    body[2..34].fill(0x42); // psk
    body[34] = 1; // channel 1
    body[35] = ((payload_len >> 8) & 0xFF) as u8;
    body[36] = (payload_len & 0xFF) as u8;
    let err = parse_node_provision(&body, None).unwrap_err();
    assert_eq!(err, "encrypted_payload too large");
}

#[test]
fn parse_node_provision_invalid_channel_zero() {
    let mut body = vec![0u8; 37];
    body[34] = 0; // channel 0 — invalid
    assert!(parse_node_provision(&body, None).is_err());
}

#[test]
fn parse_node_provision_invalid_channel_14() {
    let mut body = vec![0u8; 37];
    body[34] = 14; // channel 14 — out of range
    assert!(parse_node_provision(&body, None).is_err());
}

#[test]
fn encode_node_ack_success() {
    let frame = encode_node_ack(NODE_ACK_SUCCESS);
    let (msg_type, body) = parse_ble_envelope(&frame).unwrap();
    assert_eq!(msg_type, BLE_MSG_NODE_ACK);
    assert_eq!(body, &[NODE_ACK_SUCCESS]);
}

#[test]
fn encode_node_ack_storage_error() {
    let frame = encode_node_ack(NODE_ACK_STORAGE_ERROR);
    let (msg_type, body) = parse_ble_envelope(&frame).unwrap();
    assert_eq!(msg_type, BLE_MSG_NODE_ACK);
    assert_eq!(body, &[NODE_ACK_STORAGE_ERROR]);
}

#[test]
fn t_n940_payload_len_exceeds_remaining_data() {
    // payload_len field exceeds the remaining data in the buffer.
    // The parser must reject the message without reading past the end.
    let claimed_payload: usize = 10; // must be <= PEER_PAYLOAD_MAX_LEN
    assert!(claimed_payload <= PEER_PAYLOAD_MAX_LEN);
    let actual_data_bytes = 4;
    let mut body = vec![0u8; NODE_PROVISION_MIN_LEN + actual_data_bytes];
    body[2..34].fill(0x42); // psk
    body[34] = 1; // valid channel
                  // Claim `claimed_payload` bytes of payload, but only `actual_data_bytes` follow.
    body[35] = (claimed_payload >> 8) as u8;
    body[36] = claimed_payload as u8;
    body[NODE_PROVISION_MIN_LEN..NODE_PROVISION_MIN_LEN + actual_data_bytes].fill(0xAA);

    let err = parse_node_provision(&body, None).unwrap_err();
    assert_eq!(err, "encrypted_payload truncated");
}

#[test]
fn t_n940_payload_len_max_u16_rejected() {
    // payload_len = 0xFFFF (65535) — far exceeds both
    // the buffer and PEER_PAYLOAD_MAX_LEN.
    let mut body = vec![0u8; NODE_PROVISION_MIN_LEN]; // minimum-length body, no payload data
    body[2..34].fill(0x42); // psk
    body[34] = 1; // valid channel
    body[35] = 0xFF;
    body[36] = 0xFF; // payload_len = 65535

    let err = parse_node_provision(&body, None).unwrap_err();
    assert_eq!(err, "encrypted_payload too large");
}

/// NODE_PROVISION on unpaired node → NODE_ACK(0x00), all NVS fields written.
#[test]
fn t_n904_happy_path() {
    let mut storage = MockStorage::new();
    let mut maps = MapStorage::new(1024);
    let psk = [0x42u8; 32];
    let payload = vec![0xDE, 0xAD, 0xBE, 0xEF];
    let provision = make_provision(0xABCD, psk, 6, &payload);

    let status = handle_node_provision(&provision, &mut storage, &mut maps, false, false);
    assert_eq!(status, NODE_ACK_SUCCESS);

    // PSK and key_hint stored
    let key = storage.read_key().expect("key should be stored");
    assert_eq!(key.0, 0xABCD);
    assert_eq!(key.1, psk);

    // Channel stored
    assert_eq!(storage.read_channel(), Some(6));

    // Encrypted payload stored
    assert_eq!(
        storage.read_peer_payload().as_deref(),
        Some(payload.as_slice())
    );

    // reg_complete cleared
    assert!(!storage.read_reg_complete());
}

/// Second NODE_PROVISION on same BLE connection overwrites credentials
///. The caller passes `paired_on_entry = false` because the node
/// was unpaired when it entered BLE mode.
#[test]
fn t_n905_same_session_reprovision() {
    let mut storage = MockStorage::new();
    let mut maps = MapStorage::new(1024);

    // First provision (unpaired) — succeeds
    let psk_a = [0x11u8; 32];
    let payload_a = vec![0x01, 0x02];
    let provision_a = make_provision(0x0001, psk_a, 3, &payload_a);
    let status_a = handle_node_provision(&provision_a, &mut storage, &mut maps, false, false);
    assert_eq!(status_a, NODE_ACK_SUCCESS);
    assert_eq!(storage.read_key().unwrap().1, psk_a);

    // Second provision on same session — still paired_on_entry=false
    let psk_b = [0x22u8; 32];
    let payload_b = vec![0x03, 0x04, 0x05];
    let provision_b = make_provision(0x0002, psk_b, 11, &payload_b);
    let status_b = handle_node_provision(&provision_b, &mut storage, &mut maps, false, false);
    assert_eq!(
        status_b, NODE_ACK_SUCCESS,
        "same-session re-provision must succeed"
    );

    // NVS now contains credentials B
    let key = storage
        .read_key()
        .expect("key should be stored after re-provision");
    assert_eq!(key.0, 0x0002);
    assert_eq!(key.1, psk_b);
    assert_eq!(storage.read_channel(), Some(11));
    assert_eq!(
        storage.read_peer_payload().as_deref(),
        Some(payload_b.as_slice())
    );
}

/// Already-paired node (paired_on_entry=true) without button held returns
/// NODE_ACK_ALREADY_PAIRED (defense-in-depth).
#[test]
fn handle_node_provision_already_paired_on_entry_no_button() {
    let mut storage = MockStorage::with_key(0x0099, [0x55u8; 32]);
    let mut maps = MapStorage::new(1024);

    let provision = make_provision(0x0001, [0x42u8; 32], 6, &[0xAA]);
    let status = handle_node_provision(&provision, &mut storage, &mut maps, false, true);
    assert_eq!(status, NODE_ACK_ALREADY_PAIRED);

    // The key is unchanged.
    let key = storage.read_key().unwrap();
    assert_eq!(key.0, 0x0099);
    assert_eq!(key.1, [0x55u8; 32]);
}

/// Pairing button held → factory reset before writing new credentials.
#[test]
fn t_n906_factory_reset_on_button_hold() {
    // Node already has credentials and a stored payload.
    let mut storage = MockStorage::with_key(0x0099, [0x55u8; 32]);
    storage.peer_payload = Some(vec![0xFF; 10]);
    storage.reg_complete = true;
    let mut maps = MapStorage::new(1024);

    let psk_new = [0x77u8; 32];
    let payload_new = vec![0x12, 0x34];
    let provision = make_provision(0x00AA, psk_new, 7, &payload_new);

    let status = handle_node_provision(&provision, &mut storage, &mut maps, true, true);
    assert_eq!(status, NODE_ACK_SUCCESS);

    // New credentials written
    let key = storage.read_key().expect("new key must be stored");
    assert_eq!(key.0, 0x00AA);
    assert_eq!(key.1, psk_new);
    assert_eq!(storage.read_channel(), Some(7));
    assert_eq!(
        storage.read_peer_payload().as_deref(),
        Some(payload_new.as_slice())
    );
    // reg_complete cleared by factory reset + provision
    assert!(!storage.read_reg_complete());
}

/// write_key failure → NODE_ACK(0x02).
#[test]
fn t_n907_nvs_write_key_failure() {
    let mut storage = MockStorage::new();
    storage.fail_write_key = true;
    let mut maps = MapStorage::new(1024);
    let provision = make_provision(0x0001, [0x42u8; 32], 6, &[0xAA]);

    let status = handle_node_provision(&provision, &mut storage, &mut maps, false, false);
    assert_eq!(status, NODE_ACK_STORAGE_ERROR);
}

/// write_channel failure → NODE_ACK(0x02), key+payload rolled back.
#[test]
fn t_n907_nvs_write_channel_failure() {
    let mut storage = MockStorage::new();
    storage.fail_write_channel = true;
    let mut maps = MapStorage::new(1024);
    let provision = make_provision(0x0001, [0x42u8; 32], 6, &[0xAA]);

    let status = handle_node_provision(&provision, &mut storage, &mut maps, false, false);
    assert_eq!(status, NODE_ACK_STORAGE_ERROR);
    // Key and peer_payload must be rolled back
    assert!(storage.read_key().is_none());
    assert!(storage.read_peer_payload().is_none());
}

/// write_peer_payload failure → NODE_ACK(0x02), key rolled back.
#[test]
fn t_n907_nvs_write_peer_payload_failure() {
    let mut storage = MockStorage::new();
    storage.fail_write_peer_payload = true;
    let mut maps = MapStorage::new(1024);
    let provision = make_provision(0x0001, [0x42u8; 32], 6, &[0xAA]);

    let status = handle_node_provision(&provision, &mut storage, &mut maps, false, false);
    assert_eq!(status, NODE_ACK_STORAGE_ERROR);
    // Key must be rolled back — no partial credentials
    assert!(storage.read_key().is_none());
}

/// write_reg_complete failure → NODE_ACK(0x02), key+payload rolled back.
#[test]
fn t_n907_nvs_write_reg_complete_failure() {
    let mut storage = MockStorage::new();
    storage.fail_write_reg_complete = true;
    let mut maps = MapStorage::new(1024);
    let provision = make_provision(0x0001, [0x42u8; 32], 6, &[0xAA]);

    let status = handle_node_provision(&provision, &mut storage, &mut maps, false, false);
    assert_eq!(status, NODE_ACK_STORAGE_ERROR);
    // Key and peer_payload must be rolled back
    assert!(storage.read_key().is_none());
    assert!(storage.read_peer_payload().is_none());
}

/// Board layout present → persisted to flash and NODE_ACK_SUCCESS returned.
#[test]
fn handle_provision_with_board_layout_persists() {
    let mut storage = MockStorage::new();
    let mut maps = MapStorage::new(1024);
    let provision = NodeProvision {
        key_hint: 0x0001,
        psk: [0x42u8; 32],
        rf_channel: 6,
        encrypted_payload: vec![0xAA],
        board_layout: ProvisionedBoardLayout::Provided(sensor_node_layout()),
    };

    let status = handle_node_provision(&provision, &mut storage, &mut maps, false, false);
    assert_eq!(status, NODE_ACK_SUCCESS);
    assert_eq!(
        storage.read_board_layout(),
        Some(sensor_node_layout())
    );
}

/// Board layout write failure is fatal and rolls back critical provisioning state.
#[test]
fn handle_provision_board_layout_write_failure() {
    let mut storage = MockStorage::new();
    storage.fail_write_board_layout = true;
    let mut maps = MapStorage::new(1024);
    let provision = NodeProvision {
        key_hint: 0x0001,
        psk: [0x42u8; 32],
        rf_channel: 6,
        encrypted_payload: vec![0xAA],
        board_layout: ProvisionedBoardLayout::Provided(sensor_node_layout()),
    };

    let status = handle_node_provision(&provision, &mut storage, &mut maps, false, false);
    assert_eq!(status, NODE_ACK_STORAGE_ERROR);
    assert!(storage.read_key().is_none());
    assert!(storage.read_peer_payload().is_none());
}

/// Layout absent with no stored layout → legacy compatibility layout is synthesized.
#[test]
fn handle_provision_without_board_layout_writes_legacy_compat() {
    let mut storage = MockStorage::new();
    let mut maps = MapStorage::new(1024);
    let provision = make_provision(0x0001, [0x42u8; 32], 6, &[0xAA]);

    let status = handle_node_provision(&provision, &mut storage, &mut maps, false, false);
    assert_eq!(status, NODE_ACK_SUCCESS);
    assert_eq!(
        storage.read_board_layout(),
        Some(BoardLayout::legacy_compat())
    );
}

#[test]
fn full_roundtrip_from_ble_write() {
    // Build a raw BLE GATT write as it would arrive from the phone
    let psk = [0x42u8; 32];
    let payload = vec![0xDE, 0xAD];

    let mut body = vec![0u8; 37 + payload.len()];
    body[0] = 0x00;
    body[1] = 0x01; // key_hint = 1
    body[2..34].copy_from_slice(&psk);
    body[34] = 6; // channel
    body[35] = 0x00;
    body[36] = payload.len() as u8;
    body[37..].copy_from_slice(&payload);

    let gatt_write = encode_ble_envelope(BLE_MSG_NODE_PROVISION, &body).unwrap();

    // Parse envelope
    let (msg_type, body_slice) = parse_ble_envelope(&gatt_write).unwrap();
    assert_eq!(msg_type, BLE_MSG_NODE_PROVISION);

    // Parse provision
    let provision = parse_node_provision(body_slice, None).unwrap();

    // Handle
    let mut storage = MockStorage::new();
    let mut maps = MapStorage::new(1024);
    let status = handle_node_provision(&provision, &mut storage, &mut maps, false, false);
    let ack = encode_node_ack(status);
    let (ack_type, ack_body) = parse_ble_envelope(&ack).unwrap();
    assert_eq!(ack_type, BLE_MSG_NODE_ACK);
    assert_eq!(ack_body, &[NODE_ACK_SUCCESS]);

    // Verify NVS
    assert_eq!(storage.read_key().unwrap().1, psk);
    assert_eq!(storage.read_channel(), Some(6));
    assert_eq!(
        storage.read_peer_payload().as_deref(),
        Some(payload.as_slice())
    );
    assert!(!storage.read_reg_complete());
}

#[test]
fn test_mtu_below_minimum_rejected() {
    // The negotiated ATT MTU must be >= 247. Connections
    // with a lower MTU must be disconnected.
    assert!(!is_mtu_acceptable(246), "MTU 246 (< 247) must be rejected");
    assert!(!is_mtu_acceptable(100), "MTU 100 must be rejected");
    assert!(
        !is_mtu_acceptable(23),
        "MTU 23 (BLE default) must be rejected"
    );
    assert!(!is_mtu_acceptable(0), "MTU 0 must be rejected");
}

#[test]
fn test_mtu_at_minimum_accepted() {
    // MTU == 247 is the exact boundary — must be accepted.
    assert!(
        is_mtu_acceptable(247),
        "MTU 247 (exact minimum) must be accepted"
    );
}

#[test]
fn test_mtu_above_minimum_accepted() {
    // MTU > 247 must be accepted.
    assert!(is_mtu_acceptable(248), "MTU 248 must be accepted");
    assert!(is_mtu_acceptable(512), "MTU 512 must be accepted");
}

#[test]
fn test_ble_min_att_mtu_constant() {
    // Ensure the shared constant matches the protocol requirement.
    assert_eq!(
        BLE_MIN_ATT_MTU, 247,
        "BLE_MIN_ATT_MTU must be 247"
    );
}

#[test]
fn run_test_command_valid_is_staged() {
    let command = RunTestCommand {
        test_type: TEST_TYPE_DIAG_FRAME,
        rf_channel: Some(6),
        payload: vec![0x42; 50],
    };
    let mut storage = MockStorage::new();

    let (status, staged) = handle_run_test_command(Some(command), &mut storage);
    assert_eq!(status, RUN_TEST_ACK_OK);
    assert_eq!(staged, storage.read_staged_test_command());
    assert_eq!(
        storage.read_staged_test_command().unwrap().rf_channel,
        Some(6)
    );
}

#[test]
fn run_test_command_invalid_diag_frame_is_rejected() {
    let body = encode_ble_envelope(0x02, &[0xA3, 0x01, 0x01, 0x02, 0x0E, 0x03, 0x41, 0xAA]).unwrap();
    let (_, body) = parse_ble_envelope(&body).unwrap();
    assert_eq!(body, &[0xA3, 0x01, 0x01, 0x02, 0x0E, 0x03, 0x41, 0xAA]);
    let mut storage = MockStorage::new();

    // A request for a channel that does not exist does not decode.
    let (status, staged) = handle_run_test_command(None, &mut storage);
    assert_eq!(status, RUN_TEST_ACK_INVALID);
    assert!(staged.is_none());
    assert!(storage.read_staged_test_command().is_none());
}

#[test]
fn run_test_command_unsupported_type_is_rejected() {
    let command = RunTestCommand {
        test_type: 0x99,
        rf_channel: None,
        payload: vec![],
    };
    let mut storage = MockStorage::new();

    let (status, staged) = handle_run_test_command(Some(command), &mut storage);
    assert_eq!(status, RUN_TEST_ACK_UNSUPPORTED);
    assert!(staged.is_none());
    assert!(storage.read_staged_test_command().is_none());
}

#[test]
fn read_test_result_returns_retained_result_and_no_result_fallback() {
    let mut storage = MockStorage::new();
    let no_result = handle_read_test_result(&[], &storage, is_consistent).unwrap();
    assert_eq!(no_result.status, TEST_RESULT_NO_RESULT);
    assert!(no_result.test_type.is_none());

    let retained = TestResult {
        status: TEST_RESULT_TIMEOUT,
        test_type: Some(TEST_TYPE_DIAG_FRAME),
        reply_frame: None,
        reply_rssi_dbm: None,
        attempt_count: 4,
        elapsed_ms: 8_600,
    };
    storage.test_result = Some(retained.duplicate());
    assert_eq!(handle_read_test_result(&[], &storage, is_consistent).unwrap(), retained);
}

#[test]
fn read_test_result_sanitizes_invalid_retained_result() {
    let mut storage = MockStorage::new();
    storage.test_result = Some(TestResult {
        status: TEST_RESULT_OK,
        test_type: Some(TEST_TYPE_DIAG_FRAME),
        reply_frame: None,
        reply_rssi_dbm: Some(-67),
        attempt_count: 2,
        elapsed_ms: 1_500,
    });

    let result = handle_read_test_result(&[], &storage, is_consistent).unwrap();

    assert_eq!(result.status, TEST_RESULT_EXECUTION_ERROR);
    assert_eq!(result.test_type, Some(TEST_TYPE_DIAG_FRAME));
    assert!(result.reply_frame.is_none());
    assert!(result.reply_rssi_dbm.is_none());
    assert_eq!(result.attempt_count, 2);
    assert_eq!(result.elapsed_ms, 1_500);
}

#[test]
fn encode_test_result_response_sanitizes_invalid_payload() {
    let invalid = TestResult {
        status: TEST_RESULT_OK,
        test_type: Some(TEST_TYPE_DIAG_FRAME),
        reply_frame: None,
        reply_rssi_dbm: Some(-67),
        attempt_count: 2,
        elapsed_ms: 1_500,
    };

    let response =
        encode_test_result_response(BLE_TEST_RESULT, &invalid, is_consistent, encode_result);
    let (msg_type, body) = parse_ble_envelope(&response).unwrap();
    let decoded = decode_result(body);

    assert_eq!(msg_type, BLE_TEST_RESULT);
    assert_eq!(decoded.status, TEST_RESULT_EXECUTION_ERROR);
    assert_eq!(decoded.test_type, Some(TEST_TYPE_DIAG_FRAME));
    assert!(decoded.reply_frame.is_none());
    assert!(decoded.reply_rssi_dbm.is_none());
    assert_eq!(decoded.attempt_count, 2);
    assert_eq!(decoded.elapsed_ms, 1_500);
}

#[test]
fn execute_staged_test_command_stores_success_result() {
    let mut storage = MockStorage::new();
    storage.staged_test_command = Some(StagedTestCommand {
        test_type: TEST_TYPE_DIAG_FRAME,
        rf_channel: Some(6),
        payload: vec![0x42; 50],
    });
    let reply = ReceivedFrame {
        data: vec![
            0x12,
            0x34,
            MSG_DIAG_REPLY,
            0,
            0,
            0,
            0,
            0,
            0,
            0,
            1,
            0,
            0,
            0,
            0,
            0,
            0,
            0,
            0,
            0,
            0,
            0,
            0,
            0,
            0,
            0,
            0,
        ],
        rssi_dbm: Some(-67),
    };
    let mut transport = MockTransport::new(vec![Some(ReceivedFrame {
        data: reply.data.clone(),
        rssi_dbm: reply.rssi_dbm,
    })]);
    let mut clock = MockClock::default();

    let result = execute_staged_test_command(&mut storage, &mut transport, &mut clock, FIRST_FRAME)
        .unwrap()
        .unwrap();

    assert_eq!(result.status, TEST_RESULT_OK);
    assert_eq!(result.test_type, Some(TEST_TYPE_DIAG_FRAME));
    assert_eq!(result.reply_frame, Some(reply.data));
    assert_eq!(result.reply_rssi_dbm, Some(-67));
    assert_eq!(result.attempt_count, 1);
    assert!(storage.read_staged_test_command().is_none());
    assert_eq!(storage.read_test_result(), Some(result));
}

#[test]
fn execute_staged_test_command_allows_success_without_reply_rssi() {
    let mut storage = MockStorage::new();
    storage.staged_test_command = Some(StagedTestCommand {
        test_type: TEST_TYPE_DIAG_FRAME,
        rf_channel: Some(6),
        payload: vec![0x42; 50],
    });
    let reply = ReceivedFrame {
        data: vec![
            0x12,
            0x34,
            MSG_DIAG_REPLY,
            0,
            0,
            0,
            0,
            0,
            0,
            0,
            1,
            0,
            0,
            0,
            0,
            0,
            0,
            0,
            0,
            0,
            0,
            0,
            0,
            0,
            0,
            0,
            0,
        ],
        rssi_dbm: None,
    };
    let mut transport = MockTransport::new(vec![Some(reply)]);
    let mut clock = MockClock::default();

    let result = execute_staged_test_command(&mut storage, &mut transport, &mut clock, FIRST_FRAME)
        .unwrap()
        .unwrap();

    assert_eq!(result.status, TEST_RESULT_OK);
    assert_eq!(result.test_type, Some(TEST_TYPE_DIAG_FRAME));
    assert!(result.reply_frame.is_some());
    assert!(result.reply_rssi_dbm.is_none());
    assert_eq!(result.attempt_count, 1);
    assert!(storage.read_staged_test_command().is_none());
    assert_eq!(storage.read_test_result(), Some(result));
}

#[test]
fn execute_staged_test_command_times_out_after_retries() {
    let mut storage = MockStorage::new();
    storage.staged_test_command = Some(StagedTestCommand {
        test_type: TEST_TYPE_DIAG_FRAME,
        rf_channel: Some(6),
        payload: vec![0x42; 50],
    });
    let mut transport = MockTransport::new(vec![None, None, None, None]);
    let mut clock = MockClock::default();

    let result = execute_staged_test_command(&mut storage, &mut transport, &mut clock, FIRST_FRAME)
        .unwrap()
        .unwrap();

    assert_eq!(result.status, TEST_RESULT_TIMEOUT);
    assert_eq!(result.attempt_count, 4);
    assert_eq!(transport.sends.len(), 4);
    assert_eq!(clock.delays_ms, vec![200, 200, 200]);
}

#[test]
fn execute_staged_test_command_rejects_truncated_diag_reply() {
    let mut storage = MockStorage::new();
    storage.staged_test_command = Some(StagedTestCommand {
        test_type: TEST_TYPE_DIAG_FRAME,
        rf_channel: Some(6),
        payload: vec![0x42; 50],
    });
    let truncated_reply = ReceivedFrame {
        data: vec![
            0x12,
            0x34,
            MSG_DIAG_REPLY,
            0,
            0,
            0,
            0,
            0,
            0,
            0,
            1,
        ],
        rssi_dbm: Some(-67),
    };
    let mut transport = MockTransport::new(vec![Some(truncated_reply), None, None, None]);
    let mut clock = MockClock::default();

    let result = execute_staged_test_command(&mut storage, &mut transport, &mut clock, FIRST_FRAME)
        .unwrap()
        .unwrap();

    assert_eq!(result.status, TEST_RESULT_TIMEOUT);
    assert_eq!(result.attempt_count, 4);
    assert_eq!(transport.sends.len(), 4);
}

#[test]
fn execute_staged_test_command_rejects_invalid_staged_command() {
    let mut storage = MockStorage::new();
    storage.staged_test_command = Some(StagedTestCommand {
        test_type: TEST_TYPE_DIAG_FRAME,
        rf_channel: None,
        payload: vec![0x42; 50],
    });
    let mut transport = MockTransport::new(vec![]);
    let mut clock = MockClock::default();

    let result = execute_staged_test_command(&mut storage, &mut transport, &mut clock, FIRST_FRAME)
        .unwrap()
        .unwrap();

    assert_eq!(result.status, TEST_RESULT_EXECUTION_ERROR);
    assert_eq!(result.test_type, Some(TEST_TYPE_DIAG_FRAME));
    assert!(storage.read_staged_test_command().is_none());
}

#[test]
fn execute_staged_test_command_returns_execution_error_when_all_sends_fail() {
    struct FailingSendTransport {
        send_calls: usize,
    }

    impl Transport for FailingSendTransport {
        fn send(&mut self, _frame: &[u8]) -> NodeResult<()> {
            self.send_calls += 1;
            Err(NodeError::Transport("injected send failure"))
        }

        fn recv_with_metadata(
            &mut self,
            _timeout_ms: u32,
        ) -> NodeResult<Option<ReceivedFrame>> {
            Ok(None)
        }
    }

    let mut storage = MockStorage::new();
    storage.staged_test_command = Some(StagedTestCommand {
        test_type: TEST_TYPE_DIAG_FRAME,
        rf_channel: Some(6),
        payload: vec![0x42; 50],
    });
    let mut transport = FailingSendTransport { send_calls: 0 };
    let mut clock = MockClock::default();

    let result = execute_staged_test_command(&mut storage, &mut transport, &mut clock, FIRST_FRAME)
        .unwrap()
        .unwrap();

    assert_eq!(result.status, TEST_RESULT_EXECUTION_ERROR);
    assert_eq!(result.attempt_count, 4);
    assert_eq!(transport.send_calls, 4);
    assert_eq!(clock.delays_ms, vec![200, 200, 200]);
}

#[test]
fn execute_staged_test_command_clears_staged_command_when_result_write_fails() {
    let mut storage = MockStorage::new();
    storage.fail_write_test_result = true;
    storage.staged_test_command = Some(StagedTestCommand {
        test_type: TEST_TYPE_DIAG_FRAME,
        rf_channel: Some(6),
        payload: vec![0x42; 50],
    });
    let reply = ReceivedFrame {
        data: vec![
            0x12,
            0x34,
            MSG_DIAG_REPLY,
            0,
            0,
            0,
            0,
            0,
            0,
            0,
            1,
        ],
        rssi_dbm: Some(-67),
    };
    let mut transport = MockTransport::new(vec![Some(reply)]);
    let mut clock = MockClock::default();

    let err = execute_staged_test_command(&mut storage, &mut transport, &mut clock, FIRST_FRAME).unwrap_err();

    assert!(matches!(err, NodeError::StorageError(_)));
    assert!(storage.read_staged_test_command().is_none());
    assert!(storage.read_test_result().is_none());
}

#[test]
fn retained_result_remains_readable_until_overwritten() {
    let mut storage = MockStorage::new();
    let first = TestResult {
        status: TEST_RESULT_OK,
        test_type: Some(TEST_TYPE_DIAG_FRAME),
        reply_frame: Some(vec![0x12, 0x34, MSG_DIAG_REPLY]),
        reply_rssi_dbm: Some(-61),
        attempt_count: 1,
        elapsed_ms: 900,
    };
    storage.write_test_result(&first).unwrap();

    assert_eq!(handle_read_test_result(&[], &storage, is_consistent).unwrap(), first);
    assert_eq!(handle_read_test_result(&[], &storage, is_consistent).unwrap(), first);

    storage.staged_test_command = Some(StagedTestCommand {
        test_type: TEST_TYPE_DIAG_FRAME,
        rf_channel: Some(6),
        payload: vec![0x42; 50],
    });
    let reply = ReceivedFrame {
        data: vec![
            0x12,
            0x34,
            MSG_DIAG_REPLY,
            0,
            0,
            0,
            0,
            0,
            0,
            0,
            2,
        ],
        rssi_dbm: Some(-72),
    };
    let mut transport = MockTransport::new(vec![Some(ReceivedFrame {
        data: reply.data.clone(),
        rssi_dbm: reply.rssi_dbm,
    })]);
    let mut clock = MockClock::default();

    let second = execute_staged_test_command(&mut storage, &mut transport, &mut clock, FIRST_FRAME)
        .unwrap()
        .unwrap();

    assert_eq!(handle_read_test_result(&[], &storage, is_consistent).unwrap(), second);
    assert_ne!(second, first);
}

#[test]
fn node_provision_succeeds_after_test_execution() {
    let mut storage = MockStorage::new();
    storage.staged_test_command = Some(StagedTestCommand {
        test_type: TEST_TYPE_DIAG_FRAME,
        rf_channel: Some(6),
        payload: vec![0x42; 50],
    });
    let reply = ReceivedFrame {
        data: vec![
            0x12,
            0x34,
            MSG_DIAG_REPLY,
            0,
            0,
            0,
            0,
            0,
            0,
            0,
            3,
        ],
        rssi_dbm: Some(-67),
    };
    let mut transport = MockTransport::new(vec![Some(reply)]);
    let mut clock = MockClock::default();
    let mut map_storage = MapStorage::new(1024);

    execute_staged_test_command(&mut storage, &mut transport, &mut clock, FIRST_FRAME)
        .unwrap()
        .unwrap();

    let provision = NodeProvision {
        key_hint: 0x1234,
        psk: [0x42; 32],
        rf_channel: 6,
        encrypted_payload: vec![0xAA; 32],
        board_layout: ProvisionedBoardLayout::Absent,
    };
    let status =
        handle_node_provision(&provision, &mut storage, &mut map_storage, false, false);
    assert_eq!(status, NODE_ACK_SUCCESS);
    assert_eq!(storage.read_key(), Some((0x1234, [0x42; 32])));
    assert_eq!(storage.read_channel(), Some(6));
    assert_eq!(storage.read_peer_payload(), Some(vec![0xAA; 32]));
}

/// A NODE_PROVISION where `payload_len` exceeds the remaining
/// data in the buffer MUST be rejected without reading beyond the buffer
/// boundary.
#[test]
fn t_n940_node_provision_invalid_payload_len_rejected() {
    // payload_len claims 100 bytes, but only 4 follow the header.
    let actual_payload = [0xAA, 0xBB, 0xCC, 0xDD];
    let claimed_len: u16 = 100;
    let mut body = vec![0u8; 37 + actual_payload.len()];

    // key_hint = 0x1234
    body[0] = 0x12;
    body[1] = 0x34;
    // psk: 32 bytes of 0x42
    body[2..34].fill(0x42);
    // rf_channel = 6
    body[34] = 6;
    // payload_len = 100 (BE) — exceeds remaining bytes
    body[35] = (claimed_len >> 8) as u8;
    body[36] = (claimed_len & 0xFF) as u8;
    // actual payload: only 4 bytes
    body[37..37 + actual_payload.len()].copy_from_slice(&actual_payload);

    let err = parse_node_provision(&body, None).unwrap_err();
    assert_eq!(
        err, "encrypted_payload truncated",
        "must reject before reading beyond the buffer"
    );
}

/// payload_len = 0xFFFF (maximum u16) with a minimal
/// body — rejects as "too large" before any read.
#[test]
fn t_n940_node_provision_payload_len_max_u16_rejected() {
    let mut body = vec![0u8; 37 + 2]; // only 2 payload bytes
    body[2..34].fill(0x42);
    body[34] = 1; // channel
    body[35] = 0xFF;
    body[36] = 0xFF; // payload_len = 65535

    let err = parse_node_provision(&body, None).unwrap_err();
    assert_eq!(err, "encrypted_payload too large");
}

#[test]
fn read_test_result_with_a_body_is_refused() {
    let storage = MockStorage::new();
    assert!(handle_read_test_result(&[0x00], &storage, is_consistent).is_err());
}

#[test]
fn run_test_command_write_failure_is_invalid() {
    let command = RunTestCommand {
        test_type: TEST_TYPE_DIAG_FRAME,
        rf_channel: Some(6),
        payload: vec![0x42; 50],
    };
    let mut storage = MockStorage::new();
    storage.fail_write_staged_test_command = true;
    let (status, staged) = handle_run_test_command(Some(command), &mut storage);
    assert_eq!(status, RUN_TEST_ACK_INVALID);
    assert!(staged.is_none());
}

#[test]
fn valid_test_result_is_encoded_as_it_is() {
    let valid = TestResult {
        status: TEST_RESULT_TIMEOUT,
        test_type: Some(TEST_TYPE_DIAG_FRAME),
        reply_frame: None,
        reply_rssi_dbm: None,
        attempt_count: 4,
        elapsed_ms: 8_600,
    };
    let response =
        encode_test_result_response(BLE_TEST_RESULT, &valid, is_consistent, encode_result);
    let (_, body) = parse_ble_envelope(&response).unwrap();
    assert_eq!(body, &encode_result(&valid)[..]);
    assert_eq!(decode_result(body), valid);
}

#[test]
fn replacing_a_result_twice_changes_nothing() {
    let invalid = TestResult {
        status: TEST_RESULT_OK,
        test_type: None,
        reply_frame: None,
        reply_rssi_dbm: Some(-67),
        attempt_count: 2,
        elapsed_ms: 1_500,
    };
    let once = sanitize_test_result(&invalid, false);
    assert_eq!(once.status, TEST_RESULT_NO_RESULT);
    assert_eq!(sanitize_test_result(&once, false), once);
}

#[test]
fn run_test_ack_is_enveloped() {
    assert_eq!(
        encode_run_test_ack(0x82, Some(vec![0xA0])),
        vec![0x82, 0x00, 0x01, 0xA0]
    );
    assert_eq!(encode_run_test_ack(0x82, None), vec![0x82, 0x00, 0x00]);
}

#[test]
fn nothing_is_executed_without_a_staged_command() {
    let mut storage = MockStorage::new();
    let mut transport = MockTransport::new(vec![]);
    let mut clock = MockClock::default();
    let result =
        execute_staged_test_command(&mut storage, &mut transport, &mut clock, FIRST_FRAME)
            .unwrap();
    assert!(result.is_none());
    assert!(transport.sends.is_empty());
}

fn frame_of_type(msg_type: u8) -> ReceivedFrame {
    let mut data = vec![0; 27];
    data[2] = msg_type;
    ReceivedFrame {
        data,
        rssi_dbm: Some(-50),
    }
}

/// Run a test that receives another frame before the reply.
fn test_with_another_frame(wait: ReplyWait) -> (TestResult, usize) {
    let mut storage = MockStorage::new();
    storage.staged_test_command = Some(StagedTestCommand {
        test_type: TEST_TYPE_DIAG_FRAME,
        rf_channel: Some(6),
        payload: vec![0x42; 50],
    });
    let mut transport = MockTransport::new(vec![
        Some(frame_of_type(0x01)),
        Some(frame_of_type(MSG_DIAG_REPLY)),
    ]);
    let mut clock = MockClock::default();
    let result = execute_staged_test_command(&mut storage, &mut transport, &mut clock, wait)
        .unwrap()
        .unwrap();
    (result, transport.sends.len())
}

#[test]
fn another_frame_ends_the_attempt() {
    let (result, sends) = test_with_another_frame(FIRST_FRAME);
    assert_eq!(result.status, TEST_RESULT_OK);
    assert_eq!(result.attempt_count, 2);
    assert_eq!(sends, 2);
}

#[test]
fn reply_may_come_after_another_frame() {
    let (result, sends) = test_with_another_frame(ANY_FRAME);
    assert_eq!(result.status, TEST_RESULT_OK);
    assert_eq!(result.attempt_count, 1);
    assert_eq!(sends, 1);
}

#[test]
fn unknown_test_type_is_an_execution_error() {
    let mut storage = MockStorage::new();
    storage.staged_test_command = Some(StagedTestCommand {
        test_type: 0x99,
        rf_channel: Some(6),
        payload: vec![],
    });
    let mut transport = MockTransport::new(vec![]);
    let mut clock = MockClock::default();
    let result =
        execute_staged_test_command(&mut storage, &mut transport, &mut clock, FIRST_FRAME)
            .unwrap()
            .unwrap();
    assert_eq!(result.status, TEST_RESULT_EXECUTION_ERROR);
    assert_eq!(result.test_type, Some(0x99));
    assert!(transport.sends.is_empty());
}

#[test]
fn staged_command_that_cannot_be_cleared_is_an_error() {
    let mut storage = MockStorage::new();
    storage.fail_clear_staged_test_command = true;
    storage.staged_test_command = Some(StagedTestCommand {
        test_type: 0x99,
        rf_channel: Some(6),
        payload: vec![],
    });
    let mut transport = MockTransport::new(vec![]);
    let mut clock = MockClock::default();
    let answer =
        execute_staged_test_command(&mut storage, &mut transport, &mut clock, FIRST_FRAME);
    assert!(matches!(answer, Err(NodeError::StorageError(_))));
}
