//! Handles, helper numbers, board layouts, retained records, hashing, sleep,
//! errors and the small encodings of the node.

use sonde::node::board_layout::{
    decode_pin, encode_pin, runtime_board_layout, stage_runtime_board_layout, RtcBoardLayout,
};
use sonde::node::bpf_helpers::{ProgramClass, SondeContext};
use sonde::node::bpf_runtime::BpfError;
use sonde::node::crypto::{EspRng, SoftwareSha256};
use sonde::node::error::NodeError;
use sonde::node::hal::{
    approximate_mv, handle_addr, handle_bus, i2c_handle, spi_handle, Hal,
};
use sonde::node::helper_ids;
use sonde::node::map_storage::{MapDef, MapStorage};
use sonde::node::retained::{
    retained_test_result_is_valid, staged_test_command_is_valid, RetainedFlags,
    RtcStagedTestCommand, RtcTestResult, RTC_STAGED_TEST_MAGIC, RTC_TEST_RESULT_MAGIC,
};
use sonde::node::sleep::{SleepManager, WakeReason};
use sonde::node::types::{BoardLayout, StagedTestCommand, TestResult, TestStatus};

#[test]
fn test_handle_encoding() {
    let h = i2c_handle(0, 0x48);
    assert_eq!(handle_bus(h), 0);
    assert_eq!(handle_addr(h), 0x48);

    let h2 = i2c_handle(1, 0x76);
    assert_eq!(handle_bus(h2), 1);
    assert_eq!(handle_addr(h2), 0x76);
}

#[test]
fn test_spi_handle() {
    let h = spi_handle(2);
    assert_eq!(handle_bus(h), 2);
}

#[test]
fn runtime_layout_round_trip() {
    let layout = BoardLayout {
        i2c0_sda: Some(4),
        i2c0_scl: Some(5),
        one_wire_data: Some(3),
        battery_adc: Some(2),
        sensor_enable: Some(10),
    };
    let mut record = RtcBoardLayout::empty();
    stage_runtime_board_layout(&mut record, &layout);
    assert_eq!(runtime_board_layout(&record), Some(layout));
}

#[test]
fn unstaged_layout_is_absent() {
    assert_eq!(runtime_board_layout(&RtcBoardLayout::empty()), None);
}

#[test]
fn pins_have_a_stored_form() {
    assert_eq!(encode_pin(None), -1);
    assert_eq!(encode_pin(Some(21)), 21);
    assert_eq!(decode_pin(-1), None);
    assert_eq!(decode_pin(256), Some(0));
    assert_eq!(decode_pin(255), Some(255));
}

#[test]
fn test_sonde_context_size() {
    // timestamp(8) + battery_mv(2) + firmware_abi_version(2) + wake_reason(1) + padding(3) = 16
    assert_eq!(SondeContext::SIZE, 16);
}

#[test]
fn context_bytes_follow_the_layout() {
    let context = SondeContext {
        timestamp: 0x0102_0304_0506_0708,
        battery_mv: 3300,
        firmware_abi_version: 1,
        wake_reason: 2,
        _padding: [0; 3],
    };
    let bytes = context.to_bytes();
    assert_eq!(bytes.len(), SondeContext::SIZE);
    assert_eq!(
        bytes,
        vec![8, 7, 6, 5, 4, 3, 2, 1, 0xE4, 0x0C, 1, 0, 2, 0, 0, 0]
    );
    assert_eq!(core::mem::size_of::<SondeContext>(), 16);
}

#[test]
fn test_helper_ids_are_sequential() {
    assert_eq!(helper_ids::I2C_READ, 1);
    assert_eq!(helper_ids::BPF_TRACE_PRINTK, 16);
}

#[test]
fn test_helper_abi_conformance() {
    let expected: [(u32, &str); 16] = [
        (1, "I2C_READ"),
        (2, "I2C_WRITE"),
        (3, "I2C_WRITE_READ"),
        (4, "SPI_TRANSFER"),
        (5, "GPIO_READ"),
        (6, "GPIO_WRITE"),
        (7, "ADC_READ"),
        (8, "SEND"),
        (9, "SEND_RECV"),
        (10, "MAP_LOOKUP_ELEM"),
        (11, "MAP_UPDATE_ELEM"),
        (12, "GET_TIME"),
        (13, "GET_BATTERY_MV"),
        (14, "DELAY_US"),
        (15, "SET_NEXT_WAKE"),
        (16, "BPF_TRACE_PRINTK"),
    ];

    let actual = [
        helper_ids::I2C_READ,
        helper_ids::I2C_WRITE,
        helper_ids::I2C_WRITE_READ,
        helper_ids::SPI_TRANSFER,
        helper_ids::GPIO_READ,
        helper_ids::GPIO_WRITE,
        helper_ids::ADC_READ,
        helper_ids::SEND,
        helper_ids::SEND_RECV,
        helper_ids::MAP_LOOKUP_ELEM,
        helper_ids::MAP_UPDATE_ELEM,
        helper_ids::GET_TIME,
        helper_ids::GET_BATTERY_MV,
        helper_ids::DELAY_US,
        helper_ids::SET_NEXT_WAKE,
        helper_ids::BPF_TRACE_PRINTK,
    ];

    for (i, ((expected_id, name), actual_id)) in expected.iter().zip(actual.iter()).enumerate() {
        assert_eq!(
            *actual_id, *expected_id,
            "helper {name} at index {i}: expected ID {expected_id}, got {actual_id}"
        );
    }

    // The range 1..=16 has no gaps.
    assert_eq!(actual.len(), 16);
    for (i, id) in actual.iter().enumerate() {
        assert_eq!(*id, (i + 1) as u32, "helper IDs must be contiguous 1..=N");
    }
}

#[test]
fn test_program_class() {
    assert_ne!(ProgramClass::Resident, ProgramClass::Ephemeral);
}

#[test]
fn sha256_known_vector() {
    let sha = SoftwareSha256;
    // SHA-256 of the empty string.
    let hash = sha.hash(b"");
    let expected: [u8; 32] = [
        0xe3, 0xb0, 0xc4, 0x42, 0x98, 0xfc, 0x1c, 0x14, 0x9a, 0xfb, 0xf4, 0xc8, 0x99, 0x6f, 0xb9,
        0x24, 0x27, 0xae, 0x41, 0xe4, 0x64, 0x9b, 0x93, 0x4c, 0xa4, 0x95, 0x99, 0x1b, 0x78, 0x52,
        0xb8, 0x55,
    ];
    assert_eq!(hash, expected);
}

#[test]
fn sha256_of_abc() {
    let hash = SoftwareSha256.hash(b"abc");
    let expected: [u8; 32] = [
        0xba, 0x78, 0x16, 0xbf, 0x8f, 0x01, 0xcf, 0xea, 0x41, 0x41, 0x40, 0xde, 0x5d, 0xae, 0x22,
        0x23, 0xb0, 0x03, 0x61, 0xa3, 0x96, 0x17, 0x7a, 0x9c, 0xb4, 0x10, 0xff, 0x61, 0xf2, 0x00,
        0x15, 0xad,
    ];
    assert_eq!(hash, expected);
}

#[test]
fn random_words_are_joined() {
    assert_eq!(
        EspRng.random_u64(0x0123_4567, 0x89AB_CDEF),
        0x0123_4567_89AB_CDEF
    );
}

#[test]
fn staged_test_command_requires_magic_and_valid_flag() {
    let mut command = RtcStagedTestCommand::zero();
    assert!(!staged_test_command_is_valid(&command));

    command.magic = RTC_STAGED_TEST_MAGIC;
    assert!(!staged_test_command_is_valid(&command));

    command.valid = 1;
    assert!(staged_test_command_is_valid(&command));
}

#[test]
fn retained_test_result_requires_magic_and_valid_flag() {
    let mut result = RtcTestResult::zero();
    assert!(!retained_test_result_is_valid(&result));

    result.magic = RTC_TEST_RESULT_MAGIC;
    assert!(!retained_test_result_is_valid(&result));

    result.valid = 1;
    assert!(retained_test_result_is_valid(&result));
}

#[test]
fn staged_command_survives_in_retained_memory() {
    let mut record = RtcStagedTestCommand::zero();
    assert!(record.read().is_none());
    let command = StagedTestCommand {
        test_type: 1,
        rf_channel: Some(11),
        payload: vec![9; 250],
    };
    record.write(&command).unwrap();
    assert_eq!(record.read(), Some(command));
    record.clear();
    assert!(record.read().is_none());
}

#[test]
fn oversized_staged_payload_is_refused() {
    let mut record = RtcStagedTestCommand::zero();
    let command = StagedTestCommand {
        test_type: 1,
        rf_channel: None,
        payload: vec![9; 251],
    };
    assert!(matches!(record.write(&command), Err(NodeError::StorageError(_))));
    assert!(record.read().is_none());
}

fn sample_result() -> TestResult {
    TestResult {
        status: TestStatus::Success,
        test_type: Some(1),
        reply_frame: Some(vec![1, 2, 3]),
        reply_rssi_dbm: Some(-40),
        attempt_count: 2,
        elapsed_ms: 1234,
    }
}

#[test]
fn test_result_survives_in_retained_memory() {
    let mut record = RtcTestResult::zero();
    assert!(record.read(|_| true).is_none());
    record.write(&sample_result(), true).unwrap();
    assert_eq!(record.read(|_| true), Some(sample_result()));
    assert_eq!(record.read(|_| false), None);
}

#[test]
fn invalid_test_result_is_not_retained() {
    let mut record = RtcTestResult::zero();
    assert!(record.write(&sample_result(), false).is_err());
    assert!(record.read(|_| true).is_none());
}

#[test]
fn retained_flags() {
    let mut flags = RetainedFlags::new();
    assert!(!flags.take_early_wake_flag());
    flags.set_early_wake_flag();
    assert!(flags.take_early_wake_flag());
    assert!(!flags.take_early_wake_flag());
    assert_eq!(flags.read_last_battery_mv(), None);
    flags.write_last_battery_mv(3300);
    assert_eq!(flags.read_last_battery_mv(), Some(3300));
}

#[test]
fn sleep_is_bounded_by_the_base_interval() {
    let mut sleep = SleepManager::new(300, WakeReason::Scheduled);
    assert_eq!(sleep.effective_sleep_s(), 300);
    assert!(!sleep.will_wake_early());
    sleep.set_next_wake(10);
    assert_eq!(sleep.effective_sleep_s(), 10);
    assert!(sleep.will_wake_early());
    sleep.set_next_wake(600);
    assert_eq!(sleep.effective_sleep_s(), 300);
}

#[test]
fn map_values_are_stored() {
    let mut maps = MapStorage::new(64);
    let def = MapDef {
        map_type: 1,
        key_size: 4,
        value_size: 4,
        max_entries: 4,
    };
    maps.allocate(&[def]).unwrap();
    assert_eq!(maps.len(), 1);
    assert_eq!(maps.get(0).unwrap().lookup(3), Some(&[0u8, 0, 0, 0][..]));
    maps.update(0, 3, &[1, 2, 3, 4]).unwrap();
    assert_eq!(maps.get(0).unwrap().lookup(3), Some(&[1u8, 2, 3, 4][..]));
    assert_eq!(maps.get(0).unwrap().lookup(2), Some(&[0u8, 0, 0, 0][..]));
    assert_eq!(maps.get(0).unwrap().lookup(4), None);
    assert!(maps.update(0, 4, &[1, 2, 3, 4]).is_err());
    assert!(maps.get(1).is_none());
    maps.clear_all();
    assert_eq!(maps.get(0).unwrap().lookup(3), Some(&[0u8, 0, 0, 0][..]));
}

#[test]
fn map_budget_is_kept() {
    let mut maps = MapStorage::new(15);
    let def = MapDef {
        map_type: 1,
        key_size: 4,
        value_size: 4,
        max_entries: 4,
    };
    assert!(matches!(
        maps.allocate(&[def]),
        Err(NodeError::MapBudgetExceeded { .. })
    ));
}

struct FixedAdc {
    raw: i32,
}

impl Hal for FixedAdc {
    fn i2c_read(&mut self, _handle: u32, _buf: &mut [u8]) -> i32 {
        -1
    }

    fn i2c_write(&mut self, _handle: u32, _data: &[u8]) -> i32 {
        -1
    }

    fn i2c_write_read(&mut self, _handle: u32, _write: &[u8], _read: &mut [u8]) -> i32 {
        -1
    }

    fn spi_transfer(&mut self, _handle: u32, _buf: &mut [u8]) -> i32 {
        -1
    }

    fn gpio_read(&mut self, _pin: u32) -> i32 {
        -1
    }

    fn gpio_write(&mut self, _pin: u32, _value: u32) -> i32 {
        -1
    }

    fn adc_read(&mut self, _channel: u32) -> i32 {
        self.raw
    }
}

#[test]
fn adc_readings_are_converted() {
    assert_eq!(approximate_mv(0), 0);
    assert_eq!(approximate_mv(2047), 2500);
    assert_eq!(approximate_mv(1000), 1221);
    assert_eq!(FixedAdc { raw: 2047 }.adc_read_mv(0), 2500);
    assert_eq!(FixedAdc { raw: -1 }.adc_read_mv(0), -1);
    assert_eq!(FixedAdc { raw: 1000 }.adc_read_diagnostics(0), (1000, 1221));
}

#[test]
fn errors_have_texts() {
    let texts = [
        (NodeError::AuthFailure, "HMAC verification failed"),
        (NodeError::ResponseBindingMismatch, "response binding mismatch"),
        (NodeError::UnexpectedMsgType(0x0A), "unexpected msg_type: 0x0a"),
        (NodeError::MalformedPayload("no map".to_string()), "malformed payload: no map"),
        (NodeError::Transport("link down"), "transport error: link down"),
        (NodeError::Unpaired, "node is unpaired (no PSK)"),
        (NodeError::ProgramHashMismatch, "program hash mismatch"),
        (NodeError::ProgramDecodeFailed("bad elf".to_string()), "program decode failed: bad elf"),
        (
            NodeError::MapBudgetExceeded {
                required: 4097,
                available: 4096,
            },
            "map budget exceeded: need 4097 bytes, have 4096 bytes",
        ),
        (
            NodeError::MapKeyOutOfBounds {
                key: 9,
                max_entries: 4,
            },
            "map key 9 out of bounds (max 4)",
        ),
        (NodeError::BpfError("trap".to_string()), "BPF error: trap"),
        (
            NodeError::HelperError {
                helper_id: 7,
                code: -2,
            },
            "helper 7 returned error -2",
        ),
        (
            NodeError::EphemeralRestriction { helper_id: 11 },
            "helper 11 not permitted for ephemeral programs",
        ),
        (
            NodeError::ChunkTransferFailed { chunk_index: 3 },
            "chunk transfer failed at index 3",
        ),
        (NodeError::WakeRetriesExhausted, "WAKE retries exhausted"),
        (NodeError::Timeout, "response timeout"),
        (NodeError::StorageError("full"), "storage error: full"),
        (
            NodeError::ChunkIndexMismatch {
                expected: 1,
                received: 2,
            },
            "chunk index mismatch: expected 1, received 2",
        ),
        (NodeError::RebootRequested, "reboot requested"),
    ];
    for (error, text) in texts {
        assert_eq!(error.message(), text);
    }
}

#[test]
fn bpf_errors_have_texts() {
    let texts = [
        (BpfError::InstructionBudgetExceeded, "instruction budget exceeded"),
        (BpfError::CallDepthExceeded, "call depth exceeded"),
        (BpfError::InvalidBytecode("odd"), "invalid bytecode: odd"),
        (BpfError::HelperNotRegistered(17), "helper 17 not registered"),
        (BpfError::LoadError("maps"), "load error: maps"),
        (BpfError::RuntimeError("oob"), "runtime error: oob"),
    ];
    for (error, text) in texts {
        assert_eq!(error.message(), text);
    }
}
