//! The node's radio receive path, serial driver, HAL state, flash layout and
//! pairing session.

use sonde::i2c::I2cOp;
use sonde::node::ble_pairing::{encode_ble_envelope, BLE_MSG_NODE_PROVISION};
use sonde::node::ble_session::{
    device_name, restore_channel, DiagAck, DiagCodes, DiagRelayParams, DiagRelayRun, LinkState,
    PairingSession, PendingIndication, RelayStep, Response, SessionStep,
};
use sonde::node::error::{NodeError, NodeResult};
use sonde::node::esp_hal::{
    adc_diagnostics, bus_code, sleep_us, split_delay, uptime_ms, AdcPlan, EspClock,
    EspSleepController, GpioPlan, HalState, I2cPlan, I2cPort, PinAction,
};
use sonde::node::hal::i2c_handle;
use sonde::node::map_storage::MapStorage;
use sonde::node::nvs_storage::{
    board_layout_written, decode_channel, decode_key, decode_reg_complete, decode_schedule,
    erase_key, erase_program, legacy_i2c0_pins, legacy_pin, peer_payload_erased, program_key,
    read_board_layout, reset_schedule, restore_legacy_i2c0_pins, rollback_board_layout_update,
    write_active_partition, write_board_layout, write_channel, write_key, write_peer_payload,
    write_program, write_reg_complete, write_schedule_interval, NvsKey, NvsOp, MAGIC_VALUE,
};
use sonde::node::pairing_serial::{EspUsbSerialJtag, SerialWrite};
use sonde::node::traits::{PlatformStorage, Stored};
use sonde::node::transport::{
    check_channel, check_send, format_msg_type, is_receivable, log_recv_debug_snapshot,
    pack_mac_words, recv_deadline, unpack_mac_words, RecvStats, RecvStep, RxRing, NO_MSG_TYPE,
};
use sonde::node::types::{BoardLayout, StagedTestCommand, TestResult};

#[test]
fn receive_ring_hands_frames_out_in_order() {
    let mut ring = RxRing::new();
    assert_eq!(ring.recv_step(0, 1_000), RecvStep::Wait(1_000));
    for i in 0..16u8 {
        assert!(ring.push(&[i; 3]));
    }
    assert!(!ring.push(&[99]));
    assert!(!ring.push_or_count(&[99]));
    assert_eq!(ring.len(), 16);
    assert_eq!(ring.drops(), 1);
    assert_eq!(ring.recv_step(0, 0), RecvStep::Frame(vec![0; 3], 1));
    assert_eq!(ring.drops(), 0);
    let mut buf = [0; 250];
    assert_eq!(ring.pop_into(&mut buf), Some(3));
    assert_eq!(&buf[..3], &[1; 3]);
    for _ in 2..16 {
        assert!(matches!(ring.recv_step(0, 0), RecvStep::Frame(_, 0)));
    }
    assert_eq!(ring.recv_step(5, 5), RecvStep::TimedOut(0));
    assert_eq!(ring.pop_into(&mut buf), None);
    assert!(!ring.push(&[0; 251]));
}

#[test]
fn deadlines_saturate() {
    assert_eq!(recv_deadline(10, 200), 200_000_010);
    assert_eq!(recv_deadline(u64::MAX, 1), u64::MAX);
}

#[test]
fn frames_are_checked() {
    assert!(is_receivable(1));
    assert!(is_receivable(250));
    assert!(!is_receivable(251));
    assert!(!is_receivable(0));
    assert!(!is_receivable(-1));
    assert_eq!(check_send(250), Ok(()));
    assert_eq!(check_send(251), Err(NodeError::Transport("frame too large")));
    assert_eq!(check_channel(13), Ok(()));
    assert!(matches!(check_channel(0), Err(NodeError::Transport(_))));
    assert!(matches!(check_channel(14), Err(NodeError::Transport(_))));
}

#[test]
fn addresses_survive_packing() {
    let mac = [0x12, 0x34, 0x56, 0x78, 0x9A, 0xBC];
    assert_eq!(pack_mac_words(mac), (0x1234_5678, 0x9ABC));
    assert_eq!(unpack_mac_words(0x1234_5678, 0x9ABC), mac);
}

#[test]
fn receive_statistics_are_reported() {
    assert_eq!(format_msg_type(NO_MSG_TYPE), "none");
    assert_eq!(format_msg_type(0x0B), "0x0b");

    let mut stats = RecvStats::new();
    stats.note_frame([1, 2, 3, 4, 5, 6], Some(-61), &[0, 0, 0x0B, 0]);
    stats.note_enqueued();
    stats.note_contention();
    assert_eq!(
        log_recv_debug_snapshot("after wake", Some(stats), 1, 2),
        "ESP-NOW diag snapshot label=\"after wake\" callback_count=1 enqueued_count=1 \
         ring_count=1 contention_drops=1 full_drops=2 last_len=4 last_msg_type=0x0b \
         last_src=01:02:03:04:05:06 last_rssi_dbm=-61"
    );
    assert_eq!(stats.take_contention_drops(), 1);
    assert_eq!(stats.take_contention_drops(), 0);
    assert_eq!(
        log_recv_debug_snapshot("boot", None, 0, 0),
        "ESP-NOW diag snapshot label=\"boot\" recv_state=uninitialized ring_count=0 full_drops=0"
    );
}

#[test]
fn serial_driver_is_removed_by_its_installer() {
    assert!(EspUsbSerialJtag::new(true).owns_driver());
    assert!(!EspUsbSerialJtag::new(false).owns_driver());
}

#[test]
fn serial_reads_and_writes() {
    let serial = EspUsbSerialJtag::new(true);
    assert_eq!(serial.read_ticks(50), 50);
    assert_eq!(serial.read(3), Ok(3));
    assert_eq!(
        serial.read(-1),
        Err(NodeError::Transport("USB Serial/JTAG read error"))
    );
    assert_eq!(serial.begin_write(0), SerialWrite::Finished(Ok(())));
    assert_eq!(serial.begin_write(4), SerialWrite::Continue(0));
    assert_eq!(serial.write(4, 0, 3), SerialWrite::Continue(3));
    assert_eq!(serial.write(4, 3, 1), SerialWrite::Finished(Ok(())));
    assert_eq!(serial.write(4, 3, 0), SerialWrite::Finished(Ok(())));
    assert_eq!(
        serial.write(4, 3, -1),
        SerialWrite::Finished(Err(NodeError::Transport("USB Serial/JTAG write error")))
    );
}

fn board() -> BoardLayout {
    BoardLayout {
        i2c0_sda: Some(4),
        i2c0_scl: Some(5),
        one_wire_data: Some(3),
        battery_adc: Some(2),
        sensor_enable: Some(10),
    }
}

#[test]
fn times_are_converted() {
    assert_eq!(uptime_ms(1_999), 1);
    assert_eq!(EspClock.elapsed_ms(5_000), 5);
    assert_eq!(split_delay(1_500), (1, 500));
    assert_eq!(EspClock.delay_us(999), (0, 999));
    assert_eq!(sleep_us(60), 60_000_000);
    assert_eq!(EspSleepController.timer_us(u32::MAX), 4_294_967_295_000_000);
}

#[test]
fn bus_is_initialized_on_first_use() {
    let mut hal = HalState::new(board());
    let handle = i2c_handle(0, 0x48);
    assert_eq!(hal.i2c_port(handle), I2cPort::Initialize { sda: 4, scl: 5 });
    hal.i2c_initialized(false);
    assert_eq!(hal.i2c_port(handle), I2cPort::Initialize { sda: 4, scl: 5 });
    hal.i2c_initialized(true);
    assert_eq!(hal.i2c_port(handle), I2cPort::Ready);
    assert_eq!(hal.i2c_port(i2c_handle(1, 0x48)), I2cPort::Unavailable);
    let bare = HalState::new(BoardLayout {
        i2c0_scl: None,
        ..board()
    });
    assert_eq!(bare.i2c_port(handle), I2cPort::Unavailable);
}

#[test]
fn bus_transfers_are_planned() {
    let hal = HalState::new(board());
    let handle = i2c_handle(0, 0x48);
    assert_eq!(hal.i2c_read(handle, 2, false), I2cPlan::Return(-1));
    assert_eq!(hal.i2c_read(handle, 0, true), I2cPlan::Return(0));
    assert_eq!(
        hal.i2c_read(handle, 1, true),
        I2cPlan::Transact(vec![
            I2cOp::Start,
            I2cOp::WriteByte(0x91),
            I2cOp::ReadNack,
            I2cOp::Stop
        ])
    );
    assert_eq!(hal.i2c_write(handle, &[1], false), I2cPlan::Return(-1));
    assert_eq!(
        hal.i2c_write_read(handle, &[1], 0, true),
        hal.i2c_write(handle, &[1], true)
    );
    assert_eq!(hal.i2c_write_read(handle, &[1], 1, false), I2cPlan::Return(-1));
    assert_eq!(hal.spi_transfer(0), -1);
    assert_eq!(bus_code(true), 0);
    assert_eq!(bus_code(false), -1);
}

#[test]
fn pins_become_outputs_on_first_write() {
    let mut hal = HalState::new(board());
    assert!(hal.gpio_readable(39));
    assert!(!hal.gpio_readable(40));
    assert_eq!(hal.gpio_write(40, 1), GpioPlan::Invalid);
    assert_eq!(
        hal.gpio_write(7, 5),
        GpioPlan::Write {
            configure: true,
            level: 1
        }
    );
    hal.gpio_configured(7);
    assert_eq!(
        hal.gpio_write(7, 0),
        GpioPlan::Write {
            configure: false,
            level: 0
        }
    );
    assert_eq!(
        hal.gpio_write(8, 0),
        GpioPlan::Write {
            configure: true,
            level: 0
        }
    );
}

#[test]
fn adc_is_set_up_step_by_step() {
    let mut hal = HalState::new(board());
    assert_eq!(hal.adc_channel_plan(5), AdcPlan::Invalid);
    assert_eq!(hal.adc_channel_plan(2), AdcPlan::CreateUnit);
    hal.adc_done(AdcPlan::CreateUnit, 2, false);
    assert_eq!(hal.adc_channel_plan(2), AdcPlan::CreateUnit);
    hal.adc_done(AdcPlan::CreateUnit, 2, true);
    assert_eq!(hal.adc_calibration_plan(2), AdcPlan::ConfigureChannel);
    hal.adc_done(AdcPlan::ConfigureChannel, 2, true);
    assert_eq!(hal.adc_channel_plan(2), AdcPlan::Ready);
    assert_eq!(hal.adc_calibration_plan(2), AdcPlan::Calibrate);
    hal.adc_done(AdcPlan::Calibrate, 2, true);
    assert_eq!(hal.adc_calibration_plan(2), AdcPlan::Ready);
    assert_eq!(hal.adc_channel_plan(3), AdcPlan::ConfigureChannel);
    assert_eq!(adc_diagnostics(None, None), (-1, -1));
    assert_eq!(adc_diagnostics(Some(-7), None), (-7, -7));
    assert_eq!(adc_diagnostics(Some(100), None), (100, -1));
    assert_eq!(adc_diagnostics(Some(100), Some(122)), (100, 122));
}

#[test]
fn idle_state_releases_the_pins() {
    let mut hal = HalState::new(board());
    hal.i2c_initialized(true);
    hal.gpio_configured(7);
    let actions = hal.enter_idle_gpio_state(true);
    assert_eq!(actions[0], PinAction::InputNoPull(7));
    assert_eq!(
        &actions[actions.len() - 2..],
        &[PinAction::Output(10, 1), PinAction::SleepOutput(10, 1)]
    );
    assert!(!hal.i2c0_initialized);
    assert_eq!(hal.gpio_output_configured, 0);
    assert_eq!(
        hal.enter_active_gpio_state(),
        vec![
            PinAction::Output(10, 0),
            PinAction::InputPullUp(4),
            PinAction::InputPullUp(5),
            PinAction::InputPullUp(3),
            PinAction::InputNoPull(2),
        ]
    );
    hal.i2c_initialized(true);
    hal.enter_idle_gpio_state(false);
    assert!(hal.i2c0_initialized);
}

#[test]
fn key_is_valid_with_its_marker_only() {
    let psk = [0x42; 32];
    assert_eq!(
        decode_key(Some(MAGIC_VALUE), Some(0x1234), Some(&psk)),
        Some((0x1234, psk))
    );
    assert_eq!(decode_key(None, Some(0x1234), Some(&psk)), None);
    assert_eq!(decode_key(Some(1), Some(0x1234), Some(&psk)), None);
    assert_eq!(decode_key(Some(MAGIC_VALUE), None, Some(&psk)), None);
    assert_eq!(decode_key(Some(MAGIC_VALUE), Some(0x1_0000), Some(&psk)), None);
    assert_eq!(decode_key(Some(MAGIC_VALUE), Some(1), Some(&psk[..31])), None);
}

#[test]
fn key_marker_is_written_last() {
    let steps = write_key(false, 0x1234, &[0x42; 32]).unwrap();
    assert_eq!(steps.len(), 3);
    assert_eq!(steps[0].op, NvsOp::SetBlob(NvsKey::Psk, vec![0x42; 32]));
    assert_eq!(steps[1].op, NvsOp::SetNumber(NvsKey::KeyHint, 0x1234));
    assert_eq!(steps[2].op, NvsOp::SetNumber(NvsKey::Magic, MAGIC_VALUE));
    assert_eq!(steps[2].error, "magic write failed");
    assert_eq!(
        write_key(true, 1, &[0; 32]),
        Err(NodeError::StorageError("already paired"))
    );
    let removed: Vec<NvsOp> = erase_key().into_iter().map(|s| s.op).collect();
    assert_eq!(
        removed,
        vec![
            NvsOp::Remove(NvsKey::Psk),
            NvsOp::Remove(NvsKey::KeyHint),
            NvsOp::Remove(NvsKey::Magic)
        ]
    );
    assert_eq!(NvsKey::PeerPayload.name(), "peer_payload");
}

#[test]
fn schedule_has_defaults() {
    assert_eq!(decode_schedule(None, None), (300, 0));
    assert_eq!(decode_schedule(Some(60), Some(1)), (60, 1));
    assert_eq!(decode_schedule(Some(60), Some(7)), (60, 1));
    assert_eq!(
        write_schedule_interval(90)[0].op,
        NvsOp::SetNumber(NvsKey::Interval, 90)
    );
    assert!(write_active_partition(1).is_ok());
    assert!(matches!(
        write_active_partition(2),
        Err(NodeError::StorageError(_))
    ));
    assert_eq!(
        reset_schedule()[0].op,
        NvsOp::SetNumber(NvsKey::Interval, 300)
    );
}

#[test]
fn programs_have_two_partitions() {
    assert_eq!(program_key(0), Some(NvsKey::ProgramA));
    assert_eq!(program_key(1), Some(NvsKey::ProgramB));
    assert_eq!(program_key(2), None);
    assert_eq!(
        write_program(1, &[1, 2]).unwrap()[0].op,
        NvsOp::SetBlob(NvsKey::ProgramB, vec![1, 2])
    );
    assert_eq!(
        write_program(0, &[0; 4097]),
        Err(NodeError::StorageError(
            "program image too large (max 4096 bytes)"
        ))
    );
    assert!(write_program(2, &[]).is_err());
    assert!(erase_program(2).is_err());
    assert_eq!(
        erase_program(0).unwrap()[0].op,
        NvsOp::Remove(NvsKey::ProgramA)
    );
}

#[test]
fn channel_and_payload_are_bounded() {
    assert_eq!(decode_channel(Some(13)), Some(13));
    assert_eq!(decode_channel(Some(14)), None);
    assert_eq!(decode_channel(Some(0)), None);
    assert_eq!(decode_channel(None), None);
    assert!(write_channel(13).is_ok());
    assert!(write_channel(14).is_err());
    assert!(write_peer_payload(&[0; 202]).is_ok());
    assert!(write_peer_payload(&[0; 203]).is_err());
    assert_eq!(peer_payload_erased(false, false), Ok(()));
    assert_eq!(
        peer_payload_erased(false, true),
        Err(NodeError::StorageError("peer_payload erase failed"))
    );
    assert!(decode_reg_complete(Some(1)));
    assert!(!decode_reg_complete(Some(0)));
    assert!(!decode_reg_complete(None));
    assert_eq!(
        write_reg_complete(true)[0].op,
        NvsOp::SetNumber(NvsKey::RegComplete, 1)
    );
}

#[test]
fn layouts_fall_back_to_the_legacy_pins() {
    assert_eq!(legacy_pin(Some(21)), Some(21));
    assert_eq!(legacy_pin(Some(22)), None);
    assert_eq!(legacy_i2c0_pins(Some(6), Some(7)), (6, 7));
    assert_eq!(legacy_i2c0_pins(Some(6), Some(6)), (0, 1));
    assert_eq!(legacy_i2c0_pins(None, None), (0, 1));
    assert_eq!(read_board_layout(Some(board()), Some(6), Some(7)), Some(board()));
    assert_eq!(read_board_layout(None, None, None), None);
    let legacy = read_board_layout(None, Some(6), None).unwrap();
    assert_eq!((legacy.i2c0_sda, legacy.i2c0_scl), (Some(6), Some(1)));
    assert_eq!(legacy.battery_adc, None);
}

#[test]
fn failed_layout_update_is_rolled_back() {
    let steps = write_board_layout(Some(&[0xA0]), &board()).unwrap();
    assert_eq!(steps[0].op, NvsOp::SetBlob(NvsKey::Layout, vec![0xA0]));
    assert_eq!(steps[1].op, NvsOp::SetNumber(NvsKey::LegacySda, 4));
    assert_eq!(steps[2].op, NvsOp::SetNumber(NvsKey::LegacyScl, 5));
    assert_eq!(
        write_board_layout(None, &board()),
        Err(NodeError::StorageError("board_layout encode failed"))
    );
    let back = rollback_board_layout_update(None, Some(6), None);
    assert_eq!(back[0].op, NvsOp::Remove(NvsKey::Layout));
    assert_eq!(back[1].op, NvsOp::SetNumber(NvsKey::LegacySda, 6));
    assert_eq!(back[2].op, NvsOp::Remove(NvsKey::LegacyScl));
    assert_eq!(&back[1..], &restore_legacy_i2c0_pins(Some(6), None)[..]);
    assert_eq!(board_layout_written(None, false), Ok(()));
    assert_eq!(
        board_layout_written(Some((0, "board_layout write failed")), false),
        Err(NodeError::StorageError("board_layout write failed"))
    );
    assert_eq!(
        board_layout_written(Some((1, "legacy i2c0_sda write failed")), true),
        Err(NodeError::StorageError("legacy i2c0_sda write failed"))
    );
    assert_eq!(
        board_layout_written(Some((1, "legacy i2c0_sda write failed")), false),
        Err(NodeError::StorageError("board_layout rollback failed"))
    );
}

/// A storage that takes everything.
#[derive(Default)]
struct Flash {
    key: Option<(u16, [u8; 32])>,
    channel: Option<u8>,
    payload: Option<Vec<u8>>,
    layout: Option<BoardLayout>,
}

impl PlatformStorage for Flash {
    fn holds(&self) -> Stored {
        unreachable!("ghost code is never run")
    }

    fn read_key(&self) -> Option<(u16, [u8; 32])> {
        self.key
    }

    fn write_key(&mut self, key_hint: u16, psk: &[u8; 32]) -> NodeResult<()> {
        self.key = Some((key_hint, *psk));
        Ok(())
    }

    fn erase_key(&mut self) -> NodeResult<()> {
        self.key = None;
        Ok(())
    }

    fn read_schedule(&self) -> (u32, u8) {
        (60, 0)
    }

    fn write_schedule_interval(&mut self, _interval_s: u32) -> NodeResult<()> {
        Ok(())
    }

    fn write_active_partition(&mut self, _partition: u8) -> NodeResult<()> {
        Ok(())
    }

    fn reset_schedule(&mut self) -> NodeResult<()> {
        Ok(())
    }

    fn read_program(&self, _partition: u8) -> Option<Vec<u8>> {
        None
    }

    fn write_program(&mut self, _partition: u8, _image: &[u8]) -> NodeResult<()> {
        Ok(())
    }

    fn erase_program(&mut self, _partition: u8) -> NodeResult<()> {
        Ok(())
    }

    fn take_early_wake_flag(&mut self) -> bool {
        false
    }

    fn set_early_wake_flag(&mut self) -> NodeResult<()> {
        Ok(())
    }

    fn read_channel(&self) -> Option<u8> {
        self.channel
    }

    fn write_channel(&mut self, channel: u8) -> NodeResult<()> {
        self.channel = Some(channel);
        Ok(())
    }

    fn read_peer_payload(&self) -> Option<Vec<u8>> {
        self.payload.clone()
    }

    fn write_peer_payload(&mut self, payload: &[u8]) -> NodeResult<()> {
        self.payload = Some(payload.to_vec());
        Ok(())
    }

    fn erase_peer_payload(&mut self) -> NodeResult<()> {
        self.payload = None;
        Ok(())
    }

    fn read_reg_complete(&self) -> bool {
        false
    }

    fn write_reg_complete(&mut self, _complete: bool) -> NodeResult<()> {
        Ok(())
    }

    fn read_board_layout(&self) -> Option<BoardLayout> {
        self.layout
    }

    fn write_board_layout(&mut self, layout: &BoardLayout) -> NodeResult<()> {
        self.layout = Some(*layout);
        Ok(())
    }

    fn read_staged_test_command(&self) -> Option<StagedTestCommand> {
        None
    }

    fn write_staged_test_command(&mut self, _command: &StagedTestCommand) -> NodeResult<()> {
        Ok(())
    }

    fn clear_staged_test_command(&mut self) -> NodeResult<()> {
        Ok(())
    }

    fn read_test_result(&self) -> Option<TestResult> {
        None
    }

    fn write_test_result(&mut self, _result: &TestResult) -> NodeResult<()> {
        Ok(())
    }
}

const CODES: DiagCodes = DiagCodes {
    start_diag_relay: 0x10,
    fetch_diag_result: 0x11,
};

fn diagnostic() -> DiagRelayParams {
    DiagRelayParams {
        rf_channel: 6,
        payload: vec![1, 2, 3],
    }
}

/// Let the session answer `data`.
fn answer(
    session: &mut PairingSession,
    data: &[u8],
    diag: Result<DiagRelayParams, u8>,
    result_stored: bool,
    flash: &mut Flash,
) -> Option<(PendingIndication, Response)> {
    let mut maps = MapStorage::new(64);
    session.respond(
        data,
        CODES,
        None,
        diag,
        result_stored,
        flash,
        &mut maps,
        false,
        false,
    )
}

#[test]
fn writes_wait_for_authentication() {
    let mut session = PairingSession::new();
    assert!(session.on_connect(1, 7));
    assert!(!session.on_connect(2, 8));
    session.on_write(&[]);
    session.on_write(&[1]);
    session.on_write(&[2]);
    assert_eq!(session.take_write(), None);
    assert_eq!(session.on_authentication_complete(true, 246, 7), Some(7));
    assert_eq!(session.on_authentication_complete(false, 247, 7), None);
    assert_eq!(session.take_write(), None);
    assert_eq!(session.on_authentication_complete(true, 247, 7), None);
    assert_eq!(session.take_write(), Some(vec![2]));
    assert_eq!(session.take_write(), None);
}

#[test]
fn encrypted_link_counts_as_authenticated() {
    let link = |encrypted: bool, mtu: u16| Some(LinkState { encrypted, mtu });
    let mut session = PairingSession::new();
    assert_eq!(session.encryption_fallback(link(true, 247)), (false, None));
    session.on_connect(1, 7);
    assert_eq!(session.connection(), Some(7));
    assert_eq!(session.encryption_fallback(None), (false, None));
    assert_eq!(session.encryption_fallback(link(false, 247)), (false, None));
    assert_eq!(session.encryption_fallback(link(true, 23)), (false, None));
    assert_eq!(session.encryption_fallback(link(true, 100)), (false, Some(7)));
    assert_eq!(session.encryption_fallback(link(true, 247)), (true, None));
    assert_eq!(session.encryption_fallback(None), (true, None));
}

#[test]
fn provisioning_is_acknowledged() {
    let mut body = vec![0; 37];
    body[1] = 9;
    body[2..34].fill(0x42);
    body[34] = 6;
    let data = encode_ble_envelope(BLE_MSG_NODE_PROVISION, &body).unwrap();
    let mut session = PairingSession::new();
    let mut flash = Flash::default();
    assert_eq!(
        answer(&mut session, &data, Err(0), false, &mut flash),
        Some((
            PendingIndication::NodeAck,
            Response::NodeAck(vec![0x81, 0, 1, 0])
        ))
    );
    assert_eq!(flash.key, Some((9, [0x42; 32])));
    assert_eq!(flash.channel, Some(6));

    // A malformed provision is not answered.
    let data = encode_ble_envelope(BLE_MSG_NODE_PROVISION, &body[..36]).unwrap();
    assert_eq!(answer(&mut session, &data, Err(0), false, &mut flash), None);
    assert_eq!(answer(&mut session, &[1], Err(0), false, &mut flash), None);
    assert_eq!(answer(&mut session, &[0x7F, 0, 0], Err(0), false, &mut flash), None);
}

#[test]
fn accepted_diagnostic_is_started_after_its_acknowledgement() {
    let mut session = PairingSession::new();
    let mut flash = Flash::default();
    let mut stored: Option<u8> = None;
    session.on_connect(1, 7);
    let (kind, response) =
        answer(&mut session, &[0x10, 0, 0], Ok(diagnostic()), false, &mut flash).unwrap();
    assert_eq!(kind, PendingIndication::DiagAckAccepted);
    assert_eq!(response, Response::DiagAck(DiagAck::Accepted));

    // A second request has to wait.
    assert_eq!(
        answer(&mut session, &[0x10, 0, 0], Ok(diagnostic()), false, &mut flash),
        Some((
            PendingIndication::DiagAckRejected,
            Response::DiagAck(DiagAck::Busy)
        ))
    );

    assert!(session.can_begin(kind));
    assert_eq!(session.begin_indication(kind), Some(7));
    assert!(!session.can_begin(kind));
    assert_eq!(session.poll(&mut stored), SessionStep::Continue);
    session.on_notify_tx(true);
    assert_eq!(
        session.poll(&mut stored),
        SessionStep::StartDiagnostic(diagnostic())
    );
    assert_eq!(session.poll(&mut stored), SessionStep::Continue);
}

#[test]
fn failed_acknowledgement_drops_the_diagnostic() {
    let mut session = PairingSession::new();
    let mut flash = Flash::default();
    let mut stored: Option<u8> = None;
    session.on_connect(1, 7);
    let (kind, _) =
        answer(&mut session, &[0x10, 0, 0], Ok(diagnostic()), false, &mut flash).unwrap();
    assert_eq!(session.begin_indication(kind), Some(7));
    session.indication_failed(kind);
    session.on_notify_tx(true);
    assert_eq!(session.poll(&mut stored), SessionStep::Continue);
    // The next request is accepted again.
    let (kind, _) =
        answer(&mut session, &[0x10, 0, 0], Ok(diagnostic()), false, &mut flash).unwrap();
    assert_eq!(kind, PendingIndication::DiagAckAccepted);
}

#[test]
fn malformed_diagnostic_is_refused() {
    let mut session = PairingSession::new();
    let mut flash = Flash::default();
    assert_eq!(
        answer(&mut session, &[0x10, 0, 0], Err(3), false, &mut flash),
        Some((
            PendingIndication::DiagAckRejected,
            Response::DiagAck(DiagAck::Refused(3))
        ))
    );
}

#[test]
fn stored_result_is_cleared_by_its_delivery() {
    let mut session = PairingSession::new();
    let mut flash = Flash::default();
    let mut stored = Some(5u8);
    session.on_connect(1, 7);
    for (success, left) in [(false, Some(5)), (true, None)] {
        let (kind, response) =
            answer(&mut session, &[0x11, 0, 0], Err(0), true, &mut flash).unwrap();
        assert_eq!(response, Response::DiagResult);
        assert_eq!(session.begin_indication(kind), Some(7));
        session.on_notify_tx(success);
        assert_eq!(session.poll(&mut stored), SessionStep::Continue);
        assert_eq!(stored, left);
    }
}

#[test]
fn session_ends_with_the_connection() {
    let mut session = PairingSession::new();
    let mut stored: Option<u8> = None;
    session.on_connect(1, 7);
    session.on_disconnect();
    assert_eq!(session.connection(), None);
    assert_eq!(session.poll(&mut stored), SessionStep::Disconnect);
}

#[test]
fn node_advertises_its_address() {
    assert_eq!(device_name(&[0x0F, 0xA1, 0, 0, 0, 0]), "sonde-a10f");
}

#[test]
fn relay_restores_the_channel() {
    assert_eq!(restore_channel(Some((6, 1)), Some(11)), (6, 1));
    assert_eq!(restore_channel(None, Some(11)), (11, 0));
    assert_eq!(restore_channel(None, None), (1, 0));

    let (mut run, step) = DiagRelayRun::begin(&diagnostic(), true, Some((3, 2)), None);
    assert_eq!(step, RelayStep::SetChannel(6));
    assert_eq!(run.channel_set(true), RelayStep::Relay);
    assert_eq!(run.channel_set(false), RelayStep::ChannelError);
    assert_eq!(run.relay_done(), RelayStep::Restore(3, 2));
    assert!(run.relayed);

    let (_, step) = DiagRelayRun::begin(&diagnostic(), false, None, None);
    assert_eq!(step, RelayStep::ChannelError);
}
