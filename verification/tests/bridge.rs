//! The bridge between the serial link, the radio and the BLE layer.

use sonde::modem::bridge::{
    parse_version_component, Ble, Bridge, CodecReply, CodecRequest, DecodeOutcome, NoBle, Radio,
    SerialPort, MAX_RX_FRAMES_PER_POLL,
};
use sonde::modem::button::{ButtonPoll, NoButton};
use sonde::modem::espnow::RecvFrame;
use sonde::modem::message::{
    msg_type_label, BleConnected, BleDisconnected, BleEvent, BleIndicate, BlePairingConfirm,
    BlePairingConfirmReply, BleRecv, ButtonType, EventButton, ModemError, ModemErrorCode,
    ModemMessage, ModemReady, ModemStatus, ScanEntry, ScanResult, SendFrame, BUTTON_TYPE_SHORT,
    MODEM_ERR_CHANNEL_SET_FAILED,
};
use sonde::modem::status::ModemCounters;
use std::cell::{Cell, RefCell};
use std::collections::VecDeque;
use std::ops::{Deref, DerefMut};

const FIRMWARE_VERSION: [u8; 4] = [0, 4, 0, 0];

/// Size of the bridge's read buffer.
const RX_BUF_LEN: usize = 64;

// A codec for the serial link: a frame is a length in two bytes, highest
// first, then a type and a body.

const SERIAL_MAX_LEN: u16 = 512;
const SERIAL_MAX_FRAME_SIZE: usize = 514;
const MODEM_MSG_BLE_INDICATE: u8 = 0x20;

#[derive(Debug, PartialEq)]
enum CodecError {
    Incomplete,
    EmptyFrame,
    FrameTooLarge,
    Malformed,
}

fn body_of(msg: &ModemMessage) -> (u8, Vec<u8>) {
    match msg {
        ModemMessage::Reset => (0x01, vec![]),
        ModemMessage::SendFrame(sf) => {
            let mut body = sf.peer_mac.to_vec();
            body.extend_from_slice(&sf.frame_data);
            (0x02, body)
        }
        ModemMessage::SetChannel(ch) => (0x03, vec![*ch]),
        ModemMessage::GetStatus => (0x04, vec![]),
        ModemMessage::ScanChannels => (0x05, vec![]),
        ModemMessage::ModemReady(r) => {
            let mut body = r.firmware_version.to_vec();
            body.extend_from_slice(&r.mac_address);
            (0x81, body)
        }
        ModemMessage::RecvFrame(rf) => {
            let mut body = rf.peer_mac.to_vec();
            body.push(rf.rssi as u8);
            body.extend_from_slice(&rf.frame_data);
            (0x82, body)
        }
        ModemMessage::SetChannelAck(ch) => (0x83, vec![*ch]),
        ModemMessage::Status(s) => {
            let mut body = vec![s.channel];
            for n in [s.uptime_s, s.tx_count, s.rx_count, s.tx_fail_count] {
                body.extend_from_slice(&n.to_be_bytes());
            }
            (0x84, body)
        }
        ModemMessage::ScanResult(r) => {
            let entries = r.entries.iter();
            let body = entries.flat_map(|e| [e.channel, e.ap_count, e.strongest_rssi as u8]);
            (0x85, body.collect())
        }
        ModemMessage::Error(e) => {
            let mut body = vec![match e.error_code {
                ModemErrorCode::ChannelSetFailed => 1,
                ModemErrorCode::Other(code) => code,
            }];
            body.extend_from_slice(&e.message);
            (0x86, body)
        }
        ModemMessage::BleIndicate(i) => (MODEM_MSG_BLE_INDICATE, i.ble_data.clone()),
        ModemMessage::BleEnable => (0x21, vec![]),
        ModemMessage::BleDisable => (0x22, vec![]),
        ModemMessage::BlePairingConfirmReply(r) => (0x23, vec![r.accept as u8]),
        ModemMessage::BleRecv(r) => (0xA0, r.ble_data.clone()),
        ModemMessage::BleConnected(c) => {
            let mut body = c.peer_addr.to_vec();
            body.extend_from_slice(&c.mtu.to_be_bytes());
            (0xA1, body)
        }
        ModemMessage::BleDisconnected(d) => {
            let mut body = d.peer_addr.to_vec();
            body.push(d.reason);
            (0xA2, body)
        }
        ModemMessage::BlePairingConfirm(c) => (0xA3, c.passkey.to_be_bytes().to_vec()),
        ModemMessage::EventButton(e) => (0xA4, vec![(e.button_type == ButtonType::Long) as u8]),
        ModemMessage::Unknown { msg_type, body } => (*msg_type, body.clone()),
    }
}

fn mac_at(body: &[u8]) -> [u8; 6] {
    let mut mac = [0; 6];
    mac.copy_from_slice(&body[..6]);
    mac
}

fn word_at(body: &[u8], at: usize) -> u32 {
    u32::from_be_bytes([body[at], body[at + 1], body[at + 2], body[at + 3]])
}

fn message_of(msg_type: u8, body: &[u8]) -> Option<ModemMessage> {
    let enough = match msg_type {
        0x02 => body.len() >= 7,
        0x03 | 0x83 | 0x86 | 0x23 | 0xA4 | MODEM_MSG_BLE_INDICATE | 0xA0 => !body.is_empty(),
        0x81 => body.len() == 10,
        0x82 => body.len() >= 8,
        0x84 => body.len() == 17,
        0xA1 => body.len() == 8,
        0xA2 => body.len() == 7,
        0xA3 => body.len() == 4,
        _ => true,
    };
    if !enough {
        return None;
    }
    Some(match msg_type {
        0x01 => ModemMessage::Reset,
        0x02 => ModemMessage::SendFrame(SendFrame {
            peer_mac: mac_at(body),
            frame_data: body[6..].to_vec(),
        }),
        0x03 => ModemMessage::SetChannel(body[0]),
        0x04 => ModemMessage::GetStatus,
        0x05 => ModemMessage::ScanChannels,
        0x81 => ModemMessage::ModemReady(ModemReady {
            firmware_version: [body[0], body[1], body[2], body[3]],
            mac_address: mac_at(&body[4..]),
        }),
        0x82 => ModemMessage::RecvFrame(RecvFrame {
            peer_mac: mac_at(body),
            rssi: body[6] as i8,
            frame_data: body[7..].to_vec(),
        }),
        0x83 => ModemMessage::SetChannelAck(body[0]),
        0x84 => ModemMessage::Status(ModemStatus {
            channel: body[0],
            uptime_s: word_at(body, 1),
            tx_count: word_at(body, 5),
            rx_count: word_at(body, 9),
            tx_fail_count: word_at(body, 13),
        }),
        0x85 => ModemMessage::ScanResult(ScanResult {
            entries: body
                .chunks(3)
                .map(|e| ScanEntry {
                    channel: e[0],
                    ap_count: e[1],
                    strongest_rssi: e[2] as i8,
                })
                .collect(),
        }),
        0x86 => ModemMessage::Error(ModemError {
            error_code: if body[0] == 1 {
                ModemErrorCode::ChannelSetFailed
            } else {
                ModemErrorCode::Other(body[0])
            },
            message: body[1..].to_vec(),
        }),
        MODEM_MSG_BLE_INDICATE => ModemMessage::BleIndicate(BleIndicate {
            ble_data: body.to_vec(),
        }),
        0x21 => ModemMessage::BleEnable,
        0x22 => ModemMessage::BleDisable,
        0x23 => ModemMessage::BlePairingConfirmReply(BlePairingConfirmReply {
            accept: body[0] != 0,
        }),
        0xA0 => ModemMessage::BleRecv(BleRecv {
            ble_data: body.to_vec(),
        }),
        0xA1 => ModemMessage::BleConnected(BleConnected {
            peer_addr: mac_at(body),
            mtu: u16::from_be_bytes([body[6], body[7]]),
        }),
        0xA2 => ModemMessage::BleDisconnected(BleDisconnected {
            peer_addr: mac_at(body),
            reason: body[6],
        }),
        0xA3 => ModemMessage::BlePairingConfirm(BlePairingConfirm {
            passkey: word_at(body, 0),
        }),
        0xA4 => ModemMessage::EventButton(EventButton {
            button_type: if body[0] == 0 {
                ButtonType::Short
            } else {
                ButtonType::Long
            },
        }),
        _ => ModemMessage::Unknown {
            msg_type,
            body: body.to_vec(),
        },
    })
}

fn encode_modem_frame(msg: &ModemMessage) -> Option<Vec<u8>> {
    match msg {
        ModemMessage::BleConnected(c) if c.mtu < 247 => return None,
        ModemMessage::BleRecv(r) if r.ble_data.is_empty() => return None,
        _ => {}
    }
    let (msg_type, body) = body_of(msg);
    let len = body.len() + 1;
    if len > SERIAL_MAX_LEN as usize {
        return None;
    }
    let mut frame = (len as u16).to_be_bytes().to_vec();
    frame.push(msg_type);
    frame.extend_from_slice(&body);
    Some(frame)
}

fn decode_modem_frame(data: &[u8]) -> Result<(ModemMessage, usize), (CodecError, usize)> {
    if data.len() < 2 {
        return Err((CodecError::Incomplete, 0));
    }
    let len = u16::from_be_bytes([data[0], data[1]]);
    if len > SERIAL_MAX_LEN {
        return Err((CodecError::FrameTooLarge, 0));
    }
    let end = 2 + len as usize;
    if data.len() < end {
        return Err((CodecError::Incomplete, 0));
    }
    if len == 0 {
        return Err((CodecError::EmptyFrame, end));
    }
    match message_of(data[2], &data[3..end]) {
        Some(msg) => Ok((msg, end)),
        None => Err((CodecError::Malformed, end)),
    }
}

struct FrameDecoder {
    buffer: Vec<u8>,
}

impl FrameDecoder {
    fn new() -> Self {
        FrameDecoder { buffer: Vec::new() }
    }

    fn push(&mut self, data: &[u8]) {
        self.buffer.extend_from_slice(data);
    }

    fn reset(&mut self) {
        self.buffer.clear();
    }

    fn decode(&mut self) -> Result<Option<ModemMessage>, CodecError> {
        match decode_modem_frame(&self.buffer) {
            Ok((msg, used)) => {
                self.buffer.drain(..used);
                Ok(Some(msg))
            }
            Err((CodecError::Incomplete, _)) => Ok(None),
            Err((error, used)) => {
                self.buffer.drain(..used);
                Err(error)
            }
        }
    }
}

/// A bridge and the codec that it talks to.
struct Link<S: SerialPort, R: Radio, B: Ble, Btn: ButtonPoll> {
    bridge: Bridge<S, R, B, Btn>,
    decoder: FrameDecoder,
    now_ns: u64,
}

impl<S: SerialPort, R: Radio, B: Ble, Btn: ButtonPoll> Link<S, R, B, Btn> {
    fn start(bridge: Bridge<S, R, B, Btn>) -> Self {
        Link {
            bridge,
            decoder: FrameDecoder::new(),
            now_ns: 0,
        }
    }

    fn answer(&mut self, mut request: CodecRequest) {
        loop {
            let reply = match request {
                CodecRequest::Finished => return,
                CodecRequest::ResetDecoder => {
                    self.decoder.reset();
                    CodecReply::Done
                }
                CodecRequest::Push(data) => {
                    self.decoder.push(&data);
                    CodecReply::Done
                }
                CodecRequest::Decode => CodecReply::Decoded(match self.decoder.decode() {
                    Ok(Some(msg)) => DecodeOutcome::Message(msg),
                    Ok(None) | Err(CodecError::Incomplete) => DecodeOutcome::Incomplete,
                    Err(CodecError::EmptyFrame) => DecodeOutcome::EmptyFrame,
                    Err(CodecError::FrameTooLarge) => DecodeOutcome::FrameTooLarge,
                    Err(CodecError::Malformed) => DecodeOutcome::Malformed,
                }),
                CodecRequest::Encode(msg) => CodecReply::Encoded(encode_modem_frame(&msg)),
            };
            request = self.bridge.resume(reply, self.now_ns);
        }
    }

    fn poll(&mut self) {
        let request = self.bridge.poll();
        self.answer(request);
    }

    fn send_modem_ready(&mut self) {
        let request = self.bridge.send_modem_ready();
        self.answer(request);
    }
}

impl<S: SerialPort, R: Radio, B: Ble, Btn: ButtonPoll> Deref for Link<S, R, B, Btn> {
    type Target = Bridge<S, R, B, Btn>;

    fn deref(&self) -> &Self::Target {
        &self.bridge
    }
}

impl<S: SerialPort, R: Radio, B: Ble, Btn: ButtonPoll> DerefMut for Link<S, R, B, Btn> {
    fn deref_mut(&mut self) -> &mut Self::Target {
        &mut self.bridge
    }
}

/// ATT protocol overhead subtracted from the negotiated MTU to get the
/// maximum ATT attribute value size (ATT_MTU − 3).
const ATT_HEADER_BYTES: u16 = 3;

/// Mock serial port that records writes and plays back reads.
struct MockSerial {
    rx_data: Vec<u8>,
    tx_data: Vec<u8>,
    connected: bool,
    reconnect_once: bool,
}

impl MockSerial {
    fn new() -> Self {
        Self {
            rx_data: Vec::new(),
            tx_data: Vec::new(),
            connected: true,
            reconnect_once: false,
        }
    }

    fn inject(&mut self, data: &[u8]) {
        self.rx_data.extend_from_slice(data);
    }

    fn take_tx(&mut self) -> Vec<u8> {
        std::mem::take(&mut self.tx_data)
    }

    fn set_reconnect_once(&mut self) {
        self.reconnect_once = true;
    }

    fn set_connected(&mut self, connected: bool) {
        self.connected = connected;
    }
}

impl SerialPort for MockSerial {
    fn connected(&self) -> bool {
        self.connected
    }
    fn read(&mut self, buf: &mut [u8]) -> (usize, bool) {
        let reconnected = self.reconnect_once;
        self.reconnect_once = false;
        let n = std::cmp::min(buf.len(), self.rx_data.len());
        buf[..n].copy_from_slice(&self.rx_data[..n]);
        self.rx_data.drain(..n);
        (n, reconnected)
    }
    fn write(&mut self, data: &[u8]) -> bool {
        if !self.connected {
            return false;
        }
        self.tx_data.extend_from_slice(data);
        true
    }
    fn is_connected(&self) -> bool {
        self.connected
    }
}

/// Mock radio that captures sends and injects receives.
struct MockRadio {
    sent: Vec<(Vec<u8>, [u8; 6])>,
    rx_queue: RefCell<VecDeque<RecvFrame>>,
    channel: u8,
    mac: [u8; 6],
    /// Tracks registered peers (mirrors real ESP-NOW peer table).
    peers: Vec<[u8; 6]>,
}

impl MockRadio {
    fn new() -> Self {
        Self {
            sent: Vec::new(),
            rx_queue: RefCell::new(VecDeque::new()),
            channel: 1,
            mac: [0xAA, 0xBB, 0xCC, 0xDD, 0xEE, 0xFF],
            peers: Vec::new(),
        }
    }

    fn inject_rx(&self, frame: RecvFrame) {
        self.rx_queue.borrow_mut().push_back(frame);
    }

    fn peer_count(&self) -> usize {
        self.peers.len()
    }
}

impl Radio for MockRadio {
    fn on_channel(&self) -> u8 {
        self.channel
    }
    fn own_mac(&self) -> [u8; 6] {
        self.mac
    }
    fn send(&mut self, peer_mac: &[u8; 6], data: &[u8]) -> bool {
        if !self.peers.contains(peer_mac) {
            self.peers.push(*peer_mac);
        }
        self.sent.push((data.to_vec(), *peer_mac));
        true
    }
    fn drain_one(&mut self) -> Option<RecvFrame> {
        self.rx_queue.borrow_mut().pop_front()
    }
    fn set_channel(&mut self, channel: u8) -> Result<(), &'static str> {
        if channel == 0 || channel > 14 {
            return Err("invalid channel");
        }
        self.channel = channel;
        self.peers.clear();
        Ok(())
    }
    fn channel(&self) -> u8 {
        self.channel
    }
    fn scan_channels(&mut self) -> Vec<(u8, u8, i8)> {
        (1..=14).map(|ch| (ch, 0, 0)).collect()
    }
    fn mac_address(&self) -> [u8; 6] {
        self.mac
    }
    fn reset_state(&mut self) {
        self.channel = 1;
        self.sent.clear();
        self.rx_queue.borrow_mut().clear();
        self.peers.clear();
    }
}

fn make_bridge() -> Link<MockSerial, MockRadio, NoBle, NoButton> {
    Link::start(Bridge::new(MockSerial::new(), MockRadio::new(), ModemCounters::new(), FIRMWARE_VERSION))
}

#[test]
fn modem_ready_on_boot() {
    let mut bridge = make_bridge();
    bridge.send_modem_ready();
    let tx = bridge.usb.take_tx();
    let (msg, _) = decode_modem_frame(&tx).unwrap();
    match msg {
        ModemMessage::ModemReady(mr) => {
            assert_eq!(mr.firmware_version, FIRMWARE_VERSION);
            assert_eq!(mr.mac_address, [0xAA, 0xBB, 0xCC, 0xDD, 0xEE, 0xFF]);
        }
        _ => panic!("expected ModemReady"),
    }
}

#[test]
fn reset_sends_modem_ready() {
    let mut bridge = make_bridge();
    let reset_frame = encode_modem_frame(&ModemMessage::Reset).unwrap();
    bridge.usb.inject(&reset_frame);
    bridge.poll();
    let tx = bridge.usb.take_tx();
    let (msg, _) = decode_modem_frame(&tx).unwrap();
    assert!(matches!(msg, ModemMessage::ModemReady(_)));
}

#[test]
fn send_frame_dispatched() {
    let mut bridge = make_bridge();
    let peer = [1, 2, 3, 4, 5, 6];
    let sf = ModemMessage::SendFrame(SendFrame {
        peer_mac: peer,
        frame_data: vec![0xDE, 0xAD],
    });
    let frame = encode_modem_frame(&sf).unwrap();
    bridge.usb.inject(&frame);
    bridge.poll();
    assert_eq!(bridge.radio.sent.len(), 1);
    assert_eq!(bridge.radio.sent[0].0, vec![0xDE, 0xAD]);
    assert_eq!(bridge.radio.sent[0].1, peer);
}

#[test]
fn set_channel_ack() {
    let mut bridge = make_bridge();
    let frame = encode_modem_frame(&ModemMessage::SetChannel(6)).unwrap();
    bridge.usb.inject(&frame);
    bridge.poll();
    let tx = bridge.usb.take_tx();
    let (msg, _) = decode_modem_frame(&tx).unwrap();
    assert_eq!(msg, ModemMessage::SetChannelAck(6));
    assert_eq!(bridge.radio.channel(), 6);
}

#[test]
fn set_channel_invalid_returns_error() {
    let mut bridge = make_bridge();
    let frame = encode_modem_frame(&ModemMessage::SetChannel(0)).unwrap();
    bridge.usb.inject(&frame);
    bridge.poll();
    let tx = bridge.usb.take_tx();
    let (msg, _) = decode_modem_frame(&tx).unwrap();
    match msg {
        ModemMessage::Error(e) => {
            assert_eq!(e.error_code, MODEM_ERR_CHANNEL_SET_FAILED);
        }
        _ => panic!("expected Error"),
    }
}

#[test]
fn get_status_response() {
    let mut bridge = make_bridge();
    let frame = encode_modem_frame(&ModemMessage::GetStatus).unwrap();
    bridge.usb.inject(&frame);
    bridge.poll();
    let tx = bridge.usb.take_tx();
    let (msg, _) = decode_modem_frame(&tx).unwrap();
    match msg {
        ModemMessage::Status(s) => {
            assert_eq!(s.channel, 1);
            assert_eq!(s.tx_count, 0);
            assert_eq!(s.rx_count, 0);
            assert_eq!(s.tx_fail_count, 0);
        }
        _ => panic!("expected Status"),
    }
}

#[test]
fn unknown_type_silently_discarded() {
    let mut bridge = make_bridge();
    // Send an unknown type, then GET_STATUS to verify bridge still works.
    let unknown = encode_modem_frame(&ModemMessage::Unknown {
        msg_type: 0x7F,
        body: vec![1, 2, 3],
    })
    .unwrap();
    let status = encode_modem_frame(&ModemMessage::GetStatus).unwrap();
    bridge.usb.inject(&unknown);
    bridge.usb.inject(&status);
    bridge.poll();
    let tx = bridge.usb.take_tx();
    let (msg, _) = decode_modem_frame(&tx).unwrap();
    assert!(matches!(msg, ModemMessage::Status(_)));
}

#[test]
fn reset_clears_counters() {
    let mut bridge = make_bridge();
    bridge.counters.inc_tx();
    bridge.counters.inc_tx();
    bridge.counters.inc_rx();
    assert_eq!(bridge.counters.tx_count(), 2);

    let reset = encode_modem_frame(&ModemMessage::Reset).unwrap();
    bridge.usb.inject(&reset);
    bridge.poll();
    assert_eq!(bridge.counters.tx_count(), 0);
    assert_eq!(bridge.counters.rx_count(), 0);
}

#[test]
fn scan_channels_response() {
    let mut bridge = make_bridge();
    let frame = encode_modem_frame(&ModemMessage::ScanChannels).unwrap();
    bridge.usb.inject(&frame);
    bridge.poll();
    let tx = bridge.usb.take_tx();
    let (msg, _) = decode_modem_frame(&tx).unwrap();
    match msg {
        ModemMessage::ScanResult(sr) => {
            assert_eq!(sr.entries.len(), 14);
        }
        _ => panic!("expected ScanResult"),
    }
}

#[test]
fn recv_frame_forwarded_to_serial() {
    let mut bridge = make_bridge();
    let peer = [0x11, 0x22, 0x33, 0x44, 0x55, 0x66];
    bridge.radio.inject_rx(RecvFrame {
        peer_mac: peer,
        rssi: -42,
        frame_data: vec![0xCA, 0xFE],
    });
    bridge.poll();
    let tx = bridge.usb.take_tx();
    let (msg, _) = decode_modem_frame(&tx).unwrap();
    match msg {
        ModemMessage::RecvFrame(rf) => {
            assert_eq!(rf.peer_mac, peer);
            assert_eq!(rf.rssi, -42);
            assert_eq!(rf.frame_data, vec![0xCA, 0xFE]);
        }
        _ => panic!("expected RecvFrame"),
    }
}

#[test]
fn rx_count_incremented_on_forwarded_frame() {
    let mut bridge = make_bridge();
    let peer = [1, 2, 3, 4, 5, 6];
    bridge.radio.inject_rx(RecvFrame {
        peer_mac: peer,
        rssi: -50,
        frame_data: vec![0x01],
    });
    bridge.radio.inject_rx(RecvFrame {
        peer_mac: peer,
        rssi: -55,
        frame_data: vec![0x02],
    });
    bridge.radio.inject_rx(RecvFrame {
        peer_mac: peer,
        rssi: -60,
        frame_data: vec![0x03],
    });
    bridge.poll();
    assert_eq!(bridge.counters.rx_count(), 3);
}

#[test]
fn status_reflects_tx_and_rx_counts() {
    let mut bridge = make_bridge();
    let peer = [1, 2, 3, 4, 5, 6];

    // Send 5 frames USB → radio.
    for i in 0..5 {
        let sf = ModemMessage::SendFrame(SendFrame {
            peer_mac: peer,
            frame_data: vec![i],
        });
        let frame = encode_modem_frame(&sf).unwrap();
        bridge.usb.inject(&frame);
    }
    bridge.poll();
    bridge.usb.take_tx(); // discard

    // Inject 3 frames radio → USB.
    for i in 0..3 {
        bridge.radio.inject_rx(RecvFrame {
            peer_mac: peer,
            rssi: -40,
            frame_data: vec![i],
        });
    }
    bridge.poll();
    bridge.usb.take_tx(); // discard RECV_FRAMEs

    // Query status.
    let frame = encode_modem_frame(&ModemMessage::GetStatus).unwrap();
    bridge.usb.inject(&frame);
    bridge.poll();
    let tx = bridge.usb.take_tx();
    let (msg, _) = decode_modem_frame(&tx).unwrap();
    match msg {
        ModemMessage::Status(s) => {
            // tx_count is incremented by the radio driver, not bridge.
            assert_eq!(s.tx_count, 0);
            assert_eq!(s.rx_count, 3);
        }
        _ => panic!("expected Status"),
    }
}

#[test]
fn multiple_recv_frames_forwarded_in_order() {
    let mut bridge = make_bridge();
    let peer = [1, 2, 3, 4, 5, 6];
    for i in 0u8..5 {
        bridge.radio.inject_rx(RecvFrame {
            peer_mac: peer,
            rssi: -(i as i8) - 30,
            frame_data: vec![i],
        });
    }
    bridge.poll();
    let tx = bridge.usb.take_tx();

    // Decode all frames and check they arrive in order.
    let mut offset = 0;
    for i in 0u8..5 {
        let (msg, consumed) = decode_modem_frame(&tx[offset..]).unwrap();
        offset += consumed;
        match msg {
            ModemMessage::RecvFrame(rf) => {
                assert_eq!(rf.frame_data, vec![i], "frame {} out of order", i);
            }
            _ => panic!("expected RecvFrame at position {}", i),
        }
    }
}

#[test]
fn reset_clears_channel_to_default() {
    let mut bridge = make_bridge();
    // Set channel to 11.
    let frame = encode_modem_frame(&ModemMessage::SetChannel(11)).unwrap();
    bridge.usb.inject(&frame);
    bridge.poll();
    bridge.usb.take_tx(); // discard ACK
    assert_eq!(bridge.radio.channel(), 11);

    // RESET should revert to channel 1.
    let reset = encode_modem_frame(&ModemMessage::Reset).unwrap();
    bridge.usb.inject(&reset);
    bridge.poll();
    bridge.usb.take_tx(); // discard MODEM_READY
    assert_eq!(bridge.radio.channel(), 1);

    // Verify via GET_STATUS.
    let frame = encode_modem_frame(&ModemMessage::GetStatus).unwrap();
    bridge.usb.inject(&frame);
    bridge.poll();
    let tx = bridge.usb.take_tx();
    let (msg, _) = decode_modem_frame(&tx).unwrap();
    match msg {
        ModemMessage::Status(s) => {
            assert_eq!(s.channel, 1);
            assert_eq!(s.tx_count, 0);
            assert_eq!(s.rx_count, 0);
            assert_eq!(s.tx_fail_count, 0);
        }
        _ => panic!("expected Status"),
    }
}

#[test]
fn repeated_reset_sends_modem_ready_each_time() {
    let mut bridge = make_bridge();
    for _ in 0..5 {
        let reset = encode_modem_frame(&ModemMessage::Reset).unwrap();
        bridge.usb.inject(&reset);
        bridge.poll();
        let tx = bridge.usb.take_tx();
        let (msg, _) = decode_modem_frame(&tx).unwrap();
        assert!(matches!(msg, ModemMessage::ModemReady(_)));
    }
}

#[test]
fn send_frame_body_too_short_discarded() {
    let mut bridge = make_bridge();
    // Manually craft a frame with SEND_FRAME type but only 3 bytes of body
    // (less than the 7-byte minimum: 6B MAC + 1B data).
    let msg_type: u8 = 0x02; // SEND_FRAME
    let body: [u8; 3] = [0x01, 0x02, 0x03];
    let len = 1 + body.len(); // type + body
    let mut raw = Vec::new();
    raw.push((len >> 8) as u8);
    raw.push(len as u8);
    raw.push(msg_type);
    raw.extend_from_slice(&body);
    bridge.usb.inject(&raw);
    bridge.poll();

    // Bridge should still be operational — no crash, no send.
    assert_eq!(bridge.radio.sent.len(), 0);

    // Verify bridge still works.
    let frame = encode_modem_frame(&ModemMessage::GetStatus).unwrap();
    bridge.usb.inject(&frame);
    bridge.poll();
    let tx = bridge.usb.take_tx();
    let (msg, _) = decode_modem_frame(&tx).unwrap();
    assert!(matches!(msg, ModemMessage::Status(_)));
}

#[test]
fn framing_error_recovery_via_reset() {
    let mut bridge = make_bridge();

    // Inject corrupt data: a length prefix claiming 600 bytes (> SERIAL_MAX_LEN).
    // This triggers FrameTooLarge and decoder reset.
    let corrupt: [u8; 4] = [0x02, 0x58, 0xFF, 0xFF]; // len=600
    bridge.usb.inject(&corrupt);
    bridge.poll();
    let tx = bridge.usb.take_tx();
    assert!(
        tx.is_empty(),
        "modem must not emit output on framing errors"
    );

    // Now send a proper RESET — the decoder should recover.
    let reset = encode_modem_frame(&ModemMessage::Reset).unwrap();
    bridge.usb.inject(&reset);
    bridge.poll();
    let tx = bridge.usb.take_tx();
    let (msg, _) = decode_modem_frame(&tx).unwrap();
    assert!(matches!(msg, ModemMessage::ModemReady(_)));
}

#[test]
fn modem_forwards_opaque_payload() {
    let mut bridge = make_bridge();
    let peer = [1, 2, 3, 4, 5, 6];
    // Invalid CBOR — modem should not inspect it.
    let garbage_payload = vec![0xFF, 0xFF, 0xFF, 0x00, 0xFE];
    let sf = ModemMessage::SendFrame(SendFrame {
        peer_mac: peer,
        frame_data: garbage_payload.clone(),
    });
    let frame = encode_modem_frame(&sf).unwrap();
    bridge.usb.inject(&frame);
    bridge.poll();

    // Radio should receive exact bytes — no parsing or rejection.
    assert_eq!(bridge.radio.sent.len(), 1);
    assert_eq!(bridge.radio.sent[0].0, garbage_payload);

    // No ERROR message on serial output.
    let tx = bridge.usb.take_tx();
    assert!(
        tx.is_empty(),
        "modem should not send any response for SEND_FRAME"
    );
}

#[test]
fn usb_reconnect_triggers_modem_ready() {
    let mut bridge = make_bridge();
    // Simulate a reconnection event on next read.
    bridge.usb.set_reconnect_once();
    bridge.poll();
    let tx = bridge.usb.take_tx();
    let (msg, _) = decode_modem_frame(&tx).unwrap();
    assert!(matches!(msg, ModemMessage::ModemReady(_)));
}

#[test]
fn usb_reconnect_clears_decoder_state() {
    let mut bridge = make_bridge();

    // Inject stale bytes to leave a partial length-prefixed frame in the
    // decoder buffer.  These do not form a complete frame.
    bridge.usb.inject(&[0x01, 0x02, 0x03, 0xFF, 0xFE]);
    bridge.poll();
    bridge.usb.take_tx(); // discard any error output

    // Simulate USB reconnect — this should reset the decoder and send
    // MODEM_READY.
    bridge.usb.set_reconnect_once();
    bridge.poll();
    let tx = bridge.usb.take_tx();
    let (msg, _) = decode_modem_frame(&tx).unwrap();
    assert!(matches!(msg, ModemMessage::ModemReady(_)));

    // Now inject a complete GET_STATUS frame.  If the decoder was NOT
    // reset, the stale bytes would corrupt this frame.
    let status_frame = encode_modem_frame(&ModemMessage::GetStatus).unwrap();
    bridge.usb.inject(&status_frame);
    bridge.poll();
    let tx = bridge.usb.take_tx();
    let (msg, _) = decode_modem_frame(&tx).unwrap();
    assert!(
        matches!(msg, ModemMessage::Status(_)),
        "expected Status after reconnect, got {:?}",
        msg
    );
}

#[test]
fn rx_cap_limits_frames_per_poll() {
    let mut bridge = make_bridge();
    let peer = [0x11, 0x22, 0x33, 0x44, 0x55, 0x66];
    // Inject more frames than the per-poll cap.
    let total = MAX_RX_FRAMES_PER_POLL + 5;
    for i in 0..total {
        bridge.radio.inject_rx(RecvFrame {
            peer_mac: peer,
            rssi: -40,
            frame_data: vec![i as u8],
        });
    }

    // First poll should forward exactly MAX_RX_FRAMES_PER_POLL.
    bridge.poll();
    let tx1 = bridge.usb.take_tx();
    let mut count1 = 0;
    let mut decoder = FrameDecoder::new();
    decoder.push(&tx1);
    while let Ok(Some(msg)) = decoder.decode() {
        if matches!(msg, ModemMessage::RecvFrame(_)) {
            count1 += 1;
        }
    }
    assert_eq!(count1, MAX_RX_FRAMES_PER_POLL);

    // Second poll should forward the remaining 5.
    bridge.poll();
    let tx2 = bridge.usb.take_tx();
    let mut count2 = 0;
    decoder = FrameDecoder::new();
    decoder.push(&tx2);
    while let Ok(Some(msg)) = decoder.decode() {
        if matches!(msg, ModemMessage::RecvFrame(_)) {
            count2 += 1;
        }
    }
    assert_eq!(count2, 5);

    // Total forwarded must equal total injected.
    assert_eq!(count1 + count2, total);
}

/// Mock BLE driver that records calls and queues events.
struct MockBle {
    enabled: bool,
    indicated: Vec<Vec<u8>>,
    pairing_replies: Vec<bool>,
    event_queue: RefCell<VecDeque<BleEvent>>,
    check_pairing_timeout_count: Cell<usize>,
    check_encryption_fallback_count: Cell<usize>,
    enable_count: Cell<usize>,
    disable_count: Cell<usize>,
}

impl MockBle {
    fn new() -> Self {
        Self {
            enabled: false,
            indicated: Vec::new(),
            pairing_replies: Vec::new(),
            event_queue: RefCell::new(VecDeque::new()),
            check_pairing_timeout_count: Cell::new(0),
            check_encryption_fallback_count: Cell::new(0),
            enable_count: Cell::new(0),
            disable_count: Cell::new(0),
        }
    }

    fn inject_event(&self, event: BleEvent) {
        self.event_queue.borrow_mut().push_back(event);
    }
}

impl Ble for MockBle {
    fn advance_indication(&mut self) {}
    fn enable(&mut self) {
        self.enabled = true;
        self.enable_count.set(self.enable_count.get() + 1);
    }
    fn disable(&mut self) {
        self.enabled = false;
        // Ble::disable() contract: clear indications so partial fragments
        // are not sent to the next client. Events are NOT cleared here —
        // the bridge reset logic drains stale events.
        self.indicated.clear();
        self.disable_count.set(self.disable_count.get() + 1);
    }
    fn indicate(&mut self, data: &[u8]) {
        // Ble contract: empty data is a no-op.
        if !data.is_empty() {
            self.indicated.push(data.to_vec());
        }
    }
    fn pairing_confirm_reply(&mut self, accept: bool) {
        self.pairing_replies.push(accept);
    }
    fn check_pairing_timeout(&mut self, _now_ns: u64) {
        self.check_pairing_timeout_count
            .set(self.check_pairing_timeout_count.get() + 1);
    }
    fn check_encryption_fallback(&mut self) {
        self.check_encryption_fallback_count
            .set(self.check_encryption_fallback_count.get() + 1);
    }
    fn drain_event(&mut self) -> Option<BleEvent> {
        self.event_queue.borrow_mut().pop_front()
    }
}

fn make_bridge_with_ble() -> Link<MockSerial, MockRadio, MockBle, NoButton> {
    Link::start(Bridge::with_ble(
        MockSerial::new(),
        MockRadio::new(),
        MockBle::new(),
        ModemCounters::new(), FIRMWARE_VERSION,
    ))
}

#[test]
fn ble_enable_starts_advertising() {
    let mut bridge = make_bridge_with_ble();
    assert!(!bridge.ble.enabled);
    let frame = encode_modem_frame(&ModemMessage::BleEnable).unwrap();
    bridge.usb.inject(&frame);
    bridge.poll();
    assert!(bridge.ble.enabled);
}

#[test]
fn ble_disabled_after_reset() {
    let mut bridge = make_bridge_with_ble();
    // Enable BLE first.
    let enable = encode_modem_frame(&ModemMessage::BleEnable).unwrap();
    bridge.usb.inject(&enable);
    bridge.poll();
    assert!(bridge.ble.enabled);
    bridge.usb.take_tx(); // discard

    // RESET must disable BLE.
    let reset = encode_modem_frame(&ModemMessage::Reset).unwrap();
    bridge.usb.inject(&reset);
    bridge.poll();
    assert!(!bridge.ble.enabled, "BLE must be off after RESET");
}

#[test]
fn ble_disable_stops_advertising() {
    let mut bridge = make_bridge_with_ble();
    let enable = encode_modem_frame(&ModemMessage::BleEnable).unwrap();
    bridge.usb.inject(&enable);
    bridge.poll();
    assert!(bridge.ble.enabled);

    let disable = encode_modem_frame(&ModemMessage::BleDisable).unwrap();
    bridge.usb.inject(&disable);
    bridge.poll();
    assert!(!bridge.ble.enabled);
}

#[test]
fn ble_indicate_dispatched() {
    let mut bridge = make_bridge_with_ble();
    let payload = vec![0x01, 0x00, 0x02, 0xDE, 0xAD];
    let frame = encode_modem_frame(&ModemMessage::BleIndicate(BleIndicate {
        ble_data: payload.clone(),
    }))
    .unwrap();
    bridge.usb.inject(&frame);
    bridge.poll();
    assert_eq!(bridge.ble.indicated.len(), 1);
    assert_eq!(bridge.ble.indicated[0], payload);
}

#[test]
fn ble_indicate_empty_body_silently_discarded() {
    let mut bridge = make_bridge_with_ble();
    // Craft a BLE_INDICATE frame with empty body (len = 1, just the type byte).
    let mut raw = Vec::new();
    raw.extend_from_slice(&1u16.to_be_bytes());
    raw.push(MODEM_MSG_BLE_INDICATE);
    bridge.usb.inject(&raw);
    bridge.poll();
    // Nothing should have been indicated and no serial output.
    assert!(bridge.ble.indicated.is_empty());
    assert!(bridge.usb.take_tx().is_empty());
}

#[test]
fn ble_indicate_direct_empty_no_panic() {
    let mut bridge = make_bridge_with_ble();
    // Directly call the dispatch path with BleIndicate(vec![]) to verify
    // the Ble::indicate() contract — empty data is a no-op without panicking.
    bridge.ble.indicate(&[]);
    assert!(
        bridge.ble.indicated.is_empty(),
        "empty indicate should not queue"
    );
}

#[test]
fn ble_indicate_no_ble_client_silent_discard() {
    // NoBle no-op: no crash, no serial output.
    let mut bridge = make_bridge();
    let payload = vec![0x01, 0x00, 0x02, 0xDE, 0xAD];
    let frame = encode_modem_frame(&ModemMessage::BleIndicate(BleIndicate {
        ble_data: payload,
    }))
    .unwrap();
    bridge.usb.inject(&frame);
    bridge.poll();
    // No crash; serial output is empty (NoBle.indicate() is a no-op).
    assert!(bridge.usb.take_tx().is_empty());
}

#[test]
fn ble_pairing_confirm_reply_accept() {
    let mut bridge = make_bridge_with_ble();
    let reply = ModemMessage::BlePairingConfirmReply(BlePairingConfirmReply { accept: true });
    let frame = encode_modem_frame(&reply).unwrap();
    bridge.usb.inject(&frame);
    bridge.poll();
    assert_eq!(bridge.ble.pairing_replies, vec![true]);
}

#[test]
fn ble_pairing_confirm_reply_reject() {
    let mut bridge = make_bridge_with_ble();
    let reply = ModemMessage::BlePairingConfirmReply(BlePairingConfirmReply { accept: false });
    let frame = encode_modem_frame(&reply).unwrap();
    bridge.usb.inject(&frame);
    bridge.poll();
    assert_eq!(bridge.ble.pairing_replies, vec![false]);
}

#[test]
fn poll_calls_check_pairing_timeout() {
    let mut bridge = make_bridge_with_ble();
    assert_eq!(bridge.ble.check_pairing_timeout_count.get(), 0);
    bridge.poll();
    assert_eq!(bridge.ble.check_pairing_timeout_count.get(), 1);
    bridge.poll();
    assert_eq!(bridge.ble.check_pairing_timeout_count.get(), 2);
}

#[test]
fn poll_calls_check_encryption_fallback() {
    let mut bridge = make_bridge_with_ble();
    assert_eq!(bridge.ble.check_encryption_fallback_count.get(), 0);
    bridge.poll();
    assert_eq!(bridge.ble.check_encryption_fallback_count.get(), 1);
    bridge.poll();
    assert_eq!(bridge.ble.check_encryption_fallback_count.get(), 2);
}

#[test]
fn ble_recv_forwarded_to_gateway() {
    let mut bridge = make_bridge_with_ble();
    let data = vec![0x01, 0x00, 0x03, 0xCA, 0xFE, 0xBA];
    bridge.ble.inject_event(BleEvent::Recv(data.clone()));
    bridge.poll();
    let tx = bridge.usb.take_tx();
    let (msg, _) = decode_modem_frame(&tx).unwrap();
    match msg {
        ModemMessage::BleRecv(received) => assert_eq!(received.ble_data, data),
        _ => panic!("expected BleRecv"),
    }
}

#[test]
fn ble_connected_forwarded_to_gateway() {
    let mut bridge = make_bridge_with_ble();
    let peer = [0x11, 0x22, 0x33, 0x44, 0x55, 0x66];
    bridge.ble.inject_event(BleEvent::Connected {
        peer_addr: peer,
        mtu: 247,
    });
    bridge.poll();
    let tx = bridge.usb.take_tx();
    let (msg, _) = decode_modem_frame(&tx).unwrap();
    match msg {
        ModemMessage::BleConnected(c) => {
            assert_eq!(c.peer_addr, peer);
            assert_eq!(c.mtu, 247);
        }
        _ => panic!("expected BleConnected"),
    }
}

#[test]
fn ble_disconnected_forwarded_to_gateway() {
    let mut bridge = make_bridge_with_ble();
    let peer = [0xAA, 0xBB, 0xCC, 0xDD, 0xEE, 0xFF];
    bridge.ble.inject_event(BleEvent::Disconnected {
        peer_addr: peer,
        reason: 0x13,
    });
    bridge.poll();
    let tx = bridge.usb.take_tx();
    let (msg, _) = decode_modem_frame(&tx).unwrap();
    match msg {
        ModemMessage::BleDisconnected(d) => {
            assert_eq!(d.peer_addr, peer);
            assert_eq!(d.reason, 0x13);
        }
        _ => panic!("expected BleDisconnected"),
    }
}

#[test]
fn ble_pairing_confirm_forwarded_to_gateway() {
    let mut bridge = make_bridge_with_ble();
    bridge
        .ble
        .inject_event(BleEvent::PairingConfirm { passkey: 123456 });
    bridge.poll();
    let tx = bridge.usb.take_tx();
    let (msg, _) = decode_modem_frame(&tx).unwrap();
    match msg {
        ModemMessage::BlePairingConfirm(p) => assert_eq!(p.passkey, 123456),
        _ => panic!("expected BlePairingConfirm"),
    }
}

#[test]
fn ble_relay_round_trip() {
    let mut bridge = make_bridge_with_ble();

    // Phone wrote to Gateway Command characteristic.
    let recv_data = vec![0x01, 0x00, 0x00]; // REQUEST_GW_INFO envelope
    bridge.ble.inject_event(BleEvent::Recv(recv_data.clone()));

    // Gateway responds with BLE_INDICATE.
    let indicate_data = vec![0x81, 0x00, 0x10]; // GW_INFO_RESPONSE envelope prefix
    let indicate_frame = encode_modem_frame(&ModemMessage::BleIndicate(BleIndicate {
        ble_data: indicate_data.clone(),
    }))
    .unwrap();
    bridge.usb.inject(&indicate_frame);

    bridge.poll();

    // BLE_RECV should appear on USB.
    let tx = bridge.usb.take_tx();
    let (msg, _) = decode_modem_frame(&tx).unwrap();
    match msg {
        ModemMessage::BleRecv(d) => assert_eq!(d.ble_data, recv_data),
        _ => panic!("expected BleRecv"),
    }

    // BLE layer should have received the indication.
    assert_eq!(bridge.ble.indicated.len(), 1);
    assert_eq!(bridge.ble.indicated[0], indicate_data);
}

#[test]
fn ble_and_espnow_concurrent() {
    let mut bridge = make_bridge_with_ble();
    let peer = [1, 2, 3, 4, 5, 6];

    // Inject an ESP-NOW frame.
    bridge.radio.inject_rx(RecvFrame {
        peer_mac: peer,
        rssi: -50,
        frame_data: vec![0xDE, 0xAD],
    });

    // Inject a BLE event.
    bridge.ble.inject_event(BleEvent::Recv(vec![0xCA, 0xFE]));

    bridge.poll();

    let tx = bridge.usb.take_tx();
    // Both RECV_FRAME and BLE_RECV should appear on USB.
    let mut decoder = FrameDecoder::new();
    decoder.push(&tx);

    let mut got_recv_frame = false;
    let mut got_ble_recv = false;
    while let Ok(Some(msg)) = decoder.decode() {
        match msg {
            ModemMessage::RecvFrame(_) => got_recv_frame = true,
            ModemMessage::BleRecv(_) => got_ble_recv = true,
            _ => {}
        }
    }
    assert!(got_recv_frame, "expected RECV_FRAME from ESP-NOW");
    assert!(got_ble_recv, "expected BLE_RECV from BLE layer");
}

#[test]
fn serial_framing_valid_frame_and_max_length() {
    let mut bridge = make_bridge();

    // 1. RESET → MODEM_READY
    let reset = encode_modem_frame(&ModemMessage::Reset).unwrap();
    bridge.usb.inject(&reset);
    bridge.poll();
    let tx = bridge.usb.take_tx();
    let (msg, _) = decode_modem_frame(&tx).unwrap();
    assert!(matches!(msg, ModemMessage::ModemReady(_)));

    // 2. GET_STATUS → well-formed STATUS
    let get_status = encode_modem_frame(&ModemMessage::GetStatus).unwrap();
    bridge.usb.inject(&get_status);
    bridge.poll();
    let tx = bridge.usb.take_tx();
    let (msg, _) = decode_modem_frame(&tx).unwrap();
    assert!(matches!(msg, ModemMessage::Status(_)));

    // 3. Send max-length frame: len=SERIAL_MAX_LEN, type=0x7F (unknown), padding.
    //    The bridge reads 64 bytes per poll, so multiple polls are needed.
    let max_body = SERIAL_MAX_LEN as usize - 1; // 511 bytes (TYPE takes 1)
    let mut max_frame = Vec::new();
    max_frame.extend_from_slice(&SERIAL_MAX_LEN.to_be_bytes()); // LEN
    max_frame.push(0x7F); // TYPE = unknown
    max_frame.extend_from_slice(&vec![0xAA; max_body]); // padding
    bridge.usb.inject(&max_frame);
    // Frame is > 64 bytes (rx_buf size) — needs multiple polls.
    let max_polls = SERIAL_MAX_FRAME_SIZE / RX_BUF_LEN + 1;
    for _ in 0..max_polls {
        if bridge.usb.rx_data.is_empty() {
            break;
        }
        bridge.poll();
    }
    assert!(
        bridge.usb.rx_data.is_empty(),
        "frame must be fully consumed"
    );
    bridge.poll(); // final decode pass

    // No output expected (silent discard of unknown type).
    assert!(bridge.usb.take_tx().is_empty());

    // 4. GET_STATUS again — framing must remain synchronized.
    bridge.usb.inject(&get_status);
    bridge.poll();
    let tx = bridge.usb.take_tx();
    let (msg, _) = decode_modem_frame(&tx).unwrap();
    assert!(matches!(msg, ModemMessage::Status(_)));
}

#[test]
fn serial_framing_oversized_len() {
    let mut bridge = make_bridge();

    // 1. RESET → MODEM_READY
    let reset = encode_modem_frame(&ModemMessage::Reset).unwrap();
    bridge.usb.inject(&reset);
    bridge.poll();
    let tx = bridge.usb.take_tx();
    assert!(matches!(
        decode_modem_frame(&tx).unwrap().0,
        ModemMessage::ModemReady(_)
    ));

    // 2. Send just the 2-byte LEN header exceeding SERIAL_MAX_LEN.
    //    The bridge detects FrameTooLarge and resets the decoder.
    let oversized_len = SERIAL_MAX_LEN + 1;
    bridge.usb.inject(&oversized_len.to_be_bytes());
    bridge.poll();

    // 3. RESET to resynchronize — decoder was reset, so RESET is parsed
    //    cleanly from the fresh stream.
    bridge.usb.inject(&reset);
    bridge.poll();
    let tx = bridge.usb.take_tx();
    let (msg, _) = decode_modem_frame(&tx).unwrap();
    assert!(
        matches!(msg, ModemMessage::ModemReady(_)),
        "modem must recover after oversized frame"
    );
}

#[test]
fn ble_gatt_setup_via_enable_and_connect() {
    let mut bridge = make_bridge_with_ble();

    // Enable BLE (registers GATT service on device).
    let enable = encode_modem_frame(&ModemMessage::BleEnable).unwrap();
    bridge.usb.inject(&enable);
    bridge.poll();
    assert!(bridge.ble.enabled);
    bridge.usb.take_tx(); // discard

    // Simulate a phone connecting after GATT discovery.
    let peer = [0x11, 0x22, 0x33, 0x44, 0x55, 0x66];
    bridge.ble.inject_event(BleEvent::Connected {
        peer_addr: peer,
        mtu: 512,
    });
    bridge.poll();

    let tx = bridge.usb.take_tx();
    let (msg, _) = decode_modem_frame(&tx).unwrap();
    match msg {
        ModemMessage::BleConnected(c) => {
            assert_eq!(c.peer_addr, peer);
            assert_eq!(c.mtu, 512);
        }
        _ => panic!("expected BleConnected"),
    }
}

#[test]
fn ble_mtu_negotiation_reported() {
    let mut bridge = make_bridge_with_ble();
    let peer = [0x11, 0x22, 0x33, 0x44, 0x55, 0x66];
    bridge.ble.inject_event(BleEvent::Connected {
        peer_addr: peer,
        mtu: 247,
    });
    bridge.poll();

    let tx = bridge.usb.take_tx();
    let (msg, _) = decode_modem_frame(&tx).unwrap();
    match msg {
        ModemMessage::BleConnected(c) => {
            assert_eq!(c.mtu, 247, "negotiated MTU must be preserved exactly");
            assert_eq!(c.peer_addr, peer, "peer address must be preserved");
        }
        _ => panic!("expected BleConnected"),
    }
}

#[test]
fn ble_mtu_below_minimum_no_connected_event() {
    let mut bridge = make_bridge_with_ble();
    let peer = [0xAA, 0xBB, 0xCC, 0xDD, 0xEE, 0xFF];
    bridge.ble.inject_event(BleEvent::Connected {
        peer_addr: peer,
        mtu: 100, // below BLE_MTU_MIN (247)
    });
    bridge.poll();

    // The codec rejects encoding BleConnected with mtu < 247, so
    // nothing reaches the gateway.
    assert!(
        bridge.usb.take_tx().is_empty(),
        "low-MTU BLE_CONNECTED must not be forwarded (codec rejects mtu < 247)"
    );
}

#[test]
fn ble_write_to_usb_relay() {
    let mut bridge = make_bridge_with_ble();
    let ble_data = vec![0x01, 0x00, 0x05, 0xCA, 0xFE, 0xBA, 0xBE, 0x42];
    bridge.ble.inject_event(BleEvent::Recv(ble_data.clone()));
    bridge.poll();

    let tx = bridge.usb.take_tx();
    let (msg, _) = decode_modem_frame(&tx).unwrap();
    match msg {
        ModemMessage::BleRecv(r) => {
            assert_eq!(r.ble_data, ble_data, "BLE_RECV payload must match write");
        }
        _ => panic!("expected BleRecv"),
    }
}

#[test]
fn usb_to_ble_indication_relay() {
    let mut bridge = make_bridge_with_ble();
    let payload = vec![0x81, 0x00, 0x10, 0xAB, 0xCD];
    let frame = encode_modem_frame(&ModemMessage::BleIndicate(BleIndicate {
        ble_data: payload.clone(),
    }))
    .unwrap();
    bridge.usb.inject(&frame);
    bridge.poll();

    assert_eq!(bridge.ble.indicated.len(), 1);
    assert_eq!(
        bridge.ble.indicated[0], payload,
        "indication payload must match"
    );
}

#[test]
fn ble_indicate_large_payload_forwarded() {
    let mut bridge = make_bridge_with_ble();
    // Payload larger than typical MTU-3 = 244 bytes.
    let large_payload: Vec<u8> = (0..400).map(|i| (i & 0xFF) as u8).collect();
    let frame = encode_modem_frame(&ModemMessage::BleIndicate(BleIndicate {
        ble_data: large_payload.clone(),
    }))
    .unwrap();
    bridge.usb.inject(&frame);
    // Frame is > 64 bytes (rx_buf size) — needs multiple polls.
    let max_polls = frame.len() / RX_BUF_LEN + 1;
    for _ in 0..max_polls {
        if bridge.usb.rx_data.is_empty() {
            break;
        }
        bridge.poll();
    }
    assert!(
        bridge.usb.rx_data.is_empty(),
        "frame must be fully consumed"
    );
    bridge.poll(); // final decode pass

    assert_eq!(bridge.ble.indicated.len(), 1);
    assert_eq!(
        bridge.ble.indicated[0], large_payload,
        "large payload must be forwarded intact for BLE-layer fragmentation"
    );
}

#[test]
fn ble_opaque_relay_no_inspection() {
    let mut bridge = make_bridge_with_ble();
    // Invalid / garbage BLE data — not a valid BLE envelope.
    let garbage = vec![0xFF, 0xFE, 0xFD, 0x00, 0x01, 0x02, 0x03];
    bridge.ble.inject_event(BleEvent::Recv(garbage.clone()));
    bridge.poll();

    let tx = bridge.usb.take_tx();
    let (msg, _) = decode_modem_frame(&tx).unwrap();
    match msg {
        ModemMessage::BleRecv(r) => {
            assert_eq!(
                r.ble_data, garbage,
                "garbage payload must be relayed verbatim"
            );
        }
        _ => panic!("expected BleRecv, not an error"),
    }
}

#[test]
fn ble_pairing_confirm_no_auto_reply() {
    let mut bridge = make_bridge_with_ble();

    // BLE stack emits a pairing confirm event.
    bridge
        .ble
        .inject_event(BleEvent::PairingConfirm { passkey: 654321 });
    bridge.poll();

    // Verify the event was forwarded to the gateway.
    let tx = bridge.usb.take_tx();
    let (msg, _) = decode_modem_frame(&tx).unwrap();
    assert!(matches!(msg, ModemMessage::BlePairingConfirm(_)));

    // Poll again without sending a reply from the gateway.
    bridge.poll();

    // The bridge must NOT have sent any automatic pairing reply.
    assert!(
        bridge.ble.pairing_replies.is_empty(),
        "bridge must not auto-reply to pairing confirm (timeout is BLE stack's job)"
    );
}

//
// These tests inject realistic BLE event sequences into the bridge via
// MockBle to verify end-to-end handling of pairing flows.  The actual
// state machine (deferral, buffering, timeouts) lives in ble.rs; these
// tests validate the bridge correctly processes the resulting events.

#[test]
fn ble_pairing_accept_full_flow() {
    let mut bridge = make_bridge_with_ble();
    let peer = [0x11, 0x22, 0x33, 0x44, 0x55, 0x66];

    // 1. BLE stack emits PairingConfirm.
    bridge
        .ble
        .inject_event(BleEvent::PairingConfirm { passkey: 123456 });
    bridge.poll();

    // Verify BLE_PAIRING_CONFIRM forwarded.
    let tx = bridge.usb.take_tx();
    let (msg, consumed) = decode_modem_frame(&tx).unwrap();
    assert_eq!(consumed, tx.len(), "only one message expected");
    match msg {
        ModemMessage::BlePairingConfirm(p) => assert_eq!(p.passkey, 123456),
        _ => panic!("expected BlePairingConfirm"),
    }

    // 2. Gateway sends BLE_PAIRING_CONFIRM_REPLY(accept).
    let reply = ModemMessage::BlePairingConfirmReply(BlePairingConfirmReply { accept: true });
    let frame = encode_modem_frame(&reply).unwrap();
    bridge.usb.inject(&frame);
    bridge.poll();
    assert_eq!(bridge.ble.pairing_replies, vec![true]);

    // 3. BLE stack emits Connected (deferred until operator accepted).
    bridge.ble.inject_event(BleEvent::Connected {
        peer_addr: peer,
        mtu: 247,
    });
    bridge.poll();

    let tx = bridge.usb.take_tx();
    let (msg, consumed) = decode_modem_frame(&tx).unwrap();
    assert_eq!(consumed, tx.len(), "only one message expected");
    match msg {
        ModemMessage::BleConnected(c) => {
            assert_eq!(c.peer_addr, peer);
            assert_eq!(c.mtu, 247);
        }
        _ => panic!("expected BleConnected"),
    }
}

#[test]
fn ble_pairing_reject_full_flow() {
    let mut bridge = make_bridge_with_ble();
    let peer = [0x11, 0x22, 0x33, 0x44, 0x55, 0x66];

    // 1. BLE stack emits PairingConfirm.
    bridge
        .ble
        .inject_event(BleEvent::PairingConfirm { passkey: 654321 });
    bridge.poll();
    let tx = bridge.usb.take_tx();
    let (msg, _) = decode_modem_frame(&tx).unwrap();
    assert!(
        matches!(msg, ModemMessage::BlePairingConfirm(_)),
        "expected BlePairingConfirm"
    );

    // 2. Gateway sends BLE_PAIRING_CONFIRM_REPLY(reject).
    let reply = ModemMessage::BlePairingConfirmReply(BlePairingConfirmReply { accept: false });
    let frame = encode_modem_frame(&reply).unwrap();
    bridge.usb.inject(&frame);
    bridge.poll();
    assert_eq!(bridge.ble.pairing_replies, vec![false]);

    // 3. BLE stack disconnects the client.
    bridge.ble.inject_event(BleEvent::Disconnected {
        peer_addr: peer,
        reason: 0x13,
    });
    bridge.poll();

    let tx = bridge.usb.take_tx();
    let (msg, consumed) = decode_modem_frame(&tx).unwrap();
    assert_eq!(consumed, tx.len(), "only BleDisconnected expected");
    match msg {
        ModemMessage::BleDisconnected(d) => {
            assert_eq!(d.peer_addr, peer);
        }
        _ => panic!("expected BleDisconnected"),
    }
}

#[test]
fn ble_pre_auth_gatt_write_buffered() {
    let mut bridge = make_bridge_with_ble();
    let peer = [0xAA, 0xBB, 0xCC, 0xDD, 0xEE, 0xFF];
    let gatt_data = vec![0x01, 0x00, 0x03, 0xCA, 0xFE];

    // 1. PairingConfirm arrives.
    bridge
        .ble
        .inject_event(BleEvent::PairingConfirm { passkey: 111111 });
    bridge.poll();
    bridge.usb.take_tx(); // discard PairingConfirm serial msg

    // 2. Gateway accepts.
    let reply = ModemMessage::BlePairingConfirmReply(BlePairingConfirmReply { accept: true });
    let frame = encode_modem_frame(&reply).unwrap();
    bridge.usb.inject(&frame);
    bridge.poll();
    bridge.usb.take_tx(); // discard any output

    // 3. BLE stack emits the buffered GATT write (Recv) followed by Connected
    //    — this is the order ble.rs produces when flushing a pending_write.
    bridge.ble.inject_event(BleEvent::Recv(gatt_data.clone()));
    bridge.ble.inject_event(BleEvent::Connected {
        peer_addr: peer,
        mtu: 247,
    });
    bridge.poll();

    // Decode both messages from the TX buffer.
    let tx = bridge.usb.take_tx();
    let (msg1, consumed1) = decode_modem_frame(&tx).unwrap();
    let (msg2, consumed2) = decode_modem_frame(&tx[consumed1..]).unwrap();
    assert_eq!(
        consumed1 + consumed2,
        tx.len(),
        "exactly two messages expected in TX buffer"
    );

    // BLE_RECV must arrive before BLE_CONNECTED (buffered write flushed first).
    match msg1 {
        ModemMessage::BleRecv(r) => assert_eq!(r.ble_data, gatt_data),
        _ => panic!("expected BleRecv first"),
    }
    match msg2 {
        ModemMessage::BleConnected(c) => {
            assert_eq!(c.peer_addr, peer);
            assert_eq!(c.mtu, 247);
        }
        _ => panic!("expected BleConnected second"),
    }
}

#[test]
fn ble_pairing_confirm_without_reply_forwards_later_disconnect() {
    let mut bridge = make_bridge_with_ble();
    let peer = [0x11, 0x22, 0x33, 0x44, 0x55, 0x66];

    // 1. PairingConfirm arrives.
    bridge
        .ble
        .inject_event(BleEvent::PairingConfirm { passkey: 999999 });
    bridge.poll();
    let tx = bridge.usb.take_tx();
    assert!(
        matches!(
            decode_modem_frame(&tx).unwrap().0,
            ModemMessage::BlePairingConfirm(_)
        ),
        "PairingConfirm must be forwarded"
    );

    // 2. No reply sent.  Multiple polls pass (simulating time passing).
    for _ in 0..5 {
        bridge.poll();
    }
    // No pairing reply should have been sent by the bridge.
    assert!(
        bridge.ble.pairing_replies.is_empty(),
        "bridge must not auto-reply"
    );
    // check_pairing_timeout must have been called exactly once per poll cycle.
    assert_eq!(bridge.ble.check_pairing_timeout_count.get(), 6);

    // 3. BLE stack eventually emits Disconnected (timeout triggered in ble.rs).
    bridge.ble.inject_event(BleEvent::Disconnected {
        peer_addr: peer,
        reason: 0x13,
    });
    bridge.poll();

    let tx = bridge.usb.take_tx();
    let (msg, consumed) = decode_modem_frame(&tx).unwrap();
    match msg {
        ModemMessage::BleDisconnected(d) => {
            assert_eq!(d.peer_addr, peer);
        }
        _ => panic!("expected BleDisconnected"),
    }
    // No BLE_CONNECTED should have been sent at any point.
    assert_eq!(
        consumed,
        tx.len(),
        "no additional messages expected after disconnect"
    );
}

#[test]
fn ble_idle_timeout_disconnects() {
    let mut bridge = make_bridge_with_ble();
    let peer = [0xDE, 0xAD, 0xBE, 0xEF, 0x00, 0x01];

    // 1. Multiple polls with no BLE events (client connected but idle
    //    at the BLE stack level — no events emitted to bridge).
    for _ in 0..10 {
        bridge.poll();
    }
    // check_pairing_timeout called exactly once per cycle.
    assert_eq!(bridge.ble.check_pairing_timeout_count.get(), 10);
    // No serial output during idle period.
    assert!(bridge.usb.take_tx().is_empty());

    // 2. BLE stack disconnects the idle client.
    bridge.ble.inject_event(BleEvent::Disconnected {
        peer_addr: peer,
        reason: 0x08, // connection timeout
    });
    bridge.poll();

    let tx = bridge.usb.take_tx();
    let (msg, consumed) = decode_modem_frame(&tx).unwrap();
    assert_eq!(consumed, tx.len(), "only BleDisconnected expected");
    match msg {
        ModemMessage::BleDisconnected(d) => {
            assert_eq!(d.peer_addr, peer);
            assert_eq!(d.reason, 0x08);
        }
        _ => panic!("expected BleDisconnected"),
    }
}

#[test]
fn ble_deferred_connected_with_buffered_write() {
    let mut bridge = make_bridge_with_ble();
    let peer = [0x42, 0x42, 0x42, 0x42, 0x42, 0x42];
    let gatt_payload = vec![0xDE, 0xAD, 0xBE, 0xEF];

    // 1. PairingConfirm arrives → forwarded.
    bridge
        .ble
        .inject_event(BleEvent::PairingConfirm { passkey: 222333 });
    bridge.poll();
    let tx = bridge.usb.take_tx();
    let (msg, _) = decode_modem_frame(&tx).unwrap();
    match msg {
        ModemMessage::BlePairingConfirm(p) => assert_eq!(p.passkey, 222333),
        _ => panic!("expected BlePairingConfirm"),
    }

    // 2. No Connected yet (deferred in ble.rs).
    bridge.poll();
    assert!(
        bridge.usb.take_tx().is_empty(),
        "no serial output before operator decision"
    );

    // 3. Operator accepts.
    let reply = ModemMessage::BlePairingConfirmReply(BlePairingConfirmReply { accept: true });
    bridge.usb.inject(&encode_modem_frame(&reply).unwrap());
    bridge.poll();
    assert_eq!(bridge.ble.pairing_replies, vec![true]);
    bridge.usb.take_tx(); // discard

    // 4. ble.rs flushes buffered write + Connected.
    bridge
        .ble
        .inject_event(BleEvent::Recv(gatt_payload.clone()));
    bridge.ble.inject_event(BleEvent::Connected {
        peer_addr: peer,
        mtu: 512,
    });
    bridge.poll();

    let tx = bridge.usb.take_tx();
    let (msg1, consumed1) = decode_modem_frame(&tx).unwrap();
    let (msg2, consumed2) = decode_modem_frame(&tx[consumed1..]).unwrap();
    assert_eq!(
        consumed1 + consumed2,
        tx.len(),
        "exactly two messages expected in TX buffer"
    );

    match msg1 {
        ModemMessage::BleRecv(r) => assert_eq!(r.ble_data, gatt_payload),
        _ => panic!("expected BleRecv"),
    }
    match msg2 {
        ModemMessage::BleConnected(c) => {
            assert_eq!(c.peer_addr, peer);
            assert_eq!(c.mtu, 512);
        }
        _ => panic!("expected BleConnected"),
    }
}

#[test]
fn reset_clears_peer_table() {
    let mut bridge = make_bridge_with_ble();

    // Send frames to three different peers to register them.
    let peers: [[u8; 6]; 3] = [
        [0x11, 0x22, 0x33, 0x44, 0x55, 0x66],
        [0x22, 0x33, 0x44, 0x55, 0x66, 0x77],
        [0xDE, 0xAD, 0xBE, 0xEF, 0x42, 0x01],
    ];
    for peer in &peers {
        let frame = encode_modem_frame(&ModemMessage::SendFrame(SendFrame {
            peer_mac: *peer,
            frame_data: vec![0x42],
        }))
        .unwrap();
        bridge.usb.inject(&frame);
    }
    bridge.poll();
    bridge.usb.take_tx(); // discard any output

    assert_eq!(
        bridge.radio.peers.len(),
        3,
        "three peers must be registered before RESET"
    );

    // RESET must clear the peer table.
    let reset = encode_modem_frame(&ModemMessage::Reset).unwrap();
    bridge.usb.inject(&reset);
    bridge.poll();
    bridge.usb.take_tx(); // discard MODEM_READY

    assert!(
        bridge.radio.peers.is_empty(),
        "peer table must be empty after RESET"
    );
}

#[test]
fn reset_clears_ble_state_with_active_session() {
    let mut bridge = make_bridge_with_ble();

    // Enable BLE and simulate a full connection lifecycle.
    let enable = encode_modem_frame(&ModemMessage::BleEnable).unwrap();
    bridge.usb.inject(&enable);
    bridge.poll();
    assert!(bridge.ble.enabled);
    bridge.usb.take_tx(); // discard

    // Simulate phone connecting.
    let peer = [0x11, 0x22, 0x33, 0x44, 0x55, 0x66];
    bridge.ble.inject_event(BleEvent::Connected {
        peer_addr: peer,
        mtu: 512,
    });
    bridge.poll();
    bridge.usb.take_tx(); // discard BLE_CONNECTED

    // Queue a pending indication (gateway → phone direction).
    let indicate = encode_modem_frame(&ModemMessage::BleIndicate(BleIndicate {
        ble_data: vec![0xCA, 0xFE],
    }))
    .unwrap();
    bridge.usb.inject(&indicate);
    bridge.poll();
    bridge.usb.take_tx(); // discard

    // Inject stale BLE events that should NOT survive RESET.
    bridge.ble.inject_event(BleEvent::Recv(vec![0xDE, 0xAD]));
    bridge
        .ble
        .inject_event(BleEvent::PairingConfirm { passkey: 999999 });

    // RESET — must tear down all BLE state.
    let reset = encode_modem_frame(&ModemMessage::Reset).unwrap();
    bridge.usb.inject(&reset);
    bridge.poll();

    // 1. BLE advertising must be off.
    assert!(!bridge.ble.enabled, "BLE must be off after RESET");

    // 2. Only MODEM_READY should appear on USB — no stale BLE events.
    let tx = bridge.usb.take_tx();
    let mut decoder = FrameDecoder::new();
    decoder.push(&tx);
    let mut messages = Vec::new();
    loop {
        match decoder.decode() {
            Ok(Some(msg)) => messages.push(msg),
            Ok(None) => break,
            Err(e) => panic!("failed to decode modem frame after RESET: {:?}", e),
        }
    }
    assert_eq!(messages.len(), 1, "only MODEM_READY expected after RESET");
    assert!(
        matches!(messages[0], ModemMessage::ModemReady(_)),
        "first message after RESET must be MODEM_READY, got {:?}",
        &messages[0]
    );

    // 3. Indication queue must be cleared.
    assert!(
        bridge.ble.indicated.is_empty(),
        "indication queue must be empty after RESET"
    );

    // 4. BLE event queue must be drained (no stale events).
    assert!(
        bridge.ble.event_queue.borrow().is_empty(),
        "BLE event queue must be empty after RESET"
    );
}

#[test]
fn ble_multiple_writes_preserve_boundaries() {
    let mut bridge = make_bridge_with_ble();

    // Inject 5 rapid BLE writes with distinct payloads.
    let payloads: Vec<Vec<u8>> = vec![
        vec![0x01],
        vec![0x02, 0x03],
        vec![0x04, 0x05, 0x06],
        vec![0x07, 0x08, 0x09, 0x0A],
        vec![0x0B, 0x0C, 0x0D, 0x0E, 0x0F],
    ];
    for payload in &payloads {
        bridge.ble.inject_event(BleEvent::Recv(payload.clone()));
    }

    // Single poll — all events must be processed without merging.
    bridge.poll();

    // Decode all USB output.
    let tx = bridge.usb.take_tx();
    let mut decoder = FrameDecoder::new();
    decoder.push(&tx);
    let mut received: Vec<Vec<u8>> = Vec::new();
    loop {
        match decoder.decode() {
            Ok(Some(msg)) => match msg {
                ModemMessage::BleRecv(r) => received.push(r.ble_data),
                ModemMessage::Error(e) => panic!("unexpected Error on USB: {:?}", e),
                _ => {
                    // Ignore non-error, non-BleRecv frames; this test only cares about
                    // preserving BLE_RECV boundaries and payloads.
                }
            },
            Ok(None) => break,
            Err(e) => panic!("failed to decode modem frame: {:?}", e),
        }
    }

    // Exactly N messages, each with the correct payload.
    assert_eq!(
        received.len(),
        payloads.len(),
        "each GATT write must produce exactly one BLE_RECV (1:1 boundary)"
    );
    for (i, (got, want)) in received.iter().zip(payloads.iter()).enumerate() {
        assert_eq!(
            got, want,
            "BLE_RECV[{}] payload mismatch: boundary was not preserved",
            i
        );
    }
}

// Maximum queued indication chunks (mirrors `ble.rs::MAX_INDICATION_CHUNKS`).
const MOCK_MAX_INDICATION_CHUNKS: usize = 64;

/// Mock BLE driver that simulates ATT indication fragmentation and
/// flow control, mirroring the real `EspBleDriver` pacing logic.
///
/// Key behaviours:
/// - `indicate()` fragments into chunks of (MTU − 3) bytes, enqueues
///   them, and sends the next chunk immediately (setting
///   `awaiting_confirm`) **only** when not already awaiting a confirm
///   and there were no pending chunks in the indication queue.
/// - `advance_indication()` sends the next queued chunk **only** when
///   `awaiting_confirm` is false (i.e. the ATT confirmation arrived).
/// - `simulate_confirm()` clears the flag, as `on_notify_tx` would.
struct FragmentingMockBle {
    mtu: u16,
    indication_queue: RefCell<VecDeque<Vec<u8>>>,
    awaiting_confirm: Cell<bool>,
    chunks_sent: RefCell<Vec<Vec<u8>>>,
    event_queue: RefCell<VecDeque<BleEvent>>,
    #[allow(dead_code)]
    enabled: bool,
    #[allow(dead_code)]
    pairing_replies: Vec<bool>,
}

impl FragmentingMockBle {
    fn new(mtu: u16) -> Self {
        Self {
            mtu,
            indication_queue: RefCell::new(VecDeque::new()),
            awaiting_confirm: Cell::new(false),
            chunks_sent: RefCell::new(Vec::new()),
            event_queue: RefCell::new(VecDeque::new()),
            enabled: false,
            pairing_replies: Vec::new(),
        }
    }

    /// Simulate ATT Handle Value Confirmation (on_notify_tx success).
    fn simulate_confirm(&self) {
        self.awaiting_confirm.set(false);
    }

    fn chunks_sent(&self) -> std::cell::Ref<'_, Vec<Vec<u8>>> {
        self.chunks_sent.borrow()
    }

    fn is_awaiting_confirm(&self) -> bool {
        self.awaiting_confirm.get()
    }

    fn pending_chunks(&self) -> usize {
        self.indication_queue.borrow().len()
    }

    fn send_next_chunk(&self) {
        if let Some(chunk) = self.indication_queue.borrow_mut().pop_front() {
            self.chunks_sent.borrow_mut().push(chunk);
            self.awaiting_confirm.set(true);
        }
    }
}

impl Ble for FragmentingMockBle {
    fn check_pairing_timeout(&mut self, _now_ns: u64) {}
    fn check_encryption_fallback(&mut self) {}
    fn enable(&mut self) {
        self.enabled = true;
    }
    fn disable(&mut self) {
        self.enabled = false;
        self.indication_queue.borrow_mut().clear();
        self.chunks_sent.borrow_mut().clear();
        self.event_queue.borrow_mut().clear();
        self.awaiting_confirm.set(false);
    }
    fn indicate(&mut self, data: &[u8]) {
        if data.is_empty() || self.mtu == 0 {
            return;
        }
        let chunk_size = (self.mtu.saturating_sub(ATT_HEADER_BYTES)) as usize;
        if chunk_size == 0 {
            return;
        }
        let num_chunks = data.len().div_ceil(chunk_size);
        let was_empty = self.indication_queue.borrow().is_empty();
        {
            let mut queue = self.indication_queue.borrow_mut();
            if queue.len() + num_chunks > MOCK_MAX_INDICATION_CHUNKS {
                return; // Drop the payload to mirror EspBleDriver's queue-full behavior;
                        // the production warning log is intentionally not simulated here.
            }
            for chunk in data.chunks(chunk_size) {
                queue.push_back(chunk.to_vec());
            }
        }
        if !self.awaiting_confirm.get() && was_empty {
            // Send the first chunk immediately (mirrors EspBleDriver)
            // while preserving the confirmation-gated pacing model.
            self.send_next_chunk();
        }
    }
    fn pairing_confirm_reply(&mut self, accept: bool) {
        self.pairing_replies.push(accept);
    }
    fn advance_indication(&mut self) {
        if !self.awaiting_confirm.get() && !self.indication_queue.borrow().is_empty() {
            self.send_next_chunk();
        }
    }
    fn drain_event(&mut self) -> Option<BleEvent> {
        self.event_queue.borrow_mut().pop_front()
    }
}

fn make_bridge_with_fragmenting_ble(
    mtu: u16,
) -> Link<MockSerial, MockRadio, FragmentingMockBle, NoButton> {
    Link::start(Bridge::with_ble(
        MockSerial::new(),
        MockRadio::new(),
        FragmentingMockBle::new(mtu),
        ModemCounters::new(), FIRMWARE_VERSION,
    ))
}

/// Feed `data` into the bridge serial port and poll until fully consumed.
fn feed_and_drain<R: Radio, B: Ble>(bridge: &mut Link<MockSerial, R, B, NoButton>, data: &[u8]) {
    bridge.usb.inject(data);
    let buf_len = RX_BUF_LEN;
    for _ in 0..(data.len() / buf_len + 2) {
        bridge.poll();
    }
}

#[test]
fn t0605_indication_flow_control_awaits_confirm() {
    let mtu = 247u16;
    // Payload that spans 3 chunks (244 + 244 + 12 = 500 bytes).
    // Must stay ≤ 511 bytes (serial frame body limit).
    let payload: Vec<u8> = (0u16..500).map(|i| (i & 0xFF) as u8).collect();

    let mut bridge = make_bridge_with_fragmenting_ble(mtu);

    let frame = encode_modem_frame(&ModemMessage::BleIndicate(BleIndicate {
        ble_data: payload.clone(),
    }))
    .unwrap();
    feed_and_drain(&mut bridge, &frame);

    // After indicate(), first chunk is sent, awaiting confirm.
    assert_eq!(bridge.ble.chunks_sent().len(), 1, "only 1st chunk sent");
    assert!(
        bridge.ble.is_awaiting_confirm(),
        "must be awaiting confirm after 1st chunk"
    );

    // Poll again without confirming — no new chunk.
    bridge.poll();
    assert_eq!(
        bridge.ble.chunks_sent().len(),
        1,
        "no advance without confirm"
    );

    // Simulate ATT confirmation and poll — 2nd chunk sent.
    bridge.ble.simulate_confirm();
    bridge.poll();
    assert_eq!(bridge.ble.chunks_sent().len(), 2, "2nd chunk after confirm");
    assert!(bridge.ble.is_awaiting_confirm());

    // Simulate confirm and poll — 3rd (last) chunk sent.
    bridge.ble.simulate_confirm();
    bridge.poll();
    assert_eq!(bridge.ble.chunks_sent().len(), 3, "3rd chunk after confirm");
    assert!(bridge.ble.is_awaiting_confirm());

    // Final confirm — queue is drained.
    bridge.ble.simulate_confirm();
    bridge.poll();
    assert_eq!(bridge.ble.pending_chunks(), 0, "queue fully drained");
    assert!(!bridge.ble.is_awaiting_confirm());

    // Reassembled chunks must match original payload.
    let reassembled: Vec<u8> = bridge.ble.chunks_sent().iter().flatten().copied().collect();
    assert_eq!(reassembled, payload, "reassembly must match original");
}

#[test]
fn t0605_indication_chunks_within_mtu_limit() {
    let mtu = 247u16;
    let chunk_size = mtu.saturating_sub(ATT_HEADER_BYTES) as usize;
    // 500 bytes → 3 chunks (244 + 244 + 12).
    let payload: Vec<u8> = vec![0xAB; 500];

    let mut bridge = make_bridge_with_fragmenting_ble(mtu);
    let frame = encode_modem_frame(&ModemMessage::BleIndicate(BleIndicate {
        ble_data: payload,
    }))
    .unwrap();
    feed_and_drain(&mut bridge, &frame);

    // Drain all chunks by simulating confirmations.
    while bridge.ble.pending_chunks() > 0 || bridge.ble.is_awaiting_confirm() {
        bridge.ble.simulate_confirm();
        bridge.poll();
    }

    for (i, chunk) in bridge.ble.chunks_sent().iter().enumerate() {
        assert!(
            chunk.len() <= chunk_size,
            "chunk {} is {} bytes, exceeds MTU-3 = {}",
            i,
            chunk.len(),
            chunk_size
        );
    }
}

#[test]
fn t0605_indication_single_chunk_no_fragmentation() {
    let mtu = 247u16;
    let chunk_size = mtu.saturating_sub(ATT_HEADER_BYTES) as usize;
    let payload: Vec<u8> = vec![0x42; chunk_size - 10]; // well under ATT value max

    let mut bridge = make_bridge_with_fragmenting_ble(mtu);
    let frame = encode_modem_frame(&ModemMessage::BleIndicate(BleIndicate {
        ble_data: payload.clone(),
    }))
    .unwrap();
    feed_and_drain(&mut bridge, &frame);

    assert_eq!(bridge.ble.chunks_sent().len(), 1, "no fragmentation needed");
    assert_eq!(bridge.ble.chunks_sent()[0], payload);
    assert_eq!(bridge.ble.pending_chunks(), 0, "queue empty");
}

#[test]
fn t0605_indication_exact_mtu_boundary() {
    let mtu = 247u16;
    let chunk_size = mtu.saturating_sub(ATT_HEADER_BYTES) as usize;
    let payload: Vec<u8> = vec![0x42; chunk_size]; // exactly ATT value max

    let mut bridge = make_bridge_with_fragmenting_ble(mtu);
    let frame = encode_modem_frame(&ModemMessage::BleIndicate(BleIndicate {
        ble_data: payload.clone(),
    }))
    .unwrap();
    feed_and_drain(&mut bridge, &frame);

    assert_eq!(bridge.ble.chunks_sent().len(), 1, "exact fit = 1 chunk");
    assert_eq!(bridge.ble.chunks_sent()[0], payload);
}

#[test]
fn t0605_advance_indication_blocked_while_awaiting_confirm() {
    let mtu = 247u16;
    // 500 bytes → 3 chunks (244 + 244 + 12), within serial frame limit.
    let payload: Vec<u8> = vec![0x42; 500];

    let mut bridge = make_bridge_with_fragmenting_ble(mtu);
    let frame = encode_modem_frame(&ModemMessage::BleIndicate(BleIndicate {
        ble_data: payload,
    }))
    .unwrap();
    feed_and_drain(&mut bridge, &frame);

    // First chunk sent, 2 remaining.
    assert_eq!(bridge.ble.chunks_sent().len(), 1);
    assert!(bridge.ble.is_awaiting_confirm());
    assert_eq!(bridge.ble.pending_chunks(), 2);

    // 10 polls without confirm — still only 1 chunk sent.
    for _ in 0..10 {
        bridge.poll();
    }
    assert_eq!(
        bridge.ble.chunks_sent().len(),
        1,
        "must not advance without confirm"
    );
    assert_eq!(bridge.ble.pending_chunks(), 2, "queue unchanged");
}

#[test]
fn t0605_fragmenting_ble_empty_indicate_discarded() {
    let mut bridge = make_bridge_with_fragmenting_ble(247);
    bridge.ble.indicate(&[]);
    assert!(bridge.ble.chunks_sent().is_empty());
    assert!(!bridge.ble.is_awaiting_confirm());
}

#[test]
fn t0605_indication_queue_overflow_rejected() {
    // MTU 247 → chunk_size = 244. 65 chunks × 244 bytes = 15,860 bytes.
    let mut bridge = make_bridge_with_fragmenting_ble(247);
    let chunk_size = (247 - ATT_HEADER_BYTES) as usize; // 244
    let payload_65_chunks = vec![0x42u8; chunk_size * 65];
    bridge.ble.indicate(&payload_65_chunks);
    // All 65 chunks should be rejected (exceeds MOCK_MAX_INDICATION_CHUNKS=64).
    assert!(
        bridge.ble.chunks_sent().is_empty(),
        "indication exceeding 64-chunk limit must be silently dropped"
    );
    assert_eq!(bridge.ble.pending_chunks(), 0);
}

#[test]
fn t0605_indication_queue_at_boundary_accepted() {
    let mut bridge = make_bridge_with_fragmenting_ble(247);
    let chunk_size = (247 - ATT_HEADER_BYTES) as usize; // 244
    let payload_64_chunks = vec![0x42u8; chunk_size * 64];
    bridge.ble.indicate(&payload_64_chunks);
    // Exactly 64 chunks — first chunk sent immediately, 63 queued.
    assert_eq!(bridge.ble.chunks_sent().len(), 1, "first chunk sent");
    assert_eq!(bridge.ble.pending_chunks(), 63, "remaining 63 queued");
}

#[test]
fn t0613_write_long_reassembled_as_single_ble_recv() {
    let mut bridge = make_bridge_with_ble();
    // 500 bytes exceeds MTU-3 = 244, which would trigger Write Long
    // on a real BLE stack. NimBLE reassembles before on_write fires.
    let large_write: Vec<u8> = (0u16..500).map(|i| (i & 0xFF) as u8).collect();
    bridge.ble.inject_event(BleEvent::Recv(large_write.clone()));
    bridge.poll();

    let tx = bridge.usb.take_tx();
    let (msg, _) = decode_modem_frame(&tx).unwrap();
    match msg {
        ModemMessage::BleRecv(r) => {
            assert_eq!(
                r.ble_data, large_write,
                "Write Long payload must arrive as single BLE_RECV"
            );
        }
        _ => panic!("expected BleRecv"),
    }
}

#[test]
fn t0613_ble_recv_payload_forwarded_unmodified() {
    let mut bridge = make_bridge_with_ble();
    let all_bytes: Vec<u8> = (0u16..256).map(|i| i as u8).collect();
    bridge.ble.inject_event(BleEvent::Recv(all_bytes.clone()));
    bridge.poll();

    let tx = bridge.usb.take_tx();
    let (msg, _) = decode_modem_frame(&tx).unwrap();
    match msg {
        ModemMessage::BleRecv(r) => {
            assert_eq!(r.ble_data, all_bytes, "payload must be bit-exact");
        }
        _ => panic!("expected BleRecv"),
    }
}

#[test]
fn t0613b_empty_gatt_write_no_ble_recv() {
    // Part 1: Baseline sanity — no BLE event queued means no BLE_RECV
    // output. This does not exercise empty-write discard logic (which is
    // a BLE driver responsibility), only verifies the bridge stays quiet.
    let mut bridge = make_bridge_with_fragmenting_ble(247);
    bridge.poll();
    assert!(
        bridge.usb.take_tx().is_empty(),
        "no BLE_RECV when BLE layer emits nothing"
    );

    // Part 2: Inject an explicit empty BleEvent::Recv to verify the
    // bridge handles it gracefully (defense-in-depth).
    let mut bridge2 = make_bridge_with_ble();
    bridge2.ble.inject_event(BleEvent::Recv(vec![]));
    bridge2.poll();

    // The bridge forwards whatever the BLE layer produces. The codec may
    // accept or reject empty BLE_RECV; either way no crash. We assert
    // that if a frame is produced, it is a BLE_RECV with empty payload,
    // and that no other modem messages are synthesized.
    let tx2 = bridge2.usb.take_tx();
    let mut decoder2 = FrameDecoder::new();
    decoder2.push(&tx2);

    // The codec is allowed to reject empty BLE_RECV frames; for this
    // test, a decode error is treated as "no valid message produced".
    let decoded = decoder2.decode().unwrap_or_default();
    if let Some(msg) = decoded {
        match msg {
            ModemMessage::BleRecv(r) => {
                assert!(
                    r.ble_data.is_empty(),
                    "expected empty ble_data for empty BleEvent::Recv"
                );
            }
            other => {
                panic!(
                    "unexpected modem message for empty BleEvent::Recv: {:?}",
                    other
                );
            }
        }
    } else {
        // No frame forwarded is also acceptable: empty BLE_RECV dropped.
        assert!(
            tx2.is_empty(),
            "decoder returned None but serial buffer was not empty"
        );
    }
}

#[test]
fn t0613_multiple_write_longs_separate_ble_recv() {
    let mut bridge = make_bridge_with_ble();
    let write1: Vec<u8> = vec![0xAA; 300];
    let write2: Vec<u8> = vec![0xBB; 400];
    bridge.ble.inject_event(BleEvent::Recv(write1.clone()));
    bridge.ble.inject_event(BleEvent::Recv(write2.clone()));
    bridge.poll();

    let tx = bridge.usb.take_tx();
    let mut decoder = FrameDecoder::new();
    decoder.push(&tx);

    let msg1 = decoder.decode().unwrap().expect("first BLE_RECV");
    let msg2 = decoder.decode().unwrap().expect("second BLE_RECV");

    match (msg1, msg2) {
        (ModemMessage::BleRecv(r1), ModemMessage::BleRecv(r2)) => {
            assert_eq!(r1.ble_data, write1, "first Write Long intact");
            assert_eq!(r2.ble_data, write2, "second Write Long intact");
        }
        _ => panic!("expected two BleRecv messages"),
    }
}

/// Mock serial port that can simulate write failures (TX buffer full).
struct BackpressureSerial {
    rx_data: Vec<u8>,
    tx_data: Vec<u8>,
    connected: bool,
    reconnect_once: bool,
    /// When true, `write()` returns false (simulating full TX buffer).
    reject_writes: bool,
    write_attempt_count: usize,
}

impl BackpressureSerial {
    fn new() -> Self {
        Self {
            rx_data: Vec::new(),
            tx_data: Vec::new(),
            connected: true,
            reconnect_once: false,
            reject_writes: false,
            write_attempt_count: 0,
        }
    }

    fn take_tx(&mut self) -> Vec<u8> {
        std::mem::take(&mut self.tx_data)
    }
}

impl SerialPort for BackpressureSerial {
    fn connected(&self) -> bool {
        self.connected
    }
    fn read(&mut self, buf: &mut [u8]) -> (usize, bool) {
        let reconnected = self.reconnect_once;
        self.reconnect_once = false;
        let n = std::cmp::min(buf.len(), self.rx_data.len());
        buf[..n].copy_from_slice(&self.rx_data[..n]);
        self.rx_data.drain(..n);
        (n, reconnected)
    }
    fn write(&mut self, data: &[u8]) -> bool {
        self.write_attempt_count += 1;
        if self.reject_writes {
            return false;
        }
        self.tx_data.extend_from_slice(data);
        true
    }
    fn is_connected(&self) -> bool {
        self.connected
    }
}

#[test]
fn t0403_tx_backpressure_drops_frames_no_crash() {
    let usb = BackpressureSerial::new();
    let mut bridge: Link<BackpressureSerial, MockRadio, NoBle, NoButton> =
        Link::start(Bridge::new(usb, MockRadio::new(), ModemCounters::new(), FIRMWARE_VERSION));

    let peer = [0x11, 0x22, 0x33, 0x44, 0x55, 0x66];

    // Simulate TX buffer full.
    bridge.usb.reject_writes = true;

    // Flood with radio frames.
    for i in 0u8..32 {
        bridge.radio.inject_rx(RecvFrame {
            peer_mac: peer,
            rssi: -40,
            frame_data: vec![i],
        });
    }

    // Poll twice — should not crash or block.
    bridge.poll();
    bridge.poll();

    // All frames consumed from radio queue.
    assert!(
        bridge.radio.drain_one().is_none(),
        "radio queue must be drained"
    );

    // No frames forwarded (writes rejected).
    assert_eq!(
        bridge.counters.rx_count(),
        0,
        "rx_count must not increment on write failure"
    );

    // Write attempts were made (bridge tried to forward).
    assert!(
        bridge.usb.write_attempt_count > 0,
        "bridge must attempt writes"
    );
}

#[test]
fn t0403_tx_backpressure_recovery() {
    let usb = BackpressureSerial::new();
    let mut bridge: Link<BackpressureSerial, MockRadio, NoBle, NoButton> =
        Link::start(Bridge::new(usb, MockRadio::new(), ModemCounters::new(), FIRMWARE_VERSION));

    let peer = [1, 2, 3, 4, 5, 6];

    // Phase 1: Reject writes.
    bridge.usb.reject_writes = true;
    for i in 0u8..5 {
        bridge.radio.inject_rx(RecvFrame {
            peer_mac: peer,
            rssi: -50,
            frame_data: vec![i],
        });
    }
    bridge.poll();
    assert_eq!(bridge.counters.rx_count(), 0, "all dropped under pressure");
    bridge.usb.take_tx(); // discard (empty)

    // Phase 2: Restore writes.
    bridge.usb.reject_writes = false;
    for i in 10u8..13 {
        bridge.radio.inject_rx(RecvFrame {
            peer_mac: peer,
            rssi: -55,
            frame_data: vec![i],
        });
    }
    bridge.poll();
    assert_eq!(
        bridge.counters.rx_count(),
        3,
        "3 frames forwarded after recovery"
    );

    // Verify forwarded frames are decodable.
    let tx = bridge.usb.take_tx();
    let mut decoder = FrameDecoder::new();
    decoder.push(&tx);
    let mut count = 0;
    while let Ok(Some(msg)) = decoder.decode() {
        assert!(matches!(msg, ModemMessage::RecvFrame(_)));
        count += 1;
    }
    assert_eq!(count, 3);
}

#[test]
fn t0403_tx_backpressure_ble_events_no_crash() {
    let usb = BackpressureSerial::new();
    let mut bridge: Link<BackpressureSerial, MockRadio, MockBle, NoButton> =
        Link::start(Bridge::with_ble(usb, MockRadio::new(), MockBle::new(), ModemCounters::new(), FIRMWARE_VERSION));

    bridge.usb.reject_writes = true;

    // Inject BLE events while TX is blocked.
    let peer = [0xAA, 0xBB, 0xCC, 0xDD, 0xEE, 0xFF];
    bridge.ble.inject_event(BleEvent::Recv(vec![0x01, 0x02]));
    bridge.ble.inject_event(BleEvent::Connected {
        peer_addr: peer,
        mtu: 247,
    });
    bridge.ble.inject_event(BleEvent::Disconnected {
        peer_addr: peer,
        reason: 0x13,
    });

    // Must not crash or block.
    bridge.poll();
    assert!(bridge.usb.take_tx().is_empty(), "writes rejected");

    // Restore writes and verify bridge still works.
    bridge.usb.reject_writes = false;
    bridge
        .ble
        .inject_event(BleEvent::PairingConfirm { passkey: 42 });
    bridge.poll();
    let tx = bridge.usb.take_tx();
    let (msg, _) = decode_modem_frame(&tx).unwrap();
    assert!(
        matches!(msg, ModemMessage::BlePairingConfirm(_)),
        "bridge must recover after backpressure clears"
    );
}

#[test]
fn default_channel_is_one_at_boot() {
    let mut bridge = make_bridge();
    // Radio layer should start on channel 1.
    assert_eq!(bridge.radio.channel(), 1);

    // STATUS should also report channel 1.
    let frame = encode_modem_frame(&ModemMessage::GetStatus).unwrap();
    bridge.usb.inject(&frame);
    bridge.poll();
    let tx = bridge.usb.take_tx();
    let (msg, _) = decode_modem_frame(&tx).unwrap();
    match msg {
        ModemMessage::Status(s) => {
            assert_eq!(s.channel, 1, "default channel must be 1 at boot");
        }
        _ => panic!("expected Status"),
    }
}

#[test]
fn ble_enable_idempotent() {
    let mut bridge = make_bridge_with_ble();

    // First BLE_ENABLE.
    let enable = encode_modem_frame(&ModemMessage::BleEnable).unwrap();
    bridge.usb.inject(&enable);
    bridge.poll();
    assert!(bridge.ble.enabled);
    bridge.usb.take_tx(); // discard

    // Simulate an active BLE connection.
    let peer = [0x11, 0x22, 0x33, 0x44, 0x55, 0x66];
    bridge.ble.inject_event(BleEvent::Connected {
        peer_addr: peer,
        mtu: 247,
    });
    bridge.poll();
    bridge.usb.take_tx(); // discard BLE_CONNECTED

    // Second BLE_ENABLE — must not disrupt the connection.
    bridge.usb.inject(&enable);
    bridge.poll();
    assert!(bridge.ble.enabled, "BLE must remain enabled");

    // No BLE_DISCONNECTED event should have been emitted.
    let tx = bridge.usb.take_tx();
    assert!(
        tx.is_empty(),
        "duplicate BLE_ENABLE must not produce output or disconnect"
    );

    // Bridge always retries enable to recover from transient failures.
    assert_eq!(
        bridge.ble.enable_count.get(),
        2,
        "duplicate BLE_ENABLE should retry Ble::enable()"
    );

    // Connection should still be usable — indicate data to BLE client.
    let indicate = encode_modem_frame(&ModemMessage::BleIndicate(BleIndicate {
        ble_data: vec![0xAB, 0xCD],
    }))
    .unwrap();
    bridge.usb.inject(&indicate);
    bridge.poll();
    assert_eq!(
        bridge.ble.indicated.len(),
        1,
        "BLE indicate must still work after duplicate enable"
    );
}

#[test]
fn ble_disable_idempotent() {
    let mut bridge = make_bridge_with_ble();

    // BLE starts disabled — first BLE_DISABLE is already a duplicate.
    assert!(!bridge.ble.enabled);
    let disable = encode_modem_frame(&ModemMessage::BleDisable).unwrap();
    bridge.usb.inject(&disable);
    bridge.poll();
    assert!(!bridge.ble.enabled);
    assert!(bridge.usb.take_tx().is_empty(), "no output expected");

    // Second BLE_DISABLE.
    bridge.usb.inject(&disable);
    bridge.poll();
    assert!(!bridge.ble.enabled);
    assert!(
        bridge.usb.take_tx().is_empty(),
        "duplicate BLE_DISABLE must not produce output"
    );
    // Bridge always retries disable to recover from transient failures.
    // The initial construction disable + 2 explicit calls = 3 total.
    assert_eq!(
        bridge.ble.disable_count.get(),
        3,
        "duplicate BLE_DISABLE should retry Ble::disable()"
    );

    // Bridge should still be operational.
    let frame = encode_modem_frame(&ModemMessage::GetStatus).unwrap();
    bridge.usb.inject(&frame);
    bridge.poll();
    let tx = bridge.usb.take_tx();
    let (msg, _) = decode_modem_frame(&tx).unwrap();
    assert!(matches!(msg, ModemMessage::Status(_)));
}

#[test]
fn tx_fail_count_reported_in_status() {
    let mut bridge = make_bridge();

    // Simulate the ESP-NOW driver reporting 3 tx failures.
    bridge.counters.inc_tx_fail();
    bridge.counters.inc_tx_fail();
    bridge.counters.inc_tx_fail();
    // Also simulate some successful sends.
    bridge.counters.inc_tx();
    bridge.counters.inc_tx();

    // Query status.
    let frame = encode_modem_frame(&ModemMessage::GetStatus).unwrap();
    bridge.usb.inject(&frame);
    bridge.poll();
    let tx = bridge.usb.take_tx();
    let (msg, _) = decode_modem_frame(&tx).unwrap();
    match msg {
        ModemMessage::Status(s) => {
            assert_eq!(
                s.tx_fail_count, 3,
                "tx_fail_count must reflect failed sends"
            );
            assert_eq!(s.tx_count, 2, "tx_count must reflect successful sends");
        }
        _ => panic!("expected Status"),
    }
}

#[test]
fn frames_during_usb_disconnect_are_discarded() {
    let mut bridge = make_bridge();
    let peer = [0x11, 0x22, 0x33, 0x44, 0x55, 0x66];

    // Simulate USB disconnect.
    bridge.usb.set_connected(false);

    // Inject radio frames during the disconnect.
    for i in 0u8..5 {
        bridge.radio.inject_rx(RecvFrame {
            peer_mac: peer,
            rssi: -50,
            frame_data: vec![i],
        });
    }

    // Poll while disconnected — frames should be drained but writes fail.
    bridge.poll();

    // Reconnect USB.
    bridge.usb.set_connected(true);
    bridge.usb.set_reconnect_once();
    bridge.poll();

    // Only MODEM_READY should appear — no stale RECV_FRAMEs.
    // Decode the entire tx buffer to catch any trailing messages.
    let tx = bridge.usb.take_tx();
    let mut remaining = tx.as_slice();
    let mut messages = Vec::new();
    while !remaining.is_empty() {
        let (msg, consumed) =
            decode_modem_frame(remaining).expect("failed to decode frame from tx buffer");
        messages.push(msg);
        remaining = &remaining[consumed..];
    }
    assert_eq!(
        messages.len(),
        1,
        "expected exactly one message after reconnect, got {}",
        messages.len()
    );
    assert!(
        matches!(messages[0], ModemMessage::ModemReady(_)),
        "only MODEM_READY expected after reconnect, got {:?}",
        messages[0]
    );

    // Verify the radio queue is empty (frames were consumed, not re-queued).
    assert!(
        bridge.radio.drain_one().is_none(),
        "radio queue must be empty — stale frames must not survive reconnect"
    );
}

#[test]
fn peer_table_cleared_on_channel_change() {
    let mut bridge = make_bridge();

    // Send frames to three distinct peers to populate the peer table.
    for i in 1u8..=3 {
        let peer = [i, 0, 0, 0, 0, 0];
        let sf = ModemMessage::SendFrame(SendFrame {
            peer_mac: peer,
            frame_data: vec![0xAA],
        });
        let frame = encode_modem_frame(&sf).unwrap();
        bridge.usb.inject(&frame);
    }
    bridge.poll();
    assert_eq!(
        bridge.radio.peer_count(),
        3,
        "should have 3 peers before channel change"
    );

    // Change channel.
    let set_ch = encode_modem_frame(&ModemMessage::SetChannel(6)).unwrap();
    bridge.usb.inject(&set_ch);
    bridge.poll();
    bridge.usb.take_tx(); // discard SET_CHANNEL_ACK

    // Peer table must be empty after channel change.
    assert_eq!(
        bridge.radio.peer_count(),
        0,
        "peer table must be cleared on channel change"
    );
}

#[test]
fn espnow_resumes_after_channel_scan() {
    let mut bridge = make_bridge();

    // Perform a channel scan.
    let scan = encode_modem_frame(&ModemMessage::ScanChannels).unwrap();
    bridge.usb.inject(&scan);
    bridge.poll();
    let tx = bridge.usb.take_tx();
    let mut remaining = tx.as_slice();
    let mut scan_results = Vec::new();
    while !remaining.is_empty() {
        let (msg, consumed) =
            decode_modem_frame(remaining).expect("failed to decode frame from tx buffer");
        if let ModemMessage::ScanResult(_) = &msg {
            scan_results.push(msg);
        }
        remaining = &remaining[consumed..];
    }
    assert!(!scan_results.is_empty(), "expected at least one ScanResult");

    // Send a frame after scan — radio TX must work.
    let peer = [1, 2, 3, 4, 5, 6];
    let sf = ModemMessage::SendFrame(SendFrame {
        peer_mac: peer,
        frame_data: vec![0xDE, 0xAD],
    });
    let frame = encode_modem_frame(&sf).unwrap();
    bridge.usb.inject(&frame);
    bridge.poll();
    assert_eq!(bridge.radio.sent.len(), 1, "radio TX must work after scan");
    assert_eq!(bridge.radio.sent[0].0, vec![0xDE, 0xAD]);

    // Receive a frame after scan — radio RX must work.
    bridge.radio.inject_rx(RecvFrame {
        peer_mac: peer,
        rssi: -45,
        frame_data: vec![0xBE, 0xEF],
    });
    bridge.poll();
    let tx = bridge.usb.take_tx();
    let (msg, _) = decode_modem_frame(&tx).unwrap();
    match msg {
        ModemMessage::RecvFrame(rf) => {
            assert_eq!(rf.frame_data, vec![0xBE, 0xEF]);
            assert_eq!(rf.peer_mac, peer);
        }
        _ => panic!("expected RecvFrame after scan"),
    }
}

#[test]
fn uptime_accuracy_reflects_elapsed_time() {
    // The boot lies seven seconds back.
    let now_ms: u64 = 60_000;
    let boot_ms = now_ms - 7_000;
    let counters = ModemCounters::new_with_boot_time(boot_ms);
    let mut bridge = Link::start(Bridge::new(MockSerial::new(), MockRadio::new(), counters, FIRMWARE_VERSION));

    bridge.now_ns = now_ms * 1_000_000;

    let frame = encode_modem_frame(&ModemMessage::GetStatus).unwrap();
    bridge.usb.inject(&frame);
    bridge.poll();
    let tx = bridge.usb.take_tx();
    let (msg, _) = decode_modem_frame(&tx).unwrap();
    match msg {
        ModemMessage::Status(s) => {
            let expected = 7u64;
            let lower = expected.saturating_sub(1);
            let upper = expected + 1;
            let uptime = u64::from(s.uptime_s);
            assert!(
                (lower..=upper).contains(&uptime),
                "uptime_s should be close to {}s (±1s), got {}",
                expected,
                uptime
            );
        }
        _ => panic!("expected Status"),
    }
}

#[test]
fn rapid_radio_burst_one_recv_per_frame() {
    let mut bridge = make_bridge();
    let peer = [0x11, 0x22, 0x33, 0x44, 0x55, 0x66];
    let total: usize = 32;

    // Inject a burst of frames.
    for i in 0..total {
        bridge.radio.inject_rx(RecvFrame {
            peer_mac: peer,
            rssi: -30 - (i as i8 % 30),
            frame_data: vec![(i & 0xFF) as u8, ((i >> 8) & 0xFF) as u8],
        });
    }

    // Drain across multiple poll cycles (cap is MAX_RX_FRAMES_PER_POLL = 16).
    let mut all_tx = Vec::new();
    let max_polls = total / MAX_RX_FRAMES_PER_POLL + 2;
    for _ in 0..max_polls {
        bridge.poll();
        all_tx.extend_from_slice(&bridge.usb.take_tx());
    }

    // Decode all forwarded frames and verify 1:1 mapping.
    let mut decoder = FrameDecoder::new();
    decoder.push(&all_tx);
    let mut recv_count = 0usize;
    loop {
        match decoder.decode() {
            Ok(Some(msg)) => match msg {
                ModemMessage::RecvFrame(rf) => {
                    assert_eq!(
                        rf.frame_data,
                        vec![(recv_count & 0xFF) as u8, ((recv_count >> 8) & 0xFF) as u8],
                        "frame {} payload mismatch",
                        recv_count
                    );
                    assert_eq!(rf.peer_mac, peer);
                    recv_count += 1;
                }
                _ => panic!("unexpected message type in burst output"),
            },
            Ok(None) => break,
            Err(e) => panic!("failed to decode modem frame in burst output: {:?}", e),
        }
    }
    assert_eq!(
        recv_count, total,
        "exactly one RECV_FRAME per injected frame (got {}, expected {})",
        recv_count, total
    );
    assert_eq!(bridge.counters.rx_count(), total as u32);
}

/// Mock ButtonPoll that fires a single event on a chosen poll count.
struct MockButtonPoll {
    polls: usize,
    fire_on_poll: usize,
}

impl MockButtonPoll {
    fn new(fire_on_poll: usize) -> Self {
        Self {
            polls: 0,
            fire_on_poll,
        }
    }
}

impl ButtonPoll for MockButtonPoll {
    fn poll(&mut self, _now_ns: u64) -> Option<ButtonType> {
        self.polls += 1;
        if self.polls == self.fire_on_poll {
            Some(BUTTON_TYPE_SHORT)
        } else {
            None
        }
    }
}

#[test]
fn button_event_bridge_integration() {
    // Verify that the bridge emits EVENT_BUTTON when the button poller
    // fires. Uses a deterministic mock instead of wall-clock sleeps.
    let mut bridge = Link::start(Bridge::with_ble_and_button(
        MockSerial::new(),
        MockRadio::new(),
        MockBle::new(),
        MockButtonPoll::new(2),
        ModemCounters::new(), FIRMWARE_VERSION,
    ));

    // First poll: no event. Second poll: MockButtonPoll fires.
    bridge.poll();
    bridge.poll();

    // Decode the EVENT_BUTTON from the serial output.
    let tx = bridge.usb.take_tx();
    assert!(!tx.is_empty(), "expected EVENT_BUTTON on serial output");

    // Find the EVENT_BUTTON frame in the output (there may be a
    // MODEM_READY from with_ble_and_button's disable call too).
    let mut decoder = FrameDecoder::new();
    decoder.push(&tx);
    let mut found_button = false;
    loop {
        match decoder.decode() {
            Ok(Some(ModemMessage::EventButton(eb))) => {
                assert_eq!(eb.button_type, BUTTON_TYPE_SHORT);
                found_button = true;
            }
            Ok(Some(_)) => {} // skip MODEM_READY etc.
            Ok(None) => break,
            Err(_) => break,
        }
    }
    assert!(found_button, "EVENT_BUTTON not found in serial output");
}

#[test]
fn version_components_are_decimal() {
    assert_eq!(parse_version_component("0"), 0);
    assert_eq!(parse_version_component("17"), 17);
    assert_eq!(parse_version_component("255"), 255);
}

#[test]
fn only_written_frames_are_counted() {
    let mut bridge = make_bridge();
    bridge.usb.set_connected(false);
    assert!(!bridge.is_usb_connected());
    bridge.radio.inject_rx(RecvFrame {
        peer_mac: [1; 6],
        rssi: -40,
        frame_data: vec![1],
    });
    bridge.poll();
    assert_eq!(bridge.counters.rx_count(), 0);
    assert_eq!(bridge.counters.tx_fail_count(), 0);
}

#[test]
fn reset_drops_queued_ble_events() {
    let mut bridge = make_bridge_with_ble();
    for i in 0..300u32 {
        bridge.ble.inject_event(BleEvent::PairingConfirm { passkey: i });
    }
    let reset = encode_modem_frame(&ModemMessage::Reset).unwrap();
    bridge.usb.inject(&reset);
    bridge.poll();
    // At most 256 events are drained by a reset, and 16 forwarded per poll.
    let mut decoder = FrameDecoder::new();
    decoder.push(&bridge.usb.take_tx());
    assert!(matches!(decoder.decode(), Ok(Some(ModemMessage::ModemReady(_)))));
    let mut seen = Vec::new();
    while let Ok(Some(ModemMessage::BlePairingConfirm(c))) = decoder.decode() {
        seen.push(c.passkey);
    }
    assert_eq!(seen, (256..272).collect::<Vec<u32>>());
}

#[test]
fn messages_have_labels() {
    assert_eq!(msg_type_label(&ModemMessage::Reset), "RESET");
    assert_eq!(msg_type_label(&ModemMessage::SetChannel(1)), "SET_CHANNEL");
    assert_eq!(
        msg_type_label(&ModemMessage::BlePairingConfirmReply(BlePairingConfirmReply {
            accept: true
        })),
        "BLE_PAIRING_CONFIRM_REPLY"
    );
    assert_eq!(
        msg_type_label(&ModemMessage::Unknown {
            msg_type: 9,
            body: vec![]
        }),
        "UNKNOWN"
    );
}

// A modem as its gateway sees it.

type PlainLink = Link<MockSerial, MockRadio, NoBle, NoButton>;

fn open_modem() -> PlainLink {
    Link::start(Bridge::new(
        MockSerial::new(),
        MockRadio::new(),
        ModemCounters::new(),
        [0, 1, 0, 0],
    ))
}

fn send(modem: &mut PlainLink, msg: &ModemMessage) {
    let frame = encode_modem_frame(msg).expect("encode failed");
    modem.usb.inject(&frame);
}

/// Let the modem run until it has taken all input, and read its answers.
fn recv(modem: &mut PlainLink) -> Vec<ModemMessage> {
    while !modem.usb.rx_data.is_empty() {
        modem.poll();
    }
    let mut decoder = FrameDecoder::new();
    decoder.push(&modem.usb.take_tx());
    let mut messages = Vec::new();
    while let Ok(Some(msg)) = decoder.decode() {
        messages.push(msg);
    }
    messages
}

fn recv_one(modem: &mut PlainLink) -> ModemMessage {
    let msgs = recv(modem);
    assert!(!msgs.is_empty(), "no response received");
    msgs.into_iter().next().unwrap()
}

fn reset_and_wait(modem: &mut PlainLink) -> ModemReady {
    recv(modem);
    send(modem, &ModemMessage::Reset);
    for msg in recv(modem) {
        if let ModemMessage::ModemReady(mr) = msg {
            return mr;
        }
    }
    panic!("MODEM_READY not received after RESET");
}

#[test]
fn t0101_modem_ready_after_reset() {
    let mut modem = open_modem();
    let mr = reset_and_wait(&mut modem);
    assert_eq!(mr.firmware_version, [0, 1, 0, 0]);
    assert_ne!(mr.mac_address, [0; 6], "MAC should not be all zeros");
}

#[test]
fn t0102_get_status_after_reset() {
    let mut modem = open_modem();
    reset_and_wait(&mut modem);
    send(&mut modem, &ModemMessage::GetStatus);
    match recv_one(&mut modem) {
        ModemMessage::Status(s) => {
            assert_eq!(s.channel, 1, "channel should be 1 after RESET");
            assert_eq!(s.tx_count, 0);
            assert_eq!(s.rx_count, 0);
            assert_eq!(s.tx_fail_count, 0);
        }
        other => panic!("expected Status, got {:?}", other),
    }
}

#[test]
fn t0104_unknown_type_discarded() {
    let mut modem = open_modem();
    reset_and_wait(&mut modem);
    send(
        &mut modem,
        &ModemMessage::Unknown {
            msg_type: 0x7F,
            body: vec![1, 2, 3],
        },
    );
    send(&mut modem, &ModemMessage::GetStatus);
    let msg = recv_one(&mut modem);
    assert!(
        matches!(msg, ModemMessage::Status(_)),
        "modem should still respond after unknown type"
    );
}

#[test]
fn t0205_set_channel() {
    let mut modem = open_modem();
    reset_and_wait(&mut modem);
    send(&mut modem, &ModemMessage::SetChannel(6));
    assert_eq!(recv_one(&mut modem), ModemMessage::SetChannelAck(6));

    send(&mut modem, &ModemMessage::GetStatus);
    match recv_one(&mut modem) {
        ModemMessage::Status(s) => assert_eq!(s.channel, 6),
        other => panic!("expected Status, got {:?}", other),
    }
}

#[test]
fn t0206_scan_channels() {
    let mut modem = open_modem();
    reset_and_wait(&mut modem);
    send(&mut modem, &ModemMessage::ScanChannels);
    match recv_one(&mut modem) {
        ModemMessage::ScanResult(sr) => {
            assert_eq!(sr.entries.len(), 14, "should have 14 channel entries");
            for entry in &sr.entries {
                assert!(
                    entry.channel >= 1 && entry.channel <= 14,
                    "invalid channel {}",
                    entry.channel
                );
            }
        }
        other => panic!("expected ScanResult, got {:?}", other),
    }
}

#[test]
fn t0300_reset_clears_state() {
    let mut modem = open_modem();
    reset_and_wait(&mut modem);

    send(&mut modem, &ModemMessage::SetChannel(11));
    recv_one(&mut modem); // consume ACK

    let peer = [0xFF, 0xFF, 0xFF, 0xFF, 0xFF, 0xFF];
    for _ in 0..3 {
        send(
            &mut modem,
            &ModemMessage::SendFrame(SendFrame {
                peer_mac: peer,
                frame_data: vec![0xDE, 0xAD],
            }),
        );
    }
    recv(&mut modem);
    // The radio driver counts what it was given.
    for _ in 0..modem.radio.sent.len() {
        modem.counters.inc_tx();
    }

    send(&mut modem, &ModemMessage::GetStatus);
    match recv_one(&mut modem) {
        ModemMessage::Status(s) => {
            assert!(s.tx_count > 0, "tx_count should be > 0 before RESET");
        }
        other => panic!("expected Status before RESET, got {:?}", other),
    }

    reset_and_wait(&mut modem);
    send(&mut modem, &ModemMessage::GetStatus);
    match recv_one(&mut modem) {
        ModemMessage::Status(s) => {
            assert_eq!(s.channel, 1, "channel should reset to 1");
            assert_eq!(s.tx_count, 0, "tx_count should be 0");
            assert_eq!(s.rx_count, 0, "rx_count should be 0");
            assert_eq!(s.tx_fail_count, 0, "tx_fail_count should be 0");
        }
        other => panic!("expected Status, got {:?}", other),
    }
}

#[test]
fn t0303_repeated_reset() {
    let mut modem = open_modem();
    for i in 0..5 {
        let mr = reset_and_wait(&mut modem);
        assert_eq!(mr.firmware_version, [0, 1, 0, 0], "iteration {} failed", i);
    }
}

#[test]
fn t0401_invalid_channel() {
    let mut modem = open_modem();
    reset_and_wait(&mut modem);
    for channel in [0, 15] {
        send(&mut modem, &ModemMessage::SetChannel(channel));
        match recv_one(&mut modem) {
            ModemMessage::Error(e) => {
                assert_eq!(e.error_code, MODEM_ERR_CHANNEL_SET_FAILED);
            }
            other => panic!("expected Error for channel {}, got {:?}", channel, other),
        }
    }

    send(&mut modem, &ModemMessage::GetStatus);
    match recv_one(&mut modem) {
        ModemMessage::Status(s) => assert_eq!(s.channel, 1, "channel should still be 1"),
        other => panic!("expected Status, got {:?}", other),
    }
}

#[test]
fn t0402_framing_error_recovery() {
    let mut modem = open_modem();
    reset_and_wait(&mut modem);
    modem.usb.inject(&[0xFF; 100]);
    let mr = reset_and_wait(&mut modem);
    assert_eq!(mr.firmware_version, [0, 1, 0, 0]);
}

#[test]
fn t0302_status_uptime() {
    let mut modem = open_modem();
    reset_and_wait(&mut modem);
    modem.now_ns += 2_000_000_000;
    send(&mut modem, &ModemMessage::GetStatus);
    match recv_one(&mut modem) {
        ModemMessage::Status(s) => {
            assert!(
                s.uptime_s >= 1,
                "uptime should be >= 1s, got {}",
                s.uptime_s
            );
            assert_eq!(s.uptime_s, 2);
        }
        other => panic!("expected Status, got {:?}", other),
    }
}
