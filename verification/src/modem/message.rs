//! Messages on the serial link between the modem and the gateway, and the
//! events of the BLE layer.

use vstd::prelude::*;

use crate::modem::espnow::{RecvFrame, RxFrame};

verus! {

/// Classification of a button press.
#[derive(Clone, Copy, Debug, PartialEq, Eq, Structural)]
pub enum ButtonType {
    /// Held for less than a second.
    Short,
    /// Held for a second or longer.
    Long,
}

/// A press of less than a second.
pub const BUTTON_TYPE_SHORT: ButtonType = ButtonType::Short;

/// A press of a second or longer.
pub const BUTTON_TYPE_LONG: ButtonType = ButtonType::Long;

/// Code of an ERROR message.
#[derive(Clone, Copy, Debug, PartialEq, Eq, Structural)]
pub enum ModemErrorCode {
    /// The radio could not be set to the requested channel.
    ChannelSetFailed,
    /// A code that the modem itself never sends.
    Other(u8),
}

/// The radio could not be set to the requested channel.
pub const MODEM_ERR_CHANNEL_SET_FAILED: ModemErrorCode = ModemErrorCode::ChannelSetFailed;

/// SEND_FRAME: transmit `frame_data` to a peer.
#[derive(Debug, PartialEq, Eq)]
pub struct SendFrame {
    pub peer_mac: [u8; 6],
    pub frame_data: Vec<u8>,
}

/// MODEM_READY: the modem has booted or was reset.
#[derive(Debug, PartialEq, Eq)]
pub struct ModemReady {
    pub firmware_version: [u8; 4],
    pub mac_address: [u8; 6],
}

/// STATUS: the counters and the current channel.
#[derive(Clone, Copy, Debug, PartialEq, Eq, Structural)]
pub struct ModemStatus {
    pub channel: u8,
    pub uptime_s: u32,
    pub tx_count: u32,
    pub rx_count: u32,
    pub tx_fail_count: u32,
}

/// What a channel scan found on one channel.
#[derive(Clone, Copy, Debug, PartialEq, Eq, Structural)]
pub struct ScanEntry {
    pub channel: u8,
    pub ap_count: u8,
    pub strongest_rssi: i8,
}

/// SCAN_RESULT: one entry per channel.
#[derive(Debug, PartialEq, Eq)]
pub struct ScanResult {
    pub entries: Vec<ScanEntry>,
}

/// ERROR: a command failed.
#[derive(Debug, PartialEq, Eq)]
pub struct ModemError {
    pub error_code: ModemErrorCode,
    pub message: Vec<u8>,
}

/// BLE_INDICATE: send `ble_data` to the connected phone.
#[derive(Debug, PartialEq, Eq)]
pub struct BleIndicate {
    pub ble_data: Vec<u8>,
}

/// BLE_PAIRING_CONFIRM_REPLY: the operator's decision on a pairing.
#[derive(Clone, Copy, Debug, PartialEq, Eq, Structural)]
pub struct BlePairingConfirmReply {
    pub accept: bool,
}

/// BLE_RECV: the phone wrote `ble_data`.
#[derive(Debug, PartialEq, Eq)]
pub struct BleRecv {
    pub ble_data: Vec<u8>,
}

/// BLE_CONNECTED: a phone has connected and paired.
#[derive(Debug, PartialEq, Eq)]
pub struct BleConnected {
    pub peer_addr: [u8; 6],
    pub mtu: u16,
}

/// BLE_DISCONNECTED: the phone has left.
#[derive(Debug, PartialEq, Eq)]
pub struct BleDisconnected {
    pub peer_addr: [u8; 6],
    pub reason: u8,
}

/// BLE_PAIRING_CONFIRM: a passkey for the operator to compare.
#[derive(Clone, Copy, Debug, PartialEq, Eq, Structural)]
pub struct BlePairingConfirm {
    pub passkey: u32,
}

/// EVENT_BUTTON: the modem's button was pressed and released.
#[derive(Clone, Copy, Debug, PartialEq, Eq, Structural)]
pub struct EventButton {
    pub button_type: ButtonType,
}

/// A message on the serial link.
#[derive(Debug, PartialEq, Eq)]
pub enum ModemMessage {
    Reset,
    SendFrame(SendFrame),
    SetChannel(u8),
    GetStatus,
    ScanChannels,
    ModemReady(ModemReady),
    RecvFrame(RecvFrame),
    SetChannelAck(u8),
    Status(ModemStatus),
    ScanResult(ScanResult),
    Error(ModemError),
    BleIndicate(BleIndicate),
    BleEnable,
    BleDisable,
    BlePairingConfirmReply(BlePairingConfirmReply),
    BleRecv(BleRecv),
    BleConnected(BleConnected),
    BleDisconnected(BleDisconnected),
    BlePairingConfirm(BlePairingConfirm),
    EventButton(EventButton),
    Unknown { msg_type: u8, body: Vec<u8> },
}

/// A message as mathematical values.
pub ghost enum Message {
    Reset,
    SendFrame { peer_mac: Seq<u8>, data: Seq<u8> },
    SetChannel { channel: u8 },
    GetStatus,
    ScanChannels,
    ModemReady { firmware_version: Seq<u8>, mac_address: Seq<u8> },
    RecvFrame { frame: RxFrame },
    SetChannelAck { channel: u8 },
    Status { status: ModemStatus },
    ScanResult { entries: Seq<ScanEntry> },
    Error { code: ModemErrorCode, message: Seq<u8> },
    BleIndicate { data: Seq<u8> },
    BleEnable,
    BleDisable,
    BlePairingConfirmReply { accept: bool },
    BleRecv { data: Seq<u8> },
    BleConnected { peer_addr: Seq<u8>, mtu: u16 },
    BleDisconnected { peer_addr: Seq<u8>, reason: u8 },
    BlePairingConfirm { passkey: u32 },
    EventButton { button_type: ButtonType },
    Unknown { msg_type: u8, body: Seq<u8> },
}

impl View for ModemMessage {
    type V = Message;

    open spec fn view(&self) -> Message {
        match *self {
            ModemMessage::Reset => Message::Reset,
            ModemMessage::SendFrame(sf) => Message::SendFrame {
                peer_mac: sf.peer_mac@,
                data: sf.frame_data@,
            },
            ModemMessage::SetChannel(channel) => Message::SetChannel { channel },
            ModemMessage::GetStatus => Message::GetStatus,
            ModemMessage::ScanChannels => Message::ScanChannels,
            ModemMessage::ModemReady(ready) => Message::ModemReady {
                firmware_version: ready.firmware_version@,
                mac_address: ready.mac_address@,
            },
            ModemMessage::RecvFrame(rf) => Message::RecvFrame { frame: rf@ },
            ModemMessage::SetChannelAck(channel) => Message::SetChannelAck { channel },
            ModemMessage::Status(status) => Message::Status { status },
            ModemMessage::ScanResult(result) => Message::ScanResult { entries: result.entries@ },
            ModemMessage::Error(error) => Message::Error {
                code: error.error_code,
                message: error.message@,
            },
            ModemMessage::BleIndicate(indicate) => Message::BleIndicate { data: indicate.ble_data@ },
            ModemMessage::BleEnable => Message::BleEnable,
            ModemMessage::BleDisable => Message::BleDisable,
            ModemMessage::BlePairingConfirmReply(reply) => Message::BlePairingConfirmReply {
                accept: reply.accept,
            },
            ModemMessage::BleRecv(recv) => Message::BleRecv { data: recv.ble_data@ },
            ModemMessage::BleConnected(connected) => Message::BleConnected {
                peer_addr: connected.peer_addr@,
                mtu: connected.mtu,
            },
            ModemMessage::BleDisconnected(gone) => Message::BleDisconnected {
                peer_addr: gone.peer_addr@,
                reason: gone.reason,
            },
            ModemMessage::BlePairingConfirm(confirm) => Message::BlePairingConfirm {
                passkey: confirm.passkey,
            },
            ModemMessage::EventButton(event) => Message::EventButton {
                button_type: event.button_type,
            },
            ModemMessage::Unknown { msg_type, body } => Message::Unknown { msg_type, body: body@ },
        }
    }
}

/// The label of a message in log lines.
pub open spec fn label_of(msg: Message) -> &'static str {
    match msg {
        Message::Reset => "RESET",
        Message::SendFrame { .. } => "SEND_FRAME",
        Message::SetChannel { .. } => "SET_CHANNEL",
        Message::GetStatus => "GET_STATUS",
        Message::ScanChannels => "SCAN_CHANNELS",
        Message::ModemReady { .. } => "MODEM_READY",
        Message::RecvFrame { .. } => "RECV_FRAME",
        Message::SetChannelAck { .. } => "SET_CHANNEL_ACK",
        Message::Status { .. } => "STATUS",
        Message::ScanResult { .. } => "SCAN_RESULT",
        Message::Error { .. } => "ERROR",
        Message::BleIndicate { .. } => "BLE_INDICATE",
        Message::BleEnable => "BLE_ENABLE",
        Message::BleDisable => "BLE_DISABLE",
        Message::BlePairingConfirmReply { .. } => "BLE_PAIRING_CONFIRM_REPLY",
        Message::BleRecv { .. } => "BLE_RECV",
        Message::BleConnected { .. } => "BLE_CONNECTED",
        Message::BleDisconnected { .. } => "BLE_DISCONNECTED",
        Message::BlePairingConfirm { .. } => "BLE_PAIRING_CONFIRM",
        Message::EventButton { .. } => "EVENT_BUTTON",
        Message::Unknown { .. } => "UNKNOWN",
    }
}

/// Human-readable label of a message, for log lines.
pub fn msg_type_label(msg: &ModemMessage) -> (label: &'static str)
    ensures
        label == label_of(msg@),
{
    match msg {
        ModemMessage::Reset => "RESET",
        ModemMessage::SendFrame(_) => "SEND_FRAME",
        ModemMessage::SetChannel(_) => "SET_CHANNEL",
        ModemMessage::GetStatus => "GET_STATUS",
        ModemMessage::ScanChannels => "SCAN_CHANNELS",
        ModemMessage::ModemReady(_) => "MODEM_READY",
        ModemMessage::RecvFrame(_) => "RECV_FRAME",
        ModemMessage::SetChannelAck(_) => "SET_CHANNEL_ACK",
        ModemMessage::Status(_) => "STATUS",
        ModemMessage::ScanResult(_) => "SCAN_RESULT",
        ModemMessage::Error(_) => "ERROR",
        ModemMessage::BleIndicate(_) => "BLE_INDICATE",
        ModemMessage::BleEnable => "BLE_ENABLE",
        ModemMessage::BleDisable => "BLE_DISABLE",
        ModemMessage::BlePairingConfirmReply(_) => "BLE_PAIRING_CONFIRM_REPLY",
        ModemMessage::BleRecv(_) => "BLE_RECV",
        ModemMessage::BleConnected(_) => "BLE_CONNECTED",
        ModemMessage::BleDisconnected(_) => "BLE_DISCONNECTED",
        ModemMessage::BlePairingConfirm(_) => "BLE_PAIRING_CONFIRM",
        ModemMessage::EventButton(_) => "EVENT_BUTTON",
        ModemMessage::Unknown { .. } => "UNKNOWN",
    }
}

/// An event of the BLE layer, on its way to the gateway.
#[derive(Debug, PartialEq, Eq)]
pub enum BleEvent {
    /// The connected phone wrote to the command characteristic.
    Recv(Vec<u8>),
    /// A phone connected and completed pairing.
    Connected { peer_addr: [u8; 6], mtu: u16 },
    /// The phone disconnected.
    Disconnected { peer_addr: [u8; 6], reason: u8 },
    /// A passkey that the operator has to compare.
    PairingConfirm { passkey: u32 },
}

/// A BLE event as mathematical values.
pub ghost enum BleNote {
    Recv { data: Seq<u8> },
    Connected { peer_addr: Seq<u8>, mtu: u16 },
    Disconnected { peer_addr: Seq<u8>, reason: u8 },
    PairingConfirm { passkey: u32 },
}

impl View for BleEvent {
    type V = BleNote;

    open spec fn view(&self) -> BleNote {
        match *self {
            BleEvent::Recv(data) => BleNote::Recv { data: data@ },
            BleEvent::Connected { peer_addr, mtu } => BleNote::Connected {
                peer_addr: peer_addr@,
                mtu,
            },
            BleEvent::Disconnected { peer_addr, reason } => BleNote::Disconnected {
                peer_addr: peer_addr@,
                reason,
            },
            BleEvent::PairingConfirm { passkey } => BleNote::PairingConfirm { passkey },
        }
    }
}

impl BleNote {
    /// The message that reports the event to the gateway.
    pub open spec fn message(self) -> Message {
        match self {
            BleNote::Recv { data } => Message::BleRecv { data },
            BleNote::Connected { peer_addr, mtu } => Message::BleConnected { peer_addr, mtu },
            BleNote::Disconnected { peer_addr, reason } => Message::BleDisconnected {
                peer_addr,
                reason,
            },
            BleNote::PairingConfirm { passkey } => Message::BlePairingConfirm { passkey },
        }
    }
}

/// The message that reports a BLE event to the gateway.
pub fn event_message(event: BleEvent) -> (msg: ModemMessage)
    ensures
        msg@ == event@.message(),
{
    match event {
        BleEvent::Recv(ble_data) => ModemMessage::BleRecv(BleRecv { ble_data }),
        BleEvent::Connected { peer_addr, mtu } => ModemMessage::BleConnected(
            BleConnected { peer_addr, mtu },
        ),
        BleEvent::Disconnected { peer_addr, reason } => ModemMessage::BleDisconnected(
            BleDisconnected { peer_addr, reason },
        ),
        BleEvent::PairingConfirm { passkey } => ModemMessage::BlePairingConfirm(
            BlePairingConfirm { passkey },
        ),
    }
}

/// A message is logged under the name that the protocol has for it.
pub proof fn law_messages_are_logged_by_name(msg: Message)
    ensures
        msg is Reset ==> label_of(msg) == "RESET",
        msg is SendFrame ==> label_of(msg) == "SEND_FRAME",
        msg is SetChannel ==> label_of(msg) == "SET_CHANNEL",
        msg is GetStatus ==> label_of(msg) == "GET_STATUS",
        msg is ScanChannels ==> label_of(msg) == "SCAN_CHANNELS",
        msg is ModemReady ==> label_of(msg) == "MODEM_READY",
        msg is RecvFrame ==> label_of(msg) == "RECV_FRAME",
        msg is SetChannelAck ==> label_of(msg) == "SET_CHANNEL_ACK",
        msg is Status ==> label_of(msg) == "STATUS",
        msg is ScanResult ==> label_of(msg) == "SCAN_RESULT",
        msg is Error ==> label_of(msg) == "ERROR",
        msg is BleIndicate ==> label_of(msg) == "BLE_INDICATE",
        msg is BleEnable ==> label_of(msg) == "BLE_ENABLE",
        msg is BleDisable ==> label_of(msg) == "BLE_DISABLE",
        msg is BlePairingConfirmReply ==> label_of(msg) == "BLE_PAIRING_CONFIRM_REPLY",
        msg is BleRecv ==> label_of(msg) == "BLE_RECV",
        msg is BleConnected ==> label_of(msg) == "BLE_CONNECTED",
        msg is BleDisconnected ==> label_of(msg) == "BLE_DISCONNECTED",
        msg is BlePairingConfirm ==> label_of(msg) == "BLE_PAIRING_CONFIRM",
        msg is EventButton ==> label_of(msg) == "EVENT_BUTTON",
        msg is Unknown ==> label_of(msg) == "UNKNOWN",
{
}

/// An event is reported by the message of its kind, with everything that it
/// carries: data as it was written, and the address, the MTU, the reason and the
/// passkey as they were.
pub proof fn law_events_are_reported_whole(note: BleNote)
    ensures
        note matches BleNote::Recv { data } ==> note.message() == (Message::BleRecv { data }),
        note matches BleNote::Connected { peer_addr, mtu } ==> note.message() == (
        Message::BleConnected { peer_addr, mtu }),
        note matches BleNote::Disconnected { peer_addr, reason } ==> note.message() == (
        Message::BleDisconnected { peer_addr, reason }),
        note matches BleNote::PairingConfirm { passkey } ==> note.message() == (
        Message::BlePairingConfirm { passkey }),
{
}

/// A message stands for what it carries: the commands with their arguments, and
/// the reports with theirs.
pub proof fn law_messages_stand_for_themselves(msg: ModemMessage)
    ensures
        msg is Reset <==> msg@ is Reset,
        msg is GetStatus <==> msg@ is GetStatus,
        msg is ScanChannels <==> msg@ is ScanChannels,
        msg is BleEnable <==> msg@ is BleEnable,
        msg is BleDisable <==> msg@ is BleDisable,
        msg matches ModemMessage::SendFrame(m) ==> msg@ == (Message::SendFrame {
            peer_mac: m.peer_mac@,
            data: m.frame_data@,
        }),
        msg matches ModemMessage::SetChannel(channel) ==> msg@ == (Message::SetChannel { channel }),
        msg matches ModemMessage::ModemReady(m) ==> msg@ == (Message::ModemReady {
            firmware_version: m.firmware_version@,
            mac_address: m.mac_address@,
        }),
        msg matches ModemMessage::RecvFrame(m) ==> msg@ == (Message::RecvFrame {
            frame: RxFrame { peer_mac: m.peer_mac@, rssi: m.rssi, data: m.frame_data@ },
        }),
        msg matches ModemMessage::SetChannelAck(channel) ==> msg@ == (Message::SetChannelAck {
            channel,
        }),
        msg matches ModemMessage::Status(status) ==> msg@ == (Message::Status { status }),
        msg matches ModemMessage::ScanResult(m) ==> msg@ == (Message::ScanResult {
            entries: m.entries@,
        }),
        msg matches ModemMessage::Error(m) ==> msg@ == (Message::Error {
            code: m.error_code,
            message: m.message@,
        }),
        msg matches ModemMessage::BleIndicate(m) ==> msg@ == (Message::BleIndicate {
            data: m.ble_data@,
        }),
        msg matches ModemMessage::BlePairingConfirmReply(m) ==> msg@ == (
        Message::BlePairingConfirmReply { accept: m.accept }),
        msg matches ModemMessage::BleRecv(m) ==> msg@ == (Message::BleRecv { data: m.ble_data@ }),
        msg matches ModemMessage::BleConnected(m) ==> msg@ == (Message::BleConnected {
            peer_addr: m.peer_addr@,
            mtu: m.mtu,
        }),
        msg matches ModemMessage::BleDisconnected(m) ==> msg@ == (Message::BleDisconnected {
            peer_addr: m.peer_addr@,
            reason: m.reason,
        }),
        msg matches ModemMessage::BlePairingConfirm(m) ==> msg@ == (Message::BlePairingConfirm {
            passkey: m.passkey,
        }),
        msg matches ModemMessage::EventButton(m) ==> msg@ == (Message::EventButton {
            button_type: m.button_type,
        }),
{
}

/// An event stands for what it carries.
pub proof fn law_events_stand_for_themselves(event: BleEvent)
    ensures
        event matches BleEvent::Recv(data) ==> event@ == (BleNote::Recv { data: data@ }),
        event matches BleEvent::Connected { peer_addr, mtu } ==> event@ == (BleNote::Connected {
            peer_addr: peer_addr@,
            mtu,
        }),
        event matches BleEvent::Disconnected { peer_addr, reason } ==> event@ == (
        BleNote::Disconnected { peer_addr: peer_addr@, reason }),
        event matches BleEvent::PairingConfirm { passkey } ==> event@ == (BleNote::PairingConfirm {
            passkey,
        }),
        BUTTON_TYPE_SHORT is Short && BUTTON_TYPE_LONG is Long,
        MODEM_ERR_CHANNEL_SET_FAILED is ChannelSetFailed,
{
}

} // verus!
