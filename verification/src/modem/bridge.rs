//! Bridge logic: connects the serial link to the radio, the BLE layer and the
//! button.
//!
//! Inbound serial messages are dispatched to the radio and BLE drivers, and
//! received frames, BLE events and button presses are reported back to the
//! gateway.  The bridge is generic over its drivers.
//!
//! Framing and encoding of messages is the codec's business.  A poll is
//! therefore a conversation: the bridge returns what it needs of the codec
//! (`CodecRequest`) and is resumed with the codec's answer (`CodecReply`),
//! until it has finished.

use vstd::prelude::*;
use vstd::string::*;

use crate::bytes::{copy_bytes, copy_range};
use crate::modem::button::{ButtonPoll, NoButton};
use crate::modem::espnow::{RecvFrame, RxFrame};
use crate::modem::message::{
    event_message, BleEvent, BleNote, BlePairingConfirmReply, ButtonType, EventButton,
    Message, ModemError, ModemErrorCode, ModemMessage, ModemReady, ModemStatus, ScanEntry,
    ScanResult, SendFrame, MODEM_ERR_CHANNEL_SET_FAILED,
};
use crate::modem::status::{next_count, CountersView, ModemCounters};
use crate::text::decimal_value;

verus! {

/// Maximum number of received radio frames forwarded per poll, so that other
/// work is not starved under sustained traffic.
pub const MAX_RX_FRAMES_PER_POLL: usize = 16;

/// Maximum number of BLE events forwarded per poll.
pub const MAX_BLE_EVENTS_PER_POLL: usize = 16;

/// Maximum number of stale BLE events discarded on RESET, in case a driver
/// returns events indefinitely.
pub const MAX_DRAIN: usize = 256;

/// Whether the text is made of decimal digits, at least one.
pub open spec fn all_digits(text: Seq<char>) -> bool {
    text.len() > 0 && forall|i: int| 0 <= i < text.len() ==> '0' <= #[trigger] text[i] <= '9'
}

/// The number that decimal digits denote.
pub open spec fn decimal(text: Seq<char>) -> nat
    decreases text.len(),
{
    if text.len() == 0 {
        0
    } else {
        decimal(text.drop_last()) * 10 + (text.last() as int - '0' as int) as nat
    }
}

/// A longer prefix of digits denotes a number at least as large.
proof fn lemma_decimal_grows(text: Seq<char>, n: int)
    requires
        all_digits(text),
        0 <= n <= text.len(),
    ensures
        decimal(text.take(n)) <= decimal(text),
    decreases text.len() - n,
{
    if n == text.len() {
        assert(text.take(n) =~= text);
    } else {
        lemma_decimal_grows(text, n + 1);
        assert(text.take(n + 1).drop_last() =~= text.take(n));
    }
}

/// Parse one component of a version number: decimal digits that denote a
/// number below 256.
pub fn parse_version_component(s: &str) -> (value: u8)
    requires
        all_digits(s@),
        decimal(s@) <= 255,
    ensures
        value as nat == decimal(s@),
{
    proof {
        assert(is_ascii(s));
        is_ascii_spec_bytes(s);
    }
    let bytes = s.as_bytes();
    let mut value: u16 = 0;
    let mut i: usize = 0;
    assert(s@.take(0) =~= Seq::<char>::empty());
    while i < bytes.len()
        invariant
            i <= bytes.len() == s@.len(),
            all_digits(s@),
            decimal(s@) <= 255,
            forall|j: int| 0 <= j < bytes.len() ==> #[trigger] bytes@[j] == s@[j] as u8,
            value as nat == decimal(s@.take(i as int)),
            value <= 255,
        decreases bytes.len() - i,
    {
        proof {
            lemma_decimal_grows(s@, i + 1);
            assert(s@.take(i + 1).drop_last() =~= s@.take(i as int));
            assert('0' <= s@[i as int] <= '9');
            assert(bytes@[i as int] == s@[i as int] as u8);
        }
        value = value * 10 + (bytes[i] - 0x30) as u16;
        i = i + 1;
    }
    assert(s@.take(i as int) =~= s@);
    value as u8
}

/// A serial byte stream: USB-CDC on the device.
///
/// The `was_*` functions say what a call may do; an implementation that leaves
/// them as they are promises nothing.
pub trait SerialPort: Sized {
    /// What a read may do: hand out `data` and report whether connectivity was
    /// just re-established.
    open spec fn was_read(pre: Self, post: Self, data: Seq<u8>, reconnected: bool) -> bool {
        true
    }

    /// What a write of `data` may do.
    open spec fn was_written(pre: Self, data: Seq<u8>, post: Self, ok: bool) -> bool {
        true
    }

    /// Whether the last I/O operation succeeded.
    spec fn connected(&self) -> bool;

    /// Read available bytes into `buf`.  Returns how many there were, and
    /// whether connectivity was just re-established.
    fn read(&mut self, buf: &mut [u8]) -> (read: (usize, bool))
        ensures
            final(buf)@.len() == old(buf)@.len(),
            read.0 <= old(buf)@.len(),
            Self::was_read(*old(self), *final(self), final(buf)@.take(read.0 as int), read.1),
    ;

    /// Write bytes; returns whether the write succeeded.  It is always
    /// attempted, so that critical messages are never silently dropped.
    fn write(&mut self, data: &[u8]) -> (ok: bool)
        ensures
            Self::was_written(*old(self), data@, *final(self), ok),
    ;

    /// Whether the last I/O operation succeeded.
    fn is_connected(&self) -> (connected: bool)
        ensures
            connected == self.connected(),
    ;
}

/// A received frame, if any, as mathematical values.
pub open spec fn frame_view(frame: Option<RecvFrame>) -> Option<RxFrame> {
    match frame {
        Some(rf) => Some(rf@),
        None => None,
    }
}

/// A BLE event, if any, as mathematical values.
pub open spec fn event_view(event: Option<BleEvent>) -> Option<BleNote> {
    match event {
        Some(e) => Some(e@),
        None => None,
    }
}

/// The radio: ESP-NOW on the device.
///
/// The `was_*` functions say what a call may do, as in `SerialPort`.
pub trait Radio: Sized {
    /// What a send of `data` to `peer` may do.
    open spec fn was_sent(pre: Self, peer: Seq<u8>, data: Seq<u8>, post: Self, ok: bool) -> bool {
        true
    }

    /// What draining one frame may do.
    open spec fn was_drained(pre: Self, post: Self, frame: Option<RxFrame>) -> bool {
        true
    }

    /// What a change to `channel` may do.
    open spec fn was_set(pre: Self, channel: u8, post: Self, result: Result<(), &'static str>) -> bool {
        true
    }

    /// The current channel.
    spec fn on_channel(&self) -> u8;

    /// What a channel scan may do: report (channel, number of access points,
    /// strongest signal) per channel.
    open spec fn was_scanned(pre: Self, post: Self, reports: Seq<(u8, u8, i8)>) -> bool {
        true
    }

    /// The device's own address.
    spec fn own_mac(&self) -> [u8; 6];

    /// What a reset may do.
    open spec fn was_reset(pre: Self, post: Self) -> bool {
        true
    }

    /// Send a frame to a peer; returns whether it was queued.
    fn send(&mut self, peer_mac: &[u8; 6], data: &[u8]) -> (ok: bool)
        ensures
            Self::was_sent(*old(self), peer_mac@, data@, *final(self), ok),
    ;

    /// Take one received frame off the queue.
    fn drain_one(&mut self) -> (frame: Option<RecvFrame>)
        ensures
            Self::was_drained(*old(self), *final(self), frame_view(frame)),
    ;

    /// Set the channel, or say why that failed.
    fn set_channel(&mut self, channel: u8) -> (result: Result<(), &'static str>)
        ensures
            Self::was_set(*old(self), channel, *final(self), result),
    ;

    /// The current channel.
    fn channel(&self) -> (channel: u8)
        ensures
            channel == self.on_channel(),
    ;

    /// Scan all channels.
    fn scan_channels(&mut self) -> (reports: Vec<(u8, u8, i8)>)
        ensures
            Self::was_scanned(*old(self), *final(self), reports@),
    ;

    /// The device's own address.
    fn mac_address(&self) -> (mac: [u8; 6])
        ensures
            mac == self.own_mac(),
    ;

    /// Reset the radio: no peers, channel 1, empty queues.
    fn reset_state(&mut self)
        ensures
            Self::was_reset(*old(self), *final(self)),
    ;
}

/// The BLE GATT server layer.
///
/// The `was_*` functions say what a call may do, as in `SerialPort`.
pub trait Ble: Sized {
    /// What enabling may do.
    open spec fn was_enabled(pre: Self, post: Self) -> bool {
        true
    }

    /// What disabling may do.
    open spec fn was_disabled(pre: Self, post: Self) -> bool {
        true
    }

    /// What an indication of `data` may do.
    open spec fn was_indicated(pre: Self, data: Seq<u8>, post: Self) -> bool {
        true
    }

    /// What the operator's decision may do.
    open spec fn was_replied(pre: Self, accept: bool, post: Self) -> bool {
        true
    }

    /// What advancing the indication queue may do.
    open spec fn was_advanced(pre: Self, post: Self) -> bool {
        true
    }

    /// What the check for the pairing timeout may do.
    open spec fn was_checked_for_timeout(pre: Self, now_ns: u64, post: Self) -> bool {
        true
    }

    /// What the check for missed encryption events may do.
    open spec fn was_checked_for_encryption(pre: Self, post: Self) -> bool {
        true
    }

    /// What draining one event may do.
    open spec fn was_drained(pre: Self, post: Self, event: Option<BleNote>) -> bool {
        true
    }

    /// Enable advertising of the Gateway Pairing Service.
    fn enable(&mut self)
        ensures
            Self::was_enabled(*old(self), *final(self)),
    ;

    /// Disable advertising and disconnect any client.  Disconnect events must
    /// not be dropped; the indication queue must be cleared.
    fn disable(&mut self)
        ensures
            Self::was_disabled(*old(self), *final(self)),
    ;

    /// Send an indication to the connected client.  Without a client or
    /// without data it is discarded.
    fn indicate(&mut self, data: &[u8])
        ensures
            Self::was_indicated(*old(self), data@, *final(self)),
    ;

    /// Accept or reject a Numeric Comparison pairing.
    fn pairing_confirm_reply(&mut self, accept: bool)
        ensures
            Self::was_replied(*old(self), accept, *final(self)),
    ;

    /// Advance the indication queue by at most one chunk.
    fn advance_indication(&mut self)
        ensures
            Self::was_advanced(*old(self), *final(self)),
    ;

    /// Disconnect a client that has not completed pairing in time.
    fn check_pairing_timeout(&mut self, now_ns: u64)
        ensures
            Self::was_checked_for_timeout(*old(self), now_ns, *final(self)),
    ;

    /// Poll the link's security state, in case an authentication event was
    /// missed.
    fn check_encryption_fallback(&mut self)
        ensures
            Self::was_checked_for_encryption(*old(self), *final(self)),
    ;

    /// Take one event off the queue.
    fn drain_event(&mut self) -> (event: Option<BleEvent>)
        ensures
            Self::was_drained(*old(self), *final(self), event_view(event)),
    ;
}

/// No BLE: every operation does nothing.
pub struct NoBle;

impl Ble for NoBle {
    open spec fn was_enabled(pre: NoBle, post: NoBle) -> bool {
        post == pre
    }

    open spec fn was_disabled(pre: NoBle, post: NoBle) -> bool {
        post == pre
    }

    open spec fn was_indicated(pre: NoBle, data: Seq<u8>, post: NoBle) -> bool {
        post == pre
    }

    open spec fn was_replied(pre: NoBle, accept: bool, post: NoBle) -> bool {
        post == pre
    }

    open spec fn was_advanced(pre: NoBle, post: NoBle) -> bool {
        post == pre
    }

    open spec fn was_checked_for_timeout(pre: NoBle, now_ns: u64, post: NoBle) -> bool {
        post == pre
    }

    open spec fn was_checked_for_encryption(pre: NoBle, post: NoBle) -> bool {
        post == pre
    }

    open spec fn was_drained(pre: NoBle, post: NoBle, event: Option<BleNote>) -> bool {
        post == pre && event is None
    }

    fn enable(&mut self) {
    }

    fn disable(&mut self) {
    }

    fn indicate(&mut self, _data: &[u8]) {
    }

    fn pairing_confirm_reply(&mut self, _accept: bool) {
    }

    fn advance_indication(&mut self) {
    }

    fn check_pairing_timeout(&mut self, _now_ns: u64) {
    }

    fn check_encryption_fallback(&mut self) {
    }

    fn drain_event(&mut self) -> (event: Option<BleEvent>) {
        None
    }
}

/// What the codec found when it was asked for the next message.
#[derive(Debug, PartialEq, Eq)]
pub enum DecodeOutcome {
    /// A complete message.
    Message(ModemMessage),
    /// No complete frame is buffered.
    Incomplete,
    /// A frame without a type, which was discarded.
    EmptyFrame,
    /// A length prefix beyond the limit: the stream is out of step.
    FrameTooLarge,
    /// A frame whose body does not fit its type, which was discarded.
    Malformed,
}

/// A decode outcome as mathematical values.
pub ghost enum Decoded {
    Message { msg: Message },
    Incomplete,
    EmptyFrame,
    FrameTooLarge,
    Malformed,
}

impl View for DecodeOutcome {
    type V = Decoded;

    open spec fn view(&self) -> Decoded {
        match *self {
            DecodeOutcome::Message(msg) => Decoded::Message { msg: msg@ },
            DecodeOutcome::Incomplete => Decoded::Incomplete,
            DecodeOutcome::EmptyFrame => Decoded::EmptyFrame,
            DecodeOutcome::FrameTooLarge => Decoded::FrameTooLarge,
            DecodeOutcome::Malformed => Decoded::Malformed,
        }
    }
}

/// What the bridge needs of the codec next.
#[derive(Debug, PartialEq, Eq)]
pub enum CodecRequest {
    /// Discard all bytes buffered for decoding; answered with `Done`.
    ResetDecoder,
    /// Buffer the bytes for decoding; answered with `Done`.
    Push(Vec<u8>),
    /// Decode the next message; answered with `Decoded`.
    Decode,
    /// Encode a message; answered with `Encoded`.
    Encode(ModemMessage),
    /// Nothing: the poll is over.
    Finished,
}

/// A request as mathematical values.
pub ghost enum Request {
    ResetDecoder,
    Push { data: Seq<u8> },
    Decode,
    Encode { msg: Message },
    Finished,
}

impl View for CodecRequest {
    type V = Request;

    open spec fn view(&self) -> Request {
        match *self {
            CodecRequest::ResetDecoder => Request::ResetDecoder,
            CodecRequest::Push(data) => Request::Push { data: data@ },
            CodecRequest::Decode => Request::Decode,
            CodecRequest::Encode(msg) => Request::Encode { msg: msg@ },
            CodecRequest::Finished => Request::Finished,
        }
    }
}

/// The codec's answer to a request.
#[derive(Debug, PartialEq, Eq)]
pub enum CodecReply {
    /// The request was carried out.
    Done,
    /// What there was to decode.
    Decoded(DecodeOutcome),
    /// The encoded frame; `None` if the message cannot be encoded.
    Encoded(Option<Vec<u8>>),
}

/// An answer as mathematical values.
pub ghost enum Reply {
    Done,
    Decoded { outcome: Decoded },
    Encoded { frame: Option<Seq<u8>> },
}

impl View for CodecReply {
    type V = Reply;

    open spec fn view(&self) -> Reply {
        match *self {
            CodecReply::Done => Reply::Done,
            CodecReply::Decoded(outcome) => Reply::Decoded { outcome: outcome@ },
            CodecReply::Encoded(frame) => Reply::Encoded {
                frame: match frame {
                    Some(bytes) => Some(bytes@),
                    None => None,
                },
            },
        }
    }
}

/// Which request is open, and what follows its answer.
enum Phase {
    /// No request is open.
    Idle,
    /// MODEM_READY is being encoded outside of a poll.
    BootReady,
    /// The link is back: the decoder is being reset.
    ReconnectReset { pending: Vec<u8> },
    /// The link is back: MODEM_READY is being encoded.
    ReconnectReady { pending: Vec<u8> },
    /// Received bytes are being pushed.
    Pushing,
    /// The next message is being decoded.
    Decoding,
    /// RESET: the decoder is being reset.
    ResetCommand,
    /// The answer to a command is being encoded.
    Replying,
    /// The stream is out of step: the decoder is being reset.
    Resync,
    /// A received frame is being encoded; this many more may follow.
    Forwarding { left: usize },
    /// A BLE event is being encoded; this many more may follow.
    Relaying { left: usize },
    /// A button event is being encoded.
    Reporting,
}

/// A phase as mathematical values.
pub ghost enum PhaseView {
    Idle,
    BootReady,
    ReconnectReset { pending: Seq<u8> },
    ReconnectReady { pending: Seq<u8> },
    Pushing,
    Decoding,
    ResetCommand,
    Replying,
    Resync,
    Forwarding { left: nat },
    Relaying { left: nat },
    Reporting,
}

impl View for Phase {
    type V = PhaseView;

    closed spec fn view(&self) -> PhaseView {
        match *self {
            Phase::Idle => PhaseView::Idle,
            Phase::BootReady => PhaseView::BootReady,
            Phase::ReconnectReset { pending } => PhaseView::ReconnectReset { pending: pending@ },
            Phase::ReconnectReady { pending } => PhaseView::ReconnectReady { pending: pending@ },
            Phase::Pushing => PhaseView::Pushing,
            Phase::Decoding => PhaseView::Decoding,
            Phase::ResetCommand => PhaseView::ResetCommand,
            Phase::Replying => PhaseView::Replying,
            Phase::Resync => PhaseView::Resync,
            Phase::Forwarding { left } => PhaseView::Forwarding { left: left as nat },
            Phase::Relaying { left } => PhaseView::Relaying { left: left as nat },
            Phase::Reporting => PhaseView::Reporting,
        }
    }
}

impl PhaseView {
    /// Whether `reply` answers the open request.
    pub open spec fn awaits(self, reply: Reply) -> bool {
        match self {
            PhaseView::Idle => false,
            PhaseView::ReconnectReset { .. } => reply is Done,
            PhaseView::Pushing => reply is Done,
            PhaseView::ResetCommand => reply is Done,
            PhaseView::Resync => reply is Done,
            PhaseView::Decoding => reply is Decoded,
            _ => reply is Encoded,
        }
    }

    /// An upper bound on the requests that a poll still makes once it no
    /// longer decodes.
    pub open spec fn requests_left(self) -> nat {
        match self {
            PhaseView::Resync => 3 + MAX_RX_FRAMES_PER_POLL as nat + MAX_BLE_EVENTS_PER_POLL as nat,
            PhaseView::Forwarding { left } => 2 + left + MAX_BLE_EVENTS_PER_POLL as nat + 1,
            PhaseView::Relaying { left } => 2 + left,
            PhaseView::Reporting => 1,
            _ => 0,
        }
    }
}

/// The bridge's state, with its drivers as they are.
#[verifier::reject_recursive_types(S)]
#[verifier::reject_recursive_types(R)]
#[verifier::reject_recursive_types(B)]
#[verifier::reject_recursive_types(Btn)]
pub ghost struct BridgeView<S, R, B, Btn> {
    pub usb: S,
    pub radio: R,
    pub ble: B,
    pub button: Btn,
    pub ble_enabled: bool,
    pub counters: CountersView,
    pub firmware_version: Seq<u8>,
    pub phase: PhaseView,
}

/// Whole milliseconds in `ns` nanoseconds.
pub open spec fn to_ms(ns: u64) -> u64 {
    ns / 1_000_000
}

/// What discarding up to `limit` events of a BLE layer may do: events are
/// drained until there is none left or the limit is reached.
pub open spec fn was_discarded<B: Ble>(pre: B, post: B, limit: nat) -> bool
    decreases limit,
{
    if limit == 0 {
        post == pre
    } else {
        exists|mid: B, event: Option<BleNote>| #[trigger]
            B::was_drained(pre, mid, event) && (if event is Some {
                was_discarded(mid, post, (limit - 1) as nat)
            } else {
                post == mid
            })
    }
}

/// What handing an encoded message to the serial link may do.  A message that
/// could not be encoded is not written.
pub open spec fn was_delivered<S: SerialPort>(
    pre: S,
    frame: Option<Seq<u8>>,
    post: S,
    ok: bool,
) -> bool {
    match frame {
        Some(bytes) => S::was_written(pre, bytes, post, ok),
        None => post == pre && !ok,
    }
}

/// The entries of a SCAN_RESULT, in the order of the reports.
pub open spec fn scan_entries(reports: Seq<(u8, u8, i8)>) -> Seq<ScanEntry> {
    reports.map_values(
        |r: (u8, u8, i8)| ScanEntry { channel: r.0, ap_count: r.1, strongest_rssi: r.2 },
    )
}

impl<S: SerialPort, R: Radio, B: Ble, Btn: ButtonPoll> BridgeView<S, R, B, Btn> {
    /// MODEM_READY.
    pub open spec fn ready_message(self) -> Message {
        Message::ModemReady {
            firmware_version: self.firmware_version,
            mac_address: self.radio.own_mac()@,
        }
    }

    /// STATUS at time `now_ns`.
    pub open spec fn status_message(self, now_ns: u64) -> Message {
        Message::Status {
            status: ModemStatus {
                channel: self.radio.on_channel(),
                uptime_s: self.counters.uptime(to_ms(now_ns)) as u32,
                tx_count: self.counters.tx,
                rx_count: self.counters.rx,
                tx_fail_count: self.counters.tx_fail,
            },
        }
    }

    /// The answer to a request to set the channel.
    pub open spec fn channel_message(channel: u8, result: Result<(), &'static str>) -> Message {
        match result {
            Ok(_) => Message::SetChannelAck { channel },
            Err(reason) => Message::Error {
                code: ModemErrorCode::ChannelSetFailed,
                message: reason.spec_bytes(),
            },
        }
    }

    /// The end of a poll: the button is polled, and a press is reported.
    pub open spec fn polls_button(self, now_ns: u64, post: Self, request: Request) -> bool {
        exists|button: Btn, event: Option<ButtonType>| #[trigger]
            Btn::polled(self.button, now_ns, button, event) && match event {
                Some(button_type) => {
                    &&& post == (BridgeView { button, phase: PhaseView::Reporting, ..self })
                    &&& request == (Request::Encode { msg: Message::EventButton { button_type } })
                },
                None => {
                    &&& post == (BridgeView { button, phase: PhaseView::Idle, ..self })
                    &&& request == Request::Finished
                },
            }
    }

    /// The next BLE event is relayed, while `left` allows it and there is one;
    /// then the poll goes on with the button.
    pub open spec fn relays(self, left: nat, now_ns: u64, post: Self, request: Request) -> bool {
        if left == 0 {
            self.polls_button(now_ns, post, request)
        } else {
            exists|ble: B, event: Option<BleNote>| #[trigger]
                B::was_drained(self.ble, ble, event) && match event {
                    Some(note) => {
                        &&& post == (BridgeView {
                            ble,
                            phase: PhaseView::Relaying { left: (left - 1) as nat },
                            ..self
                        })
                        &&& request == (Request::Encode { msg: note.message() })
                    },
                    None => BridgeView { ble, ..self }.polls_button(now_ns, post, request),
                }
        }
    }

    /// The BLE layer is serviced once: the indication queue advances, and the
    /// pairing timeout and the link's security are checked; then BLE events
    /// are relayed.
    pub open spec fn services_ble(self, now_ns: u64, post: Self, request: Request) -> bool {
        exists|advanced: B, timed: B, checked: B| #[trigger]
            B::was_advanced(self.ble, advanced) && #[trigger] B::was_checked_for_timeout(
                advanced,
                now_ns,
                timed,
            ) && #[trigger] B::was_checked_for_encryption(timed, checked) && BridgeView {
                ble: checked,
                ..self
            }.relays(MAX_BLE_EVENTS_PER_POLL as nat, now_ns, post, request)
    }

    /// The next received frame is forwarded, while `left` allows it and there
    /// is one; then the poll goes on with BLE.
    pub open spec fn forwards(self, left: nat, now_ns: u64, post: Self, request: Request) -> bool {
        if left == 0 {
            self.services_ble(now_ns, post, request)
        } else {
            exists|radio: R, frame: Option<RxFrame>| #[trigger]
                R::was_drained(self.radio, radio, frame) && match frame {
                    Some(rf) => {
                        &&& post == (BridgeView {
                            radio,
                            phase: PhaseView::Forwarding { left: (left - 1) as nat },
                            ..self
                        })
                        &&& request == (Request::Encode { msg: Message::RecvFrame { frame: rf } })
                    },
                    None => BridgeView { radio, ..self }.services_ble(now_ns, post, request),
                }
        }
    }

    /// The next message is asked for.
    pub open spec fn decodes(self, post: Self, request: Request) -> bool {
        &&& post == (BridgeView { phase: PhaseView::Decoding, ..self })
        &&& request == Request::Decode
    }

    /// `msg` is sent as the answer to a command.
    pub open spec fn replies(self, msg: Message, post: Self, request: Request) -> bool {
        &&& post == (BridgeView { phase: PhaseView::Replying, ..self })
        &&& request == (Request::Encode { msg })
    }

    /// RESET: the radio is reset, BLE is disabled and its stale events are
    /// discarded, the counters restart, and the decoder is reset.
    pub open spec fn resets(self, now_ns: u64, post: Self, request: Request) -> bool {
        &&& request == Request::ResetDecoder
        &&& exists|radio: R, disabled: B, ble: B| #[trigger]
            R::was_reset(self.radio, radio) && #[trigger] B::was_disabled(self.ble, disabled)
                && #[trigger] was_discarded(disabled, ble, MAX_DRAIN as nat) && post == (
            BridgeView {
                radio,
                ble,
                ble_enabled: false,
                counters: self.counters.after_reset(to_ms(now_ns)),
                phase: PhaseView::ResetCommand,
                ..self
            })
    }

    /// SEND_FRAME: the frame is handed to the radio as it is.
    pub open spec fn sends(
        self,
        peer_mac: Seq<u8>,
        data: Seq<u8>,
        post: Self,
        request: Request,
    ) -> bool {
        exists|radio: R, ok: bool| #[trigger]
            R::was_sent(self.radio, peer_mac, data, radio, ok) && BridgeView {
                radio,
                ..self
            }.decodes(post, request)
    }

    /// SET_CHANNEL: the radio is set, and the outcome is answered.
    pub open spec fn sets_channel(self, channel: u8, post: Self, request: Request) -> bool {
        exists|radio: R, result: Result<(), &'static str>| #[trigger]
            R::was_set(self.radio, channel, radio, result) && BridgeView { radio, ..self }.replies(
                Self::channel_message(channel, result),
                post,
                request,
            )
    }

    /// SCAN_CHANNELS: the reports of a scan are answered.
    pub open spec fn scans(self, post: Self, request: Request) -> bool {
        exists|radio: R, reports: Seq<(u8, u8, i8)>| #[trigger]
            R::was_scanned(self.radio, radio, reports) && BridgeView { radio, ..self }.replies(
                Message::ScanResult { entries: scan_entries(reports) },
                post,
                request,
            )
    }

    /// BLE_INDICATE: the data is handed to the BLE layer as it is.
    pub open spec fn indicates(self, data: Seq<u8>, post: Self, request: Request) -> bool {
        exists|ble: B| #[trigger]
            B::was_indicated(self.ble, data, ble) && BridgeView { ble, ..self }.decodes(
                post,
                request,
            )
    }

    /// BLE_ENABLE: BLE is enabled, whether it was before or not.
    pub open spec fn enables_ble(self, post: Self, request: Request) -> bool {
        exists|ble: B| #[trigger]
            B::was_enabled(self.ble, ble) && BridgeView { ble, ble_enabled: true, ..self }.decodes(
                post,
                request,
            )
    }

    /// BLE_DISABLE: BLE is disabled, whether it was before or not.
    pub open spec fn disables_ble(self, post: Self, request: Request) -> bool {
        exists|ble: B| #[trigger]
            B::was_disabled(self.ble, ble) && BridgeView {
                ble,
                ble_enabled: false,
                ..self
            }.decodes(post, request)
    }

    /// BLE_PAIRING_CONFIRM_REPLY: the decision is handed to the BLE layer.
    pub open spec fn passes_decision(self, accept: bool, post: Self, request: Request) -> bool {
        exists|ble: B| #[trigger]
            B::was_replied(self.ble, accept, ble) && BridgeView { ble, ..self }.decodes(
                post,
                request,
            )
    }

    /// A command from the gateway is carried out.  Messages that are no
    /// commands are ignored.
    pub open spec fn dispatches(
        self,
        msg: Message,
        now_ns: u64,
        post: Self,
        request: Request,
    ) -> bool {
        match msg {
            Message::Reset => self.resets(now_ns, post, request),
            Message::SendFrame { peer_mac, data } => self.sends(peer_mac, data, post, request),
            Message::SetChannel { channel } => self.sets_channel(channel, post, request),
            Message::GetStatus => self.replies(self.status_message(now_ns), post, request),
            Message::ScanChannels => self.scans(post, request),
            Message::BleIndicate { data } => self.indicates(data, post, request),
            Message::BleEnable => self.enables_ble(post, request),
            Message::BleDisable => self.disables_ble(post, request),
            Message::BlePairingConfirmReply { accept } => self.passes_decision(
                accept,
                post,
                request,
            ),
            _ => self.decodes(post, request),
        }
    }

    /// Received bytes are pushed, where there are any; then decoding starts.
    pub open spec fn pushes(self, data: Seq<u8>, post: Self, request: Request) -> bool {
        if data.len() > 0 {
            &&& post == (BridgeView { phase: PhaseView::Pushing, ..self })
            &&& request == (Request::Push { data })
        } else {
            self.decodes(post, request)
        }
    }

    /// A poll begins with a read of the serial link.  After a reconnection the
    /// decoder is reset and MODEM_READY is sent before anything else.
    pub open spec fn begins(self, post: Self, request: Request) -> bool {
        exists|usb: S, data: Seq<u8>, reconnected: bool| #[trigger]
            S::was_read(self.usb, usb, data, reconnected) && data.len() <= 64 && (if reconnected {
                &&& post == (BridgeView {
                    usb,
                    phase: PhaseView::ReconnectReset { pending: data },
                    ..self
                })
                &&& request == Request::ResetDecoder
            } else {
                BridgeView { usb, ..self }.pushes(data, post, request)
            })
    }

    /// What the answer to a decode request leads to.
    pub open spec fn on_decoded(
        self,
        outcome: Decoded,
        now_ns: u64,
        post: Self,
        request: Request,
    ) -> bool {
        match outcome {
            Decoded::Message { msg } => self.dispatches(msg, now_ns, post, request),
            Decoded::Incomplete => self.forwards(
                MAX_RX_FRAMES_PER_POLL as nat,
                now_ns,
                post,
                request,
            ),
            Decoded::FrameTooLarge => {
                &&& post == (BridgeView { phase: PhaseView::Resync, ..self })
                &&& request == Request::ResetDecoder
            },
            Decoded::EmptyFrame => self.decodes(post, request),
            Decoded::Malformed => self.decodes(post, request),
        }
    }

    /// What an encoded message leads to: it is written, and the poll goes on
    /// with what comes next.
    pub open spec fn on_encoded(
        self,
        frame: Option<Seq<u8>>,
        now_ns: u64,
        post: Self,
        request: Request,
    ) -> bool {
        exists|usb: S, ok: bool| #[trigger]
            was_delivered(self.usb, frame, usb, ok) && {
                let sent = BridgeView { usb, phase: PhaseView::Idle, ..self };
                match self.phase {
                    PhaseView::ReconnectReady { pending } => sent.pushes(pending, post, request),
                    PhaseView::Replying => sent.decodes(post, request),
                    PhaseView::Forwarding { left } => BridgeView {
                        counters: if ok {
                            CountersView { rx: next_count(self.counters.rx), ..self.counters }
                        } else {
                            self.counters
                        },
                        ..sent
                    }.forwards(left, now_ns, post, request),
                    PhaseView::Relaying { left } => sent.relays(left, now_ns, post, request),
                    _ => post == sent && request == Request::Finished,
                }
            }
    }

    /// What the answer `reply` to the open request may lead to.
    pub open spec fn resumes(
        self,
        reply: Reply,
        now_ns: u64,
        post: Self,
        request: Request,
    ) -> bool {
        match reply {
            Reply::Decoded { outcome } => self.on_decoded(outcome, now_ns, post, request),
            Reply::Encoded { frame } => self.on_encoded(frame, now_ns, post, request),
            Reply::Done => match self.phase {
                PhaseView::ReconnectReset { pending } => {
                    &&& post == (BridgeView { phase: PhaseView::ReconnectReady { pending }, ..self })
                    &&& request == (Request::Encode { msg: self.ready_message() })
                },
                PhaseView::ResetCommand => self.replies(self.ready_message(), post, request),
                PhaseView::Resync => BridgeView { phase: PhaseView::Idle, ..self }.forwards(
                    MAX_RX_FRAMES_PER_POLL as nat,
                    now_ns,
                    post,
                    request,
                ),
                _ => self.decodes(post, request),
            },
        }
    }
}

/// Bridge between a serial port, a radio, a BLE driver and a button.
pub struct Bridge<S: SerialPort, R: Radio, B: Ble, Btn: ButtonPoll> {
    pub usb: S,
    pub radio: R,
    pub ble: B,
    pub button: Btn,
    pub counters: ModemCounters,
    ble_enabled: bool,
    firmware_version: [u8; 4],
    rx_buf: [u8; 64],
    phase: Phase,
}

impl<S: SerialPort, R: Radio, B: Ble, Btn: ButtonPoll> View for Bridge<S, R, B, Btn> {
    type V = BridgeView<S, R, B, Btn>;

    closed spec fn view(&self) -> BridgeView<S, R, B, Btn> {
        BridgeView {
            usb: self.usb,
            radio: self.radio,
            ble: self.ble,
            button: self.button,
            ble_enabled: self.ble_enabled,
            counters: self.counters@,
            firmware_version: self.firmware_version@,
            phase: self.phase@,
        }
    }
}

impl<S: SerialPort, R: Radio> Bridge<S, R, NoBle, NoButton> {
    /// A bridge without BLE support and without a button.
    pub fn new(usb: S, radio: R, counters: ModemCounters, firmware_version: [u8; 4]) -> (bridge:
        Bridge<S, R, NoBle, NoButton>)
        ensures
            bridge@ == (BridgeView {
                usb,
                radio,
                ble: NoBle,
                button: NoButton,
                ble_enabled: false,
                counters: counters@,
                firmware_version: firmware_version@,
                phase: PhaseView::Idle,
            }),
    {
        Bridge {
            usb,
            radio,
            ble: NoBle,
            button: NoButton,
            counters,
            ble_enabled: false,
            firmware_version,
            rx_buf: [0u8; 64],
            phase: Phase::Idle,
        }
    }
}

impl<S: SerialPort, R: Radio, B: Ble> Bridge<S, R, B, NoButton> {
    /// A bridge with a BLE driver, which is disabled first, and no button.
    pub fn with_ble(
        usb: S,
        radio: R,
        ble: B,
        counters: ModemCounters,
        firmware_version: [u8; 4],
    ) -> (bridge: Bridge<S, R, B, NoButton>)
        ensures
            B::was_disabled(ble, bridge@.ble),
            bridge@ == (BridgeView {
                usb,
                radio,
                ble: bridge@.ble,
                button: NoButton,
                ble_enabled: false,
                counters: counters@,
                firmware_version: firmware_version@,
                phase: PhaseView::Idle,
            }),
    {
        Bridge::with_ble_and_button(usb, radio, ble, NoButton, counters, firmware_version)
    }
}

impl<S: SerialPort, R: Radio, B: Ble, Btn: ButtonPoll> Bridge<S, R, B, Btn> {
    /// A bridge with a BLE driver and a button.
    ///
    /// The BLE driver is disabled first, so that the bridge and the hardware
    /// agree.
    pub fn with_ble_and_button(
        usb: S,
        radio: R,
        ble: B,
        button: Btn,
        counters: ModemCounters,
        firmware_version: [u8; 4],
    ) -> (bridge: Bridge<S, R, B, Btn>)
        ensures
            B::was_disabled(ble, bridge@.ble),
            bridge@ == (BridgeView {
                usb,
                radio,
                ble: bridge@.ble,
                button,
                ble_enabled: false,
                counters: counters@,
                firmware_version: firmware_version@,
                phase: PhaseView::Idle,
            }),
    {
        let mut ble = ble;
        ble.disable();
        Bridge {
            usb,
            radio,
            ble,
            button,
            counters,
            ble_enabled: false,
            firmware_version,
            rx_buf: [0u8; 64],
            phase: Phase::Idle,
        }
    }

    /// Whether the serial link is connected.
    pub fn is_usb_connected(&self) -> (connected: bool)
        ensures
            connected == self@.usb.connected(),
    {
        self.usb.is_connected()
    }

    /// The MODEM_READY message.
    fn modem_ready(&self) -> (msg: ModemMessage)
        ensures
            msg@ == self@.ready_message(),
    {
        ModemMessage::ModemReady(
            ModemReady {
                firmware_version: self.firmware_version,
                mac_address: self.radio.mac_address(),
            },
        )
    }

    /// Begin to send MODEM_READY outside of a poll, such as at boot.
    pub fn send_modem_ready(&mut self) -> (request: CodecRequest)
        requires
            old(self)@.phase == PhaseView::Idle,
        ensures
            final(self)@ == (BridgeView { phase: PhaseView::BootReady, ..old(self)@ }),
            request@ == (Request::Encode { msg: old(self)@.ready_message() }),
    {
        let msg = self.modem_ready();
        self.phase = Phase::BootReady;
        CodecRequest::Encode(msg)
    }

    /// Begin a poll: read the serial link.
    pub fn poll(&mut self) -> (request: CodecRequest)
        requires
            old(self)@.phase == PhaseView::Idle,
        ensures
            old(self)@.begins(final(self)@, request@),
    {
        let ghost before = self@;
        let (n, reconnected) = self.usb.read(&mut self.rx_buf);
        let data = copy_range(self.rx_buf.as_slice(), 0, n);
        assert(data@ =~= self.rx_buf@.take(n as int));
        assert(S::was_read(before.usb, self.usb, data@, reconnected));
        if reconnected {
            self.phase = Phase::ReconnectReset { pending: data };
            CodecRequest::ResetDecoder
        } else {
            self.push(data)
        }
    }

    /// Push received bytes, where there are any, and start decoding.
    fn push(&mut self, data: Vec<u8>) -> (request: CodecRequest)
        ensures
            old(self)@.pushes(data@, final(self)@, request@),
    {
        if data.len() > 0 {
            self.phase = Phase::Pushing;
            CodecRequest::Push(data)
        } else {
            self.decode()
        }
    }

    /// Ask for the next message.
    fn decode(&mut self) -> (request: CodecRequest)
        ensures
            old(self)@.decodes(final(self)@, request@),
    {
        self.phase = Phase::Decoding;
        CodecRequest::Decode
    }

    /// Send `msg` as the answer to a command.
    fn reply(&mut self, msg: ModemMessage) -> (request: CodecRequest)
        ensures
            old(self)@.replies(msg@, final(self)@, request@),
    {
        self.phase = Phase::Replying;
        CodecRequest::Encode(msg)
    }

    /// Write an encoded message to the serial link.  Returns whether that
    /// succeeded.
    fn deliver(&mut self, frame: Option<Vec<u8>>) -> (ok: bool)
        ensures
            final(self)@ == (BridgeView { usb: final(self)@.usb, ..old(self)@ }),
            was_delivered(
                old(self)@.usb,
                match frame {
                    Some(bytes) => Some(bytes@),
                    None => None,
                },
                final(self)@.usb,
                ok,
            ),
    {
        match frame {
            Some(bytes) => self.usb.write(bytes.as_slice()),
            None => false,
        }
    }

    /// Resume with the codec's answer to the open request.  Returns the next
    /// request.
    pub fn resume(&mut self, reply: CodecReply, now_ns: u64) -> (request: CodecRequest)
        requires
            old(self)@.phase.awaits(reply@),
            old(self)@.button.ready(),
        ensures
            final(self)@.button.ready(),
            old(self)@.resumes(reply@, now_ns, final(self)@, request@),
    {
        match reply {
            CodecReply::Decoded(outcome) => self.handle_decoded(outcome, now_ns),
            CodecReply::Encoded(frame) => self.handle_encoded(frame, now_ns),
            CodecReply::Done => self.handle_done(now_ns),
        }
    }

    /// The decoder has carried out a request.
    fn handle_done(&mut self, now_ns: u64) -> (request: CodecRequest)
        requires
            old(self)@.phase.awaits(Reply::Done),
            old(self)@.button.ready(),
        ensures
            final(self)@.button.ready(),
            old(self)@.resumes(Reply::Done, now_ns, final(self)@, request@),
    {
        let mut phase = Phase::Idle;
        std::mem::swap(&mut self.phase, &mut phase);
        match phase {
            Phase::ReconnectReset { pending } => {
                let msg = self.modem_ready();
                self.phase = Phase::ReconnectReady { pending };
                CodecRequest::Encode(msg)
            },
            Phase::ResetCommand => {
                let msg = self.modem_ready();
                self.reply(msg)
            },
            Phase::Resync => self.forward_next(MAX_RX_FRAMES_PER_POLL, now_ns),
            _ => self.decode(),
        }
    }

    /// A message was encoded: write it and go on.
    fn handle_encoded(&mut self, frame: Option<Vec<u8>>, now_ns: u64) -> (request: CodecRequest)
        requires
            old(self)@.phase.awaits(CodecReply::Encoded(frame)@),
            old(self)@.button.ready(),
        ensures
            final(self)@.button.ready(),
            old(self)@.resumes(CodecReply::Encoded(frame)@, now_ns, final(self)@, request@),
    {
        let ok = self.deliver(frame);
        let mut phase = Phase::Idle;
        std::mem::swap(&mut self.phase, &mut phase);
        match phase {
            Phase::ReconnectReady { pending } => self.push(pending),
            Phase::Replying => self.decode(),
            Phase::Forwarding { left } => {
                if ok {
                    self.counters.inc_rx();
                }
                self.forward_next(left, now_ns)
            },
            Phase::Relaying { left } => self.relay_next(left, now_ns),
            _ => CodecRequest::Finished,
        }
    }

    /// The decoder has answered.
    fn handle_decoded(&mut self, outcome: DecodeOutcome, now_ns: u64) -> (request: CodecRequest)
        requires
            old(self)@.phase == PhaseView::Decoding,
            old(self)@.button.ready(),
        ensures
            final(self)@.button.ready(),
            old(self)@.on_decoded(outcome@, now_ns, final(self)@, request@),
    {
        match outcome {
            DecodeOutcome::Message(msg) => self.dispatch(msg, now_ns),
            DecodeOutcome::Incomplete => self.forward_next(MAX_RX_FRAMES_PER_POLL, now_ns),
            DecodeOutcome::FrameTooLarge => {
                // The buffered bytes are cleared so that later ones, such as a
                // RESET, can be parsed.  MODEM_READY is not sent here.
                self.phase = Phase::Resync;
                CodecRequest::ResetDecoder
            },
            // The frame was consumed by the decoder; go on with the next.
            DecodeOutcome::EmptyFrame => self.decode(),
            DecodeOutcome::Malformed => self.decode(),
        }
    }

    /// Forward the next received frame, one at a time, while `left` allows it.
    fn forward_next(&mut self, left: usize, now_ns: u64) -> (request: CodecRequest)
        requires
            old(self)@.button.ready(),
        ensures
            final(self)@.button.ready(),
            old(self)@.forwards(left as nat, now_ns, final(self)@, request@),
    {
        let ghost before = self@;
        if left > 0 {
            let frame = self.radio.drain_one();
            assert(R::was_drained(before.radio, self@.radio, frame_view(frame)));
            match frame {
                Some(rf) => {
                    self.phase = Phase::Forwarding { left: left - 1 };
                    return CodecRequest::Encode(ModemMessage::RecvFrame(rf));
                },
                None => {},
            }
        }
        self.service_ble(now_ns)
    }

    /// Service the BLE layer, then relay its events.
    fn service_ble(&mut self, now_ns: u64) -> (request: CodecRequest)
        requires
            old(self)@.button.ready(),
        ensures
            final(self)@.button.ready(),
            old(self)@.services_ble(now_ns, final(self)@, request@),
    {
        let ghost before = self@;
        self.ble.advance_indication();
        let ghost advanced = self@.ble;
        self.ble.check_pairing_timeout(now_ns);
        let ghost timed = self@.ble;
        self.ble.check_encryption_fallback();
        let ghost checked = self@.ble;
        assert(B::was_advanced(before.ble, advanced));
        assert(B::was_checked_for_timeout(advanced, now_ns, timed));
        assert(B::was_checked_for_encryption(timed, checked));
        assert(self@ == (BridgeView { ble: checked, ..before }));
        self.relay_next(MAX_BLE_EVENTS_PER_POLL, now_ns)
    }

    /// Relay the next BLE event, while `left` allows it.
    fn relay_next(&mut self, left: usize, now_ns: u64) -> (request: CodecRequest)
        requires
            old(self)@.button.ready(),
        ensures
            final(self)@.button.ready(),
            old(self)@.relays(left as nat, now_ns, final(self)@, request@),
    {
        let ghost before = self@;
        if left > 0 {
            let event = self.ble.drain_event();
            assert(B::was_drained(before.ble, self@.ble, event_view(event)));
            match event {
                Some(event) => {
                    let msg = event_message(event);
                    self.phase = Phase::Relaying { left: left - 1 };
                    return CodecRequest::Encode(msg);
                },
                None => {},
            }
        }
        self.poll_button(now_ns)
    }

    /// Poll the button and report a press.
    fn poll_button(&mut self, now_ns: u64) -> (request: CodecRequest)
        requires
            old(self)@.button.ready(),
        ensures
            final(self)@.button.ready(),
            old(self)@.polls_button(now_ns, final(self)@, request@),
    {
        match self.button.poll(now_ns) {
            Some(button_type) => {
                self.phase = Phase::Reporting;
                CodecRequest::Encode(ModemMessage::EventButton(EventButton { button_type }))
            },
            None => {
                self.phase = Phase::Idle;
                CodecRequest::Finished
            },
        }
    }

    /// Carry out a command from the gateway.
    fn dispatch(&mut self, msg: ModemMessage, now_ns: u64) -> (request: CodecRequest)
        requires
            old(self)@.button.ready(),
        ensures
            final(self)@.button.ready(),
            old(self)@.dispatches(msg@, now_ns, final(self)@, request@),
    {
        match msg {
            ModemMessage::Reset => self.handle_reset(now_ns),
            ModemMessage::SendFrame(sf) => self.handle_send_frame(sf),
            ModemMessage::SetChannel(channel) => self.handle_set_channel(channel),
            ModemMessage::GetStatus => self.handle_get_status(now_ns),
            ModemMessage::ScanChannels => self.handle_scan_channels(),
            ModemMessage::BleIndicate(indicate) => self.handle_ble_indicate(indicate.ble_data),
            ModemMessage::BleEnable => self.handle_ble_enable(),
            ModemMessage::BleDisable => self.handle_ble_disable(),
            ModemMessage::BlePairingConfirmReply(reply) => self.handle_ble_pairing_confirm_reply(
                reply,
            ),
            _ => self.decode(),
        }
    }

    /// SEND_FRAME.  The result of the send says whether the frame was queued;
    /// failed deliveries are counted by the driver.
    fn handle_send_frame(&mut self, sf: SendFrame) -> (request: CodecRequest)
        ensures
            final(self)@.button == old(self)@.button,
            old(self)@.sends(sf.peer_mac@, sf.frame_data@, final(self)@, request@),
    {
        let ghost before = self@;
        let queued = self.radio.send(&sf.peer_mac, sf.frame_data.as_slice());
        assert(R::was_sent(before.radio, sf.peer_mac@, sf.frame_data@, self@.radio, queued));
        self.decode()
    }

    /// BLE_INDICATE.
    fn handle_ble_indicate(&mut self, data: Vec<u8>) -> (request: CodecRequest)
        ensures
            final(self)@.button == old(self)@.button,
            old(self)@.indicates(data@, final(self)@, request@),
    {
        let ghost before = self@;
        self.ble.indicate(data.as_slice());
        assert(B::was_indicated(before.ble, data@, self@.ble));
        self.decode()
    }

    /// BLE_ENABLE.  Repeated even if BLE is enabled, to recover from a failed
    /// start.
    fn handle_ble_enable(&mut self) -> (request: CodecRequest)
        ensures
            final(self)@.button == old(self)@.button,
            old(self)@.enables_ble(final(self)@, request@),
    {
        let ghost before = self@;
        self.ble.enable();
        assert(B::was_enabled(before.ble, self@.ble));
        self.ble_enabled = true;
        self.decode()
    }

    /// BLE_DISABLE.  Repeated even if BLE is disabled.
    fn handle_ble_disable(&mut self) -> (request: CodecRequest)
        ensures
            final(self)@.button == old(self)@.button,
            old(self)@.disables_ble(final(self)@, request@),
    {
        let ghost before = self@;
        self.ble.disable();
        assert(B::was_disabled(before.ble, self@.ble));
        self.ble_enabled = false;
        self.decode()
    }

    /// BLE_PAIRING_CONFIRM_REPLY.
    fn handle_ble_pairing_confirm_reply(&mut self, reply: BlePairingConfirmReply) -> (request:
        CodecRequest)
        ensures
            final(self)@.button == old(self)@.button,
            old(self)@.passes_decision(reply.accept, final(self)@, request@),
    {
        let ghost before = self@;
        self.ble.pairing_confirm_reply(reply.accept);
        assert(B::was_replied(before.ble, reply.accept, self@.ble));
        self.decode()
    }

    /// RESET.
    fn handle_reset(&mut self, now_ns: u64) -> (request: CodecRequest)
        ensures
            final(self)@.button == old(self)@.button,
            old(self)@.resets(now_ns, final(self)@, request@),
    {
        let ghost before = self@;
        self.radio.reset_state();
        self.ble.disable();
        let ghost disabled = self@;
        assert(R::was_reset(before.radio, disabled.radio));
        assert(B::was_disabled(before.ble, disabled.ble));
        // Stale events, such as the one for the disconnect just now, must not
        // leak into the next session.
        let mut drained: usize = 0;
        let mut more = true;
        while more && drained < MAX_DRAIN
            invariant
                drained <= MAX_DRAIN,
                self@ == (BridgeView { ble: self@.ble, ..disabled }),
                more ==> forall|post: B|
                    #[trigger] was_discarded(self@.ble, post, (MAX_DRAIN - drained) as nat)
                        ==> was_discarded(disabled.ble, post, MAX_DRAIN as nat),
                !more ==> was_discarded(disabled.ble, self@.ble, MAX_DRAIN as nat),
            decreases
                MAX_DRAIN - drained + (if more {
                    1int
                } else {
                    0int
                }),
        {
            let ghost here = self@.ble;
            let event = self.ble.drain_event();
            if event.is_some() {
                drained = drained + 1;
                proof {
                    assert forall|post: B| #[trigger]
                        was_discarded(self@.ble, post, (MAX_DRAIN - drained) as nat) implies was_discarded(
                        disabled.ble,
                        post,
                        MAX_DRAIN as nat,
                    ) by {
                        assert(was_discarded(here, post, (MAX_DRAIN - drained + 1) as nat));
                    }
                }
            } else {
                proof {
                    assert(was_discarded(here, self@.ble, (MAX_DRAIN - drained) as nat));
                }
                more = false;
            }
        }
        proof {
            if more {
                assert(was_discarded(self@.ble, self@.ble, (MAX_DRAIN - drained) as nat));
            }
            assert(was_discarded(disabled.ble, self@.ble, MAX_DRAIN as nat));
        }
        self.ble_enabled = false;
        self.counters.reset(now_ns / 1_000_000);
        self.phase = Phase::ResetCommand;
        CodecRequest::ResetDecoder
    }

    /// SET_CHANNEL.
    fn handle_set_channel(&mut self, channel: u8) -> (request: CodecRequest)
        ensures
            final(self)@.button == old(self)@.button,
            old(self)@.sets_channel(channel, final(self)@, request@),
    {
        let ghost before = self@;
        let result = self.radio.set_channel(channel);
        assert(R::was_set(before.radio, channel, self@.radio, result));
        match result {
            Ok(()) => self.reply(ModemMessage::SetChannelAck(channel)),
            Err(reason) => {
                let message = copy_bytes(reason.as_bytes());
                self.reply(
                    ModemMessage::Error(
                        ModemError { error_code: MODEM_ERR_CHANNEL_SET_FAILED, message },
                    ),
                )
            },
        }
    }

    /// GET_STATUS.
    fn handle_get_status(&mut self, now_ns: u64) -> (request: CodecRequest)
        ensures
            old(self)@.replies(old(self)@.status_message(now_ns), final(self)@, request@),
    {
        let status = ModemStatus {
            channel: self.radio.channel(),
            uptime_s: self.counters.uptime_s(now_ns / 1_000_000),
            tx_count: self.counters.tx_count(),
            rx_count: self.counters.rx_count(),
            tx_fail_count: self.counters.tx_fail_count(),
        };
        self.reply(ModemMessage::Status(status))
    }

    /// SCAN_CHANNELS.
    fn handle_scan_channels(&mut self) -> (request: CodecRequest)
        ensures
            final(self)@.button == old(self)@.button,
            old(self)@.scans(final(self)@, request@),
    {
        let ghost before = self@;
        let reports = self.radio.scan_channels();
        assert(R::was_scanned(before.radio, self@.radio, reports@));
        let mut entries: Vec<ScanEntry> = Vec::new();
        let mut i: usize = 0;
        while i < reports.len()
            invariant
                i <= reports.len(),
                entries@ == scan_entries(reports@.take(i as int)),
            decreases reports.len() - i,
        {
            let (channel, ap_count, strongest_rssi) = reports[i];
            entries.push(ScanEntry { channel, ap_count, strongest_rssi });
            assert(entries@ =~= scan_entries(reports@.take(i + 1)));
            i = i + 1;
        }
        assert(reports@.take(i as int) =~= reports@);
        self.reply(ModemMessage::ScanResult(ScanResult { entries }))
    }
}

/// RESET is answered with MODEM_READY, after the decoder was reset; by then
/// the radio was reset, BLE is disabled, and all counters read zero.
pub proof fn law_reset_is_answered_with_ready<S: SerialPort, R: Radio, B: Ble, Btn: ButtonPoll>(
    before: BridgeView<S, R, B, Btn>,
    now_ns: u64,
    mid: BridgeView<S, R, B, Btn>,
    first: Request,
    later_ns: u64,
    after: BridgeView<S, R, B, Btn>,
    second: Request,
)
    requires
        before.resumes(
            (Reply::Decoded { outcome: (Decoded::Message { msg: Message::Reset }) }),
            now_ns,
            mid,
            first,
        ),
        mid.resumes(Reply::Done, later_ns, after, second),
    ensures
        first == Request::ResetDecoder,
        second == (Request::Encode { msg: after.ready_message() }),
        R::was_reset(before.radio, after.radio),
        !after.ble_enabled,
        after.counters == before.counters.after_reset(to_ms(now_ns)),
        after.counters.tx == 0 && after.counters.rx == 0 && after.counters.tx_fail == 0,
        after.phase == PhaseView::Replying,
{
}

/// A length prefix beyond the limit makes the bridge reset the decoder and
/// stop decoding for this poll; no message is sent on account of it.
pub proof fn law_oversized_frame_is_not_answered<S: SerialPort, R: Radio, B: Ble, Btn: ButtonPoll>(
    before: BridgeView<S, R, B, Btn>,
    now_ns: u64,
    mid: BridgeView<S, R, B, Btn>,
    first: Request,
)
    requires
        before.resumes((Reply::Decoded { outcome: Decoded::FrameTooLarge }), now_ns, mid, first),
    ensures
        first == Request::ResetDecoder,
        mid == (BridgeView { phase: PhaseView::Resync, ..before }),
        forall|later_ns: u64, after: BridgeView<S, R, B, Btn>, second: Request|
            #[trigger] mid.resumes(Reply::Done, later_ns, after, second) ==> second
                != Request::Decode,
{
}

/// Empty and malformed frames and messages that are no commands change nothing
/// and are not answered: the bridge asks for the next message.
pub proof fn law_other_messages_are_ignored<S: SerialPort, R: Radio, B: Ble, Btn: ButtonPoll>(
    before: BridgeView<S, R, B, Btn>,
    outcome: Decoded,
    now_ns: u64,
    after: BridgeView<S, R, B, Btn>,
    request: Request,
)
    requires
        before.phase == PhaseView::Decoding,
        outcome is EmptyFrame || outcome is Malformed || (outcome matches Decoded::Message { msg }
            && (msg is Unknown || msg is ModemReady || msg is RecvFrame || msg is SetChannelAck
            || msg is Status || msg is ScanResult || msg is Error || msg is BleRecv
            || msg is BleConnected || msg is BleDisconnected || msg is BlePairingConfirm
            || msg is EventButton)),
        before.resumes((Reply::Decoded { outcome }), now_ns, after, request),
    ensures
        after == before,
        request == Request::Decode,
{
}

/// After a reconnection the decoder is reset and MODEM_READY is sent before
/// the bytes that arrived with it are pushed.
pub proof fn law_reconnect_is_announced_first<S: SerialPort, R: Radio, B: Ble, Btn: ButtonPoll>(
    before: BridgeView<S, R, B, Btn>,
    pending: Seq<u8>,
    now_ns: u64,
    mid: BridgeView<S, R, B, Btn>,
    second: Request,
    frame: Option<Seq<u8>>,
    later_ns: u64,
    after: BridgeView<S, R, B, Btn>,
    third: Request,
)
    requires
        before.phase == (PhaseView::ReconnectReset { pending }),
        before.resumes(Reply::Done, now_ns, mid, second),
        mid.resumes((Reply::Encoded { frame }), later_ns, after, third),
    ensures
        second == (Request::Encode { msg: before.ready_message() }),
        third == (if pending.len() > 0 {
            Request::Push { data: pending }
        } else {
            Request::Decode
        }),
{
}

/// A received frame counts as forwarded exactly when its write succeeded; one
/// that cannot be encoded is dropped uncounted.
pub proof fn law_only_written_frames_are_counted<S: SerialPort, R: Radio, B: Ble, Btn: ButtonPoll>(
    before: BridgeView<S, R, B, Btn>,
    left: nat,
    frame: Option<Seq<u8>>,
    now_ns: u64,
    after: BridgeView<S, R, B, Btn>,
    request: Request,
)
    requires
        before.phase == (PhaseView::Forwarding { left }),
        before.resumes((Reply::Encoded { frame }), now_ns, after, request),
    ensures
        exists|ok: bool| #[trigger]
            was_delivered(before.usb, frame, after.usb, ok) && after.counters.rx == (if ok {
                next_count(before.counters.rx)
            } else {
                before.counters.rx
            }),
        frame is None ==> after.counters == before.counters,
{
    let (usb, ok) = choose|usb: S, ok: bool| #[trigger]
        was_delivered(before.usb, frame, usb, ok) && BridgeView {
            counters: if ok {
                CountersView { rx: next_count(before.counters.rx), ..before.counters }
            } else {
                before.counters
            },
            usb,
            phase: PhaseView::Idle,
            ..before
        }.forwards(left, now_ns, after, request);
    assert(was_delivered(before.usb, frame, after.usb, ok));
}

/// Once a poll no longer decodes, it ends: each answer brings it closer to its
/// end, so that at most `MAX_RX_FRAMES_PER_POLL` frames and
/// `MAX_BLE_EVENTS_PER_POLL` events are forwarded.
pub proof fn law_forwarding_ends<S: SerialPort, R: Radio, B: Ble, Btn: ButtonPoll>(
    before: BridgeView<S, R, B, Btn>,
    reply: Reply,
    now_ns: u64,
    after: BridgeView<S, R, B, Btn>,
    request: Request,
)
    requires
        before.phase is Resync || before.phase is Forwarding || before.phase is Relaying
            || before.phase is Reporting,
        before.phase.awaits(reply),
        before.resumes(reply, now_ns, after, request),
    ensures
        after.phase.requests_left() < before.phase.requests_left(),
        request is Finished <==> after.phase is Idle,
        request is Encode || request is Finished,
{
}

/// A poll forwards received frames only after all complete messages were
/// decoded, and starts with the full allowance.
pub proof fn law_forwarding_starts_with_full_allowance<
    S: SerialPort,
    R: Radio,
    B: Ble,
    Btn: ButtonPoll,
>(
    before: BridgeView<S, R, B, Btn>,
    now_ns: u64,
    after: BridgeView<S, R, B, Btn>,
    frame: RxFrame,
)
    requires
        before.resumes(
            (Reply::Decoded { outcome: Decoded::Incomplete }),
            now_ns,
            after,
            (Request::Encode { msg: (Message::RecvFrame { frame }) }),
        ),
    ensures
        after.phase == (PhaseView::Forwarding { left: (MAX_RX_FRAMES_PER_POLL - 1) as nat }),
        R::was_drained(before.radio, after.radio, Some(frame)),
{
}

/// One turn of a poll: the codec's answer and when it came, and where that led.
#[verifier::reject_recursive_types(S)]
#[verifier::reject_recursive_types(R)]
#[verifier::reject_recursive_types(B)]
#[verifier::reject_recursive_types(Btn)]
pub ghost struct Turn<S, R, B, Btn> {
    pub reply: Reply,
    pub now_ns: u64,
    pub after: BridgeView<S, R, B, Btn>,
    pub request: Request,
}

/// Whether `turns` are turns of a poll, one after the other, from `start` on.
pub open spec fn are_turns<S: SerialPort, R: Radio, B: Ble, Btn: ButtonPoll>(
    start: BridgeView<S, R, B, Btn>,
    turns: Seq<Turn<S, R, B, Btn>>,
) -> bool
    decreases turns.len(),
{
    turns.len() > 0 ==> {
        &&& start.phase.awaits(turns[0].reply)
        &&& start.resumes(turns[0].reply, turns[0].now_ns, turns[0].after, turns[0].request)
        &&& are_turns(turns[0].after, turns.drop_first())
    }
}

/// The received frames that `turns` hand to the codec, in order.
pub open spec fn forwarded<S, R, B, Btn>(turns: Seq<Turn<S, R, B, Btn>>) -> Seq<RxFrame>
    decreases turns.len(),
{
    if turns.len() == 0 {
        Seq::empty()
    } else {
        let rest = forwarded(turns.drop_first());
        match turns[0].request {
            Request::Encode { msg: Message::RecvFrame { frame } } => seq![frame] + rest,
            _ => rest,
        }
    }
}

/// Whether draining a radio takes the frames of `queue` from the front.
pub open spec fn drains_in_order<R: Radio>(queue: spec_fn(R) -> Seq<RxFrame>) -> bool {
    forall|pre: R, post: R, frame: Option<RxFrame>| #[trigger]
        R::was_drained(pre, post, frame) ==> (if queue(pre).len() == 0 {
            frame is None && queue(post) == queue(pre)
        } else {
            frame == Some(queue(pre)[0]) && queue(post) == queue(pre).drop_first()
        })
}

/// Once a poll relays events or reports the button, it takes no more frames.
proof fn lemma_forwarding_is_over<S: SerialPort, R: Radio, B: Ble, Btn: ButtonPoll>(
    start: BridgeView<S, R, B, Btn>,
    turns: Seq<Turn<S, R, B, Btn>>,
)
    requires
        start.phase is Relaying || start.phase is Reporting || start.phase is Idle,
        are_turns(start, turns),
    ensures
        forwarded(turns) == Seq::<RxFrame>::empty(),
        turns.len() > 0 ==> turns.last().after.radio == start.radio,
    decreases turns.len(),
{
    if turns.len() > 0 {
        lemma_forwarding_is_over(turns[0].after, turns.drop_first());
        if turns.len() > 1 {
            assert(turns.drop_first().last() == turns.last());
        }
    }
}

/// What forwarding the next frame does to the radio's queue.
proof fn lemma_next_is_forwarded<S: SerialPort, R: Radio, B: Ble, Btn: ButtonPoll>(
    before: BridgeView<S, R, B, Btn>,
    left: nat,
    now_ns: u64,
    after: BridgeView<S, R, B, Btn>,
    request: Request,
    queue: spec_fn(R) -> Seq<RxFrame>,
)
    requires
        drains_in_order(queue),
        before.forwards(left, now_ns, after, request),
    ensures
        ({
            let waiting = queue(before.radio);
            if left == 0 || waiting.len() == 0 {
                &&& after.phase is Relaying || after.phase is Reporting || after.phase is Idle
                &&& after.phase is Idle <==> request is Finished
                &&& !(request matches Request::Encode { msg } && msg is RecvFrame)
                &&& queue(after.radio) == waiting
            } else {
                &&& after.phase == (PhaseView::Forwarding { left: (left - 1) as nat })
                &&& request == (Request::Encode { msg: Message::RecvFrame { frame: waiting[0] } })
                &&& queue(after.radio) == waiting.drop_first()
            }
        }),
{
}

/// How many of `n` frames leave where `left` are allowed to.
pub open spec fn allowance(n: nat, left: nat) -> int {
    if n < left {
        n as int
    } else {
        left as int
    }
}

/// What is left of a poll forwards the waiting frames, as far as allowed.
proof fn lemma_rest_is_forwarded<S: SerialPort, R: Radio, B: Ble, Btn: ButtonPoll>(
    first: BridgeView<S, R, B, Btn>,
    left: nat,
    turns: Seq<Turn<S, R, B, Btn>>,
    queue: spec_fn(R) -> Seq<RxFrame>,
)
    requires
        drains_in_order(queue),
        turns.len() > 0,
        first.forwards(left, turns[0].now_ns, turns[0].after, turns[0].request),
        are_turns(turns[0].after, turns.drop_first()),
        turns.last().request is Finished,
    ensures
        ({
            let waiting = queue(first.radio);
            let n = allowance(waiting.len(), left);
            &&& forwarded(turns) == waiting.take(n)
            &&& queue(turns.last().after.radio) == waiting.skip(n)
        }),
    decreases turns.len(),
{
    let waiting = queue(first.radio);
    let n = allowance(waiting.len(), left);
    let rest = turns.drop_first();
    let after = turns[0].after;
    lemma_next_is_forwarded(first, left, turns[0].now_ns, after, turns[0].request, queue);
    if rest.len() > 0 {
        assert(rest.last() == turns.last());
    }
    if left == 0 || waiting.len() == 0 {
        lemma_forwarding_is_over(after, rest);
        assert(waiting.take(n) =~= Seq::<RxFrame>::empty());
        assert(waiting.skip(n) =~= waiting);
        assert(forwarded(turns) =~= Seq::<RxFrame>::empty());
    } else {
        assert(rest.len() > 0);
        let frame = match rest[0].reply {
            Reply::Encoded { frame } => frame,
            _ => None,
        };
        let (usb, ok) = choose|usb: S, ok: bool| #[trigger]
            was_delivered(after.usb, frame, usb, ok) && (BridgeView {
                counters: if ok {
                    CountersView { rx: next_count(after.counters.rx), ..after.counters }
                } else {
                    after.counters
                },
                usb,
                phase: PhaseView::Idle,
                ..after
            }).forwards((left - 1) as nat, rest[0].now_ns, rest[0].after, rest[0].request);
        let next = BridgeView {
            counters: if ok {
                CountersView { rx: next_count(after.counters.rx), ..after.counters }
            } else {
                after.counters
            },
            usb,
            phase: PhaseView::Idle,
            ..after
        };
        lemma_rest_is_forwarded(next, (left - 1) as nat, rest, queue);
        assert(seq![waiting[0]] + waiting.drop_first().take(n - 1) =~= waiting.take(n));
        assert(waiting.drop_first().skip(n - 1) =~= waiting.skip(n));
    }
}

/// A poll forwards the frames that wait once it has decoded all commands: the
/// first ones, up to `MAX_RX_FRAMES_PER_POLL`, leave the radio's queue and are
/// handed to the codec in order, and the others stay.
pub proof fn law_poll_forwards_waiting_frames<S: SerialPort, R: Radio, B: Ble, Btn: ButtonPoll>(
    start: BridgeView<S, R, B, Btn>,
    turns: Seq<Turn<S, R, B, Btn>>,
    queue: spec_fn(R) -> Seq<RxFrame>,
)
    requires
        drains_in_order(queue),
        are_turns(start, turns),
        turns.len() > 0,
        start.phase == PhaseView::Resync || (start.phase == PhaseView::Decoding && turns[0].reply
            == (Reply::Decoded { outcome: Decoded::Incomplete })),
        turns.last().request is Finished,
    ensures
        ({
            let waiting = queue(start.radio);
            let n = allowance(waiting.len(), MAX_RX_FRAMES_PER_POLL as nat);
            &&& forwarded(turns) == waiting.take(n)
            &&& queue(turns.last().after.radio) == waiting.skip(n)
        }),
{
    let first = if start.phase == PhaseView::Resync {
        BridgeView { phase: PhaseView::Idle, ..start }
    } else {
        start
    };
    lemma_rest_is_forwarded(first, MAX_RX_FRAMES_PER_POLL as nat, turns, queue);
}

/// SEND_FRAME hands the frame to the radio as it is, for the peer that it names,
/// and nothing else: it is not answered, and the next message is asked for.
pub proof fn law_frames_are_handed_to_the_radio<S: SerialPort, R: Radio, B: Ble, Btn: ButtonPoll>(
    before: BridgeView<S, R, B, Btn>,
    now_ns: u64,
    after: BridgeView<S, R, B, Btn>,
    request: Request,
    peer_mac: Seq<u8>,
    data: Seq<u8>,
)
    requires
        before.phase is Decoding,
        before.resumes(
            (Reply::Decoded { outcome: (Decoded::Message { msg: (Message::SendFrame { peer_mac, data }) }) }),
            now_ns,
            after,
            request,
        ),
    ensures
        exists|ok: bool| #[trigger] R::was_sent(before.radio, peer_mac, data, after.radio, ok),
        after == (BridgeView { radio: after.radio, ..before }),
        request == Request::Decode,
{
}

/// SET_CHANNEL sets the radio to the channel that it names, and is answered with
/// that channel where this succeeded, else with an error that says why not.
pub proof fn law_channel_changes_are_answered<S: SerialPort, R: Radio, B: Ble, Btn: ButtonPoll>(
    before: BridgeView<S, R, B, Btn>,
    now_ns: u64,
    after: BridgeView<S, R, B, Btn>,
    request: Request,
    channel: u8,
)
    requires
        before.phase is Decoding,
        before.resumes(
            (Reply::Decoded { outcome: (Decoded::Message { msg: (Message::SetChannel { channel }) }) }),
            now_ns,
            after,
            request,
        ),
    ensures
        exists|result: Result<(), &'static str>| #[trigger]
            R::was_set(before.radio, channel, after.radio, result) && match result {
                Ok(_) => request == (Request::Encode { msg: (Message::SetChannelAck { channel }) }),
                Err(reason) => request == (Request::Encode {
                    msg: (Message::Error {
                        code: ModemErrorCode::ChannelSetFailed,
                        message: reason.spec_bytes(),
                    }),
                }),
            },
        after == (BridgeView { radio: after.radio, phase: PhaseView::Replying, ..before }),
{
    let (radio, result) = choose|radio: R, result: Result<(), &'static str>| #[trigger]
        R::was_set(before.radio, channel, radio, result) && BridgeView { radio, ..before }.replies(
            BridgeView::<S, R, B, Btn>::channel_message(channel, result),
            after,
            request,
        );
    assert(R::was_set(before.radio, channel, after.radio, result));
}

/// GET_STATUS is answered with the radio's channel, the uptime in seconds and the
/// three counters, each in its own place, and changes nothing.
pub proof fn law_status_reports_the_counters<S: SerialPort, R: Radio, B: Ble, Btn: ButtonPoll>(
    before: BridgeView<S, R, B, Btn>,
    now_ns: u64,
    after: BridgeView<S, R, B, Btn>,
    request: Request,
)
    requires
        before.phase is Decoding,
        before.resumes(
            (Reply::Decoded { outcome: (Decoded::Message { msg: Message::GetStatus }) }),
            now_ns,
            after,
            request,
        ),
    ensures
        request matches Request::Encode { msg } && (msg matches Message::Status { status } && {
            &&& status.channel == before.radio.on_channel()
            &&& status.uptime_s as int == before.counters.uptime(to_ms(now_ns))
            &&& status.tx_count == before.counters.tx
            &&& status.rx_count == before.counters.rx
            &&& status.tx_fail_count == before.counters.tx_fail
        }),
        after == (BridgeView { phase: PhaseView::Replying, ..before }),
{
}

/// SCAN_CHANNELS is answered with the radio's reports: one entry for each, in
/// order, with its channel, its number of access points and its signal.
pub proof fn law_scans_are_reported_whole<S: SerialPort, R: Radio, B: Ble, Btn: ButtonPoll>(
    before: BridgeView<S, R, B, Btn>,
    now_ns: u64,
    after: BridgeView<S, R, B, Btn>,
    request: Request,
)
    requires
        before.phase is Decoding,
        before.resumes(
            (Reply::Decoded { outcome: (Decoded::Message { msg: Message::ScanChannels }) }),
            now_ns,
            after,
            request,
        ),
    ensures
        exists|reports: Seq<(u8, u8, i8)>| #[trigger]
            R::was_scanned(before.radio, after.radio, reports) && (request matches Request::Encode {
                msg,
            } && (msg matches Message::ScanResult { entries } && {
                &&& entries.len() == reports.len()
                &&& forall|i: int|
                    0 <= i < entries.len() ==> (#[trigger] entries[i]).channel == reports[i].0
                        && entries[i].ap_count == reports[i].1 && entries[i].strongest_rssi
                        == reports[i].2
            })),
        after == (BridgeView { radio: after.radio, phase: PhaseView::Replying, ..before }),
{
    let (radio, reports) = choose|radio: R, reports: Seq<(u8, u8, i8)>| #[trigger]
        R::was_scanned(before.radio, radio, reports) && BridgeView { radio, ..before }.replies(
            Message::ScanResult { entries: scan_entries(reports) },
            after,
            request,
        );
    assert(R::was_scanned(before.radio, after.radio, reports));
}

/// The commands for BLE are passed on as they are: data for the phone, the
/// operator's decision, and switching it on or off; none of them is answered.
pub proof fn law_ble_commands_are_passed_on<S: SerialPort, R: Radio, B: Ble, Btn: ButtonPoll>(
    before: BridgeView<S, R, B, Btn>,
    now_ns: u64,
    after: BridgeView<S, R, B, Btn>,
    request: Request,
    msg: Message,
)
    requires
        before.phase is Decoding,
        before.resumes(
            (Reply::Decoded { outcome: (Decoded::Message { msg: msg }) }),
            now_ns,
            after,
            request,
        ),
    ensures
        msg matches Message::BleIndicate { data } ==> B::was_indicated(before.ble, data, after.ble)
            && after == (BridgeView { ble: after.ble, ..before }) && request == Request::Decode,
        msg matches Message::BlePairingConfirmReply { accept } ==> B::was_replied(
            before.ble,
            accept,
            after.ble,
        ) && after == (BridgeView { ble: after.ble, ..before }) && request == Request::Decode,
        msg is BleEnable ==> B::was_enabled(before.ble, after.ble) && after == (BridgeView {
            ble: after.ble,
            ble_enabled: true,
            ..before
        }) && request == Request::Decode,
        msg is BleDisable ==> B::was_disabled(before.ble, after.ble) && after == (BridgeView {
            ble: after.ble,
            ble_enabled: false,
            ..before
        }) && request == Request::Decode,
{
}

/// An encoded message is written to the serial link as it is, whatever it was
/// for; one that could not be encoded is not.  Nothing else is written.
pub proof fn law_encoded_messages_are_written<S: SerialPort, R: Radio, B: Ble, Btn: ButtonPoll>(
    before: BridgeView<S, R, B, Btn>,
    now_ns: u64,
    after: BridgeView<S, R, B, Btn>,
    request: Request,
    frame: Option<Seq<u8>>,
)
    requires
        before.resumes((Reply::Encoded { frame }), now_ns, after, request),
    ensures
        frame matches Some(bytes) ==> exists|ok: bool| #[trigger]
            S::was_written(before.usb, bytes, after.usb, ok),
        frame is None ==> after.usb == before.usb,
        after.firmware_version == before.firmware_version,
        after.ble_enabled == before.ble_enabled,
        !(before.phase is Forwarding) ==> after.counters == before.counters,
        after.counters.tx == before.counters.tx && after.counters.tx_fail
            == before.counters.tx_fail,
{
    let (usb, ok) = choose|usb: S, ok: bool| #[trigger]
        was_delivered(before.usb, frame, usb, ok) && {
            let sent = BridgeView { usb, phase: PhaseView::Idle, ..before };
            match before.phase {
                PhaseView::ReconnectReady { pending } => sent.pushes(pending, after, request),
                PhaseView::Replying => sent.decodes(after, request),
                PhaseView::Forwarding { left } => BridgeView {
                    counters: if ok {
                        CountersView { rx: next_count(before.counters.rx), ..before.counters }
                    } else {
                        before.counters
                    },
                    ..sent
                }.forwards(left, now_ns, after, request),
                PhaseView::Relaying { left } => sent.relays(left, now_ns, after, request),
                _ => after == sent && request == Request::Finished,
            }
        };
    assert(after.usb == usb);
    if let Some(bytes) = frame {
        assert(S::was_written(before.usb, bytes, after.usb, ok));
    }
}

/// No command and no event is written before it is encoded: only an encoded
/// message makes the bridge write.
pub proof fn law_nothing_else_is_written<S: SerialPort, R: Radio, B: Ble, Btn: ButtonPoll>(
    before: BridgeView<S, R, B, Btn>,
    now_ns: u64,
    after: BridgeView<S, R, B, Btn>,
    request: Request,
    reply: Reply,
)
    requires
        !(reply is Encoded),
        before.resumes(reply, now_ns, after, request),
    ensures
        after.usb == before.usb,
        after.firmware_version == before.firmware_version,
{
}

/// Once per poll, after the received frames, the BLE layer is serviced: its
/// indications advance by a chunk, and the pairing timeout and then the link's
/// security are checked; its first event, if there is one, is then reported.
pub proof fn law_ble_is_serviced_in_order<S: SerialPort, R: Radio, B: Ble, Btn: ButtonPoll>(
    before: BridgeView<S, R, B, Btn>,
    now_ns: u64,
    after: BridgeView<S, R, B, Btn>,
    request: Request,
)
    requires
        before.forwards(0, now_ns, after, request),
    ensures
        exists|advanced: B, timed: B, checked: B| #[trigger]
            B::was_advanced(before.ble, advanced) && #[trigger] B::was_checked_for_timeout(
                advanced,
                now_ns,
                timed,
            ) && #[trigger] B::was_checked_for_encryption(timed, checked) && (
            after.phase is Relaying ==> after.phase == (PhaseView::Relaying { left: 15 }) && exists|
                note: BleNote,
            | #[trigger]
                B::was_drained(checked, after.ble, Some(note)) && request == (Request::Encode {
                    msg: note.message(),
                })) && (!(after.phase is Relaying) ==> B::was_drained(
                checked,
                after.ble,
                None::<BleNote>,
            )),
        after.radio == before.radio && after.usb == before.usb,
        after.counters == before.counters,
{
    let (advanced, timed, checked) = choose|advanced: B, timed: B, checked: B| #[trigger]
        B::was_advanced(before.ble, advanced) && #[trigger] B::was_checked_for_timeout(
            advanced,
            now_ns,
            timed,
        ) && #[trigger] B::was_checked_for_encryption(timed, checked) && BridgeView {
            ble: checked,
            ..before
        }.relays(MAX_BLE_EVENTS_PER_POLL as nat, now_ns, after, request);
    let serviced = BridgeView { ble: checked, ..before };
    let (ble, event) = choose|ble: B, event: Option<BleNote>| #[trigger]
        B::was_drained(checked, ble, event) && match event {
            Some(note) => {
                &&& after == (BridgeView { ble, phase: PhaseView::Relaying { left: 15 }, ..serviced })
                &&& request == (Request::Encode { msg: note.message() })
            },
            None => BridgeView { ble, ..serviced }.polls_button(now_ns, after, request),
        };
    if let Some(note) = event {
        assert(B::was_drained(checked, after.ble, Some(note)));
    }
    assert(B::was_advanced(before.ble, advanced));
}

/// BLE events are reported one by one: each turn takes the next one, while fewer
/// than sixteen were taken, or finds that there is none; then the button follows.
pub proof fn law_ble_events_are_reported_one_by_one<S: SerialPort, R: Radio, B: Ble, Btn: ButtonPoll>(
    before: BridgeView<S, R, B, Btn>,
    now_ns: u64,
    after: BridgeView<S, R, B, Btn>,
    request: Request,
    frame: Option<Seq<u8>>,
    left: nat,
)
    requires
        before.phase == (PhaseView::Relaying { left }),
        before.resumes((Reply::Encoded { frame }), now_ns, after, request),
    ensures
        after.phase is Relaying ==> left > 0 && after.phase == (PhaseView::Relaying {
            left: (left - 1) as nat,
        }) && exists|note: BleNote| #[trigger]
            B::was_drained(before.ble, after.ble, Some(note)) && request == (Request::Encode {
                msg: note.message(),
            }),
        !(after.phase is Relaying) && left > 0 ==> B::was_drained(
            before.ble,
            after.ble,
            None::<BleNote>,
        ),
        !(after.phase is Relaying) && left == 0 ==> after.ble == before.ble,
        !(after.phase is Relaying) ==> after.phase is Reporting || after.phase is Idle,
        after.radio == before.radio,
        MAX_BLE_EVENTS_PER_POLL == 16,
        MAX_RX_FRAMES_PER_POLL == 16,
{
    let (usb, ok) = choose|usb: S, ok: bool| #[trigger]
        was_delivered(before.usb, frame, usb, ok) && BridgeView {
            usb,
            phase: PhaseView::Idle,
            ..before
        }.relays(left, now_ns, after, request);
    let sent = BridgeView { usb, phase: PhaseView::Idle, ..before };
    if left > 0 {
        let (ble, event) = choose|ble: B, event: Option<BleNote>| #[trigger]
            B::was_drained(sent.ble, ble, event) && match event {
                Some(note) => {
                    &&& after == (BridgeView {
                        ble,
                        phase: PhaseView::Relaying { left: (left - 1) as nat },
                        ..sent
                    })
                    &&& request == (Request::Encode { msg: note.message() })
                },
                None => BridgeView { ble, ..sent }.polls_button(now_ns, after, request),
            };
        if let Some(note) = event {
            assert(B::was_drained(before.ble, after.ble, Some(note)));
        }
    }
}

/// The button is polled at the end of a poll, with the time of the poll; a press
/// is reported with its type, and without one the poll is over.
pub proof fn law_button_presses_are_reported<S: SerialPort, R: Radio, B: Ble, Btn: ButtonPoll>(
    before: BridgeView<S, R, B, Btn>,
    now_ns: u64,
    after: BridgeView<S, R, B, Btn>,
    request: Request,
)
    requires
        before.relays(0, now_ns, after, request),
    ensures
        after.phase is Reporting ==> exists|button_type: ButtonType| #[trigger]
            Btn::polled(before.button, now_ns, after.button, Some(button_type)) && request == (
            Request::Encode { msg: (Message::EventButton { button_type }) }),
        !(after.phase is Reporting) ==> after.phase is Idle && request is Finished && Btn::polled(
            before.button,
            now_ns,
            after.button,
            None::<ButtonType>,
        ),
        after == (BridgeView { button: after.button, phase: after.phase, ..before }),
{
    let (button, event) = choose|button: Btn, event: Option<ButtonType>| #[trigger]
        Btn::polled(before.button, now_ns, button, event) && match event {
            Some(button_type) => {
                &&& after == (BridgeView { button, phase: PhaseView::Reporting, ..before })
                &&& request == (Request::Encode { msg: Message::EventButton { button_type } })
            },
            None => {
                &&& after == (BridgeView { button, phase: PhaseView::Idle, ..before })
                &&& request == Request::Finished
            },
        };
    if let Some(button_type) = event {
        assert(Btn::polled(before.button, now_ns, after.button, Some(button_type)));
    }
}

/// A poll begins with a read, and hands exactly the bytes that came to the
/// decoder; where the link has just come back, the decoder is reset first and
/// the bytes are kept for later.
pub proof fn law_received_bytes_are_decoded<S: SerialPort, R: Radio, B: Ble, Btn: ButtonPoll>(
    before: BridgeView<S, R, B, Btn>,
    after: BridgeView<S, R, B, Btn>,
    request: Request,
)
    requires
        before.begins(after, request),
    ensures
        exists|data: Seq<u8>, reconnected: bool| #[trigger]
            S::was_read(before.usb, after.usb, data, reconnected) && {
                &&& reconnected ==> request == Request::ResetDecoder && after.phase == (
                PhaseView::ReconnectReset { pending: data })
                &&& !reconnected && data.len() > 0 ==> request == (Request::Push { data })
                    && after.phase is Pushing
                &&& !reconnected && data.len() == 0 ==> request == Request::Decode
                    && after.phase is Decoding
            },
        after == (BridgeView { usb: after.usb, phase: after.phase, ..before }),
{
    let (usb, data, reconnected) = choose|usb: S, data: Seq<u8>, reconnected: bool| #[trigger]
        S::was_read(before.usb, usb, data, reconnected) && data.len() <= 64 && (if reconnected {
            &&& after == (BridgeView {
                usb,
                phase: PhaseView::ReconnectReset { pending: data },
                ..before
            })
            &&& request == Request::ResetDecoder
        } else {
            BridgeView { usb, ..before }.pushes(data, after, request)
        });
    assert(S::was_read(before.usb, after.usb, data, reconnected));
}

/// Bytes that were handed to the decoder are decoded next, and the message after
/// an answered command follows it.
pub proof fn law_decoding_goes_on<S: SerialPort, R: Radio, B: Ble, Btn: ButtonPoll>(
    before: BridgeView<S, R, B, Btn>,
    now_ns: u64,
    after: BridgeView<S, R, B, Btn>,
    request: Request,
    frame: Option<Seq<u8>>,
)
    ensures
        before.phase is Pushing && before.resumes(Reply::Done, now_ns, after, request) ==> request
            == Request::Decode && after == (BridgeView { phase: PhaseView::Decoding, ..before }),
        before.phase is Replying && before.resumes(
            (Reply::Encoded { frame }),
            now_ns,
            after,
            request,
        ) ==> request == Request::Decode && after == (BridgeView {
            usb: after.usb,
            phase: PhaseView::Decoding,
            ..before
        }),
{
}

/// MODEM_READY carries the firmware's version and the radio's own address.
pub proof fn law_ready_identifies_the_modem<S: SerialPort, R: Radio, B: Ble, Btn: ButtonPoll>(bridge: BridgeView<S, R, B, Btn>)
    ensures
        bridge.ready_message() matches Message::ModemReady { firmware_version, mac_address }
            && firmware_version == bridge.firmware_version && mac_address
            == bridge.radio.own_mac()@,
{
}

/// Time is counted in whole milliseconds, and digits are read as the number that
/// they stand for.
pub proof fn law_times_and_versions_are_read(ns: u64, text: Seq<char>)
    requires
        all_digits(text),
    ensures
        to_ms(ns) * 1_000_000 <= ns < (to_ms(ns) + 1) * 1_000_000,
        decimal(text) == decimal_value(text),
{
    lemma_digits_are_read(text);
}

/// See `law_times_and_versions_are_read`.
proof fn lemma_digits_are_read(text: Seq<char>)
    requires
        forall|i: int| 0 <= i < text.len() ==> '0' <= #[trigger] text[i] <= '9',
    ensures
        decimal(text) == decimal_value(text),
    decreases text.len(),
{
    if text.len() > 0 {
        let rest = text.drop_last();
        assert(text.last() == text[text.len() - 1]);
        assert forall|i: int| 0 <= i < rest.len() implies '0' <= #[trigger] rest[i] <= '9' by {
            assert(rest[i] == text[i]);
        }
        lemma_digits_are_read(rest);
    }
}

/// Whether draining a BLE layer takes the events of `queue` from the front.
pub open spec fn events_in_order<B: Ble>(queue: spec_fn(B) -> Seq<BleNote>) -> bool {
    forall|pre: B, post: B, event: Option<BleNote>| #[trigger]
        B::was_drained(pre, post, event) ==> (if queue(pre).len() == 0 {
            event is None && queue(post) == queue(pre)
        } else {
            event == Some(queue(pre)[0]) && queue(post) == queue(pre).drop_first()
        })
}

/// A RESET leaves no stale event of up to 256 behind: the BLE layer is disabled
/// first, and the events that wait then are discarded from the front.
pub proof fn law_reset_discards_stale_events<S: SerialPort, R: Radio, B: Ble, Btn: ButtonPoll>(
    before: BridgeView<S, R, B, Btn>,
    now_ns: u64,
    after: BridgeView<S, R, B, Btn>,
    request: Request,
    queue: spec_fn(B) -> Seq<BleNote>,
)
    requires
        events_in_order(queue),
        before.phase is Decoding,
        before.resumes(
            (Reply::Decoded { outcome: (Decoded::Message { msg: Message::Reset }) }),
            now_ns,
            after,
            request,
        ),
    ensures
        exists|disabled: B| #[trigger]
            B::was_disabled(before.ble, disabled) && (queue(disabled).len() <= 256 ==> queue(
                after.ble,
            ).len() == 0) && (queue(disabled).len() > 256 ==> queue(after.ble) == queue(
                disabled,
            ).skip(256)),
        after.usb == before.usb && after.button == before.button,
        after.firmware_version == before.firmware_version,
{
    let (radio, disabled, ble) = choose|radio: R, disabled: B, ble: B| #[trigger]
        R::was_reset(before.radio, radio) && #[trigger] B::was_disabled(before.ble, disabled)
            && #[trigger] was_discarded(disabled, ble, MAX_DRAIN as nat) && after == (BridgeView {
            radio,
            ble,
            ble_enabled: false,
            counters: before.counters.after_reset(to_ms(now_ns)),
            phase: PhaseView::ResetCommand,
            ..before
        });
    lemma_events_are_discarded(disabled, ble, 256, queue);
    assert(B::was_disabled(before.ble, disabled));
}

/// Discarding takes events from the front, as many as there are or as allowed.
proof fn lemma_events_are_discarded<B: Ble>(
    pre: B,
    post: B,
    limit: nat,
    queue: spec_fn(B) -> Seq<BleNote>,
)
    requires
        events_in_order(queue),
        was_discarded(pre, post, limit),
    ensures
        queue(pre).len() <= limit ==> queue(post).len() == 0,
        queue(pre).len() > limit ==> queue(post) == queue(pre).skip(limit as int),
    decreases limit,
{
    if limit == 0 {
        assert(queue(pre).skip(0) =~= queue(pre));
    } else {
        let (mid, event) = choose|mid: B, event: Option<BleNote>| #[trigger]
            B::was_drained(pre, mid, event) && (if event is Some {
                was_discarded(mid, post, (limit - 1) as nat)
            } else {
                post == mid
            });
        if event is Some {
            lemma_events_are_discarded(mid, post, (limit - 1) as nat, queue);
            if queue(pre).len() > limit {
                assert(queue(pre).drop_first().skip(limit - 1) =~= queue(pre).skip(limit as int));
            }
        }
    }
}

/// What the bridge asks of the codec stands for itself.
pub proof fn law_requests_stand_for_themselves(request: CodecRequest)
    ensures
        request is ResetDecoder <==> request@ is ResetDecoder,
        request is Decode <==> request@ is Decode,
        request is Finished <==> request@ is Finished,
        request matches CodecRequest::Push(data) ==> request@ == (Request::Push { data: data@ }),
        request matches CodecRequest::Encode(msg) ==> request@ == (Request::Encode { msg: msg@ }),
{
}

} // verus!
