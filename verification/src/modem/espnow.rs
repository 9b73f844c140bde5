//! ESP-NOW driver logic: the receive ring, peer registration, channel
//! changes and channel scans.
//!
//! The radio stack itself is driven from outside: each operation here decides
//! what the stack is to be told and takes what the stack answered.

use vstd::prelude::*;

use crate::bytes::copy_range;
use crate::modem::peer_table::{lists_macs, PeerTable, TableView};
use crate::modem::status::{count_after, next_count, CountersView, ModemCounters};

verus! {

/// Largest payload of one ESP-NOW frame.
pub const ESPNOW_MAX_DATA_SIZE: usize = 250;

/// Capacity of the receive ring buffer, in frames.
pub const RX_RING_CAP: usize = 16;

/// A frame received over the radio.
#[derive(Debug, PartialEq, Eq)]
pub struct RecvFrame {
    pub peer_mac: [u8; 6],
    pub rssi: i8,
    pub frame_data: Vec<u8>,
}

/// A received frame as mathematical values.
pub ghost struct RxFrame {
    pub peer_mac: Seq<u8>,
    pub rssi: i8,
    pub data: Seq<u8>,
}

impl View for RecvFrame {
    type V = RxFrame;

    open spec fn view(&self) -> RxFrame {
        RxFrame { peer_mac: self.peer_mac@, rssi: self.rssi, data: self.frame_data@ }
    }
}

/// A pre-allocated slot of the receive ring.
#[derive(Clone, Copy)]
struct RecvSlot {
    peer_mac: [u8; 6],
    rssi: i8,
    data: [u8; 250],
    len: usize,
}

impl RecvSlot {
    /// The frame that the slot holds.
    spec fn frame(self) -> RxFrame {
        RxFrame {
            peer_mac: self.peer_mac@,
            rssi: self.rssi,
            data: self.data@.take(self.len as int),
        }
    }
}

/// What a receive ring holds: the frames, oldest first, and the number of
/// frames that were dropped since the count was last taken.
pub ghost struct RingView {
    pub frames: Seq<RxFrame>,
    pub drops: u32,
}

impl RingView {
    /// Whether a frame of `len` bytes is taken in.
    pub open spec fn admits(self, len: nat) -> bool {
        self.frames.len() < RX_RING_CAP && len <= ESPNOW_MAX_DATA_SIZE
    }

    /// The ring after a frame was offered to it.
    pub open spec fn after_push(self, frame: RxFrame) -> RingView {
        if self.admits(frame.data.len()) {
            RingView { frames: self.frames.push(frame), ..self }
        } else {
            self
        }
    }
}

/// `n` plus one, or `n` where it is the largest `u32`.
pub open spec fn one_more_capped(n: u32) -> u32 {
    if n == u32::MAX {
        n
    } else {
        (n + 1) as u32
    }
}

/// Fixed-capacity ring buffer for received frames.  All storage is allocated
/// up front, so a push never allocates.
pub struct RxRing {
    slots: [RecvSlot; 16],
    head: usize,
    tail: usize,
    count: usize,
    drop_count: u32,
}

impl View for RxRing {
    type V = RingView;

    closed spec fn view(&self) -> RingView {
        RingView {
            frames: Seq::new(
                self.count as nat,
                |i: int| self.slots@[(self.tail + i) % 16].frame(),
            ),
            drops: self.drop_count,
        }
    }
}

impl Default for RxRing {
    fn default() -> (ring: RxRing)
        ensures
            ring.wf(),
            ring@ == (RingView { frames: Seq::empty(), drops: 0 }),
    {
        RxRing::new()
    }
}

impl RxRing {
    /// The indices stay within the slots and agree with the count, and every
    /// slot's length fits its storage.
    pub closed spec fn wf(&self) -> bool {
        &&& self.head < 16
        &&& self.tail < 16
        &&& self.count <= 16
        &&& self.head as int == (self.tail + self.count) % 16
        &&& forall|i: int| 0 <= i < 16 ==> (#[trigger] self.slots@[i]).len <= 250
    }

    /// An empty ring.
    pub fn new() -> (ring: RxRing)
        ensures
            ring.wf(),
            ring@ == (RingView { frames: Seq::empty(), drops: 0 }),
    {
        let empty = RecvSlot { peer_mac: [0u8; 6], rssi: 0, data: [0u8; 250], len: 0 };
        let ring = RxRing { slots: [empty; 16], head: 0, tail: 0, count: 0, drop_count: 0 };
        assert(ring@.frames =~= Seq::<RxFrame>::empty());
        ring
    }

    /// Copy a received frame into the next slot.  Returns `false` if the ring
    /// is full or the payload is too long.
    pub fn push(&mut self, peer_mac: &[u8; 6], rssi: i8, payload: &[u8]) -> (pushed: bool)
        requires
            old(self).wf(),
        ensures
            final(self).wf(),
            pushed == old(self)@.admits(payload@.len()),
            final(self)@ == old(self)@.after_push(
                RxFrame { peer_mac: peer_mac@, rssi, data: payload@ },
            ),
    {
        if self.count >= RX_RING_CAP || payload.len() > ESPNOW_MAX_DATA_SIZE {
            return false;
        }
        let ghost before = *self;
        let mut slot = self.slots[self.head];
        slot.peer_mac = *peer_mac;
        slot.rssi = rssi;
        slot.len = payload.len();
        let mut i: usize = 0;
        while i < payload.len()
            invariant
                i <= payload.len() <= 250,
                slot.peer_mac == *peer_mac,
                slot.rssi == rssi,
                slot.len == payload.len(),
                forall|j: int| 0 <= j < i ==> slot.data@[j] == payload@[j],
            decreases payload.len() - i,
        {
            slot.data[i] = payload[i];
            i = i + 1;
        }
        self.slots[self.head] = slot;
        self.head = (self.head + 1) % RX_RING_CAP;
        self.count = self.count + 1;
        proof {
            assert(slot.frame().data =~= payload@);
            let frame = RxFrame { peer_mac: peer_mac@, rssi, data: payload@ };
            assert(self@.frames =~= before@.frames.push(frame));
        }
        true
    }

    /// Copy the oldest frame's payload into `buf` and remove the frame.
    /// Returns its sender, its signal strength and its length.
    pub fn pop_into(&mut self, buf: &mut [u8; 250]) -> (popped: Option<([u8; 6], i8, usize)>)
        requires
            old(self).wf(),
        ensures
            final(self).wf(),
            final(self)@.drops == old(self)@.drops,
            match popped {
                Some((mac, rssi, len)) => {
                    let first = old(self)@.frames[0];
                    &&& old(self)@.frames.len() > 0
                    &&& final(self)@.frames == old(self)@.frames.drop_first()
                    &&& mac@ == first.peer_mac
                    &&& rssi == first.rssi
                    &&& len as int == first.data.len()
                    &&& len <= 250
                    &&& final(buf)@ == first.data + old(buf)@.skip(len as int)
                },
                None => {
                    &&& old(self)@.frames.len() == 0
                    &&& final(self)@.frames == old(self)@.frames
                    &&& final(buf)@ == old(buf)@
                },
            },
    {
        if self.count == 0 {
            return None;
        }
        let ghost before = *self;
        let ghost before_buf = buf@;
        let slot = self.slots[self.tail];
        let len = slot.len;
        let mut i: usize = 0;
        while i < len
            invariant
                i <= len <= 250,
                before_buf.len() == 250,
                buf@.len() == 250,
                forall|j: int| 0 <= j < i ==> buf@[j] == slot.data@[j],
                forall|j: int| i <= j < 250 ==> buf@[j] == before_buf[j],
            decreases len - i,
        {
            buf[i] = slot.data[i];
            i = i + 1;
        }
        self.tail = (self.tail + 1) % RX_RING_CAP;
        self.count = self.count - 1;
        proof {
            assert(before@.frames[0] == slot.frame());
            assert(self@.frames =~= before@.frames.drop_first());
            assert(buf@ =~= slot.frame().data + before_buf.skip(len as int));
        }
        Some((slot.peer_mac, slot.rssi, len))
    }

    /// Discard all buffered frames and the drop count.
    pub fn clear(&mut self)
        requires
            old(self).wf(),
        ensures
            final(self).wf(),
            final(self)@ == (RingView { frames: Seq::empty(), drops: 0 }),
    {
        self.head = 0;
        self.tail = 0;
        self.count = 0;
        self.drop_count = 0;
        assert(self@.frames =~= Seq::<RxFrame>::empty());
    }

    /// Take in a frame from the receive callback, counting it as dropped where
    /// the ring cannot hold it.
    pub fn push_or_count(&mut self, peer_mac: &[u8; 6], rssi: i8, payload: &[u8])
        requires
            old(self).wf(),
        ensures
            final(self).wf(),
            final(self)@ == (if old(self)@.admits(payload@.len()) {
                old(self)@.after_push(RxFrame { peer_mac: peer_mac@, rssi, data: payload@ })
            } else {
                RingView { drops: one_more_capped(old(self)@.drops), ..old(self)@ }
            }),
    {
        if !self.push(peer_mac, rssi, payload) {
            self.drop_count = self.drop_count.saturating_add(1);
        }
    }

    /// Remove the oldest frame, and take the count of dropped frames.
    pub fn drain_one(&mut self) -> (drained: (Option<RecvFrame>, u32))
        requires
            old(self).wf(),
        ensures
            final(self).wf(),
            drained.1 == old(self)@.drops,
            final(self)@.drops == 0,
            match drained.0 {
                Some(frame) => {
                    &&& old(self)@.frames.len() > 0
                    &&& frame@ == old(self)@.frames[0]
                    &&& final(self)@.frames == old(self)@.frames.drop_first()
                },
                None => old(self)@.frames.len() == 0 && final(self)@.frames == old(self)@.frames,
            },
    {
        let mut buf: [u8; 250] = [0u8; 250];
        let full_drops = self.drop_count;
        let ghost before = *self;
        self.drop_count = 0;
        assert(self@.frames =~= before@.frames);
        match self.pop_into(&mut buf) {
            Some((peer_mac, rssi, len)) => {
                let frame_data = copy_range(buf.as_slice(), 0, len);
                proof {
                    assert(frame_data@ =~= before@.frames[0].data);
                }
                (Some(RecvFrame { peer_mac, rssi, frame_data }), full_drops)
            },
            None => (None, full_drops),
        }
    }
}

/// Frames leave the ring in the order in which they entered it: what was
/// pushed onto a ring of `n` frames comes out after exactly those `n`.
pub proof fn law_ring_is_fifo(ring: RingView, frame: RxFrame)
    requires
        ring.admits(frame.data.len()),
    ensures
        ring.after_push(frame).frames.skip(ring.frames.len() as int) == seq![frame],
        ring.after_push(frame).frames.take(ring.frames.len() as int) == ring.frames,
{
    let after = ring.after_push(frame).frames;
    assert(after.skip(ring.frames.len() as int) =~= seq![frame]);
    assert(after.take(ring.frames.len() as int) =~= ring.frames);
}

/// An access point that a scan reported: its channel and signal strength.
pub struct AccessPoint {
    pub channel: u8,
    pub signal_strength: i8,
}

/// How many of the access points are on channel `ch`.
pub open spec fn seen_on(aps: Seq<AccessPoint>, ch: int) -> nat
    decreases aps.len(),
{
    if aps.len() == 0 {
        0
    } else {
        seen_on(aps.drop_last(), ch) + if aps.last().channel as int == ch {
            1nat
        } else {
            0nat
        }
    }
}

/// The strongest signal on channel `ch`; the weakest possible one where no
/// access point is there.
pub open spec fn strongest_on(aps: Seq<AccessPoint>, ch: int) -> i8
    decreases aps.len(),
{
    if aps.len() == 0 {
        i8::MIN
    } else {
        let rest = strongest_on(aps.drop_last(), ch);
        if aps.last().channel as int == ch && aps.last().signal_strength > rest {
            aps.last().signal_strength
        } else {
            rest
        }
    }
}

/// What a scan reports of channel `ch`: the channel, the number of access
/// points (at most 255) and the strongest signal, which is zero where there
/// is no access point.
pub open spec fn channel_report(aps: Seq<AccessPoint>, ch: int) -> (u8, u8, i8) {
    let seen = seen_on(aps, ch);
    (
        ch as u8,
        if seen > 255 {
            255u8
        } else {
            seen as u8
        },
        if seen == 0 {
            0i8
        } else {
            strongest_on(aps, ch)
        },
    )
}

/// The signal that a scan reports of a channel is that of one of its access
/// points, and no access point there has a stronger one.
pub proof fn law_reported_signal_is_strongest(aps: Seq<AccessPoint>, ch: int, i: int)
    requires
        0 <= i < aps.len(),
        aps[i].channel as int == ch,
    ensures
        channel_report(aps, ch).1 > 0,
        channel_report(aps, ch).2 >= aps[i].signal_strength,
        exists|j: int|
            0 <= j < aps.len() && (#[trigger] aps[j]).channel as int == ch
                && aps[j].signal_strength == channel_report(aps, ch).2,
    decreases aps.len(),
{
    let last = aps.len() - 1;
    let rest = aps.drop_last();
    assert(forall|j: int| 0 <= j < rest.len() ==> #[trigger] rest[j] == aps[j]);
    if seen_on(rest, ch) == 0 {
        lemma_unseen_channel(rest, ch);
        if i < last {
            assert(rest[i].channel as int != ch);
        }
        assert(strongest_on(aps, ch) == aps[last].signal_strength);
    } else {
        lemma_seen_channel(rest, ch);
        let k = choose|k: int| 0 <= k < rest.len() && (#[trigger] rest[k]).channel as int == ch;
        law_reported_signal_is_strongest(rest, ch, k);
        let j = choose|j: int|
            0 <= j < rest.len() && (#[trigger] rest[j]).channel as int == ch
                && rest[j].signal_strength == channel_report(rest, ch).2;
        assert(aps[j] == rest[j]);
        if i < last {
            law_reported_signal_is_strongest(rest, ch, i);
        }
        if aps[last].channel as int == ch && aps[last].signal_strength > strongest_on(rest, ch) {
            assert(aps[last].signal_strength == channel_report(aps, ch).2);
        }
    }
}

/// Where a channel was not seen, no access point is on it.
proof fn lemma_unseen_channel(aps: Seq<AccessPoint>, ch: int)
    requires
        seen_on(aps, ch) == 0,
    ensures
        forall|j: int| 0 <= j < aps.len() ==> (#[trigger] aps[j]).channel as int != ch,
        strongest_on(aps, ch) == i8::MIN,
    decreases aps.len(),
{
    if aps.len() > 0 {
        let rest = aps.drop_last();
        lemma_unseen_channel(rest, ch);
        assert(forall|j: int| 0 <= j < rest.len() ==> #[trigger] aps[j] == rest[j]);
    }
}

/// Where a channel was seen, some access point is on it.
proof fn lemma_seen_channel(aps: Seq<AccessPoint>, ch: int)
    requires
        seen_on(aps, ch) > 0,
    ensures
        exists|j: int| 0 <= j < aps.len() && (#[trigger] aps[j]).channel as int == ch,
    decreases aps.len(),
{
    let rest = aps.drop_last();
    if aps.last().channel as int == ch {
        assert(aps[aps.len() - 1].channel as int == ch);
    } else {
        lemma_seen_channel(rest, ch);
        let j = choose|j: int| 0 <= j < rest.len() && (#[trigger] rest[j]).channel as int == ch;
        assert(aps[j].channel as int == ch);
    }
}

/// Group the access points of a scan by channel, one report for each of the
/// channels 1 to 14, in order.
pub fn summarize_scan(aps: &[AccessPoint]) -> (reports: Vec<(u8, u8, i8)>)
    ensures
        reports@ == Seq::new(14, |i: int| channel_report(aps@, i + 1)),
{
    let mut counts: [u16; 15] = [0u16; 15];
    let mut strongest: [i8; 15] = [i8::MIN; 15];
    let mut i: usize = 0;
    assert(aps@.take(0) =~= Seq::<AccessPoint>::empty());
    while i < aps.len()
        invariant
            i <= aps.len(),
            forall|ch: int|
                1 <= ch <= 14 ==> (#[trigger] counts@[ch]) as int == (if seen_on(
                    aps@.take(i as int),
                    ch,
                ) > 0xffff {
                    0xffff
                } else {
                    seen_on(aps@.take(i as int), ch) as int
                }),
            forall|ch: int|
                1 <= ch <= 14 ==> (#[trigger] strongest@[ch]) == strongest_on(
                    aps@.take(i as int),
                    ch,
                ),
        decreases aps.len() - i,
    {
        let ch: usize = aps[i].channel as usize;
        let signal = aps[i].signal_strength;
        assert(aps@.take(i + 1).drop_last() =~= aps@.take(i as int));
        assert(aps@.take(i + 1).last() == aps@[i as int]);
        if ch >= 1 && ch <= 14 {
            counts[ch] = counts[ch].saturating_add(1);
            if signal > strongest[ch] {
                strongest[ch] = signal;
            }
        }
        i = i + 1;
    }
    assert(aps@.take(aps@.len() as int) =~= aps@);
    let mut reports: Vec<(u8, u8, i8)> = Vec::new();
    let mut ch: usize = 1;
    while ch <= 14
        invariant
            1 <= ch <= 15,
            forall|c: int|
                1 <= c <= 14 ==> (#[trigger] counts@[c]) as int == (if seen_on(aps@, c) > 0xffff {
                    0xffff
                } else {
                    seen_on(aps@, c) as int
                }),
            forall|c: int| 1 <= c <= 14 ==> (#[trigger] strongest@[c]) == strongest_on(aps@, c),
            reports@ == Seq::new((ch - 1) as nat, |j: int| channel_report(aps@, j + 1)),
        decreases 15 - ch,
    {
        let count: u8 = if counts[ch] > 255 {
            255
        } else {
            counts[ch] as u8
        };
        let rssi: i8 = if count == 0 {
            0
        } else {
            strongest[ch]
        };
        reports.push((ch as u8, count, rssi));
        proof {
            assert(reports@ =~= Seq::new(ch as nat, |j: int| channel_report(aps@, j + 1)));
        }
        ch = ch + 1;
    }
    reports
}

/// The driver's state as mathematical values.
pub ghost struct DriverView {
    pub peers: TableView,
    pub ring: RingView,
    pub channel: u8,
    /// Transmissions since they were last reported.
    pub unreported: u32,
}

impl DriverView {
    /// The driver after a send to `peer_mac` was prepared: the peer was used,
    /// and the transmission is counted.
    pub open spec fn after_send(self, peer_mac: Seq<u8>) -> DriverView {
        DriverView {
            peers: self.peers.after_use(peer_mac),
            unreported: next_count(self.unreported),
            ..self
        }
    }

    /// The driver after sends to `macs`, one after the other.
    pub open spec fn after_sends(self, macs: Seq<Seq<u8>>) -> DriverView
        decreases macs.len(),
    {
        if macs.len() == 0 {
            self
        } else {
            self.after_sends(macs.drop_last()).after_send(macs.last())
        }
    }
}

/// Whether `channel` is a channel that the radio can be set to.
pub open spec fn valid_channel(channel: u8) -> bool {
    1 <= channel <= 14
}

/// State of the ESP-NOW driver: the registered peers, the receive ring, the
/// current channel and the transmissions that are not in the modem's counters
/// yet.
pub struct EspNowState {
    peer_table: PeerTable,
    rx_ring: RxRing,
    current_channel: u8,
    unreported: u32,
}

impl View for EspNowState {
    type V = DriverView;

    closed spec fn view(&self) -> DriverView {
        DriverView {
            peers: self.peer_table@,
            ring: self.rx_ring@,
            channel: self.current_channel,
            unreported: self.unreported,
        }
    }
}

impl EspNowState {
    /// The peer table and the receive ring keep their invariants, and the
    /// channel is a valid one.
    pub closed spec fn wf(&self) -> bool {
        self.peer_table@.wf() && self.rx_ring.wf() && valid_channel(self.current_channel)
    }

    /// The state at boot: no peers, no frames, channel 1.
    pub fn new() -> (state: EspNowState)
        ensures
            state.wf(),
            state@ == (DriverView {
                peers: TableView { peers: Seq::empty(), tick: 0 },
                ring: RingView { frames: Seq::empty(), drops: 0 },
                channel: 1,
                unreported: 0,
            }),
    {
        EspNowState {
            peer_table: PeerTable::new(),
            rx_ring: RxRing::new(),
            current_channel: 1,
            unreported: 0,
        }
    }

    /// A frame arrived over the radio.  It is discarded where it is empty or
    /// too long or the serial link is down; a frame without signal metadata
    /// counts as received with the weakest possible signal.
    pub fn on_receive(
        &mut self,
        usb_connected: bool,
        src_addr: &[u8; 6],
        rssi: Option<i8>,
        payload: &[u8],
    )
        requires
            old(self).wf(),
        ensures
            final(self).wf(),
            final(self)@.peers == old(self)@.peers,
            final(self)@.channel == old(self)@.channel,
            final(self)@.unreported == old(self)@.unreported,
            final(self)@.ring == (if !usb_connected || payload@.len() == 0 || payload@.len()
                > ESPNOW_MAX_DATA_SIZE {
                old(self)@.ring
            } else if old(self)@.ring.frames.len() < RX_RING_CAP {
                RingView {
                    frames: old(self)@.ring.frames.push(
                        RxFrame {
                            peer_mac: src_addr@,
                            rssi: match rssi {
                                Some(r) => r,
                                None => i8::MIN,
                            },
                            data: payload@,
                        },
                    ),
                    ..old(self)@.ring
                }
            } else {
                RingView { drops: one_more_capped(old(self)@.ring.drops), ..old(self)@.ring }
            }),
    {
        if payload.len() == 0 || payload.len() > ESPNOW_MAX_DATA_SIZE || !usb_connected {
            return;
        }
        let rssi: i8 = match rssi {
            Some(r) => r,
            None => i8::MIN,
        };
        self.rx_ring.push_or_count(src_addr, rssi, payload);
    }

    /// Mark `peer_mac` as used and count the transmission, before a send to it
    /// and whether that succeeds or not.  Returns the peer that has to be
    /// removed from the radio stack to make room, if any.
    pub fn prepare_send(&mut self, peer_mac: &[u8; 6]) -> (evicted: Option<[u8; 6]>)
        requires
            old(self).wf(),
        ensures
            final(self).wf(),
            final(self)@ == old(self)@.after_send(peer_mac@),
            match evicted {
                Some(gone) => old(self)@.peers.evicted_by(peer_mac@) == Some(gone@),
                None => old(self)@.peers.evicted_by(peer_mac@) is None,
            },
    {
        self.unreported = self.unreported.wrapping_add(1);
        self.peer_table.ensure_peer(peer_mac)
    }

    /// Add the transmissions since the last report to the modem's counters.
    pub fn report_sends(&mut self, counters: &mut ModemCounters)
        requires
            old(self).wf(),
        ensures
            final(self).wf(),
            final(self)@ == (DriverView { unreported: 0, ..old(self)@ }),
            final(counters)@ == old(counters)@.with_sends(old(self)@.unreported as nat),
    {
        counters.add_tx(self.unreported);
        self.unreported = 0;
    }

    /// The channel to register a peer with before a send, or `None` where the
    /// radio stack reported that it already knows the peer.  A query that
    /// failed (`None`) counts as an unknown peer.
    pub fn registration_channel(&self, known: Option<bool>) -> (channel: Option<u8>)
        ensures
            channel == (if known == Some(true) {
                None::<u8>
            } else {
                Some(self@.channel)
            }),
    {
        match known {
            Some(true) => None,
            _ => Some(self.current_channel),
        }
    }

    /// Remove the oldest received frame and take the count of dropped frames.
    pub fn drain_one(&mut self) -> (drained: (Option<RecvFrame>, u32))
        requires
            old(self).wf(),
        ensures
            final(self).wf(),
            final(self)@.peers == old(self)@.peers,
            final(self)@.channel == old(self)@.channel,
            final(self)@.unreported == old(self)@.unreported,
            drained.1 == old(self)@.ring.drops,
            final(self)@.ring.drops == 0,
            match drained.0 {
                Some(frame) => {
                    &&& old(self)@.ring.frames.len() > 0
                    &&& frame@ == old(self)@.ring.frames[0]
                    &&& final(self)@.ring.frames == old(self)@.ring.frames.drop_first()
                },
                None => {
                    &&& old(self)@.ring.frames.len() == 0
                    &&& final(self)@.ring.frames == old(self)@.ring.frames
                },
            },
    {
        self.rx_ring.drain_one()
    }

    /// Check that the radio may be set to `channel`.
    pub fn check_channel(channel: u8) -> (checked: Result<(), &'static str>)
        ensures
            checked == (if valid_channel(channel) {
                Ok(())
            } else {
                Err::<(), &'static str>("invalid channel")
            }),
    {
        if channel == 0 || channel > 14 {
            Err("invalid channel")
        } else {
            Ok(())
        }
    }

    /// Take the radio stack's answer (`accepted`) to a change to `channel`.
    /// On success the peer table is emptied, and the peers that it held are
    /// returned: they have to be removed from the radio stack.  On failure
    /// nothing changes.
    pub fn set_channel(&mut self, channel: u8, accepted: bool) -> (removed: Result<
        Vec<[u8; 6]>,
        &'static str,
    >)
        requires
            old(self).wf(),
        ensures
            final(self).wf(),
            match removed {
                Ok(macs) => {
                    &&& valid_channel(channel) && accepted
                    &&& lists_macs(macs@, old(self)@.peers.peers)
                    &&& final(self)@ == (DriverView {
                        peers: TableView { peers: Seq::empty(), tick: 0 },
                        channel,
                        ..old(self)@
                    })
                },
                Err(reason) => {
                    &&& !(valid_channel(channel) && accepted)
                    &&& reason == (if valid_channel(channel) {
                        "ESP-IDF set_channel failed"
                    } else {
                        "invalid channel"
                    })
                    &&& final(self)@ == old(self)@
                },
            },
    {
        match EspNowState::check_channel(channel) {
            Err(reason) => Err(reason),
            Ok(()) => if !accepted {
                Err("ESP-IDF set_channel failed")
            } else {
                let macs = self.peer_table.all_macs();
                self.peer_table.clear();
                self.current_channel = channel;
                Ok(macs)
            },
        }
    }

    /// The current channel.
    pub fn channel(&self) -> (channel: u8)
        ensures
            channel == self@.channel,
    {
        self.current_channel
    }

    /// Reset the driver: no peers, channel 1, no frames, nothing to report.
    /// Returns the peers that have to be removed from the radio stack.
    pub fn reset_state(&mut self) -> (removed: Vec<[u8; 6]>)
        requires
            old(self).wf(),
        ensures
            final(self).wf(),
            lists_macs(removed@, old(self)@.peers.peers),
            final(self)@ == (DriverView {
                peers: TableView { peers: Seq::empty(), tick: 0 },
                ring: RingView { frames: Seq::empty(), drops: 0 },
                channel: 1,
                unreported: 0,
            }),
    {
        let macs = self.peer_table.all_macs();
        self.peer_table.clear();
        self.current_channel = 1;
        self.rx_ring.clear();
        self.unreported = 0;
        macs
    }
}

/// Every send is counted: after any sends, a report has added their number to
/// the modem's transmit count, modulo 2^32, and nothing else.
pub proof fn law_every_send_is_counted(
    driver: DriverView,
    macs: Seq<Seq<u8>>,
    counters: CountersView,
)
    ensures
        driver.after_sends(macs).unreported == count_after(driver.unreported, macs.len()),
        counters.with_sends(driver.after_sends(macs).unreported as nat) == counters.with_sends(
            (driver.unreported + macs.len()) as nat,
        ),
        driver.after_sends(macs).ring == driver.ring,
        driver.after_sends(macs).channel == driver.channel,
    decreases macs.len(),
{
    if macs.len() > 0 {
        law_every_send_is_counted(driver, macs.drop_last(), counters);
    }
}

/// Sixteen frames of up to 250 bytes wait in the ring at most; what does not fit
/// changes nothing, and dropped frames are counted up to the largest number.
pub proof fn law_ring_limits(ring: RingView, frame: RxFrame, n: u32)
    ensures
        ring.admits(frame.data.len()) <==> ring.frames.len() < 16 && frame.data.len() <= 250,
        !ring.admits(frame.data.len()) ==> ring.after_push(frame) == ring,
        ring.admits(frame.data.len()) ==> ring.after_push(frame).frames == ring.frames.push(frame),
        ring.after_push(frame).drops == ring.drops,
        n < u32::MAX ==> one_more_capped(n) == n + 1,
        one_more_capped(u32::MAX) == u32::MAX,
{
}

/// The access points on channel `ch`.
pub open spec fn on_channel(aps: Seq<AccessPoint>, ch: int) -> Seq<AccessPoint> {
    aps.filter(|ap: AccessPoint| ap.channel == ch)
}

/// A scan reports as many access points of a channel as there are, up to 255,
/// under the number of the channel; a channel without any is reported with none
/// and a signal of zero.
pub proof fn law_scan_counts_access_points(aps: Seq<AccessPoint>, ch: int)
    requires
        1 <= ch <= 14,
    ensures
        channel_report(aps, ch).0 == ch,
        on_channel(aps, ch).len() <= 255 ==> channel_report(aps, ch).1 == on_channel(aps, ch).len(),
        on_channel(aps, ch).len() > 255 ==> channel_report(aps, ch).1 == 255,
        on_channel(aps, ch).len() == 0 ==> channel_report(aps, ch).2 == 0,
{
    lemma_seen_is_count(aps, ch);
}

/// Access points are counted one by one.
proof fn lemma_seen_is_count(aps: Seq<AccessPoint>, ch: int)
    ensures
        seen_on(aps, ch) == on_channel(aps, ch).len(),
    decreases aps.len(),
{
    reveal(Seq::filter);
    if aps.len() > 0 {
        lemma_seen_is_count(aps.drop_last(), ch);
    }
}

/// The radio can be set to the channels 1 to 14.
pub proof fn law_radio_channels(channel: u8)
    ensures
        valid_channel(channel) <==> channel != 0 && channel < 15,
{
}

/// A send uses the peer and counts the transmission, and touches neither the
/// received frames nor the channel.
pub proof fn law_sends_use_the_peer(driver: DriverView, mac: Seq<u8>)
    ensures
        driver.after_send(mac).peers == driver.peers.after_use(mac),
        driver.after_send(mac).ring == driver.ring,
        driver.after_send(mac).channel == driver.channel,
        driver.unreported < u32::MAX ==> driver.after_send(mac).unreported == driver.unreported + 1,
{
}

} // verus!
