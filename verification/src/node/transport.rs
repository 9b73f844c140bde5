//! Logic of the node's ESP-NOW transport: the receive ring, receive
//! statistics, and the wait for a frame.

use vstd::prelude::*;
use vstd::string::*;

use crate::bytes::copy_range;
use crate::node::error::{NodeError, NodeResult};
use crate::node::types::{MAX_FRAME_SIZE, OFFSET_MSG_TYPE};
use crate::text::{
    decimal_text, hex_text, mac_text, push_decimal, push_hex, push_mac, push_signed, signed_text,
};

verus! {

/// Capacity of the receive ring buffer, in frames.
pub const RX_RING_CAP: usize = 16;

/// Stands for the message type of a frame that is too short to have one.
pub const NO_MSG_TYPE: u32 = 0xffff_ffff;

/// A pre-allocated slot of the receive ring.
#[derive(Clone, Copy)]
struct FrameSlot {
    data: [u8; 250],
    len: usize,
}

impl FrameSlot {
    /// The frame in the slot.
    spec fn frame(self) -> Seq<u8> {
        self.data@.take(self.len as int)
    }
}

/// What a receive ring holds: the frames, oldest first, and the number of
/// frames that were dropped since the count was last taken.
pub ghost struct FramesView {
    pub frames: Seq<Seq<u8>>,
    pub drops: u32,
}

impl FramesView {
    /// Whether a frame of `len` bytes is taken in.
    pub open spec fn admits(self, len: nat) -> bool {
        self.frames.len() < RX_RING_CAP && len <= MAX_FRAME_SIZE
    }
}

/// Fixed-capacity ring buffer for received frames.
pub struct RxRing {
    slots: [FrameSlot; 16],
    head: usize,
    tail: usize,
    count: usize,
    drop_count: u32,
}

impl View for RxRing {
    type V = FramesView;

    closed spec fn view(&self) -> FramesView {
        FramesView {
            frames: Seq::new(
                self.count as nat,
                |i: int| self.slots@[(self.tail + i) % 16].frame(),
            ),
            drops: self.drop_count,
        }
    }
}

impl Default for RxRing {
    fn default() -> (ring: RxRing)
        ensures
            ring.wf(),
            ring@ == (FramesView { frames: Seq::empty(), drops: 0 }),
    {
        RxRing::new()
    }
}

/// How a wait for a frame goes on.
#[derive(Debug, PartialEq, Eq)]
pub enum RecvStep {
    /// A frame is there; this many were dropped.
    Frame(Vec<u8>, u32),
    /// The time is up; this many frames were dropped.
    TimedOut(u32),
    /// Wait for at most this many nanoseconds.
    Wait(u64),
}

impl RxRing {
    /// The indices stay within the slots and agree with the count, and every
    /// slot's length fits its storage.
    pub closed spec fn wf(&self) -> bool {
        &&& self.head < 16
        &&& self.tail < 16
        &&& self.count <= 16
        &&& self.head as int == (self.tail + self.count) % 16
        &&& forall|i: int| 0 <= i < 16 ==> (#[trigger] self.slots@[i]).len <= 250
    }

    /// An empty ring.
    pub fn new() -> (ring: RxRing)
        ensures
            ring.wf(),
            ring@ == (FramesView { frames: Seq::empty(), drops: 0 }),
    {
        let empty = FrameSlot { data: [0u8; 250], len: 0 };
        let ring = RxRing { slots: [empty; 16], head: 0, tail: 0, count: 0, drop_count: 0 };
        assert(ring@.frames =~= Seq::<Seq<u8>>::empty());
        ring
    }

    /// Copy a frame into the next slot.  Returns `false` if the ring is full
    /// or the frame is too long.
    pub fn push(&mut self, payload: &[u8]) -> (pushed: bool)
        requires
            old(self).wf(),
        ensures
            final(self).wf(),
            pushed == old(self)@.admits(payload@.len()),
            final(self)@ == (if pushed {
                FramesView { frames: old(self)@.frames.push(payload@), ..old(self)@ }
            } else {
                old(self)@
            }),
    {
        if self.count >= RX_RING_CAP || payload.len() > MAX_FRAME_SIZE {
            return false;
        }
        let ghost before = *self;
        let mut slot = self.slots[self.head];
        slot.len = payload.len();
        let mut i: usize = 0;
        while i < payload.len()
            invariant
                i <= payload.len() <= 250,
                slot.len == payload.len(),
                forall|j: int| 0 <= j < i ==> slot.data@[j] == payload@[j],
            decreases payload.len() - i,
        {
            slot.data[i] = payload[i];
            i = i + 1;
        }
        self.slots[self.head] = slot;
        self.head = (self.head + 1) % RX_RING_CAP;
        self.count = self.count + 1;
        proof {
            assert(slot.frame() =~= payload@);
            assert(self@.frames =~= before@.frames.push(payload@));
        }
        true
    }

    /// Copy the oldest frame into `buf` and remove it.  Returns its length.
    pub fn pop_into(&mut self, buf: &mut [u8; 250]) -> (popped: Option<usize>)
        requires
            old(self).wf(),
        ensures
            final(self).wf(),
            final(self)@.drops == old(self)@.drops,
            match popped {
                Some(len) => {
                    let first = old(self)@.frames[0];
                    &&& old(self)@.frames.len() > 0
                    &&& final(self)@.frames == old(self)@.frames.drop_first()
                    &&& len as int == first.len()
                    &&& len <= 250
                    &&& final(buf)@ == first + old(buf)@.skip(len as int)
                },
                None => {
                    &&& old(self)@.frames.len() == 0
                    &&& final(self)@.frames == old(self)@.frames
                    &&& final(buf)@ == old(buf)@
                },
            },
    {
        if self.count == 0 {
            return None;
        }
        let ghost before = *self;
        let ghost before_buf = buf@;
        let slot = self.slots[self.tail];
        let len = slot.len;
        let mut i: usize = 0;
        while i < len
            invariant
                i <= len <= 250,
                before_buf.len() == 250,
                buf@.len() == 250,
                forall|j: int| 0 <= j < i ==> buf@[j] == slot.data@[j],
                forall|j: int| i <= j < 250 ==> buf@[j] == before_buf[j],
            decreases len - i,
        {
            buf[i] = slot.data[i];
            i = i + 1;
        }
        self.tail = (self.tail + 1) % RX_RING_CAP;
        self.count = self.count - 1;
        proof {
            assert(before@.frames[0] == slot.frame());
            assert(self@.frames =~= before@.frames.drop_first());
            assert(buf@ =~= slot.frame() + before_buf.skip(len as int));
        }
        Some(len)
    }

    /// Take in a frame, counting it as dropped where the ring cannot hold it.
    /// Returns whether it was taken in.
    pub fn push_or_count(&mut self, payload: &[u8]) -> (pushed: bool)
        requires
            old(self).wf(),
        ensures
            final(self).wf(),
            pushed == old(self)@.admits(payload@.len()),
            final(self)@ == (if pushed {
                FramesView { frames: old(self)@.frames.push(payload@), ..old(self)@ }
            } else {
                FramesView {
                    drops: if old(self)@.drops == u32::MAX {
                        u32::MAX
                    } else {
                        (old(self)@.drops + 1) as u32
                    },
                    ..old(self)@
                }
            }),
    {
        if self.push(payload) {
            true
        } else {
            self.drop_count = self.drop_count.saturating_add(1);
            false
        }
    }

    /// One step of a wait for a frame that ends at `deadline_ns`.  The count
    /// of dropped frames is taken when the wait ends.
    pub fn recv_step(&mut self, now_ns: u64, deadline_ns: u64) -> (step: RecvStep)
        requires
            old(self).wf(),
        ensures
            final(self).wf(),
            match step {
                RecvStep::Frame(data, drops) => {
                    &&& old(self)@.frames.len() > 0
                    &&& data@ == old(self)@.frames[0]
                    &&& drops == old(self)@.drops
                    &&& final(self)@ == (FramesView {
                        frames: old(self)@.frames.drop_first(),
                        drops: 0,
                    })
                },
                RecvStep::TimedOut(drops) => {
                    &&& old(self)@.frames.len() == 0
                    &&& now_ns >= deadline_ns
                    &&& drops == old(self)@.drops
                    &&& final(self)@ == (FramesView { drops: 0, ..old(self)@ })
                },
                RecvStep::Wait(ns) => {
                    &&& old(self)@.frames.len() == 0
                    &&& now_ns < deadline_ns
                    &&& ns == deadline_ns - now_ns
                    &&& final(self)@ == old(self)@
                },
            },
    {
        let mut buf: [u8; 250] = [0u8; 250];
        let ghost before = *self;
        match self.pop_into(&mut buf) {
            Some(len) => {
                let drops = self.drop_count;
                let ghost popped = self@;
                self.drop_count = 0;
                assert(self@.frames =~= popped.frames);
                let data = copy_range(buf.as_slice(), 0, len);
                assert(data@ =~= before@.frames[0]);
                RecvStep::Frame(data, drops)
            },
            None => {
                if now_ns >= deadline_ns {
                    let drops = self.drop_count;
                    self.drop_count = 0;
                    assert(self@.frames =~= before@.frames);
                    RecvStep::TimedOut(drops)
                } else {
                    RecvStep::Wait(deadline_ns - now_ns)
                }
            },
        }
    }

    /// Number of frames in the ring.
    pub fn len(&self) -> (len: usize)
        ensures
            len == self@.frames.len(),
    {
        self.count
    }

    /// Number of dropped frames since the count was last taken.
    pub fn drops(&self) -> (drops: u32)
        ensures
            drops == self@.drops,
    {
        self.drop_count
    }
}

/// When a wait of `timeout_ms` milliseconds that begins at `now_ns` ends.
pub fn recv_deadline(now_ns: u64, timeout_ms: u32) -> (deadline_ns: u64)
    ensures
        deadline_ns as int == (if now_ns + timeout_ms * 1_000_000 > u64::MAX {
            u64::MAX as int
        } else {
            now_ns + timeout_ms * 1_000_000
        }),
{
    now_ns.saturating_add((timeout_ms as u64) * 1_000_000)
}

/// Whether a frame of this length is looked at in the receive callback.
pub fn is_receivable(len: i32) -> (receivable: bool)
    ensures
        receivable == (0 < len <= MAX_FRAME_SIZE),
{
    len > 0 && len <= 250
}

/// Check that a frame can be sent.
pub fn check_send(len: usize) -> (checked: NodeResult<()>)
    ensures
        checked == (if len <= MAX_FRAME_SIZE {
            Ok::<(), NodeError>(())
        } else {
            Err(NodeError::Transport("frame too large"))
        }),
{
    if len > MAX_FRAME_SIZE {
        Err(NodeError::Transport("frame too large"))
    } else {
        Ok(())
    }
}

/// Check that the transport can be started on a channel.
pub fn check_channel(channel: u8) -> (checked: NodeResult<()>)
    ensures
        checked == (if 1 <= channel <= 13 {
            Ok::<(), NodeError>(())
        } else {
            Err(NodeError::Transport("invalid WiFi channel (must be 1–13)"))
        }),
{
    if channel < 1 || channel > 13 {
        Err(NodeError::Transport("invalid WiFi channel (must be 1–13)"))
    } else {
        Ok(())
    }
}

/// A hardware address as two words: four bytes and two bytes.
pub open spec fn mac_words(mac: Seq<u8>) -> (int, int) {
    (
        mac[0] as int * 0x100_0000 + mac[1] as int * 0x1_0000 + mac[2] as int * 0x100
            + mac[3] as int,
        mac[4] as int * 0x100 + mac[5] as int,
    )
}

/// Pack a hardware address into two words.
pub fn pack_mac_words(mac: [u8; 6]) -> (words: (u32, u32))
    ensures
        (words.0 as int, words.1 as int) == mac_words(mac@),
{
    let (m0, m1, m2, m3, m4, m5) = (mac[0], mac[1], mac[2], mac[3], mac[4], mac[5]);
    proof {
        assert(((m0 as u32) << 24) | ((m1 as u32) << 16) | ((m2 as u32) << 8) | (m3 as u32) == (
        m0 as u32) * 0x100_0000 + (m1 as u32) * 0x1_0000 + (m2 as u32) * 0x100 + (
        m3 as u32)) by (bit_vector);
        assert(((m4 as u32) << 8) | (m5 as u32) == (m4 as u32) * 0x100 + (
        m5 as u32)) by (bit_vector);
    }
    let hi: u32 = ((m0 as u32) << 24) | ((m1 as u32) << 16) | ((m2 as u32) << 8) | (m3 as u32);
    let lo: u32 = ((m4 as u32) << 8) | (m5 as u32);
    (hi, lo)
}

/// The hardware address in two words.
pub open spec fn mac_from_words(hi: u32, lo: u32) -> Seq<u8> {
    seq![
        (hi as int / 0x100_0000) as u8,
        (hi as int / 0x1_0000 % 256) as u8,
        (hi as int / 0x100 % 256) as u8,
        (hi as int % 256) as u8,
        (lo as int / 0x100 % 256) as u8,
        (lo as int % 256) as u8,
    ]
}

/// Unpack a hardware address from two words.
pub fn unpack_mac_words(hi: u32, lo: u32) -> (mac: [u8; 6])
    ensures
        mac@ == mac_from_words(hi, lo),
{
    proof {
        assert((hi >> 24) & 0xFF == hi / 0x100_0000 && (hi >> 24) & 0xFF < 256) by (bit_vector);
        assert((hi >> 16) & 0xFF == (hi / 0x1_0000) % 256) by (bit_vector);
        assert((hi >> 8) & 0xFF == (hi / 0x100) % 256) by (bit_vector);
        assert(hi & 0xFF == hi % 256) by (bit_vector);
        assert((lo >> 8) & 0xFF == (lo / 0x100) % 256) by (bit_vector);
        assert(lo & 0xFF == lo % 256) by (bit_vector);
    }
    let mac: [u8; 6] = [
        ((hi >> 24) & 0xFF) as u8,
        ((hi >> 16) & 0xFF) as u8,
        ((hi >> 8) & 0xFF) as u8,
        (hi & 0xFF) as u8,
        ((lo >> 8) & 0xFF) as u8,
        (lo & 0xFF) as u8,
    ];
    assert(mac@ =~= mac_from_words(hi, lo));
    mac
}

/// The bytes of a word made of four bytes.
proof fn lemma_bytes_of_word(a: int, b: int, c: int, d: int)
    requires
        0 <= a < 256,
        0 <= b < 256,
        0 <= c < 256,
        0 <= d < 256,
    ensures
        ({
            let w = a * 0x100_0000 + b * 0x1_0000 + c * 0x100 + d;
            w / 0x100_0000 == a && w / 0x1_0000 % 256 == b && w / 0x100 % 256 == c && w % 256 == d
        }),
{
    let w = a * 0x100_0000 + b * 0x1_0000 + c * 0x100 + d;
    let w3 = a * 0x1_0000 + b * 0x100 + c;
    let w2 = a * 0x100 + b;
    assert(w == w3 * 256 + d);
    assert(w / 256 == w3);
    assert(w3 == w2 * 256 + c);
    assert(w / 0x1_0000 == w2);
    assert(w / 0x100_0000 == a);
}

/// Frames leave the ring in the order in which they entered it: one that is
/// pushed behind `n` frames is received after exactly those `n`.
pub proof fn law_frames_are_received_in_order(ring: FramesView, frame: Seq<u8>)
    requires
        ring.admits(frame.len()),
    ensures
        ring.frames.push(frame).take(ring.frames.len() as int) == ring.frames,
        ring.frames.push(frame).skip(ring.frames.len() as int) == seq![frame],
{
    assert(ring.frames.push(frame).take(ring.frames.len() as int) =~= ring.frames);
    assert(ring.frames.push(frame).skip(ring.frames.len() as int) =~= seq![frame]);
}

/// A packed address is unpacked as it was.
pub proof fn law_mac_round_trip(mac: Seq<u8>, hi: u32, lo: u32)
    requires
        mac.len() == 6,
        (hi as int, lo as int) == mac_words(mac),
    ensures
        mac_from_words(hi, lo) == mac,
{
    lemma_bytes_of_word(mac[0] as int, mac[1] as int, mac[2] as int, mac[3] as int);
    lemma_bytes_of_word(0, 0, mac[4] as int, mac[5] as int);
    assert(mac_from_words(hi, lo) =~= mac);
}

/// The message type of a frame, or the stand-in for one that is too short.
pub open spec fn msg_type_of(frame: Seq<u8>) -> u32 {
    if frame.len() > OFFSET_MSG_TYPE {
        frame[OFFSET_MSG_TYPE as int] as u32
    } else {
        NO_MSG_TYPE
    }
}

/// The text of a message type.
pub open spec fn msg_type_text(msg_type: u32) -> Seq<char> {
    if msg_type == NO_MSG_TYPE {
        "none"@
    } else {
        "0x"@ + hex_text((msg_type as int % 256) as u8)
    }
}

/// Format a message type for log lines.
pub fn format_msg_type(msg_type: u32) -> (text: String)
    ensures
        text@ == msg_type_text(msg_type),
{
    if msg_type == NO_MSG_TYPE {
        String::from_str("none")
    } else {
        let mut text = String::from_str("0x");
        push_hex(&mut text, (msg_type % 256) as u8);
        text
    }
}

/// Statistics of the receive callback.
#[derive(Clone, Copy, Debug, PartialEq, Eq, Structural)]
pub struct RecvStats {
    pub contention_drops: u32,
    pub callback_count: u32,
    pub enqueued_count: u32,
    pub last_len: u32,
    pub last_msg_type: u32,
    pub last_src_mac_hi: u32,
    pub last_src_mac_lo: u32,
    pub last_rssi_dbm: i32,
}

/// One more than `n`, wrapping around to zero after the largest `u32`.
pub open spec fn wrapped_next(n: u32) -> u32 {
    if n == u32::MAX {
        0
    } else {
        (n + 1) as u32
    }
}

impl RecvStats {
    /// Nothing received yet.
    pub fn new() -> (stats: RecvStats)
        ensures
            stats == (RecvStats {
                contention_drops: 0,
                callback_count: 0,
                enqueued_count: 0,
                last_len: 0,
                last_msg_type: NO_MSG_TYPE,
                last_src_mac_hi: 0,
                last_src_mac_lo: 0,
                last_rssi_dbm: i32::MIN,
            }),
    {
        RecvStats {
            contention_drops: 0,
            callback_count: 0,
            enqueued_count: 0,
            last_len: 0,
            last_msg_type: NO_MSG_TYPE,
            last_src_mac_hi: 0,
            last_src_mac_lo: 0,
            last_rssi_dbm: i32::MIN,
        }
    }

    /// A frame has arrived; one without signal metadata counts as received
    /// with the weakest possible signal.
    pub fn note_frame(&mut self, src_addr: [u8; 6], rssi_dbm: Option<i32>, payload: &[u8])
        requires
            payload@.len() <= MAX_FRAME_SIZE,
        ensures
            final(self).callback_count == wrapped_next(old(self).callback_count),
            final(self).last_len == payload@.len(),
            final(self).last_msg_type == msg_type_of(payload@),
            mac_from_words(final(self).last_src_mac_hi, final(self).last_src_mac_lo) == src_addr@,
            final(self).last_rssi_dbm == (match rssi_dbm {
                Some(rssi) => rssi,
                None => i32::MIN,
            }),
            final(self).contention_drops == old(self).contention_drops,
            final(self).enqueued_count == old(self).enqueued_count,
    {
        self.callback_count = self.callback_count.wrapping_add(1);
        self.last_len = payload.len() as u32;
        self.last_msg_type = if payload.len() > OFFSET_MSG_TYPE {
            payload[OFFSET_MSG_TYPE] as u32
        } else {
            NO_MSG_TYPE
        };
        let (hi, lo) = pack_mac_words(src_addr);
        proof {
            law_mac_round_trip(src_addr@, hi, lo);
        }
        self.last_src_mac_hi = hi;
        self.last_src_mac_lo = lo;
        self.last_rssi_dbm = match rssi_dbm {
            Some(rssi) => rssi,
            None => i32::MIN,
        };
    }

    /// A frame was dropped because the ring was in use.
    pub fn note_contention(&mut self)
        ensures
            *final(self) == (RecvStats {
                contention_drops: wrapped_next(old(self).contention_drops),
                ..*old(self)
            }),
    {
        self.contention_drops = self.contention_drops.wrapping_add(1);
    }

    /// A frame was put into the ring.
    pub fn note_enqueued(&mut self)
        ensures
            *final(self) == (RecvStats {
                enqueued_count: wrapped_next(old(self).enqueued_count),
                ..*old(self)
            }),
    {
        self.enqueued_count = self.enqueued_count.wrapping_add(1);
    }

    /// Take the count of frames that were dropped because the ring was in use.
    pub fn take_contention_drops(&mut self) -> (drops: u32)
        ensures
            drops == old(self).contention_drops,
            *final(self) == (RecvStats { contention_drops: 0, ..*old(self) }),
    {
        let drops = self.contention_drops;
        self.contention_drops = 0;
        drops
    }
}

/// The text of a snapshot of the receive path.
pub open spec fn snapshot_text(
    label: Seq<char>,
    stats: Option<RecvStats>,
    ring_count: nat,
    full_drops: u32,
) -> Seq<char> {
    match stats {
        Some(s) => "ESP-NOW diag snapshot label=\""@ + label + "\" callback_count="@ + decimal_text(
            s.callback_count as nat,
        ) + " enqueued_count="@ + decimal_text(s.enqueued_count as nat) + " ring_count="@
            + decimal_text(ring_count) + " contention_drops="@ + decimal_text(
            s.contention_drops as nat,
        ) + " full_drops="@ + decimal_text(full_drops as nat) + " last_len="@ + decimal_text(
            s.last_len as nat,
        ) + " last_msg_type="@ + msg_type_text(s.last_msg_type) + " last_src="@ + mac_text(
            mac_from_words(s.last_src_mac_hi, s.last_src_mac_lo),
        ) + " last_rssi_dbm="@ + signed_text(s.last_rssi_dbm as int),
        None => "ESP-NOW diag snapshot label=\""@ + label
            + "\" recv_state=uninitialized ring_count="@ + decimal_text(ring_count)
            + " full_drops="@ + decimal_text(full_drops as nat),
    }
}

/// The log line for a snapshot of the receive path; without statistics where
/// the callback is not installed yet.
pub fn log_recv_debug_snapshot(
    label: &str,
    stats: Option<RecvStats>,
    ring_count: usize,
    full_drops: u32,
) -> (line: String)
    ensures
        line@ == snapshot_text(label@, stats, ring_count as nat, full_drops),
{
    let mut line = String::from_str("ESP-NOW diag snapshot label=\"");
    line.append(label);
    match stats {
        Some(s) => {
            line.append("\" callback_count=");
            push_decimal(&mut line, s.callback_count as u64);
            line.append(" enqueued_count=");
            push_decimal(&mut line, s.enqueued_count as u64);
            line.append(" ring_count=");
            push_decimal(&mut line, ring_count as u64);
            line.append(" contention_drops=");
            push_decimal(&mut line, s.contention_drops as u64);
            line.append(" full_drops=");
            push_decimal(&mut line, full_drops as u64);
            line.append(" last_len=");
            push_decimal(&mut line, s.last_len as u64);
            line.append(" last_msg_type=");
            let msg_type = format_msg_type(s.last_msg_type);
            line.append(msg_type.as_str());
            line.append(" last_src=");
            let mac = unpack_mac_words(s.last_src_mac_hi, s.last_src_mac_lo);
            push_mac(&mut line, &mac);
            line.append(" last_rssi_dbm=");
            push_signed(&mut line, s.last_rssi_dbm as i64);
        },
        None => {
            line.append("\" recv_state=uninitialized ring_count=");
            push_decimal(&mut line, ring_count as u64);
            line.append(" full_drops=");
            push_decimal(&mut line, full_drops as u64);
        },
    }
    line
}

/// Sixteen frames of up to 250 bytes wait in the ring at most; the type of a
/// frame is its third byte, and a frame without one is told apart from all
/// others.
pub proof fn law_ring_and_frame_limits(ring: FramesView, frame: Seq<u8>)
    ensures
        ring.admits(frame.len()) <==> ring.frames.len() < 16 && frame.len() <= 250,
        frame.len() >= 3 ==> msg_type_of(frame) == frame[2],
        frame.len() < 3 ==> msg_type_of(frame) > 255,
        MAX_FRAME_SIZE == 250,
{
}

/// An address is packed with its first byte highest: four bytes in the first
/// word and two in the second.
pub proof fn law_addresses_are_packed_in_order(mac: Seq<u8>)
    requires
        mac.len() == 6,
    ensures
        mac_words(mac).0 == ((mac[0] * 256 + mac[1]) * 256 + mac[2]) * 256 + mac[3],
        mac_words(mac).1 == mac[4] * 256 + mac[5],
{
}

/// A counter goes up by one, and starts over after the largest number.
pub proof fn law_counters_count(n: u32)
    ensures
        n < u32::MAX ==> wrapped_next(n) == n + 1,
        n == u32::MAX ==> wrapped_next(n) == 0,
{
}

/// A message type is logged in hexadecimal notation, and a missing one as none.
pub proof fn law_msg_types_are_logged(msg_type: u32)
    ensures
        msg_type < 256 ==> msg_type_text(msg_type) == "0x"@ + hex_text(msg_type as u8),
        msg_type_text(u32::MAX) == "none"@,
{
}

} // verus!
