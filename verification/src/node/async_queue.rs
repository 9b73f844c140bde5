//! Sleep-retained queue of data blobs for deferred transmission.
//!
//! BPF programs queue blobs that are transmitted after the program has ended:
//! piggybacked on the next WAKE or as messages of their own.  The queue has a
//! fixed layout, so that it can be kept in memory that survives sleep.

use vstd::prelude::*;
use vstd::slice::slice_subrange;

use crate::bytes::copy_bytes;

verus! {

/// Maximum number of queued blobs.
pub const MAX_MESSAGES: usize = 10;

/// Maximum size of a blob: what a 250-byte frame leaves after its header (11),
/// its authentication tag (16) and the framing of the payload (5).
pub const MAX_BLOB_SIZE: usize = 218;

/// Marks a layout that was initialized by this firmware.
pub const QUEUE_MAGIC: u32 = 0x5155_4555;

/// One slot of the queue.
#[derive(Clone, Copy)]
pub struct RtcQueueItem {
    pub len: u32,
    pub data: [u8; 218],
}

/// Fixed layout of the queue.  The count is written last, so that a reset in
/// the middle of a change never leaves a blob that is only partly there.
pub struct RtcQueueLayout {
    pub magic: u32,
    pub count: u32,
    pub items: [RtcQueueItem; 10],
}

impl RtcQueueItem {
    /// The blob in the slot.
    pub open spec fn blob(self) -> Seq<u8> {
        self.data@.take(self.len as int)
    }
}

impl RtcQueueLayout {
    /// Whether the layout was written by this firmware and is not corrupted.
    pub open spec fn valid(&self) -> bool {
        &&& self.magic == QUEUE_MAGIC
        &&& self.count <= MAX_MESSAGES
        &&& forall|i: int|
            0 <= i < self.count ==> (#[trigger] self.items@[i]).len <= MAX_BLOB_SIZE
    }

    /// The blobs in the layout, oldest first.
    pub open spec fn blobs(&self) -> Seq<Seq<u8>> {
        Seq::new(self.count as nat, |i: int| self.items@[i].blob())
    }

    /// A layout of zeros, which holds no queue.
    pub fn zero() -> (layout: RtcQueueLayout)
        ensures
            layout.magic == 0,
            layout.count == 0,
            !layout.valid(),
            forall|i: int| 0 <= i < 10 ==> (#[trigger] layout.items@[i]).len == 0,
    {
        let item = RtcQueueItem { len: 0, data: [0u8; 218] };
        RtcQueueLayout { magic: 0, count: 0, items: [item; 10] }
    }
}

/// Result of a push: the blob was queued.
pub const PUSH_OK: i64 = 0;

/// The queue is full.
pub const PUSH_FULL: i64 = -1;

/// The blob is too large.
pub const PUSH_TOO_LARGE: i64 = -2;

/// What a push of `blob` onto `queue` returns.
pub open spec fn push_code(queue: Seq<Seq<u8>>, blob: Seq<u8>) -> int {
    if blob.len() > MAX_BLOB_SIZE {
        -2
    } else if queue.len() >= MAX_MESSAGES {
        -1
    } else {
        0
    }
}

/// The queue after a push of `blob`.
pub open spec fn after_push(queue: Seq<Seq<u8>>, blob: Seq<u8>) -> Seq<Seq<u8>> {
    if push_code(queue, blob) == 0 {
        queue.push(blob)
    } else {
        queue
    }
}

/// Queue of data blobs for the gateway.
pub struct AsyncQueue {
    backing: RtcQueueLayout,
}

impl View for AsyncQueue {
    type V = Seq<Seq<u8>>;

    closed spec fn view(&self) -> Seq<Seq<u8>> {
        self.backing.blobs()
    }
}

impl Default for AsyncQueue {
    fn default() -> (queue: AsyncQueue)
        ensures
            queue.wf(),
            queue@ == Seq::<Seq<u8>>::empty(),
    {
        AsyncQueue::new()
    }
}

impl AsyncQueue {
    /// The layout is a valid one.
    pub closed spec fn wf(&self) -> bool {
        self.backing.valid()
    }

    /// The layout that holds the queue.
    pub closed spec fn stored(&self) -> RtcQueueLayout {
        self.backing
    }

    /// An empty queue.
    pub fn new() -> (queue: AsyncQueue)
        ensures
            queue.wf(),
            queue@ == Seq::<Seq<u8>>::empty(),
    {
        let mut backing = RtcQueueLayout::zero();
        backing.magic = QUEUE_MAGIC;
        let queue = AsyncQueue { backing };
        assert(queue@ =~= Seq::<Seq<u8>>::empty());
        queue
    }

    /// Recover the queue after sleep.  A layout that is not valid, as after a
    /// cold boot or corruption, gives an empty queue.
    pub fn from_rtc(layout: RtcQueueLayout) -> (queue: AsyncQueue)
        ensures
            queue.wf(),
            queue@ == (if layout.valid() {
                layout.blobs()
            } else {
                Seq::<Seq<u8>>::empty()
            }),
    {
        if layout.magic != QUEUE_MAGIC || layout.count as usize > MAX_MESSAGES {
            return AsyncQueue::new();
        }
        let count: usize = layout.count as usize;
        let mut i: usize = 0;
        while i < count
            invariant
                i <= count <= 10,
                count == layout.count,
                forall|j: int| 0 <= j < i ==> (#[trigger] layout.items@[j]).len <= MAX_BLOB_SIZE,
            decreases count - i,
        {
            if layout.items[i].len as usize > MAX_BLOB_SIZE {
                assert(!layout.valid());
                return AsyncQueue::new();
            }
            i = i + 1;
        }
        AsyncQueue { backing: layout }
    }

    /// The layout to keep during sleep.
    pub fn into_rtc(self) -> (layout: RtcQueueLayout)
        requires
            self.wf(),
        ensures
            layout == self.stored(),
            layout.valid(),
            layout.blobs() == self@,
    {
        self.backing
    }

    /// Write a blob into a slot.
    fn write_item(&mut self, index: usize, data: &[u8])
        requires
            old(self).wf(),
            index < 10,
            index >= old(self)@.len(),
            data@.len() <= MAX_BLOB_SIZE,
        ensures
            final(self).wf(),
            final(self)@ == old(self)@,
            final(self).stored().count == old(self).stored().count,
            final(self).stored().items@[index as int].len == data@.len(),
            final(self).stored().items@[index as int].blob() == data@,
    {
        let ghost before = *self;
        let mut item = self.backing.items[index];
        let mut i: usize = 0;
        while i < data.len()
            invariant
                i <= data.len() <= 218,
                forall|j: int| 0 <= j < i ==> item.data@[j] == data@[j],
            decreases data.len() - i,
        {
            item.data[i] = data[i];
            i = i + 1;
        }
        item.len = data.len() as u32;
        self.backing.items[index] = item;
        proof {
            assert(item.blob() =~= data@);
            assert(self@ =~= before@);
        }
    }

    /// Queue a blob.  Returns 0 on success, -1 if the queue is full and -2 if
    /// the blob is too large.
    pub fn push(&mut self, blob: Vec<u8>) -> (code: i64)
        requires
            old(self).wf(),
        ensures
            final(self).wf(),
            code as int == push_code(old(self)@, blob@),
            final(self)@ == after_push(old(self)@, blob@),
    {
        if blob.len() > MAX_BLOB_SIZE {
            return PUSH_TOO_LARGE;
        }
        let count: usize = self.backing.count as usize;
        if count >= MAX_MESSAGES {
            return PUSH_FULL;
        }
        let ghost before = self@;
        self.write_item(count, blob.as_slice());
        self.backing.count = (count + 1) as u32;
        assert(self@ =~= before.push(blob@));
        PUSH_OK
    }

    /// Take all blobs; the queue is empty afterwards.
    pub fn drain(&mut self) -> (blobs: Vec<Vec<u8>>)
        requires
            old(self).wf(),
        ensures
            final(self).wf(),
            blobs@.len() == old(self)@.len(),
            forall|i: int| 0 <= i < blobs@.len() ==> (#[trigger] blobs@[i])@ == old(self)@[i],
            final(self)@ == Seq::<Seq<u8>>::empty(),
    {
        let count: usize = self.backing.count as usize;
        let mut blobs: Vec<Vec<u8>> = Vec::new();
        let mut i: usize = 0;
        while i < count
            invariant
                self.wf(),
                self@ == old(self)@,
                count == self.backing.count,
                i <= count <= 10,
                blobs@.len() == i,
                forall|j: int| 0 <= j < i ==> (#[trigger] blobs@[j])@ == self@[j],
            decreases count - i,
        {
            let blob = self.item(i);
            blobs.push(copy_bytes(blob));
            i = i + 1;
        }
        self.backing.count = 0;
        assert(self@ =~= Seq::<Seq<u8>>::empty());
        blobs
    }

    /// The blob in a slot that is in use.
    fn item(&self, index: usize) -> (blob: &[u8])
        requires
            self.wf(),
            index < self@.len(),
        ensures
            blob@ == self@[index as int],
    {
        let len: usize = self.backing.items[index].len as usize;
        let blob = slice_subrange(self.backing.items[index].data.as_slice(), 0, len);
        assert(blob@ =~= self@[index as int]);
        blob
    }

    /// Whether no blob is queued.
    pub fn is_empty(&self) -> (empty: bool)
        ensures
            empty == (self@.len() == 0),
    {
        self.backing.count == 0
    }

    /// Number of queued blobs.
    pub fn len(&self) -> (len: usize)
        ensures
            len == self@.len(),
    {
        self.backing.count as usize
    }

    /// The blob to piggyback on a WAKE: the only one queued, if it fits within
    /// `wake_budget` bytes.
    pub fn single_for_piggyback(&self, wake_budget: usize) -> (blob: Option<&[u8]>)
        requires
            self.wf(),
        ensures
            match blob {
                Some(b) => {
                    &&& self@.len() == 1
                    &&& self@[0].len() <= wake_budget
                    &&& b@ == self@[0]
                },
                None => self@.len() != 1 || self@[0].len() > wake_budget,
            },
    {
        if self.backing.count == 1 {
            let blob = self.item(0);
            if blob.len() <= wake_budget {
                return Some(blob);
            }
        }
        None
    }

    /// Discard all blobs.
    pub fn clear(&mut self)
        requires
            old(self).wf(),
        ensures
            final(self).wf(),
            final(self)@ == Seq::<Seq<u8>>::empty(),
    {
        self.backing.count = 0;
        assert(self@ =~= Seq::<Seq<u8>>::empty());
    }
}

/// The queue after pushing all of `blobs`, in order.
pub open spec fn after_pushes(queue: Seq<Seq<u8>>, blobs: Seq<Seq<u8>>) -> Seq<Seq<u8>>
    decreases blobs.len(),
{
    if blobs.len() == 0 {
        queue
    } else {
        after_push(after_pushes(queue, blobs.drop_last()), blobs.last())
    }
}

/// Blobs that fit come out as they went in: in order, unchanged, and all of
/// them.
pub proof fn law_blobs_come_out_as_pushed(blobs: Seq<Seq<u8>>)
    requires
        blobs.len() <= MAX_MESSAGES,
        forall|i: int| 0 <= i < blobs.len() ==> (#[trigger] blobs[i]).len() <= MAX_BLOB_SIZE,
    ensures
        after_pushes(Seq::empty(), blobs) == blobs,
    decreases blobs.len(),
{
    if blobs.len() > 0 {
        law_blobs_come_out_as_pushed(blobs.drop_last());
        assert(blobs.drop_last().push(blobs.last()) =~= blobs);
    } else {
        assert(blobs =~= Seq::empty());
    }
}

/// The queue never holds more blobs than it has slots, nor a blob that is too
/// large.
pub proof fn law_queue_stays_within_bounds(queue: Seq<Seq<u8>>, blob: Seq<u8>)
    requires
        queue.len() <= MAX_MESSAGES,
        forall|i: int| 0 <= i < queue.len() ==> (#[trigger] queue[i]).len() <= MAX_BLOB_SIZE,
    ensures
        after_push(queue, blob).len() <= MAX_MESSAGES,
        forall|i: int|
            0 <= i < after_push(queue, blob).len() ==> (#[trigger] after_push(queue, blob)[i]).len()
                <= MAX_BLOB_SIZE,
{
}

/// Ten blobs of up to 218 bytes are queued, each behind those before it; a push
/// onto a full queue returns -1 and one of a larger blob -2, and both leave the
/// queue as it is.
pub proof fn law_pushes_append_or_change_nothing(queue: Seq<Seq<u8>>, blob: Seq<u8>)
    ensures
        push_code(queue, blob) == 0 <==> blob.len() <= 218 && queue.len() < 10,
        push_code(queue, blob) == -2 <==> blob.len() > 218,
        push_code(queue, blob) == -1 <==> blob.len() <= 218 && queue.len() >= 10,
        push_code(queue, blob) == 0 ==> after_push(queue, blob).len() == queue.len() + 1
            && after_push(queue, blob).last() == blob && after_push(queue, blob).drop_last()
            == queue,
        push_code(queue, blob) != 0 ==> after_push(queue, blob) == queue,
{
    if push_code(queue, blob) == 0 {
        assert(after_push(queue, blob).drop_last() =~= queue);
    }
}

/// A layout is a queue exactly where it is marked, counts at most ten blobs and
/// each of them has at most 218 bytes; the blobs are then those of the first
/// slots, from their first byte on.
pub proof fn law_only_valid_layouts_are_queues(layout: RtcQueueLayout, i: int, j: int)
    ensures
        layout.valid() <==> layout.magic == 0x5155_4555 && layout.count <= 10 && forall|k: int|
            0 <= k < layout.count ==> (#[trigger] layout.items@[k]).len <= 218,
        layout.blobs().len() == layout.count,
        layout.valid() && 0 <= i < layout.count ==> layout.blobs()[i].len()
            == layout.items@[i].len,
        layout.valid() && 0 <= i < layout.count && 0 <= j < layout.items@[i].len
            ==> layout.blobs()[i][j] == layout.items@[i].data@[j],
{
    if layout.valid() && 0 <= i < layout.count {
        assert(layout.items@[i].len <= 218);
    }
}

} // verus!
