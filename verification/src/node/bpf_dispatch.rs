//! The helpers that BPF programs call.
//!
//! While a program runs, a dispatch context holds what its helpers work on.
//! Each helper takes the program's registers and its memory and returns the
//! value for the result register.  A helper that is called without a context,
//! or with a pointer that is null or outside of the program's memory, returns
//! an error.
//!
//! Sending over the radio is done outside: `helper_send` and
//! `helper_send_recv` return what is to be sent, under which identity and with
//! which sequence number, and the outcome is handed to `send_done` and
//! `send_recv_done`.  Every blob that was sent uses up one sequence number.

use vstd::prelude::*;
use vstd::string::*;
use vstd::utf8::{
    decode_utf8, decode_utf8_encode_utf8, encode_utf8, encode_utf8_decode_utf8, valid_utf8,
};

use crate::node::async_queue::{after_push, push_code, AsyncQueue, MAX_BLOB_SIZE, MAX_MESSAGES};
use crate::node::bpf_helpers::{little_endian_number, ProgramClass};
use crate::node::bpf_memory::{
    bytes_at, law_written_bytes_are_read_back, lemma_bytes_len, with_bytes, BpfMemory, Region,
};
use crate::node::bpf_runtime::{BpfError, BpfInterpreter, Helper};
use crate::node::hal::Hal;
use crate::node::helper_ids;
use crate::node::key_store::NodeIdentity;
use crate::node::map_storage::{
    fresh_maps, law_update_then_lookup, lemma_value_in_bounds, MapContents, MapDef, MapStorage, MapsView,
};
use crate::node::sleep::SleepManager;
use crate::node::traits::Clock;
use crate::text::{push_signed, signed_text};

verus! {

/// Default time to wait for a reply, in milliseconds.
pub const SEND_RECV_TIMEOUT_MS: u32 = 200;

/// Maximum length of a bus transfer.
pub const MAX_BUS_TRANSFER_LEN: u64 = 4096;

/// Maximum time to wait for a reply, in milliseconds.
pub const MAX_SEND_RECV_TIMEOUT_MS: u32 = 5000;

/// Maximum delay, in microseconds.
pub const MAX_DELAY_US: u32 = 1_000_000;

/// Maximum number of maps of a program.
pub const MAX_MAPS: usize = 16;

/// Maximum number of trace entries of a program run.
pub const MAX_TRACE_ENTRIES: usize = 64;

/// Maximum length of a trace entry.
pub const MAX_TRACE_LEN: u64 = 256;

/// The value of -1 in a register.
pub const REG_ERROR: u64 = 0xffff_ffff_ffff_ffff;

/// The value of -2 in a register.
pub const REG_TOO_LARGE: u64 = 0xffff_ffff_ffff_fffe;

/// Why a map pointer could not be added to the index.
#[derive(Clone, Copy, Debug, PartialEq, Eq, Structural)]
pub enum MapPtrInsertError {
    /// The index is full.
    Overflow,
    /// The pointer is in the index already.
    Duplicate,
}

/// Whether the pointer is in the index.
pub open spec fn has_ptr(entries: Seq<(u64, usize)>, ptr: u64) -> bool {
    exists|i: int| 0 <= i < entries.len() && (#[trigger] entries[i]).0 == ptr
}

/// The map number of the first entry with this pointer, from entry `from` on.
pub open spec fn first_match(entries: Seq<(u64, usize)>, ptr: u64, from: int) -> Option<usize>
    decreases entries.len() - from,
{
    if from < 0 || from >= entries.len() {
        None
    } else if entries[from].0 == ptr {
        Some(entries[from].1)
    } else {
        first_match(entries, ptr, from + 1)
    }
}

/// Fixed-size mapping from map pointers to map numbers.
pub struct MapPtrIndex {
    entries: [(u64, usize); 16],
    len: usize,
}

impl View for MapPtrIndex {
    type V = Seq<(u64, usize)>;

    closed spec fn view(&self) -> Seq<(u64, usize)> {
        self.entries@.take(self.len as int)
    }
}

impl MapPtrIndex {
    /// The number of entries stays within the capacity.
    pub closed spec fn wf(&self) -> bool {
        self.len <= 16
    }

    /// An empty index.
    pub fn new() -> (index: MapPtrIndex)
        ensures
            index.wf(),
            index@ == Seq::<(u64, usize)>::empty(),
    {
        let index = MapPtrIndex { entries: [(0u64, 0usize); 16], len: 0 };
        assert(index@ =~= Seq::<(u64, usize)>::empty());
        index
    }

    /// Add a pointer and its map number.
    pub fn insert(&mut self, ptr: u64, idx: usize) -> (result: Result<(), MapPtrInsertError>)
        requires
            old(self).wf(),
        ensures
            final(self).wf(),
            result == (if old(self)@.len() >= MAX_MAPS {
                Err::<(), MapPtrInsertError>(MapPtrInsertError::Overflow)
            } else if has_ptr(old(self)@, ptr) {
                Err(MapPtrInsertError::Duplicate)
            } else {
                Ok(())
            }),
            final(self)@ == (if result is Ok {
                old(self)@.push((ptr, idx))
            } else {
                old(self)@
            }),
    {
        if self.len >= MAX_MAPS {
            return Err(MapPtrInsertError::Overflow);
        }
        let ghost before = self@;
        let mut i: usize = 0;
        while i < self.len
            invariant
                *self == *old(self),
                self.wf(),
                before == self@,
                self.len < MAX_MAPS,
                i <= self.len,
                forall|j: int| 0 <= j < i ==> (#[trigger] before[j]).0 != ptr,
            decreases self.len - i,
        {
            assert(before[i as int] == self.entries@[i as int]);
            if self.entries[i].0 == ptr {
                return Err(MapPtrInsertError::Duplicate);
            }
            i = i + 1;
        }
        self.entries[self.len] = (ptr, idx);
        self.len = self.len + 1;
        assert(self@ =~= before.push((ptr, idx)));
        Ok(())
    }

    /// The map number of a pointer.
    pub fn get(&self, ptr: u64) -> (idx: Option<usize>)
        requires
            self.wf(),
        ensures
            idx == first_match(self@, ptr, 0),
    {
        let mut i: usize = 0;
        while i < self.len
            invariant
                self.wf(),
                i <= self.len,
                first_match(self@, ptr, 0) == first_match(self@, ptr, i as int),
            decreases self.len - i,
        {
            assert(self@[i as int] == self.entries@[i as int]);
            if self.entries[i].0 == ptr {
                return Some(self.entries[i].1);
            }
            i = i + 1;
        }
        None
    }
}

/// Whether an index can be built: there are not too many pointers, and no two
/// are equal.
pub open spec fn can_index(pointers: Seq<u64>) -> bool {
    &&& pointers.len() <= MAX_MAPS
    &&& forall|i: int, j: int|
        0 <= i < j < pointers.len() ==> (#[trigger] pointers[i]) != (#[trigger] pointers[j])
}

/// The index of map pointers: complete, or empty where it cannot be built, so
/// that all maps fail alike.
pub open spec fn indexed(pointers: Seq<u64>) -> Seq<(u64, usize)> {
    if can_index(pointers) {
        Seq::new(pointers.len(), |i: int| (pointers[i], i as usize))
    } else {
        Seq::empty()
    }
}

/// Build the index of map pointers.
pub fn build_index(pointers: &[u64]) -> (index: MapPtrIndex)
    ensures
        index.wf(),
        index@ == indexed(pointers@),
{
    let mut index = MapPtrIndex::new();
    let mut i: usize = 0;
    while i < pointers.len()
        invariant
            index.wf(),
            i <= pointers.len(),
            i <= MAX_MAPS,
            index@ == Seq::new(i as nat, |j: int| (pointers@[j], j as usize)),
            forall|a: int, b: int|
                0 <= a < b < i ==> (#[trigger] pointers@[a]) != (#[trigger] pointers@[b]),
        decreases pointers.len() - i,
    {
        let ghost before = index@;
        match index.insert(pointers[i], i) {
            Ok(()) => {
                proof {
                    assert(index@ =~= Seq::new((i + 1) as nat, |j: int| (pointers@[j], j as usize)));
                    assert forall|a: int, b: int| 0 <= a < b < i + 1 implies (
                    #[trigger] pointers@[a]) != (#[trigger] pointers@[b]) by {
                        if b == i {
                            assert(before[a].0 == pointers@[a]);
                        }
                    }
                }
            },
            Err(reason) => {
                proof {
                    if reason == MapPtrInsertError::Duplicate {
                        let j = choose|j: int|
                            0 <= j < before.len() && (#[trigger] before[j]).0 == pointers@[i as int];
                        assert(pointers@[j] == pointers@[i as int]);
                    }
                    assert(!can_index(pointers@));
                }
                return MapPtrIndex::new();
            },
        }
        i = i + 1;
    }
    assert(can_index(pointers@));
    assert(index@ =~= indexed(pointers@));
    index
}

/// In an index every pointer leads to its own map, and no other pointer leads
/// to any.
pub proof fn law_index_finds_maps(pointers: Seq<u64>, ptr: u64, i: int)
    requires
        can_index(pointers),
    ensures
        0 <= i < pointers.len() ==> first_match(indexed(pointers), pointers[i], 0) == Some(
            i as usize,
        ),
        (forall|j: int| 0 <= j < pointers.len() ==> (#[trigger] pointers[j]) != ptr)
            ==> first_match(indexed(pointers), ptr, 0) is None,
{
    if 0 <= i < pointers.len() {
        lemma_first_match(indexed(pointers), pointers[i], 0, i);
    }
    if forall|j: int| 0 <= j < pointers.len() ==> (#[trigger] pointers[j]) != ptr {
        lemma_no_match(indexed(pointers), ptr, 0);
    }
}

/// The first entry with a pointer is the one that is found.
proof fn lemma_first_match(entries: Seq<(u64, usize)>, ptr: u64, from: int, at: int)
    requires
        0 <= from <= at < entries.len(),
        entries[at].0 == ptr,
        forall|j: int| from <= j < at ==> (#[trigger] entries[j]).0 != ptr,
    ensures
        first_match(entries, ptr, from) == Some(entries[at].1),
    decreases at - from,
{
    if from < at {
        lemma_first_match(entries, ptr, from + 1, at);
    }
}

/// A pointer that is not in the index is not found.
proof fn lemma_no_match(entries: Seq<(u64, usize)>, ptr: u64, from: int)
    requires
        0 <= from <= entries.len(),
        forall|j: int| from <= j < entries.len() ==> (#[trigger] entries[j]).0 != ptr,
    ensures
        first_match(entries, ptr, from) is None,
    decreases entries.len() - from,
{
    if from < entries.len() {
        lemma_no_match(entries, ptr, from + 1);
    }
}

/// What the helpers of a running program work on.
pub struct DispatchContext<H: Hal, C: Clock> {
    pub hal: H,
    pub clock: C,
    pub map_storage: MapStorage,
    pub sleep_mgr: SleepManager,
    pub identity: NodeIdentity,
    pub current_seq: u64,
    pub program_class: ProgramClass,
    pub trace_log: Vec<String>,
    pub async_queue: AsyncQueue,
    pub gateway_timestamp_ms: u64,
    pub command_received_at_ms: u64,
    pub battery_mv: u32,
    pub map_ptr_index: MapPtrIndex,
}

/// A dispatch context as mathematical values, with its drivers as they are.
#[verifier::reject_recursive_types(H)]
#[verifier::reject_recursive_types(C)]
pub ghost struct ContextView<H, C> {
    pub hal: H,
    pub clock: C,
    pub maps: MapsView,
    pub sleep: SleepManager,
    pub identity: NodeIdentity,
    pub seq: u64,
    pub class: ProgramClass,
    pub trace: Seq<Seq<char>>,
    pub queue: Seq<Seq<u8>>,
    pub gateway_timestamp_ms: u64,
    pub command_received_at_ms: u64,
    pub battery_mv: u32,
    pub index: Seq<(u64, usize)>,
}

/// The sequence number after `seq`.
pub open spec fn next_seq(seq: u64) -> u64 {
    if seq == u64::MAX {
        0
    } else {
        (seq + 1) as u64
    }
}

impl<H, C> ContextView<H, C> {
    /// The context after a transmission: a blob that was sent has used up its
    /// sequence number.
    pub open spec fn after_sending(self, sent: bool) -> ContextView<H, C> {
        if sent {
            ContextView { seq: next_seq(self.seq), ..self }
        } else {
            self
        }
    }
}

impl<H: Hal, C: Clock> View for DispatchContext<H, C> {
    type V = ContextView<H, C>;

    open spec fn view(&self) -> ContextView<H, C> {
        ContextView {
            hal: self.hal,
            clock: self.clock,
            maps: self.map_storage@,
            sleep: self.sleep_mgr,
            identity: self.identity,
            seq: self.current_seq,
            class: self.program_class,
            trace: self.trace_log@.map_values(|s: String| s@),
            queue: self.async_queue@,
            gateway_timestamp_ms: self.gateway_timestamp_ms,
            command_received_at_ms: self.command_received_at_ms,
            battery_mv: self.battery_mv,
            index: self.map_ptr_index@,
        }
    }
}

impl<H: Hal, C: Clock> DispatchContext<H, C> {
    /// The parts keep their invariants.
    pub open spec fn wf(&self) -> bool {
        &&& self.map_storage@.wf()
        &&& self.async_queue.wf()
        &&& self.map_ptr_index.wf()
    }
}

/// Holds the context while a program runs.
pub struct Dispatcher<H: Hal, C: Clock> {
    ctx: Option<DispatchContext<H, C>>,
}

impl<H: Hal, C: Clock> View for Dispatcher<H, C> {
    type V = Option<ContextView<H, C>>;

    closed spec fn view(&self) -> Option<ContextView<H, C>> {
        match self.ctx {
            Some(ctx) => Some(ctx@),
            None => None,
        }
    }
}

impl<H: Hal, C: Clock> Dispatcher<H, C> {
    /// The installed context, if any, keeps its invariant.
    pub closed spec fn wf(&self) -> bool {
        self.ctx matches Some(ctx) ==> ctx.wf()
    }

    /// No context is installed.
    pub fn new() -> (dispatcher: Dispatcher<H, C>)
        ensures
            dispatcher@ is None,
            dispatcher.wf(),
    {
        Dispatcher { ctx: None }
    }
}

/// Install a context before a program runs.  None may be installed yet.
/// `map_pointers` are the addresses at which the program finds the values of
/// its maps, map by map.
pub fn install<H: Hal, C: Clock>(
    dispatcher: &mut Dispatcher<H, C>,
    hal: H,
    clock: C,
    map_storage: MapStorage,
    map_pointers: &[u64],
    sleep_mgr: SleepManager,
    identity: NodeIdentity,
    current_seq: u64,
    program_class: ProgramClass,
    trace_log: Vec<String>,
    async_queue: AsyncQueue,
    gateway_timestamp_ms: u64,
    command_received_at_ms: u64,
    battery_mv: u32,
)
    requires
        old(dispatcher)@ is None,
        map_storage@.wf(),
        async_queue.wf(),
    ensures
        final(dispatcher).wf(),
        final(dispatcher)@ == Some(
            (ContextView {
                hal,
                clock,
                maps: map_storage@,
                sleep: sleep_mgr,
                identity,
                seq: current_seq,
                class: program_class,
                trace: trace_log@.map_values(|s: String| s@),
                queue: async_queue@,
                gateway_timestamp_ms,
                command_received_at_ms,
                battery_mv,
                index: indexed(map_pointers@),
            }),
        ),
{
    let map_ptr_index = build_index(map_pointers);
    dispatcher.ctx = Some(
        DispatchContext {
            hal,
            clock,
            map_storage,
            sleep_mgr,
            identity,
            current_seq,
            program_class,
            trace_log,
            async_queue,
            gateway_timestamp_ms,
            command_received_at_ms,
            battery_mv,
            map_ptr_index,
        },
    );
}

/// Remove the context after a program has run, and hand it back.
pub fn clear<H: Hal, C: Clock>(dispatcher: &mut Dispatcher<H, C>) -> (ctx: Option<
    DispatchContext<H, C>,
>)
    requires
        old(dispatcher).wf(),
    ensures
        final(dispatcher)@ is None,
        final(dispatcher).wf(),
        match ctx {
            Some(c) => old(dispatcher)@ == Some(c@) && c.wf(),
            None => old(dispatcher)@ is None,
        },
{
    let mut ctx: Option<DispatchContext<H, C>> = None;
    std::mem::swap(&mut dispatcher.ctx, &mut ctx);
    ctx
}

/// Clears the context when it goes out of scope, however the run of a program
/// ends.  What is to be kept is taken with `clear` before.
pub struct DispatchGuard<'a, H: Hal, C: Clock> {
    pub dispatcher: &'a mut Dispatcher<H, C>,
}

impl<'a, H: Hal, C: Clock> Drop for DispatchGuard<'a, H, C> {
    fn drop(&mut self)
        ensures
            final(self).dispatcher@ is None,
        opens_invariants none
        no_unwind
    {
        self.dispatcher.ctx = None;
    }
}

/// The value of a result code in a register.
pub open spec fn reg_of(code: int) -> u64 {
    if code >= 0 {
        code as u64
    } else {
        (code + 0x1_0000_0000_0000_0000) as u64
    }
}

/// The value of a result code in a register.
fn reg_from(code: i64) -> (value: u64)
    ensures
        value == reg_of(code as int),
{
    if code >= 0 {
        code as u64
    } else {
        let magnitude: u64 = (-(code + 1)) as u64;
        0xffff_ffff_ffff_ffff - magnitude
    }
}

/// The low 32 bits of a register.
pub open spec fn low32(reg: u64) -> u32 {
    (reg as int % 0x1_0000_0000) as u32
}

/// The low 32 bits of a register.
fn low_half(reg: u64) -> (value: u32)
    ensures
        value == low32(reg),
{
    (reg % 0x1_0000_0000) as u32
}

/// Whether a bus transfer of `len` bytes at `ptr` is allowed.
pub open spec fn is_transfer(ptr: u64, len: u64) -> bool {
    ptr != 0 && 0 < len <= MAX_BUS_TRANSFER_LEN
}

/// Whether the program may access `len` bytes at `ptr` in a bus transfer.
pub open spec fn can_transfer(mem: Seq<Region>, ptr: u64, len: u64) -> bool {
    is_transfer(ptr, len) && bytes_at(mem, ptr, len as nat) is Some
}

/// The bytes at `ptr`.
pub open spec fn bytes_of(mem: Seq<Region>, ptr: u64, len: u64) -> Seq<u8> {
    bytes_at(mem, ptr, len as nat)->0
}

/// What an I2C read into the buffer `before` at `ptr` may do.
pub open spec fn i2c_read_ran<H: Hal, C: Clock>(
    pre: ContextView<H, C>,
    mem: Seq<Region>,
    handle: u32,
    ptr: u64,
    before: Seq<u8>,
    post: ContextView<H, C>,
    mem_after: Seq<Region>,
    result: u64,
) -> bool {
    exists|hal: H, after: Seq<u8>, code: i32| #[trigger]
        H::i2c_was_read(pre.hal, handle, before, hal, after, code) && post == (ContextView {
            hal,
            ..pre
        }) && mem_after == with_bytes(mem, ptr, after) && result == reg_of(code as int)
}

/// What `helper_i2c_read` may do.
pub open spec fn i2c_read_done<H: Hal, C: Clock>(
    pre: ContextView<H, C>,
    mem: Seq<Region>,
    r1: u64,
    r2: u64,
    r3: u64,
    post: ContextView<H, C>,
    mem_after: Seq<Region>,
    result: u64,
) -> bool {
    if can_transfer(mem, r2, r3) {
        i2c_read_ran(pre, mem, low32(r1), r2, bytes_of(mem, r2, r3), post, mem_after, result)
    } else {
        post == pre && mem_after == mem && result == REG_ERROR
    }
}

/// Read from an I2C device: r1 is the handle, r2 and r3 are the buffer and its
/// length.
pub fn helper_i2c_read<H: Hal, C: Clock>(
    dispatcher: &mut Dispatcher<H, C>,
    mem: &mut BpfMemory,
    r1: u64,
    r2: u64,
    r3: u64,
    _r4: u64,
    _r5: u64,
) -> (result: u64)
    requires
        old(dispatcher).wf(),
    ensures
        final(dispatcher).wf(),
        match (old(dispatcher)@, final(dispatcher)@) {
            (Some(pre), Some(post)) => i2c_read_done(
                pre,
                old(mem)@,
                r1,
                r2,
                r3,
                post,
                final(mem)@,
                result,
            ),
            (None, None) => final(mem)@ == old(mem)@ && result == REG_ERROR,
            _ => false,
        },
{
    match &mut dispatcher.ctx {
        Some(ctx) => {
            if r2 == 0 || r3 == 0 || r3 > MAX_BUS_TRANSFER_LEN {
                return REG_ERROR;
            }
            let mut buf = match mem.read(r2, r3 as usize) {
                Some(buf) => buf,
                None => {
                    return REG_ERROR;
                },
            };
            let ghost pre = ctx@;
            let ghost before = buf@;
            let handle = low_half(r1);
            let code = ctx.hal.i2c_read(handle, buf.as_mut_slice());
            assert(H::i2c_was_read(pre.hal, low32(r1), before, ctx.hal, buf@, code));
            let _ = mem.write(r2, buf.as_slice());
            reg_from(code as i64)
        },
        None => REG_ERROR,
    }
}

/// What an I2C write of `data` may do.
pub open spec fn i2c_write_ran<H: Hal, C: Clock>(
    pre: ContextView<H, C>,
    handle: u32,
    data: Seq<u8>,
    post: ContextView<H, C>,
    result: u64,
) -> bool {
    exists|hal: H, code: i32| #[trigger]
        H::i2c_was_written(pre.hal, handle, data, hal, code) && post == (ContextView { hal, ..pre })
            && result == reg_of(code as int)
}

/// What `helper_i2c_write` may do.
pub open spec fn i2c_write_done<H: Hal, C: Clock>(
    pre: ContextView<H, C>,
    mem: Seq<Region>,
    r1: u64,
    r2: u64,
    r3: u64,
    post: ContextView<H, C>,
    result: u64,
) -> bool {
    if can_transfer(mem, r2, r3) {
        i2c_write_ran(pre, low32(r1), bytes_of(mem, r2, r3), post, result)
    } else {
        post == pre && result == REG_ERROR
    }
}

/// Write to an I2C device: r1 is the handle, r2 and r3 are the data and its
/// length.
pub fn helper_i2c_write<H: Hal, C: Clock>(
    dispatcher: &mut Dispatcher<H, C>,
    mem: &BpfMemory,
    r1: u64,
    r2: u64,
    r3: u64,
    _r4: u64,
    _r5: u64,
) -> (result: u64)
    requires
        old(dispatcher).wf(),
    ensures
        final(dispatcher).wf(),
        match (old(dispatcher)@, final(dispatcher)@) {
            (Some(pre), Some(post)) => i2c_write_done(pre, mem@, r1, r2, r3, post, result),
            (None, None) => result == REG_ERROR,
            _ => false,
        },
{
    match &mut dispatcher.ctx {
        Some(ctx) => {
            if r2 == 0 || r3 == 0 || r3 > MAX_BUS_TRANSFER_LEN {
                return REG_ERROR;
            }
            let data = match mem.read(r2, r3 as usize) {
                Some(data) => data,
                None => {
                    return REG_ERROR;
                },
            };
            let ghost pre = ctx@;
            let handle = low_half(r1);
            let code = ctx.hal.i2c_write(handle, data.as_slice());
            assert(H::i2c_was_written(pre.hal, low32(r1), data@, ctx.hal, code));
            reg_from(code as i64)
        },
        None => REG_ERROR,
    }
}

/// What an I2C write of `data` and a read into the buffer `before` at `ptr`
/// may do.
pub open spec fn i2c_write_read_ran<H: Hal, C: Clock>(
    pre: ContextView<H, C>,
    mem: Seq<Region>,
    handle: u32,
    data: Seq<u8>,
    ptr: u64,
    before: Seq<u8>,
    post: ContextView<H, C>,
    mem_after: Seq<Region>,
    result: u64,
) -> bool {
    exists|hal: H, after: Seq<u8>, code: i32| #[trigger]
        H::i2c_was_written_and_read(pre.hal, handle, data, before, hal, after, code) && post == (
        ContextView { hal, ..pre }) && mem_after == with_bytes(mem, ptr, after) && result == reg_of(
            code as int,
        )
}

/// What `helper_i2c_write_read` may do.
pub open spec fn i2c_write_read_done<H: Hal, C: Clock>(
    pre: ContextView<H, C>,
    mem: Seq<Region>,
    r1: u64,
    r2: u64,
    r3: u64,
    r4: u64,
    r5: u64,
    post: ContextView<H, C>,
    mem_after: Seq<Region>,
    result: u64,
) -> bool {
    if can_transfer(mem, r2, r3) && can_transfer(mem, r4, r5) {
        i2c_write_read_ran(
            pre,
            mem,
            low32(r1),
            bytes_of(mem, r2, r3),
            r4,
            bytes_of(mem, r4, r5),
            post,
            mem_after,
            result,
        )
    } else {
        post == pre && mem_after == mem && result == REG_ERROR
    }
}

/// Write to and then read from an I2C device: r1 is the handle, r2 and r3 are
/// the data and its length, r4 and r5 the buffer and its length.
pub fn helper_i2c_write_read<H: Hal, C: Clock>(
    dispatcher: &mut Dispatcher<H, C>,
    mem: &mut BpfMemory,
    r1: u64,
    r2: u64,
    r3: u64,
    r4: u64,
    r5: u64,
) -> (result: u64)
    requires
        old(dispatcher).wf(),
    ensures
        final(dispatcher).wf(),
        match (old(dispatcher)@, final(dispatcher)@) {
            (Some(pre), Some(post)) => i2c_write_read_done(
                pre,
                old(mem)@,
                r1,
                r2,
                r3,
                r4,
                r5,
                post,
                final(mem)@,
                result,
            ),
            (None, None) => final(mem)@ == old(mem)@ && result == REG_ERROR,
            _ => false,
        },
{
    match &mut dispatcher.ctx {
        Some(ctx) => {
            if r2 == 0 || r4 == 0 || r3 == 0 || r5 == 0 || r3 > MAX_BUS_TRANSFER_LEN || r5
                > MAX_BUS_TRANSFER_LEN {
                return REG_ERROR;
            }
            let data = match mem.read(r2, r3 as usize) {
                Some(data) => data,
                None => {
                    return REG_ERROR;
                },
            };
            let mut buf = match mem.read(r4, r5 as usize) {
                Some(buf) => buf,
                None => {
                    return REG_ERROR;
                },
            };
            let ghost pre = ctx@;
            let ghost before = buf@;
            let handle = low_half(r1);
            let code = ctx.hal.i2c_write_read(handle, data.as_slice(), buf.as_mut_slice());
            assert(H::i2c_was_written_and_read(
                pre.hal,
                low32(r1),
                data@,
                before,
                ctx.hal,
                buf@,
                code,
            ));
            let _ = mem.write(r4, buf.as_slice());
            reg_from(code as i64)
        },
        None => REG_ERROR,
    }
}

/// What an SPI transfer of the buffer `before` at `ptr` may do.
pub open spec fn spi_transfer_ran<H: Hal, C: Clock>(
    pre: ContextView<H, C>,
    mem: Seq<Region>,
    handle: u32,
    ptr: u64,
    before: Seq<u8>,
    post: ContextView<H, C>,
    mem_after: Seq<Region>,
    result: u64,
) -> bool {
    exists|hal: H, after: Seq<u8>, code: i32| #[trigger]
        H::spi_was_transferred(pre.hal, handle, before, hal, after, code) && post == (ContextView {
            hal,
            ..pre
        }) && mem_after == with_bytes(mem, ptr, after) && result == reg_of(code as int)
}

/// What `helper_spi_transfer` may do.
pub open spec fn spi_transfer_done<H: Hal, C: Clock>(
    pre: ContextView<H, C>,
    mem: Seq<Region>,
    r1: u64,
    r2: u64,
    r3: u64,
    post: ContextView<H, C>,
    mem_after: Seq<Region>,
    result: u64,
) -> bool {
    if can_transfer(mem, r2, r3) {
        spi_transfer_ran(pre, mem, low32(r1), r2, bytes_of(mem, r2, r3), post, mem_after, result)
    } else {
        post == pre && mem_after == mem && result == REG_ERROR
    }
}

/// SPI transfer in place: r1 is the handle, r2 and r3 are the buffer and its
/// length.
pub fn helper_spi_transfer<H: Hal, C: Clock>(
    dispatcher: &mut Dispatcher<H, C>,
    mem: &mut BpfMemory,
    r1: u64,
    r2: u64,
    r3: u64,
    _r4: u64,
    _r5: u64,
) -> (result: u64)
    requires
        old(dispatcher).wf(),
    ensures
        final(dispatcher).wf(),
        match (old(dispatcher)@, final(dispatcher)@) {
            (Some(pre), Some(post)) => spi_transfer_done(
                pre,
                old(mem)@,
                r1,
                r2,
                r3,
                post,
                final(mem)@,
                result,
            ),
            (None, None) => final(mem)@ == old(mem)@ && result == REG_ERROR,
            _ => false,
        },
{
    match &mut dispatcher.ctx {
        Some(ctx) => {
            if r2 == 0 || r3 == 0 || r3 > MAX_BUS_TRANSFER_LEN {
                return REG_ERROR;
            }
            let mut buf = match mem.read(r2, r3 as usize) {
                Some(buf) => buf,
                None => {
                    return REG_ERROR;
                },
            };
            let ghost pre = ctx@;
            let ghost before = buf@;
            let handle = low_half(r1);
            let code = ctx.hal.spi_transfer(handle, buf.as_mut_slice());
            assert(H::spi_was_transferred(pre.hal, low32(r1), before, ctx.hal, buf@, code));
            let _ = mem.write(r2, buf.as_slice());
            reg_from(code as i64)
        },
        None => REG_ERROR,
    }
}

/// What `helper_gpio_read` may do.
pub open spec fn gpio_read_done<H: Hal, C: Clock>(
    pre: ContextView<H, C>,
    r1: u64,
    post: ContextView<H, C>,
    result: u64,
) -> bool {
    exists|hal: H, code: i32| #[trigger]
        H::gpio_was_read(pre.hal, low32(r1), hal, code) && post == (ContextView { hal, ..pre })
            && result == reg_of(code as int)
}

/// Read a pin: r1 is the pin.
pub fn helper_gpio_read<H: Hal, C: Clock>(
    dispatcher: &mut Dispatcher<H, C>,
    r1: u64,
    _r2: u64,
    _r3: u64,
    _r4: u64,
    _r5: u64,
) -> (result: u64)
    requires
        old(dispatcher).wf(),
    ensures
        final(dispatcher).wf(),
        match (old(dispatcher)@, final(dispatcher)@) {
            (Some(pre), Some(post)) => gpio_read_done(pre, r1, post, result),
            (None, None) => result == REG_ERROR,
            _ => false,
        },
{
    match &mut dispatcher.ctx {
        Some(ctx) => {
            let ghost pre = ctx@;
            let code = ctx.hal.gpio_read(low_half(r1));
            assert(H::gpio_was_read(pre.hal, low32(r1), ctx.hal, code));
            reg_from(code as i64)
        },
        None => REG_ERROR,
    }
}

/// What `helper_gpio_write` may do.
pub open spec fn gpio_write_done<H: Hal, C: Clock>(
    pre: ContextView<H, C>,
    r1: u64,
    r2: u64,
    post: ContextView<H, C>,
    result: u64,
) -> bool {
    exists|hal: H, code: i32| #[trigger]
        H::gpio_was_written(pre.hal, low32(r1), low32(r2), hal, code) && post == (ContextView {
            hal,
            ..pre
        }) && result == reg_of(code as int)
}

/// Set a pin: r1 is the pin, r2 the level.
pub fn helper_gpio_write<H: Hal, C: Clock>(
    dispatcher: &mut Dispatcher<H, C>,
    r1: u64,
    r2: u64,
    _r3: u64,
    _r4: u64,
    _r5: u64,
) -> (result: u64)
    requires
        old(dispatcher).wf(),
    ensures
        final(dispatcher).wf(),
        match (old(dispatcher)@, final(dispatcher)@) {
            (Some(pre), Some(post)) => gpio_write_done(pre, r1, r2, post, result),
            (None, None) => result == REG_ERROR,
            _ => false,
        },
{
    match &mut dispatcher.ctx {
        Some(ctx) => {
            let ghost pre = ctx@;
            let code = ctx.hal.gpio_write(low_half(r1), low_half(r2));
            assert(H::gpio_was_written(pre.hal, low32(r1), low32(r2), ctx.hal, code));
            reg_from(code as i64)
        },
        None => REG_ERROR,
    }
}

/// What `helper_adc_read` may do.
pub open spec fn adc_read_done<H: Hal, C: Clock>(
    pre: ContextView<H, C>,
    r1: u64,
    post: ContextView<H, C>,
    result: u64,
) -> bool {
    exists|hal: H, code: i32| #[trigger]
        H::adc_was_read(pre.hal, low32(r1), hal, code) && post == (ContextView { hal, ..pre })
            && result == reg_of(code as int)
}

/// Read an ADC channel: r1 is the channel.
pub fn helper_adc_read<H: Hal, C: Clock>(
    dispatcher: &mut Dispatcher<H, C>,
    r1: u64,
    _r2: u64,
    _r3: u64,
    _r4: u64,
    _r5: u64,
) -> (result: u64)
    requires
        old(dispatcher).wf(),
    ensures
        final(dispatcher).wf(),
        match (old(dispatcher)@, final(dispatcher)@) {
            (Some(pre), Some(post)) => adc_read_done(pre, r1, post, result),
            (None, None) => result == REG_ERROR,
            _ => false,
        },
{
    match &mut dispatcher.ctx {
        Some(ctx) => {
            let ghost pre = ctx@;
            let code = ctx.hal.adc_read(low_half(r1));
            assert(H::adc_was_read(pre.hal, low32(r1), ctx.hal, code));
            reg_from(code as i64)
        },
        None => REG_ERROR,
    }
}

/// Whether the program may send the `len` bytes at `ptr`.
pub open spec fn can_send(mem: Seq<Region>, ptr: u64, len: u64) -> bool {
    ptr != 0 && len <= MAX_BLOB_SIZE && bytes_at(mem, ptr, len as nat) is Some
}

/// Read a blob that a program wants to send.
fn read_blob(mem: &BpfMemory, ptr: u64, len: u64) -> (blob: Option<Vec<u8>>)
    ensures
        match blob {
            Some(b) => can_send(mem@, ptr, len) && b@ == bytes_of(mem@, ptr, len),
            None => !can_send(mem@, ptr, len),
        },
{
    if ptr == 0 || len > MAX_BLOB_SIZE as u64 {
        return None;
    }
    mem.read(ptr, len as usize)
}

/// A blob to send under the node's identity, with its sequence number.
#[derive(Debug, PartialEq, Eq)]
pub struct SendRequest {
    pub identity: NodeIdentity,
    pub seq: u64,
    pub blob: Vec<u8>,
}

/// Send a blob without waiting for a reply: r1 and r2 are the blob and its
/// length.  Returns what to send, or the result of a call that is not allowed.
pub fn helper_send<H: Hal, C: Clock>(
    dispatcher: &Dispatcher<H, C>,
    mem: &BpfMemory,
    r1: u64,
    r2: u64,
    _r3: u64,
    _r4: u64,
    _r5: u64,
) -> (request: Result<SendRequest, u64>)
    ensures
        match request {
            Ok(req) => {
                &&& can_send(mem@, r1, r2)
                &&& dispatcher@ matches Some(ctx) && req.identity == ctx.identity && req.seq
                    == ctx.seq
                &&& req.blob@ == bytes_of(mem@, r1, r2)
            },
            Err(result) => {
                &&& dispatcher@ is None || !can_send(mem@, r1, r2)
                &&& result == REG_ERROR
            },
        },
{
    match &dispatcher.ctx {
        Some(ctx) => match read_blob(mem, r1, r2) {
            Some(blob) => Ok(SendRequest { identity: ctx.identity, seq: ctx.current_seq, blob }),
            None => Err(REG_ERROR),
        },
        None => Err(REG_ERROR),
    }
}

/// The result of `helper_send` once the blob was sent, or could not be.  The
/// sequence number of a blob that was sent is not used again.
pub fn send_done<H: Hal, C: Clock>(dispatcher: &mut Dispatcher<H, C>, sent: bool) -> (result: u64)
    requires
        old(dispatcher).wf(),
    ensures
        final(dispatcher).wf(),
        match (old(dispatcher)@, final(dispatcher)@) {
            (Some(pre), Some(post)) => {
                &&& post == pre.after_sending(sent)
                &&& result == (if sent {
                    0
                } else {
                    REG_ERROR
                })
            },
            (None, None) => result == REG_ERROR,
            _ => false,
        },
{
    match &mut dispatcher.ctx {
        Some(ctx) => {
            if !sent {
                return REG_ERROR;
            }
            ctx.current_seq = ctx.current_seq.wrapping_add(1);
            0
        },
        None => REG_ERROR,
    }
}

/// A blob to send under the node's identity, with its sequence number, and how
/// long to wait for the reply.
#[derive(Debug, PartialEq, Eq)]
pub struct SendRecvRequest {
    pub identity: NodeIdentity,
    pub seq: u64,
    pub blob: Vec<u8>,
    pub timeout_ms: u32,
}

/// How long a reply is waited for.
pub open spec fn reply_timeout(r5: u64) -> u32 {
    if r5 == 0 {
        SEND_RECV_TIMEOUT_MS
    } else if low32(r5) < MAX_SEND_RECV_TIMEOUT_MS {
        low32(r5)
    } else {
        MAX_SEND_RECV_TIMEOUT_MS
    }
}

/// Send a blob and wait for a reply: r1 and r2 are the blob and its length, r3
/// and r4 the reply buffer and its capacity, and r5 is the time to wait.
/// Returns the request, or the result of a call that is not allowed.
pub fn helper_send_recv<H: Hal, C: Clock>(
    dispatcher: &Dispatcher<H, C>,
    mem: &BpfMemory,
    r1: u64,
    r2: u64,
    r3: u64,
    r4: u64,
    r5: u64,
) -> (request: Result<SendRecvRequest, u64>)
    ensures
        match request {
            Ok(req) => {
                &&& can_send(mem@, r1, r2) && r3 != 0 && r4 != 0
                &&& dispatcher@ matches Some(ctx) && req.identity == ctx.identity && req.seq
                    == ctx.seq
                &&& req.blob@ == bytes_of(mem@, r1, r2)
                &&& req.timeout_ms == reply_timeout(r5)
            },
            Err(result) => {
                &&& dispatcher@ is None || !can_send(mem@, r1, r2) || r3 == 0 || r4 == 0
                &&& result == REG_ERROR
            },
        },
{
    let (identity, seq) = match &dispatcher.ctx {
        Some(ctx) => (ctx.identity, ctx.current_seq),
        None => {
            return Err(REG_ERROR);
        },
    };
    if r3 == 0 || r4 == 0 {
        return Err(REG_ERROR);
    }
    let blob = match read_blob(mem, r1, r2) {
        Some(blob) => blob,
        None => {
            return Err(REG_ERROR);
        },
    };
    let timeout_ms: u32 = if r5 == 0 {
        SEND_RECV_TIMEOUT_MS
    } else {
        let wanted = low_half(r5);
        if wanted < MAX_SEND_RECV_TIMEOUT_MS {
            wanted
        } else {
            MAX_SEND_RECV_TIMEOUT_MS
        }
    };
    Ok(SendRecvRequest { identity, seq, blob, timeout_ms })
}

/// What a reply does to memory, and what the program is told of it.
pub open spec fn reply_stored(
    mem: Seq<Region>,
    r3: u64,
    r4: u64,
    reply: Option<Seq<u8>>,
    mem_after: Seq<Region>,
    result: u64,
) -> bool {
    match reply {
        Some(blob) => if blob.len() <= r4 && bytes_at(mem, r3, blob.len()) is Some {
            result == blob.len() && mem_after == with_bytes(mem, r3, blob)
        } else {
            result == REG_ERROR && mem_after == mem
        },
        None => result == REG_ERROR && mem_after == mem,
    }
}

/// What became of a blob that was to be sent and answered.
#[derive(Debug, PartialEq, Eq)]
pub enum SendRecvOutcome {
    /// The blob could not be sent.
    Unsent,
    /// The blob was sent, and no valid reply came in time.
    NoReply,
    /// The blob was sent and answered.
    Reply(Vec<u8>),
}

impl SendRecvOutcome {
    /// Whether the blob was sent.
    pub open spec fn sent(self) -> bool {
        !(self is Unsent)
    }

    /// The reply, if one came.
    pub open spec fn reply(self) -> Option<Seq<u8>> {
        match self {
            SendRecvOutcome::Reply(blob) => Some(blob@),
            _ => None,
        }
    }
}

/// The result of `helper_send_recv` once the reply is there or the time is up:
/// the reply is stored in the buffer at r3 and its length returned, unless it is
/// longer than r4.  The sequence number of a blob that was sent is not used
/// again, whether a reply came or not.
pub fn send_recv_done<H: Hal, C: Clock>(
    dispatcher: &mut Dispatcher<H, C>,
    mem: &mut BpfMemory,
    r3: u64,
    r4: u64,
    outcome: SendRecvOutcome,
) -> (result: u64)
    requires
        old(dispatcher).wf(),
    ensures
        final(dispatcher).wf(),
        match (old(dispatcher)@, final(dispatcher)@) {
            (Some(pre), Some(post)) => {
                &&& post == pre.after_sending(outcome.sent())
                &&& reply_stored(old(mem)@, r3, r4, outcome.reply(), final(mem)@, result)
            },
            (None, None) => result == REG_ERROR && final(mem)@ == old(mem)@,
            _ => false,
        },
{
    match &mut dispatcher.ctx {
        Some(ctx) => {
            let reply = match outcome {
                SendRecvOutcome::Unsent => {
                    return REG_ERROR;
                },
                SendRecvOutcome::NoReply => None,
                SendRecvOutcome::Reply(blob) => Some(blob),
            };
            ctx.current_seq = ctx.current_seq.wrapping_add(1);
            match reply {
                Some(blob) => {
                    if blob.len() as u64 > r4 {
                        return REG_ERROR;
                    }
                    if !mem.write(r3, blob.as_slice()) {
                        return REG_ERROR;
                    }
                    blob.len() as u64
                },
                None => REG_ERROR,
            }
        },
        None => REG_ERROR,
    }
}

/// The key in four bytes, lowest byte first.
pub open spec fn key_from(bytes: Seq<u8>) -> int {
    bytes[0] as int + bytes[1] as int * 0x100 + bytes[2] as int * 0x1_0000 + bytes[3] as int
        * 0x100_0000
}

/// Read a map key.
fn read_key(mem: &BpfMemory, ptr: u64) -> (key: Option<u32>)
    ensures
        match key {
            Some(k) => {
                &&& ptr != 0 && bytes_at(mem@, ptr, 4) is Some
                &&& k as int == key_from(bytes_at(mem@, ptr, 4)->0)
            },
            None => ptr == 0 || bytes_at(mem@, ptr, 4) is None,
        },
{
    if ptr == 0 {
        return None;
    }
    match mem.read(ptr, 4) {
        Some(b) => {
            let (b0, b1, b2, b3) = (b[0], b[1], b[2], b[3]);
            let key: u32 = (b0 as u32) + (b1 as u32) * 0x100 + (b2 as u32) * 0x1_0000 + (b3 as u32)
                * 0x100_0000;
            Some(key)
        },
        None => None,
    }
}

/// The map that a pointer leads to.
pub open spec fn map_at<H: Hal, C: Clock>(ctx: ContextView<H, C>, ptr: u64) -> Option<int> {
    match first_match(ctx.index, ptr, 0) {
        Some(i) => if i < ctx.maps.maps.len() {
            Some(i as int)
        } else {
            None
        },
        None => None,
    }
}

/// The result of looking a key up: the address of its value, or null.
pub open spec fn lookup_result<H: Hal, C: Clock>(
    ctx: ContextView<H, C>,
    mem: Seq<Region>,
    r1: u64,
    r2: u64,
) -> u64 {
    let key_bytes = bytes_at(mem, r2, 4);
    let map = map_at(ctx, r1);
    if r2 == 0 || key_bytes is None || map is None {
        0
    } else {
        let def = ctx.maps.maps[map->0].def;
        let key = key_from(key_bytes->0);
        if key >= def.max_entries {
            0
        } else {
            ((r1 + key * def.value_size) % 0x1_0000_0000_0000_0000) as u64
        }
    }
}

/// Look a key up in a map: r1 is the address of the map's values, r2 that of
/// the key.  Returns the address of the value, or null where there is none.
pub fn helper_map_lookup_elem<H: Hal, C: Clock>(
    dispatcher: &Dispatcher<H, C>,
    mem: &BpfMemory,
    r1: u64,
    r2: u64,
    _r3: u64,
    _r4: u64,
    _r5: u64,
) -> (result: u64)
    requires
        dispatcher.wf(),
    ensures
        result == (match dispatcher@ {
            Some(ctx) => lookup_result(ctx, mem@, r1, r2),
            None => 0u64,
        }),
{
    match &dispatcher.ctx {
        Some(ctx) => {
            let key = match read_key(mem, r2) {
                Some(key) => key,
                None => {
                    return 0;
                },
            };
            let index = match ctx.map_ptr_index.get(r1) {
                Some(index) => index,
                None => {
                    return 0;
                },
            };
            match ctx.map_storage.get(index) {
                Some(map) => match map.lookup(key) {
                    Some(_) => {
                        let def = map.def();
                        proof {
                            assert(key * def.value_size <= 0xffff_ffff * 0xffff_ffff)
                                by (nonlinear_arith)
                                requires
                                    key <= 0xffff_ffff,
                                    def.value_size <= 0xffff_ffff,
                            ;
                        }
                        let offset: u64 = (key as u64) * (def.value_size as u64);
                        r1.wrapping_add(offset)
                    },
                    None => 0,
                },
                None => 0,
            }
        },
        None => 0,
    }
}

/// What `helper_map_update_elem` may do.
pub open spec fn update_done<H: Hal, C: Clock>(
    pre: ContextView<H, C>,
    mem: Seq<Region>,
    r1: u64,
    r2: u64,
    r3: u64,
    post: ContextView<H, C>,
    result: u64,
) -> bool {
    let key_bytes = bytes_at(mem, r2, 4);
    let map = map_at(pre, r1);
    if pre.class == ProgramClass::Ephemeral || r2 == 0 || r3 == 0 || key_bytes is None
        || map is None {
        post == pre && result == REG_ERROR
    } else {
        let contents = pre.maps.maps[map->0];
        let key = key_from(key_bytes->0);
        let value = bytes_at(mem, r3, contents.def.value_size as nat);
        if key >= contents.def.max_entries || value is None {
            post == pre && result == REG_ERROR
        } else {
            &&& result == 0
            &&& post == (ContextView {
                maps: MapsView {
                    maps: pre.maps.maps.update(map->0, contents.updated(key as u32, value->0)),
                    ..pre.maps
                },
                ..pre
            })
        }
    }
}

/// Store a value in a map: r1 is the address of the map's values, r2 and r3
/// are those of the key and the new value.  Not allowed for ephemeral programs.
pub fn helper_map_update_elem<H: Hal, C: Clock>(
    dispatcher: &mut Dispatcher<H, C>,
    mem: &BpfMemory,
    r1: u64,
    r2: u64,
    r3: u64,
    _r4: u64,
    _r5: u64,
) -> (result: u64)
    requires
        old(dispatcher).wf(),
    ensures
        final(dispatcher).wf(),
        match (old(dispatcher)@, final(dispatcher)@) {
            (Some(pre), Some(post)) => update_done(pre, mem@, r1, r2, r3, post, result),
            (None, None) => result == REG_ERROR,
            _ => false,
        },
{
    match &mut dispatcher.ctx {
        Some(ctx) => {
            if ctx.program_class == ProgramClass::Ephemeral || r3 == 0 {
                return REG_ERROR;
            }
            let key = match read_key(mem, r2) {
                Some(key) => key,
                None => {
                    return REG_ERROR;
                },
            };
            let index = match ctx.map_ptr_index.get(r1) {
                Some(index) => index,
                None => {
                    return REG_ERROR;
                },
            };
            let value_size: u32 = match ctx.map_storage.get(index) {
                Some(map) => map.def().value_size,
                None => {
                    return REG_ERROR;
                },
            };
            let value = match mem.read(r3, value_size as usize) {
                Some(value) => value,
                None => {
                    return REG_ERROR;
                },
            };
            match ctx.map_storage.update(index, key, value.as_slice()) {
                Ok(()) => 0,
                Err(_) => REG_ERROR,
            }
        },
        None => REG_ERROR,
    }
}

/// The estimated time at clock reading `now`.
pub open spec fn epoch_ms(gateway_timestamp_ms: u64, received_at_ms: u64, now: u64) -> u64 {
    let elapsed = if now >= received_at_ms {
        now - received_at_ms
    } else {
        0
    };
    if gateway_timestamp_ms + elapsed > u64::MAX {
        u64::MAX
    } else {
        (gateway_timestamp_ms + elapsed) as u64
    }
}

/// What `helper_get_time` may do.
pub open spec fn get_time_done<H: Hal, C: Clock>(
    pre: ContextView<H, C>,
    post: ContextView<H, C>,
    result: u64,
) -> bool {
    exists|clock: C, now: u64| #[trigger]
        C::was_read(pre.clock, clock, now) && post == (ContextView { clock, ..pre }) && result
            == epoch_ms(pre.gateway_timestamp_ms, pre.command_received_at_ms, now)
}

/// The estimated time in milliseconds: the gateway's time when it sent its
/// command, and what has passed since.
pub fn helper_get_time<H: Hal, C: Clock>(
    dispatcher: &mut Dispatcher<H, C>,
    _r1: u64,
    _r2: u64,
    _r3: u64,
    _r4: u64,
    _r5: u64,
) -> (result: u64)
    requires
        old(dispatcher).wf(),
    ensures
        final(dispatcher).wf(),
        match (old(dispatcher)@, final(dispatcher)@) {
            (Some(pre), Some(post)) => get_time_done(pre, post, result),
            (None, None) => result == 0,
            _ => false,
        },
{
    match &mut dispatcher.ctx {
        Some(ctx) => {
            let ghost pre = ctx@;
            let now = ctx.clock.elapsed_ms();
            assert(C::was_read(pre.clock, ctx.clock, now));
            let elapsed: u64 = now.saturating_sub(ctx.command_received_at_ms);
            ctx.gateway_timestamp_ms.saturating_add(elapsed)
        },
        None => 0,
    }
}

/// The battery voltage that a program is told.
pub open spec fn battery_result<H: Hal, C: Clock>(ctx: ContextView<H, C>) -> u64 {
    if ctx.battery_mv > 0xffff {
        0xffff
    } else {
        ctx.battery_mv as u64
    }
}

/// The battery voltage in millivolts, at most the largest 16-bit number.
pub fn helper_get_battery_mv<H: Hal, C: Clock>(
    dispatcher: &Dispatcher<H, C>,
    _r1: u64,
    _r2: u64,
    _r3: u64,
    _r4: u64,
    _r5: u64,
) -> (result: u64)
    ensures
        result == (match dispatcher@ {
            Some(ctx) => battery_result(ctx),
            None => 0u64,
        }),
{
    match &dispatcher.ctx {
        Some(ctx) => if ctx.battery_mv > 0xffff {
            0xffff
        } else {
            ctx.battery_mv as u64
        },
        None => 0,
    }
}

/// What `helper_delay_us` may do.
pub open spec fn delay_done<H: Hal, C: Clock>(
    pre: ContextView<H, C>,
    r1: u64,
    post: ContextView<H, C>,
    result: u64,
) -> bool {
    if r1 > MAX_DELAY_US {
        post == pre && result == REG_ERROR
    } else if r1 == 0 {
        post == pre && result == 0
    } else {
        result == 0 && exists|clock: C| #[trigger]
            C::delayed_us(pre.clock, r1 as u32, clock) && post == (ContextView { clock, ..pre })
    }
}

/// Wait: r1 is the time in microseconds, at most a second.
pub fn helper_delay_us<H: Hal, C: Clock>(
    dispatcher: &mut Dispatcher<H, C>,
    r1: u64,
    _r2: u64,
    _r3: u64,
    _r4: u64,
    _r5: u64,
) -> (result: u64)
    requires
        old(dispatcher).wf(),
    ensures
        final(dispatcher).wf(),
        match (old(dispatcher)@, final(dispatcher)@) {
            (Some(pre), Some(post)) => delay_done(pre, r1, post, result),
            (None, None) => result == REG_ERROR,
            _ => false,
        },
{
    if r1 > MAX_DELAY_US as u64 {
        return REG_ERROR;
    }
    match &mut dispatcher.ctx {
        Some(ctx) => {
            if r1 > 0 {
                let ghost pre = ctx@;
                ctx.clock.delay_us(r1 as u32);
                assert(C::delayed_us(pre.clock, r1 as u32, ctx.clock));
            }
            0
        },
        None => REG_ERROR,
    }
}

/// What `helper_set_next_wake` may do.
pub open spec fn set_next_wake_done<H: Hal, C: Clock>(
    pre: ContextView<H, C>,
    r1: u64,
    post: ContextView<H, C>,
    result: u64,
) -> bool {
    if pre.class == ProgramClass::Ephemeral || r1 > 0xffff_ffff {
        post == pre && result == REG_ERROR
    } else {
        &&& result == 0
        &&& post == (ContextView {
            sleep: SleepManager { next_wake_s: Some(r1 as u32), ..pre.sleep },
            ..pre
        })
    }
}

/// Ask for the next wake after r1 seconds.  Not allowed for ephemeral programs.
pub fn helper_set_next_wake<H: Hal, C: Clock>(
    dispatcher: &mut Dispatcher<H, C>,
    r1: u64,
    _r2: u64,
    _r3: u64,
    _r4: u64,
    _r5: u64,
) -> (result: u64)
    requires
        old(dispatcher).wf(),
    ensures
        final(dispatcher).wf(),
        match (old(dispatcher)@, final(dispatcher)@) {
            (Some(pre), Some(post)) => set_next_wake_done(pre, r1, post, result),
            (None, None) => result == REG_ERROR,
            _ => false,
        },
{
    match &mut dispatcher.ctx {
        Some(ctx) => {
            if ctx.program_class == ProgramClass::Ephemeral || r1 > 0xffff_ffff {
                return REG_ERROR;
            }
            ctx.sleep_mgr.set_next_wake(r1 as u32);
            0
        },
        None => REG_ERROR,
    }
}

/// `core::str::from_utf8`: the text that the bytes encode, if they are valid
/// UTF-8.
#[verifier::external_body]
fn utf8_text(bytes: &[u8]) -> (text: Option<&str>)
    ensures
        match text {
            Some(s) => valid_utf8(bytes@) && s.spec_bytes() == bytes@,
            None => !valid_utf8(bytes@),
        },
{
    core::str::from_utf8(bytes).ok()
}

/// What `helper_bpf_trace_printk` may do.
pub open spec fn trace_done<H: Hal, C: Clock>(
    pre: ContextView<H, C>,
    mem: Seq<Region>,
    r1: u64,
    r2: u64,
    post: ContextView<H, C>,
    result: u64,
) -> bool {
    let bytes = bytes_at(mem, r1, r2 as nat);
    if r1 == 0 || r2 == 0 || r2 > MAX_TRACE_LEN || bytes is None || !valid_utf8(bytes->0) {
        post == pre && result == REG_ERROR
    } else {
        &&& result == 0
        &&& post == (ContextView {
            trace: if pre.trace.len() < MAX_TRACE_ENTRIES {
                pre.trace.push(decode_utf8(bytes->0))
            } else {
                pre.trace
            },
            ..pre
        })
    }
}

/// Add an entry to the trace: r1 and r2 are the text and its length.  Entries
/// beyond the limit are dropped.
pub fn helper_bpf_trace_printk<H: Hal, C: Clock>(
    dispatcher: &mut Dispatcher<H, C>,
    mem: &BpfMemory,
    r1: u64,
    r2: u64,
    _r3: u64,
    _r4: u64,
    _r5: u64,
) -> (result: u64)
    requires
        old(dispatcher).wf(),
    ensures
        final(dispatcher).wf(),
        match (old(dispatcher)@, final(dispatcher)@) {
            (Some(pre), Some(post)) => trace_done(pre, mem@, r1, r2, post, result),
            (None, None) => result == REG_ERROR,
            _ => false,
        },
{
    match &mut dispatcher.ctx {
        Some(ctx) => {
            if r1 == 0 || r2 == 0 || r2 > MAX_TRACE_LEN {
                return REG_ERROR;
            }
            let bytes = match mem.read(r1, r2 as usize) {
                Some(bytes) => bytes,
                None => {
                    return REG_ERROR;
                },
            };
            match utf8_text(bytes.as_slice()) {
                Some(text) => {
                    let ghost pre = ctx@;
                    if ctx.trace_log.len() < MAX_TRACE_ENTRIES {
                        let entry = String::from_str(text);
                        proof {
                            encode_utf8_decode_utf8(text@);
                            assert(encode_utf8(text@) == bytes@);
                        }
                        ctx.trace_log.push(entry);
                        assert(ctx@.trace =~= pre.trace.push(decode_utf8(bytes@)));
                    }
                    0
                },
                None => REG_ERROR,
            }
        },
        None => REG_ERROR,
    }
}

/// What `helper_send_async` may do.
pub open spec fn send_async_done<H: Hal, C: Clock>(
    pre: ContextView<H, C>,
    mem: Seq<Region>,
    r1: u64,
    r2: u64,
    post: ContextView<H, C>,
    result: u64,
) -> bool {
    if !can_send(mem, r1, r2) {
        post == pre && result == REG_TOO_LARGE
    } else {
        &&& result == reg_of(push_code(pre.queue, bytes_of(mem, r1, r2)))
        &&& post == (ContextView {
            queue: after_push(pre.queue, bytes_of(mem, r1, r2)),
            ..pre
        })
    }
}

/// Queue a blob for deferred transmission: r1 and r2 are the blob and its
/// length.  Returns 0 on success, -1 if the queue is full and -2 if the blob is
/// too large or not there.
pub fn helper_send_async<H: Hal, C: Clock>(
    dispatcher: &mut Dispatcher<H, C>,
    mem: &BpfMemory,
    r1: u64,
    r2: u64,
    _r3: u64,
    _r4: u64,
    _r5: u64,
) -> (result: u64)
    requires
        old(dispatcher).wf(),
    ensures
        final(dispatcher).wf(),
        match (old(dispatcher)@, final(dispatcher)@) {
            (Some(pre), Some(post)) => send_async_done(pre, mem@, r1, r2, post, result),
            (None, None) => result == REG_ERROR,
            _ => false,
        },
{
    match &mut dispatcher.ctx {
        Some(ctx) => {
            let blob = match read_blob(mem, r1, r2) {
                Some(blob) => blob,
                None => {
                    return REG_TOO_LARGE;
                },
            };
            let code = ctx.async_queue.push(blob);
            reg_from(code)
        },
        None => REG_ERROR,
    }
}

/// What a send may do, once the outcome of the transmission is known.
pub open spec fn sent_done<H: Hal, C: Clock>(
    pre: ContextView<H, C>,
    mem: Seq<Region>,
    r1: u64,
    r2: u64,
    post: ContextView<H, C>,
    result: u64,
) -> bool {
    ||| can_send(mem, r1, r2) && post == pre.after_sending(true) && result == 0
    ||| post == pre && result == REG_ERROR
}

/// What a send with a reply may do, once the reply is there or the time is up.
pub open spec fn sent_and_received_done<H: Hal, C: Clock>(
    pre: ContextView<H, C>,
    mem: Seq<Region>,
    r1: u64,
    r2: u64,
    r3: u64,
    r4: u64,
    post: ContextView<H, C>,
    mem_after: Seq<Region>,
    result: u64,
) -> bool {
    ||| {
        &&& can_send(mem, r1, r2) && r3 != 0 && r4 != 0
        &&& post == pre.after_sending(true)
        &&& exists|reply: Option<Seq<u8>>| #[trigger]
            reply_stored(mem, r3, r4, reply, mem_after, result)
    }
    ||| post == pre && mem_after == mem && result == REG_ERROR
}

/// What a call of a helper may do to the context and to memory, and what it
/// returns.
pub open spec fn called<H: Hal, C: Clock>(
    helper: Helper,
    pre: ContextView<H, C>,
    mem: Seq<Region>,
    regs: Seq<u64>,
    post: ContextView<H, C>,
    mem_after: Seq<Region>,
    result: u64,
) -> bool {
    match helper {
        Helper::I2cRead => i2c_read_done(pre, mem, regs[0], regs[1], regs[2], post, mem_after, result),
        Helper::I2cWriteRead => i2c_write_read_done(
            pre,
            mem,
            regs[0],
            regs[1],
            regs[2],
            regs[3],
            regs[4],
            post,
            mem_after,
            result,
        ),
        Helper::SpiTransfer => spi_transfer_done(
            pre,
            mem,
            regs[0],
            regs[1],
            regs[2],
            post,
            mem_after,
            result,
        ),
        Helper::SendRecv => sent_and_received_done(
            pre,
            mem,
            regs[0],
            regs[1],
            regs[2],
            regs[3],
            post,
            mem_after,
            result,
        ),
        _ => mem_after == mem && called_without_writing(helper, pre, mem, regs, post, result),
    }
}

/// What a call of a helper that writes no memory may do to the context, and
/// what it returns.
pub open spec fn called_without_writing<H: Hal, C: Clock>(
    helper: Helper,
    pre: ContextView<H, C>,
    mem: Seq<Region>,
    regs: Seq<u64>,
    post: ContextView<H, C>,
    result: u64,
) -> bool {
    match helper {
        Helper::I2cWrite => i2c_write_done(pre, mem, regs[0], regs[1], regs[2], post, result),
        Helper::GpioRead => gpio_read_done(pre, regs[0], post, result),
        Helper::GpioWrite => gpio_write_done(pre, regs[0], regs[1], post, result),
        Helper::AdcRead => adc_read_done(pre, regs[0], post, result),
        Helper::Send => sent_done(pre, mem, regs[0], regs[1], post, result),
        Helper::MapLookupElem => post == pre && result == lookup_result(
            pre,
            mem,
            regs[0],
            regs[1],
        ),
        Helper::MapUpdateElem => update_done(pre, mem, regs[0], regs[1], regs[2], post, result),
        Helper::GetTime => get_time_done(pre, post, result),
        Helper::GetBatteryMv => post == pre && result == battery_result(pre),
        Helper::DelayUs => delay_done(pre, regs[0], post, result),
        Helper::SetNextWake => set_next_wake_done(pre, regs[0], post, result),
        Helper::BpfTracePrintk => trace_done(pre, mem, regs[0], regs[1], post, result),
        Helper::SendAsync => send_async_done(pre, mem, regs[0], regs[1], post, result),
        _ => false,
    }
}

/// Whatever helper an ephemeral program calls, the maps and the next wake stay
/// as they are.
pub proof fn law_ephemeral_programs_keep_maps_and_schedule<H: Hal, C: Clock>(
    helper: Helper,
    pre: ContextView<H, C>,
    mem: Seq<Region>,
    regs: Seq<u64>,
    post: ContextView<H, C>,
    mem_after: Seq<Region>,
    result: u64,
)
    requires
        pre.class == ProgramClass::Ephemeral,
        called(helper, pre, mem, regs, post, mem_after, result),
    ensures
        post.maps == pre.maps,
        post.sleep == pre.sleep,
        post.class == pre.class,
{
}

/// Whatever helper a program calls, the trace and the queue stay within their
/// limits, and the maps keep their shape.
pub proof fn law_calls_keep_limits<H: Hal, C: Clock>(
    helper: Helper,
    pre: ContextView<H, C>,
    mem: Seq<Region>,
    regs: Seq<u64>,
    post: ContextView<H, C>,
    mem_after: Seq<Region>,
    result: u64,
)
    requires
        called(helper, pre, mem, regs, post, mem_after, result),
        pre.trace.len() <= MAX_TRACE_ENTRIES,
        pre.queue.len() <= MAX_MESSAGES,
    ensures
        post.trace.len() <= MAX_TRACE_ENTRIES,
        post.queue.len() <= MAX_MESSAGES,
        post.index == pre.index,
        post.maps.maps.len() == pre.maps.maps.len(),
        forall|i: int|
            0 <= i < pre.maps.maps.len() ==> (#[trigger] post.maps.maps[i]).def
                == pre.maps.maps[i].def,
{
}

/// Whatever helper a program calls, the node keeps its identity, and the
/// sequence number stays or advances by one.  Only sends advance it: a send
/// exactly where it succeeds, and a send with a reply wherever a reply came.
pub proof fn law_sent_blobs_use_up_sequence_numbers<H: Hal, C: Clock>(
    helper: Helper,
    pre: ContextView<H, C>,
    mem: Seq<Region>,
    regs: Seq<u64>,
    post: ContextView<H, C>,
    mem_after: Seq<Region>,
    result: u64,
)
    requires
        called(helper, pre, mem, regs, post, mem_after, result),
    ensures
        post.identity == pre.identity,
        post.seq == pre.seq || post.seq == next_seq(pre.seq),
        !(helper is Send || helper is SendRecv) ==> post.seq == pre.seq,
        helper is Send ==> (result == 0 <==> post.seq == next_seq(pre.seq)),
        helper is SendRecv && result != REG_ERROR ==> post.seq == next_seq(pre.seq),
        next_seq(pre.seq) != pre.seq,
{
}

/// A request to send and its outcome make up one call of the helper.
pub proof fn law_send_completes_a_call<H: Hal, C: Clock>(
    pre: ContextView<H, C>,
    mem: Seq<Region>,
    regs: Seq<u64>,
    sent: bool,
)
    requires
        can_send(mem, regs[0], regs[1]),
    ensures
        called(
            Helper::Send,
            pre,
            mem,
            regs,
            pre.after_sending(sent),
            mem,
            if sent {
                0
            } else {
                REG_ERROR
            },
        ),
{
}

/// A request to send and wait, its outcome and the reply, which comes only to
/// what was sent, make up one call of the helper.
pub proof fn law_send_recv_completes_a_call<H: Hal, C: Clock>(
    pre: ContextView<H, C>,
    mem: Seq<Region>,
    regs: Seq<u64>,
    outcome: SendRecvOutcome,
    mem_after: Seq<Region>,
    result: u64,
)
    requires
        can_send(mem, regs[0], regs[1]) && regs[2] != 0 && regs[3] != 0,
        reply_stored(mem, regs[2], regs[3], outcome.reply(), mem_after, result),
    ensures
        called(
            Helper::SendRecv,
            pre,
            mem,
            regs,
            pre.after_sending(outcome.sent()),
            mem_after,
            result,
        ),
{
}

/// A value that a program stores under a key is the value it finds there: the
/// update changes the entry that a lookup of the same key leads to.
pub proof fn law_update_reaches_looked_up_entry<H: Hal, C: Clock>(
    pre: ContextView<H, C>,
    mem: Seq<Region>,
    r1: u64,
    r2: u64,
    r3: u64,
    post: ContextView<H, C>,
)
    requires
        update_done(pre, mem, r1, r2, r3, post, 0),
    ensures
        map_at(pre, r1) is Some,
        ({
            let map = map_at(pre, r1)->0;
            let key = key_from(bytes_at(mem, r2, 4)->0);
            let size = pre.maps.maps[map].def.value_size as nat;
            &&& map_at(post, r1) == Some(map)
            &&& key < pre.maps.maps[map].def.max_entries
            &&& lookup_result(post, mem, r1, r2) == ((r1 + key * size)
                % 0x1_0000_0000_0000_0000) as u64
            &&& post.maps.maps[map] == pre.maps.maps[map].updated(
                key as u32,
                bytes_at(mem, r3, size)->0,
            )
        }),
{
}

/// The bytes at `address` of a map whose values start at `base`.
pub open spec fn value_bytes(map: MapContents, base: u64, address: u64) -> Seq<u8> {
    map.data.subrange(address - base, address - base + map.def.value_size)
}

/// The address that a lookup returns is that of the key's value: the bytes
/// there, as many as a value has, lie within the map's data and are the value.
/// An address past the end of the address space, which wraps around, leads
/// nowhere.
pub proof fn law_lookup_leads_to_value<H: Hal, C: Clock>(
    ctx: ContextView<H, C>,
    mem: Seq<Region>,
    r1: u64,
    r2: u64,
)
    requires
        ctx.maps.wf(),
        lookup_result(ctx, mem, r1, r2) != 0,
        r1 <= lookup_result(ctx, mem, r1, r2),
    ensures
        map_at(ctx, r1) is Some,
        bytes_at(mem, r2, 4) is Some,
        ({
            let map = ctx.maps.maps[map_at(ctx, r1)->0];
            let key = key_from(bytes_at(mem, r2, 4)->0);
            let address = lookup_result(ctx, mem, r1, r2);
            &&& key < map.def.max_entries
            &&& address - r1 + map.def.value_size <= map.data.len()
            &&& value_bytes(map, r1, address) == map.value(key as u32)
        }),
{
    let map = ctx.maps.maps[map_at(ctx, r1)->0];
    let key = key_from(bytes_at(mem, r2, 4)->0);
    let size = map.def.value_size as int;
    assert(map.wf());
    assert(0 <= key * size <= 0xffff_ffff * 0xffff_ffff) by (nonlinear_arith)
        requires
            0 <= key <= 0xffff_ffff,
            0 <= size <= 0xffff_ffff,
    ;
    lemma_value_in_bounds(size as nat, map.def.max_entries as nat, key as nat);
}

/// In fresh maps, a lookup leads to zeros.
pub proof fn law_lookup_in_fresh_map_leads_to_zeros<H: Hal, C: Clock>(
    ctx: ContextView<H, C>,
    defs: Seq<MapDef>,
    mem: Seq<Region>,
    r1: u64,
    r2: u64,
)
    requires
        ctx.maps.maps == fresh_maps(defs),
        lookup_result(ctx, mem, r1, r2) != 0,
        r1 <= lookup_result(ctx, mem, r1, r2),
    ensures
        map_at(ctx, r1) is Some,
        ({
            let map = ctx.maps.maps[map_at(ctx, r1)->0];
            value_bytes(map, r1, lookup_result(ctx, mem, r1, r2)) == Seq::new(
                map.def.value_size as nat,
                |i: int| 0u8,
            )
        }),
{
    assert(ctx.maps.wf());
    law_lookup_leads_to_value(ctx, mem, r1, r2);
    let map = ctx.maps.maps[map_at(ctx, r1)->0];
    assert(value_bytes(map, r1, lookup_result(ctx, mem, r1, r2)) =~= Seq::new(
        map.def.value_size as nat,
        |i: int| 0u8,
    ));
}

/// A program that stores a value under a key and looks the key up finds the
/// bytes that it stored, and finds what was there before under any other key.
pub proof fn law_stored_bytes_are_looked_up<H: Hal, C: Clock>(
    pre: ContextView<H, C>,
    mem: Seq<Region>,
    r1: u64,
    r2: u64,
    r3: u64,
    post: ContextView<H, C>,
    other: u64,
)
    requires
        pre.maps.wf(),
        update_done(pre, mem, r1, r2, r3, post, 0),
    ensures
        ({
            let before = pre.maps.maps[map_at(pre, r1)->0];
            let after = post.maps.maps[map_at(post, r1)->0];
            let address = lookup_result(post, mem, r1, r2);
            let elsewhere = lookup_result(post, mem, r1, other);
            &&& map_at(post, r1) == map_at(pre, r1) && map_at(post, r1) is Some
            &&& address != 0 && r1 <= address ==> value_bytes(after, r1, address) == bytes_at(
                mem,
                r3,
                before.def.value_size as nat,
            )->0
            &&& elsewhere == lookup_result(pre, mem, r1, other)
            &&& elsewhere != 0 && r1 <= elsewhere && key_from(bytes_at(mem, other, 4)->0)
                != key_from(bytes_at(mem, r2, 4)->0) ==> value_bytes(after, r1, elsewhere)
                == value_bytes(before, r1, elsewhere)
        }),
{
    let before = pre.maps.maps[map_at(pre, r1)->0];
    let key = key_from(bytes_at(mem, r2, 4)->0);
    let other_key = key_from(bytes_at(mem, other, 4)->0);
    let value = bytes_at(mem, r3, before.def.value_size as nat)->0;
    let elsewhere = lookup_result(post, mem, r1, other);
    lemma_bytes_len(mem, r3, before.def.value_size as nat);
    assert(before.wf());
    law_update_then_lookup(before, key as u32, value, key as u32);
    assert forall|i: int| 0 <= i < post.maps.maps.len() implies (
    #[trigger] post.maps.maps[i]).wf() by {
        assert(pre.maps.maps[i].wf());
    }
    if lookup_result(post, mem, r1, r2) != 0 && r1 <= lookup_result(post, mem, r1, r2) {
        law_lookup_leads_to_value(post, mem, r1, r2);
    }
    if elsewhere != 0 && r1 <= elsewhere && other_key != key {
        law_lookup_leads_to_value(post, mem, r1, other);
        law_lookup_leads_to_value(pre, mem, r1, other);
        law_update_then_lookup(before, key as u32, value, other_key as u32);
    }
}

/// The name under which calls of a helper are logged; only helpers that do I/O
/// are.
pub open spec fn logged_name(helper: Helper) -> Option<&'static str> {
    match helper {
        Helper::I2cRead => Some("i2c_read"),
        Helper::I2cWrite => Some("i2c_write"),
        Helper::I2cWriteRead => Some("i2c_write_read"),
        Helper::SpiTransfer => Some("spi_transfer"),
        Helper::GpioRead => Some("gpio_read"),
        Helper::GpioWrite => Some("gpio_write"),
        Helper::AdcRead => Some("adc_read"),
        Helper::Send => Some("send"),
        Helper::SendRecv => Some("send_recv"),
        Helper::SendAsync => Some("send_async"),
        _ => None,
    }
}

/// The number that a register holds, as a signed one.
pub open spec fn signed_reg(reg: u64) -> int {
    if reg < 0x8000_0000_0000_0000 {
        reg as int
    } else {
        reg as int - 0x1_0000_0000_0000_0000
    }
}

/// The log line for a call of a helper that returned `result`; `None` where
/// calls are not logged.
pub fn log_helper_call(helper: Helper, result: u64) -> (line: Option<String>)
    ensures
        match (line, logged_name(helper)) {
            (Some(text), Some(name)) => text@ == "bpf helper "@ + name@ + ": result="@
                + signed_text(signed_reg(result)),
            (None, None) => true,
            _ => false,
        },
{
    let name: &'static str = match helper {
        Helper::I2cRead => "i2c_read",
        Helper::I2cWrite => "i2c_write",
        Helper::I2cWriteRead => "i2c_write_read",
        Helper::SpiTransfer => "spi_transfer",
        Helper::GpioRead => "gpio_read",
        Helper::GpioWrite => "gpio_write",
        Helper::AdcRead => "adc_read",
        Helper::Send => "send",
        Helper::SendRecv => "send_recv",
        Helper::SendAsync => "send_async",
        _ => {
            return None;
        },
    };
    let code: i64 = if result < 0x8000_0000_0000_0000 {
        result as i64
    } else {
        -((0xffff_ffff_ffff_ffff - result) as i64) - 1
    };
    let mut line = String::from_str("bpf helper ");
    line.append(name);
    line.append(": result=");
    push_signed(&mut line, code);
    Some(line)
}

/// The helpers and their call numbers, in order.
pub open spec fn helper_table() -> Seq<(u32, Helper)> {
    seq![
        (helper_ids::I2C_READ, Helper::I2cRead),
        (helper_ids::I2C_WRITE, Helper::I2cWrite),
        (helper_ids::I2C_WRITE_READ, Helper::I2cWriteRead),
        (helper_ids::SPI_TRANSFER, Helper::SpiTransfer),
        (helper_ids::GPIO_READ, Helper::GpioRead),
        (helper_ids::GPIO_WRITE, Helper::GpioWrite),
        (helper_ids::ADC_READ, Helper::AdcRead),
        (helper_ids::SEND, Helper::Send),
        (helper_ids::SEND_RECV, Helper::SendRecv),
        (helper_ids::MAP_LOOKUP_ELEM, Helper::MapLookupElem),
        (helper_ids::MAP_UPDATE_ELEM, Helper::MapUpdateElem),
        (helper_ids::GET_TIME, Helper::GetTime),
        (helper_ids::GET_BATTERY_MV, Helper::GetBatteryMv),
        (helper_ids::DELAY_US, Helper::DelayUs),
        (helper_ids::SET_NEXT_WAKE, Helper::SetNextWake),
        (helper_ids::BPF_TRACE_PRINTK, Helper::BpfTracePrintk),
        (helper_ids::SEND_ASYNC, Helper::SendAsync),
    ]
}

/// What registering the helpers of `table` one after the other may do: the
/// first failure ends it.
pub open spec fn all_registered<I: BpfInterpreter>(
    pre: I,
    table: Seq<(u32, Helper)>,
    post: I,
    result: Result<(), BpfError>,
) -> bool
    decreases table.len(),
{
    if table.len() == 0 {
        post == pre && result is Ok
    } else {
        exists|mid: I, first: Result<(), BpfError>| #[trigger]
            I::was_registered(pre, table[0].0, table[0].1, mid, first) && (if first is Ok {
                all_registered(mid, table.drop_first(), post, result)
            } else {
                post == mid && result == first
            })
    }
}

/// The helper and call number at a place of the table.
fn table_entry(i: usize) -> (entry: (u32, Helper))
    requires
        i < 17,
    ensures
        entry == helper_table()[i as int],
{
    match i {
        0 => (helper_ids::I2C_READ, Helper::I2cRead),
        1 => (helper_ids::I2C_WRITE, Helper::I2cWrite),
        2 => (helper_ids::I2C_WRITE_READ, Helper::I2cWriteRead),
        3 => (helper_ids::SPI_TRANSFER, Helper::SpiTransfer),
        4 => (helper_ids::GPIO_READ, Helper::GpioRead),
        5 => (helper_ids::GPIO_WRITE, Helper::GpioWrite),
        6 => (helper_ids::ADC_READ, Helper::AdcRead),
        7 => (helper_ids::SEND, Helper::Send),
        8 => (helper_ids::SEND_RECV, Helper::SendRecv),
        9 => (helper_ids::MAP_LOOKUP_ELEM, Helper::MapLookupElem),
        10 => (helper_ids::MAP_UPDATE_ELEM, Helper::MapUpdateElem),
        11 => (helper_ids::GET_TIME, Helper::GetTime),
        12 => (helper_ids::GET_BATTERY_MV, Helper::GetBatteryMv),
        13 => (helper_ids::DELAY_US, Helper::DelayUs),
        14 => (helper_ids::SET_NEXT_WAKE, Helper::SetNextWake),
        15 => (helper_ids::BPF_TRACE_PRINTK, Helper::BpfTracePrintk),
        _ => (helper_ids::SEND_ASYNC, Helper::SendAsync),
    }
}

/// Register all helpers with an interpreter.
pub fn register_all<I: BpfInterpreter>(interpreter: &mut I) -> (result: Result<(), BpfError>)
    ensures
        all_registered(*old(interpreter), helper_table(), *final(interpreter), result),
{
    let ghost start = *interpreter;
    let ghost table = helper_table();
    let mut i: usize = 0;
    assert(table.skip(0) =~= table);
    while i < 17
        invariant
            i <= 17,
            table == helper_table(),
            start == *old(interpreter),
            forall|post: I, r: Result<(), BpfError>|
                #[trigger] all_registered(*interpreter, table.skip(i as int), post, r)
                    ==> all_registered(start, table, post, r),
        decreases 17 - i,
    {
        let (id, helper) = table_entry(i);
        let ghost here = *interpreter;
        let result = interpreter.register_helper(id, helper);
        let ghost rest = table.skip(i as int);
        assert(rest[0] == (id, helper));
        assert(I::was_registered(here, rest[0].0, rest[0].1, *interpreter, result));
        assert(rest.drop_first() =~= table.skip(i + 1));
        if result.is_err() {
            assert(all_registered(here, rest, *interpreter, result));
            return result;
        }
        proof {
            assert forall|post: I, r: Result<(), BpfError>| #[trigger]
                all_registered(*interpreter, table.skip(i + 1), post, r) implies all_registered(
                start,
                table,
                post,
                r,
            ) by {
                assert(all_registered(here, rest, post, r));
            }
        }
        i = i + 1;
    }
    let result: Result<(), BpfError> = Ok(());
    assert(all_registered(*interpreter, table.skip(17), *interpreter, result));
    result
}

/// The call numbers are the places in the table, counted from one, so that no
/// number is used twice and none is left out.
pub proof fn law_helper_ids_are_contiguous(i: int)
    requires
        0 <= i < 17,
    ensures
        helper_table().len() == 17,
        helper_table()[i].0 == i + 1,
{
}

/// The call numbers are those of the firmware's interface.
pub proof fn law_call_numbers_are_fixed()
    ensures
        helper_ids::I2C_READ == 1,
        helper_ids::I2C_WRITE == 2,
        helper_ids::I2C_WRITE_READ == 3,
        helper_ids::SPI_TRANSFER == 4,
        helper_ids::GPIO_READ == 5,
        helper_ids::GPIO_WRITE == 6,
        helper_ids::ADC_READ == 7,
        helper_ids::SEND == 8,
        helper_ids::SEND_RECV == 9,
        helper_ids::MAP_LOOKUP_ELEM == 10,
        helper_ids::MAP_UPDATE_ELEM == 11,
        helper_ids::GET_TIME == 12,
        helper_ids::GET_BATTERY_MV == 13,
        helper_ids::DELAY_US == 14,
        helper_ids::SET_NEXT_WAKE == 15,
        helper_ids::BPF_TRACE_PRINTK == 16,
        helper_ids::SEND_ASYNC == 17,
{
}

/// Every call number belongs to the helper that it names: a helper is in the
/// table under its own number and under no other.
pub proof fn law_call_numbers_name_their_helpers(helper: Helper, i: int)
    requires
        0 <= i < helper_table().len(),
    ensures
        helper_table()[i].1 == helper <==> helper_table()[i].0 == (match helper {
            Helper::I2cRead => 1u32,
            Helper::I2cWrite => 2u32,
            Helper::I2cWriteRead => 3u32,
            Helper::SpiTransfer => 4u32,
            Helper::GpioRead => 5u32,
            Helper::GpioWrite => 6u32,
            Helper::AdcRead => 7u32,
            Helper::Send => 8u32,
            Helper::SendRecv => 9u32,
            Helper::MapLookupElem => 10u32,
            Helper::MapUpdateElem => 11u32,
            Helper::GetTime => 12u32,
            Helper::GetBatteryMv => 13u32,
            Helper::DelayUs => 14u32,
            Helper::SetNextWake => 15u32,
            Helper::BpfTracePrintk => 16u32,
            Helper::SendAsync => 17u32,
        }),
        helper_table()[i].0 == helper_ids::GET_TIME <==> helper_table()[i].1 is GetTime,
        helper_table()[i].0 == helper_ids::GET_BATTERY_MV <==> helper_table()[i].1 is GetBatteryMv,
{
}

/// An interpreter in which a successful registration adds the helper under its
/// number.
pub open spec fn registers<I: BpfInterpreter>(registry: spec_fn(I) -> Map<u32, Helper>) -> bool {
    forall|pre: I, id: u32, helper: Helper, post: I, result: Result<(), BpfError>| #[trigger]
        I::was_registered(pre, id, helper, post, result) ==> (result is Ok ==> registry(post)
            == registry(pre).insert(id, helper))
}

/// Registering a table adds its entries: those that come later replace earlier
/// ones with the same number.
proof fn lemma_table_is_registered<I: BpfInterpreter>(
    pre: I,
    table: Seq<(u32, Helper)>,
    post: I,
    registry: spec_fn(I) -> Map<u32, Helper>,
    i: int,
)
    requires
        registers(registry),
        all_registered(pre, table, post, Ok(())),
        forall|a: int, b: int|
            0 <= a < b < table.len() ==> (#[trigger] table[a]).0 != (#[trigger] table[b]).0,
    ensures
        0 <= i < table.len() ==> registry(post).contains_pair(table[i].0, table[i].1),
        forall|id: u32, helper: Helper|
            registry(pre).contains_pair(id, helper) && (forall|a: int|
                0 <= a < table.len() ==> (#[trigger] table[a]).0 != id)
                ==> #[trigger] registry(post).contains_pair(id, helper),
    decreases table.len(),
{
    if table.len() > 0 {
        let (mid, first) = choose|mid: I, first: Result<(), BpfError>| #[trigger]
            I::was_registered(pre, table[0].0, table[0].1, mid, first) && (if first is Ok {
                all_registered(mid, table.drop_first(), post, Ok(()))
            } else {
                post == mid && Ok::<(), BpfError>(()) == first
            });
        let rest = table.drop_first();
        assert(first is Ok);
        assert forall|a: int, b: int| 0 <= a < b < rest.len() implies (#[trigger] rest[a]).0 != (
        #[trigger] rest[b]).0 by {
            assert(rest[a] == table[a + 1] && rest[b] == table[b + 1]);
        }
        lemma_table_is_registered(mid, rest, post, registry, i - 1);
        assert forall|a: int| 0 <= a < rest.len() implies (#[trigger] rest[a]).0 != table[0].0 by {
            assert(rest[a] == table[a + 1]);
        }
        assert(registry(mid).contains_pair(table[0].0, table[0].1));
        assert(registry(post).contains_pair(table[0].0, table[0].1));
        if 0 < i < table.len() {
            assert(rest[i - 1] == table[i]);
        }
        assert forall|id: u32, helper: Helper|
            registry(pre).contains_pair(id, helper) && (forall|a: int|
                0 <= a < table.len() ==> (#[trigger] table[a]).0
                    != id) implies #[trigger] registry(post).contains_pair(id, helper) by {
            assert(table[0].0 != id);
            assert(registry(mid).contains_pair(id, helper));
            assert forall|a: int| 0 <= a < rest.len() implies (#[trigger] rest[a]).0 != id by {
                assert(rest[a] == table[a + 1]);
            }
        }
    }
}

/// Once all helpers are registered, a program that calls a number reaches the
/// helper that the number names.
pub proof fn law_registered_helpers_are_reached<I: BpfInterpreter>(
    pre: I,
    post: I,
    registry: spec_fn(I) -> Map<u32, Helper>,
)
    requires
        registers(registry),
        all_registered(pre, helper_table(), post, Ok(())),
    ensures
        ({
            &&& registry(post).contains_pair(1, Helper::I2cRead)
            &&& registry(post).contains_pair(2, Helper::I2cWrite)
            &&& registry(post).contains_pair(3, Helper::I2cWriteRead)
            &&& registry(post).contains_pair(4, Helper::SpiTransfer)
            &&& registry(post).contains_pair(5, Helper::GpioRead)
            &&& registry(post).contains_pair(6, Helper::GpioWrite)
            &&& registry(post).contains_pair(7, Helper::AdcRead)
            &&& registry(post).contains_pair(8, Helper::Send)
            &&& registry(post).contains_pair(9, Helper::SendRecv)
            &&& registry(post).contains_pair(10, Helper::MapLookupElem)
            &&& registry(post).contains_pair(11, Helper::MapUpdateElem)
            &&& registry(post).contains_pair(12, Helper::GetTime)
            &&& registry(post).contains_pair(13, Helper::GetBatteryMv)
            &&& registry(post).contains_pair(14, Helper::DelayUs)
            &&& registry(post).contains_pair(15, Helper::SetNextWake)
            &&& registry(post).contains_pair(16, Helper::BpfTracePrintk)
            &&& registry(post).contains_pair(17, Helper::SendAsync)
        }),
{
    let table = helper_table();
    assert forall|i: int| 0 <= i < 17 implies #[trigger] registry(post).contains_pair(
        table[i].0,
        table[i].1,
    ) by {
        lemma_table_is_registered(pre, table, post, registry, i);
    }
    assert(registry(post).contains_pair(table[0].0, table[0].1));
    assert(registry(post).contains_pair(table[1].0, table[1].1));
    assert(registry(post).contains_pair(table[2].0, table[2].1));
    assert(registry(post).contains_pair(table[3].0, table[3].1));
    assert(registry(post).contains_pair(table[4].0, table[4].1));
    assert(registry(post).contains_pair(table[5].0, table[5].1));
    assert(registry(post).contains_pair(table[6].0, table[6].1));
    assert(registry(post).contains_pair(table[7].0, table[7].1));
    assert(registry(post).contains_pair(table[8].0, table[8].1));
    assert(registry(post).contains_pair(table[9].0, table[9].1));
    assert(registry(post).contains_pair(table[10].0, table[10].1));
    assert(registry(post).contains_pair(table[11].0, table[11].1));
    assert(registry(post).contains_pair(table[12].0, table[12].1));
    assert(registry(post).contains_pair(table[13].0, table[13].1));
    assert(registry(post).contains_pair(table[14].0, table[14].1));
    assert(registry(post).contains_pair(table[15].0, table[15].1));
    assert(registry(post).contains_pair(table[16].0, table[16].1));
}

/// A code, negative or not, is what a program reads from the register as a
/// signed number; -1 and -2 are the codes of refused calls.
pub proof fn law_codes_are_kept_in_registers(code: int)
    requires
        -0x8000_0000_0000_0000 <= code < 0x8000_0000_0000_0000,
    ensures
        signed_reg(reg_of(code)) == code,
        signed_reg(REG_ERROR) == -1,
        signed_reg(REG_TOO_LARGE) == -2,
{
}

/// A helper changes only what it is for: the peripherals are used by the bus
/// helpers, the clock by the helpers for time, and so on; what else the context
/// holds stays, and memory is written only by the helpers that return data.
pub proof fn law_helpers_change_only_their_own<H: Hal, C: Clock>(
    helper: Helper,
    pre: ContextView<H, C>,
    mem: Seq<Region>,
    regs: Seq<u64>,
    post: ContextView<H, C>,
    mem_after: Seq<Region>,
    result: u64,
)
    requires
        called(helper, pre, mem, regs, post, mem_after, result),
    ensures
        post.hal == pre.hal || helper is I2cRead || helper is I2cWrite || helper is I2cWriteRead
            || helper is SpiTransfer || helper is GpioRead || helper is GpioWrite
            || helper is AdcRead,
        post.clock == pre.clock || helper is GetTime || helper is DelayUs,
        post.maps == pre.maps || helper is MapUpdateElem,
        post.sleep == pre.sleep || helper is SetNextWake,
        post.trace == pre.trace || helper is BpfTracePrintk,
        post.queue == pre.queue || helper is SendAsync,
        post.seq == pre.seq || helper is Send || helper is SendRecv,
        mem_after == mem || helper is I2cRead || helper is I2cWriteRead || helper is SpiTransfer
            || helper is SendRecv,
        post.identity == pre.identity,
        post.class == pre.class,
        post.index == pre.index,
        post.gateway_timestamp_ms == pre.gateway_timestamp_ms,
        post.command_received_at_ms == pre.command_received_at_ms,
        post.battery_mv == pre.battery_mv,
{
}

/// The time runs on from the gateway's: it is the gateway's time when its
/// command came, advances by what the clock has advanced since, never goes
/// back, and stops at the largest number instead of starting over.
pub proof fn law_time_runs_on_from_the_gateways(gateway: u64, received: u64, now: u64, later: u64)
    requires
        now <= later,
    ensures
        epoch_ms(gateway, received, received) == gateway,
        now <= received ==> epoch_ms(gateway, received, now) == gateway,
        epoch_ms(gateway, received, now) <= epoch_ms(gateway, received, later),
        received <= now && gateway + (later - received) <= u64::MAX ==> epoch_ms(
            gateway,
            received,
            later,
        ) - epoch_ms(gateway, received, now) == later - now,
        received <= now && gateway + (now - received) >= u64::MAX ==> epoch_ms(
            gateway,
            received,
            now,
        ) == u64::MAX,
{
}

/// A call for the time reads the clock once and returns the gateway's time and
/// what has passed since its command; a call for the battery returns the
/// voltage, where that has 16 bits.
pub proof fn law_time_and_battery_are_told<H: Hal, C: Clock>(
    helper: Helper,
    pre: ContextView<H, C>,
    mem: Seq<Region>,
    regs: Seq<u64>,
    post: ContextView<H, C>,
    mem_after: Seq<Region>,
    result: u64,
    now: u64,
)
    requires
        called(helper, pre, mem, regs, post, mem_after, result),
        forall|clock: C, ms: u64| #[trigger] C::was_read(pre.clock, clock, ms) ==> ms == now,
    ensures
        helper is GetTime && pre.command_received_at_ms <= now && pre.gateway_timestamp_ms + (now
            - pre.command_received_at_ms) <= u64::MAX ==> result == pre.gateway_timestamp_ms + (now
            - pre.command_received_at_ms),
        helper is GetBatteryMv && pre.battery_mv < 65536 ==> result == pre.battery_mv,
        helper is GetBatteryMv && pre.battery_mv >= 65536 ==> result == 65535,
{
}

/// A delay is carried out as asked for, up to a second, and refused beyond;
/// the next wake is set as asked for by resident programs only.
pub proof fn law_delays_and_wakes_are_limited<H: Hal, C: Clock>(
    helper: Helper,
    pre: ContextView<H, C>,
    mem: Seq<Region>,
    regs: Seq<u64>,
    post: ContextView<H, C>,
    mem_after: Seq<Region>,
    result: u64,
)
    requires
        called(helper, pre, mem, regs, post, mem_after, result),
    ensures
        helper is DelayUs ==> signed_reg(result) == (if regs[0] <= 1_000_000 {
            0int
        } else {
            -1int
        }),
        helper is DelayUs && 0 < regs[0] <= 1_000_000 ==> C::delayed_us(
            pre.clock,
            regs[0] as u32,
            post.clock,
        ),
        helper is DelayUs && (regs[0] == 0 || regs[0] > 1_000_000) ==> post == pre,
        helper is SetNextWake && pre.class is Resident && regs[0] < 0x1_0000_0000 ==> result == 0
            && post.sleep.next_wake_s == Some(regs[0] as u32) && post.sleep.base_interval_s
            == pre.sleep.base_interval_s && post.sleep.wake_reason == pre.sleep.wake_reason,
        helper is SetNextWake && (pre.class is Ephemeral || regs[0] >= 0x1_0000_0000) ==> post
            == pre && signed_reg(result) == -1,
{
}

/// Whether a program hands over a buffer for the bus: it is not null, holds
/// between 1 and 4096 bytes, and lies within its memory.
pub open spec fn is_bus_buffer(mem: Seq<Region>, ptr: u64, len: u64) -> bool {
    ptr != 0 && 1 <= len <= 4096 && bytes_at(mem, ptr, len as nat) is Some
}

/// A bus helper refuses a buffer that is null, empty, too long or outside of
/// the program's memory, and then touches no peripheral and no memory.
pub proof fn law_bad_buffers_are_refused<H: Hal, C: Clock>(
    helper: Helper,
    pre: ContextView<H, C>,
    mem: Seq<Region>,
    regs: Seq<u64>,
    post: ContextView<H, C>,
    mem_after: Seq<Region>,
    result: u64,
)
    requires
        called(helper, pre, mem, regs, post, mem_after, result),
        helper is I2cRead || helper is I2cWrite || helper is I2cWriteRead || helper is SpiTransfer,
        !is_bus_buffer(mem, regs[1], regs[2]) || (helper is I2cWriteRead && !is_bus_buffer(
            mem,
            regs[3],
            regs[4],
        )),
    ensures
        post == pre,
        mem_after == mem,
        signed_reg(result) == -1,
{
}

/// An I2C write hands the device whose handle is in the low half of r1 exactly
/// the bytes of the buffer, and returns its code.
pub proof fn law_i2c_write_hands_over_buffer<H: Hal, C: Clock>(
    pre: ContextView<H, C>,
    mem: Seq<Region>,
    regs: Seq<u64>,
    post: ContextView<H, C>,
    mem_after: Seq<Region>,
    result: u64,
)
    requires
        called(Helper::I2cWrite, pre, mem, regs, post, mem_after, result),
        is_bus_buffer(mem, regs[1], regs[2]),
    ensures
        -0x8000_0000 <= signed_reg(result) < 0x8000_0000,
        H::i2c_was_written(
            pre.hal,
            (regs[0] % 0x1_0000_0000) as u32,
            bytes_at(mem, regs[1], regs[2] as nat)->0,
            post.hal,
            signed_reg(result) as i32,
        ),
{
}

/// What a bus transfer left in a buffer of a program: the bytes are in memory
/// where the program expects them, and nothing else in memory has changed.
pub open spec fn received_into(
    mem: Seq<Region>,
    ptr: u64,
    len: u64,
    mem_after: Seq<Region>,
    bytes: Seq<u8>,
) -> bool {
    &&& bytes.len() == len ==> bytes_at(mem_after, ptr, len as nat) == Some(bytes)
    &&& mem_after == with_bytes(mem, ptr, bytes)
}

/// An I2C read hands the buffer to the device whose handle is in the low half
/// of r1, stores what came in the same buffer, and returns the device's code.
pub proof fn law_i2c_read_fills_buffer<H: Hal, C: Clock>(
    pre: ContextView<H, C>,
    mem: Seq<Region>,
    regs: Seq<u64>,
    post: ContextView<H, C>,
    mem_after: Seq<Region>,
    result: u64,
)
    requires
        called(Helper::I2cRead, pre, mem, regs, post, mem_after, result),
        is_bus_buffer(mem, regs[1], regs[2]),
    ensures
        exists|bytes: Seq<u8>|
            received_into(mem, regs[1], regs[2], mem_after, bytes) && #[trigger] H::i2c_was_read(
                pre.hal,
                (regs[0] % 0x1_0000_0000) as u32,
                bytes_at(mem, regs[1], regs[2] as nat)->0,
                post.hal,
                bytes,
                signed_reg(result) as i32,
            ),
{
    let handle = low32(regs[0]);
    let before = bytes_of(mem, regs[1], regs[2]);
    let (hal, after, code) = choose|hal: H, after: Seq<u8>, code: i32| #[trigger]
        H::i2c_was_read(pre.hal, handle, before, hal, after, code) && post == (ContextView {
            hal,
            ..pre
        }) && mem_after == with_bytes(mem, regs[1], after) && result == reg_of(code as int);
    law_codes_are_kept_in_registers(code as int);
    if after.len() == regs[2] {
        law_written_bytes_are_read_back(mem, regs[1], after);
    }
    assert(received_into(mem, regs[1], regs[2], mem_after, after));
    assert(H::i2c_was_read(pre.hal, handle, before, post.hal, after, signed_reg(result) as i32));
}

/// A combined I2C transfer hands over the first buffer, stores what came in the
/// second, and returns the device's code.
pub proof fn law_i2c_write_read_fills_second_buffer<H: Hal, C: Clock>(
    pre: ContextView<H, C>,
    mem: Seq<Region>,
    regs: Seq<u64>,
    post: ContextView<H, C>,
    mem_after: Seq<Region>,
    result: u64,
)
    requires
        called(Helper::I2cWriteRead, pre, mem, regs, post, mem_after, result),
        is_bus_buffer(mem, regs[1], regs[2]),
        is_bus_buffer(mem, regs[3], regs[4]),
    ensures
        exists|bytes: Seq<u8>|
            received_into(mem, regs[3], regs[4], mem_after, bytes)
                && #[trigger] H::i2c_was_written_and_read(
                pre.hal,
                (regs[0] % 0x1_0000_0000) as u32,
                bytes_at(mem, regs[1], regs[2] as nat)->0,
                bytes_at(mem, regs[3], regs[4] as nat)->0,
                post.hal,
                bytes,
                signed_reg(result) as i32,
            ),
{
    let handle = low32(regs[0]);
    let data = bytes_of(mem, regs[1], regs[2]);
    let before = bytes_of(mem, regs[3], regs[4]);
    let (hal, after, code) = choose|hal: H, after: Seq<u8>, code: i32| #[trigger]
        H::i2c_was_written_and_read(pre.hal, handle, data, before, hal, after, code) && post == (
        ContextView { hal, ..pre }) && mem_after == with_bytes(mem, regs[3], after) && result
            == reg_of(code as int);
    law_codes_are_kept_in_registers(code as int);
    if after.len() == regs[4] {
        law_written_bytes_are_read_back(mem, regs[3], after);
    }
    assert(received_into(mem, regs[3], regs[4], mem_after, after));
    assert(H::i2c_was_written_and_read(
        pre.hal,
        handle,
        data,
        before,
        post.hal,
        after,
        signed_reg(result) as i32,
    ));
}

/// An SPI transfer hands over the buffer, stores what came in the same buffer,
/// and returns the device's code.
pub proof fn law_spi_transfer_fills_buffer<H: Hal, C: Clock>(
    pre: ContextView<H, C>,
    mem: Seq<Region>,
    regs: Seq<u64>,
    post: ContextView<H, C>,
    mem_after: Seq<Region>,
    result: u64,
)
    requires
        called(Helper::SpiTransfer, pre, mem, regs, post, mem_after, result),
        is_bus_buffer(mem, regs[1], regs[2]),
    ensures
        exists|bytes: Seq<u8>|
            received_into(mem, regs[1], regs[2], mem_after, bytes)
                && #[trigger] H::spi_was_transferred(
                pre.hal,
                (regs[0] % 0x1_0000_0000) as u32,
                bytes_at(mem, regs[1], regs[2] as nat)->0,
                post.hal,
                bytes,
                signed_reg(result) as i32,
            ),
{
    let handle = low32(regs[0]);
    let before = bytes_of(mem, regs[1], regs[2]);
    let (hal, after, code) = choose|hal: H, after: Seq<u8>, code: i32| #[trigger]
        H::spi_was_transferred(pre.hal, handle, before, hal, after, code) && post == (ContextView {
            hal,
            ..pre
        }) && mem_after == with_bytes(mem, regs[1], after) && result == reg_of(code as int);
    law_codes_are_kept_in_registers(code as int);
    if after.len() == regs[2] {
        law_written_bytes_are_read_back(mem, regs[1], after);
    }
    assert(received_into(mem, regs[1], regs[2], mem_after, after));
    assert(H::spi_was_transferred(
        pre.hal,
        handle,
        before,
        post.hal,
        after,
        signed_reg(result) as i32,
    ));
}

/// Pins and ADC channels are numbered by the low half of r1, a level is the low
/// half of r2, and the code of the peripheral is what the program is told.
pub proof fn law_pins_and_channels_are_accessed<H: Hal, C: Clock>(
    helper: Helper,
    pre: ContextView<H, C>,
    mem: Seq<Region>,
    regs: Seq<u64>,
    post: ContextView<H, C>,
    mem_after: Seq<Region>,
    result: u64,
)
    requires
        called(helper, pre, mem, regs, post, mem_after, result),
    ensures
        helper is GpioRead ==> H::gpio_was_read(
            pre.hal,
            (regs[0] % 0x1_0000_0000) as u32,
            post.hal,
            signed_reg(result) as i32,
        ),
        helper is GpioWrite ==> H::gpio_was_written(
            pre.hal,
            (regs[0] % 0x1_0000_0000) as u32,
            (regs[1] % 0x1_0000_0000) as u32,
            post.hal,
            signed_reg(result) as i32,
        ),
        helper is AdcRead ==> H::adc_was_read(
            pre.hal,
            (regs[0] % 0x1_0000_0000) as u32,
            post.hal,
            signed_reg(result) as i32,
        ),
{
}

/// A trace entry is the program's text, added behind the others; it is refused
/// where the text is null, empty, longer than 256 bytes, outside of memory or
/// not UTF-8, and dropped where there are 64 entries.
pub proof fn law_traces_are_kept_in_order<H: Hal, C: Clock>(
    pre: ContextView<H, C>,
    mem: Seq<Region>,
    regs: Seq<u64>,
    post: ContextView<H, C>,
    mem_after: Seq<Region>,
    result: u64,
)
    requires
        called(Helper::BpfTracePrintk, pre, mem, regs, post, mem_after, result),
    ensures
        ({
            let text = bytes_at(mem, regs[0], regs[1] as nat);
            let ok = regs[0] != 0 && 1 <= regs[1] <= 256 && text is Some && valid_utf8(text->0);
            &&& signed_reg(result) == (if ok {
                0int
            } else {
                -1int
            })
            &&& ok && pre.trace.len() < 64 ==> post.trace.len() == pre.trace.len() + 1
                && post.trace.drop_last() == pre.trace && encode_utf8(post.trace.last()) == text->0
            &&& !ok || pre.trace.len() >= 64 ==> post == pre
        }),
{
    let text = bytes_at(mem, regs[0], regs[1] as nat);
    if text is Some && valid_utf8(text->0) {
        decode_utf8_encode_utf8(text->0);
    }
    if post.trace.len() == pre.trace.len() + 1 {
        assert(post.trace.drop_last() =~= pre.trace);
    }
}

/// A blob is queued for later behind the others where it has at most 218 bytes
/// and fewer than ten wait; the program is told 0, and else -1 for a full queue
/// and -2 for a blob that is too large or not there, and then nothing changes.
pub proof fn law_async_sends_are_queued<H: Hal, C: Clock>(
    pre: ContextView<H, C>,
    mem: Seq<Region>,
    regs: Seq<u64>,
    post: ContextView<H, C>,
    mem_after: Seq<Region>,
    result: u64,
)
    requires
        called(Helper::SendAsync, pre, mem, regs, post, mem_after, result),
    ensures
        ({
            let blob = bytes_at(mem, regs[0], regs[1] as nat);
            let there = regs[0] != 0 && regs[1] <= 218 && blob is Some;
            &&& signed_reg(result) == (if !there {
                -2int
            } else if pre.queue.len() >= 10 {
                -1int
            } else {
                0int
            })
            &&& result == 0 ==> post.queue == pre.queue.push(blob->0)
            &&& result != 0 ==> post == pre
        }),
{
    lemma_bytes_len(mem, regs[0], regs[1] as nat);
}

/// A program may send up to 218 bytes of its memory, and waits for a reply for
/// 200 milliseconds or as long as it asks for, but at most five seconds.
pub proof fn law_sends_are_limited(mem: Seq<Region>, ptr: u64, len: u64, r5: u64)
    ensures
        can_send(mem, ptr, len) <==> ptr != 0 && len <= 218 && bytes_at(
            mem,
            ptr,
            len as nat,
        ) is Some,
        reply_timeout(0) == 200,
        0 < r5 <= 5000 ==> reply_timeout(r5) == r5,
        5000 < r5 < 0x1_0000_0000 ==> reply_timeout(r5) == 5000,
        reply_timeout(r5) <= 5000,
        r5 >= 0x1_0000_0000 ==> reply_timeout(r5) == (if r5 % 0x1_0000_0000 < 5000 {
            (r5 % 0x1_0000_0000) as u32
        } else {
            5000u32
        }),
{
}

/// A reply that fits is in the program's buffer afterwards, and its length is
/// returned; a reply that does not fit, and none, leave memory alone and are
/// reported as -1.
pub proof fn law_replies_are_delivered(
    mem: Seq<Region>,
    r3: u64,
    r4: u64,
    reply: Option<Seq<u8>>,
    mem_after: Seq<Region>,
    result: u64,
)
    requires
        reply_stored(mem, r3, r4, reply, mem_after, result),
    ensures
        reply matches Some(blob) ==> blob.len() <= r4 && bytes_at(mem, r3, blob.len()) is Some ==> {
            &&& result == blob.len()
            &&& bytes_at(mem_after, r3, blob.len()) == Some(blob)
        },
        (reply is None || reply->0.len() > r4) ==> mem_after == mem && signed_reg(result) == -1,
{
    if let Some(blob) = reply {
        if blob.len() <= r4 && bytes_at(mem, r3, blob.len()) is Some {
            law_written_bytes_are_read_back(mem, r3, blob);
        }
    }
}

/// A key is read lowest byte first, so that every key has its own bytes.
pub proof fn law_keys_are_little_endian(bytes: Seq<u8>)
    requires
        bytes.len() == 4,
    ensures
        key_from(bytes) == little_endian_number(bytes),
        0 <= key_from(bytes) <= 0xffff_ffff,
        key_from(bytes) % 256 == bytes[0],
        key_from(bytes) / 0x100_0000 == bytes[3],
{
    reveal_with_fuel(little_endian_number, 5);
    let rest = bytes.drop_first();
    assert(rest[0] == bytes[1] && rest.drop_first()[0] == bytes[2]
        && rest.drop_first().drop_first()[0] == bytes[3]);
}

/// A lookup finds nothing exactly where the key pointer is null or outside of
/// memory, the map is unknown, or the key is out of range.
pub proof fn law_lookups_find_keys_in_range<H: Hal, C: Clock>(
    ctx: ContextView<H, C>,
    mem: Seq<Region>,
    r1: u64,
    r2: u64,
)
    requires
        r1 != 0,
        map_at(ctx, r1) matches Some(map) ==> r1 + ctx.maps.maps[map].def.max_entries
            * ctx.maps.maps[map].def.value_size <= u64::MAX,
    ensures
        lookup_result(ctx, mem, r1, r2) != 0 <==> {
            &&& r2 != 0
            &&& bytes_at(mem, r2, 4) is Some
            &&& map_at(ctx, r1) is Some
            &&& key_from(bytes_at(mem, r2, 4)->0) < ctx.maps.maps[map_at(
                ctx,
                r1,
            )->0].def.max_entries
        },
{
    if let Some(map) = map_at(ctx, r1) {
        let def = ctx.maps.maps[map].def;
        if bytes_at(mem, r2, 4) is Some {
            let key = key_from(bytes_at(mem, r2, 4)->0);
            if key < def.max_entries {
                lemma_value_in_bounds(def.value_size as nat, def.max_entries as nat, key as nat);
                assert(def.value_size * def.max_entries == def.max_entries * def.value_size)
                    by (nonlinear_arith);
                assert(0 <= key * def.value_size) by (nonlinear_arith)
                    requires
                        key >= 0,
                ;
            }
        }
    }
}

/// An update succeeds exactly where the program is resident, key and value lie
/// within its memory, the map is known and the key is in range; else nothing
/// changes.
pub proof fn law_updates_need_key_and_value<H: Hal, C: Clock>(
    pre: ContextView<H, C>,
    mem: Seq<Region>,
    regs: Seq<u64>,
    post: ContextView<H, C>,
    mem_after: Seq<Region>,
    result: u64,
)
    requires
        called(Helper::MapUpdateElem, pre, mem, regs, post, mem_after, result),
    ensures
        result == 0 <==> {
            &&& pre.class is Resident
            &&& regs[1] != 0 && regs[2] != 0
            &&& bytes_at(mem, regs[1], 4) is Some
            &&& map_at(pre, regs[0]) is Some
            &&& key_from(bytes_at(mem, regs[1], 4)->0) < pre.maps.maps[map_at(
                pre,
                regs[0],
            )->0].def.max_entries
            &&& bytes_at(
                mem,
                regs[2],
                pre.maps.maps[map_at(pre, regs[0])->0].def.value_size as nat,
            ) is Some
        },
        result != 0 ==> post == pre && signed_reg(result) == -1,
        forall|m: int|
            0 <= m < pre.maps.maps.len() && map_at(pre, regs[0]) != Some(m)
                ==> #[trigger] post.maps.maps[m] == pre.maps.maps[m],
{
}

/// A program with more than 16 maps, or with two maps at one address, reaches
/// none of its maps.
pub proof fn law_unindexable_maps_are_all_unreachable(pointers: Seq<u64>, ptr: u64)
    requires
        pointers.len() > 16 || exists|i: int, j: int|
            0 <= i < j < pointers.len() && #[trigger] pointers[i] == #[trigger] pointers[j],
    ensures
        first_match(indexed(pointers), ptr, 0) is None,
{
    assert(!can_index(pointers));
}

/// Up to 16 maps at different addresses are all reached at their addresses.
pub proof fn law_maps_are_reached_at_their_addresses<H: Hal, C: Clock>(
    ctx: ContextView<H, C>,
    pointers: Seq<u64>,
    i: int,
)
    requires
        pointers.len() <= 16,
        forall|a: int, b: int|
            0 <= a < b < pointers.len() ==> (#[trigger] pointers[a]) != (#[trigger] pointers[b]),
        ctx.index == indexed(pointers),
        pointers.len() == ctx.maps.maps.len(),
        0 <= i < pointers.len(),
    ensures
        map_at(ctx, pointers[i]) == Some(i),
{
    law_index_finds_maps(pointers, pointers[i], i);
}

/// Calls are logged for exactly the helpers that use a bus, a pin, the ADC or
/// the radio.
pub proof fn law_io_helpers_are_logged(helper: Helper)
    ensures
        logged_name(helper) is None <==> (helper is MapLookupElem || helper is MapUpdateElem
            || helper is GetTime || helper is GetBatteryMv || helper is DelayUs
            || helper is SetNextWake || helper is BpfTracePrintk),
        logged_name(Helper::I2cRead) == Some("i2c_read"),
        logged_name(Helper::I2cWrite) == Some("i2c_write"),
        logged_name(Helper::I2cWriteRead) == Some("i2c_write_read"),
        logged_name(Helper::SpiTransfer) == Some("spi_transfer"),
        logged_name(Helper::GpioRead) == Some("gpio_read"),
        logged_name(Helper::GpioWrite) == Some("gpio_write"),
        logged_name(Helper::AdcRead) == Some("adc_read"),
        logged_name(Helper::Send) == Some("send"),
        logged_name(Helper::SendRecv) == Some("send_recv"),
        logged_name(Helper::SendAsync) == Some("send_async"),
{
}

/// A pointer counts as known exactly where it leads somewhere, and it leads to
/// the number that it was first added with.
pub proof fn law_known_pointers_lead_somewhere(entries: Seq<(u64, usize)>, ptr: u64, at: int)
    ensures
        has_ptr(entries, ptr) <==> first_match(entries, ptr, 0) is Some,
        0 <= at < entries.len() && entries[at].0 == ptr && (forall|j: int|
            0 <= j < at ==> (#[trigger] entries[j]).0 != ptr) ==> first_match(entries, ptr, 0)
            == Some(entries[at].1),
        MAX_MAPS == 16,
{
    if 0 <= at < entries.len() && entries[at].0 == ptr && (forall|j: int|
        0 <= j < at ==> (#[trigger] entries[j]).0 != ptr) {
        lemma_first_match(entries, ptr, 0, at);
    }
    lemma_known_pointer(entries, ptr, 0);
}

/// See `law_known_pointers_lead_somewhere`.
proof fn lemma_known_pointer(entries: Seq<(u64, usize)>, ptr: u64, from: int)
    requires
        0 <= from <= entries.len(),
    ensures
        first_match(entries, ptr, from) is Some <==> exists|j: int|
            from <= j < entries.len() && (#[trigger] entries[j]).0 == ptr,
    decreases entries.len() - from,
{
    if from < entries.len() {
        lemma_known_pointer(entries, ptr, from + 1);
        if entries[from].0 != ptr && first_match(entries, ptr, from + 1) is Some {
            let j = choose|j: int|
                from + 1 <= j < entries.len() && (#[trigger] entries[j]).0 == ptr;
            assert(entries[j].0 == ptr);
        }
    }
}

/// A blob counts as sent unless it could not be, whether it was answered or not,
/// and only an answer is a reply.
pub proof fn law_unanswered_blobs_were_sent(outcome: SendRecvOutcome)
    ensures
        outcome.sent() <==> !(outcome is Unsent),
        outcome.reply() is Some <==> outcome is Reply,
        outcome matches SendRecvOutcome::Reply(blob) ==> outcome.reply() == Some(blob@),
{
}

/// A blob that was sent uses up one sequence number and changes nothing else;
/// one that was not changes nothing.
pub proof fn law_sending_uses_one_number<H: Hal, C: Clock>(ctx: ContextView<H, C>)
    ensures
        ctx.seq < u64::MAX ==> ctx.after_sending(true).seq == ctx.seq + 1,
        ctx.seq == u64::MAX ==> ctx.after_sending(true).seq == 0,
        ctx.after_sending(true) == (ContextView { seq: ctx.after_sending(true).seq, ..ctx }),
        ctx.after_sending(false) == ctx,
{
}

/// A registration that fails ends the registering of helpers with its error: it
/// was the last one, and it is what the caller is told.
pub proof fn law_failed_registration_is_reported<I: BpfInterpreter>(
    pre: I,
    table: Seq<(u32, Helper)>,
    post: I,
    error: BpfError,
)
    requires
        all_registered(pre, table, post, Err(error)),
    ensures
        exists|before: I, i: int|
            0 <= i < table.len() && #[trigger] I::was_registered(
                before,
                table[i].0,
                table[i].1,
                post,
                Err(error),
            ),
    decreases table.len(),
{
    if table.len() > 0 {
        let (mid, first) = choose|mid: I, first: Result<(), BpfError>| #[trigger]
            I::was_registered(pre, table[0].0, table[0].1, mid, first) && (if first is Ok {
                all_registered(mid, table.drop_first(), post, Err(error))
            } else {
                post == mid && Err::<(), BpfError>(error) == first
            });
        if first is Ok {
            let rest = table.drop_first();
            law_failed_registration_is_reported(mid, rest, post, error);
            let (before, i) = choose|before: I, i: int|
                0 <= i < rest.len() && #[trigger] I::was_registered(
                    before,
                    rest[i].0,
                    rest[i].1,
                    post,
                    Err(error),
                );
            assert(rest[i] == table[i + 1]);
            assert(I::was_registered(before, table[i + 1].0, table[i + 1].1, post, Err(error)));
        } else {
            assert(I::was_registered(pre, table[0].0, table[0].1, post, Err(error)));
        }
    }
}

} // verus!
