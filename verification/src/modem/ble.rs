//! BLE driver logic of the Gateway Pairing Service.
//!
//! The BLE stack is driven from outside: its callbacks and the bridge's
//! commands arrive here as method calls, and the results say what the stack is
//! to be told (a client to disconnect, a chunk to indicate).
//!
//! - Advertising is off until it is enabled; only one client may be connected.
//! - The passkey of a Numeric Comparison is relayed to the gateway, and
//!   `Connected` is held back until the operator has accepted.
//! - Writes are relayed only once the session is authenticated.
//! - Long indications are split into chunks of at most MTU - 3 bytes.
//! - A client that has not completed pairing in time is disconnected.

use std::collections::VecDeque;

use vstd::prelude::*;

use crate::bytes::{copy_bytes, copy_range};
use crate::modem::message::{BleEvent, BleNote};

verus! {

/// Number of queued BLE events from which on new events are dropped.
pub const MAX_BLE_EVENT_QUEUE: usize = 32;

/// Maximum number of queued indication chunks.
pub const MAX_INDICATION_CHUNKS: usize = 64;

/// Time allowed for a connection to complete pairing, in nanoseconds.
pub const BLE_PAIRING_TIMEOUT_NS: u64 = 30_000_000_000;

/// Minimum ATT MTU of an accepted connection.
pub const BLE_MTU_MIN: u16 = 247;

/// Disconnect reason reported after a clean disconnect.
pub const REASON_LOCAL: u8 = 0x16;

/// Disconnect reason reported otherwise, and given to a rejected client.
pub const REASON_REMOTE: u8 = 0x13;

/// Largest chunk of an indication at the given MTU: three bytes less than the
/// MTU, but at least one.
pub open spec fn chunk_limit(mtu: u16) -> nat {
    if mtu > 4 {
        (mtu - 3) as nat
    } else {
        1
    }
}

/// Maximum payload per indication chunk.
///
/// At least one byte, even if the MTU is very small before the low-MTU
/// disconnect is processed.
pub fn max_indication_payload(mtu: u16) -> (size: usize)
    ensures
        size as nat == chunk_limit(mtu),
{
    let payload: usize = mtu.saturating_sub(3) as usize;
    if payload < 1 {
        1
    } else {
        payload
    }
}

/// `data` cut into chunks of `size` bytes, the last of which may be shorter.
pub open spec fn fragments(data: Seq<u8>, size: nat) -> Seq<Seq<u8>>
    decreases data.len(),
{
    if data.len() == 0 || size == 0 {
        Seq::empty()
    } else if data.len() <= size {
        seq![data]
    } else {
        seq![data.take(size as int)] + fragments(data.skip(size as int), size)
    }
}

/// All chunks put together again.
pub open spec fn joined(chunks: Seq<Seq<u8>>) -> Seq<u8>
    decreases chunks.len(),
{
    if chunks.len() == 0 {
        Seq::empty()
    } else {
        chunks[0] + joined(chunks.drop_first())
    }
}

/// The chunks of an indication, put together, are the indication; each of
/// them is at most as long as allowed, and none is empty.
pub proof fn law_fragments_reassemble(data: Seq<u8>, size: nat)
    requires
        size > 0,
    ensures
        joined(fragments(data, size)) == data,
        forall|i: int|
            0 <= i < fragments(data, size).len() ==> 0 < (#[trigger] fragments(
                data,
                size,
            )[i]).len() <= size,
    decreases data.len(),
{
    let chunks = fragments(data, size);
    if data.len() == 0 {
        assert(joined(chunks) =~= data);
    } else if data.len() <= size {
        assert(chunks.drop_first() =~= Seq::<Seq<u8>>::empty());
        assert(joined(chunks.drop_first()) =~= Seq::<u8>::empty());
        assert(joined(chunks) =~= data);
    } else {
        let rest = data.skip(size as int);
        law_fragments_reassemble(rest, size);
        assert(chunks.drop_first() =~= fragments(rest, size));
        assert(joined(chunks) =~= data);
        assert forall|i: int| 0 <= i < chunks.len() implies 0 < (#[trigger] chunks[i]).len()
            <= size by {
            if i > 0 {
                assert(chunks[i] == fragments(rest, size)[i - 1]);
            }
        }
    }
}

/// Number of chunks: the length divided by the chunk size, rounded up.
pub proof fn law_fragment_count(data: Seq<u8>, size: nat)
    requires
        size > 0,
    ensures
        fragments(data, size).len() == data.len() / size + (if data.len() % size == 0 {
            0int
        } else {
            1int
        }),
    decreases data.len(),
{
    let n = data.len() as int;
    let s = size as int;
    if n == 0 {
        vstd::arithmetic::div_mod::lemma_div_of0(s);
        vstd::arithmetic::div_mod::lemma_small_mod(0, size);
    } else if n < s {
        vstd::arithmetic::div_mod::lemma_small_mod(n as nat, size);
        vstd::arithmetic::div_mod::lemma_basic_div(n, s);
    } else if n == s {
        vstd::arithmetic::div_mod::lemma_div_by_self(s);
        vstd::arithmetic::div_mod::lemma_mod_self_0(s);
    } else {
        let rest = data.skip(s);
        law_fragment_count(rest, size);
        vstd::arithmetic::div_mod::lemma_div_minus_one(n, s);
        vstd::arithmetic::div_mod::lemma_mod_sub_multiples_vanish(n, s);
        assert((-s + n) / s == (n - s) / s);
        assert((-s + n) % s == (n - s) % s);
    }
}

/// The driver's state as mathematical values.
pub ghost struct BleView {
    /// Events for the bridge, oldest first.
    pub events: Seq<BleNote>,
    /// Chunks still to be indicated, in order.
    pub chunks: Seq<Seq<u8>>,
    pub awaiting_confirm: bool,
    pub advertising: bool,
    pub mtu: u16,
    pub conn_handle: Option<u16>,
    pub pairing_pending: bool,
    pub deferred: Option<(Seq<u8>, u16)>,
    pub authenticated: bool,
    pub connection_start: Option<u64>,
}

/// The state before anything has happened.
pub open spec fn ble_off() -> BleView {
    BleView {
        events: Seq::empty(),
        chunks: Seq::empty(),
        awaiting_confirm: false,
        advertising: false,
        mtu: 0,
        conn_handle: None,
        pairing_pending: false,
        deferred: None,
        authenticated: false,
        connection_start: None,
    }
}

impl BleView {
    /// The state with `note` queued, unless the queue is full.
    pub open spec fn noting(self, note: BleNote) -> BleView {
        if self.events.len() < MAX_BLE_EVENT_QUEUE {
            BleView { events: self.events.push(note), ..self }
        } else {
            self
        }
    }

    /// The state without a client: everything that belonged to the session is
    /// forgotten, the queued events and the advertising stay.
    pub open spec fn without_client(self) -> BleView {
        BleView { events: self.events, advertising: self.advertising, ..ble_off() }
    }

    /// The state after a client has connected.
    pub open spec fn after_connect(self, mtu: u16, handle: u16, now_ns: u64) -> BleView {
        BleView {
            advertising: false,
            mtu,
            conn_handle: Some(handle),
            connection_start: Some(now_ns),
            ..self
        }
    }

    /// The MTU after a completed pairing reported `reported`.
    pub open spec fn mtu_after(self, reported: u16) -> u16 {
        if reported > 0 {
            reported
        } else {
            self.mtu
        }
    }

    /// The state after pairing has completed with the client `peer`.
    pub open spec fn after_pairing(self, peer: Seq<u8>, reported: u16) -> BleView {
        let mtu = self.mtu_after(reported);
        if mtu < BLE_MTU_MIN {
            BleView { mtu, ..self }
        } else if self.pairing_pending {
            BleView { mtu, deferred: Some((peer, mtu)), ..self }
        } else {
            BleView { mtu, authenticated: true, connection_start: None, ..self }.noting(
                BleNote::Connected { peer_addr: peer, mtu },
            )
        }
    }

    /// The state after a write by the client.
    pub open spec fn after_write(self, data: Seq<u8>) -> BleView {
        if data.len() > 0 && self.authenticated {
            self.noting(BleNote::Recv { data })
        } else {
            self
        }
    }

    /// The next chunk to indicate and the connection to indicate it on.
    pub open spec fn next_chunk(self) -> Option<(u16, Seq<u8>)> {
        match self.conn_handle {
            Some(handle) => if !self.awaiting_confirm && self.chunks.len() > 0 {
                Some((handle, self.chunks[0]))
            } else {
                None
            },
            None => None,
        }
    }

    /// The state after the next chunk was taken.
    pub open spec fn after_chunk(self) -> BleView {
        if self.next_chunk() is Some {
            BleView { chunks: self.chunks.drop_first(), awaiting_confirm: true, ..self }
        } else {
            self
        }
    }

    /// Whether an indication is queued: there is something to send, a client
    /// to send it to, and room for all its chunks.
    pub open spec fn admits(self, data: Seq<u8>) -> bool {
        &&& data.len() > 0
        &&& self.mtu != 0
        &&& self.chunks.len() + fragments(data, chunk_limit(self.mtu)).len()
            <= MAX_INDICATION_CHUNKS
    }

    /// The state with the chunks of an indication queued.
    pub open spec fn with_indication(self, data: Seq<u8>) -> BleView {
        BleView { chunks: self.chunks + fragments(data, chunk_limit(self.mtu)), ..self }
    }

    /// The state after the operator's decision on a pending pairing.
    pub open spec fn after_decision(self, accept: bool) -> BleView {
        if !self.pairing_pending {
            self
        } else if accept {
            BleView {
                pairing_pending: false,
                authenticated: true,
                connection_start: None,
                deferred: None,
                events: match self.deferred {
                    Some((peer_addr, mtu)) => self.events.push(
                        BleNote::Connected { peer_addr, mtu },
                    ),
                    None => self.events,
                },
                ..self
            }
        } else {
            BleView { pairing_pending: false, deferred: None, ..self }
        }
    }

    /// Whether the client has used up the time for pairing.
    pub open spec fn timed_out(self, now_ns: u64) -> bool {
        &&& self.conn_handle is Some
        &&& !self.authenticated
        &&& match self.connection_start {
            Some(start) => now_ns - start >= BLE_PAIRING_TIMEOUT_NS,
            None => false,
        }
    }

    /// The state after the check for the pairing timeout.
    pub open spec fn after_timeout_check(self, now_ns: u64) -> BleView {
        if self.timed_out(now_ns) {
            BleView { pairing_pending: false, connection_start: None, deferred: None, ..self }
        } else {
            self
        }
    }
}

/// State shared by the BLE stack's callbacks and the bridge's commands.
pub struct BleState {
    events: VecDeque<BleEvent>,
    indication_queue: VecDeque<Vec<u8>>,
    awaiting_confirm: bool,
    advertising: bool,
    mtu: u16,
    conn_handle: Option<u16>,
    pairing_pending: bool,
    deferred_connected: Option<([u8; 6], u16)>,
    authenticated: bool,
    connection_start: Option<u64>,
}

impl View for BleState {
    type V = BleView;

    closed spec fn view(&self) -> BleView {
        BleView {
            events: self.events@.map_values(|e: BleEvent| e@),
            chunks: self.indication_queue@.map_values(|c: Vec<u8>| c@),
            awaiting_confirm: self.awaiting_confirm,
            advertising: self.advertising,
            mtu: self.mtu,
            conn_handle: self.conn_handle,
            pairing_pending: self.pairing_pending,
            deferred: match self.deferred_connected {
                Some((peer_addr, mtu)) => Some((peer_addr@, mtu)),
                None => None,
            },
            authenticated: self.authenticated,
            connection_start: self.connection_start,
        }
    }
}

impl BleState {
    /// The indication queue stays within its bound.
    pub open spec fn wf(&self) -> bool {
        self@.chunks.len() <= MAX_INDICATION_CHUNKS
    }

    /// Nothing connected, nothing queued, not advertising.
    pub fn new() -> (state: BleState)
        ensures
            state.wf(),
            state@ == ble_off(),
    {
        let state = BleState {
            events: VecDeque::new(),
            indication_queue: VecDeque::new(),
            awaiting_confirm: false,
            advertising: false,
            mtu: 0,
            conn_handle: None,
            pairing_pending: false,
            deferred_connected: None,
            authenticated: false,
            connection_start: None,
        };
        assert(state@.events =~= Seq::<BleNote>::empty());
        assert(state@.chunks =~= Seq::<Seq<u8>>::empty());
        state
    }

    /// Queue an event unless the queue is full.
    fn note(&mut self, event: BleEvent)
        ensures
            final(self)@ == old(self)@.noting(event@),
    {
        let ghost before = *self;
        if self.events.len() < MAX_BLE_EVENT_QUEUE {
            self.events.push_back(event);
            assert(self@.events =~= before@.events.push(event@));
        }
    }

    /// Forget everything that belongs to the current session.
    fn drop_client(&mut self)
        ensures
            final(self)@ == old(self)@.without_client(),
    {
        self.mtu = 0;
        self.conn_handle = None;
        self.indication_queue.clear();
        self.awaiting_confirm = false;
        self.pairing_pending = false;
        self.deferred_connected = None;
        self.authenticated = false;
        self.connection_start = None;
        assert(self@.chunks =~= Seq::<Seq<u8>>::empty());
    }

    /// A client has connected; `connected_count` counts it too.  Returns
    /// `false` where it has to be disconnected, since another one is there.
    ///
    /// The MTU may still be the default one: it is judged when pairing has
    /// completed.
    pub fn on_connect(
        &mut self,
        connected_count: usize,
        mtu: u16,
        conn_handle: u16,
        now_ns: u64,
    ) -> (accepted: bool)
        requires
            old(self).wf(),
        ensures
            final(self).wf(),
            accepted == (connected_count <= 1),
            final(self)@ == (if accepted {
                old(self)@.after_connect(mtu, conn_handle, now_ns)
            } else {
                old(self)@
            }),
    {
        if connected_count > 1 {
            return false;
        }
        self.advertising = false;
        self.mtu = mtu;
        self.conn_handle = Some(conn_handle);
        self.connection_start = Some(now_ns);
        true
    }

    /// The client has disconnected; `clean` says whether without an error.
    pub fn on_disconnect(&mut self, peer_addr: [u8; 6], clean: bool)
        requires
            old(self).wf(),
        ensures
            final(self).wf(),
            final(self)@ == old(self)@.without_client().noting(
                BleNote::Disconnected {
                    peer_addr: peer_addr@,
                    reason: if clean {
                        REASON_LOCAL
                    } else {
                        REASON_REMOTE
                    },
                },
            ),
    {
        let reason: u8 = if clean {
            REASON_LOCAL
        } else {
            REASON_REMOTE
        };
        self.drop_client();
        self.note(BleEvent::Disconnected { peer_addr, reason });
    }

    /// The passkey for input or display pairing, which is not used.
    pub fn on_passkey_request(&self) -> (passkey: u32)
        ensures
            passkey == 0,
    {
        0
    }

    /// The stack asks for confirmation of a Numeric Comparison.  The link may
    /// proceed (`true`); the operator's decision is still to come.
    pub fn on_confirm_pin(&mut self, passkey: u32) -> (proceed: bool)
        requires
            old(self).wf(),
        ensures
            final(self).wf(),
            proceed,
            final(self)@ == (BleView { pairing_pending: true, ..old(self)@ }).noting(
                BleNote::PairingConfirm { passkey },
            ),
    {
        self.pairing_pending = true;
        self.note(BleEvent::PairingConfirm { passkey });
        true
    }

    /// Pairing has ended, successfully or not, with the given peer, MTU and
    /// connection.  Returns the connection to drop, where the MTU is too low.
    pub fn on_authentication_complete(
        &mut self,
        success: bool,
        peer_addr: [u8; 6],
        mtu: u16,
        conn_handle: u16,
    ) -> (disconnect: Option<u16>)
        requires
            old(self).wf(),
        ensures
            final(self).wf(),
            final(self)@ == (if success {
                old(self)@.after_pairing(peer_addr@, mtu)
            } else {
                old(self)@
            }),
            disconnect == (if success && old(self)@.mtu_after(mtu) < BLE_MTU_MIN {
                Some(conn_handle)
            } else {
                None::<u16>
            }),
    {
        if !success {
            return None;
        }
        if mtu > 0 {
            self.mtu = mtu;
        }
        if self.mtu < BLE_MTU_MIN {
            Some(conn_handle)
        } else if self.pairing_pending {
            self.deferred_connected = Some((peer_addr, self.mtu));
            None
        } else {
            self.authenticated = true;
            self.connection_start = None;
            let mtu = self.mtu;
            self.note(BleEvent::Connected { peer_addr, mtu });
            None
        }
    }

    /// The client wrote to the command characteristic.
    pub fn on_write(&mut self, value: &[u8])
        requires
            old(self).wf(),
        ensures
            final(self).wf(),
            final(self)@ == old(self)@.after_write(value@),
    {
        if value.len() == 0 {
            return;
        }
        if self.authenticated {
            self.note(BleEvent::Recv(copy_bytes(value)));
        }
    }

    /// Advertising was started, or the start failed.
    pub fn enable(&mut self, started: bool)
        requires
            old(self).wf(),
        ensures
            final(self).wf(),
            final(self)@ == (BleView {
                advertising: old(self)@.advertising || started,
                ..old(self)@
            }),
    {
        if started {
            self.advertising = true;
        }
    }

    /// The connection that has to be dropped before BLE is disabled.
    pub fn active_connection(&self) -> (handle: Option<u16>)
        ensures
            handle == self@.conn_handle,
    {
        self.conn_handle
    }

    /// Advertising has stopped and the client was disconnected.
    pub fn disable(&mut self)
        requires
            old(self).wf(),
        ensures
            final(self).wf(),
            final(self)@ == (BleView { events: old(self)@.events, ..ble_off() }),
    {
        self.advertising = false;
        self.drop_client();
    }

    /// Send an indication to the client.  Returns the chunk to indicate now
    /// and the connection to indicate it on, if any.
    ///
    /// An empty payload, one without a client, and one that does not fit into
    /// the queue as a whole are discarded.
    pub fn indicate(&mut self, data: &[u8]) -> (chunk: Option<(u16, Vec<u8>)>)
        requires
            old(self).wf(),
        ensures
            final(self).wf(),
            !old(self)@.admits(data@) ==> chunk is None && final(self)@ == old(self)@,
            old(self)@.admits(data@) ==> {
                let queued = old(self)@.with_indication(data@);
                &&& final(self)@ == queued.after_chunk()
                &&& match chunk {
                    Some((handle, bytes)) => queued.next_chunk() == Some((handle, bytes@)),
                    None => queued.next_chunk() is None,
                }
            },
            old(self)@.admits(data@) ==> joined(
                (match chunk {
                    Some((_, bytes)) => seq![bytes@],
                    None => Seq::empty(),
                }) + final(self)@.chunks,
            ) == joined(old(self)@.chunks) + data@,
    {
        if data.len() == 0 || self.mtu == 0 {
            return None;
        }
        let chunk_size = max_indication_payload(self.mtu);
        let mut num_chunks: usize = data.len() / chunk_size;
        proof {
            law_fragment_count(data@, chunk_size as nat);
            assert(num_chunks <= data.len()) by (nonlinear_arith)
                requires
                    num_chunks == data.len() / chunk_size,
                    chunk_size >= 1,
            ;
            assert(data.len() % chunk_size != 0 ==> num_chunks < data.len()) by (nonlinear_arith)
                requires
                    num_chunks == data.len() / chunk_size,
                    chunk_size >= 1,
            ;
        }
        if data.len() % chunk_size != 0 {
            num_chunks = num_chunks + 1;
        }
        if num_chunks > MAX_INDICATION_CHUNKS - self.indication_queue.len() {
            return None;
        }
        let ghost before = *self;
        let ghost size = chunk_size as nat;
        let mut start: usize = 0;
        let ghost mut done: Seq<Seq<u8>> = Seq::empty();
        assert(data@.skip(0) =~= data@);
        assert(self@.chunks =~= before@.chunks + done);
        while start < data.len()
            invariant
                start <= data.len(),
                size == chunk_size,
                chunk_size >= 1,
                self@ == (BleView { chunks: before@.chunks + done, ..before@ }),
                fragments(data@, size) =~= done + fragments(data@.skip(start as int), size),
            decreases data.len() - start,
        {
            let end: usize = if data.len() - start > chunk_size {
                start + chunk_size
            } else {
                data.len()
            };
            let chunk = copy_range(data, start, end);
            let ghost rest = data@.skip(start as int);
            let ghost here = *self;
            proof {
                assert(chunk@ =~= rest.take(end - start));
                assert(rest.skip(end - start) =~= data@.skip(end as int));
                if rest.len() <= size {
                    assert(fragments(data@.skip(end as int), size) =~= Seq::<Seq<u8>>::empty());
                    assert(chunk@ =~= rest);
                }
                assert(fragments(rest, size) =~= seq![chunk@] + fragments(
                    data@.skip(end as int),
                    size,
                ));
            }
            self.indication_queue.push_back(chunk);
            proof {
                assert(self@.chunks =~= here@.chunks.push(chunk@));
                assert((before@.chunks + done).push(chunk@) =~= before@.chunks + done.push(chunk@));
                assert(self@.events =~= here@.events);
                done = done.push(chunk@);
            }
            start = end;
        }
        proof {
            assert(fragments(data@.skip(start as int), size) =~= Seq::<Seq<u8>>::empty());
            assert(done =~= fragments(data@, size));
            law_indication_is_queued_behind_others(before@, data@);
        }
        self.send_next_chunk()
    }

    /// Take the next chunk off the queue, unless one is on its way or there is
    /// no client.
    fn send_next_chunk(&mut self) -> (chunk: Option<(u16, Vec<u8>)>)
        requires
            old(self).wf(),
        ensures
            final(self).wf(),
            final(self)@ == old(self)@.after_chunk(),
            match chunk {
                Some((handle, bytes)) => old(self)@.next_chunk() == Some((handle, bytes@)),
                None => old(self)@.next_chunk() is None,
            },
    {
        if self.awaiting_confirm {
            return None;
        }
        match self.conn_handle {
            None => None,
            Some(handle) => {
                let ghost before = *self;
                match self.indication_queue.pop_front() {
                    None => None,
                    Some(chunk) => {
                        self.awaiting_confirm = true;
                        assert(self@.chunks =~= before@.chunks.drop_first());
                        Some((handle, chunk))
                    },
                }
            },
        }
    }

    /// The stack could not queue the chunk that was taken last.
    pub fn chunk_failed(&mut self)
        requires
            old(self).wf(),
        ensures
            final(self).wf(),
            final(self)@ == (BleView { awaiting_confirm: false, ..old(self)@ }),
    {
        self.awaiting_confirm = false;
    }

    /// The operator has accepted or rejected the pending pairing.  Returns the
    /// connection to drop after a rejection.  A late decision is ignored.
    pub fn pairing_confirm_reply(&mut self, accept: bool) -> (disconnect: Option<u16>)
        requires
            old(self).wf(),
        ensures
            final(self).wf(),
            final(self)@ == old(self)@.after_decision(accept),
            disconnect == (if old(self)@.pairing_pending && !accept {
                old(self)@.conn_handle
            } else {
                None::<u16>
            }),
    {
        if !self.pairing_pending {
            return None;
        }
        self.pairing_pending = false;
        if accept {
            let ghost before = *self;
            self.authenticated = true;
            self.connection_start = None;
            if let Some((peer_addr, mtu)) = self.deferred_connected {
                self.deferred_connected = None;
                let event = BleEvent::Connected { peer_addr, mtu };
                self.events.push_back(event);
                assert(self@.events =~= before@.events.push(event@));
            }
            None
        } else {
            self.deferred_connected = None;
            self.conn_handle
        }
    }

    /// Called once per poll cycle: the previous chunk counts as confirmed, and
    /// the next one is taken.
    pub fn advance_indication(&mut self) -> (chunk: Option<(u16, Vec<u8>)>)
        requires
            old(self).wf(),
        ensures
            final(self).wf(),
            ({
                let ready = BleView { awaiting_confirm: false, ..old(self)@ };
                &&& final(self)@ == ready.after_chunk()
                &&& match chunk {
                    Some((handle, bytes)) => ready.next_chunk() == Some((handle, bytes@)),
                    None => ready.next_chunk() is None,
                }
            }),
    {
        self.awaiting_confirm = false;
        self.send_next_chunk()
    }

    /// Take the oldest queued event.
    pub fn drain_event(&mut self) -> (event: Option<BleEvent>)
        requires
            old(self).wf(),
        ensures
            final(self).wf(),
            match event {
                Some(e) => {
                    &&& old(self)@.events.len() > 0
                    &&& e@ == old(self)@.events[0]
                    &&& final(self)@ == (BleView {
                        events: old(self)@.events.drop_first(),
                        ..old(self)@
                    })
                },
                None => old(self)@.events.len() == 0 && final(self)@ == old(self)@,
            },
    {
        let ghost before = *self;
        let event = self.events.pop_front();
        proof {
            if event is Some {
                assert(self@.events =~= before@.events.drop_first());
            } else {
                assert(self@.events =~= before@.events);
            }
        }
        event
    }

    /// Called once per poll cycle: returns the connection to drop where the
    /// client has not completed pairing in time.  The pairing state is cleared
    /// then, so that neither the timeout nor a late decision takes effect
    /// again.
    pub fn check_pairing_timeout(&mut self, now_ns: u64) -> (disconnect: Option<u16>)
        requires
            old(self).wf(),
        ensures
            final(self).wf(),
            final(self)@ == old(self)@.after_timeout_check(now_ns),
            disconnect == (if old(self)@.timed_out(now_ns) {
                old(self)@.conn_handle
            } else {
                None::<u16>
            }),
    {
        if self.authenticated {
            return None;
        }
        match (self.conn_handle, self.connection_start) {
            (Some(handle), Some(start)) => {
                if now_ns.saturating_sub(start) >= BLE_PAIRING_TIMEOUT_NS {
                    self.pairing_pending = false;
                    self.connection_start = None;
                    self.deferred_connected = None;
                    Some(handle)
                } else {
                    None
                }
            },
            _ => None,
        }
    }
}

/// Nothing that a client writes is relayed before the session is
/// authenticated, and an empty write never is.
pub proof fn law_unauthenticated_writes_are_dropped(ble: BleView, data: Seq<u8>)
    requires
        !ble.authenticated || data.len() == 0,
    ensures
        ble.after_write(data) == ble,
{
}

/// While the operator's decision is pending, a completed pairing announces
/// nothing; the connection is announced when the operator accepts, and never
/// when the operator rejects.
pub proof fn law_connected_waits_for_operator(ble: BleView, peer: Seq<u8>, mtu: u16)
    requires
        ble.pairing_pending,
        !ble.authenticated,
        ble.mtu_after(mtu) >= BLE_MTU_MIN,
    ensures
        ({
            let paired = ble.after_pairing(peer, mtu);
            let accepted = paired.after_decision(true);
            let rejected = paired.after_decision(false);
            &&& paired.events == ble.events
            &&& !paired.authenticated
            &&& accepted.authenticated
            &&& accepted.events == ble.events.push(
                BleNote::Connected { peer_addr: peer, mtu: ble.mtu_after(mtu) },
            )
            &&& !rejected.authenticated
            &&& rejected.events == ble.events
            &&& rejected.after_decision(true) == rejected
        }),
{
}

/// A connection whose MTU stays too low is never announced or authenticated.
pub proof fn law_low_mtu_is_not_announced(ble: BleView, peer: Seq<u8>, mtu: u16)
    requires
        ble.mtu_after(mtu) < BLE_MTU_MIN,
    ensures
        ble.after_pairing(peer, mtu).events == ble.events,
        ble.after_pairing(peer, mtu).authenticated == ble.authenticated,
{
}

/// After the pairing timeout a late decision changes nothing, and the timeout
/// does not strike a second time.
pub proof fn law_timeout_is_final(ble: BleView, now_ns: u64, later_ns: u64, accept: bool)
    requires
        ble.timed_out(now_ns),
    ensures
        ({
            let after = ble.after_timeout_check(now_ns);
            &&& after.after_decision(accept) == after
            &&& !after.timed_out(later_ns)
            &&& after.events == ble.events
        }),
{
}

/// A client that never completes pairing is timed out once the allowed time
/// has passed since it connected, and not before.
pub proof fn law_stalled_client_times_out(
    ble: BleView,
    mtu: u16,
    handle: u16,
    start_ns: u64,
    now_ns: u64,
)
    requires
        !ble.authenticated,
        start_ns <= now_ns,
    ensures
        ble.after_connect(mtu, handle, start_ns).timed_out(now_ns) == (now_ns - start_ns
            >= BLE_PAIRING_TIMEOUT_NS),
{
}

/// The chunks that `n` poll cycles indicate, one after the other.
pub open spec fn indicated(ble: BleView, n: nat) -> Seq<Seq<u8>>
    decreases n,
{
    if n == 0 {
        Seq::empty()
    } else {
        let ready = BleView { awaiting_confirm: false, ..ble };
        let now = match ready.next_chunk() {
            Some((_, chunk)) => seq![chunk],
            None => Seq::empty(),
        };
        now + indicated(ready.after_chunk(), (n - 1) as nat)
    }
}

/// With a client connected, the queued chunks are indicated one per poll cycle
/// and in order, until none is left.
pub proof fn law_one_chunk_per_poll(ble: BleView, n: nat)
    requires
        ble.conn_handle is Some,
    ensures
        indicated(ble, n) == ble.chunks.take(
            if n < ble.chunks.len() {
                n as int
            } else {
                ble.chunks.len() as int
            },
        ),
    decreases n,
{
    if n == 0 {
        assert(indicated(ble, n) =~= ble.chunks.take(0));
    } else {
        let ready = BleView { awaiting_confirm: false, ..ble };
        law_one_chunk_per_poll(ready.after_chunk(), (n - 1) as nat);
        if ble.chunks.len() > 0 {
            let rest = ble.chunks.drop_first();
            let m = if n - 1 < rest.len() {
                n - 1
            } else {
                rest.len() as int
            };
            assert(seq![ble.chunks[0]] + rest.take(m) =~= ble.chunks.take(m + 1));
        } else {
            assert(indicated(ble, n) =~= ble.chunks.take(0));
        }
    }
}

/// Chunks that are put together in two parts are put together.
proof fn lemma_joined_parts(a: Seq<Seq<u8>>, b: Seq<Seq<u8>>)
    ensures
        joined(a + b) == joined(a) + joined(b),
    decreases a.len(),
{
    if a.len() == 0 {
        assert(a + b =~= b);
        assert(joined(a) + joined(b) =~= joined(b));
    } else {
        assert((a + b).drop_first() =~= a.drop_first() + b);
        lemma_joined_parts(a.drop_first(), b);
        assert(joined(a + b) =~= joined(a) + joined(b));
    }
}

/// A chunk is as long as an indication at this MTU can be: the MTU less the
/// three bytes of its header, and never nothing.
pub proof fn law_chunks_fill_the_mtu(mtu: u16)
    ensures
        chunk_limit(mtu) >= 1,
        mtu >= 4 ==> chunk_limit(mtu) + 3 == mtu,
        mtu < 4 ==> chunk_limit(mtu) == 1,
{
}

/// An indication is queued exactly where it holds something, there is a client
/// to send it to, and its chunks, of at most MTU less three bytes each, and
/// those already queued are no more than 64.
pub proof fn law_indications_are_admitted_while_they_fit(ble: BleView, data: Seq<u8>)
    requires
        ble.mtu >= 4,
    ensures
        ble.admits(data) <==> data.len() > 0 && ble.chunks.len() + data.len() / (ble.mtu - 3) as nat
            + (if data.len() % (ble.mtu - 3) as nat == 0 {
            0int
        } else {
            1int
        }) <= 64,
{
    law_fragment_count(data, (ble.mtu - 3) as nat);
}

/// Without a client, nothing is queued.
pub proof fn law_indications_need_a_client(ble: BleView, data: Seq<u8>)
    requires
        ble.mtu == 0 || data.len() == 0,
    ensures
        !ble.admits(data),
{
}

/// What the phone is sent when an indication is queued: the chunk that is taken
/// at once, if one is.
pub open spec fn sent_at_once(queued: BleView) -> Seq<Seq<u8>> {
    match queued.next_chunk() {
        Some((_, chunk)) => seq![chunk],
        None => Seq::empty(),
    }
}

/// Queueing an indication keeps what is queued: the chunk that is taken at
/// once and the chunks that are left are, put together, what was queued before
/// followed by the new payload.  The new chunks are as long as the MTU allows
/// at most, and nothing but the queue changes.
pub proof fn law_indication_is_queued_behind_others(ble: BleView, data: Seq<u8>)
    requires
        ble.admits(data),
    ensures
        ({
            let queued = ble.with_indication(data);
            let after = queued.after_chunk();
            &&& joined(queued.chunks) == joined(ble.chunks) + data
            &&& joined(sent_at_once(queued) + after.chunks) == joined(ble.chunks) + data
            &&& ble.chunks.len() < queued.chunks.len() <= 64
            &&& queued.chunks.take(ble.chunks.len() as int) == ble.chunks
            &&& forall|i: int|
                ble.chunks.len() <= i < queued.chunks.len() ==> 1 <= (
                #[trigger] queued.chunks[i]).len() && (ble.mtu >= 4 ==> queued.chunks[i].len() + 3
                    <= ble.mtu)
            &&& queued == (BleView { chunks: queued.chunks, ..ble })
            &&& after == (BleView {
                chunks: after.chunks,
                awaiting_confirm: after.awaiting_confirm,
                ..ble
            })
            &&& ble.conn_handle is Some ==> after.awaiting_confirm
        }),
{
    let size = chunk_limit(ble.mtu);
    let queued = ble.with_indication(data);
    let after = queued.after_chunk();
    let new = fragments(data, size);
    law_fragments_reassemble(data, size);
    lemma_joined_parts(ble.chunks, new);
    assert(queued.chunks.take(ble.chunks.len() as int) =~= ble.chunks);
    if new.len() == 0 {
        assert(joined(new) =~= Seq::<u8>::empty());
    }
    assert forall|i: int| ble.chunks.len() <= i < queued.chunks.len() implies 1 <= (
    #[trigger] queued.chunks[i]).len() && (ble.mtu >= 4 ==> queued.chunks[i].len() + 3
        <= ble.mtu) by {
        assert(queued.chunks[i] == new[i - ble.chunks.len()]);
    }
    if queued.next_chunk() is Some {
        assert(sent_at_once(queued) + after.chunks =~= queued.chunks);
    } else {
        assert(sent_at_once(queued) + after.chunks =~= queued.chunks);
    }
}

/// The state after `payloads` were handed over for indication, one after the
/// other.
pub open spec fn after_indications(ble: BleView, payloads: Seq<Seq<u8>>) -> BleView
    decreases payloads.len(),
{
    if payloads.len() == 0 {
        ble
    } else {
        let before = after_indications(ble, payloads.drop_last());
        if before.admits(payloads.last()) {
            before.with_indication(payloads.last()).after_chunk()
        } else {
            before
        }
    }
}

/// The chunks that the phone is sent while `payloads` are handed over.
pub open spec fn sent_meanwhile(ble: BleView, payloads: Seq<Seq<u8>>) -> Seq<Seq<u8>>
    decreases payloads.len(),
{
    if payloads.len() == 0 {
        Seq::empty()
    } else {
        let before = after_indications(ble, payloads.drop_last());
        let sent = sent_meanwhile(ble, payloads.drop_last());
        if before.admits(payloads.last()) {
            sent + sent_at_once(before.with_indication(payloads.last()))
        } else {
            sent
        }
    }
}

/// The payloads that are admitted.
pub open spec fn admitted(ble: BleView, payloads: Seq<Seq<u8>>) -> Seq<Seq<u8>>
    decreases payloads.len(),
{
    if payloads.len() == 0 {
        Seq::empty()
    } else {
        let before = after_indications(ble, payloads.drop_last());
        let others = admitted(ble, payloads.drop_last());
        if before.admits(payloads.last()) {
            others.push(payloads.last())
        } else {
            others
        }
    }
}

/// See `law_phone_receives_all_payloads`.
proof fn lemma_payloads_are_queued(ble: BleView, payloads: Seq<Seq<u8>>)
    ensures
        ({
            let after = after_indications(ble, payloads);
            &&& joined(sent_meanwhile(ble, payloads)) + joined(after.chunks) == joined(ble.chunks)
                + joined(admitted(ble, payloads))
            &&& after.conn_handle == ble.conn_handle
        }),
    decreases payloads.len(),
{
    if payloads.len() == 0 {
        let none = Seq::<Seq<u8>>::empty();
        assert(joined(none) =~= Seq::<u8>::empty());
        assert(joined(none) + joined(ble.chunks) =~= joined(ble.chunks) + joined(none));
    } else {
        let rest = payloads.drop_last();
        let before = after_indications(ble, rest);
        let data = payloads.last();
        lemma_payloads_are_queued(ble, rest);
        if before.admits(data) {
            let queued = before.with_indication(data);
            let after = queued.after_chunk();
            let sent = sent_meanwhile(ble, rest);
            let others = admitted(ble, rest);
            law_indication_is_queued_behind_others(before, data);
            lemma_joined_parts(sent, sent_at_once(queued));
            lemma_joined_parts(sent_at_once(queued), after.chunks);
            assert(others.push(data) =~= others + seq![data]);
            lemma_joined_parts(others, seq![data]);
            assert(seq![data].drop_first() =~= Seq::<Seq<u8>>::empty());
            assert(joined(seq![data]) =~= data) by {
                reveal_with_fuel(joined, 2);
            }
            let a = joined(sent);
            let b = joined(sent_at_once(queued));
            let c = joined(after.chunks);
            assert((a + b) + c =~= a + (b + c));
            assert(b + c == joined(before.chunks) + data);
            assert(a + (joined(before.chunks) + data) =~= (a + joined(before.chunks)) + data);
            assert((joined(ble.chunks) + joined(others)) + data =~= joined(ble.chunks) + (joined(
                others,
            ) + data));
        }
    }
}

/// A phone that stays connected receives, put together, what was queued for it
/// and then every payload that was admitted, complete and in order: some of it
/// while the payloads are handed over, and the rest in as many poll cycles as
/// there are chunks left.
pub proof fn law_phone_receives_all_payloads(ble: BleView, payloads: Seq<Seq<u8>>, n: nat)
    requires
        ble.conn_handle is Some,
        n >= after_indications(ble, payloads).chunks.len(),
    ensures
        joined(sent_meanwhile(ble, payloads) + indicated(after_indications(ble, payloads), n))
            == joined(ble.chunks) + joined(admitted(ble, payloads)),
{
    let after = after_indications(ble, payloads);
    lemma_payloads_are_queued(ble, payloads);
    law_one_chunk_per_poll(after, n);
    assert(indicated(after, n) =~= after.chunks);
    lemma_joined_parts(sent_meanwhile(ble, payloads), after.chunks);
}

/// While a chunk is on its way no other is sent, and without a client none is;
/// taking one takes the oldest, and changes nothing else.
pub proof fn law_one_chunk_is_on_its_way(ble: BleView)
    ensures
        ble.next_chunk() is Some <==> ble.conn_handle is Some && !ble.awaiting_confirm
            && ble.chunks.len() > 0,
        ble.next_chunk() matches Some((handle, chunk)) ==> {
            &&& ble.conn_handle == Some(handle)
            &&& ble.chunks == seq![chunk] + ble.after_chunk().chunks
            &&& ble.after_chunk().awaiting_confirm
            &&& ble.after_chunk().next_chunk() is None
        },
        ble.next_chunk() is None ==> ble.after_chunk() == ble,
{
    if ble.next_chunk() is Some {
        assert(ble.chunks =~= seq![ble.chunks[0]] + ble.after_chunk().chunks);
    }
}

/// Events are queued in order behind those that wait; a 33rd is dropped, and
/// nothing but the queue changes.
pub proof fn law_events_are_queued_in_order(ble: BleView, note: BleNote)
    ensures
        ble.events.len() < 32 ==> ble.noting(note).events == ble.events.push(note),
        ble.events.len() >= 32 ==> ble.noting(note).events == ble.events,
        ble.noting(note) == (BleView { events: ble.noting(note).events, ..ble }),
{
}

/// A client that is gone leaves nothing behind: no chunk, no pending pairing,
/// no authentication and no MTU.  Events that wait are kept, and so is the
/// advertising.
pub proof fn law_disconnected_client_leaves_nothing(ble: BleView, data: Seq<u8>, now_ns: u64)
    ensures
        ({
            let after = ble.without_client();
            &&& after.events == ble.events && after.advertising == ble.advertising
            &&& after.chunks.len() == 0 && !after.awaiting_confirm
            &&& after.conn_handle is None && after.mtu == 0
            &&& !after.authenticated && !after.pairing_pending && after.deferred is None
            &&& after.connection_start is None
            &&& after.after_write(data) == after
            &&& !after.admits(data) && after.next_chunk() is None
            &&& !after.timed_out(now_ns)
        }),
{
}

/// A client that connects ends the advertising, and its connection, its MTU and
/// the time are kept; it is not authenticated by that, and nothing is announced.
pub proof fn law_connecting_starts_the_clock(ble: BleView, mtu: u16, handle: u16, now_ns: u64)
    ensures
        ({
            let after = ble.after_connect(mtu, handle, now_ns);
            &&& !after.advertising
            &&& after.conn_handle == Some(handle) && after.mtu == mtu
            &&& after.connection_start == Some(now_ns)
            &&& after.authenticated == ble.authenticated
            &&& after.pairing_pending == ble.pairing_pending && after.deferred == ble.deferred
            &&& after.events == ble.events && after.chunks == ble.chunks
            &&& after.awaiting_confirm == ble.awaiting_confirm
        }),
{
}

/// What an authenticated client writes is relayed as it is, and an MTU that a
/// completed pairing reports replaces the one before unless it is zero.
pub proof fn law_authenticated_writes_are_relayed(ble: BleView, data: Seq<u8>, reported: u16)
    ensures
        ble.authenticated && data.len() > 0 && ble.events.len() < 32 ==> ble.after_write(data)
            == (BleView { events: ble.events.push(BleNote::Recv { data }), ..ble }),
        reported != 0 ==> ble.mtu_after(reported) == reported,
        reported == 0 ==> ble.mtu_after(reported) == ble.mtu,
{
}

/// Where no decision of the operator is pending, a completed pairing with a
/// large enough MTU authenticates the session, announces the connection and
/// stops the clock; with a smaller MTU it does none of these.
pub proof fn law_completed_pairing_is_announced(ble: BleView, peer: Seq<u8>, mtu: u16)
    requires
        !ble.pairing_pending,
        mtu > 0,
        ble.events.len() < 32,
    ensures
        ({
            let after = ble.after_pairing(peer, mtu);
            &&& after.mtu == mtu
            &&& after.chunks == ble.chunks && after.conn_handle == ble.conn_handle
            &&& after.awaiting_confirm == ble.awaiting_confirm
            &&& after.advertising == ble.advertising && after.deferred == ble.deferred
            &&& !after.pairing_pending
            &&& mtu >= 247 ==> after.authenticated && after.connection_start is None && after.events
                == ble.events.push(BleNote::Connected { peer_addr: peer, mtu })
            &&& mtu < 247 ==> after.authenticated == ble.authenticated && after.events == ble.events
                && after.connection_start == ble.connection_start
        }),
{
}

/// A decision of the operator authenticates exactly where it accepts a pending
/// pairing; an accepted one stops the clock, a rejected one forgets the
/// pairing, and neither touches the connection or its chunks.
pub proof fn law_operator_decides_once(ble: BleView, accept: bool, again: bool)
    ensures
        ({
            let after = ble.after_decision(accept);
            &&& !ble.pairing_pending ==> after == ble
            &&& ble.pairing_pending && accept ==> after.authenticated
                && after.connection_start is None
            &&& ble.pairing_pending && !accept ==> after.authenticated == ble.authenticated
                && after.connection_start == ble.connection_start && after.events == ble.events
            &&& ble.pairing_pending ==> after.deferred is None && !after.pairing_pending
            &&& after.conn_handle == ble.conn_handle && after.mtu == ble.mtu
            &&& after.chunks == ble.chunks && after.advertising == ble.advertising
            &&& after.awaiting_confirm == ble.awaiting_confirm
            &&& ble.deferred is None ==> after.events == ble.events
            &&& after.after_decision(again) == after
        }),
{
}

/// A client is timed out exactly where it is connected and not authenticated,
/// and thirty seconds have passed since it connected; the connection itself
/// stays until the client is gone.
pub proof fn law_timeout_needs_thirty_seconds(ble: BleView, now_ns: u64)
    ensures
        ble.timed_out(now_ns) <==> ble.conn_handle is Some && !ble.authenticated && (
        ble.connection_start matches Some(start) && now_ns - start >= 30_000_000_000),
        !ble.timed_out(now_ns) ==> ble.after_timeout_check(now_ns) == ble,
        ({
            let after = ble.after_timeout_check(now_ns);
            &&& after.conn_handle == ble.conn_handle && after.mtu == ble.mtu
            &&& after.authenticated == ble.authenticated && after.chunks == ble.chunks
            &&& after.advertising == ble.advertising && after.events == ble.events
            &&& after.awaiting_confirm == ble.awaiting_confirm
        }),
{
}

/// At boot nothing is advertised, connected or queued.
pub proof fn law_ble_starts_off()
    ensures
        !ble_off().advertising && !ble_off().authenticated && !ble_off().pairing_pending,
        !ble_off().awaiting_confirm && ble_off().conn_handle is None && ble_off().mtu == 0,
        ble_off().events.len() == 0 && ble_off().chunks.len() == 0 && ble_off().deferred is None,
        ble_off().connection_start is None,
{
}

/// The reasons for a phone's leaving are those of the BLE standard, and a phone
/// needs an MTU of 247.
pub proof fn law_ble_codes()
    ensures
        REASON_LOCAL == 0x16,
        REASON_REMOTE == 0x13,
        BLE_MTU_MIN == 247,
{
}

/// What a client that has paired is announced with, and what it writes, is
/// queued as any event is: dropped only where 32 wait.
pub proof fn law_full_queue_drops_events(ble: BleView, peer: Seq<u8>, mtu: u16, data: Seq<u8>)
    requires
        ble.events.len() >= 32,
    ensures
        !ble.pairing_pending ==> ble.after_pairing(peer, mtu).events == ble.events,
        !ble.pairing_pending && ble.mtu_after(mtu) >= 247 ==> ble.after_pairing(
            peer,
            mtu,
        ).authenticated,
        ble.after_write(data) == ble,
{
}

} // verus!
