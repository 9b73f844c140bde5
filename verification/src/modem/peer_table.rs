//! Peer table with auto-registration and LRU eviction.
//!
//! The radio supports about twenty peers.  A peer is added on the first send
//! to it, and the least recently used one makes room when the table is full.

use vstd::prelude::*;

use crate::bytes::same_mac;

verus! {

/// Capacity of the peer table.
pub const MAX_PEERS: usize = 20;

/// A registered peer and the tick of its last use.
#[derive(Clone, Copy)]
pub struct PeerEntry {
    pub mac: [u8; 6],
    pub last_used: u32,
}

/// A table entry as mathematical values.
pub ghost struct Peer {
    pub mac: Seq<u8>,
    pub last_used: u32,
}

impl View for PeerEntry {
    type V = Peer;

    open spec fn view(&self) -> Peer {
        Peer { mac: self.mac@, last_used: self.last_used }
    }
}

/// The table's contents: the peers in the order of their slots, and the tick
/// of the latest use.
pub ghost struct TableView {
    pub peers: Seq<Peer>,
    pub tick: u32,
}

/// Whether some peer of `peers` has the address `mac`.
pub open spec fn has_mac(peers: Seq<Peer>, mac: Seq<u8>) -> bool {
    exists|i: int| 0 <= i < peers.len() && (#[trigger] peers[i]).mac == mac
}

/// The slot that holds the address `mac`.
pub open spec fn slot_of(peers: Seq<Peer>, mac: Seq<u8>) -> int {
    choose|i: int| 0 <= i < peers.len() && (#[trigger] peers[i]).mac == mac
}

/// `i` is the least recently used slot: no slot has an older last use, and
/// none before it an equally old one.
pub open spec fn is_lru(peers: Seq<Peer>, i: int) -> bool {
    &&& 0 <= i < peers.len()
    &&& forall|j: int| 0 <= j < peers.len() ==> peers[i].last_used <= (#[trigger] peers[j]).last_used
    &&& forall|j: int| 0 <= j < i ==> peers[i].last_used < (#[trigger] peers[j]).last_used
}

/// The least recently used slot.
pub open spec fn lru_slot(peers: Seq<Peer>) -> int {
    choose|i: int| is_lru(peers, i)
}

/// No address occurs twice.
pub open spec fn distinct_macs(peers: Seq<Peer>) -> bool {
    forall|i: int, j: int|
        0 <= i < j < peers.len() ==> (#[trigger] peers[i]).mac != (#[trigger] peers[j]).mac
}

/// The tick that follows `tick`, wrapping around after the largest `u32`.
pub open spec fn next_tick(tick: u32) -> u32 {
    if tick == u32::MAX {
        0
    } else {
        (tick + 1) as u32
    }
}

impl TableView {
    /// The invariant of every peer table.
    pub open spec fn wf(self) -> bool {
        &&& self.peers.len() <= MAX_PEERS
        &&& distinct_macs(self.peers)
        &&& forall|i: int| 0 <= i < self.peers.len() ==> (#[trigger] self.peers[i]).mac.len() == 6
    }

    /// The table after a use of `mac`.
    pub open spec fn after_use(self, mac: Seq<u8>) -> TableView {
        let tick = next_tick(self.tick);
        let used = Peer { mac, last_used: tick };
        TableView {
            tick,
            peers: if has_mac(self.peers, mac) {
                self.peers.update(slot_of(self.peers, mac), used)
            } else if self.peers.len() >= MAX_PEERS {
                self.peers.update(lru_slot(self.peers), used)
            } else {
                self.peers.push(used)
            },
        }
    }

    /// The address that a use of `mac` evicts, if any.
    pub open spec fn evicted_by(self, mac: Seq<u8>) -> Option<Seq<u8>> {
        if !has_mac(self.peers, mac) && self.peers.len() >= MAX_PEERS {
            Some(self.peers[lru_slot(self.peers)].mac)
        } else {
            None
        }
    }
}

/// Whether `macs` are the addresses of `peers`, in slot order.
pub open spec fn lists_macs(macs: Seq<[u8; 6]>, peers: Seq<Peer>) -> bool {
    &&& macs.len() == peers.len()
    &&& forall|i: int| 0 <= i < macs.len() ==> (#[trigger] macs[i])@ == peers[i].mac
}

/// Two slots with the properties of the least recently used one are the same.
proof fn lemma_lru_unique(peers: Seq<Peer>, i: int, j: int)
    requires
        is_lru(peers, i),
        is_lru(peers, j),
    ensures
        i == j,
{
    if i < j {
        assert(peers[j].last_used < peers[i].last_used);
    } else if j < i {
        assert(peers[i].last_used < peers[j].last_used);
    }
}

/// In a table without duplicates an address has one slot.
proof fn lemma_slot_unique(peers: Seq<Peer>, mac: Seq<u8>, i: int)
    requires
        distinct_macs(peers),
        0 <= i < peers.len(),
        peers[i].mac == mac,
    ensures
        has_mac(peers, mac),
        slot_of(peers, mac) == i,
{
    let s = slot_of(peers, mac);
    assert(0 <= s < peers.len() && peers[s].mac == mac);
    if s < i {
        assert(peers[s].mac != peers[i].mac);
    } else if i < s {
        assert(peers[i].mac != peers[s].mac);
    }
}

/// Fixed-capacity peer table with LRU eviction.
pub struct PeerTable {
    entries: Vec<PeerEntry>,
    tick: u32,
}

impl View for PeerTable {
    type V = TableView;

    closed spec fn view(&self) -> TableView {
        TableView { peers: self.entries@.map_values(|e: PeerEntry| e@), tick: self.tick }
    }
}

impl Default for PeerTable {
    fn default() -> (table: PeerTable)
        ensures
            table@ == (TableView { peers: Seq::empty(), tick: 0 }),
    {
        PeerTable::new()
    }
}

impl PeerTable {
    /// An empty table.
    pub fn new() -> (table: PeerTable)
        ensures
            table@ == (TableView { peers: Seq::empty(), tick: 0 }),
    {
        let table = PeerTable { entries: Vec::new(), tick: 0 };
        proof {
            assert(table@.peers =~= Seq::<Peer>::empty());
        }
        table
    }

    /// Ensure that `mac` is in the table and mark it as just used.
    ///
    /// A new peer takes a free slot, or, where none is left, that of the least
    /// recently used peer, whose address is then returned.
    pub fn ensure_peer(&mut self, mac: &[u8; 6]) -> (evicted: Option<[u8; 6]>)
        requires
            old(self)@.wf(),
        ensures
            final(self)@.wf(),
            final(self)@ == old(self)@.after_use(mac@),
            match evicted {
                Some(gone) => old(self)@.evicted_by(mac@) == Some(gone@),
                None => old(self)@.evicted_by(mac@) is None,
            },
    {
        let ghost before = self@;
        let tick: u32 = self.tick.wrapping_add(1);
        let used = PeerEntry { mac: *mac, last_used: tick };
        let mut i: usize = 0;
        while i < self.entries.len()
            invariant
                *self == *old(self),
                before == self@,
                before.wf(),
                tick == next_tick(self.tick),
                used@ == (Peer { mac: mac@, last_used: tick }),
                i <= self.entries.len(),
                forall|j: int| 0 <= j < i ==> (#[trigger] before.peers[j]).mac != mac@,
            decreases self.entries.len() - i,
        {
            let entry = self.entries[i];
            assert(before.peers[i as int] == entry@);
            if same_mac(&entry.mac, mac) {
                proof {
                    lemma_slot_unique(before.peers, mac@, i as int);
                    lemma_used_keeps_wf(before, mac@);
                    let after = self.entries@.update(i as int, used);
                    assert(after.map_values(|e: PeerEntry| e@) =~= before.peers.update(
                        i as int,
                        used@,
                    ));
                }
                self.entries.set(i, used);
                self.tick = tick;
                return None;
            }
            i = i + 1;
        }
        assert(!has_mac(before.peers, mac@));
        proof {
            lemma_used_keeps_wf(before, mac@);
        }
        if self.entries.len() >= MAX_PEERS {
            let lru = self.lru_index();
            let evicted = self.entries[lru].mac;
            proof {
                let after = self.entries@.update(lru as int, used);
                assert(after.map_values(|e: PeerEntry| e@) =~= before.peers.update(
                    lru as int,
                    used@,
                ));
            }
            self.entries.set(lru, used);
            self.tick = tick;
            Some(evicted)
        } else {
            proof {
                let after = self.entries@.push(used);
                assert(after.map_values(|e: PeerEntry| e@) =~= before.peers.push(used@));
            }
            self.entries.push(used);
            self.tick = tick;
            None
        }
    }

    /// The least recently used slot of a table that is not empty.
    fn lru_index(&self) -> (lru: usize)
        requires
            self@.peers.len() > 0,
        ensures
            lru as int == lru_slot(self@.peers),
            lru < self.entries.len(),
    {
        let ghost peers = self@.peers;
        let mut lru: usize = 0;
        let mut i: usize = 1;
        while i < self.entries.len()
            invariant
                peers == self@.peers,
                peers.len() == self.entries.len(),
                lru < i <= self.entries.len(),
                forall|j: int|
                    0 <= j < i ==> peers[lru as int].last_used <= (#[trigger] peers[j]).last_used,
                forall|j: int|
                    0 <= j < lru ==> peers[lru as int].last_used < (#[trigger] peers[j]).last_used,
            decreases self.entries.len() - i,
        {
            assert(peers[i as int] == self.entries@[i as int]@);
            assert(peers[lru as int] == self.entries@[lru as int]@);
            if self.entries[i].last_used < self.entries[lru].last_used {
                lru = i;
            }
            i = i + 1;
        }
        proof {
            assert(is_lru(peers, lru as int));
            lemma_lru_unique(peers, lru as int, lru_slot(peers));
        }
        lru
    }

    /// Remove all peers.
    pub fn clear(&mut self)
        ensures
            final(self)@ == (TableView { peers: Seq::empty(), tick: 0 }),
    {
        *self = PeerTable::new();
    }

    /// Number of peers in the table.
    pub fn len(&self) -> (len: usize)
        ensures
            len == self@.peers.len(),
    {
        self.entries.len()
    }

    /// Whether the table holds no peer.
    pub fn is_empty(&self) -> (empty: bool)
        ensures
            empty == (self@.peers.len() == 0),
    {
        self.entries.len() == 0
    }

    /// Whether `mac` is in the table.
    pub fn contains(&self, mac: &[u8; 6]) -> (found: bool)
        ensures
            found == has_mac(self@.peers, mac@),
    {
        let ghost peers = self@.peers;
        let mut i: usize = 0;
        while i < self.entries.len()
            invariant
                peers == self@.peers,
                i <= self.entries.len(),
                forall|j: int| 0 <= j < i ==> (#[trigger] peers[j]).mac != mac@,
            decreases self.entries.len() - i,
        {
            assert(peers[i as int] == self.entries@[i as int]@);
            if same_mac(&self.entries[i].mac, mac) {
                return true;
            }
            i = i + 1;
        }
        false
    }

    /// All addresses in the table, in slot order.
    pub fn all_macs(&self) -> (macs: Vec<[u8; 6]>)
        ensures
            lists_macs(macs@, self@.peers),
    {
        let ghost peers = self@.peers;
        let mut macs: Vec<[u8; 6]> = Vec::new();
        let mut i: usize = 0;
        while i < self.entries.len()
            invariant
                peers == self@.peers,
                peers.len() == self.entries.len(),
                i <= self.entries.len(),
                macs.len() == i,
                forall|j: int| 0 <= j < i ==> (#[trigger] macs@[j])@ == peers[j].mac,
            decreases self.entries.len() - i,
        {
            assert(peers[i as int] == self.entries@[i as int]@);
            macs.push(self.entries[i].mac);
            i = i + 1;
        }
        macs
    }
}

/// A use keeps the table's invariant.
proof fn lemma_used_keeps_wf(table: TableView, mac: Seq<u8>)
    requires
        table.wf(),
        mac.len() == 6,
    ensures
        table.after_use(mac).wf(),
        has_mac(table.peers, mac) ==> 0 <= slot_of(table.peers, mac) < table.peers.len(),
        table.peers.len() > 0 ==> is_lru(table.peers, lru_slot(table.peers)),
{
    let peers = table.peers;
    if peers.len() > 0 {
        lemma_lru_exists(peers);
    }
    let after = table.after_use(mac).peers;
    if has_mac(peers, mac) {
        let s = slot_of(peers, mac);
        assert(0 <= s < peers.len() && peers[s].mac == mac);
        assert forall|i: int, j: int| 0 <= i < j < after.len() implies (#[trigger] after[i]).mac
            != (#[trigger] after[j]).mac by {
            assert(after[i].mac == peers[i].mac);
            assert(after[j].mac == peers[j].mac);
        }
    }
}

/// A table that is not empty has a least recently used slot.
proof fn lemma_lru_exists(peers: Seq<Peer>)
    requires
        peers.len() > 0,
    ensures
        exists|i: int| is_lru(peers, i),
    decreases peers.len(),
{
    if peers.len() == 1 {
        assert(is_lru(peers, 0));
    } else {
        let rest = peers.drop_last();
        lemma_lru_exists(rest);
        let i = choose|i: int| is_lru(rest, i);
        let last = peers.len() - 1;
        assert(forall|j: int| 0 <= j < rest.len() ==> rest[j] == #[trigger] peers[j]);
        if peers[last].last_used < peers[i].last_used {
            assert(is_lru(peers, last));
        } else {
            assert(is_lru(peers, i));
        }
    }
}

/// After a use, the peer is in the table, with the newest tick, and the table
/// keeps its invariant.
pub proof fn law_used_peer_is_present(table: TableView, mac: Seq<u8>)
    requires
        table.wf(),
        mac.len() == 6,
    ensures
        table.after_use(mac).wf(),
        has_mac(table.after_use(mac).peers, mac),
        table.after_use(mac).peers[slot_of(table.after_use(mac).peers, mac)].last_used
            == next_tick(table.tick),
{
    lemma_used_keeps_wf(table, mac);
    let after = table.after_use(mac).peers;
    let i = if has_mac(table.peers, mac) {
        slot_of(table.peers, mac)
    } else if table.peers.len() >= MAX_PEERS {
        lru_slot(table.peers)
    } else {
        table.peers.len() as int
    };
    assert(after[i].mac == mac);
    lemma_slot_unique(after, mac, i);
}

/// An evicted peer was in the table, is gone from it, and had the oldest last
/// use of all.
pub proof fn law_evicted_peer_was_lru(table: TableView, mac: Seq<u8>)
    requires
        table.wf(),
        mac.len() == 6,
        table.evicted_by(mac) is Some,
    ensures
        has_mac(table.peers, table.evicted_by(mac)->0),
        !has_mac(table.after_use(mac).peers, table.evicted_by(mac)->0),
        table.after_use(mac).peers.len() == table.peers.len(),
        forall|i: int|
            0 <= i < table.peers.len() ==> table.peers[slot_of(
                table.peers,
                table.evicted_by(mac)->0,
            )].last_used <= (#[trigger] table.peers[i]).last_used,
{
    lemma_used_keeps_wf(table, mac);
    let peers = table.peers;
    let lru = lru_slot(peers);
    let gone = peers[lru].mac;
    lemma_slot_unique(peers, gone, lru);
    let after = table.after_use(mac).peers;
    assert forall|i: int| 0 <= i < after.len() implies (#[trigger] after[i]).mac != gone by {
        if i == lru {
            assert(peers[lru].mac != mac);
        } else if i < lru {
            assert(peers[i].mac != peers[lru].mac);
        } else {
            assert(peers[lru].mac != peers[i].mac);
        }
    }
}

/// A use touches no other peer: every peer besides the used and the evicted
/// one stays as it was.
pub proof fn law_other_peers_stay(table: TableView, mac: Seq<u8>, i: int)
    requires
        table.wf(),
        mac.len() == 6,
        0 <= i < table.peers.len(),
        table.peers[i].mac != mac,
        table.evicted_by(mac) != Some(table.peers[i].mac),
    ensures
        table.after_use(mac).peers[i] == table.peers[i],
{
    lemma_used_keeps_wf(table, mac);
}

/// The table after the uses of `uses`, one after the other, from an empty
/// table.
pub open spec fn after_uses(uses: Seq<Seq<u8>>) -> TableView
    decreases uses.len(),
{
    if uses.len() == 0 {
        TableView { peers: Seq::empty(), tick: 0 }
    } else {
        after_uses(uses.drop_last()).after_use(uses.last())
    }
}

/// The place of the last use of `mac` among `uses`, counted from one; zero
/// where it was not used.
pub open spec fn last_use(uses: Seq<Seq<u8>>, mac: Seq<u8>) -> nat
    decreases uses.len(),
{
    if uses.len() == 0 {
        0
    } else if uses.last() == mac {
        uses.len()
    } else {
        last_use(uses.drop_last(), mac)
    }
}

/// Whether `uses` are uses of addresses.
pub open spec fn are_macs(uses: Seq<Seq<u8>>) -> bool {
    forall|i: int| 0 <= i < uses.len() ==> (#[trigger] uses[i]).len() == 6
}

/// Until the tick wraps around, each peer carries the place of its last use.
proof fn lemma_ticks_are_places(uses: Seq<Seq<u8>>)
    requires
        are_macs(uses),
        uses.len() <= u32::MAX,
    ensures
        after_uses(uses).wf(),
        after_uses(uses).tick == uses.len(),
        forall|i: int|
            0 <= i < after_uses(uses).peers.len() ==> (#[trigger] after_uses(
                uses,
            ).peers[i]).last_used == last_use(uses, after_uses(uses).peers[i].mac),
    decreases uses.len(),
{
    if uses.len() > 0 {
        let before = uses.drop_last();
        let mac = uses.last();
        assert(forall|i: int| 0 <= i < before.len() ==> #[trigger] before[i] == uses[i]);
        lemma_ticks_are_places(before);
        let table = after_uses(before);
        lemma_used_keeps_wf(table, mac);
        let peers = after_uses(uses).peers;
        assert forall|i: int| 0 <= i < peers.len() implies (#[trigger] peers[i]).last_used
            == last_use(uses, peers[i].mac) by {
            if peers[i].mac != mac {
                assert(peers[i] == table.peers[i]);
            } else if has_mac(table.peers, mac) {
                lemma_slot_unique(peers, mac, i);
                lemma_slot_unique(peers, mac, slot_of(table.peers, mac));
            }
        }
    }
}

/// Until the tick wraps around, the peer that is evicted is the one whose last
/// use lies furthest back.
pub proof fn law_eviction_follows_last_use(uses: Seq<Seq<u8>>, mac: Seq<u8>, i: int)
    requires
        are_macs(uses),
        mac.len() == 6,
        uses.len() <= u32::MAX,
        after_uses(uses).evicted_by(mac) is Some,
        0 <= i < after_uses(uses).peers.len(),
        after_uses(uses).evicted_by(mac) != Some(after_uses(uses).peers[i].mac),
    ensures
        last_use(uses, after_uses(uses).evicted_by(mac)->0) < last_use(
            uses,
            after_uses(uses).peers[i].mac,
        ),
{
    lemma_ticks_are_places(uses);
    let table = after_uses(uses);
    let other = table.peers[i].mac;
    let gone = table.evicted_by(mac)->0;
    lemma_used_keeps_wf(table, mac);
    assert(gone == table.peers[lru_slot(table.peers)].mac);
    lemma_ticks_are_positive(uses, lru_slot(table.peers));
    lemma_places_are_distinct(uses, gone, other);
}

/// Two addresses that were used have their last uses in different places.
proof fn lemma_places_are_distinct(uses: Seq<Seq<u8>>, a: Seq<u8>, b: Seq<u8>)
    requires
        a != b,
        last_use(uses, a) > 0,
    ensures
        last_use(uses, a) != last_use(uses, b),
    decreases uses.len(),
{
    if uses.len() > 0 {
        lemma_last_use_is_a_place(uses.drop_last(), a);
        lemma_last_use_is_a_place(uses.drop_last(), b);
        if uses.last() != a && uses.last() != b {
            lemma_places_are_distinct(uses.drop_last(), a, b);
        }
    }
}

/// A last use is one of the uses.
proof fn lemma_last_use_is_a_place(uses: Seq<Seq<u8>>, mac: Seq<u8>)
    ensures
        last_use(uses, mac) <= uses.len(),
    decreases uses.len(),
{
    if uses.len() > 0 {
        lemma_last_use_is_a_place(uses.drop_last(), mac);
    }
}

/// A peer in the table was used.
proof fn lemma_ticks_are_positive(uses: Seq<Seq<u8>>, i: int)
    requires
        are_macs(uses),
        uses.len() <= u32::MAX,
        0 <= i < after_uses(uses).peers.len(),
    ensures
        last_use(uses, after_uses(uses).peers[i].mac) > 0,
    decreases uses.len(),
{
    let before = uses.drop_last();
    assert(forall|j: int| 0 <= j < before.len() ==> #[trigger] before[j] == uses[j]);
    lemma_ticks_are_places(before);
    lemma_used_keeps_wf(after_uses(before), uses.last());
    let mac = after_uses(uses).peers[i].mac;
    if mac != uses.last() {
        assert(after_uses(uses).peers[i] == after_uses(before).peers[i]);
        lemma_ticks_are_positive(before, i);
    }
}

/// A use evicts a peer exactly where the used one is new and twenty are
/// registered; a new peer is added where fewer are, and one that is registered
/// keeps its place.
pub proof fn law_only_full_tables_evict(table: TableView, mac: Seq<u8>)
    requires
        table.wf(),
        mac.len() == 6,
    ensures
        table.evicted_by(mac) is Some <==> !has_mac(table.peers, mac) && table.peers.len() == 20,
        !has_mac(table.peers, mac) && table.peers.len() < 20 ==> table.after_use(mac).peers.len()
            == table.peers.len() + 1 && table.after_use(mac).peers.last().mac == mac
            && table.after_use(mac).peers.drop_last() == table.peers,
        has_mac(table.peers, mac) ==> table.after_use(mac).peers.len() == table.peers.len(),
        table.after_use(mac).tick == next_tick(table.tick),
        table.tick < u32::MAX ==> next_tick(table.tick) == table.tick + 1,
        table.tick == u32::MAX ==> next_tick(table.tick) == 0,
        table.peers.len() <= 20,
{
    if !has_mac(table.peers, mac) && table.peers.len() < 20 {
        assert(table.after_use(mac).peers.drop_last() =~= table.peers);
    }
}

/// A peer that is used again and again is never evicted, and a use makes room
/// once: using the same peer twice evicts nothing the second time.
pub proof fn law_used_peer_is_not_evicted(table: TableView, mac: Seq<u8>)
    requires
        table.wf(),
        mac.len() == 6,
    ensures
        table.evicted_by(mac) != Some(mac),
        table.after_use(mac).evicted_by(mac) is None,
{
    law_used_peer_is_present(table, mac);
    if table.evicted_by(mac) is Some {
        law_evicted_peer_was_lru(table, mac);
    }
}

/// The addresses that are listed are those of all peers, one for each and in the
/// order of their slots.
pub proof fn law_all_peers_are_listed(macs: Seq<[u8; 6]>, peers: Seq<Peer>, mac: Seq<u8>)
    requires
        lists_macs(macs, peers),
    ensures
        macs.len() == peers.len(),
        has_mac(peers, mac) ==> exists|i: int| 0 <= i < macs.len() && (#[trigger] macs[i])@ == mac,
        forall|i: int| 0 <= i < macs.len() ==> has_mac(peers, (#[trigger] macs[i])@),
{
    if has_mac(peers, mac) {
        let i = choose|i: int| 0 <= i < peers.len() && (#[trigger] peers[i]).mac == mac;
        assert(macs[i]@ == mac);
    }
    assert forall|i: int| 0 <= i < macs.len() implies has_mac(peers, (#[trigger] macs[i])@) by {
        assert(peers[i].mac == macs[i]@);
    }
}

/// The least recently used slot is one that no other was used before.
pub proof fn law_lru_slot_is_oldest(peers: Seq<Peer>, i: int)
    requires
        0 <= i < peers.len(),
    ensures
        0 <= lru_slot(peers) < peers.len(),
        peers[lru_slot(peers)].last_used <= peers[i].last_used,
        i < lru_slot(peers) ==> peers[lru_slot(peers)].last_used < peers[i].last_used,
{
    lemma_lru_exists(peers);
}

} // verus!
