//! The maps of BPF programs, in memory that survives sleep.
//!
//! Every map is an array: its keys are the indices below `max_entries`, all of
//! them are always present, and their values are zero until they are updated.

use vstd::prelude::*;

use crate::node::error::{NodeError, NodeResult};

verus! {

/// Definition of a map.
#[derive(Clone, Copy, Debug, PartialEq, Eq, Structural)]
pub struct MapDef {
    pub map_type: u32,
    pub key_size: u32,
    pub value_size: u32,
    pub max_entries: u32,
}

impl MapDef {
    /// Bytes that the values of the map take.
    pub open spec fn bytes(self) -> nat {
        (self.value_size * self.max_entries) as nat
    }
}

/// Bytes that the values of all maps take.
pub open spec fn total_bytes(defs: Seq<MapDef>) -> nat
    decreases defs.len(),
{
    if defs.len() == 0 {
        0
    } else {
        total_bytes(defs.drop_last()) + defs.last().bytes()
    }
}

/// A longer list of maps takes at least as many bytes.
proof fn lemma_total_grows(defs: Seq<MapDef>, n: int)
    requires
        0 <= n <= defs.len(),
    ensures
        total_bytes(defs.take(n)) <= total_bytes(defs),
    decreases defs.len() - n,
{
    if n == defs.len() {
        assert(defs.take(n) =~= defs);
    } else {
        lemma_total_grows(defs, n + 1);
        assert(defs.take(n + 1).drop_last() =~= defs.take(n));
    }
}

/// The value for `key` lies within the map's data.
pub proof fn lemma_value_in_bounds(value_size: nat, max_entries: nat, key: nat)
    requires
        key < max_entries,
    ensures
        key * value_size + value_size <= value_size * max_entries,
{
    assert(key * value_size + value_size <= value_size * max_entries) by (nonlinear_arith)
        requires
            key + 1 <= max_entries,
    ;
}

/// A map and its values, one after the other.
pub struct BpfMap {
    def: MapDef,
    data: Vec<u8>,
}

/// A map as mathematical values.
pub ghost struct MapContents {
    pub def: MapDef,
    pub data: Seq<u8>,
}

impl MapContents {
    /// The data holds exactly the values.
    pub open spec fn wf(self) -> bool {
        self.data.len() == self.def.bytes()
    }

    /// The value for `key`.
    pub open spec fn value(self, key: u32) -> Seq<u8> {
        self.data.subrange(
            key * self.def.value_size,
            key * self.def.value_size + self.def.value_size,
        )
    }

    /// The map with `value` stored for `key`.
    pub open spec fn updated(self, key: u32, value: Seq<u8>) -> MapContents {
        MapContents {
            data: Seq::new(
                self.data.len(),
                |i: int|
                    if key * self.def.value_size <= i < key * self.def.value_size
                        + self.def.value_size {
                        value[i - key * self.def.value_size]
                    } else {
                        self.data[i]
                    },
            ),
            ..self
        }
    }

    /// The map with all values zero.
    pub open spec fn zeroed(self) -> MapContents {
        MapContents { data: Seq::new(self.data.len(), |i: int| 0u8), ..self }
    }
}

impl View for BpfMap {
    type V = MapContents;

    closed spec fn view(&self) -> MapContents {
        MapContents { def: self.def, data: self.data@ }
    }
}

/// Bytes of zeros.
fn zeros(len: usize) -> (data: Vec<u8>)
    ensures
        data@ == Seq::new(len as nat, |i: int| 0u8),
{
    let mut data: Vec<u8> = Vec::new();
    let mut i: usize = 0;
    while i < len
        invariant
            i <= len,
            data@ == Seq::new(i as nat, |j: int| 0u8),
        decreases len - i,
    {
        data.push(0);
        assert(data@ =~= Seq::new((i + 1) as nat, |j: int| 0u8));
        i = i + 1;
    }
    data
}

impl BpfMap {
    /// The map's definition.
    pub fn def(&self) -> (def: MapDef)
        ensures
            def == self@.def,
    {
        self.def
    }

    /// The value for `key`; `None` where the key is out of bounds.
    pub fn lookup(&self, key: u32) -> (value: Option<&[u8]>)
        requires
            self@.wf(),
        ensures
            match value {
                Some(v) => key < self@.def.max_entries && v@ == self@.value(key),
                None => key >= self@.def.max_entries,
            },
    {
        if key >= self.def.max_entries {
            return None;
        }
        proof {
            lemma_value_in_bounds(
                self.def.value_size as nat,
                self.def.max_entries as nat,
                key as nat,
            );
        }
        assert(self.data.len() == self@.data.len());
        let size: usize = self.def.value_size as usize;
        let start: usize = (key as usize) * size;
        Some(vstd::slice::slice_subrange(self.data.as_slice(), start, start + size))
    }

    /// Store a value for `key`.
    pub fn update(&mut self, key: u32, value: &[u8]) -> (result: NodeResult<()>)
        requires
            old(self)@.wf(),
            value@.len() == old(self)@.def.value_size,
        ensures
            final(self)@.wf(),
            final(self)@.def == old(self)@.def,
            match result {
                Ok(_) => key < old(self)@.def.max_entries && final(self)@ == old(self)@.updated(
                    key,
                    value@,
                ),
                Err(error) => {
                    &&& key >= old(self)@.def.max_entries
                    &&& final(self)@ == old(self)@
                    &&& error == (NodeError::MapKeyOutOfBounds {
                        key,
                        max_entries: old(self)@.def.max_entries,
                    })
                },
            },
    {
        if key >= self.def.max_entries {
            return Err(NodeError::MapKeyOutOfBounds { key, max_entries: self.def.max_entries });
        }
        proof {
            lemma_value_in_bounds(
                self.def.value_size as nat,
                self.def.max_entries as nat,
                key as nat,
            );
        }
        assert(self.data.len() == self@.data.len());
        let size: usize = self.def.value_size as usize;
        let start: usize = (key as usize) * size;
        let ghost before = self@;
        let mut i: usize = 0;
        while i < size
            invariant
                i <= size,
                size == before.def.value_size,
                start == key * before.def.value_size,
                start + size <= before.data.len(),
                before.data.len() <= usize::MAX,
                value@.len() == size,
                self@.def == before.def,
                self@.data.len() == before.data.len(),
                self.data@ == self@.data,
                forall|j: int|
                    0 <= j < before.data.len() ==> #[trigger] self@.data[j] == (if start <= j
                        < start + i {
                        value@[j - start]
                    } else {
                        before.data[j]
                    }),
            decreases size - i,
        {
            self.data.set(start + i, value[i]);
            i = i + 1;
        }
        assert(self@.data =~= before.updated(key, value@).data);
        Ok(())
    }

    /// Set all values to zero.
    fn clear(&mut self)
        requires
            old(self)@.wf(),
        ensures
            final(self)@ == old(self)@.zeroed(),
    {
        let len = self.data.len();
        self.data = zeros(len);
    }
}

/// All maps of the resident program.
pub struct MapStorage {
    maps: Vec<BpfMap>,
    budget: usize,
}

/// Map storage as mathematical values.
pub ghost struct MapsView {
    pub maps: Seq<MapContents>,
    pub budget: usize,
}

impl View for MapStorage {
    type V = MapsView;

    closed spec fn view(&self) -> MapsView {
        MapsView { maps: self.maps@.map_values(|m: BpfMap| m@), budget: self.budget }
    }
}

impl MapsView {
    /// Every map's data holds exactly its values.
    pub open spec fn wf(self) -> bool {
        forall|i: int| 0 <= i < self.maps.len() ==> (#[trigger] self.maps[i]).wf()
    }
}

/// The maps of `defs`, all values zero.
pub open spec fn fresh_maps(defs: Seq<MapDef>) -> Seq<MapContents> {
    defs.map_values(
        |def: MapDef| MapContents { def, data: Seq::new(def.bytes(), |i: int| 0u8) },
    )
}

impl MapStorage {
    /// Storage for at most `budget` bytes, without maps.
    pub fn new(budget: usize) -> (storage: MapStorage)
        ensures
            storage@ == (MapsView { maps: Seq::empty(), budget }),
            storage@.wf(),
    {
        let storage = MapStorage { maps: Vec::new(), budget };
        assert(storage@.maps =~= Seq::<MapContents>::empty());
        storage
    }

    /// Replace all maps by fresh ones.  Where they would take more bytes than
    /// there are, nothing changes.
    pub fn allocate(&mut self, defs: &[MapDef]) -> (result: NodeResult<()>)
        requires
            old(self)@.wf(),
        ensures
            final(self)@.wf(),
            match result {
                Ok(_) => {
                    &&& total_bytes(defs@) <= old(self)@.budget
                    &&& final(self)@ == (MapsView { maps: fresh_maps(defs@), ..old(self)@ })
                },
                Err(error) => {
                    &&& total_bytes(defs@) > old(self)@.budget
                    &&& final(self)@ == old(self)@
                    &&& error == (NodeError::MapBudgetExceeded {
                        required: if total_bytes(defs@) > usize::MAX {
                            usize::MAX
                        } else {
                            total_bytes(defs@) as usize
                        },
                        available: old(self)@.budget,
                    })
                },
            },
    {
        let required = required_bytes(defs);
        if let Some(bytes) = required {
            if bytes <= self.budget {
                self.maps = make_maps(defs);
                assert(self@.maps =~= fresh_maps(defs@));
                return Ok(());
            }
        }
        let required: usize = match required {
            Some(bytes) => bytes,
            None => usize::MAX,
        };
        Err(NodeError::MapBudgetExceeded { required, available: self.budget })
    }

    /// Number of maps.
    pub fn len(&self) -> (len: usize)
        ensures
            len == self@.maps.len(),
    {
        self.maps.len()
    }

    /// Map number `index`.
    pub fn get(&self, index: usize) -> (map: Option<&BpfMap>)
        ensures
            match map {
                Some(m) => index < self@.maps.len() && m@ == self@.maps[index as int],
                None => index >= self@.maps.len(),
            },
    {
        if index < self.maps.len() {
            assert(self@.maps[index as int] == self.maps@[index as int]@);
            Some(&self.maps[index])
        } else {
            None
        }
    }

    /// Store a value in map number `index`.
    pub fn update(&mut self, index: usize, key: u32, value: &[u8]) -> (result: NodeResult<()>)
        requires
            old(self)@.wf(),
            index < old(self)@.maps.len(),
            value@.len() == old(self)@.maps[index as int].def.value_size,
        ensures
            final(self)@.wf(),
            final(self)@.budget == old(self)@.budget,
            match result {
                Ok(_) => {
                    &&& key < old(self)@.maps[index as int].def.max_entries
                    &&& final(self)@.maps == old(self)@.maps.update(
                        index as int,
                        old(self)@.maps[index as int].updated(key, value@),
                    )
                },
                Err(error) => {
                    &&& key >= old(self)@.maps[index as int].def.max_entries
                    &&& final(self)@ == old(self)@
                    &&& error == (NodeError::MapKeyOutOfBounds {
                        key,
                        max_entries: old(self)@.maps[index as int].def.max_entries,
                    })
                },
            },
    {
        let ghost before = self@;
        assert(before.maps[index as int] == self.maps@[index as int]@);
        let result = self.maps[index].update(key, value);
        proof {
            if result is Ok {
                assert(self@.maps =~= before.maps.update(
                    index as int,
                    before.maps[index as int].updated(key, value@),
                ));
            } else {
                assert(self@.maps =~= before.maps);
            }
        }
        result
    }

    /// Set all values of all maps to zero.
    pub fn clear_all(&mut self)
        requires
            old(self)@.wf(),
        ensures
            final(self)@.wf(),
            final(self)@ == (MapsView {
                maps: old(self)@.maps.map_values(|m: MapContents| m.zeroed()),
                ..old(self)@
            }),
    {
        let ghost before = self@;
        let mut i: usize = 0;
        while i < self.maps.len()
            invariant
                i <= self.maps.len(),
                before.wf(),
                self@.budget == before.budget,
                self@.maps.len() == before.maps.len(),
                self.maps@.len() == self@.maps.len(),
                forall|j: int|
                    0 <= j < before.maps.len() ==> #[trigger] self@.maps[j] == (if j < i {
                        before.maps[j].zeroed()
                    } else {
                        before.maps[j]
                    }),
            decreases self.maps.len() - i,
        {
            let ghost here = self@;
            assert(here.maps[i as int] == self.maps@[i as int]@);
            self.maps[i].clear();
            assert(self@.maps =~= here.maps.update(i as int, here.maps[i as int].zeroed()));
            i = i + 1;
        }
        assert(self@.maps =~= before.maps.map_values(|m: MapContents| m.zeroed()));
    }
}

/// Bytes that the maps take; `None` where that number is not representable.
fn required_bytes(defs: &[MapDef]) -> (required: Option<usize>)
    ensures
        match required {
            Some(bytes) => bytes as nat == total_bytes(defs@),
            None => total_bytes(defs@) > usize::MAX,
        },
{
    let mut total: usize = 0;
    let mut i: usize = 0;
    assert(defs@.take(0) =~= Seq::<MapDef>::empty());
    while i < defs.len()
        invariant
            i <= defs.len(),
            total as nat == total_bytes(defs@.take(i as int)),
        decreases defs.len() - i,
    {
        let def = defs[i];
        proof {
            assert(defs@.take(i + 1).drop_last() =~= defs@.take(i as int));
            assert(defs@.take(i + 1).last() == def);
            lemma_total_grows(defs@, i + 1);
        }
        let bytes = match (def.value_size as usize).checked_mul(def.max_entries as usize) {
            Some(bytes) => bytes,
            None => {
                return None;
            },
        };
        total = match total.checked_add(bytes) {
            Some(sum) => sum,
            None => {
                return None;
            },
        };
        i = i + 1;
    }
    assert(defs@.take(i as int) =~= defs@);
    Some(total)
}

/// Fresh maps.
fn make_maps(defs: &[MapDef]) -> (maps: Vec<BpfMap>)
    requires
        total_bytes(defs@) <= usize::MAX,
    ensures
        maps@.map_values(|m: BpfMap| m@) == fresh_maps(defs@),
{
    let mut maps: Vec<BpfMap> = Vec::new();
    let mut i: usize = 0;
    while i < defs.len()
        invariant
            i <= defs.len(),
            total_bytes(defs@) <= usize::MAX,
            maps@.map_values(|m: BpfMap| m@) == fresh_maps(defs@.take(i as int)),
        decreases defs.len() - i,
    {
        let def = defs[i];
        proof {
            assert(defs@.take(i + 1).drop_last() =~= defs@.take(i as int));
            assert(defs@.take(i + 1).last() == def);
            lemma_total_grows(defs@, i + 1);
        }
        let len: usize = (def.value_size as usize) * (def.max_entries as usize);
        let ghost before = maps@;
        maps.push(BpfMap { def, data: zeros(len) });
        proof {
            let m = maps@.last();
            assert(m@.data =~= Seq::new(def.bytes(), |j: int| 0u8));
            assert(maps@.map_values(|m: BpfMap| m@) =~= before.map_values(|m: BpfMap| m@).push(m@));
            assert(fresh_maps(defs@.take(i + 1)) =~= fresh_maps(defs@.take(i as int)).push(m@));
        }
        i = i + 1;
    }
    assert(defs@.take(i as int) =~= defs@);
    maps
}

/// A value that was stored is read back, and the values of other keys stay.
pub proof fn law_update_then_lookup(map: MapContents, key: u32, value: Seq<u8>, other: u32)
    requires
        map.wf(),
        key < map.def.max_entries,
        other < map.def.max_entries,
        value.len() == map.def.value_size,
    ensures
        map.updated(key, value).wf(),
        map.updated(key, value).value(key) == value,
        other != key ==> map.updated(key, value).value(other) == map.value(other),
{
    let vs = map.def.value_size as nat;
    lemma_value_in_bounds(vs, map.def.max_entries as nat, key as nat);
    lemma_value_in_bounds(vs, map.def.max_entries as nat, other as nat);
    let after = map.updated(key, value);
    assert(after.value(key) =~= value);
    if other != key {
        assert(other < key ==> other * vs + vs <= key * vs) by (nonlinear_arith)
            requires
                other < key ==> other + 1 <= key,
        ;
        assert(key < other ==> key * vs + vs <= other * vs) by (nonlinear_arith)
            requires
                key < other ==> key + 1 <= other,
        ;
        assert(after.value(other) =~= map.value(other));
    }
}

/// Right after allocation and after clearing, every value is zero.
pub proof fn law_fresh_values_are_zero(map: MapContents, key: u32)
    requires
        map.wf(),
        key < map.def.max_entries,
    ensures
        map.zeroed().value(key) == Seq::new(map.def.value_size as nat, |i: int| 0u8),
{
    lemma_value_in_bounds(map.def.value_size as nat, map.def.max_entries as nat, key as nat);
    assert(map.zeroed().value(key) =~= Seq::new(map.def.value_size as nat, |i: int| 0u8));
}

/// The bytes of several maps are those of each, one after the other; a map takes
/// as many bytes as its values have.
pub proof fn law_maps_take_the_bytes_of_their_values(defs: Seq<MapDef>, def: MapDef)
    ensures
        total_bytes(Seq::empty()) == 0,
        total_bytes(defs.push(def)) == total_bytes(defs) + def.value_size * def.max_entries,
        total_bytes(defs.push(def)) >= total_bytes(defs),
{
    assert(defs.push(def).drop_last() =~= defs);
    assert(def.value_size * def.max_entries >= 0) by (nonlinear_arith)
        requires
            def.value_size >= 0,
            def.max_entries >= 0,
    ;
}

/// Fresh maps are the maps that were asked for, in order, with room for exactly
/// their values and every byte zero.
pub proof fn law_fresh_maps_are_as_defined(defs: Seq<MapDef>, i: int, at: int)
    requires
        0 <= i < defs.len(),
    ensures
        fresh_maps(defs).len() == defs.len(),
        fresh_maps(defs)[i].def == defs[i],
        fresh_maps(defs)[i].data.len() == defs[i].value_size * defs[i].max_entries,
        fresh_maps(defs)[i].wf(),
        0 <= at < fresh_maps(defs)[i].data.len() ==> fresh_maps(defs)[i].data[at] == 0,
{
    assert(defs[i].value_size * defs[i].max_entries >= 0) by (nonlinear_arith)
        requires
            defs[i].value_size >= 0,
            defs[i].max_entries >= 0,
    ;
}

/// The values of a map lie one after the other: the value of a key begins where
/// that of the key before it ends.
pub proof fn law_values_lie_in_order(map: MapContents, key: u32, at: int)
    requires
        map.wf(),
        key < map.def.max_entries,
        0 <= at < map.def.value_size,
    ensures
        map.value(key).len() == map.def.value_size,
        map.value(key)[at] == map.data[key * map.def.value_size + at],
        map.zeroed().def == map.def,
        map.zeroed().data.len() == map.data.len(),
{
    lemma_value_in_bounds(map.def.value_size as nat, map.def.max_entries as nat, key as nat);
}

} // verus!
