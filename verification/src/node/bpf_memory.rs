//! The memory that a BPF program can access: its stack, its context and its
//! buffers, each a region of bytes at an address.

use vstd::prelude::*;

use crate::bytes::copy_range;

verus! {

/// A region of memory.
#[derive(Debug, PartialEq, Eq)]
pub struct MemRegion {
    pub base: u64,
    pub data: Vec<u8>,
}

/// A region as mathematical values.
pub ghost struct Region {
    pub base: u64,
    pub data: Seq<u8>,
}

impl View for MemRegion {
    type V = Region;

    open spec fn view(&self) -> Region {
        Region { base: self.base, data: self.data@ }
    }
}

impl Region {
    /// Whether `len` bytes from `ptr` on lie within the region.
    pub open spec fn contains(self, ptr: u64, len: nat) -> bool {
        self.base <= ptr && ptr + len <= self.base + self.data.len()
    }
}

/// Number of the first region that holds `len` bytes from `ptr` on, if there
/// is one at or after `from`.
pub open spec fn find_region(regions: Seq<Region>, ptr: u64, len: nat, from: int) -> Option<int>
    decreases regions.len() - from,
{
    if from < 0 || from >= regions.len() {
        None
    } else if regions[from].contains(ptr, len) {
        Some(from)
    } else {
        find_region(regions, ptr, len, from + 1)
    }
}

/// The `len` bytes from `ptr` on, where they are accessible.
pub open spec fn bytes_at(regions: Seq<Region>, ptr: u64, len: nat) -> Option<Seq<u8>> {
    match find_region(regions, ptr, len, 0) {
        Some(i) => Some(
            regions[i].data.subrange(ptr - regions[i].base, ptr - regions[i].base + len),
        ),
        None => None,
    }
}

/// `data` with `bytes` in place of what is at `at`.
pub open spec fn overwritten(data: Seq<u8>, at: int, bytes: Seq<u8>) -> Seq<u8> {
    Seq::new(
        data.len(),
        |i: int|
            if at <= i < at + bytes.len() {
                bytes[i - at]
            } else {
                data[i]
            },
    )
}

/// Memory after `bytes` were written at `ptr`, where that is accessible.
pub open spec fn with_bytes(regions: Seq<Region>, ptr: u64, bytes: Seq<u8>) -> Seq<Region> {
    match find_region(regions, ptr, bytes.len(), 0) {
        Some(i) => regions.update(
            i,
            Region {
                base: regions[i].base,
                data: overwritten(regions[i].data, ptr - regions[i].base, bytes),
            },
        ),
        None => regions,
    }
}

/// What is found is a region that holds the bytes.
proof fn lemma_found(regions: Seq<Region>, ptr: u64, len: nat, from: int)
    requires
        0 <= from,
    ensures
        find_region(regions, ptr, len, from) matches Some(i) ==> from <= i < regions.len()
            && regions[i].contains(ptr, len) && forall|j: int|
            from <= j < i ==> !(#[trigger] regions[j]).contains(ptr, len),
        find_region(regions, ptr, len, from) is None ==> forall|j: int|
            from <= j < regions.len() ==> !(#[trigger] regions[j]).contains(ptr, len),
    decreases regions.len() - from,
{
    if from < regions.len() && !regions[from].contains(ptr, len) {
        lemma_found(regions, ptr, len, from + 1);
    }
}

/// As many bytes are found as were asked for.
pub proof fn lemma_bytes_len(regions: Seq<Region>, ptr: u64, len: nat)
    ensures
        bytes_at(regions, ptr, len) matches Some(bytes) ==> bytes.len() == len,
{
    lemma_found(regions, ptr, len, 0);
}

/// The memory of a BPF program.
#[derive(Debug, PartialEq, Eq)]
pub struct BpfMemory {
    pub regions: Vec<MemRegion>,
}

impl View for BpfMemory {
    type V = Seq<Region>;

    open spec fn view(&self) -> Seq<Region> {
        self.regions@.map_values(|r: MemRegion| r@)
    }
}

impl BpfMemory {
    /// Number of the first region that holds `len` bytes from `ptr` on.
    fn locate(&self, ptr: u64, len: usize) -> (found: Option<usize>)
        ensures
            match found {
                Some(i) => {
                    &&& find_region(self@, ptr, len as nat, 0) == Some(i as int)
                    &&& i < self.regions.len()
                    &&& self@[i as int].contains(ptr, len as nat)
                },
                None => find_region(self@, ptr, len as nat, 0) is None,
            },
    {
        let mut i: usize = 0;
        while i < self.regions.len()
            invariant
                i <= self.regions.len(),
                find_region(self@, ptr, len as nat, 0) == find_region(
                    self@,
                    ptr,
                    len as nat,
                    i as int,
                ),
            decreases self.regions.len() - i,
        {
            let base = self.regions[i].base;
            let size = self.regions[i].data.len();
            assert(self@[i as int] == self.regions@[i as int]@);
            if base <= ptr && len <= size && ptr - base <= (size - len) as u64 {
                return Some(i);
            }
            i = i + 1;
        }
        None
    }

    /// Read `len` bytes from `ptr` on; `None` where they are not accessible.
    pub fn read(&self, ptr: u64, len: usize) -> (bytes: Option<Vec<u8>>)
        ensures
            match bytes {
                Some(b) => bytes_at(self@, ptr, len as nat) == Some(b@) && b@.len() == len,
                None => bytes_at(self@, ptr, len as nat) is None,
            },
    {
        match self.locate(ptr, len) {
            Some(i) => {
                assert(self@[i as int] == self.regions@[i as int]@);
                assert(self.regions@[i as int].data.len() == self@[i as int].data.len());
                let start: usize = (ptr - self.regions[i].base) as usize;
                Some(copy_range(self.regions[i].data.as_slice(), start, start + len))
            },
            None => None,
        }
    }

    /// Write bytes at `ptr`; returns whether they are accessible.
    pub fn write(&mut self, ptr: u64, bytes: &[u8]) -> (ok: bool)
        ensures
            ok == bytes_at(old(self)@, ptr, bytes@.len()) is Some,
            final(self)@ == with_bytes(old(self)@, ptr, bytes@),
    {
        match self.locate(ptr, bytes.len()) {
            Some(i) => {
                let ghost before = self@;
                assert(before[i as int] == self.regions@[i as int]@);
                let base = self.regions[i].base;
                let start: usize = (ptr - base) as usize;
                let size = self.regions[i].data.len();
                let mut data: Vec<u8> = copy_range(self.regions[i].data.as_slice(), 0, size);
                assert(data@ =~= before[i as int].data);
                let mut k: usize = 0;
                while k < bytes.len()
                    invariant
                        k <= bytes.len(),
                        start + bytes.len() <= data@.len(),
                        data@.len() == before[i as int].data.len(),
                        data@.len() <= usize::MAX,
                        forall|j: int|
                            0 <= j < data@.len() ==> #[trigger] data@[j] == (if start <= j < start
                                + k {
                                bytes@[j - start]
                            } else {
                                before[i as int].data[j]
                            }),
                    decreases bytes.len() - k,
                {
                    data.set(start + k, bytes[k]);
                    k = k + 1;
                }
                assert(data@ =~= overwritten(before[i as int].data, start as int, bytes@));
                self.regions.set(i, MemRegion { base, data });
                assert(self@ =~= with_bytes(before, ptr, bytes@));
                true
            },
            None => false,
        }
    }
}

/// Bytes that were written are read back.
pub proof fn law_written_bytes_are_read_back(regions: Seq<Region>, ptr: u64, bytes: Seq<u8>)
    requires
        bytes_at(regions, ptr, bytes.len()) is Some,
    ensures
        bytes_at(with_bytes(regions, ptr, bytes), ptr, bytes.len()) == Some(bytes),
{
    let len = bytes.len();
    let after = with_bytes(regions, ptr, bytes);
    lemma_found(regions, ptr, len, 0);
    lemma_found(after, ptr, len, 0);
    let i = find_region(regions, ptr, len, 0)->0;
    assert(forall|j: int|
        0 <= j < regions.len() ==> #[trigger] after[j].contains(ptr, len)
            == regions[j].contains(ptr, len));
    assert(after[i].contains(ptr, len));
    let k = find_region(after, ptr, len, 0);
    assert(k == Some(i)) by {
        match k {
            Some(n) => {
                if n < i {
                    assert(!regions[n].contains(ptr, len));
                } else if i < n {
                    assert(!after[i].contains(ptr, len));
                }
            },
            None => {
                assert(!after[i].contains(ptr, len));
            },
        }
    }
    let at = ptr - regions[i].base;
    assert(after[i].data.subrange(at, at + len) =~= bytes);
}

/// Bytes are accessible exactly where one region holds all of them, and they are
/// then what that region holds at their address.
pub proof fn law_accessible_bytes_lie_in_a_region(regions: Seq<Region>, ptr: u64, len: nat)
    ensures
        bytes_at(regions, ptr, len) is Some <==> exists|i: int|
            0 <= i < regions.len() && (#[trigger] regions[i]).base <= ptr && ptr + len
                <= regions[i].base + regions[i].data.len(),
        bytes_at(regions, ptr, len) matches Some(bytes) ==> exists|i: int|
            0 <= i < regions.len() && (#[trigger] regions[i]).base <= ptr && ptr + len
                <= regions[i].base + regions[i].data.len() && bytes.len() == len && forall|k: int|
                0 <= k < len ==> #[trigger] bytes[k] == regions[i].data[ptr - regions[i].base + k],
{
    lemma_found(regions, ptr, len, 0);
    match find_region(regions, ptr, len, 0) {
        Some(i) => {
            assert(regions[i].contains(ptr, len));
        },
        None => {
            assert forall|i: int| 0 <= i < regions.len() implies !((#[trigger] regions[i]).base
                <= ptr && ptr + len <= regions[i].base + regions[i].data.len()) by {
                assert(!regions[i].contains(ptr, len));
            }
        },
    }
}

/// A write changes nothing but the bytes at its address: every region keeps its
/// place and its size, and the bytes before and behind those written stay.
pub proof fn law_writes_change_only_their_bytes(
    regions: Seq<Region>,
    ptr: u64,
    bytes: Seq<u8>,
    i: int,
    k: int,
)
    requires
        0 <= i < regions.len(),
        0 <= k < regions[i].data.len(),
    ensures
        with_bytes(regions, ptr, bytes).len() == regions.len(),
        with_bytes(regions, ptr, bytes)[i].base == regions[i].base,
        with_bytes(regions, ptr, bytes)[i].data.len() == regions[i].data.len(),
        regions[i].base + k < ptr || regions[i].base + k >= ptr + bytes.len() ==> with_bytes(
            regions,
            ptr,
            bytes,
        )[i].data[k] == regions[i].data[k],
        bytes_at(regions, ptr, bytes.len()) is None ==> with_bytes(regions, ptr, bytes) == regions,
{
    lemma_found(regions, ptr, bytes.len(), 0);
}

} // verus!
