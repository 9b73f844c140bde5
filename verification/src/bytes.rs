//! Byte-level helpers shared by the modem and the node.

use vstd::prelude::*;

verus! {

/// Compare two hardware addresses.
pub fn same_mac(a: &[u8; 6], b: &[u8; 6]) -> (same: bool)
    ensures
        same == (a@ == b@),
{
    let same = a[0] == b[0] && a[1] == b[1] && a[2] == b[2] && a[3] == b[3] && a[4] == b[4] && a[5]
        == b[5];
    proof {
        if same {
            assert(a@ =~= b@);
        }
    }
    same
}

/// Copy a byte slice into a vector of its own.
pub fn copy_bytes(data: &[u8]) -> (copy: Vec<u8>)
    ensures
        copy@ == data@,
{
    let mut copy: Vec<u8> = Vec::new();
    let mut i: usize = 0;
    while i < data.len()
        invariant
            i <= data.len(),
            copy@ == data@.take(i as int),
        decreases data.len() - i,
    {
        copy.push(data[i]);
        proof {
            assert(copy@ =~= data@.take(i + 1));
        }
        i = i + 1;
    }
    proof {
        assert(copy@ =~= data@);
    }
    copy
}

/// Copy the bytes `data[from..to]` into a vector of their own.
pub fn copy_range(data: &[u8], from: usize, to: usize) -> (copy: Vec<u8>)
    requires
        from <= to <= data.len(),
    ensures
        copy@ == data@.subrange(from as int, to as int),
{
    let mut copy: Vec<u8> = Vec::new();
    let mut i: usize = from;
    while i < to
        invariant
            from <= i <= to <= data.len(),
            copy@ == data@.subrange(from as int, i as int),
        decreases to - i,
    {
        copy.push(data[i]);
        proof {
            assert(copy@ =~= data@.subrange(from as int, i + 1));
        }
        i = i + 1;
    }
    copy
}

/// The value of a two-byte big-endian field.
pub open spec fn be16(hi: u8, lo: u8) -> int {
    hi as int * 256 + lo as int
}

/// Decode a two-byte big-endian field.
pub fn read_be16(hi: u8, lo: u8) -> (value: u16)
    ensures
        value as int == be16(hi, lo),
{
    (hi as u16) * 256 + (lo as u16)
}

} // verus!
