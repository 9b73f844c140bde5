//! Hashing in software, and the composition of random numbers.

use sha2::Digest;
use vstd::prelude::*;

verus! {

/// The SHA-256 digest of `data`.
pub uninterp spec fn sha256_digest(data: Seq<u8>) -> Seq<u8>;

/// `sha2::Sha256::digest`: the SHA-256 digest of `data`, 32 bytes long.  The
/// digest is given a name and not computed here.
#[verifier::external_body]
fn sha256(data: &[u8]) -> (digest: [u8; 32])
    ensures
        digest@ == sha256_digest(data@),
{
    sha2::Sha256::digest(data).into()
}

/// SHA-256 in software.
pub struct SoftwareSha256;

impl SoftwareSha256 {
    /// The digest of `data`.
    pub fn hash(&self, data: &[u8]) -> (digest: [u8; 32])
        ensures
            digest@ == sha256_digest(data@),
    {
        sha256(data)
    }
}

/// A 64-bit number from two 32-bit words, the first of which is the high one.
pub open spec fn joined_words(hi: u32, lo: u32) -> int {
    hi as int * 0x1_0000_0000 + lo as int
}

/// Hardware random number generator: it yields 32-bit words, which are joined
/// in pairs.
pub struct EspRng;

impl EspRng {
    /// The 64-bit random number made of two words of the generator.
    pub fn random_u64(&mut self, hi: u32, lo: u32) -> (value: u64)
        ensures
            value as int == joined_words(hi, lo),
            *final(self) == *old(self),
    {
        proof {
            assert(((hi as u64) << 32) | (lo as u64) == (hi as u64) * 0x1_0000_0000 + (
            lo as u64)) by (bit_vector);
        }
        ((hi as u64) << 32) | (lo as u64)
    }
}

/// Each number is made of one pair of words only.
pub proof fn law_words_are_kept(hi1: u32, lo1: u32, hi2: u32, lo2: u32)
    requires
        joined_words(hi1, lo1) == joined_words(hi2, lo2),
    ensures
        hi1 == hi2,
        lo1 == lo2,
{
}

/// The first word is the high half of the number, and the second the low half.
pub proof fn law_words_are_joined_in_order(hi: u32, lo: u32)
    ensures
        joined_words(hi, lo) / 0x1_0000_0000 == hi,
        joined_words(hi, lo) % 0x1_0000_0000 == lo,
{
}

} // verus!
