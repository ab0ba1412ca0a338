//! Content fingerprints of file bytes, used as the duplicate-detection key.

use vstd::prelude::*;
use vstd::std_specs::cmp::PartialEqSpec;

verus! {

/// The 256-bit content fingerprint of a file's bytes.
#[derive(Clone, Debug, PartialEq, Eq)]
pub struct ContentHash {
    bytes: Vec<u8>,
}

impl View for ContentHash {
    type V = Seq<u8>;

    closed spec fn view(&self) -> Seq<u8> {
        self.bytes@
    }
}

/// The digest that the BLAKE3 hash function assigns to a byte sequence.
pub uninterp spec fn blake3_digest_of(data: Seq<u8>) -> Seq<u8>;

/// Relies on blake3::hash: the returned digest is 32 bytes and is a function
/// of the input bytes alone.
#[verifier::external_body]
pub fn hash_bytes(data: &[u8]) -> (r: ContentHash)
    ensures
        r@ == blake3_digest_of(data@),
        r@.len() == 32,
{
    ContentHash { bytes: blake3::hash(data).as_bytes().to_vec() }
}

impl ContentHash {
    /// Whether two fingerprints hold the same digest bytes.
    pub fn equals(&self, other: &ContentHash) -> (r: bool)
        ensures
            r == (self@ == other@),
    {
        let r = self.bytes == other.bytes;
        proof {
            if self.bytes.eq_spec(&other.bytes) {
                assert(self@ =~= other@);
            }
        }
        r
    }

    /// The digest bytes.
    pub fn as_bytes(&self) -> (r: &Vec<u8>)
        ensures
            r@ == self@,
    {
        &self.bytes
    }
}

} // verus!
