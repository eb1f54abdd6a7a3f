//! The fingerprint of a device: the BLAKE3 hash of its bytes.

use vstd::prelude::*;

use crate::numerals::{hex_bytes, hex_value, law_hex_text_holds_every_byte};
use crate::outside::{
    blake3_digest, digest_hex, hashed_input, hasher_finalize, hasher_new, hasher_update, is_plain,
};

verus! {

/// The fingerprint of a sequence of bytes: the hexadecimal digits of its hash.
pub open spec fn fingerprint_of(bytes: Seq<u8>) -> Seq<char> {
    hex_bytes(blake3_digest(bytes))
}

/// A fingerprint in the making; its view is the bytes taken in so far.
pub struct Fingerprint {
    hasher: blake3::Hasher,
    count: u64,
}

impl View for Fingerprint {
    type V = Seq<u8>;

    closed spec fn view(&self) -> Seq<u8> {
        hashed_input(self.hasher)
    }
}

impl Fingerprint {
    #[verifier::type_invariant]
    closed spec fn well_formed(&self) -> bool {
        is_plain(self.hasher) && self.count == hashed_input(self.hasher).len()
    }

    /// The fingerprint of no bytes yet.
    pub fn new() -> (r: Fingerprint)
        ensures
            r@ == Seq::<u8>::empty(),
    {
        Fingerprint { hasher: hasher_new(), count: 0 }
    }

    /// Whether so many bytes more can be taken in.
    pub fn has_room(&self, len: usize) -> (r: bool)
        ensures
            r == (self@.len() + len <= u64::MAX),
    {
        proof {
            use_type_invariant(self);
        }
        len as u64 <= u64::MAX - self.count
    }

    /// Takes in the next bytes.
    pub fn feed(self, bytes: &[u8]) -> (r: Fingerprint)
        requires
            self@.len() + bytes@.len() <= u64::MAX,
        ensures
            r@ == self@ + bytes@,
    {
        proof {
            use_type_invariant(&self);
        }
        let count: u64 = self.count + bytes.len() as u64;
        let mut hasher = self.hasher;
        hasher_update(&mut hasher, bytes);
        Fingerprint { hasher, count }
    }

    /// The finished fingerprint.
    pub fn digest(&self) -> (r: String)
        ensures
            r@ == fingerprint_of(self@),
            r@.len() == 64,
    {
        proof {
            use_type_invariant(self);
        }
        let digest: [u8; 32] = hasher_finalize(&self.hasher);
        digest_hex(&digest)
    }
}

/// A fingerprint spells the hash of all the bytes, byte by byte, in two
/// hexadecimal digits each.
pub proof fn law_fingerprint_spells_the_hash(bytes: Seq<u8>, i: int)
    requires
        0 <= i < blake3_digest(bytes).len(),
    ensures
        fingerprint_of(bytes).len() == 2 * blake3_digest(bytes).len(),
        16 * hex_value(fingerprint_of(bytes)[2 * i]) + hex_value(fingerprint_of(bytes)[2 * i + 1])
            == blake3_digest(bytes)[i],
{
    law_hex_text_holds_every_byte(blake3_digest(bytes), i);
}

} // verus!
