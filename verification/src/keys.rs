//! The public-key value this codec carries: a Curve25519 point as its raw
//! 32-byte encoding.  The key's arithmetic lives elsewhere; this layer only
//! frames the bytes.

use vstd::prelude::*;

verus! {

/// The length of a Curve25519 public key on the wire, in bytes.
pub const KEY_LENGTH: usize = 32;

/// A Curve25519 public key, held as its 32-byte wire encoding.
#[derive(Clone, Copy, Debug)]
pub struct Curve25519PublicKey {
    key: [u8; 32],
}

impl View for Curve25519PublicKey {
    type V = Seq<u8>;

    closed spec fn view(&self) -> Seq<u8> {
        self.key@
    }
}

impl Curve25519PublicKey {
    /// The raw bytes of the key.
    pub fn as_bytes(&self) -> (r: &[u8; 32])
        ensures
            r@ == self@,
    {
        &self.key
    }

    /// Build a key from a slice of exactly 32 bytes.
    pub fn from_slice(bytes: &[u8]) -> (r: Curve25519PublicKey)
        requires
            bytes@.len() == 32,
        ensures
            r@ == bytes@,
    {
        let mut key = [0u8; 32];
        let out = vstd::array::ref_mut_array_unsizing_coercion(&mut key);
        let mut i: usize = 0;
        while i < 32
            invariant
                i <= 32,
                out@.len() == 32,
                bytes@.len() == 32,
                forall|j: int| 0 <= j < i ==> out@[j] == bytes@[j],
            decreases 32 - i,
        {
            out[i] = bytes[i];
            i = i + 1;
        }
        proof {
            assert(out@ =~= bytes@);
        }
        Curve25519PublicKey { key }
    }
}

impl From<[u8; 32]> for Curve25519PublicKey {
    fn from(key: [u8; 32]) -> (r: Curve25519PublicKey)
        ensures
            r@ == key@,
    {
        Curve25519PublicKey { key }
    }
}

impl vstd::std_specs::convert::FromSpecImpl<[u8; 32]> for Curve25519PublicKey {
    open spec fn obeys_from_spec() -> bool {
        true
    }

    closed spec fn from_spec(key: [u8; 32]) -> Curve25519PublicKey {
        Curve25519PublicKey { key }
    }
}

} // verus!
