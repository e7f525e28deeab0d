//! The 32-byte key that names a program or a signer.

use vstd::prelude::*;
use vstd::std_specs::cmp::PartialEqSpecImpl;

verus! {

/// Number of bytes in a key.
pub const PUBKEY_BYTES: usize = 32;

/// An opaque 32-byte identifier. Two keys are equal when all their bytes are.
#[derive(Clone, Copy, Debug, Eq, Hash)]
pub struct Pubkey(pub [u8; 32]);

impl Pubkey {
    /// The key made of the given bytes.
    pub fn new_from_array(bytes: [u8; 32]) -> (key: Pubkey)
        ensures
            key == Pubkey(bytes),
            key.0@ == bytes@,
    {
        Pubkey(bytes)
    }

    /// The bytes of the key.
    pub fn to_bytes(&self) -> (bytes: [u8; 32])
        ensures
            bytes == self.0,
    {
        self.0
    }
}

impl Default for Pubkey {
    /// The key whose bytes are all zero.
    fn default() -> (key: Pubkey)
        ensures
            key.0@ == Seq::new(32, |i: int| 0u8),
    {
        Pubkey([0u8; 32])
    }
}

impl PartialEq for Pubkey {
    fn eq(&self, other: &Pubkey) -> (same: bool) {
        let mut i: usize = 0;
        while i < PUBKEY_BYTES
            invariant
                i <= PUBKEY_BYTES,
                forall|j: int| 0 <= j < i ==> self.0[j] == other.0[j],
            decreases PUBKEY_BYTES - i,
        {
            if self.0[i] != other.0[i] {
                return false;
            }
            i += 1;
        }
        proof {
            assert(self.0 =~= other.0);
        }
        true
    }
}

impl PartialEqSpecImpl for Pubkey {
    open spec fn obeys_eq_spec() -> bool {
        true
    }

    open spec fn eq_spec(&self, other: &Pubkey) -> bool {
        *self == *other
    }
}

} // verus!
