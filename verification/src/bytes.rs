//! Helpers for the 32-byte values that identities, addresses and ciphertext
//! blobs are made of.

use vstd::prelude::*;

verus! {

broadcast use vstd::array::group_array_axioms;

/// A 32-byte value with every byte zero.
pub open spec fn zero32_seq() -> Seq<u8> {
    Seq::new(32, |i: int| 0u8)
}

/// The all-zero 32-byte value, as new loan records store it for a principal
/// that has never been set.
pub fn zero32() -> (r: [u8; 32])
    ensures
        r@ =~= zero32_seq(),
{
    let r: [u8; 32] = [0u8; 32];
    proof {
        assert(r@ =~= zero32_seq());
    }
    r
}

/// Byte-for-byte equality of two 32-byte values.
pub fn bytes32_eq(a: &[u8; 32], b: &[u8; 32]) -> (r: bool)
    ensures
        r <==> a@ == b@,
{
    let mut i: usize = 0;
    while i < 32
        invariant
            0 <= i <= 32,
            forall|j: int| 0 <= j < i ==> a@[j] == b@[j],
        decreases 32 - i,
    {
        if a[i] != b[i] {
            return false;
        }
        i = i + 1;
    }
    proof {
        assert(a@ =~= b@);
    }
    true
}

} // verus!
