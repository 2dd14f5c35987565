//! Small helpers on byte slices used across the assembler.

use vstd::prelude::*;

verus! {

/// Byte-for-byte equality of two slices.
pub fn bytes_eq(a: &[u8], b: &[u8]) -> (r: bool)
    ensures
        r <==> a@ == b@,
{
    if a.len() != b.len() {
        proof {
            assert(a@.len() != b@.len());
        }
        return false;
    }
    let mut i: usize = 0;
    while i < a.len()
        invariant
            i <= a.len(),
            a@.len() == b@.len(),
            forall|j: int| 0 <= j < i ==> a@[j] == b@[j],
        decreases a.len() - i,
    {
        if a[i] != b[i] {
            return false;
        }
        i += 1;
    }
    proof {
        assert(a@ =~= b@);
    }
    true
}

/// Byte `k` (little-endian) of a 64-bit value.
pub open spec fn le_byte64(u: u64, k: u64) -> u8 {
    ((u >> (8 * k)) & 0xff) as u8
}

/// Extract byte `k` (little-endian) of a 64-bit value.
pub fn le_byte64_x(u: u64, k: u64) -> (r: u8)
    requires
        k < 8,
    ensures
        r == le_byte64(u, k),
{
    let s: u64 = 8 * k;
    let b: u64 = (u >> s) & 0xff;
    proof {
        assert((u >> s) & 0xff < 256) by (bit_vector);
    }
    b as u8
}

} // verus!
