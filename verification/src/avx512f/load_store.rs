//! Bringing 512 bits from memory into a vector.
use crate::vector::__m512i;
use vstd::prelude::*;

verus! {

/// Loads the sixty-four bytes at `mem_addr` into a vector, lowest address
/// first. Nothing is asked of the alignment of the bytes.
pub fn _mm512_loadu_si512(mem_addr: &[u8; 64]) -> (r: __m512i)
    ensures
        r@ == mem_addr@,
{
    let mut dst = _mm512_undefined();
    let mut i: usize = 0;
    while i < 64
        invariant
            i <= 64,
            forall|j: int| 0 <= j < i ==> dst@[j] == mem_addr@[j],
        decreases 64 - i,
    {
        dst.0[i] = mem_addr[i];
        i = i + 1;
    }
    assert(dst@ =~= mem_addr@);
    dst
}

/// A vector whose contents are not specified. It is a placeholder to be
/// overwritten in full: nothing may be concluded from what it holds.
pub fn _mm512_undefined() -> (r: __m512i) {
    __m512i([0u8; 64])
}

} // verus!
