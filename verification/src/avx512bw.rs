//! Operations on 512-bit vectors of byte lanes.
use crate::vector::__m512i;
use vstd::prelude::*;

verus! {

/// Byte `i` of a shuffle of `a` by the indices `b`. An index whose top bit is
/// set, which is one of 128 or more, gives zero. Any other index picks, by
/// its low four bits, a byte of `a` from the sixteen-byte segment that byte
/// `i` lies in.
pub open spec fn shuffle_byte(a: Seq<u8>, b: Seq<u8>, i: int) -> u8 {
    if b[i] >= 0x80 {
        0
    } else {
        a[16 * (i / 16) + b[i] % 16]
    }
}

/// The bytes of a shuffle of `a` by the indices `b`.
pub open spec fn shuffle_epi8(a: Seq<u8>, b: Seq<u8>) -> Seq<u8> {
    Seq::new(64, |i: int| shuffle_byte(a, b, i))
}

/// Shuffles the bytes of `a` within each sixteen-byte segment by the index
/// bytes of `b`, and zeroes each byte whose index has its top bit set.
pub fn _mm512_shuffle_epi8(a: __m512i, b: __m512i) -> (r: __m512i)
    ensures
        r@ == shuffle_epi8(a@, b@),
{
    let mut bytes: [u8; 64] = [0u8; 64];
    let mut i: usize = 0;
    while i < 64
        invariant
            i <= 64,
            forall|j: int| 0 <= j < i ==> bytes@[j] == shuffle_byte(a@, b@, j),
        decreases 64 - i,
    {
        let index: u8 = b.0[i];
        if index < 0x80 {
            let from: usize = 16 * (i / 16) + (index % 16) as usize;
            bytes[i] = a.0[from];
        } else {
            bytes[i] = 0;
        }
        i = i + 1;
    }
    assert(bytes@ =~= shuffle_epi8(a@, b@));
    __m512i(bytes)
}

/// An index byte with its top bit set gives a zero at its position, whatever
/// the source holds and whatever the other bits of the index are.
pub proof fn lemma_shuffle_out_of_range(a: __m512i, b: __m512i, i: int)
    requires
        0 <= i < 64,
        b@[i] & 0x80 != 0,
    ensures
        shuffle_epi8(a@, b@)[i] == 0,
{
    let x = b@[i];
    assert(x & 0x80 != 0 ==> x >= 0x80) by (bit_vector);
}

/// An index byte with its top bit clear picks the byte that its low four bits
/// name in the segment of its own position: a shuffle never crosses from one
/// sixteen-byte segment into another.
pub proof fn lemma_shuffle_in_segment(a: __m512i, b: __m512i, i: int)
    requires
        0 <= i < 64,
        b@[i] & 0x80 == 0,
    ensures
        shuffle_epi8(a@, b@)[i] == a@[16 * (i / 16) + (b@[i] & 0x0f)],
        16 * (i / 16) <= 16 * (i / 16) + (b@[i] & 0x0f) < 16 * (i / 16) + 16,
{
    let x = b@[i];
    assert(x & 0x80 == 0 ==> x < 0x80) by (bit_vector);
    assert(x & 0x0f == x % 16) by (bit_vector);
}

} // verus!
