//! Write-masking of whole vectors: each lane of the result is either the lane
//! that an operation computed or the lane of a fallback vector.
use crate::lanes::{
    lemma_bits_of_all_ones, lemma_select_all, lemma_select_none, mask_bit, select_lanes,
    simd_select_bitmask,
};
use crate::layout::{
    lemma_pack_unpack32, lemma_pack_unpack64, lemma_unpack_pack32, lemma_unpack_pack64, pack32,
    pack64, unpack32, unpack64,
};
use crate::vector::{__m512i, __mmask16, __mmask8};
use vstd::prelude::*;

verus! {

/// The bytes of a write-masked result over 32-bit lanes: lane `i` is that of
/// `computed` where bit `i` of `k` is set and that of `src` where it is clear.
pub open spec fn blend_epi32(src: Seq<u8>, k: __mmask16, computed: Seq<u8>) -> Seq<u8> {
    pack32(select_lanes(k as u64, unpack32(computed), unpack32(src)))
}

/// The bytes of a write-masked result over 64-bit lanes: lane `i` is that of
/// `computed` where bit `i` of `k` is set and that of `src` where it is clear.
pub open spec fn blend_epi64(src: Seq<u8>, k: __mmask8, computed: Seq<u8>) -> Seq<u8> {
    pack64(select_lanes(k as u64, unpack64(computed), unpack64(src)))
}

/// Write-masks a computed vector of 32-bit lanes over the fallback `src`.
pub fn mask_select_epi32(src: __m512i, k: __mmask16, computed: __m512i) -> (r: __m512i)
    ensures
        r@ == blend_epi32(src@, k, computed@),
        r.epi32() == select_lanes(k as u64, computed.epi32(), src.epi32()),
{
    let c = computed.as_i32x16();
    let s = src.as_i32x16();
    __m512i::from_i32x16(simd_select_bitmask(k as u64, &c, &s))
}

/// Write-masks a computed vector of 64-bit lanes over the fallback `src`.
pub fn mask_select_epi64(src: __m512i, k: __mmask8, computed: __m512i) -> (r: __m512i)
    ensures
        r@ == blend_epi64(src@, k, computed@),
        r.epi64() == select_lanes(k as u64, computed.epi64(), src.epi64()),
{
    let c = computed.as_i64x8();
    let s = src.as_i64x8();
    __m512i::from_i64x8(simd_select_bitmask(k as u64, &c, &s))
}

/// With no bit of the mask set no lane is updated: whatever was computed, the
/// result is the fallback vector.
pub proof fn lemma_blend_none(src: Seq<u8>, computed: Seq<u8>)
    requires
        src.len() == 64,
        computed.len() == 64,
    ensures
        blend_epi32(src, 0, computed) == src,
        blend_epi64(src, 0, computed) == src,
{
    lemma_select_none(unpack32(computed), unpack32(src));
    lemma_select_none(unpack64(computed), unpack64(src));
    lemma_pack_unpack32(src);
    lemma_pack_unpack64(src);
}

/// With the bit of every lane set every lane is updated: whatever the
/// fallback, the result is the computed vector.
pub proof fn lemma_blend_all(src: Seq<u8>, computed: Seq<u8>)
    requires
        src.len() == 64,
        computed.len() == 64,
    ensures
        blend_epi32(src, 0xffff, computed) == computed,
        blend_epi64(src, 0xff, computed) == computed,
{
    assert forall|i: int| 0 <= i < 16 implies mask_bit(0xffff, i) by {
        lemma_bits_of_all_ones(i);
    }
    assert forall|i: int| 0 <= i < 8 implies mask_bit(0xff, i) by {
        lemma_bits_of_all_ones(i);
    }
    lemma_select_all(0xffff, unpack32(computed), unpack32(src));
    lemma_select_all(0xff, unpack64(computed), unpack64(src));
    lemma_pack_unpack32(computed);
    lemma_pack_unpack64(computed);
}

/// A 32-bit lane of a write-masked result is chosen by that lane's bit
/// between that lane of the computed vector and that lane of the fallback; no
/// other bit and no other lane has a part in it.
pub proof fn lemma_blend_epi32_lane(src: Seq<u8>, k: __mmask16, computed: Seq<u8>, i: int)
    requires
        src.len() == 64,
        computed.len() == 64,
        0 <= i < 16,
    ensures
        unpack32(blend_epi32(src, k, computed))[i] == if mask_bit(k as u64, i) {
            unpack32(computed)[i]
        } else {
            unpack32(src)[i]
        },
{
    lemma_unpack_pack32(select_lanes(k as u64, unpack32(computed), unpack32(src)));
}

/// A 64-bit lane of a write-masked result is chosen by that lane's bit
/// between that lane of the computed vector and that lane of the fallback; no
/// other bit and no other lane has a part in it.
pub proof fn lemma_blend_epi64_lane(src: Seq<u8>, k: __mmask8, computed: Seq<u8>, i: int)
    requires
        src.len() == 64,
        computed.len() == 64,
        0 <= i < 8,
    ensures
        unpack64(blend_epi64(src, k, computed))[i] == if mask_bit(k as u64, i) {
            unpack64(computed)[i]
        } else {
            unpack64(src)[i]
        },
{
    lemma_unpack_pack64(select_lanes(k as u64, unpack64(computed), unpack64(src)));
}

} // verus!
