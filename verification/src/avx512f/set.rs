//! Building vectors from lane values.
use crate::lanes::splat;
use crate::layout::{unpack32, unpack64};
use crate::vector::{__m512i, zero_bytes};
use vstd::prelude::*;

verus! {

/// Sixteen 32-bit lanes that are all zero.
pub open spec fn zero_epi32() -> Seq<i32> {
    Seq::new(16, |i: int| 0i32)
}

/// Eight 64-bit lanes that are all zero.
pub open spec fn zero_epi64() -> Seq<i64> {
    Seq::new(8, |i: int| 0i64)
}

/// The vector with every bit clear.
pub fn _mm512_setzero_si512() -> (r: __m512i)
    ensures
        r@ == zero_bytes(),
        r.epi32() == zero_epi32(),
        r.epi64() == zero_epi64(),
{
    let r = __m512i([0u8; 64]);
    assert(r@ =~= zero_bytes());
    proof {
        lemma_lanes_of_zero();
    }
    r
}

/// Every lane of the all-clear bytes is zero, at either width.
pub proof fn lemma_lanes_of_zero()
    ensures
        unpack32(zero_bytes()) == zero_epi32(),
        unpack64(zero_bytes()) == zero_epi64(),
{
    assert((0u8 as u32) | ((0u8 as u32) << 8) | ((0u8 as u32) << 16) | ((0u8 as u32) << 24) == 0u32)
        by (bit_vector);
    assert((0u32 as u64) | ((0u32 as u64) << 32) == 0u64) by (bit_vector);
    assert(unpack32(zero_bytes()) =~= zero_epi32());
    assert(unpack64(zero_bytes()) =~= zero_epi64());
}

/// Sets the sixteen 32-bit lanes from the arguments in lane order: the first
/// argument becomes lane 0, the last lane 15.
pub fn _mm512_setr_epi32(
    e0: i32,
    e1: i32,
    e2: i32,
    e3: i32,
    e4: i32,
    e5: i32,
    e6: i32,
    e7: i32,
    e8: i32,
    e9: i32,
    e10: i32,
    e11: i32,
    e12: i32,
    e13: i32,
    e14: i32,
    e15: i32,
) -> (r: __m512i)
    ensures
        r.epi32() == seq![e0, e1, e2, e3, e4, e5, e6, e7, e8, e9, e10, e11, e12, e13, e14, e15],
{
    let l: [i32; 16] = [e0, e1, e2, e3, e4, e5, e6, e7, e8, e9, e10, e11, e12, e13, e14, e15];
    assert(l@ =~= seq![e0, e1, e2, e3, e4, e5, e6, e7, e8, e9, e10, e11, e12, e13, e14, e15]);
    __m512i::from_i32x16(l)
}

/// Sets the sixteen 32-bit lanes from the arguments written highest lane
/// first: the first argument becomes lane 15, the last lane 0.
pub fn _mm512_set_epi32(
    e15: i32,
    e14: i32,
    e13: i32,
    e12: i32,
    e11: i32,
    e10: i32,
    e9: i32,
    e8: i32,
    e7: i32,
    e6: i32,
    e5: i32,
    e4: i32,
    e3: i32,
    e2: i32,
    e1: i32,
    e0: i32,
) -> (r: __m512i)
    ensures
        r.epi32() == seq![e0, e1, e2, e3, e4, e5, e6, e7, e8, e9, e10, e11, e12, e13, e14, e15],
{
    _mm512_setr_epi32(e0, e1, e2, e3, e4, e5, e6, e7, e8, e9, e10, e11, e12, e13, e14, e15)
}

/// Sets the eight 64-bit lanes from the arguments in lane order: the first
/// argument becomes lane 0, the last lane 7.
pub fn _mm512_setr_epi64(
    e0: i64,
    e1: i64,
    e2: i64,
    e3: i64,
    e4: i64,
    e5: i64,
    e6: i64,
    e7: i64,
) -> (r: __m512i)
    ensures
        r.epi64() == seq![e0, e1, e2, e3, e4, e5, e6, e7],
{
    let l: [i64; 8] = [e0, e1, e2, e3, e4, e5, e6, e7];
    assert(l@ =~= seq![e0, e1, e2, e3, e4, e5, e6, e7]);
    __m512i::from_i64x8(l)
}

/// Sets the eight 64-bit lanes from the arguments written highest lane first:
/// the first argument becomes lane 7, the last lane 0.
pub fn _mm512_set_epi64(
    e7: i64,
    e6: i64,
    e5: i64,
    e4: i64,
    e3: i64,
    e2: i64,
    e1: i64,
    e0: i64,
) -> (r: __m512i)
    ensures
        r.epi64() == seq![e0, e1, e2, e3, e4, e5, e6, e7],
{
    _mm512_setr_epi64(e0, e1, e2, e3, e4, e5, e6, e7)
}

/// Copies `a` into each of the sixteen 32-bit lanes.
pub fn _mm512_set1_epi32(a: i32) -> (r: __m512i)
    ensures
        r.epi32() == Seq::new(16, |i: int| a),
{
    __m512i::from_i32x16(splat(a))
}

/// Copies `a` into each of the eight 64-bit lanes.
pub fn _mm512_set1_epi64(a: i64) -> (r: __m512i)
    ensures
        r.epi64() == Seq::new(8, |i: int| a),
{
    __m512i::from_i64x8(splat(a))
}

} // verus!
