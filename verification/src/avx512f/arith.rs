//! Lane-wise arithmetic on integer vectors: absolute value and addition, each
//! plain, write-masked and zero-masked.
use crate::avx512f::set::{_mm512_setzero_si512, zero_epi32, zero_epi64};
use crate::lanes::{mask_bit, select_lanes};
use crate::layout::{lemma_unpack_pack32, lemma_unpack_pack64, pack32, pack64, unpack32, unpack64};
use crate::mask::{
    blend_epi32, blend_epi64, lemma_blend_all, lemma_blend_epi32_lane, lemma_blend_epi64_lane,
    lemma_blend_none, mask_select_epi32, mask_select_epi64,
};
use crate::vector::{__m512i, __mmask16, __mmask8, lemma_same_bytes, zero_bytes};
use vstd::prelude::*;
use vstd::wrapping::{i32_specs, i64_specs};

verus! {

/// The absolute value of a 32-bit lane. The lowest value has no positive
/// counterpart and stays as it is.
pub open spec fn abs_i32(x: i32) -> i32 {
    if x == i32::MIN {
        i32::MIN
    } else if x < 0 {
        (0 - x) as i32
    } else {
        x
    }
}

/// The absolute value of each lane.
pub open spec fn abs_lanes(a: Seq<i32>) -> Seq<i32> {
    Seq::new(a.len(), |i: int| abs_i32(a[i]))
}

/// The sum of each pair of 32-bit lanes, wrapping round on overflow.
pub open spec fn add_lanes32(a: Seq<i32>, b: Seq<i32>) -> Seq<i32> {
    Seq::new(a.len(), |i: int| i32_specs::wrapping_add(a[i], b[i]))
}

/// The sum of each pair of 64-bit lanes, wrapping round on overflow.
pub open spec fn add_lanes64(a: Seq<i64>, b: Seq<i64>) -> Seq<i64> {
    Seq::new(a.len(), |i: int| i64_specs::wrapping_add(a[i], b[i]))
}

/// The bytes of the vector of absolute values of the 32-bit lanes of `a`.
pub open spec fn abs_epi32(a: Seq<u8>) -> Seq<u8> {
    pack32(abs_lanes(unpack32(a)))
}

/// The bytes of the vector of sums of the 32-bit lanes of `a` and `b`.
pub open spec fn add_epi32(a: Seq<u8>, b: Seq<u8>) -> Seq<u8> {
    pack32(add_lanes32(unpack32(a), unpack32(b)))
}

/// The bytes of the vector of sums of the 64-bit lanes of `a` and `b`.
pub open spec fn add_epi64(a: Seq<u8>, b: Seq<u8>) -> Seq<u8> {
    pack64(add_lanes64(unpack64(a), unpack64(b)))
}

/// Computes the absolute value of each 32-bit lane of `a`.
pub fn _mm512_abs_epi32(a: __m512i) -> (r: __m512i)
    ensures
        r@ == abs_epi32(a@),
        r.epi32() == abs_lanes(a.epi32()),
{
    let l = a.as_i32x16();
    let mut out: [i32; 16] = [0i32; 16];
    let mut i: usize = 0;
    while i < 16
        invariant
            i <= 16,
            l@ == a.epi32(),
            forall|j: int| 0 <= j < i ==> out@[j] == abs_i32(l@[j]),
        decreases 16 - i,
    {
        let x: i32 = l[i];
        out[i] = if x > 0 {
            x
        } else {
            0i32.wrapping_sub(x)
        };
        i = i + 1;
    }
    assert(out@ =~= abs_lanes(a.epi32()));
    __m512i::from_i32x16(out)
}

/// Computes the absolute value of each 32-bit lane of `a` whose bit in `k` is
/// set; the other lanes are copied from `src`.
pub fn _mm512_mask_abs_epi32(src: __m512i, k: __mmask16, a: __m512i) -> (r: __m512i)
    ensures
        r@ == blend_epi32(src@, k, abs_epi32(a@)),
        r.epi32() == select_lanes(k as u64, abs_lanes(a.epi32()), src.epi32()),
        k == 0 ==> r == src,
        k == 0xffff ==> r@ == abs_epi32(a@),
{
    let computed = _mm512_abs_epi32(a);
    let r = mask_select_epi32(src, k, computed);
    proof {
        lemma_blend_none(src@, computed@);
        lemma_blend_all(src@, computed@);
        if k == 0 {
            lemma_same_bytes(r, src);
        }
    }
    r
}

/// Computes the absolute value of each 32-bit lane of `a` whose bit in `k` is
/// set; the other lanes are zero.
pub fn _mm512_maskz_abs_epi32(k: __mmask16, a: __m512i) -> (r: __m512i)
    ensures
        r@ == blend_epi32(zero_bytes(), k, abs_epi32(a@)),
        r.epi32() == select_lanes(k as u64, abs_lanes(a.epi32()), zero_epi32()),
        k == 0 ==> r@ == zero_bytes(),
        k == 0xffff ==> r@ == abs_epi32(a@),
{
    let computed = _mm512_abs_epi32(a);
    let r = mask_select_epi32(_mm512_setzero_si512(), k, computed);
    proof {
        lemma_blend_none(zero_bytes(), computed@);
        lemma_blend_all(zero_bytes(), computed@);
    }
    r
}

/// Adds the 32-bit lanes of `a` and `b`, wrapping round on overflow.
pub fn _mm512_add_epi32(a: __m512i, b: __m512i) -> (r: __m512i)
    ensures
        r@ == add_epi32(a@, b@),
        r.epi32() == add_lanes32(a.epi32(), b.epi32()),
{
    let x = a.as_i32x16();
    let y = b.as_i32x16();
    let mut out: [i32; 16] = [0i32; 16];
    let mut i: usize = 0;
    while i < 16
        invariant
            i <= 16,
            x@ == a.epi32(),
            y@ == b.epi32(),
            forall|j: int| 0 <= j < i ==> out@[j] == i32_specs::wrapping_add(x@[j], y@[j]),
        decreases 16 - i,
    {
        out[i] = x[i].wrapping_add(y[i]);
        i = i + 1;
    }
    assert(out@ =~= add_lanes32(a.epi32(), b.epi32()));
    __m512i::from_i32x16(out)
}

/// Adds the 32-bit lanes of `a` and `b` whose bit in `k` is set; the other
/// lanes are copied from `src`.
pub fn _mm512_mask_add_epi32(src: __m512i, k: __mmask16, a: __m512i, b: __m512i) -> (r: __m512i)
    ensures
        r@ == blend_epi32(src@, k, add_epi32(a@, b@)),
        r.epi32() == select_lanes(k as u64, add_lanes32(a.epi32(), b.epi32()), src.epi32()),
        k == 0 ==> r == src,
        k == 0xffff ==> r@ == add_epi32(a@, b@),
{
    let computed = _mm512_add_epi32(a, b);
    let r = mask_select_epi32(src, k, computed);
    proof {
        lemma_blend_none(src@, computed@);
        lemma_blend_all(src@, computed@);
        if k == 0 {
            lemma_same_bytes(r, src);
        }
    }
    r
}

/// Adds the 32-bit lanes of `a` and `b` whose bit in `k` is set; the other
/// lanes are zero.
pub fn _mm512_maskz_add_epi32(k: __mmask16, a: __m512i, b: __m512i) -> (r: __m512i)
    ensures
        r@ == blend_epi32(zero_bytes(), k, add_epi32(a@, b@)),
        r.epi32() == select_lanes(k as u64, add_lanes32(a.epi32(), b.epi32()), zero_epi32()),
        k == 0 ==> r@ == zero_bytes(),
        k == 0xffff ==> r@ == add_epi32(a@, b@),
{
    let computed = _mm512_add_epi32(a, b);
    let r = mask_select_epi32(_mm512_setzero_si512(), k, computed);
    proof {
        lemma_blend_none(zero_bytes(), computed@);
        lemma_blend_all(zero_bytes(), computed@);
    }
    r
}

/// Adds the 64-bit lanes of `a` and `b`, wrapping round on overflow.
pub fn _mm512_add_epi64(a: __m512i, b: __m512i) -> (r: __m512i)
    ensures
        r@ == add_epi64(a@, b@),
        r.epi64() == add_lanes64(a.epi64(), b.epi64()),
{
    let x = a.as_i64x8();
    let y = b.as_i64x8();
    let mut out: [i64; 8] = [0i64; 8];
    let mut i: usize = 0;
    while i < 8
        invariant
            i <= 8,
            x@ == a.epi64(),
            y@ == b.epi64(),
            forall|j: int| 0 <= j < i ==> out@[j] == i64_specs::wrapping_add(x@[j], y@[j]),
        decreases 8 - i,
    {
        out[i] = x[i].wrapping_add(y[i]);
        i = i + 1;
    }
    assert(out@ =~= add_lanes64(a.epi64(), b.epi64()));
    __m512i::from_i64x8(out)
}

/// Adds the 64-bit lanes of `a` and `b` whose bit in `k` is set; the other
/// lanes are copied from `src`.
pub fn _mm512_mask_add_epi64(src: __m512i, k: __mmask8, a: __m512i, b: __m512i) -> (r: __m512i)
    ensures
        r@ == blend_epi64(src@, k, add_epi64(a@, b@)),
        r.epi64() == select_lanes(k as u64, add_lanes64(a.epi64(), b.epi64()), src.epi64()),
        k == 0 ==> r == src,
        k == 0xff ==> r@ == add_epi64(a@, b@),
{
    let computed = _mm512_add_epi64(a, b);
    let r = mask_select_epi64(src, k, computed);
    proof {
        lemma_blend_none(src@, computed@);
        lemma_blend_all(src@, computed@);
        if k == 0 {
            lemma_same_bytes(r, src);
        }
    }
    r
}

/// Adds the 64-bit lanes of `a` and `b` whose bit in `k` is set; the other
/// lanes are zero.
pub fn _mm512_maskz_add_epi64(k: __mmask8, a: __m512i, b: __m512i) -> (r: __m512i)
    ensures
        r@ == blend_epi64(zero_bytes(), k, add_epi64(a@, b@)),
        r.epi64() == select_lanes(k as u64, add_lanes64(a.epi64(), b.epi64()), zero_epi64()),
        k == 0 ==> r@ == zero_bytes(),
        k == 0xff ==> r@ == add_epi64(a@, b@),
{
    let computed = _mm512_add_epi64(a, b);
    let r = mask_select_epi64(_mm512_setzero_si512(), k, computed);
    proof {
        lemma_blend_none(zero_bytes(), computed@);
        lemma_blend_all(zero_bytes(), computed@);
    }
    r
}

/// Lane `i` of a write-masked absolute value is decided by bit `i` of the
/// mask, lane `i` of the operand and lane `i` of the fallback alone.
pub proof fn lemma_mask_abs_epi32_lane(src: __m512i, k: __mmask16, a: __m512i, i: int)
    requires
        0 <= i < 16,
    ensures
        unpack32(blend_epi32(src@, k, abs_epi32(a@)))[i] == if mask_bit(k as u64, i) {
            abs_i32(a.epi32()[i])
        } else {
            src.epi32()[i]
        },
{
    lemma_unpack_pack32(abs_lanes(unpack32(a@)));
    lemma_blend_epi32_lane(src@, k, abs_epi32(a@), i);
}

/// Lane `i` of a write-masked 32-bit sum is decided by bit `i` of the mask,
/// lane `i` of each operand and lane `i` of the fallback alone.
pub proof fn lemma_mask_add_epi32_lane(src: __m512i, k: __mmask16, a: __m512i, b: __m512i, i: int)
    requires
        0 <= i < 16,
    ensures
        unpack32(blend_epi32(src@, k, add_epi32(a@, b@)))[i] == if mask_bit(k as u64, i) {
            i32_specs::wrapping_add(a.epi32()[i], b.epi32()[i])
        } else {
            src.epi32()[i]
        },
{
    lemma_unpack_pack32(add_lanes32(unpack32(a@), unpack32(b@)));
    lemma_blend_epi32_lane(src@, k, add_epi32(a@, b@), i);
}

/// Lane `i` of a write-masked 64-bit sum is decided by bit `i` of the mask,
/// lane `i` of each operand and lane `i` of the fallback alone.
pub proof fn lemma_mask_add_epi64_lane(src: __m512i, k: __mmask8, a: __m512i, b: __m512i, i: int)
    requires
        0 <= i < 8,
    ensures
        unpack64(blend_epi64(src@, k, add_epi64(a@, b@)))[i] == if mask_bit(k as u64, i) {
            i64_specs::wrapping_add(a.epi64()[i], b.epi64()[i])
        } else {
            src.epi64()[i]
        },
{
    lemma_unpack_pack64(add_lanes64(unpack64(a@), unpack64(b@)));
    lemma_blend_epi64_lane(src@, k, add_epi64(a@, b@), i);
}

} // verus!
