//! Lane-wise building blocks that do not depend on the type of a lane.
use vstd::prelude::*;

verus! {

/// Whether bit `i` of the mask `k` is set. Bits outside `0..64` are never set.
pub open spec fn mask_bit(k: u64, i: int) -> bool {
    0 <= i < 64 && (k >> (i as u64)) & 1 == 1
}

/// The lanes chosen by `k`: lane `i` comes from `a` where bit `i` is set and
/// from `b` where it is clear.
pub open spec fn select_lanes<T>(k: u64, a: Seq<T>, b: Seq<T>) -> Seq<T> {
    Seq::new(
        a.len(),
        |i: int|
            if mask_bit(k, i) {
                a[i]
            } else {
                b[i]
            },
    )
}

/// Reads bit `i` of the mask `k`; a mask has no bit at index 64 or above.
pub fn test_bit(k: u64, i: usize) -> (r: bool)
    ensures
        r == mask_bit(k, i as int),
{
    i < 64 && (k >> (i as u64)) & 1 == 1
}

/// Chooses each lane from `a` or from `b` by the bit of `k` at the lane's
/// index. Bits of `k` at or above the lane count are ignored, and a lane at
/// or above index 64 has no bit and comes from `b`.
pub fn simd_select_bitmask<T: Copy, const N: usize>(k: u64, a: &[T; N], b: &[T; N]) -> (r: [T; N])
    ensures
        r@ == select_lanes(k, a@, b@),
{
    let mut r: [T; N] = *b;
    let mut i: usize = 0;
    while i < N
        invariant
            i <= N,
            forall|j: int| 0 <= j < i ==> r@[j] == select_lanes(k, a@, b@)[j],
            forall|j: int| i <= j < N ==> r@[j] == b@[j],
        decreases N - i,
    {
        if test_bit(k, i) {
            r[i] = a[i];
        }
        i = i + 1;
    }
    assert(r@ =~= select_lanes(k, a@, b@));
    r
}

/// `N` lanes that all hold `x`.
pub fn splat<T: Copy, const N: usize>(x: T) -> (r: [T; N])
    ensures
        r@ == Seq::new(N as nat, |i: int| x),
{
    let r: [T; N] = [x; N];
    assert(r@ =~= Seq::new(N as nat, |i: int| x));
    r
}

/// The lanes of a scalar operation: lane 0 is `low` where bit 0 of `k` is set
/// and lane 0 of `src` where it is clear; every other lane is that of `upper`.
pub open spec fn select_low_lane<T>(k: u64, low: T, src: Seq<T>, upper: Seq<T>) -> Seq<T> {
    upper.update(
        0,
        if mask_bit(k, 0) {
            low
        } else {
            src[0]
        },
    )
}

/// Places a scalar result under a mask: lane 0 is `low` or lane 0 of `src`, by
/// bit 0 of `k`; the lanes above come from `upper`. No other bit of `k` is
/// read.
pub fn simd_select_low<T: Copy, const N: usize>(k: u64, low: T, src: &[T; N], upper: &[T; N]) -> (r:
    [T; N])
    requires
        0 < N,
    ensures
        r@ == select_low_lane(k, low, src@, upper@),
{
    let mut r: [T; N] = *upper;
    if test_bit(k, 0) {
        r[0] = low;
    } else {
        r[0] = src[0];
    }
    assert(r@ =~= select_low_lane(k, low, src@, upper@));
    r
}

/// No bit of the empty mask is set.
pub proof fn lemma_no_bit_of_zero(i: int)
    ensures
        !mask_bit(0, i),
{
    if 0 <= i < 64 {
        let s = i as u64;
        assert((0u64 >> s) & 1 == 0) by (bit_vector);
    }
}

/// The low eight bits of `0xff` and the low sixteen bits of `0xffff` are set.
pub proof fn lemma_bits_of_all_ones(i: int)
    ensures
        0 <= i < 8 ==> mask_bit(0xff, i),
        0 <= i < 16 ==> mask_bit(0xffff, i),
{
    if 0 <= i < 16 {
        let s = i as u64;
        assert(s < 8 ==> (0xffu64 >> s) & 1 == 1) by (bit_vector);
        assert(s < 16 ==> (0xffffu64 >> s) & 1 == 1) by (bit_vector);
    }
}

/// Under the empty mask no lane is replaced: the result is the fallback.
pub proof fn lemma_select_none<T>(a: Seq<T>, b: Seq<T>)
    requires
        a.len() == b.len(),
    ensures
        select_lanes(0, a, b) == b,
{
    assert forall|i: int| 0 <= i < a.len() implies select_lanes(0, a, b)[i] == b[i] by {
        lemma_no_bit_of_zero(i);
    }
    assert(select_lanes(0, a, b) =~= b);
}

/// Under a mask whose bit is set for every lane, every lane is replaced: the
/// result is the computed value. Bits above the lane count play no part.
pub proof fn lemma_select_all<T>(k: u64, a: Seq<T>, b: Seq<T>)
    requires
        forall|i: int| 0 <= i < a.len() ==> mask_bit(k, i),
    ensures
        select_lanes(k, a, b) == a,
{
    assert(select_lanes(k, a, b) =~= a);
}

/// Each lane of a selection depends on its own bit and its own two inputs
/// only: two selections that agree there agree in that lane.
pub proof fn lemma_select_lane_independent<T>(
    k1: u64,
    a1: Seq<T>,
    b1: Seq<T>,
    k2: u64,
    a2: Seq<T>,
    b2: Seq<T>,
    i: int,
)
    requires
        0 <= i < a1.len(),
        0 <= i < a2.len(),
        mask_bit(k1, i) == mask_bit(k2, i),
        a1[i] == a2[i],
        b1[i] == b2[i],
    ensures
        select_lanes(k1, a1, b1)[i] == select_lanes(k2, a2, b2)[i],
{
}

/// Bits of the mask at or above the lane count are ignored.
pub proof fn lemma_select_ignores_high_bits<T>(k1: u64, k2: u64, a: Seq<T>, b: Seq<T>)
    requires
        forall|i: int| 0 <= i < a.len() ==> mask_bit(k1, i) == mask_bit(k2, i),
    ensures
        select_lanes(k1, a, b) == select_lanes(k2, a, b),
{
    assert(select_lanes(k1, a, b) =~= select_lanes(k2, a, b));
}

} // verus!
