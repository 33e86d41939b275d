//! The entry points that every lane-wise operation comes with: plain, with a
//! rounding mode, write-masked and zero-masked, over all lanes or over the
//! lowest lane only.
//!
//! The operation on one lane is the caller's. It is given as a function
//! value, and these functions say in which lanes its result stands. The
//! rounding mode is given as a type, and so is fixed where the call is
//! written.
use crate::lanes::{
    lemma_no_bit_of_zero, lemma_select_none, mask_bit, select_lanes, simd_select_bitmask,
    simd_select_low, splat,
};
use vstd::prelude::*;

verus! {

/// How an inexact result is rounded. The set is closed: no other mode can be
/// asked for.
#[derive(Clone, Copy, Debug, PartialEq, Eq, Structural)]
pub enum Rounding {
    /// To the nearest representable value, ties to even.
    Nearest,
    /// Towards negative infinity.
    Down,
    /// Towards positive infinity.
    Up,
    /// Towards zero.
    Truncate,
    /// As the processor's control register says at the time of the call.
    Current,
}

impl Default for Rounding {
    /// The mode of every operation that names none.
    fn default() -> (r: Rounding)
        ensures
            r == Rounding::Current,
    {
        Rounding::Current
    }
}

/// A rounding mode fixed where the call is written. An operation takes its
/// mode as a type that has this trait, so the mode is known when the program
/// is compiled and cannot come from a value computed while it runs.
pub trait RoundingMode {
    /// The mode that the type stands for.
    spec fn selector() -> Rounding;

    /// The mode that the type stands for, as a value to hand to the
    /// operation on one lane.
    fn mode() -> (r: Rounding)
        ensures
            r == Self::selector(),
    ;
}

/// Stands for `Rounding::Nearest`.
pub struct ToNearest;

/// Stands for `Rounding::Down`.
pub struct TowardNegative;

/// Stands for `Rounding::Up`.
pub struct TowardPositive;

/// Stands for `Rounding::Truncate`.
pub struct TowardZero;

/// Stands for `Rounding::Current`, the default mode.
pub struct CurrentDirection;

impl RoundingMode for ToNearest {
    open spec fn selector() -> Rounding {
        Rounding::Nearest
    }

    fn mode() -> (r: Rounding) {
        Rounding::Nearest
    }
}

impl RoundingMode for TowardNegative {
    open spec fn selector() -> Rounding {
        Rounding::Down
    }

    fn mode() -> (r: Rounding) {
        Rounding::Down
    }
}

impl RoundingMode for TowardPositive {
    open spec fn selector() -> Rounding {
        Rounding::Up
    }

    fn mode() -> (r: Rounding) {
        Rounding::Up
    }
}

impl RoundingMode for TowardZero {
    open spec fn selector() -> Rounding {
        Rounding::Truncate
    }

    fn mode() -> (r: Rounding) {
        Rounding::Truncate
    }
}

impl RoundingMode for CurrentDirection {
    open spec fn selector() -> Rounding {
        Rounding::Current
    }

    fn mode() -> (r: Rounding) {
        Rounding::Current
    }
}

/// Every lane of `c` is a result of `op` on that lane of `a` and of `b` under
/// the mode `round`.
pub open spec fn computes<T, F: Fn(T, T, Rounding) -> T>(
    op: F,
    round: Rounding,
    a: Seq<T>,
    b: Seq<T>,
    c: Seq<T>,
) -> bool {
    &&& c.len() == a.len()
    &&& forall|i: int| 0 <= i < a.len() ==> op.ensures((a[i], b[i], round), #[trigger] c[i])
}

/// Every lane of `r` whose bit in `k` is set is a result of `op` on that lane
/// of `a` and of `b`; every other lane is that lane of `src`.
pub open spec fn write_masked<T, F: Fn(T, T, Rounding) -> T>(
    op: F,
    round: Rounding,
    src: Seq<T>,
    k: u64,
    a: Seq<T>,
    b: Seq<T>,
    r: Seq<T>,
) -> bool {
    &&& r.len() == a.len()
    &&& forall|i: int|
        0 <= i < a.len() ==> if mask_bit(k, i) {
            op.ensures((a[i], b[i], round), #[trigger] r[i])
        } else {
            r[i] == src[i]
        }
}

/// Lane 0 of `r` is a result of `op` on lane 0 of `a` and of `b` where bit 0
/// of `k` is set, and lane 0 of `src` where it is clear; the lanes above are
/// those of `a`.
pub open spec fn write_masked_low<T, F: Fn(T, T, Rounding) -> T>(
    op: F,
    round: Rounding,
    src: Seq<T>,
    k: u64,
    a: Seq<T>,
    b: Seq<T>,
    r: Seq<T>,
) -> bool {
    &&& r == a.update(0, r[0])
    &&& if mask_bit(k, 0) {
        op.ensures((a[0], b[0], round), r[0])
    } else {
        r[0] == src[0]
    }
}

/// `op` gives one result for each choice of arguments.
pub open spec fn single_valued<T, F: Fn(T, T, Rounding) -> T>(op: F) -> bool {
    forall|x: T, y: T, m: Rounding, r1: T, r2: T|
        #![trigger op.ensures((x, y, m), r1), op.ensures((x, y, m), r2)]
        op.ensures((x, y, m), r1) && op.ensures((x, y, m), r2) ==> r1 == r2
}

/// `op` may be called on each pair of lanes of `a` and `b` under the mode
/// `round`.
pub open spec fn callable_on<T, F: Fn(T, T, Rounding) -> T>(
    op: F,
    round: Rounding,
    a: Seq<T>,
    b: Seq<T>,
) -> bool {
    forall|i: int| 0 <= i < a.len() ==> op.requires((#[trigger] a[i], b[i], round))
}

/// Applies `op` to each pair of lanes under the mode `R`.
pub fn lanewise_round<R: RoundingMode, T: Copy, const N: usize, F: Fn(T, T, Rounding) -> T>(
    a: &[T; N],
    b: &[T; N],
    op: F,
) -> (r: [T; N])
    requires
        callable_on(op, R::selector(), a@, b@),
    ensures
        computes(op, R::selector(), a@, b@, r@),
{
    let round = R::mode();
    let mut r: [T; N] = *a;
    let mut i: usize = 0;
    while i < N
        invariant
            i <= N,
            callable_on(op, round, a@, b@),
            forall|j: int| 0 <= j < i ==> op.ensures((a@[j], b@[j], round), #[trigger] r@[j]),
        decreases N - i,
    {
        r[i] = op(a[i], b[i], round);
        i = i + 1;
    }
    r
}

/// Applies `op` to each pair of lanes under the default mode: the plain form
/// is the rounding form at `CurrentDirection`.
pub fn lanewise<T: Copy, const N: usize, F: Fn(T, T, Rounding) -> T>(
    a: &[T; N],
    b: &[T; N],
    op: F,
) -> (r: [T; N])
    requires
        callable_on(op, Rounding::Current, a@, b@),
    ensures
        computes(op, Rounding::Current, a@, b@, r@),
{
    lanewise_round::<CurrentDirection, T, N, F>(a, b, op)
}

/// Applies `op` under the mode `R` and keeps its result in the lanes whose
/// bit in `k` is set; the other lanes are copied from `src`. The operation is
/// evaluated for every lane and the mask then selects.
pub fn mask_lanewise_round<R: RoundingMode, T: Copy, const N: usize, F: Fn(T, T, Rounding) -> T>(
    src: &[T; N],
    k: u64,
    a: &[T; N],
    b: &[T; N],
    op: F,
) -> (r: [T; N])
    requires
        callable_on(op, R::selector(), a@, b@),
    ensures
        write_masked(op, R::selector(), src@, k, a@, b@, r@),
        k == 0 ==> r@ == src@,
{
    let computed = lanewise_round::<R, T, N, F>(a, b, op);
    let r = simd_select_bitmask(k, &computed, src);
    proof {
        if k == 0 {
            lemma_select_none(computed@, src@);
        }
    }
    r
}

/// Applies `op` under the mode `R` and keeps its result in the lanes whose
/// bit in `k` is set; the other lanes are `zero`.
pub fn maskz_lanewise_round<R: RoundingMode, T: Copy, const N: usize, F: Fn(T, T, Rounding) -> T>(
    zero: T,
    k: u64,
    a: &[T; N],
    b: &[T; N],
    op: F,
) -> (r: [T; N])
    requires
        callable_on(op, R::selector(), a@, b@),
    ensures
        write_masked(op, R::selector(), Seq::new(N as nat, |i: int| zero), k, a@, b@, r@),
        k == 0 ==> r@ == Seq::new(N as nat, |i: int| zero),
{
    let src: [T; N] = splat(zero);
    mask_lanewise_round::<R, T, N, F>(&src, k, a, b, op)
}

/// Applies `op` to the lowest lanes of `a` and `b` under the mode `R`; the
/// result stands in lane 0 where bit 0 of `k` is set, and lane 0 of `src`
/// where it is clear. The lanes above are copied from `a`.
pub fn mask_lowest_round<R: RoundingMode, T: Copy, const N: usize, F: Fn(T, T, Rounding) -> T>(
    src: &[T; N],
    k: u64,
    a: &[T; N],
    b: &[T; N],
    op: F,
) -> (r: [T; N])
    requires
        0 < N,
        op.requires((a@[0], b@[0], R::selector())),
    ensures
        write_masked_low(op, R::selector(), src@, k, a@, b@, r@),
{
    let low = op(a[0], b[0], R::mode());
    let r = simd_select_low(k, low, src, a);
    assert(r@ =~= a@.update(0, r@[0]));
    r
}

/// The plain form and the rounding form at the default mode give the same
/// vector, for an operation that gives one result for each choice of
/// arguments.
pub proof fn lemma_plain_is_default_round<T, F: Fn(T, T, Rounding) -> T>(
    op: F,
    a: Seq<T>,
    b: Seq<T>,
    plain: Seq<T>,
    rounded: Seq<T>,
)
    requires
        single_valued(op),
        computes(op, Rounding::Current, a, b, plain),
        computes(op, Rounding::Current, a, b, rounded),
    ensures
        plain == rounded,
{
    assert forall|i: int| 0 <= i < a.len() implies plain[i] == rounded[i] by {
        assert(op.ensures((a[i], b[i], Rounding::Current), plain[i]));
        assert(op.ensures((a[i], b[i], Rounding::Current), rounded[i]));
    }
    assert(plain =~= rounded);
}

/// Under the empty mask no lane is updated: the write-masked form gives the
/// fallback vector, whatever the operation and its operands.
pub proof fn lemma_empty_mask_keeps_src<T, F: Fn(T, T, Rounding) -> T>(
    op: F,
    round: Rounding,
    src: Seq<T>,
    a: Seq<T>,
    b: Seq<T>,
    r: Seq<T>,
)
    requires
        src.len() == a.len(),
        write_masked(op, round, src, 0, a, b, r),
    ensures
        r == src,
{
    assert forall|i: int| 0 <= i < a.len() implies r[i] == src[i] by {
        lemma_no_bit_of_zero(i);
    }
    assert(r =~= src);
}

/// Under a mask with the bit of every lane set, the write-masked form gives
/// what the unmasked form gives, for an operation that gives one result for
/// each choice of arguments.
pub proof fn lemma_full_mask_is_unmasked<T, F: Fn(T, T, Rounding) -> T>(
    op: F,
    round: Rounding,
    src: Seq<T>,
    k: u64,
    a: Seq<T>,
    b: Seq<T>,
    masked: Seq<T>,
    unmasked: Seq<T>,
)
    requires
        single_valued(op),
        forall|i: int| 0 <= i < a.len() ==> mask_bit(k, i),
        write_masked(op, round, src, k, a, b, masked),
        computes(op, round, a, b, unmasked),
    ensures
        masked == unmasked,
{
    assert forall|i: int| 0 <= i < a.len() implies masked[i] == unmasked[i] by {
        assert(op.ensures((a[i], b[i], round), masked[i]));
        assert(op.ensures((a[i], b[i], round), unmasked[i]));
    }
    assert(masked =~= unmasked);
}

/// A lane of a write-masked result depends on that lane's bit of the mask and
/// on that lane of each operand and of the fallback, and on nothing else: two
/// results whose inputs agree there agree in that lane.
pub proof fn lemma_lane_independent<T, F: Fn(T, T, Rounding) -> T>(
    op: F,
    round: Rounding,
    i: int,
    src1: Seq<T>,
    k1: u64,
    a1: Seq<T>,
    b1: Seq<T>,
    r1: Seq<T>,
    src2: Seq<T>,
    k2: u64,
    a2: Seq<T>,
    b2: Seq<T>,
    r2: Seq<T>,
)
    requires
        single_valued(op),
        write_masked(op, round, src1, k1, a1, b1, r1),
        write_masked(op, round, src2, k2, a2, b2, r2),
        0 <= i < a1.len(),
        0 <= i < a2.len(),
        mask_bit(k1, i) == mask_bit(k2, i),
        a1[i] == a2[i],
        b1[i] == b2[i],
        src1[i] == src2[i],
    ensures
        r1[i] == r2[i],
{
    if mask_bit(k1, i) {
        assert(op.ensures((a1[i], b1[i], round), r1[i]));
        assert(op.ensures((a2[i], b2[i], round), r2[i]));
    }
}

/// Masking selects and does not short-circuit: a write-masked result is the
/// selection, by the mask, between the lanes computed for the whole vector
/// and the fallback, for an operation that gives one result for each choice
/// of arguments.
pub proof fn lemma_masking_is_selection<T, F: Fn(T, T, Rounding) -> T>(
    op: F,
    round: Rounding,
    src: Seq<T>,
    k: u64,
    a: Seq<T>,
    b: Seq<T>,
    masked: Seq<T>,
    computed: Seq<T>,
)
    requires
        single_valued(op),
        write_masked(op, round, src, k, a, b, masked),
        computes(op, round, a, b, computed),
    ensures
        masked == select_lanes(k, computed, src),
{
    assert forall|i: int| 0 <= i < a.len() implies masked[i] == select_lanes(k, computed, src)[i] by {
        if mask_bit(k, i) {
            assert(op.ensures((a[i], b[i], round), masked[i]));
            assert(op.ensures((a[i], b[i], round), computed[i]));
        }
    }
    assert(masked =~= select_lanes(k, computed, src));
}

} // verus!
