use core_arch::avx512f::arith::{
    _mm512_add_epi32, _mm512_add_epi64, _mm512_mask_add_epi32, _mm512_mask_add_epi64,
    _mm512_maskz_add_epi32, _mm512_maskz_add_epi64,
};
use core_arch::avx512f::set::{
    _mm512_set1_epi32, _mm512_set1_epi64, _mm512_set_epi32, _mm512_set_epi64, _mm512_setr_epi32,
    _mm512_setr_epi64, _mm512_setzero_si512,
};

#[test]
fn test__mm512_maskz_add_epi32() {
    let a = _mm512_set_epi32(1, 2, 3, 4, 5, 6, 7, 8, 9, 10, 11, 12, 13, 14, 15, 16);
    let b = _mm512_set_epi32(1, 1, 1, 1, 1, 1, 1, 1, 1, 1, 1, 1, 1, 1, 1, 1);
    let mask = 0b0000_1111_1111_1111;

    let expected = _mm512_set_epi32(0, 0, 0, 0, 6, 7, 8, 9, 10, 11, 12, 13, 14, 15, 16, 17);

    let r = _mm512_maskz_add_epi32(mask, a, b);
    assert_eq!(r, expected);
}

#[test]
fn test__mm512_add_epi32() {
    let a = _mm512_set_epi32(1, 2, 3, 4, 5, 6, 7, 8, 9, 10, 11, 12, 13, 14, 15, 16);
    let b = _mm512_set_epi32(1, 1, 1, 1, 1, 1, 1, 1, 1, 1, 1, 1, 1, 1, 1, 1);

    let expected = _mm512_set_epi32(2, 3, 4, 5, 6, 7, 8, 9, 10, 11, 12, 13, 14, 15, 16, 17);

    let r = _mm512_add_epi32(a, b);
    assert_eq!(r, expected);
}

#[test]
fn test__mm512_maskz_add_epi64() {
    let a = _mm512_set_epi64(1, 2, 3, 4, 5, 6, 7, 8);
    let b = _mm512_set_epi64(1, 1, 1, 1, 1, 1, 1, 1);
    let mask = 0b0000__1111;

    let expected = _mm512_set_epi64(0, 0, 0, 0, 6, 7, 8, 9);

    let r = _mm512_maskz_add_epi64(mask, a, b);
    assert_eq!(r, expected);
}

#[test]
fn test__mm512_add_epi64() {
    let a = _mm512_set_epi64(1, 2, 3, 4, 5, 6, 7, 8);
    let b = _mm512_set_epi64(1, 1, 1, 1, 1, 1, 1, 1);

    let expected = _mm512_set_epi64(2, 3, 4, 5, 6, 7, 8, 9);

    let r = _mm512_add_epi64(a, b);
    assert_eq!(r, expected);
}

#[test]
fn add_epi32_wraps_round_in_each_lane() {
    let a = _mm512_setr_epi32(
        i32::MAX,
        i32::MIN,
        -1,
        0,
        i32::MAX,
        i32::MIN,
        7,
        -7,
        0,
        0,
        0,
        0,
        0,
        0,
        0,
        i32::MAX,
    );
    let b = _mm512_setr_epi32(1, -1, 1, 0, i32::MAX, i32::MIN, -7, 7, 0, 0, 0, 0, 0, 0, 0, 2);
    let r = _mm512_add_epi32(a, b).as_i32x16();
    assert_eq!(r, [i32::MIN, i32::MAX, 0, 0, -2, 0, 0, 0, 0, 0, 0, 0, 0, 0, 0, i32::MIN + 1]);
}

#[test]
fn add_epi32_carries_nothing_into_the_next_lane() {
    // As 64-bit lanes the sum would carry from bit 31 into bit 32.
    let a = _mm512_set1_epi64(0x0000_0000_ffff_ffff);
    let b = _mm512_set1_epi64(1);
    assert_eq!(_mm512_add_epi32(a, b), _mm512_setzero_si512());
    assert_eq!(_mm512_add_epi64(a, b), _mm512_set1_epi64(0x0000_0001_0000_0000));
}

#[test]
fn add_epi64_wraps_round_in_each_lane() {
    let a = _mm512_setr_epi64(i64::MAX, i64::MIN, -1, 0, 1, 2, 3, i64::MAX);
    let b = _mm512_setr_epi64(1, -1, 1, 0, 1, 2, 3, i64::MAX);
    let r = _mm512_add_epi64(a, b).as_i64x8();
    assert_eq!(r, [i64::MIN, i64::MAX, 0, 0, 2, 4, 6, -2]);
}

#[test]
fn mask_add_epi32_copies_unselected_lanes_from_src() {
    let src = _mm512_set1_epi32(-9);
    let a = _mm512_setr_epi32(1, 2, 3, 4, 5, 6, 7, 8, 9, 10, 11, 12, 13, 14, 15, 16);
    let b = _mm512_set1_epi32(100);
    let r = _mm512_mask_add_epi32(src, 0b1000_0000_0000_0101, a, b).as_i32x16();
    assert_eq!(r, [101, -9, 103, -9, -9, -9, -9, -9, -9, -9, -9, -9, -9, -9, -9, 116]);
}

#[test]
fn mask_add_epi64_copies_unselected_lanes_from_src() {
    let src = _mm512_set1_epi64(-9);
    let a = _mm512_setr_epi64(1, 2, 3, 4, 5, 6, 7, 8);
    let b = _mm512_set1_epi64(100);
    let r = _mm512_mask_add_epi64(src, 0b1000_0110, a, b).as_i64x8();
    assert_eq!(r, [-9, 102, 103, -9, -9, -9, -9, 108]);
}

#[test]
fn empty_mask_updates_no_lane() {
    let src = _mm512_setr_epi32(9, 8, 7, 6, 5, 4, 3, 2, 1, 0, -1, -2, -3, -4, -5, -6);
    let a = _mm512_set1_epi32(1000);
    let b = _mm512_set1_epi32(2000);
    assert_eq!(_mm512_mask_add_epi32(src, 0, a, b), src);
    assert_eq!(_mm512_mask_add_epi64(src, 0, a, b), src);
    assert_eq!(_mm512_maskz_add_epi32(0, a, b), _mm512_setzero_si512());
    assert_eq!(_mm512_maskz_add_epi64(0, a, b), _mm512_setzero_si512());
}

#[test]
fn full_mask_is_the_plain_operation() {
    let src = _mm512_setr_epi32(9, 8, 7, 6, 5, 4, 3, 2, 1, 0, -1, -2, -3, -4, -5, -6);
    let a = _mm512_setr_epi32(1, -2, 3, -4, 5, -6, 7, -8, 9, -10, 11, -12, 13, -14, 15, i32::MAX);
    let b = _mm512_set1_epi32(2000);
    assert_eq!(_mm512_mask_add_epi32(src, 0xffff, a, b), _mm512_add_epi32(a, b));
    assert_eq!(_mm512_maskz_add_epi32(0xffff, a, b), _mm512_add_epi32(a, b));
    assert_eq!(_mm512_mask_add_epi64(src, 0xff, a, b), _mm512_add_epi64(a, b));
    assert_eq!(_mm512_maskz_add_epi64(0xff, a, b), _mm512_add_epi64(a, b));
}

#[test]
fn a_lane_depends_on_its_own_inputs_only() {
    let src1 = _mm512_setr_epi32(0, 0, 0, 0, 0, 77, 0, 0, 0, 0, 0, 0, 0, 0, 0, 0);
    let src2 = _mm512_setr_epi32(1, 2, 3, 4, 5, 77, 6, 7, 8, 9, 10, 11, 12, 13, 14, 15);
    let a1 = _mm512_setr_epi32(0, 0, 40, 0, 0, 0, 0, 0, 0, 0, 0, 0, 0, 0, 0, 0);
    let a2 = _mm512_setr_epi32(9, 9, 40, 9, 9, 9, 9, 9, 9, 9, 9, 9, 9, 9, 9, 9);
    let b1 = _mm512_setr_epi32(0, 0, 2, 0, 0, 0, 0, 0, 0, 0, 0, 0, 0, 0, 0, 0);
    let b2 = _mm512_setr_epi32(5, 5, 2, 5, 5, 5, 5, 5, 5, 5, 5, 5, 5, 5, 5, 5);
    // Bit 2 is set in both masks and bit 5 is clear in both; the other bits differ.
    let r1 = _mm512_mask_add_epi32(src1, 0b0000_0000_0000_0100, a1, b1).as_i32x16();
    let r2 = _mm512_mask_add_epi32(src2, 0b1111_1111_1101_1111, a2, b2).as_i32x16();
    assert_eq!(r1[2], 42);
    assert_eq!(r2[2], 42);
    assert_eq!(r1[5], 77);
    assert_eq!(r2[5], 77);
}
