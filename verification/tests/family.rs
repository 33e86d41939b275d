use core_arch::family::{
    lanewise, lanewise_round, mask_lanewise_round, mask_lowest_round, maskz_lanewise_round,
    CurrentDirection, Rounding, RoundingMode, ToNearest, TowardNegative, TowardPositive,
    TowardZero,
};
use core_arch::lanes::{simd_select_bitmask, simd_select_low, splat, test_bit};

fn add_f64(x: f64, y: f64, _round: Rounding) -> f64 {
    x + y
}

fn add_f32(x: f32, y: f32, _round: Rounding) -> f32 {
    x + y
}

fn max_f64(x: f64, y: f64, _round: Rounding) -> f64 {
    if x > y {
        x
    } else {
        y
    }
}

/// Eight lanes from arguments written highest lane first.
fn set_pd(a: f64, b: f64, c: f64, d: f64, e: f64, f: f64, g: f64, h: f64) -> [f64; 8] {
    [h, g, f, e, d, c, b, a]
}

#[test]
fn plain_add_of_eight_doubles() {
    let a = set_pd(1.0, 2.0, 3.0, 4.0, 5.0, 6.0, 7.0, 8.0);
    let b = set_pd(1.0, 1.0, 1.0, 1.0, 1.0, 1.0, 1.0, 1.0);
    let expected = set_pd(2.0, 3.0, 4.0, 5.0, 6.0, 7.0, 8.0, 9.0);
    assert_eq!(lanewise(&a, &b, add_f64), expected);
}

#[test]
fn zero_masked_add_of_eight_doubles() {
    let a = set_pd(1.0, 2.0, 3.0, 4.0, 5.0, 6.0, 7.0, 8.0);
    let b = set_pd(1.0, 1.0, 1.0, 1.0, 1.0, 1.0, 1.0, 1.0);
    let expected = set_pd(2.0, 0.0, 4.0, 0.0, 6.0, 0.0, 8.0, 0.0);
    let r = maskz_lanewise_round::<CurrentDirection, _, _, _>(0.0, 0b1010_1010, &a, &b, add_f64);
    assert_eq!(r, expected);
}

#[test]
fn masked_add_over_a_zero_fallback_is_the_zero_masked_add() {
    let a = set_pd(8.0, 7.0, 6.0, 5.0, 4.0, 3.0, 2.0, 1.0);
    let b = [1.0f64; 8];
    let zero = [0.0f64; 8];
    let expected = set_pd(9.0, 0.0, 7.0, 0.0, 5.0, 0.0, 3.0, 0.0);
    let masked = mask_lanewise_round::<CurrentDirection, _, _, _>(&zero, 0b1010_1010, &a, &b, add_f64);
    let zero_masked = maskz_lanewise_round::<CurrentDirection, _, _, _>(0.0, 0b1010_1010, &a, &b, add_f64);
    assert_eq!(masked, expected);
    assert_eq!(zero_masked, expected);
    assert_eq!(masked, [0.0, 3.0, 0.0, 5.0, 0.0, 7.0, 0.0, 9.0]);
}

#[test]
fn zero_masked_add_of_sixteen_floats() {
    let a: [f32; 16] = [
        8.0, 7.0, 6.0, 5.0, 4.0, 3.0, 2.0, 1.0, 8.0, 7.0, 6.0, 5.0, 4.0, 3.0, 2.0, 1.0,
    ];
    let b = [1.0f32; 16];
    let plain = lanewise(&a, &b, add_f32);
    assert_eq!(
        plain,
        [9.0, 8.0, 7.0, 6.0, 5.0, 4.0, 3.0, 2.0, 9.0, 8.0, 7.0, 6.0, 5.0, 4.0, 3.0, 2.0]
    );
    let r = maskz_lanewise_round::<CurrentDirection, _, _, _>(0.0, 0b1010_1010_1010_1010, &a, &b, add_f32);
    assert_eq!(
        r,
        [0.0, 8.0, 0.0, 6.0, 0.0, 4.0, 0.0, 2.0, 0.0, 8.0, 0.0, 6.0, 0.0, 4.0, 0.0, 2.0]
    );
}

#[test]
fn masked_scalar_add_with_bit_0_clear_takes_src() {
    // Lanes lowest first: a = [2, 1], src = [9, 9].
    let a = [2.0f64, 1.0];
    let b = [1.0f64, 1.0];
    let src = [9.0f64, 9.0];
    let r = mask_lowest_round::<CurrentDirection, _, _, _>(&src, 0b1010_1010, &a, &b, add_f64);
    assert_eq!(r, [9.0, 1.0]);
}

#[test]
fn scalar_add_with_bit_0_set_adds_the_lowest_lane_only() {
    let a = [2.0f64, 8.0];
    let b = [1.0f64, 1.0];
    let zero = [0.0f64; 2];
    let r = mask_lowest_round::<CurrentDirection, _, _, _>(&zero, 0xff, &a, &b, add_f64);
    assert_eq!(r, [3.0, 8.0]);

    let a = [2.0f32, 1.0, 2.0, 1.0];
    let b = [1.0f32, 1.0, 1.0, 1.0];
    let src = [9.0f32; 4];
    let r = mask_lowest_round::<CurrentDirection, _, _, _>(&src, 1, &a, &b, add_f32);
    assert_eq!(r, [3.0, 1.0, 2.0, 1.0]);

    let a = [2.0f32, 1.0, 2.0, 1.0];
    let b = [3.0f32, 2.0, 3.0, 2.0];
    let r = mask_lowest_round::<CurrentDirection, _, _, _>(&[0.0f32; 4], 255, &a, &b, add_f32);
    assert_eq!(r, [5.0, 1.0, 2.0, 1.0]);
}

#[test]
fn masked_max_copies_unselected_lanes() {
    let a = [1.0f64, 5.0, -3.0, 0.0, 9.0, 2.0, 2.0, -7.0];
    let b = [4.0f64, 4.0, -4.0, 0.5, 8.0, 2.0, 3.0, -8.0];
    let src = [100.0f64; 8];
    let r = mask_lanewise_round::<CurrentDirection, _, _, _>(&src, 0b0011_0111, &a, &b, max_f64);
    assert_eq!(r, [4.0, 5.0, -3.0, 100.0, 9.0, 2.0, 100.0, 100.0]);
}

#[test]
fn the_plain_form_is_the_rounding_form_at_the_default_mode() {
    assert_eq!(Rounding::default(), Rounding::Current);
    let scale = |x: i32, y: i32, round: Rounding| match round {
        Rounding::Nearest => x + y,
        Rounding::Down => x + 10 * y,
        Rounding::Up => x + 100 * y,
        Rounding::Truncate => x + 1000 * y,
        Rounding::Current => x + 10000 * y,
    };
    let a = [1, 2, 3, 4];
    let b = [1, 1, 2, 2];
    assert_eq!(lanewise(&a, &b, scale), [10001, 10002, 20003, 20004]);
    assert_eq!(
        lanewise(&a, &b, scale),
        lanewise_round::<CurrentDirection, _, _, _>(&a, &b, scale)
    );
    assert_eq!(lanewise_round::<ToNearest, _, _, _>(&a, &b, scale), [2, 3, 5, 6]);
    assert_eq!(lanewise_round::<TowardNegative, _, _, _>(&a, &b, scale), [11, 12, 23, 24]);
    assert_eq!(lanewise_round::<TowardPositive, _, _, _>(&a, &b, scale), [101, 102, 203, 204]);
    assert_eq!(lanewise_round::<TowardZero, _, _, _>(&a, &b, scale), [1001, 1002, 2003, 2004]);
    assert_eq!(
        mask_lanewise_round::<TowardPositive, _, _, _>(&[0; 4], 0b0110, &a, &b, scale),
        [0, 102, 203, 0]
    );
}

#[test]
fn the_empty_mask_gives_the_fallback_and_the_full_mask_the_plain_result() {
    let a = [1.5f64, 2.5, 3.5, 4.5, 5.5, 6.5, 7.5, 8.5];
    let b = [0.25f64; 8];
    let src = [-1.0f64, -2.0, -3.0, -4.0, -5.0, -6.0, -7.0, -8.0];
    assert_eq!(mask_lanewise_round::<CurrentDirection, _, _, _>(&src, 0, &a, &b, add_f64), src);
    assert_eq!(maskz_lanewise_round::<CurrentDirection, _, _, _>(0.0, 0, &a, &b, add_f64), [0.0; 8]);
    let plain = lanewise(&a, &b, add_f64);
    assert_eq!(mask_lanewise_round::<CurrentDirection, _, _, _>(&src, 0xff, &a, &b, add_f64), plain);
    assert_eq!(maskz_lanewise_round::<CurrentDirection, _, _, _>(0.0, 0xff, &a, &b, add_f64), plain);
    // Bits above the lane count are ignored.
    assert_eq!(mask_lanewise_round::<CurrentDirection, _, _, _>(&src, 0xff00, &a, &b, add_f64), src);
    assert_eq!(mask_lanewise_round::<CurrentDirection, _, _, _>(&src, u64::MAX, &a, &b, add_f64), plain);
}

#[test]
fn select_reads_one_bit_for_each_lane() {
    let a = ['a', 'b', 'c', 'd', 'e'];
    let b = ['v', 'w', 'x', 'y', 'z'];
    assert_eq!(simd_select_bitmask(0b00000, &a, &b), b);
    assert_eq!(simd_select_bitmask(0b11111, &a, &b), a);
    assert_eq!(simd_select_bitmask(0b01001, &a, &b), ['a', 'w', 'x', 'd', 'z']);
    assert_eq!(simd_select_bitmask(0b10110, &a, &b), ['v', 'b', 'c', 'y', 'e']);
    assert_eq!(simd_select_bitmask(0b1110_0000, &a, &b), b);

    let ones = [1u8; 70];
    let zeros = [0u8; 70];
    let r = simd_select_bitmask(0x8000_0000_0000_0001, &ones, &zeros);
    for i in 0..70 {
        assert_eq!(r[i], if i == 0 || i == 63 { 1 } else { 0 });
    }
    let r = simd_select_bitmask(u64::MAX, &ones, &zeros);
    for i in 0..70 {
        assert_eq!(r[i], if i < 64 { 1 } else { 0 });
    }
}

#[test]
fn select_low_reads_bit_0_only() {
    let src = [10, 20, 30];
    let upper = [1, 2, 3];
    assert_eq!(simd_select_low(0b1, 99, &src, &upper), [99, 2, 3]);
    assert_eq!(simd_select_low(0b0, 99, &src, &upper), [10, 2, 3]);
    assert_eq!(simd_select_low(0b1111_1110, 99, &src, &upper), [10, 2, 3]);
    assert_eq!(simd_select_low(u64::MAX, 99, &src, &upper), [99, 2, 3]);
}

#[test]
fn test_bit_reads_the_bit_at_the_index() {
    assert!(test_bit(0b0100, 2));
    assert!(!test_bit(0b0100, 1));
    assert!(!test_bit(0b0100, 3));
    assert!(test_bit(1 << 63, 63));
    assert!(!test_bit(0, 0));
    assert!(test_bit(u64::MAX, 40));
    assert!(!test_bit(u64::MAX, 64));
    assert!(!test_bit(u64::MAX, 1000));
}

#[test]
fn splat_fills_every_lane() {
    let v: [i16; 7] = splat(-4);
    assert_eq!(v, [-4; 7]);
    let w: [f64; 8] = splat(2.5);
    assert_eq!(w, [2.5; 8]);
}

#[test]
fn each_mode_type_stands_for_its_mode() {
    assert_eq!(ToNearest::mode(), Rounding::Nearest);
    assert_eq!(TowardNegative::mode(), Rounding::Down);
    assert_eq!(TowardPositive::mode(), Rounding::Up);
    assert_eq!(TowardZero::mode(), Rounding::Truncate);
    assert_eq!(CurrentDirection::mode(), Rounding::Current);
    assert_eq!(CurrentDirection::mode(), Rounding::default());
}
