use turns::{Angle, Angle128, Angle16, Angle32, Angle64, Angle8};

#[test]
fn widen_angle8_to_angle16_preserves_pi() {
    assert_eq!(Angle::<u8>(0x80).cast::<u16>(), Angle(0x8000_u16));
}

#[test]
fn narrow_angle16_to_angle8_keeps_top_bits() {
    assert_eq!(Angle::<u16>(0x80FF).cast::<u8>(), Angle(0x80_u8));
}

#[test]
fn identity_same_width() {
    assert_eq!(
        Angle::<u32>(0xDEAD_BEEF).cast::<u32>(),
        Angle(0xDEAD_BEEF_u32),
    );
}

#[test]
fn add_wraps_past_tau() {
    let pi: Angle8 = Angle(0x80);
    assert_eq!(pi + pi, Angle(0));
}

#[test]
fn sub_wraps_below_zero() {
    let zero: Angle8 = Angle(0);
    let pi: Angle8 = Angle(0x80);
    assert_eq!(zero - pi, pi);
}

#[test]
fn mul_three_pi_wraps_to_pi() {
    let pi: Angle8 = Angle(0x80);
    assert_eq!(pi * 3_u8, Angle(0x80));
}

#[test]
fn div_halves_pi() {
    let pi: Angle8 = Angle(0x80);
    assert_eq!(pi / 2_u8, Angle(0x40));
}

#[test]
fn checked_mul_detects_overflow() {
    let a: Angle8 = Angle(200);
    assert!(a.checked_mul(2).is_none());
    assert_eq!(a.checked_mul(1), Some(a));
}

#[test]
fn checked_div_by_zero_is_none() {
    let a: Angle8 = Angle(0x80);
    assert!(a.checked_div(0).is_none());
    assert_eq!(a.checked_div(2), Some(Angle(0x40)));
}

#[test]
fn neg_pi_is_pi() {
    let pi: Angle8 = Angle(0x80);
    assert_eq!(-pi, pi);
}

#[test]
fn neg_frac_pi_2_is_three_quarter_turn() {
    let quarter: Angle8 = Angle(0x40);
    assert_eq!(-quarter, Angle(0xC0));
}

#[test]
fn shl_doubles_angle() {
    let eighth: Angle8 = Angle(0x20);
    assert_eq!(eighth << 1, Angle(0x40));
}

#[test]
fn shr_halves_pi() {
    let pi: Angle8 = Angle(0x80);
    assert_eq!(pi >> 1, Angle(0x40));
}

#[test]
fn shl_past_width_saturates_to_zero() {
    let a: Angle8 = Angle(0xFF);
    assert_eq!(a << 8, Angle(0));
    assert_eq!(a << 100, Angle(0));
}

#[test]
fn shr_past_width_saturates_to_zero() {
    let a: Angle8 = Angle(0xFF);
    assert_eq!(a >> 8, Angle(0));
    assert_eq!(a >> 100, Angle(0));
}

#[test]
fn widen_then_narrow_is_lossless() {
    let a: Angle8 = Angle(0b1010_1010);
    assert_eq!(a.cast::<u128>().cast::<u8>(), a);
}

// Named angles.

#[test]
fn named_angles_u8() {
    assert_eq!(Angle8::zero(), Angle(0));
    assert_eq!(Angle8::tau(), Angle8::zero());
    assert_eq!(Angle8::pi(), Angle(0x80));
    assert_eq!(Angle8::frac_pi_2(), Angle(0x40));
    assert_eq!(Angle8::frac_pi_3(), Angle(42));
    assert_eq!(Angle8::frac_pi_4(), Angle(0x20));
    assert_eq!(Angle8::frac_pi_6(), Angle(21));
    assert_eq!(Angle8::frac_pi_8(), Angle(0x10));
}

#[test]
fn named_angles_match_type_max() {
    assert_eq!(Angle16::pi(), Angle(u16::MAX / 2 + 1));
    assert_eq!(Angle32::frac_pi_2(), Angle(u32::MAX / 4 + 1));
    assert_eq!(Angle64::frac_pi_3(), Angle(u64::MAX / 6));
    assert_eq!(Angle64::frac_pi_8(), Angle(u64::MAX / 16 + 1));
    assert_eq!(Angle128::pi(), Angle(1u128 << 127));
    assert_eq!(Angle128::frac_pi_4(), Angle(u128::MAX / 8 + 1));
    assert_eq!(Angle128::frac_pi_6(), Angle(u128::MAX / 12));
    assert_eq!(Angle128::tau(), Angle(0));
}

// Laws on concrete values.

#[test]
fn half_turn_is_its_own_opposite_all_widths() {
    assert_eq!(-Angle16::pi(), Angle16::pi());
    assert_eq!(Angle32::pi() + Angle32::pi(), Angle32::zero());
    assert_eq!(-Angle128::pi(), Angle128::pi());
    assert_eq!(Angle128::pi() + Angle128::pi(), Angle128::zero());
}

#[test]
fn addition_is_commutative_and_associative() {
    let a: Angle16 = Angle(0xF000);
    let b: Angle16 = Angle(0x2345);
    let c: Angle16 = Angle(0x9ABC);
    assert_eq!(a + b, b + a);
    assert_eq!((a + b) + c, a + (b + c));
    assert_eq!(a + b, Angle(0x1345));
}

#[test]
fn sub_undoes_add_across_wraparound() {
    let a: Angle64 = Angle(u64::MAX - 3);
    let b: Angle64 = Angle(10);
    assert_eq!(a + b, Angle(6));
    assert_eq!((a + b) - b, a);
    assert_eq!(a - b, a + (-b));
}

#[test]
fn opposite_adds_to_zero_and_is_involutive() {
    let a: Angle32 = Angle(0x1234_5678);
    assert_eq!(a + (-a), Angle32::zero());
    assert_eq!(-(-a), a);
    assert_eq!(-a, Angle(0xEDCB_A988));
    assert_eq!(-Angle8::zero(), Angle8::zero());
}

#[test]
fn zero_is_neutral() {
    let a: Angle128 = Angle(0x0123_4567_89AB_CDEF_0123_4567_89AB_CDEF);
    assert_eq!(a + Angle128::zero(), a);
    assert_eq!(a - Angle128::zero(), a);
}

#[test]
fn mul_wraps_at_full_turn() {
    let a: Angle16 = Angle(0x4000);
    assert_eq!(a * 4_u16, Angle(0));
    assert_eq!(a * 5_u16, Angle(0x4000));
    let b: Angle128 = Angle(u128::MAX);
    assert_eq!(b * 2_u128, Angle(u128::MAX - 1));
}

#[test]
fn checked_mul_agrees_with_mul_when_no_overflow() {
    let a: Angle32 = Angle(0x1000);
    assert_eq!(a.checked_mul(0x1000), Some(a * 0x1000));
    assert_eq!(a.checked_mul(0x1000), Some(Angle(0x100_0000)));
    assert_eq!(a.checked_mul(0x10_0000), None);
    assert_eq!(a.checked_mul(0x0F_FFFF), Some(Angle(0xFFFF_F000)));
    let b: Angle128 = Angle(u128::MAX);
    assert_eq!(b.checked_mul(2), None);
    assert_eq!(b.checked_mul(0), Some(Angle(0)));
}

#[test]
fn checked_div_rounds_down() {
    let a: Angle16 = Angle(1000);
    assert_eq!(a.checked_div(3), Some(Angle(333)));
    assert_eq!(a.checked_div(3), Some(a / 3));
    assert_eq!(Angle::<u128>(7).checked_div(0), None);
}

#[test]
fn div_rounds_down() {
    let a: Angle64 = Angle(7);
    assert_eq!(a / 2, Angle(3));
    assert_eq!(a / 8, Angle(0));
}

#[test]
fn shl_wraps_and_doubles() {
    let a: Angle8 = Angle(0xC1);
    assert_eq!(a << 1, Angle(0x82));
    assert_eq!(a << 1, a + a);
    assert_eq!(a << 7, Angle(0x80));
    assert_eq!(a << 0, a);
    let b: Angle128 = Angle(3);
    assert_eq!(b << 127, Angle(1u128 << 127));
    assert_eq!(b << 128, Angle(0));
    assert_eq!(b << usize::MAX, Angle(0));
}

#[test]
fn shr_rounds_down() {
    let a: Angle16 = Angle(0xFFFF);
    assert_eq!(a >> 15, Angle(1));
    assert_eq!(a >> 16, Angle(0));
    assert_eq!(a >> 4, Angle(0x0FFF));
    let b: Angle128 = Angle(u128::MAX);
    assert_eq!(b >> 127, Angle(1));
    assert_eq!(b >> 128, Angle(0));
}

#[test]
fn cast_narrowing_keeps_top_bits_all_widths() {
    let a: Angle128 = Angle(0xFEDC_BA98_7654_3210_0123_4567_89AB_CDEF);
    assert_eq!(a.cast::<u64>(), Angle(0xFEDC_BA98_7654_3210_u64));
    assert_eq!(a.cast::<u32>(), Angle(0xFEDC_BA98_u32));
    assert_eq!(a.cast::<u16>(), Angle(0xFEDC_u16));
    assert_eq!(a.cast::<u8>(), Angle(0xFE_u8));
}

#[test]
fn cast_widening_is_exact() {
    let a: Angle16 = Angle(0xABCD);
    assert_eq!(a.cast::<u32>(), Angle(0xABCD_0000_u32));
    assert_eq!(a.cast::<u64>(), Angle(0xABCD_0000_0000_0000_u64));
    assert_eq!(a.cast::<u128>(), Angle(0xABCD_u128 << 112));
    assert_eq!(a.cast::<u64>().cast::<u16>(), a);
    assert_eq!(Angle32::pi().cast::<u128>(), Angle128::pi());
    assert_eq!(Angle128::frac_pi_2().cast::<u8>(), Angle8::frac_pi_2());
}

#[test]
fn cast_same_width_is_identity() {
    let a: Angle128 = Angle(u128::MAX - 5);
    assert_eq!(a.cast::<u128>(), a);
    let b: Angle8 = Angle(7);
    assert_eq!(b.cast::<u8>(), b);
}
