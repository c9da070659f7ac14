use rysk_core::{Register, Register32};

#[test]
fn test_mul() {
    let all_bits: Register32 = 0xFFFF_FFFFu32.into();

    assert_eq!(all_bits.mul(2.into()), 0xFFFF_FFFEu32.into()); // 0xFFFF_FFFE == -2
    assert_eq!(all_bits.mulh(2.into()), (-1).into());
    assert_eq!(all_bits.mulhu(2.into()), 0x1u32.into());
    assert_eq!(all_bits.mulhsu(2.into()), (-1).into());
}

#[test]
fn test_div() {
    let neg_sixteen: Register32 = (-16).into();
    let thirty_five: Register32 = 35.into();
    assert_eq!(neg_sixteen.div(4.into()), (-4).into());

    assert_eq!(thirty_five.div((-9).into()), (-3).into());
    assert_eq!(thirty_five.div(9.into()), 3.into());
    assert_eq!(thirty_five.divu(9.into()), 3.into());

    // Division by zero is defined, so that simple harts need no trap for it
    assert_eq!(thirty_five.div(0.into()), (-1).into());
    assert_eq!(thirty_five.divu(0.into()), 0xFFFF_FFFFu32.into());

    // Overflow
    let max_neg: Register32 = std::i32::MIN.into();
    assert_eq!(max_neg.div((-1).into()), max_neg);
}

#[test]
fn test_rem() {
    let neg_nine: Register32 = (-9).into();
    let thirty_five: Register32 = 35.into();

    // Sign is of the dividend
    assert_eq!(neg_nine.rem(4.into()), (-1).into());
    assert_eq!(thirty_five.rem((-6).into()), 5.into());

    assert_eq!(thirty_five.rem(6.into()), 5.into());
    assert_eq!(thirty_five.remu(6.into()), 5.into());

    // Remainder from division by 0 is the dividend
    assert_eq!(thirty_five.rem(0.into()), thirty_five);

    // Overflow
    let max_neg: Register32 = (-2i32).pow(31).into();
    assert_eq!(max_neg.rem((-1).into()), 0.into());
}

#[test]
fn high_products_of_the_extreme_factors() {
    let least: Register32 = i32::MIN.into();
    let greatest: Register32 = i32::MAX.into();
    let all_bits: Register32 = 0xFFFF_FFFFu32.into();
    // (-2^31)^2 = 2^62
    assert_eq!(least.mul(least), 0.into());
    assert_eq!(least.mulh(least), 0x4000_0000u32.into());
    // (2^32 - 1)^2 = 2^64 - 2^33 + 1
    assert_eq!(all_bits.mul(all_bits), 1.into());
    assert_eq!(all_bits.mulhu(all_bits), 0xFFFF_FFFEu32.into());
    // -1 * (2^32 - 1)
    assert_eq!(all_bits.mulhsu(all_bits), 0xFFFF_FFFFu32.into());
    // (2^31 - 1) * (-2^31) = -2^62 + 2^31
    assert_eq!(greatest.mulh(least), 0xC000_0000u32.into());
    assert_eq!(greatest.mul(least), 0x8000_0000u32.into());
    // -1 * -1 = 1
    assert_eq!(all_bits.mulh(all_bits), 0.into());
}

#[test]
fn unsigned_division_and_remainder() {
    let all_bits: Register32 = 0xFFFF_FFFFu32.into();
    assert_eq!(all_bits.divu(2.into()), 0x7FFF_FFFFu32.into());
    assert_eq!(all_bits.remu(16.into()), 15.into());
    assert_eq!(all_bits.remu(0.into()), all_bits);
    let zero: Register32 = 0.into();
    assert_eq!(zero.divu(all_bits), zero);
    assert_eq!(zero.div(0.into()), all_bits);
    assert_eq!(zero.rem(0.into()), zero);
}

#[test]
fn division_rounds_toward_zero() {
    let seven: Register32 = 7.into();
    let minus_seven: Register32 = (-7).into();
    assert_eq!(seven.div(2.into()), 3.into());
    assert_eq!(minus_seven.div(2.into()), (-3).into());
    assert_eq!(seven.div((-2).into()), (-3).into());
    assert_eq!(minus_seven.div((-2).into()), 3.into());
    assert_eq!(seven.rem(2.into()), 1.into());
    assert_eq!(minus_seven.rem(2.into()), (-1).into());
    assert_eq!(seven.rem((-2).into()), 1.into());
    assert_eq!(minus_seven.rem((-2).into()), (-1).into());
}
