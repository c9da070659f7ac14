//! The arithmetic of registers, stated over mathematical integers.
//!
//! A register of width `w` holds a bit pattern, which this module reads as the
//! natural number below `w.modulus()` that the pattern denotes in binary. Every
//! function here takes and returns such numbers; [`signed`] gives the
//! two's-complement reading where an operation needs it.

use vstd::prelude::*;
use crate::register::RegisterWidth;

verus! {

/// Whether `value` is the reading of some bit pattern of width `w`.
pub open spec fn fits(w: RegisterWidth, value: int) -> bool {
    0 <= value < w.modulus()
}

/// The bit pattern that is left of any integer when only the low bits are kept.
pub open spec fn wrap(w: RegisterWidth, value: int) -> int {
    value % w.modulus()
}

/// The two's-complement reading of a bit pattern.
pub open spec fn signed(w: RegisterWidth, value: int) -> int {
    if 2 * value >= w.modulus() {
        value - w.modulus()
    } else {
        value
    }
}

/// Addition that discards the carry out of the top bit.
pub open spec fn sum(w: RegisterWidth, a: int, b: int) -> int {
    wrap(w, a + b)
}

/// Subtraction that discards the borrow out of the top bit.
pub open spec fn difference(w: RegisterWidth, a: int, b: int) -> int {
    wrap(w, a - b)
}

/// Logical shift left by the shift amount of `b`, which is its low five bits
/// on 32 bits and its low six bits on 64.
pub open spec fn shift_left(w: RegisterWidth, a: int, b: int) -> int {
    match w {
        RegisterWidth::Bits32 => ((a as u32) << ((b % 32) as u32)) as int,
        RegisterWidth::Bits64 => ((a as u64) << ((b % 64) as u32)) as int,
    }
}

/// Logical shift right by the shift amount of `b`: zeros enter at the top.
pub open spec fn shift_right(w: RegisterWidth, a: int, b: int) -> int {
    match w {
        RegisterWidth::Bits32 => ((a as u32) >> ((b % 32) as u32)) as int,
        RegisterWidth::Bits64 => ((a as u64) >> ((b % 64) as u32)) as int,
    }
}

/// Arithmetic shift right by the shift amount of `b`: copies of the sign bit
/// enter at the top.
pub open spec fn shift_right_signed(w: RegisterWidth, a: int, b: int) -> int {
    match w {
        RegisterWidth::Bits32 => wrap(w, ((signed(w, a) as i32) >> ((b % 32) as u32)) as int),
        RegisterWidth::Bits64 => wrap(w, ((signed(w, a) as i64) >> ((b % 64) as u32)) as int),
    }
}

/// Bitwise AND.
pub open spec fn bit_and(a: int, b: int) -> int {
    ((a as u64) & (b as u64)) as int
}

/// Bitwise OR.
pub open spec fn bit_or(a: int, b: int) -> int {
    ((a as u64) | (b as u64)) as int
}

/// Bitwise exclusive OR.
pub open spec fn bit_xor(a: int, b: int) -> int {
    ((a as u64) ^ (b as u64)) as int
}

/// Bitwise NOT: every bit of the pattern flipped.
pub open spec fn complement(w: RegisterWidth, a: int) -> int {
    w.modulus() - 1 - a
}

/// Whether `a` is below `b` when both are read as two's complement.
pub open spec fn less_signed(w: RegisterWidth, a: int, b: int) -> bool {
    signed(w, a) < signed(w, b)
}

/// The low half of the double-width product. It is the same whether the
/// factors are read as signed or as unsigned.
pub open spec fn product(w: RegisterWidth, a: int, b: int) -> int {
    wrap(w, a * b)
}

/// The high half of the double-width product of two signed factors.
pub open spec fn product_high_signed(w: RegisterWidth, a: int, b: int) -> int {
    wrap(w, (signed(w, a) * signed(w, b)) / w.modulus())
}

/// The high half of the double-width product of two unsigned factors.
pub open spec fn product_high_unsigned(w: RegisterWidth, a: int, b: int) -> int {
    (a * b) / w.modulus()
}

/// The high half of the double-width product of a signed `a` and an unsigned `b`.
pub open spec fn product_high_mixed(w: RegisterWidth, a: int, b: int) -> int {
    wrap(w, (signed(w, a) * b) / w.modulus())
}

/// A quotient and a remainder below the divisor determine the division.
pub proof fn lemma_quotient_remainder(x: int, d: int, q: int, r: int)
    requires
        0 <= r < d,
        x == q * d + r,
    ensures
        x / d == q,
        x % d == r,
{
    vstd::arithmetic::div_mod::lemma_fundamental_div_mod_converse(x, d, q, r);
}

/// What [`wrap`] leaves of an integer that lies no more than one modulus
/// outside the range of the patterns: the modulus is added or taken off once.
pub proof fn lemma_wrap(w: RegisterWidth, value: int)
    requires
        -w.modulus() <= value < 2 * w.modulus(),
    ensures
        wrap(w, value) == if value < 0 {
            value + w.modulus()
        } else if value >= w.modulus() {
            value - w.modulus()
        } else {
            value
        },
{
    let m = w.modulus();
    if value < 0 {
        lemma_quotient_remainder(value, m, -1, value + m);
    } else if value >= m {
        lemma_quotient_remainder(value, m, 1, value - m);
    } else {
        lemma_quotient_remainder(value, m, 0, value);
    }
}

/// Multiples of the modulus make no difference to what [`wrap`] leaves.
pub proof fn lemma_wrap_multiple(w: RegisterWidth, value: int, multiple: int)
    ensures
        wrap(w, value + multiple * w.modulus()) == wrap(w, value),
{
    let m = w.modulus();
    vstd::arithmetic::div_mod::lemma_fundamental_div_mod(value, m);
    let q = value / m;
    let r = value % m;
    assert(0 <= r < m) by {
        vstd::arithmetic::div_mod::lemma_mod_bound(value, m);
    }
    vstd::arithmetic::mul::lemma_mul_is_distributive_add_other_way(m, q, multiple);
    vstd::arithmetic::mul::lemma_mul_is_commutative(m, q);
    assert(value + multiple * m == (q + multiple) * m + r);
    lemma_quotient_remainder(value + multiple * m, m, q + multiple, r);
}

/// The low bits of the lowest byte are the low bits of the number.
pub proof fn lemma_low_bits(value: int)
    ensures
        value % 0x100 % 2 == value % 2,
        value % 0x100 % 4 == value % 4,
{
    vstd::arithmetic::div_mod::lemma_mod_mod(value, 2, 0x80);
    vstd::arithmetic::div_mod::lemma_mod_mod(value, 4, 0x40);
}

/// A number below 2^32 is made of its four bytes.
pub proof fn lemma_word_digits(value: u32)
    by (bit_vector)
    ensures
        (value % 0x100) + 0x100 * (value / 0x100 % 0x100) + 0x1_0000 * (value / 0x1_0000 % 0x100)
            + 0x100_0000 * (value / 0x100_0000 % 0x100) == value as int,
{
}

/// The low half of a product does not depend on whether either factor is read
/// as signed or as unsigned.
pub proof fn lemma_product_signed(w: RegisterWidth, a: int, b: int)
    requires
        fits(w, a),
        fits(w, b),
    ensures
        wrap(w, signed(w, a) * signed(w, b)) == product(w, a, b),
        wrap(w, signed(w, a) * b) == product(w, a, b),
{
    let m = w.modulus();
    let sa = signed(w, a);
    let sb = signed(w, b);
    // The signed reading of `a` is `a` itself or `a` less the modulus
    if sa != a {
        assert(a == sa + m);
        vstd::arithmetic::mul::lemma_mul_is_distributive_add_other_way(b, sa, m);
        vstd::arithmetic::mul::lemma_mul_is_commutative(m, b);
        assert(a * b == sa * b + b * m);
        lemma_wrap_multiple(w, sa * b, b);
    }
    assert(wrap(w, sa * b) == wrap(w, a * b));
    // and so is that of `b`
    if sb != b {
        assert(b == sb + m);
        vstd::arithmetic::mul::lemma_mul_is_distributive_add(sa, sb, m);
        assert(sa * b == sa * sb + sa * m);
        lemma_wrap_multiple(w, sa * sb, sa);
    }
    assert(wrap(w, sa * sb) == wrap(w, sa * b));
}

/// The truncated quotient and remainder divide: the remainder is smaller in
/// magnitude than the divisor and has the sign of the dividend, so that the
/// quotient is rounded toward zero.
pub proof fn lemma_truncated_division(x: int, y: int)
    requires
        y != 0,
    ensures
        truncated_quotient(x, y) * y + truncated_remainder(x, y) == x,
        magnitude(truncated_remainder(x, y)) < magnitude(y),
        x >= 0 ==> truncated_remainder(x, y) >= 0,
        x <= 0 ==> truncated_remainder(x, y) <= 0,
{
    let a = magnitude(x);
    let b = magnitude(y);
    vstd::arithmetic::div_mod::lemma_fundamental_div_mod(a, b);
    vstd::arithmetic::div_mod::lemma_mod_bound(a, b);
    let q = a / b;
    assert(a == b * q + a % b);
    vstd::arithmetic::mul::lemma_mul_is_commutative(b, q);
    vstd::arithmetic::mul::lemma_mul_unary_negation(q, b);
    vstd::arithmetic::mul::lemma_mul_unary_negation(-q, b);
    vstd::arithmetic::mul::lemma_mul_unary_negation(q, -b);
    assert(q * y == q * b || q * y == -(q * b));
    assert((-q) * y == q * b || (-q) * y == -(q * b));
}

/// The two halves of a product make up the product: the low half is read as
/// unsigned, and the high half as the factors are.
pub proof fn lemma_product_halves(w: RegisterWidth, a: int, b: int)
    requires
        fits(w, a),
        fits(w, b),
    ensures
        product_high_unsigned(w, a, b) * w.modulus() + product(w, a, b) == a * b,
        signed(w, product_high_signed(w, a, b)) * w.modulus() + product(w, a, b) == signed(w, a)
            * signed(w, b),
        signed(w, product_high_mixed(w, a, b)) * w.modulus() + product(w, a, b) == signed(w, a)
            * b,
{
    let m = w.modulus();
    let sa = signed(w, a);
    let sb = signed(w, b);
    lemma_product_signed(w, a, b);
    // Unsigned: the quotient by the modulus is below the modulus
    vstd::arithmetic::div_mod::lemma_fundamental_div_mod(a * b, m);
    vstd::arithmetic::mul::lemma_mul_is_commutative(m, (a * b) / m);
    // Signed: the quotient lies in the signed range
    lemma_high_half(w, sa * sb, sa, sb);
    // Mixed
    lemma_high_half(w, sa * b, sa, b);
}

/// The high half of a product of a signed factor and a factor that fits the
/// width lies in the signed range, so that it is what its pattern reads as.
proof fn lemma_high_half(w: RegisterWidth, wide: int, x: int, y: int)
    requires
        wide == x * y,
        -(w.modulus() / 2) <= x < w.modulus() / 2,
        -(w.modulus() / 2) <= y < w.modulus(),
    ensures
        signed(w, wrap(w, wide / w.modulus())) * w.modulus() + wrap(w, wide) == wide,
{
    let m = w.modulus();
    let half = m / 2;
    // The magnitude of the product is at most half the square of the modulus
    let p = magnitude(x);
    let q = magnitude(y);
    vstd::arithmetic::mul::lemma_mul_upper_bound(p, half, q, m);
    vstd::arithmetic::mul::lemma_mul_nonnegative(p, q);
    vstd::arithmetic::mul::lemma_mul_unary_negation(p, q);
    vstd::arithmetic::mul::lemma_mul_unary_negation(-p, q);
    assert(wide == p * q || wide == -(p * q));
    assert(-(half * m) <= wide <= half * m);
    // where the bound itself is reached only by the least value times itself
    vstd::arithmetic::div_mod::lemma_fundamental_div_mod(wide, m);
    vstd::arithmetic::div_mod::lemma_mod_bound(wide, m);
    let high = wide / m;
    vstd::arithmetic::mul::lemma_mul_is_commutative(m, high);
    assert(wide == high * m + wide % m);
    assert(-half <= high <= half) by {
        if high > half {
            vstd::arithmetic::mul::lemma_mul_inequality(half + 1, high, m);
        }
        if high < -half {
            vstd::arithmetic::mul::lemma_mul_inequality(high, -half - 1, m);
        }
    }
    if high == half {
        // The product is then the square of half the modulus exactly, which
        // no factor below half the modulus gives
        assert(wide == half * m);
        assert(x != -half ==> p <= half - 1);
        if y < m - 1 || p <= half - 1 {
            if p <= half - 1 {
                vstd::arithmetic::mul::lemma_mul_upper_bound(p, half - 1, q, m);
                vstd::arithmetic::mul::lemma_mul_is_distributive_sub_other_way(m, half, 1);
            } else {
                vstd::arithmetic::mul::lemma_mul_upper_bound(p, half, q, m - 1);
                vstd::arithmetic::mul::lemma_mul_is_distributive_sub(half, m, 1);
            }
        }
        assert(false);
    }
    lemma_wrap(w, high);
}

/// Where no bit is shifted out, a shift left multiplies by a power of two.
pub proof fn lemma_shift_left(w: RegisterWidth, a: int, b: int)
    requires
        fits(w, a),
        0 <= b,
        a * vstd::arithmetic::power2::pow2((b % w.bits()) as nat) < w.modulus(),
    ensures
        shift_left(w, a, b) == a * vstd::arithmetic::power2::pow2((b % w.bits()) as nat),
{
    match w {
        RegisterWidth::Bits32 => {
            vstd::bits::lemma_u32_shl_is_mul(a as u32, (b % 32) as u32);
        },
        RegisterWidth::Bits64 => {
            vstd::bits::lemma_u64_shl_is_mul(a as u64, (b % 64) as u64);
        },
    }
}

/// A logical shift right divides by a power of two.
pub proof fn lemma_shift_right(w: RegisterWidth, a: int, b: int)
    requires
        fits(w, a),
        0 <= b,
    ensures
        shift_right(w, a, b) == a / (vstd::arithmetic::power2::pow2((b % w.bits()) as nat) as int),
{
    match w {
        RegisterWidth::Bits32 => {
            vstd::bits::lemma_u32_shr_is_div(a as u32, (b % 32) as u32);
        },
        RegisterWidth::Bits64 => {
            vstd::bits::lemma_u64_shr_is_div(a as u64, (b % 64) as u64);
        },
    }
}

/// Sign extension keeps the signed reading of the field.
pub proof fn lemma_sign_extend(w: RegisterWidth, span: int, value: int)
    requires
        0 <= value < span <= w.modulus(),
    ensures
        fits(w, sign_extend(w, span, value)),
        signed(w, sign_extend(w, span, value)) == if 2 * value >= span {
            value - span
        } else {
            value
        },
{
}

/// The absolute value of an integer.
pub open spec fn magnitude(x: int) -> int {
    if x < 0 {
        -x
    } else {
        x
    }
}

/// The quotient of `x` by a nonzero `y`, rounded toward zero: the quotient
/// of the magnitudes, negated where the signs differ.
pub open spec fn truncated_quotient(x: int, y: int) -> int {
    if x >= 0 && y > 0 {
        x / y
    } else if x >= 0 {
        -(x / (-y))
    } else if y > 0 {
        -((-x) / y)
    } else {
        (-x) / (-y)
    }
}

/// The remainder that goes with [`truncated_quotient`]: the remainder of the
/// magnitudes, with the sign of `x`.
pub open spec fn truncated_remainder(x: int, y: int) -> int {
    if x >= 0 && y > 0 {
        x % y
    } else if x >= 0 {
        x % (-y)
    } else if y > 0 {
        -((-x) % y)
    } else {
        -((-x) % (-y))
    }
}

/// Signed division. Division by zero gives the all-ones pattern, and the one
/// quotient that does not fit, the least value by minus one, gives the dividend.
pub open spec fn quotient_signed(w: RegisterWidth, a: int, b: int) -> int {
    if b == 0 {
        w.modulus() - 1
    } else if 2 * a == w.modulus() && b == w.modulus() - 1 {
        a
    } else {
        wrap(w, truncated_quotient(signed(w, a), signed(w, b)))
    }
}

/// Unsigned division. Division by zero gives the all-ones pattern.
pub open spec fn quotient_unsigned(w: RegisterWidth, a: int, b: int) -> int {
    if b == 0 {
        w.modulus() - 1
    } else {
        a / b
    }
}

/// Signed remainder. Division by zero gives the dividend, and the least value
/// by minus one gives zero.
pub open spec fn remainder_signed(w: RegisterWidth, a: int, b: int) -> int {
    if b == 0 {
        a
    } else if 2 * a == w.modulus() && b == w.modulus() - 1 {
        0
    } else {
        wrap(w, truncated_remainder(signed(w, a), signed(w, b)))
    }
}

/// Unsigned remainder. Division by zero gives the dividend.
pub open spec fn remainder_unsigned(a: int, b: int) -> int {
    if b == 0 {
        a
    } else {
        a % b
    }
}

/// The pattern of width `w` whose low bits are `value`, a pattern of a field
/// with `span` values (`span` is a power of two that is at most
/// `w.modulus()`), and whose remaining bits repeat the top bit of the field.
pub open spec fn sign_extend(w: RegisterWidth, span: int, value: int) -> int {
    if 2 * value >= span {
        value + w.modulus() - span
    } else {
        value
    }
}

/// The number that two bytes denote, the first byte being the least significant.
pub open spec fn half_value(half: [u8; 2]) -> int {
    half[0] + 0x100 * half[1]
}

/// The number that four bytes denote, the first byte being the least significant.
pub open spec fn word_value(word: [u8; 4]) -> int {
    word[0] + 0x100 * word[1] + 0x1_0000 * word[2] + 0x100_0000 * word[3]
}

/// The number that eight bytes denote, the first byte being the least significant.
pub open spec fn double_value(double: [u8; 8]) -> int {
    double[0] + 0x100 * double[1] + 0x1_0000 * double[2] + 0x100_0000 * double[3]
        + 0x1_0000_0000 * double[4] + 0x100_0000_0000 * double[5]
        + 0x1_0000_0000_0000 * double[6] + 0x100_0000_0000_0000 * double[7]
}

/// A number written as a lowest byte and the rest determines both.
proof fn lemma_lowest_byte(low: int, rest: int, other_low: int, other_rest: int)
    requires
        0 <= low < 0x100,
        0 <= other_low < 0x100,
        low + 0x100 * rest == other_low + 0x100 * other_rest,
    ensures
        low == other_low,
        rest == other_rest,
{
}

/// Four bytes are determined by the number they denote.
pub proof fn lemma_word_value(word: [u8; 4], other: [u8; 4])
    ensures
        0 <= word_value(word) < 0x1_0000_0000,
        word_value(word) == word_value(other) ==> word == other,
{
    if word_value(word) == word_value(other) {
        lemma_lowest_byte(
            word[0] as int,
            word[1] + 0x100 * word[2] + 0x1_0000 * word[3],
            other[0] as int,
            other[1] + 0x100 * other[2] + 0x1_0000 * other[3],
        );
        lemma_lowest_byte(
            word[1] as int,
            word[2] + 0x100 * word[3],
            other[1] as int,
            other[2] + 0x100 * other[3],
        );
        lemma_lowest_byte(word[2] as int, word[3] as int, other[2] as int, other[3] as int);
        assert(word =~= other);
    }
}

/// Eight bytes are determined by the number they denote.
pub proof fn lemma_double_value(double: [u8; 8], other: [u8; 8])
    ensures
        0 <= double_value(double) < 0x1_0000_0000_0000_0000,
        double_value(double) == double_value(other) ==> double == other,
{
    if double_value(double) == double_value(other) {
        lemma_lowest_byte(
            double[0] as int,
            double[1] + 0x100 * double[2] + 0x1_0000 * double[3] + 0x100_0000 * double[4]
                + 0x1_0000_0000 * double[5] + 0x100_0000_0000 * double[6] + 0x1_0000_0000_0000
                * double[7],
            other[0] as int,
            other[1] + 0x100 * other[2] + 0x1_0000 * other[3] + 0x100_0000 * other[4]
                + 0x1_0000_0000 * other[5] + 0x100_0000_0000 * other[6] + 0x1_0000_0000_0000
                * other[7],
        );
        lemma_lowest_byte(
            double[1] as int,
            double[2] + 0x100 * double[3] + 0x1_0000 * double[4] + 0x100_0000 * double[5]
                + 0x1_0000_0000 * double[6] + 0x100_0000_0000 * double[7],
            other[1] as int,
            other[2] + 0x100 * other[3] + 0x1_0000 * other[4] + 0x100_0000 * other[5]
                + 0x1_0000_0000 * other[6] + 0x100_0000_0000 * other[7],
        );
        lemma_lowest_byte(
            double[2] as int,
            double[3] + 0x100 * double[4] + 0x1_0000 * double[5] + 0x100_0000 * double[6]
                + 0x1_0000_0000 * double[7],
            other[2] as int,
            other[3] + 0x100 * other[4] + 0x1_0000 * other[5] + 0x100_0000 * other[6]
                + 0x1_0000_0000 * other[7],
        );
        lemma_lowest_byte(
            double[3] as int,
            double[4] + 0x100 * double[5] + 0x1_0000 * double[6] + 0x100_0000 * double[7],
            other[3] as int,
            other[4] + 0x100 * other[5] + 0x1_0000 * other[6] + 0x100_0000 * other[7],
        );
        lemma_lowest_byte(
            double[4] as int,
            double[5] + 0x100 * double[6] + 0x1_0000 * double[7],
            other[4] as int,
            other[5] + 0x100 * other[6] + 0x1_0000 * other[7],
        );
        lemma_lowest_byte(
            double[5] as int,
            double[6] + 0x100 * double[7],
            other[5] as int,
            other[6] + 0x100 * other[7],
        );
        lemma_lowest_byte(double[6] as int, double[7] as int, other[6] as int, other[7] as int);
        assert(double =~= other);
    }
}

/// The low bytes of a number are the first of the bytes that denote it, and
/// its high word the last four.
pub proof fn lemma_low_bytes(double: [u8; 8])
    ensures
        double_value(double) % 0x100 == double[0],
        double_value(double) % 0x1_0000 == double[0] + 0x100 * double[1],
        double_value(double) % 0x1_0000_0000 == double[0] + 0x100 * double[1] + 0x1_0000
            * double[2] + 0x100_0000 * double[3],
        double_value(double) / 0x1_0000_0000 == double[4] + 0x100 * double[5] + 0x1_0000
            * double[6] + 0x100_0000 * double[7],
        double_value(double) % 0x1_0000_0000_0000_0000 == double_value(double),
{
    let value = double_value(double);
    lemma_quotient_remainder(
        value,
        0x100,
        double[1] + 0x100 * double[2] + 0x1_0000 * double[3] + 0x100_0000 * double[4]
            + 0x1_0000_0000 * double[5] + 0x100_0000_0000 * double[6] + 0x1_0000_0000_0000
            * double[7],
        double[0] as int,
    );
    lemma_quotient_remainder(
        value,
        0x1_0000,
        double[2] + 0x100 * double[3] + 0x1_0000 * double[4] + 0x100_0000 * double[5]
            + 0x1_0000_0000 * double[6] + 0x100_0000_0000 * double[7],
        double[0] + 0x100 * double[1],
    );
    lemma_quotient_remainder(
        value,
        0x1_0000_0000,
        double[4] + 0x100 * double[5] + 0x1_0000 * double[6] + 0x100_0000 * double[7],
        double[0] + 0x100 * double[1] + 0x1_0000 * double[2] + 0x100_0000 * double[3],
    );
    lemma_quotient_remainder(value, 0x1_0000_0000_0000_0000, 0, value);
}

/// The low bytes of a number below 2^32 are the first of the four bytes that
/// denote it.
pub proof fn lemma_low_bytes_of_word(word: [u8; 4])
    ensures
        word_value(word) % 0x100 == word[0],
        word_value(word) % 0x1_0000 == word[0] + 0x100 * word[1],
        word_value(word) % 0x1_0000_0000 == word_value(word),
{
    let value = word_value(word);
    lemma_quotient_remainder(
        value,
        0x100,
        word[1] + 0x100 * word[2] + 0x1_0000 * word[3],
        word[0] as int,
    );
    lemma_quotient_remainder(
        value,
        0x1_0000,
        word[2] + 0x100 * word[3],
        word[0] + 0x100 * word[1],
    );
    lemma_quotient_remainder(value, 0x1_0000_0000, 0, value);
}

} // verus!
