//! Machine integers with the operations that the instruction set asks of them.

use vstd::prelude::*;
use crate::arithmetic::{
    bit_and, bit_or, bit_xor, complement, difference, fits, less_signed, magnitude, product,
    product_high_mixed, product_high_signed, product_high_unsigned, quotient_signed,
    quotient_unsigned, remainder_signed, remainder_unsigned, shift_left, shift_right,
    shift_right_signed, sum, truncated_quotient, truncated_remainder, lemma_product_signed,
    lemma_quotient_remainder, lemma_wrap,
};
use crate::register::RegisterWidth;

verus! {

/// An integer type that carries out the operations of the instruction set.
/// No method panics.
///
/// Every contract is stated over [`Integer::bits`], the bit pattern of a value
/// read as a natural number, so that signed and unsigned types share one model.
pub trait Integer: Default {
    /// The number of bits in a value.
    spec fn width() -> RegisterWidth;

    /// Whether the type reads its bit patterns as two's complement.
    spec fn is_signed() -> bool;

    /// The bit pattern of the value, read as a natural number.
    spec fn bits(self) -> int;

    /// A bit pattern fits the width of its type, and two values with one bit
    /// pattern are one value.
    proof fn lemma_bits(self, other: Self)
        ensures
            fits(Self::width(), self.bits()),
            self.bits() == other.bits() ==> self == other,
    ;

    /// Wrapping addition.
    fn add(self, other: Self) -> (r: Self)
        ensures
            r.bits() == sum(Self::width(), self.bits(), other.bits()),
    ;

    /// Wrapping subtraction.
    fn sub(self, other: Self) -> (r: Self)
        ensures
            r.bits() == difference(Self::width(), self.bits(), other.bits()),
    ;

    /// Shift left by the shift amount of `other`.
    fn shl(self, other: Self) -> (r: Self)
        ensures
            r.bits() == shift_left(Self::width(), self.bits(), other.bits()),
    ;

    /// Shift right by the shift amount of `other`: arithmetic for a signed
    /// type, logical for an unsigned one.
    fn shr(self, other: Self) -> (r: Self)
        ensures
            r.bits() == if Self::is_signed() {
                shift_right_signed(Self::width(), self.bits(), other.bits())
            } else {
                shift_right(Self::width(), self.bits(), other.bits())
            },
    ;

    /// Division rounding toward zero, total as the instruction set defines it.
    fn div(self, other: Self) -> (r: Self)
        ensures
            r.bits() == if Self::is_signed() {
                quotient_signed(Self::width(), self.bits(), other.bits())
            } else {
                quotient_unsigned(Self::width(), self.bits(), other.bits())
            },
    ;

    /// Remainder of [`Integer::div`], total as the instruction set defines it.
    fn rem(self, other: Self) -> (r: Self)
        ensures
            r.bits() == if Self::is_signed() {
                remainder_signed(Self::width(), self.bits(), other.bits())
            } else {
                remainder_unsigned(self.bits(), other.bits())
            },
    ;

    /// Whether `self` is less than `other`.
    fn lt(self, other: Self) -> (r: bool)
        ensures
            r == if Self::is_signed() {
                less_signed(Self::width(), self.bits(), other.bits())
            } else {
                self.bits() < other.bits()
            },
    ;

    /// Whether `self` is greater than or equal to `other`.
    fn gte(self, other: Self) -> (r: bool)
        ensures
            r == if Self::is_signed() {
                !less_signed(Self::width(), self.bits(), other.bits())
            } else {
                self.bits() >= other.bits()
            },
    ;

    /// Whether the two values are equal.
    fn eq(self, other: Self) -> (r: bool)
        ensures
            r == (self.bits() == other.bits()),
    ;

    /// Whether the two values differ.
    fn neq(self, other: Self) -> (r: bool)
        ensures
            r == (self.bits() != other.bits()),
    ;

    /// Bitwise AND.
    fn and(self, other: Self) -> (r: Self)
        ensures
            r.bits() == bit_and(self.bits(), other.bits()),
    ;

    /// Bitwise OR.
    fn or(self, other: Self) -> (r: Self)
        ensures
            r.bits() == bit_or(self.bits(), other.bits()),
    ;

    /// Bitwise exclusive OR.
    fn xor(self, other: Self) -> (r: Self)
        ensures
            r.bits() == bit_xor(self.bits(), other.bits()),
    ;

    /// Bitwise NOT.
    fn not(self) -> (r: Self)
        ensures
            r.bits() == complement(Self::width(), self.bits()),
    ;
}

/// A signed integer type that multiplies as the instruction set asks: each
/// method returns the low half of the double-width product, then the high half.
///
/// `S` is the signed type itself and `U` the unsigned type of the same width.
pub trait Multiply<S: Integer, U: Integer>: Sized {
    /// The product of two signed factors.
    fn muls(first: S, second: S) -> (r: (S, S))
        ensures
            r.0.bits() == product(S::width(), first.bits(), second.bits()),
            r.1.bits() == product_high_signed(S::width(), first.bits(), second.bits()),
    ;

    /// The product of two unsigned factors.
    fn mulu(first: U, second: U) -> (r: (U, U))
        ensures
            r.0.bits() == product(U::width(), first.bits(), second.bits()),
            r.1.bits() == product_high_unsigned(U::width(), first.bits(), second.bits()),
    ;

    /// The product of a signed factor and an unsigned one.
    fn mulsu(first: S, second: U) -> (r: (S, S))
        ensures
            r.0.bits() == product(S::width(), first.bits(), second.bits()),
            r.1.bits() == product_high_mixed(S::width(), first.bits(), second.bits()),
    ;
}

/// Bounds on the quotient and remainder of a natural number by a positive one.
proof fn lemma_division(a: int, b: int)
    requires
        a >= 0,
        b > 0,
    ensures
        0 <= a / b <= a,
        0 <= a % b < b,
        b >= 2 ==> 2 * (a / b) <= a,
        b == 1 ==> a / b == a && a % b == 0,
        a < b ==> a / b == 0 && a % b == a,
{
    vstd::arithmetic::div_mod::lemma_div_pos_is_pos(a, b);
    vstd::arithmetic::div_mod::lemma_div_nonincreasing(a, b);
    vstd::arithmetic::div_mod::lemma_mod_bound(a, b);
    vstd::arithmetic::div_mod::lemma_fundamental_div_mod(a, b);
    if b >= 2 {
        vstd::arithmetic::mul::lemma_mul_inequality(2, b, a / b);
    }
    if b == 1 {
        lemma_quotient_remainder(a, 1, a, 0);
    }
    if a < b {
        lemma_quotient_remainder(a, b, 0, a);
    }
}

/// A product is no larger in magnitude than the product of the bounds of its
/// factors.
proof fn lemma_product_bounds(a: int, b: int, bound_a: int, bound_b: int)
    requires
        -bound_a <= a <= bound_a,
        -bound_b <= b <= bound_b,
    ensures
        -(bound_a * bound_b) <= a * b <= bound_a * bound_b,
{
    let x = magnitude(a);
    let y = magnitude(b);
    vstd::arithmetic::mul::lemma_mul_upper_bound(x, bound_a, y, bound_b);
    vstd::arithmetic::mul::lemma_mul_nonnegative(x, y);
    vstd::arithmetic::mul::lemma_mul_unary_negation(x, y);
    vstd::arithmetic::mul::lemma_mul_unary_negation(-x, y);
    assert(a * b == x * y || a * b == -(x * y));
}

/// Facts about the bit patterns of `u32` values: the complement, and that the
/// bitwise operations do not depend on the width.
proof fn lemma_u32_patterns(a: u32, b: u32)
    by (bit_vector)
    ensures
        (!a) as int == 0xFFFF_FFFF - a,
        ((a as u64) & (b as u64)) as int == (a & b) as int,
        ((a as u64) | (b as u64)) as int == (a | b) as int,
        ((a as u64) ^ (b as u64)) as int == (a ^ b) as int,
{
}

impl Integer for u32 {
    open spec fn width() -> RegisterWidth {
        RegisterWidth::Bits32
    }

    open spec fn is_signed() -> bool {
        false
    }

    open spec fn bits(self) -> int {
        self as int
    }

    proof fn lemma_bits(self, other: Self) {
    }

    #[inline(always)]
    fn add(self, other: Self) -> (r: Self) {
        proof {
            lemma_wrap(RegisterWidth::Bits32, self.bits() + other.bits());
        }
        self.wrapping_add(other)
    }

    #[inline(always)]
    fn sub(self, other: Self) -> (r: Self) {
        proof {
            lemma_wrap(RegisterWidth::Bits32, self.bits() - other.bits());
        }
        self.wrapping_sub(other)
    }

    #[inline(always)]
    fn shl(self, other: Self) -> (r: Self) {
        self.wrapping_shl(other)
    }

    #[inline(always)]
    fn shr(self, other: Self) -> (r: Self) {
        self.wrapping_shr(other)
    }

    #[inline(always)]
    fn div(self, other: Self) -> (r: Self) {
        if other == 0 {
            u32::MAX
        } else {
            self / other
        }
    }

    #[inline(always)]
    fn rem(self, other: Self) -> (r: Self) {
        if other == 0 {
            self
        } else {
            self % other
        }
    }

    #[inline(always)]
    fn lt(self, other: Self) -> (r: bool) {
        self < other
    }

    #[inline(always)]
    fn gte(self, other: Self) -> (r: bool) {
        self >= other
    }

    #[inline(always)]
    fn eq(self, other: Self) -> (r: bool) {
        self == other
    }

    #[inline(always)]
    fn neq(self, other: Self) -> (r: bool) {
        self != other
    }

    #[inline(always)]
    fn and(self, other: Self) -> (r: Self) {
        proof {
            lemma_u32_patterns(self, other);
        }
        self & other
    }

    #[inline(always)]
    fn or(self, other: Self) -> (r: Self) {
        proof {
            lemma_u32_patterns(self, other);
        }
        self | other
    }

    #[inline(always)]
    fn xor(self, other: Self) -> (r: Self) {
        proof {
            lemma_u32_patterns(self, other);
        }
        self ^ other
    }

    #[inline(always)]
    fn not(self) -> (r: Self) {
        proof {
            lemma_u32_patterns(self, self);
        }
        !self
    }
}

/// Facts about the bit patterns of `i32` values: what a cast to `u32` keeps, and
/// that the bitwise operations act on the patterns.
pub(crate) proof fn lemma_i32_patterns(a: i32, b: i32, n: u32)
    by (bit_vector)
    ensures
        (a as u32) as int == (if a < 0 { a + 0x1_0000_0000 } else { a as int }),
        (a & b) as u32 == (a as u32) & (b as u32),
        (a | b) as u32 == (a as u32) | (b as u32),
        (a ^ b) as u32 == (a as u32) ^ (b as u32),
        (!a) as u32 == !(a as u32),
        n < 32 ==> (a << n) as u32 == (a as u32) << n,
        ((n as i32) as u32) == n,
{
}

impl Integer for i32 {
    open spec fn width() -> RegisterWidth {
        RegisterWidth::Bits32
    }

    open spec fn is_signed() -> bool {
        true
    }

    open spec fn bits(self) -> int {
        if self < 0 {
            self + 0x1_0000_0000
        } else {
            self as int
        }
    }

    proof fn lemma_bits(self, other: Self) {
    }

    #[inline(always)]
    fn add(self, other: Self) -> (r: Self) {
        proof {
            lemma_wrap(RegisterWidth::Bits32, self.bits() + other.bits());
        }
        self.wrapping_add(other)
    }

    #[inline(always)]
    fn sub(self, other: Self) -> (r: Self) {
        proof {
            lemma_wrap(RegisterWidth::Bits32, self.bits() - other.bits());
        }
        self.wrapping_sub(other)
    }

    #[inline(always)]
    fn shl(self, other: Self) -> (r: Self) {
        let amount: u32 = #[verifier::truncate] (other as u32);
        let r = self.wrapping_shl(amount);
        proof {
            lemma_i32_patterns(other, 0, 0);
            lemma_i32_patterns(self, 0, (amount % 32) as u32);
            lemma_i32_patterns(r, 0, 0);
        }
        r
    }

    #[inline(always)]
    fn shr(self, other: Self) -> (r: Self) {
        let amount: u32 = #[verifier::truncate] (other as u32);
        proof {
            lemma_i32_patterns(other, 0, 0);
        }
        self.wrapping_shr(amount)
    }

    #[inline(always)]
    fn div(self, other: Self) -> (r: Self) {
        proof {
            if other != 0 {
                lemma_division(magnitude(self as int), magnitude(other as int));
                if !(self == i32::MIN && other == -1) {
                    lemma_wrap(RegisterWidth::Bits32, truncated_quotient(self as int, other as int));
                }
            }
        }
        match self.checked_div(other) {
            Some(quotient) => quotient,
            None => if other == 0 {
                -1
            } else {
                self
            },
        }
    }

    #[inline(always)]
    fn rem(self, other: Self) -> (r: Self) {
        proof {
            if other != 0 {
                lemma_division(magnitude(self as int), magnitude(other as int));
                lemma_wrap(RegisterWidth::Bits32, truncated_remainder(self as int, other as int));
            }
        }
        match self.checked_rem(other) {
            Some(remainder) => remainder,
            None => if other == 0 {
                self
            } else {
                0
            },
        }
    }

    #[inline(always)]
    fn lt(self, other: Self) -> (r: bool) {
        self < other
    }

    #[inline(always)]
    fn gte(self, other: Self) -> (r: bool) {
        self >= other
    }

    #[inline(always)]
    fn eq(self, other: Self) -> (r: bool) {
        self == other
    }

    #[inline(always)]
    fn neq(self, other: Self) -> (r: bool) {
        self != other
    }

    #[inline(always)]
    fn and(self, other: Self) -> (r: Self) {
        proof {
            lemma_i32_patterns(self, other, 0);
            lemma_i32_patterns(other, 0, 0);
            lemma_i32_patterns(self & other, 0, 0);
            lemma_u32_patterns(self as u32, other as u32);
        }
        self & other
    }

    #[inline(always)]
    fn or(self, other: Self) -> (r: Self) {
        proof {
            lemma_i32_patterns(self, other, 0);
            lemma_i32_patterns(other, 0, 0);
            lemma_i32_patterns(self | other, 0, 0);
            lemma_u32_patterns(self as u32, other as u32);
        }
        self | other
    }

    #[inline(always)]
    fn xor(self, other: Self) -> (r: Self) {
        proof {
            lemma_i32_patterns(self, other, 0);
            lemma_i32_patterns(other, 0, 0);
            lemma_i32_patterns(self ^ other, 0, 0);
            lemma_u32_patterns(self as u32, other as u32);
        }
        self ^ other
    }

    #[inline(always)]
    fn not(self) -> (r: Self) {
        proof {
            lemma_i32_patterns(self, 0, 0);
            lemma_i32_patterns(!self, 0, 0);
            lemma_u32_patterns(self as u32, 0);
        }
        !self
    }
}

/// Facts about the bit patterns of `u64` values: the complement, and what a
/// cast of a shift amount to 32 bits keeps.
proof fn lemma_u64_patterns(a: u64)
    by (bit_vector)
    ensures
        (!a) as int == 0xFFFF_FFFF_FFFF_FFFF - a,
        ((a as u32) % 64) as int == (a % 64) as int,
{
}

impl Integer for u64 {
    open spec fn width() -> RegisterWidth {
        RegisterWidth::Bits64
    }

    open spec fn is_signed() -> bool {
        false
    }

    open spec fn bits(self) -> int {
        self as int
    }

    proof fn lemma_bits(self, other: Self) {
    }

    #[inline(always)]
    fn add(self, other: Self) -> (r: Self) {
        proof {
            lemma_wrap(RegisterWidth::Bits64, self.bits() + other.bits());
        }
        self.wrapping_add(other)
    }

    #[inline(always)]
    fn sub(self, other: Self) -> (r: Self) {
        proof {
            lemma_wrap(RegisterWidth::Bits64, self.bits() - other.bits());
        }
        self.wrapping_sub(other)
    }

    #[inline(always)]
    fn shl(self, other: Self) -> (r: Self) {
        proof {
            lemma_u64_patterns(other);
        }
        self.wrapping_shl(#[verifier::truncate] (other as u32))
    }

    #[inline(always)]
    fn shr(self, other: Self) -> (r: Self) {
        proof {
            lemma_u64_patterns(other);
        }
        self.wrapping_shr(#[verifier::truncate] (other as u32))
    }

    #[inline(always)]
    fn div(self, other: Self) -> (r: Self) {
        if other == 0 {
            u64::MAX
        } else {
            self / other
        }
    }

    #[inline(always)]
    fn rem(self, other: Self) -> (r: Self) {
        if other == 0 {
            self
        } else {
            self % other
        }
    }

    #[inline(always)]
    fn lt(self, other: Self) -> (r: bool) {
        self < other
    }

    #[inline(always)]
    fn gte(self, other: Self) -> (r: bool) {
        self >= other
    }

    #[inline(always)]
    fn eq(self, other: Self) -> (r: bool) {
        self == other
    }

    #[inline(always)]
    fn neq(self, other: Self) -> (r: bool) {
        self != other
    }

    #[inline(always)]
    fn and(self, other: Self) -> (r: Self) {
        self & other
    }

    #[inline(always)]
    fn or(self, other: Self) -> (r: Self) {
        self | other
    }

    #[inline(always)]
    fn xor(self, other: Self) -> (r: Self) {
        self ^ other
    }

    #[inline(always)]
    fn not(self) -> (r: Self) {
        proof {
            lemma_u64_patterns(self);
        }
        !self
    }
}

/// Facts about the bit patterns of `i64` values: what a cast to `u64` keeps, and
/// that the bitwise operations act on the patterns.
pub(crate) proof fn lemma_i64_patterns(a: i64, b: i64, n: u64)
    by (bit_vector)
    ensures
        (a as u64) as int == (if a < 0 { a + 0x1_0000_0000_0000_0000 } else { a as int }),
        (a & b) as u64 == (a as u64) & (b as u64),
        (a | b) as u64 == (a as u64) | (b as u64),
        (a ^ b) as u64 == (a as u64) ^ (b as u64),
        (!a) as u64 == !(a as u64),
        n < 64 ==> (a << n) as u64 == (a as u64) << n,
        ((a as u32) % 64) as int == ((a as u64) % 64) as int,
        ((n as i64) as u64) == n,
{
}

impl Integer for i64 {
    open spec fn width() -> RegisterWidth {
        RegisterWidth::Bits64
    }

    open spec fn is_signed() -> bool {
        true
    }

    open spec fn bits(self) -> int {
        if self < 0 {
            self + 0x1_0000_0000_0000_0000
        } else {
            self as int
        }
    }

    proof fn lemma_bits(self, other: Self) {
    }

    #[inline(always)]
    fn add(self, other: Self) -> (r: Self) {
        proof {
            lemma_wrap(RegisterWidth::Bits64, self.bits() + other.bits());
        }
        self.wrapping_add(other)
    }

    #[inline(always)]
    fn sub(self, other: Self) -> (r: Self) {
        proof {
            lemma_wrap(RegisterWidth::Bits64, self.bits() - other.bits());
        }
        self.wrapping_sub(other)
    }

    #[inline(always)]
    fn shl(self, other: Self) -> (r: Self) {
        let amount: u32 = #[verifier::truncate] (other as u32);
        let r = self.wrapping_shl(amount);
        proof {
            lemma_i64_patterns(other, 0, 0);
            lemma_i64_patterns(self, 0, (amount % 64) as u64);
            lemma_i64_patterns(r, 0, 0);
        }
        r
    }

    #[inline(always)]
    fn shr(self, other: Self) -> (r: Self) {
        let amount: u32 = #[verifier::truncate] (other as u32);
        proof {
            lemma_i64_patterns(other, 0, 0);
        }
        self.wrapping_shr(amount)
    }

    #[inline(always)]
    fn div(self, other: Self) -> (r: Self) {
        proof {
            if other != 0 {
                lemma_division(magnitude(self as int), magnitude(other as int));
                if !(self == i64::MIN && other == -1) {
                    lemma_wrap(RegisterWidth::Bits64, truncated_quotient(self as int, other as int));
                }
            }
        }
        match self.checked_div(other) {
            Some(quotient) => quotient,
            None => if other == 0 {
                -1
            } else {
                self
            },
        }
    }

    #[inline(always)]
    fn rem(self, other: Self) -> (r: Self) {
        proof {
            if other != 0 {
                lemma_division(magnitude(self as int), magnitude(other as int));
                lemma_wrap(RegisterWidth::Bits64, truncated_remainder(self as int, other as int));
            }
        }
        match self.checked_rem(other) {
            Some(remainder) => remainder,
            None => if other == 0 {
                self
            } else {
                0
            },
        }
    }

    #[inline(always)]
    fn lt(self, other: Self) -> (r: bool) {
        self < other
    }

    #[inline(always)]
    fn gte(self, other: Self) -> (r: bool) {
        self >= other
    }

    #[inline(always)]
    fn eq(self, other: Self) -> (r: bool) {
        self == other
    }

    #[inline(always)]
    fn neq(self, other: Self) -> (r: bool) {
        self != other
    }

    #[inline(always)]
    fn and(self, other: Self) -> (r: Self) {
        proof {
            lemma_i64_patterns(self, other, 0);
            lemma_i64_patterns(other, 0, 0);
            lemma_i64_patterns(self & other, 0, 0);
        }
        self & other
    }

    #[inline(always)]
    fn or(self, other: Self) -> (r: Self) {
        proof {
            lemma_i64_patterns(self, other, 0);
            lemma_i64_patterns(other, 0, 0);
            lemma_i64_patterns(self | other, 0, 0);
        }
        self | other
    }

    #[inline(always)]
    fn xor(self, other: Self) -> (r: Self) {
        proof {
            lemma_i64_patterns(self, other, 0);
            lemma_i64_patterns(other, 0, 0);
            lemma_i64_patterns(self ^ other, 0, 0);
        }
        self ^ other
    }

    #[inline(always)]
    fn not(self) -> (r: Self) {
        proof {
            lemma_i64_patterns(self, 0, 0);
            lemma_i64_patterns(!self, 0, 0);
            lemma_u64_patterns(self as u64);
        }
        !self
    }
}

/// A signed double-width number is its high half, which a shift gives, above
/// its low half, which a cast gives.
proof fn lemma_i64_halves(wide: i64)
    by (bit_vector)
    ensures
        (wide as int) == ((wide >> 32) as int) * 0x1_0000_0000 + (((wide as i32) as u32)
            as int),
{
}

/// An unsigned double-width number is its high half, which a shift gives,
/// above its low half, which a cast gives.
proof fn lemma_u64_halves(wide: u64)
    by (bit_vector)
    ensures
        (wide as int) == ((wide >> 32) as int) * 0x1_0000_0000 + ((wide as u32) as int),
{
}

impl Multiply<i32, u32> for i32 {
    fn muls(first: i32, second: i32) -> (r: (i32, i32)) {
        proof {
            lemma_product_bounds(
                first as int,
                second as int,
                0x8000_0000,
                0x8000_0000,
            );
        }
        let wide: i64 = (first as i64) * (second as i64);
        let low: i32 = #[verifier::truncate] (wide as i32);
        let high: i32 = (wide >> 32) as i32;
        proof {
            lemma_i64_halves(wide);
            lemma_i32_patterns(low, 0, 0);
            lemma_product_signed(RegisterWidth::Bits32, first.bits(), second.bits());
            lemma_quotient_remainder(wide as int, 0x1_0000_0000, (wide >> 32) as int, low.bits());
            lemma_wrap(RegisterWidth::Bits32, high as int);
        }
        (low, high)
    }

    fn mulu(first: u32, second: u32) -> (r: (u32, u32)) {
        proof {
            lemma_product_bounds(
                first as int,
                second as int,
                0xFFFF_FFFF,
                0xFFFF_FFFF,
            );
        }
        let wide: u64 = (first as u64) * (second as u64);
        let low: u32 = #[verifier::truncate] (wide as u32);
        let high: u32 = (wide >> 32) as u32;
        proof {
            lemma_u64_halves(wide);
            lemma_quotient_remainder(wide as int, 0x1_0000_0000, high as int, low as int);
        }
        (low, high)
    }

    fn mulsu(first: i32, second: u32) -> (r: (i32, i32)) {
        proof {
            lemma_product_bounds(
                first as int,
                second as int,
                0x8000_0000,
                0xFFFF_FFFF,
            );
        }
        let wide: i64 = (first as i64) * (second as i64);
        let low: i32 = #[verifier::truncate] (wide as i32);
        let high: i32 = (wide >> 32) as i32;
        proof {
            lemma_i64_halves(wide);
            lemma_i32_patterns(low, 0, 0);
            lemma_product_signed(RegisterWidth::Bits32, first.bits(), second.bits());
            lemma_quotient_remainder(wide as int, 0x1_0000_0000, (wide >> 32) as int, low.bits());
            lemma_wrap(RegisterWidth::Bits32, high as int);
        }
        (low, high)
    }
}

/// A signed double-width number is its high half, which a shift gives, above
/// its low half, which a cast gives.
proof fn lemma_i128_halves(wide: i128)
    by (bit_vector)
    ensures
        (wide as int) == ((wide >> 64) as int) * 0x1_0000_0000_0000_0000 + (((wide as i64) as u64)
            as int),
{
}

/// An unsigned double-width number is its high half, which a shift gives,
/// above its low half, which a cast gives.
proof fn lemma_u128_halves(wide: u128)
    by (bit_vector)
    ensures
        (wide as int) == ((wide >> 64) as int) * 0x1_0000_0000_0000_0000 + ((wide as u64) as int),
{
}

impl Multiply<i64, u64> for i64 {
    fn muls(first: i64, second: i64) -> (r: (i64, i64)) {
        proof {
            lemma_product_bounds(
                first as int,
                second as int,
                0x8000_0000_0000_0000,
                0x8000_0000_0000_0000,
            );
        }
        let wide: i128 = (first as i128) * (second as i128);
        let low: i64 = #[verifier::truncate] (wide as i64);
        let high: i64 = (wide >> 64) as i64;
        proof {
            lemma_i128_halves(wide);
            lemma_i64_patterns(low, 0, 0);
            lemma_product_signed(RegisterWidth::Bits64, first.bits(), second.bits());
            lemma_quotient_remainder(wide as int, 0x1_0000_0000_0000_0000, (wide >> 64) as int, low.bits());
            lemma_wrap(RegisterWidth::Bits64, high as int);
        }
        (low, high)
    }

    fn mulu(first: u64, second: u64) -> (r: (u64, u64)) {
        proof {
            lemma_product_bounds(
                first as int,
                second as int,
                0xFFFF_FFFF_FFFF_FFFF,
                0xFFFF_FFFF_FFFF_FFFF,
            );
        }
        let wide: u128 = (first as u128) * (second as u128);
        let low: u64 = #[verifier::truncate] (wide as u64);
        let high: u64 = (wide >> 64) as u64;
        proof {
            lemma_u128_halves(wide);
            lemma_quotient_remainder(wide as int, 0x1_0000_0000_0000_0000, high as int, low as int);
        }
        (low, high)
    }

    fn mulsu(first: i64, second: u64) -> (r: (i64, i64)) {
        proof {
            lemma_product_bounds(
                first as int,
                second as int,
                0x8000_0000_0000_0000,
                0xFFFF_FFFF_FFFF_FFFF,
            );
        }
        let wide: i128 = (first as i128) * (second as i128);
        let low: i64 = #[verifier::truncate] (wide as i64);
        let high: i64 = (wide >> 64) as i64;
        proof {
            lemma_i128_halves(wide);
            lemma_i64_patterns(low, 0, 0);
            lemma_product_signed(RegisterWidth::Bits64, first.bits(), second.bits());
            lemma_quotient_remainder(wide as int, 0x1_0000_0000_0000_0000, (wide >> 64) as int, low.bits());
            lemma_wrap(RegisterWidth::Bits64, high as int);
        }
        (low, high)
    }
}

/// The width of the host's pointers, which is that of `usize` and `isize`: 32
/// bits or 64.
pub open spec fn host_width() -> RegisterWidth {
    if usize::BITS == 64 {
        RegisterWidth::Bits64
    } else {
        RegisterWidth::Bits32
    }
}

/// Facts about the bit patterns of `usize` values on either host: the
/// complement, that the bitwise operations and the shifts are those of the
/// integers of the same width, and what a cast of a shift amount keeps.
proof fn lemma_usize_patterns(a: usize, b: usize, n: u32)
    by (bit_vector)
    ensures
        usize::BITS == 64 ==> (!a) as int == 0xFFFF_FFFF_FFFF_FFFF - a,
        usize::BITS == 32 ==> (!a) as int == 0xFFFF_FFFF - a,
        ((a as u64) & (b as u64)) as int == (a & b) as int,
        ((a as u64) | (b as u64)) as int == (a | b) as int,
        ((a as u64) ^ (b as u64)) as int == (a ^ b) as int,
        usize::BITS == 64 ==> ((a as u32) % 64) as int == (a % 64) as int,
        usize::BITS == 32 ==> ((a as u32) % 32) as int == (a % 32) as int,
        usize::BITS == 64 && n < 64 ==> (a << n) as int == ((a as u64) << n) as int,
        usize::BITS == 32 && n < 32 ==> (a << n) as int == ((a as u32) << n) as int,
        usize::BITS == 64 && n < 64 ==> (a >> n) as int == ((a as u64) >> n) as int,
        usize::BITS == 32 && n < 32 ==> (a >> n) as int == ((a as u32) >> n) as int,
{
}

impl Integer for usize {
    open spec fn width() -> RegisterWidth {
        host_width()
    }

    open spec fn is_signed() -> bool {
        false
    }

    open spec fn bits(self) -> int {
        self as int
    }

    proof fn lemma_bits(self, other: Self) {
    }

    #[inline(always)]
    fn add(self, other: Self) -> (r: Self) {
        proof {
            lemma_wrap(host_width(), self + other);
        }
        self.wrapping_add(other)
    }

    #[inline(always)]
    fn sub(self, other: Self) -> (r: Self) {
        proof {
            lemma_wrap(host_width(), self - other);
        }
        self.wrapping_sub(other)
    }

    #[inline(always)]
    fn shl(self, other: Self) -> (r: Self) {
        let amount: u32 = #[verifier::truncate] (other as u32);
        proof {
            lemma_usize_patterns(other, 0, 0);
            lemma_usize_patterns(self, 0, amount % usize::BITS);
        }
        self.wrapping_shl(amount)
    }

    #[inline(always)]
    fn shr(self, other: Self) -> (r: Self) {
        let amount: u32 = #[verifier::truncate] (other as u32);
        proof {
            lemma_usize_patterns(other, 0, 0);
            lemma_usize_patterns(self, 0, amount % usize::BITS);
        }
        self.wrapping_shr(amount)
    }

    #[inline(always)]
    fn div(self, other: Self) -> (r: Self) {
        if other == 0 {
            usize::MAX
        } else {
            self / other
        }
    }

    #[inline(always)]
    fn rem(self, other: Self) -> (r: Self) {
        if other == 0 {
            self
        } else {
            self % other
        }
    }

    #[inline(always)]
    fn lt(self, other: Self) -> (r: bool) {
        self < other
    }

    #[inline(always)]
    fn gte(self, other: Self) -> (r: bool) {
        self >= other
    }

    #[inline(always)]
    fn eq(self, other: Self) -> (r: bool) {
        self == other
    }

    #[inline(always)]
    fn neq(self, other: Self) -> (r: bool) {
        self != other
    }

    #[inline(always)]
    fn and(self, other: Self) -> (r: Self) {
        proof {
            lemma_usize_patterns(self, other, 0);
        }
        self & other
    }

    #[inline(always)]
    fn or(self, other: Self) -> (r: Self) {
        proof {
            lemma_usize_patterns(self, other, 0);
        }
        self | other
    }

    #[inline(always)]
    fn xor(self, other: Self) -> (r: Self) {
        proof {
            lemma_usize_patterns(self, other, 0);
        }
        self ^ other
    }

    #[inline(always)]
    fn not(self) -> (r: Self) {
        proof {
            lemma_usize_patterns(self, self, 0);
        }
        !self
    }
}

/// Facts about the bit patterns of `isize` values on either host: what a cast
/// to `usize` keeps, that the bitwise operations act on the patterns, and that
/// the arithmetic shift is that of the integers of the same width.
pub(crate) proof fn lemma_isize_patterns(a: isize, b: isize, n: usize)
    by (bit_vector)
    ensures
        usize::BITS == 64 ==> (a as usize) as int == (if a < 0 {
            a + 0x1_0000_0000_0000_0000
        } else {
            a as int
        }),
        usize::BITS == 32 ==> (a as usize) as int == (if a < 0 {
            a + 0x1_0000_0000
        } else {
            a as int
        }),
        (a & b) as usize == (a as usize) & (b as usize),
        (a | b) as usize == (a as usize) | (b as usize),
        (a ^ b) as usize == (a as usize) ^ (b as usize),
        (!a) as usize == !(a as usize),
        usize::BITS == 64 && n < 64 ==> (a << n) as usize == (a as usize) << n,
        usize::BITS == 32 && n < 32 ==> (a << n) as usize == (a as usize) << n,
        usize::BITS == 64 && n < 64 ==> (a >> n) as int == ((a as i64) >> n) as int,
        usize::BITS == 32 && n < 32 ==> (a >> n) as int == ((a as i32) >> n) as int,
        usize::BITS == 64 ==> ((a as u32) % 64) as int == ((a as usize) % 64) as int,
        usize::BITS == 32 ==> ((a as u32) % 32) as int == ((a as usize) % 32) as int,
        ((n as isize) as usize) == n,
{
}

impl Integer for isize {
    open spec fn width() -> RegisterWidth {
        host_width()
    }

    open spec fn is_signed() -> bool {
        true
    }

    open spec fn bits(self) -> int {
        if self < 0 {
            self + host_width().modulus()
        } else {
            self as int
        }
    }

    proof fn lemma_bits(self, other: Self) {
    }

    #[inline(always)]
    fn add(self, other: Self) -> (r: Self) {
        proof {
            lemma_wrap(host_width(), self.bits() + other.bits());
        }
        self.wrapping_add(other)
    }

    #[inline(always)]
    fn sub(self, other: Self) -> (r: Self) {
        proof {
            lemma_wrap(host_width(), self.bits() - other.bits());
        }
        self.wrapping_sub(other)
    }

    #[inline(always)]
    fn shl(self, other: Self) -> (r: Self) {
        let amount: u32 = #[verifier::truncate] (other as u32);
        let r = self.wrapping_shl(amount);
        proof {
            lemma_isize_patterns(other, 0, 0);
            lemma_isize_patterns(self, 0, (amount % usize::BITS) as usize);
            lemma_isize_patterns(r, 0, 0);
            lemma_usize_patterns(self as usize, 0, amount % usize::BITS);
        }
        r
    }

    #[inline(always)]
    fn shr(self, other: Self) -> (r: Self) {
        let amount: u32 = #[verifier::truncate] (other as u32);
        let r = self.wrapping_shr(amount);
        proof {
            lemma_isize_patterns(other, 0, 0);
            lemma_isize_patterns(self, 0, (amount % usize::BITS) as usize);
            lemma_wrap(host_width(), r as int);
        }
        r
    }

    #[inline(always)]
    fn div(self, other: Self) -> (r: Self) {
        proof {
            if other != 0 {
                lemma_division(magnitude(self as int), magnitude(other as int));
                if !(self == isize::MIN && other == -1) {
                    lemma_wrap(host_width(), truncated_quotient(self as int, other as int));
                }
            }
        }
        match self.checked_div(other) {
            Some(quotient) => quotient,
            None => if other == 0 {
                -1
            } else {
                self
            },
        }
    }

    #[inline(always)]
    fn rem(self, other: Self) -> (r: Self) {
        proof {
            if other != 0 {
                lemma_division(magnitude(self as int), magnitude(other as int));
                lemma_wrap(host_width(), truncated_remainder(self as int, other as int));
            }
        }
        match self.checked_rem(other) {
            Some(remainder) => remainder,
            None => if other == 0 {
                self
            } else {
                0
            },
        }
    }

    #[inline(always)]
    fn lt(self, other: Self) -> (r: bool) {
        self < other
    }

    #[inline(always)]
    fn gte(self, other: Self) -> (r: bool) {
        self >= other
    }

    #[inline(always)]
    fn eq(self, other: Self) -> (r: bool) {
        self == other
    }

    #[inline(always)]
    fn neq(self, other: Self) -> (r: bool) {
        self != other
    }

    #[inline(always)]
    fn and(self, other: Self) -> (r: Self) {
        proof {
            lemma_isize_patterns(self, other, 0);
            lemma_isize_patterns(other, 0, 0);
            lemma_isize_patterns(self & other, 0, 0);
            lemma_usize_patterns(self as usize, other as usize, 0);
        }
        self & other
    }

    #[inline(always)]
    fn or(self, other: Self) -> (r: Self) {
        proof {
            lemma_isize_patterns(self, other, 0);
            lemma_isize_patterns(other, 0, 0);
            lemma_isize_patterns(self | other, 0, 0);
            lemma_usize_patterns(self as usize, other as usize, 0);
        }
        self | other
    }

    #[inline(always)]
    fn xor(self, other: Self) -> (r: Self) {
        proof {
            lemma_isize_patterns(self, other, 0);
            lemma_isize_patterns(other, 0, 0);
            lemma_isize_patterns(self ^ other, 0, 0);
            lemma_usize_patterns(self as usize, other as usize, 0);
        }
        self ^ other
    }

    #[inline(always)]
    fn not(self) -> (r: Self) {
        proof {
            lemma_isize_patterns(self, 0, 0);
            lemma_isize_patterns(!self, 0, 0);
            lemma_usize_patterns(self as usize, 0, 0);
        }
        !self
    }
}

/// A signed number of 128 bits is its high part, which a shift by the width
/// of the host gives, above its low part, which a cast gives.
proof fn lemma_isize_halves(wide: i128)
    by (bit_vector)
    ensures
        usize::BITS == 64 ==> (wide as int) == ((wide >> 64) as int) * 0x1_0000_0000_0000_0000
            + (((wide as isize) as usize) as int),
        usize::BITS == 32 ==> (wide as int) == ((wide >> 32) as int) * 0x1_0000_0000 + (((
        wide as isize) as usize) as int),
{
}

/// An unsigned number of 128 bits is its high part, which a shift by the
/// width of the host gives, above its low part, which a cast gives.
proof fn lemma_usize_halves(wide: u128)
    by (bit_vector)
    ensures
        usize::BITS == 64 ==> (wide as int) == ((wide >> 64) as int) * 0x1_0000_0000_0000_0000
            + ((wide as usize) as int),
        usize::BITS == 32 ==> (wide as int) == ((wide >> 32) as int) * 0x1_0000_0000 + ((
        wide as usize) as int),
{
}

impl Multiply<isize, usize> for isize {
    fn muls(first: isize, second: isize) -> (r: (isize, isize)) {
        proof {
            lemma_product_bounds(
                first as int,
                second as int,
                0x8000_0000_0000_0000,
                0x8000_0000_0000_0000,
            );
        }
        let wide: i128 = (first as i128) * (second as i128);
        let low: isize = #[verifier::truncate] (wide as isize);
        let high: isize = #[verifier::truncate] ((wide >> usize::BITS) as isize);
        proof {
            lemma_isize_halves(wide);
            lemma_isize_patterns(low, 0, 0);
            lemma_product_signed(host_width(), first.bits(), second.bits());
            if usize::BITS == 64 {
                lemma_quotient_remainder(
                    wide as int,
                    0x1_0000_0000_0000_0000,
                    (wide >> 64u32) as int,
                    low.bits(),
                );
            } else {
                lemma_product_bounds(first as int, second as int, 0x8000_0000, 0x8000_0000);
                lemma_quotient_remainder(
                    wide as int,
                    0x1_0000_0000,
                    (wide >> 32u32) as int,
                    low.bits(),
                );
            }
            lemma_wrap(host_width(), high as int);
        }
        (low, high)
    }

    fn mulu(first: usize, second: usize) -> (r: (usize, usize)) {
        proof {
            lemma_product_bounds(
                first as int,
                second as int,
                0xFFFF_FFFF_FFFF_FFFF,
                0xFFFF_FFFF_FFFF_FFFF,
            );
        }
        let wide: u128 = (first as u128) * (second as u128);
        let low: usize = #[verifier::truncate] (wide as usize);
        let high: usize = #[verifier::truncate] ((wide >> usize::BITS) as usize);
        proof {
            lemma_usize_halves(wide);
            if usize::BITS == 64 {
                lemma_product_bounds(
                    first as int,
                    second as int,
                    0xFFFF_FFFF_FFFF_FFFF,
                    0xFFFF_FFFF_FFFF_FFFF,
                );
                assert((wide >> 64u32) < 0x1_0000_0000_0000_0000);
                lemma_quotient_remainder(
                    wide as int,
                    0x1_0000_0000_0000_0000,
                    high as int,
                    low as int,
                );
            } else {
                lemma_product_bounds(first as int, second as int, 0xFFFF_FFFF, 0xFFFF_FFFF);
                assert((wide >> 32u32) < 0x1_0000_0000);
                lemma_quotient_remainder(wide as int, 0x1_0000_0000, high as int, low as int);
            }
        }
        (low, high)
    }

    fn mulsu(first: isize, second: usize) -> (r: (isize, isize)) {
        proof {
            lemma_product_bounds(
                first as int,
                second as int,
                0x8000_0000_0000_0000,
                0xFFFF_FFFF_FFFF_FFFF,
            );
        }
        let wide: i128 = (first as i128) * (second as i128);
        let low: isize = #[verifier::truncate] (wide as isize);
        let high: isize = #[verifier::truncate] ((wide >> usize::BITS) as isize);
        proof {
            lemma_isize_halves(wide);
            lemma_isize_patterns(low, 0, 0);
            lemma_product_signed(host_width(), first.bits(), second.bits());
            if usize::BITS == 64 {
                lemma_quotient_remainder(
                    wide as int,
                    0x1_0000_0000_0000_0000,
                    (wide >> 64u32) as int,
                    low.bits(),
                );
            } else {
                lemma_product_bounds(first as int, second as int, 0x8000_0000, 0xFFFF_FFFF);
                lemma_quotient_remainder(
                    wide as int,
                    0x1_0000_0000,
                    (wide >> 32u32) as int,
                    low.bits(),
                );
            }
            lemma_wrap(host_width(), high as int);
        }
        (low, high)
    }
}

} // verus!
