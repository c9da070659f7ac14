//! Register widths and the registers of a hart.
//!
//! A register is stored as its bytes, least significant first, so that memory
//! accesses of any size read and write it byte by byte. Its meaning is
//! [`Xlen::value`], the bit pattern read as a natural number; the contracts of
//! the operations are stated over that number with the functions of
//! [`crate::arithmetic`].

use vstd::prelude::*;
use crate::arithmetic::{
    bit_and, bit_or, bit_xor, complement, difference, double_value, fits, half_value,
    lemma_double_value, lemma_low_bytes, lemma_low_bytes_of_word, lemma_word_digits,
    lemma_word_value, lemma_wrap, lemma_wrap_multiple, less_signed,
    product, product_high_mixed, product_high_signed, product_high_unsigned, quotient_signed,
    quotient_unsigned, remainder_signed, remainder_unsigned, shift_left, shift_right,
    shift_right_signed, sign_extend, sum, word_value, wrap,
};
use crate::integer::{
    lemma_i32_patterns, lemma_i64_patterns, Integer, Multiply,
};

verus! {

/// The number of bits in every general-purpose register of a hart.
#[derive(Debug, PartialEq, Eq, Clone, Copy, Structural)]
pub enum RegisterWidth {
    Bits32,
    Bits64,
}

impl RegisterWidth {
    /// The width as a number of bits.
    pub open spec fn bits(self) -> int {
        match self {
            RegisterWidth::Bits32 => 32,
            RegisterWidth::Bits64 => 64,
        }
    }

    /// The number of distinct values a register of this width holds.
    pub open spec fn modulus(self) -> int {
        match self {
            RegisterWidth::Bits32 => 0x1_0000_0000,
            RegisterWidth::Bits64 => 0x1_0000_0000_0000_0000,
        }
    }
}

/// The readings of a register that do not depend on how its bytes are laid out.
pub trait Xlen: Sized {
    /// The signed integer type of the register's width.
    type Signed: Integer + Multiply<Self::Signed, Self::Unsigned> + Copy;

    /// The unsigned integer type of the register's width.
    type Unsigned: Integer + Copy;

    /// The width of the register, which selects the instruction set.
    const WIDTH: RegisterWidth;

    /// The width of the register, for use in contracts: the value of
    /// [`Xlen::WIDTH`].
    spec fn width() -> RegisterWidth;

    /// The bit pattern held, read as a natural number.
    spec fn value(self) -> int;

    /// A value fits the width, and two registers with one value are one register.
    proof fn lemma_value(self, other: Self)
        ensures
            fits(Self::width(), self.value()),
            self.value() == other.value() ==> self == other,
    ;

    /// The two integer types have the register's width, and only the first is
    /// signed.
    proof fn lemma_integers()
        ensures
            Self::WIDTH == Self::width(),
            Self::Signed::width() == Self::width(),
            Self::Signed::is_signed(),
            Self::Unsigned::width() == Self::width(),
            !Self::Unsigned::is_signed(),
    ;

    /// The register as a signed integer.
    fn signed(self) -> (r: Self::Signed)
        ensures
            r.bits() == self.value(),
    ;

    /// The register as an unsigned integer.
    fn unsigned(self) -> (r: Self::Unsigned)
        ensures
            r.bits() == self.value(),
    ;

    /// The register that holds a signed integer.
    fn from_signed(from: Self::Signed) -> (r: Self)
        ensures
            r.value() == from.bits(),
    ;

    /// The register that holds an unsigned integer.
    fn from_unsigned(from: Self::Unsigned) -> (r: Self)
        ensures
            r.value() == from.bits(),
    ;

    /// The address `offset` bytes after the one held, wrapping at the top of
    /// the address space.
    fn append(self, offset: usize) -> (r: Self::Unsigned)
        ensures
            r.bits() == wrap(Self::width(), self.value() + offset),
    ;

    /// The value as an index of the host, reduced to the host's pointer width
    /// where that is the narrower.
    fn usize(self) -> (r: usize)
        ensures
            r as int == self.value() % (usize::MAX as int + 1),
    ;

    /// The value of the cause register for a trap: `cause` in the low bits,
    /// and the top bit set where the trap is an interrupt.
    fn trap_cause(cause: u8, interrupt: bool) -> (r: Self)
        ensures
            r.value() == cause + if interrupt {
                Self::width().modulus() / 2
            } else {
                0
            },
    ;
}

/// The operations that instructions carry out on registers.
pub trait Register: Xlen + Sized + Default + Copy {
    /// Adds two registers, going through their signed readings.
    fn add_signed(self, other: Self) -> (r: Self)
        ensures
            r.value() == sum(Self::width(), self.value(), other.value()),
    {
        proof {
            Self::lemma_integers();
        }
        Self::from_signed(self.signed().add(other.signed()))
    }

    /// Adds two registers, going through their unsigned readings.
    fn add_unsigned(self, other: Self) -> (r: Self)
        ensures
            r.value() == sum(Self::width(), self.value(), other.value()),
    {
        proof {
            Self::lemma_integers();
        }
        Self::from_unsigned(self.unsigned().add(other.unsigned()))
    }

    /// Subtracts `other` from `self`.
    fn sub_unsigned(self, other: Self) -> (r: Self)
        ensures
            r.value() == difference(Self::width(), self.value(), other.value()),
    {
        proof {
            Self::lemma_integers();
        }
        Self::from_unsigned(self.unsigned().sub(other.unsigned()))
    }

    /// Shifts left by the shift amount of `other`.
    fn shl(self, other: Self) -> (r: Self)
        ensures
            r.value() == shift_left(Self::width(), self.value(), other.value()),
    {
        proof {
            Self::lemma_integers();
        }
        Self::from_unsigned(self.unsigned().shl(other.unsigned()))
    }

    /// Shifts right by the shift amount of `other`, filling with zeros.
    fn shr(self, other: Self) -> (r: Self)
        ensures
            r.value() == shift_right(Self::width(), self.value(), other.value()),
    {
        proof {
            Self::lemma_integers();
        }
        Self::from_unsigned(self.unsigned().shr(other.unsigned()))
    }

    /// Shifts right by the shift amount of `other`, filling with the sign bit.
    fn sha(self, other: Self) -> (r: Self)
        ensures
            r.value() == shift_right_signed(Self::width(), self.value(), other.value()),
    {
        proof {
            Self::lemma_integers();
        }
        Self::from_signed(self.signed().shr(other.signed()))
    }

    /// The low half of the product.
    fn mul(self, other: Self) -> (r: Self)
        ensures
            r.value() == product(Self::width(), self.value(), other.value()),
    {
        proof {
            Self::lemma_integers();
        }
        Self::from_signed(Self::Signed::muls(self.signed(), other.signed()).0)
    }

    /// The high half of the product of two signed factors.
    fn mulh(self, other: Self) -> (r: Self)
        ensures
            r.value() == product_high_signed(Self::width(), self.value(), other.value()),
    {
        proof {
            Self::lemma_integers();
        }
        Self::from_signed(Self::Signed::muls(self.signed(), other.signed()).1)
    }

    /// The high half of the product of two unsigned factors.
    fn mulhu(self, other: Self) -> (r: Self)
        ensures
            r.value() == product_high_unsigned(Self::width(), self.value(), other.value()),
    {
        proof {
            Self::lemma_integers();
        }
        Self::from_unsigned(Self::Signed::mulu(self.unsigned(), other.unsigned()).1)
    }

    /// The high half of the product of a signed `self` and an unsigned `other`.
    fn mulhsu(self, other: Self) -> (r: Self)
        ensures
            r.value() == product_high_mixed(Self::width(), self.value(), other.value()),
    {
        proof {
            Self::lemma_integers();
        }
        Self::from_signed(Self::Signed::mulsu(self.signed(), other.unsigned()).1)
    }

    /// Signed division, rounding toward zero.
    fn div(self, other: Self) -> (r: Self)
        ensures
            r.value() == quotient_signed(Self::width(), self.value(), other.value()),
    {
        proof {
            Self::lemma_integers();
        }
        Self::from_signed(self.signed().div(other.signed()))
    }

    /// Unsigned division.
    fn divu(self, other: Self) -> (r: Self)
        ensures
            r.value() == quotient_unsigned(Self::width(), self.value(), other.value()),
    {
        proof {
            Self::lemma_integers();
        }
        Self::from_unsigned(self.unsigned().div(other.unsigned()))
    }

    /// The remainder of the signed division, with the sign of the dividend.
    fn rem(self, other: Self) -> (r: Self)
        ensures
            r.value() == remainder_signed(Self::width(), self.value(), other.value()),
    {
        proof {
            Self::lemma_integers();
        }
        Self::from_signed(self.signed().rem(other.signed()))
    }

    /// The remainder of the unsigned division.
    fn remu(self, other: Self) -> (r: Self)
        ensures
            r.value() == remainder_unsigned(self.value(), other.value()),
    {
        proof {
            Self::lemma_integers();
        }
        Self::from_unsigned(self.unsigned().rem(other.unsigned()))
    }

    /// Bitwise AND.
    fn and(self, other: Self) -> (r: Self)
        ensures
            r.value() == bit_and(self.value(), other.value()),
    {
        Self::from_unsigned(self.unsigned().and(other.unsigned()))
    }

    /// Bitwise OR.
    fn or(self, other: Self) -> (r: Self)
        ensures
            r.value() == bit_or(self.value(), other.value()),
    {
        Self::from_unsigned(self.unsigned().or(other.unsigned()))
    }

    /// Bitwise exclusive OR.
    fn xor(self, other: Self) -> (r: Self)
        ensures
            r.value() == bit_xor(self.value(), other.value()),
    {
        Self::from_unsigned(self.unsigned().xor(other.unsigned()))
    }

    /// Bitwise NOT.
    fn not(self) -> (r: Self)
        ensures
            r.value() == complement(Self::width(), self.value()),
    {
        proof {
            Self::lemma_integers();
        }
        Self::from_unsigned(self.unsigned().not())
    }

    /// Whether the two registers hold the same bits.
    fn eq(self, other: Self) -> (r: bool)
        ensures
            r == (self.value() == other.value()),
    {
        self.unsigned().eq(other.unsigned())
    }

    /// Whether the two registers hold different bits.
    fn neq(self, other: Self) -> (r: bool)
        ensures
            r == (self.value() != other.value()),
    {
        self.unsigned().neq(other.unsigned())
    }

    /// Whether `self` is less than `other`, both read as signed.
    fn lt_signed(self, other: Self) -> (r: bool)
        ensures
            r == less_signed(Self::width(), self.value(), other.value()),
    {
        proof {
            Self::lemma_integers();
        }
        self.signed().lt(other.signed())
    }

    /// Whether `self` is less than `other`, both read as unsigned.
    fn lt_unsigned(self, other: Self) -> (r: bool)
        ensures
            r == (self.value() < other.value()),
    {
        proof {
            Self::lemma_integers();
        }
        self.unsigned().lt(other.unsigned())
    }

    /// Whether `self` is at least `other`, both read as signed.
    fn gte_signed(self, other: Self) -> (r: bool)
        ensures
            r == !less_signed(Self::width(), self.value(), other.value()),
    {
        proof {
            Self::lemma_integers();
        }
        self.signed().gte(other.signed())
    }

    /// Whether `self` is at least `other`, both read as unsigned.
    fn gte_unsigned(self, other: Self) -> (r: bool)
        ensures
            r == (self.value() >= other.value()),
    {
        proof {
            Self::lemma_integers();
        }
        self.unsigned().gte(other.unsigned())
    }

    /// The register whose low bits are `byte` and whose other bits repeat the
    /// top bit of `byte`.
    fn sign_extended_byte(byte: u8) -> (r: Self)
        ensures
            r.value() == sign_extend(Self::width(), 0x100, byte as int),
    ;

    /// The register whose low bits are `byte` and whose other bits are zero.
    fn zero_extended_byte(byte: u8) -> (r: Self)
        ensures
            r.value() == byte,
    ;

    /// The register whose low bits are `half` and whose other bits repeat the
    /// top bit of `half`.
    fn sign_extended_half(half: [u8; 2]) -> (r: Self)
        ensures
            r.value() == sign_extend(Self::width(), 0x1_0000, half_value(half)),
    ;

    /// The register whose low bits are `half` and whose other bits are zero.
    fn zero_extended_half(half: [u8; 2]) -> (r: Self)
        ensures
            r.value() == half_value(half),
    ;

    /// The register whose low bits are `word` and whose other bits repeat the
    /// top bit of `word`.
    fn sign_extended_word(word: [u8; 4]) -> (r: Self)
        ensures
            r.value() == sign_extend(Self::width(), 0x1_0000_0000, word_value(word)),
    ;

    /// The register whose low bits are `word` and whose other bits are zero.
    fn zero_extended_word(word: [u8; 4]) -> (r: Self)
        ensures
            r.value() == word_value(word),
    ;

    /// The register that holds `double`. A register of 32 bits cannot.
    fn sign_extended_double(double: [u8; 8]) -> (r: Self)
        requires
            Self::width() == RegisterWidth::Bits64,
        ensures
            r.value() == double_value(double),
    ;

    /// The register that holds `double`. A register of 32 bits cannot.
    fn zero_extended_double(double: [u8; 8]) -> (r: Self)
        requires
            Self::width() == RegisterWidth::Bits64,
        ensures
            r.value() == double_value(double),
    ;

    /// The lowest byte.
    fn byte(self) -> (r: u8)
        ensures
            r as int == self.value() % 0x100,
    ;

    /// The two lowest bytes.
    fn half(self) -> (r: [u8; 2])
        ensures
            half_value(r) == self.value() % 0x1_0000,
    ;

    /// The four lowest bytes.
    fn word(self) -> (r: [u8; 4])
        ensures
            word_value(r) == self.value() % 0x1_0000_0000,
    ;

    /// All eight bytes. A register of 32 bits has only four.
    fn double(self) -> (r: [u8; 8])
        requires
            Self::width() == RegisterWidth::Bits64,
        ensures
            double_value(r) == self.value(),
    ;
}

/// The top bit of a byte is set exactly in the upper half of its range.
proof fn lemma_top_bit(byte: u8)
    by (bit_vector)
    ensures
        (byte & 0x80 != 0) == (byte >= 0x80),
{
}

/// What is left of a host index when it is cast to 32 bits.
proof fn lemma_index_cast(index: usize)
    by (bit_vector)
    ensures
        (index as u32) as int == (index as int) % 0x1_0000_0000,
{
}

/// What is left of a 64-bit value when it is cast to a host index.
proof fn lemma_host_cast(value: u64)
    by (bit_vector)
    ensures
        usize::BITS == 64 ==> (value as usize) as int == value as int,
        usize::BITS == 32 ==> (value as usize) as int == (value as int) % 0x1_0000_0000,
{
}

/// A 32-bit register: four bytes, least significant first.
#[derive(Clone, Copy, Debug, PartialEq, Eq)]
pub struct Register32(pub [u8; 4]);

impl Register32 {
    /// The register that holds the bit pattern `value`.
    pub open spec fn holding(value: int) -> Register32 {
        Register32(
            [
                (value % 0x100) as u8,
                (value / 0x100 % 0x100) as u8,
                (value / 0x1_0000 % 0x100) as u8,
                (value / 0x100_0000 % 0x100) as u8,
            ],
        )
    }
}

impl Xlen for Register32 {
    type Signed = i32;

    type Unsigned = u32;

    const WIDTH: RegisterWidth = RegisterWidth::Bits32;

    open spec fn width() -> RegisterWidth {
        RegisterWidth::Bits32
    }

    open spec fn value(self) -> int {
        word_value(self.0)
    }

    proof fn lemma_value(self, other: Self) {
        lemma_word_value(self.0, other.0);
    }

    proof fn lemma_integers() {
    }

    fn signed(self) -> (r: i32) {
        let unsigned = self.unsigned();
        let r = #[verifier::truncate] (unsigned as i32);
        proof {
            lemma_i32_patterns(r, 0, unsigned);
        }
        r
    }

    fn unsigned(self) -> (r: u32) {
        self.0[0] as u32 + 0x100 * (self.0[1] as u32) + 0x1_0000 * (self.0[2] as u32) + 0x100_0000
            * (self.0[3] as u32)
    }

    fn from_signed(from: i32) -> (r: Self) {
        proof {
            lemma_i32_patterns(from, 0, 0);
        }
        Self::from_unsigned(#[verifier::truncate] (from as u32))
    }

    fn from_unsigned(from: u32) -> (r: Self)
        ensures
            r == Register32::holding(from as int),
    {
        proof {
            lemma_word_digits(from);
        }
        Self(
            [
                (from % 0x100) as u8,
                (from / 0x100 % 0x100) as u8,
                (from / 0x1_0000 % 0x100) as u8,
                (from / 0x100_0000 % 0x100) as u8,
            ],
        )
    }

    fn append(self, offset: usize) -> (r: u32) {
        let low: u32 = #[verifier::truncate] (offset as u32);
        proof {
            lemma_index_cast(offset);
            vstd::arithmetic::div_mod::lemma_fundamental_div_mod(offset as int, 0x1_0000_0000);
            lemma_wrap_multiple(
                RegisterWidth::Bits32,
                self.value() + low,
                offset as int / 0x1_0000_0000,
            );
            lemma_wrap(RegisterWidth::Bits32, self.value() + low);
        }
        self.unsigned().wrapping_add(low)
    }

    fn usize(self) -> (r: usize) {
        proof {
            vstd::arithmetic::div_mod::lemma_small_mod(
                self.value() as nat,
                (usize::MAX as int + 1) as nat,
            );
        }
        self.unsigned() as usize
    }

    fn trap_cause(cause: u8, interrupt: bool) -> (r: Self) {
        Self([cause, 0, 0, if interrupt { 0x80 } else { 0 }])
    }
}

impl Register for Register32 {
    #[inline]
    fn sign_extended_byte(byte: u8) -> (r: Self) {
        proof {
            lemma_top_bit(byte);
        }
        let extended: u8 = if byte & 0x80 != 0 { 0xFF } else { 0 };
        Self([byte, extended, extended, extended])
    }

    #[inline]
    fn zero_extended_byte(byte: u8) -> (r: Self) {
        Self([byte, 0, 0, 0])
    }

    #[inline]
    fn sign_extended_half(half: [u8; 2]) -> (r: Self) {
        proof {
            lemma_top_bit(half[1]);
        }
        let extended: u8 = if half[1] & 0x80 != 0 { 0xFF } else { 0 };
        Self([half[0], half[1], extended, extended])
    }

    #[inline]
    fn zero_extended_half(half: [u8; 2]) -> (r: Self) {
        Self([half[0], half[1], 0, 0])
    }

    #[inline(always)]
    fn sign_extended_word(word: [u8; 4]) -> (r: Self) {
        Self(word)
    }

    #[inline(always)]
    fn zero_extended_word(word: [u8; 4]) -> (r: Self) {
        Self(word)
    }

    /// A register of 32 bits does not hold eight bytes: no call of this
    /// function meets its contract.
    #[inline(always)]
    fn sign_extended_double(double: [u8; 8]) -> (r: Self) {
        vstd::pervasive::unreached()
    }

    /// A register of 32 bits does not hold eight bytes: no call of this
    /// function meets its contract.
    #[inline(always)]
    fn zero_extended_double(double: [u8; 8]) -> (r: Self) {
        vstd::pervasive::unreached()
    }

    #[inline(always)]
    fn byte(self) -> (r: u8) {
        proof {
            lemma_low_bytes_of_word(self.0);
        }
        self.0[0]
    }

    #[inline(always)]
    fn half(self) -> (r: [u8; 2]) {
        proof {
            lemma_low_bytes_of_word(self.0);
        }
        [self.0[0], self.0[1]]
    }

    #[inline(always)]
    fn word(self) -> (r: [u8; 4]) {
        proof {
            lemma_low_bytes_of_word(self.0);
        }
        self.0
    }

    /// A register of 32 bits has no eight bytes: no call of this function
    /// meets its contract.
    #[inline(always)]
    fn double(self) -> (r: [u8; 8]) {
        vstd::pervasive::unreached()
    }
}

impl Default for Register32 {
    fn default() -> (r: Self)
        ensures
            r.value() == 0,
    {
        Self([0, 0, 0, 0])
    }
}

impl From<u32> for Register32 {
    fn from(value: u32) -> (r: Self) {
        Self::from_unsigned(value)
    }
}

impl vstd::std_specs::convert::FromSpecImpl<u32> for Register32 {
    open spec fn obeys_from_spec() -> bool {
        true
    }

    open spec fn from_spec(value: u32) -> Self {
        Register32::holding(value as int)
    }
}

impl From<i32> for Register32 {
    fn from(value: i32) -> (r: Self) {
        proof {
            lemma_i32_patterns(value, 0, 0);
        }
        Self::from_unsigned(#[verifier::truncate] (value as u32))
    }
}

impl vstd::std_specs::convert::FromSpecImpl<i32> for Register32 {
    open spec fn obeys_from_spec() -> bool {
        true
    }

    open spec fn from_spec(value: i32) -> Self {
        Register32::holding(value.bits())
    }
}

/// A 64-bit register: eight bytes, least significant first.
#[derive(Clone, Copy, Debug, PartialEq, Eq)]
pub struct Register64(pub [u8; 8]);

impl Register64 {
    /// Splits the register into its low word and its high word, in that order.
    pub fn split(self) -> (r: (Register32, Register32))
        ensures
            r.0.value() == self.value() % 0x1_0000_0000,
            r.1.value() == self.value() / 0x1_0000_0000,
    {
        proof {
            lemma_low_bytes(self.0);
        }
        (
            Register32([self.0[0], self.0[1], self.0[2], self.0[3]]),
            Register32([self.0[4], self.0[5], self.0[6], self.0[7]]),
        )
    }
}

impl Xlen for Register64 {
    type Signed = i64;

    type Unsigned = u64;

    const WIDTH: RegisterWidth = RegisterWidth::Bits64;

    open spec fn width() -> RegisterWidth {
        RegisterWidth::Bits64
    }

    open spec fn value(self) -> int {
        double_value(self.0)
    }

    proof fn lemma_value(self, other: Self) {
        lemma_double_value(self.0, other.0);
    }

    proof fn lemma_integers() {
    }

    fn signed(self) -> (r: i64) {
        let unsigned = self.unsigned();
        let r = #[verifier::truncate] (unsigned as i64);
        proof {
            lemma_i64_patterns(r, 0, unsigned);
        }
        r
    }

    fn unsigned(self) -> (r: u64) {
        self.0[0] as u64 + 0x100 * (self.0[1] as u64) + 0x1_0000 * (self.0[2] as u64) + 0x100_0000
            * (self.0[3] as u64) + 0x1_0000_0000 * (self.0[4] as u64) + 0x100_0000_0000 * (
        self.0[5] as u64) + 0x1_0000_0000_0000 * (self.0[6] as u64) + 0x100_0000_0000_0000 * (
        self.0[7] as u64)
    }

    fn from_signed(from: i64) -> (r: Self) {
        proof {
            lemma_i64_patterns(from, 0, 0);
        }
        Self::from_unsigned(#[verifier::truncate] (from as u64))
    }

    fn from_unsigned(from: u64) -> (r: Self) {
        proof {
            vstd::arithmetic::div_mod::lemma_fundamental_div_mod(from as int, 0x1_0000_0000);
        }
        let low = Register32::from_unsigned((from % 0x1_0000_0000) as u32).0;
        let high = Register32::from_unsigned((from / 0x1_0000_0000) as u32).0;
        Self([low[0], low[1], low[2], low[3], high[0], high[1], high[2], high[3]])
    }

    fn append(self, offset: usize) -> (r: u64) {
        proof {
            lemma_wrap(RegisterWidth::Bits64, self.value() + offset);
        }
        self.unsigned().wrapping_add(offset as u64)
    }

    fn usize(self) -> (r: usize) {
        let unsigned = self.unsigned();
        proof {
            lemma_host_cast(unsigned);
            if usize::BITS == 64 {
                vstd::arithmetic::div_mod::lemma_small_mod(
                    self.value() as nat,
                    (usize::MAX as int + 1) as nat,
                );
            }
        }
        #[verifier::truncate] (unsigned as usize)
    }

    fn trap_cause(cause: u8, interrupt: bool) -> (r: Self) {
        Self([cause, 0, 0, 0, 0, 0, 0, if interrupt { 0x80 } else { 0 }])
    }
}

impl Register for Register64 {
    #[inline]
    fn sign_extended_byte(byte: u8) -> (r: Self) {
        proof {
            lemma_top_bit(byte);
        }
        let extended: u8 = if byte & 0x80 != 0 { 0xFF } else { 0 };
        Self([byte, extended, extended, extended, extended, extended, extended, extended])
    }

    #[inline]
    fn zero_extended_byte(byte: u8) -> (r: Self) {
        Self([byte, 0, 0, 0, 0, 0, 0, 0])
    }

    #[inline]
    fn sign_extended_half(half: [u8; 2]) -> (r: Self) {
        proof {
            lemma_top_bit(half[1]);
        }
        let extended: u8 = if half[1] & 0x80 != 0 { 0xFF } else { 0 };
        Self([half[0], half[1], extended, extended, extended, extended, extended, extended])
    }

    #[inline]
    fn zero_extended_half(half: [u8; 2]) -> (r: Self) {
        Self([half[0], half[1], 0, 0, 0, 0, 0, 0])
    }

    #[inline(always)]
    fn sign_extended_word(word: [u8; 4]) -> (r: Self) {
        proof {
            lemma_top_bit(word[3]);
        }
        let extended: u8 = if word[3] & 0x80 != 0 { 0xFF } else { 0 };
        Self([word[0], word[1], word[2], word[3], extended, extended, extended, extended])
    }

    #[inline(always)]
    fn zero_extended_word(word: [u8; 4]) -> (r: Self) {
        Self([word[0], word[1], word[2], word[3], 0, 0, 0, 0])
    }

    #[inline(always)]
    fn sign_extended_double(double: [u8; 8]) -> (r: Self) {
        Self(double)
    }

    #[inline(always)]
    fn zero_extended_double(double: [u8; 8]) -> (r: Self) {
        Self(double)
    }

    #[inline(always)]
    fn byte(self) -> (r: u8) {
        proof {
            lemma_low_bytes(self.0);
        }
        self.0[0]
    }

    #[inline(always)]
    fn half(self) -> (r: [u8; 2]) {
        proof {
            lemma_low_bytes(self.0);
        }
        [self.0[0], self.0[1]]
    }

    #[inline(always)]
    fn word(self) -> (r: [u8; 4]) {
        proof {
            lemma_low_bytes(self.0);
        }
        [self.0[0], self.0[1], self.0[2], self.0[3]]
    }

    #[inline(always)]
    fn double(self) -> (r: [u8; 8]) {
        self.0
    }
}

impl Default for Register64 {
    fn default() -> (r: Self)
        ensures
            r.value() == 0,
    {
        Self([0, 0, 0, 0, 0, 0, 0, 0])
    }
}

} // verus!
