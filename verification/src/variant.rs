//! The encoding variants of an instruction and their decoders.
//!
//! An instruction is four bytes, least significant first. [`word`] is the
//! 32-bit number they denote, and the fields of every variant are stated as
//! the bit ranges of that number which the instruction set assigns to them.

use vstd::prelude::*;
use crate::arithmetic::{half_value, lemma_wrap, sign_extend, word_value, wrap};
use crate::register::{Register, RegisterWidth, Xlen};

verus! {

/// The 32-bit instruction word that four bytes denote.
#[verifier::opaque]
pub open spec fn word(instruction: [u8; 4]) -> int {
    word_value(instruction)
}

/// Bits 6 to 0 of an instruction word.
pub open spec fn opcode(word: int) -> int {
    word % 0x80
}

/// Bits 11 to 7: the index of the destination register.
pub open spec fn rd(word: int) -> int {
    word / 0x80 % 0x20
}

/// Bits 14 to 12.
pub open spec fn funct3(word: int) -> int {
    word / 0x1000 % 8
}

/// Bits 19 to 15: the index of the first source register.
pub open spec fn rs1(word: int) -> int {
    word / 0x8000 % 0x20
}

/// Bits 24 to 20: the index of the second source register.
pub open spec fn rs2(word: int) -> int {
    word / 0x10_0000 % 0x20
}

/// Bits 31 to 25.
pub open spec fn funct7(word: int) -> int {
    word / 0x200_0000 % 0x80
}

/// The two's-complement reading of a field with `span` patterns.
pub open spec fn signed_field(raw: int, span: int) -> int {
    if 2 * raw >= span {
        raw - span
    } else {
        raw
    }
}

/// The immediate of the I variant: bits 31 to 20, signed.
pub open spec fn immediate_i(word: int) -> int {
    signed_field(word / 0x10_0000 % 0x1000, 0x1000)
}

/// The immediate of the S variant: bits 31 to 25 above bits 11 to 7, signed.
pub open spec fn immediate_s(word: int) -> int {
    signed_field((word / 0x200_0000 % 0x80) * 0x20 + word / 0x80 % 0x20, 0x1000)
}

/// The branch offset of the B variant: bit 31, bit 7, bits 30 to 25 and bits
/// 11 to 8, above a zero bit, signed.
pub open spec fn immediate_b(word: int) -> int {
    signed_field(
        (word / 0x8000_0000 % 2) * 0x1000 + (word / 0x80 % 2) * 0x800 + (word / 0x200_0000 % 0x40)
            * 0x20 + (word / 0x100 % 0x10) * 2,
        0x2000,
    )
}

/// The immediate of the U variant: bits 31 to 12 above twelve zero bits, signed.
pub open spec fn immediate_u(word: int) -> int {
    signed_field((word / 0x1000 % 0x10_0000) * 0x1000, 0x1_0000_0000)
}

/// The jump offset of the J variant: bit 31, bits 19 to 12, bit 20 and bits 30
/// to 21, above a zero bit, signed.
pub open spec fn immediate_j(word: int) -> int {
    signed_field(
        (word / 0x8000_0000 % 2) * 0x10_0000 + (word / 0x1000 % 0x100) * 0x1000 + (word
            / 0x10_0000 % 2) * 0x800 + (word / 0x20_0000 % 0x400) * 2,
        0x20_0000,
    )
}

/// Branch and jump offsets are even, whatever the word and the width of the
/// register that holds them: their lowest bit is never set.
pub proof fn lemma_offsets_even(w: RegisterWidth, word: int)
    ensures
        immediate_b(word) % 2 == 0,
        immediate_j(word) % 2 == 0,
        wrap(w, immediate_b(word)) % 2 == 0,
        wrap(w, immediate_j(word)) % 2 == 0,
{
    let branch = (word / 0x8000_0000 % 2) * 0x1000 + (word / 0x80 % 2) * 0x800 + (word / 0x200_0000
        % 0x40) * 0x20 + (word / 0x100 % 0x10) * 2;
    let jump = (word / 0x8000_0000 % 2) * 0x10_0000 + (word / 0x1000 % 0x100) * 0x1000 + (word
        / 0x10_0000 % 2) * 0x800 + (word / 0x20_0000 % 0x400) * 2;
    assert(branch % 2 == 0);
    assert(jump % 2 == 0);
    assert(immediate_b(word) == signed_field(branch, 0x2000));
    assert(immediate_j(word) == signed_field(jump, 0x20_0000));
    lemma_wrap(w, immediate_b(word));
    lemma_wrap(w, immediate_j(word));
}

/// The index of a control and status register: bits 31 to 20, unsigned.
pub open spec fn csr_index(word: int) -> int {
    word / 0x10_0000 % 0x1000
}

/// A signed field with `span` patterns, written into a pattern of `filled`
/// patterns with the bits above the field filled with its sign and then
/// sign-extended, gives the pattern of the field's value.
proof fn lemma_sign_extended_field(w: RegisterWidth, raw: int, span: int, filled: int)
    requires
        0 <= raw < span <= filled <= w.modulus(),
    ensures
        sign_extend(w, filled, if 2 * raw >= span { raw + filled - span } else { raw }) == wrap(
            w,
            signed_field(raw, span),
        ),
{
    lemma_wrap(w, signed_field(raw, span));
}

/// An encoding variant, decoded from the four bytes of an instruction. Every
/// sequence of four bytes decodes in every variant; whether the instruction is
/// legal is for the hart to decide.
pub trait Variant: Sized {
    /// Whether `decoded` holds the fields that the variant assigns to the
    /// bytes of `instruction`.
    spec fn decodes(instruction: [u8; 4], decoded: Self) -> bool;

    /// Extracts the fields of the variant.
    fn decode(instruction: [u8; 4]) -> (r: Self)
        ensures
            Self::decodes(instruction, r),
    ;
}

/// How the three register indices lie in the bytes of an instruction.
proof fn lemma_indices(i0: u8, i1: u8, i2: u8, i3: u8)
    by (bit_vector)
    ensures
        ({
            let w = i0 as int + 0x100 * (i1 as int) + 0x1_0000 * (i2 as int) + 0x100_0000 * (
            i3 as int);
            &&& (((i0 & 0x80) >> 7) | ((i1 & 0x0F) << 1)) as int == w / 0x80 % 0x20
            &&& (((i1 & 0x80) >> 7) | ((i2 & 0x0F) << 1)) as int == w / 0x8000 % 0x20
            &&& (((i2 & 0xF0) >> 4) | ((i3 & 0x01) << 4)) as int == w / 0x10_0000 % 0x20
        }),
{
}

/// The index of the destination register.
fn destination(instruction: [u8; 4]) -> (r: usize)
    ensures
        r == rd(word(instruction)),
{
    proof {
        reveal(word);
        lemma_indices(instruction[0], instruction[1], instruction[2], instruction[3]);
    }
    (((instruction[0] & 0x80) >> 7) | ((instruction[1] & 0x0F) << 1)) as usize
}

/// The index of the first source register.
fn source1(instruction: [u8; 4]) -> (r: usize)
    ensures
        r == rs1(word(instruction)),
{
    proof {
        reveal(word);
        lemma_indices(instruction[0], instruction[1], instruction[2], instruction[3]);
    }
    (((instruction[1] & 0x80) >> 7) | ((instruction[2] & 0x0F) << 1)) as usize
}

/// The index of the second source register.
fn source2(instruction: [u8; 4]) -> (r: usize)
    ensures
        r == rs2(word(instruction)),
{
    proof {
        reveal(word);
        lemma_indices(instruction[0], instruction[1], instruction[2], instruction[3]);
    }
    (((instruction[2] & 0xF0) >> 4) | ((instruction[3] & 0x01) << 4)) as usize
}

/// The R variant: a destination and two source registers.
#[derive(Debug, Eq, PartialEq)]
pub struct R {
    pub destination: usize,
    pub source1: usize,
    pub source2: usize,
}

impl Variant for R {
    open spec fn decodes(instruction: [u8; 4], decoded: Self) -> bool {
        &&& decoded.destination == rd(word(instruction))
        &&& decoded.source1 == rs1(word(instruction))
        &&& decoded.source2 == rs2(word(instruction))
    }

    fn decode(instruction: [u8; 4]) -> (r: Self) {
        Self {
            destination: destination(instruction),
            source1: source1(instruction),
            source2: source2(instruction),
        }
    }
}

/// How the twelve bits of an I immediate lie in the bytes of an instruction,
/// once the top byte has been filled with the sign.
proof fn lemma_immediate_i(i0: u8, i1: u8, i2: u8, i3: u8)
    by (bit_vector)
    ensures
        ({
            let w = i0 as int + 0x100 * (i1 as int) + 0x1_0000 * (i2 as int) + 0x100_0000 * (
            i3 as int);
            let raw = w / 0x10_0000 % 0x1000;
            let low = ((i2 & 0xF0) >> 4) | ((i3 & 0x0F) << 4);
            let high = ((i3 & 0xF0) >> 4) | (if i3 & 0x80 != 0 { 0xF0u8 } else { 0u8 });
            low as int + 0x100 * (high as int) == (if raw >= 0x800 { raw + 0xF000 } else { raw })
        }),
{
}

/// The I variant: a destination, a source register and a sign-extended
/// immediate of twelve bits.
#[derive(Debug, Eq, PartialEq)]
pub struct I<R: Register> {
    pub destination: usize,
    pub source: usize,
    pub immediate: R,
}

impl<R: Register> Variant for I<R> {
    open spec fn decodes(instruction: [u8; 4], decoded: Self) -> bool {
        &&& decoded.destination == rd(word(instruction))
        &&& decoded.source == rs1(word(instruction))
        &&& decoded.immediate.value() == wrap(R::width(), immediate_i(word(instruction)))
    }

    fn decode(instruction: [u8; 4]) -> (r: Self) {
        let signed = instruction[3] & 0x80 != 0;
        let half: [u8; 2] = [
            ((instruction[2] & 0xF0) >> 4) | ((instruction[3] & 0x0F) << 4),
            ((instruction[3] & 0xF0) >> 4) | if signed { 0xF0 } else { 0 },
        ];
        proof {
            reveal(word);
            lemma_immediate_i(instruction[0], instruction[1], instruction[2], instruction[3]);
            let raw = word(instruction) / 0x10_0000 % 0x1000;
            assert(half_value(half) == if raw >= 0x800 { raw + 0xF000 } else { raw });
            lemma_sign_extended_field(R::width(), raw, 0x1000, 0x1_0000);
        }
        Self {
            destination: destination(instruction),
            source: source1(instruction),
            immediate: R::sign_extended_half(half),
        }
    }
}

/// How the index of a control and status register lies in the bytes of an
/// instruction.
proof fn lemma_csr_index(i0: u8, i1: u8, i2: u8, i3: u8)
    by (bit_vector)
    ensures
        ({
            let w = i0 as int + 0x100 * (i1 as int) + 0x1_0000 * (i2 as int) + 0x100_0000 * (
            i3 as int);
            &&& ((i2 & 0xF0) >> 4) as int + 0x10 * (i3 as int) == w / 0x10_0000 % 0x1000
            &&& ((i2 & 0xF0) >> 4) < 0x10
        }),
{
}

/// The variant of the instructions on control and status registers: a
/// destination, the index of such a register, and a field of five bits that
/// is either the index of a source register or an unsigned immediate.
#[derive(Debug, Eq, PartialEq)]
pub struct C {
    pub destination: usize,
    pub source: usize,
    pub csr: usize,
}

impl Variant for C {
    open spec fn decodes(instruction: [u8; 4], decoded: Self) -> bool {
        &&& decoded.destination == rd(word(instruction))
        &&& decoded.source == rs1(word(instruction))
        &&& decoded.csr == csr_index(word(instruction))
    }

    fn decode(instruction: [u8; 4]) -> (r: Self) {
        proof {
            reveal(word);
            lemma_csr_index(instruction[0], instruction[1], instruction[2], instruction[3]);
        }
        Self {
            destination: destination(instruction),
            source: source1(instruction),
            csr: ((instruction[2] & 0xF0) >> 4) as usize + 0x10 * (instruction[3] as usize),
        }
    }
}

/// How the twelve bits of an S immediate lie in the bytes of an instruction,
/// once the top byte has been filled with the sign.
proof fn lemma_immediate_s(i0: u8, i1: u8, i2: u8, i3: u8)
    by (bit_vector)
    ensures
        ({
            let w = i0 as int + 0x100 * (i1 as int) + 0x1_0000 * (i2 as int) + 0x100_0000 * (
            i3 as int);
            let raw = (w / 0x200_0000 % 0x80) * 0x20 + w / 0x80 % 0x20;
            let low = ((i0 & 0x80) >> 7) | ((i1 & 0x0F) << 1) | ((i3 & 0x0E) << 4);
            let high = ((i3 & 0xF0) >> 4) | (if i3 & 0x80 != 0 { 0xF0u8 } else { 0u8 });
            low as int + 0x100 * (high as int) == (if raw >= 0x800 { raw + 0xF000 } else { raw })
        }),
{
}

/// The S variant: two source registers and a sign-extended immediate of twelve
/// bits.
#[derive(Debug, Eq, PartialEq)]
pub struct S<R: Register> {
    pub source1: usize,
    pub source2: usize,
    pub immediate: R,
}

impl<R: Register> Variant for S<R> {
    open spec fn decodes(instruction: [u8; 4], decoded: Self) -> bool {
        &&& decoded.source1 == rs1(word(instruction))
        &&& decoded.source2 == rs2(word(instruction))
        &&& decoded.immediate.value() == wrap(R::width(), immediate_s(word(instruction)))
    }

    fn decode(instruction: [u8; 4]) -> (r: Self) {
        let signed = instruction[3] & 0x80 != 0;
        let half: [u8; 2] = [
            ((instruction[0] & 0x80) >> 7) | ((instruction[1] & 0x0F) << 1) | ((instruction[3]
                & 0x0E) << 4),
            ((instruction[3] & 0xF0) >> 4) | if signed { 0xF0 } else { 0 },
        ];
        proof {
            reveal(word);
            lemma_immediate_s(instruction[0], instruction[1], instruction[2], instruction[3]);
            let w = word(instruction);
            let raw = (w / 0x200_0000 % 0x80) * 0x20 + w / 0x80 % 0x20;
            assert(half_value(half) == if raw >= 0x800 { raw + 0xF000 } else { raw });
            lemma_sign_extended_field(R::width(), raw, 0x1000, 0x1_0000);
        }
        Self {
            source1: source1(instruction),
            source2: source2(instruction),
            immediate: R::sign_extended_half(half),
        }
    }
}

/// How the thirteen bits of a branch offset lie in the bytes of an
/// instruction, once the top byte has been filled with the sign.
proof fn lemma_immediate_b(i0: u8, i1: u8, i2: u8, i3: u8)
    by (bit_vector)
    ensures
        ({
            let w = i0 as int + 0x100 * (i1 as int) + 0x1_0000 * (i2 as int) + 0x100_0000 * (
            i3 as int);
            let raw = (w / 0x8000_0000 % 2) * 0x1000 + (w / 0x80 % 2) * 0x800 + (w / 0x200_0000
                % 0x40) * 0x20 + (w / 0x100 % 0x10) * 2;
            let low = ((i1 & 0x0F) << 1) | ((i3 & 0x0E) << 4);
            let high = ((i3 & 0x70) >> 4) | ((i0 & 0x80) >> 4) | ((i3 & 0x80) >> 3) | (if i3
                & 0x80 != 0 { 0xE0u8 } else { 0u8 });
            low as int + 0x100 * (high as int) == (if raw >= 0x1000 { raw + 0xE000 } else { raw })
        }),
{
}

/// The B variant: two source registers and a sign-extended branch offset of
/// thirteen bits, the lowest of which is zero.
#[derive(Debug, Eq, PartialEq)]
pub struct B<R: Register> {
    pub source1: usize,
    pub source2: usize,
    pub immediate: R,
}

impl<R: Register> Variant for B<R> {
    open spec fn decodes(instruction: [u8; 4], decoded: Self) -> bool {
        &&& decoded.source1 == rs1(word(instruction))
        &&& decoded.source2 == rs2(word(instruction))
        &&& decoded.immediate.value() == wrap(R::width(), immediate_b(word(instruction)))
    }

    fn decode(instruction: [u8; 4]) -> (r: Self)
        ensures
            r.immediate.value() % 2 == 0,
    {
        let signed = instruction[3] & 0x80 != 0;
        let half: [u8; 2] = [
            ((instruction[1] & 0x0F) << 1) | ((instruction[3] & 0x0E) << 4),
            ((instruction[3] & 0x70) >> 4) | ((instruction[0] & 0x80) >> 4) | ((instruction[3]
                & 0x80) >> 3) | if signed { 0xE0 } else { 0 },
        ];
        proof {
            reveal(word);
            lemma_immediate_b(instruction[0], instruction[1], instruction[2], instruction[3]);
            let w = word(instruction);
            let raw = (w / 0x8000_0000 % 2) * 0x1000 + (w / 0x80 % 2) * 0x800 + (w / 0x200_0000
                % 0x40) * 0x20 + (w / 0x100 % 0x10) * 2;
            assert(0 <= raw < 0x2000 && raw % 2 == 0);
            assert(half_value(half) == if raw >= 0x1000 { raw + 0xE000 } else { raw });
            lemma_sign_extended_field(R::width(), raw, 0x2000, 0x1_0000);
            lemma_offsets_even(R::width(), w);
        }
        Self {
            source1: source1(instruction),
            source2: source2(instruction),
            immediate: R::sign_extended_half(half),
        }
    }
}

/// How the upper immediate lies in the bytes of an instruction.
proof fn lemma_immediate_u(i0: u8, i1: u8, i2: u8, i3: u8)
    by (bit_vector)
    ensures
        ({
            let w = i0 as int + 0x100 * (i1 as int) + 0x1_0000 * (i2 as int) + 0x100_0000 * (
            i3 as int);
            0x100 * ((i1 & 0xF0) as int) + 0x1_0000 * (i2 as int) + 0x100_0000 * (i3 as int) == (w
                / 0x1000 % 0x10_0000) * 0x1000
        }),
{
}

/// The U variant: a destination and an immediate of 32 bits whose low twelve
/// bits are zero, sign-extended to the width of the register.
#[derive(Debug, Eq, PartialEq)]
pub struct U<R: Register> {
    pub destination: usize,
    pub immediate: R,
}

impl<R: Register> Variant for U<R> {
    open spec fn decodes(instruction: [u8; 4], decoded: Self) -> bool {
        &&& decoded.destination == rd(word(instruction))
        &&& decoded.immediate.value() == wrap(R::width(), immediate_u(word(instruction)))
    }

    fn decode(instruction: [u8; 4]) -> (r: Self) {
        let upper: [u8; 4] = [0, instruction[1] & 0xF0, instruction[2], instruction[3]];
        proof {
            reveal(word);
            lemma_immediate_u(instruction[0], instruction[1], instruction[2], instruction[3]);
            let raw = (word(instruction) / 0x1000 % 0x10_0000) * 0x1000;
            assert(word_value(upper) == raw);
            lemma_sign_extended_field(R::width(), raw, 0x1_0000_0000, 0x1_0000_0000);
        }
        Self { destination: destination(instruction), immediate: R::sign_extended_word(upper) }
    }
}

/// How the twenty-one bits of a jump offset lie in the bytes of an
/// instruction, once the top bytes have been filled with the sign.
proof fn lemma_immediate_j(i0: u8, i1: u8, i2: u8, i3: u8)
    by (bit_vector)
    ensures
        ({
            let w = i0 as int + 0x100 * (i1 as int) + 0x1_0000 * (i2 as int) + 0x100_0000 * (
            i3 as int);
            let raw = (w / 0x8000_0000 % 2) * 0x10_0000 + (w / 0x1000 % 0x100) * 0x1000 + (w
                / 0x10_0000 % 2) * 0x800 + (w / 0x20_0000 % 0x400) * 2;
            let b0 = ((i2 & 0xE0) >> 4) | ((i3 & 0x0F) << 4);
            let b1 = ((i3 & 0x70) >> 4) | ((i2 & 0x10) >> 1) | (i1 & 0xF0);
            let b2 = (i2 & 0x0F) | ((i3 & 0x80) >> 3) | (if i3 & 0x80 != 0 { 0xE0u8 } else { 0u8 });
            let b3 = if i3 & 0x80 != 0 { 0xFFu8 } else { 0u8 };
            b0 as int + 0x100 * (b1 as int) + 0x1_0000 * (b2 as int) + 0x100_0000 * (b3 as int)
                == (if raw >= 0x10_0000 { raw + 0xFFE0_0000 } else { raw })
        }),
{
}

/// The J variant: a destination and a sign-extended jump offset of twenty-one
/// bits, the lowest of which is zero.
#[derive(Debug, Eq, PartialEq)]
pub struct J<R: Register> {
    pub destination: usize,
    pub immediate: R,
}

impl<R: Register> Variant for J<R> {
    open spec fn decodes(instruction: [u8; 4], decoded: Self) -> bool {
        &&& decoded.destination == rd(word(instruction))
        &&& decoded.immediate.value() == wrap(R::width(), immediate_j(word(instruction)))
    }

    fn decode(instruction: [u8; 4]) -> (r: Self)
        ensures
            r.immediate.value() % 2 == 0,
    {
        let signed = instruction[3] & 0x80 != 0;
        let offset: [u8; 4] = [
            ((instruction[2] & 0xE0) >> 4) | ((instruction[3] & 0x0F) << 4),
            ((instruction[3] & 0x70) >> 4) | ((instruction[2] & 0x10) >> 1) | (instruction[1]
                & 0xF0),
            (instruction[2] & 0x0F) | ((instruction[3] & 0x80) >> 3) | if signed {
                0xE0
            } else {
                0
            },
            if signed {
                0xFF
            } else {
                0
            },
        ];
        proof {
            reveal(word);
            lemma_immediate_j(instruction[0], instruction[1], instruction[2], instruction[3]);
            let w = word(instruction);
            let raw = (w / 0x8000_0000 % 2) * 0x10_0000 + (w / 0x1000 % 0x100) * 0x1000 + (w
                / 0x10_0000 % 2) * 0x800 + (w / 0x20_0000 % 0x400) * 2;
            assert(0 <= raw < 0x20_0000 && raw % 2 == 0);
            assert(word_value(offset) == if raw >= 0x10_0000 { raw + 0xFFE0_0000 } else { raw });
            lemma_sign_extended_field(R::width(), raw, 0x20_0000, 0x1_0000_0000);
            lemma_offsets_even(R::width(), w);
        }
        Self { destination: destination(instruction), immediate: R::sign_extended_word(offset) }
    }
}

} // verus!
