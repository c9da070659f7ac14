//! The instruction set as mathematics: the state of a hart, the instruction
//! that a word encodes, and the state that an instruction leads to.
//!
//! Registers and addresses are bit patterns read as natural numbers, as in
//! [`crate::arithmetic`]. Nothing here is executable; [`crate::system::Core`]
//! is verified against these definitions.

use vstd::prelude::*;
use crate::arithmetic::{
    bit_and, bit_or, bit_xor, complement, difference, less_signed, product, product_high_mixed,
    product_high_signed, product_high_unsigned, quotient_signed, quotient_unsigned,
    remainder_signed, remainder_unsigned, shift_left, shift_right, shift_right_signed,
    sign_extend, sum, wrap,
};
use crate::register::RegisterWidth;
use crate::system::Trap;
use crate::variant::{
    csr_index, funct3, funct7, immediate_b, immediate_i, immediate_j, immediate_s, immediate_u,
    opcode, rd, rs1, rs2,
};
use crate::version;

verus! {

/// The values held by the control and status registers that need storage.
pub struct CsrValues {
    pub mhartid: int,
    pub mtvec: int,
    pub medeleg: int,
    pub mideleg: int,
    pub mie: int,
    pub mip: int,
    /// The cycle counter: 64 bits whatever the width of the hart.
    pub mcycle: int,
    /// The counter-enable register: 32 bits whatever the width of the hart.
    pub mcounteren: int,
    pub mscratch: int,
    pub mepc: int,
    pub mcause: int,
    pub mtval: int,
}

impl CsrValues {
    /// The values before the first instruction of the hart with identifier
    /// `hart`: the trap vector is at `trap_address`, every other register
    /// holds zero.
    pub open spec fn initial(hart: int, trap_address: int) -> CsrValues {
        CsrValues {
            mhartid: hart,
            mtvec: trap_address,
            medeleg: 0,
            mideleg: 0,
            mie: 0,
            mip: 0,
            mcycle: 0,
            mcounteren: 0,
            mscratch: 0,
            mepc: 0,
            mcause: 0,
            mtval: 0,
        }
    }
}

/// The state of a hart.
pub struct Hart {
    /// The width of the registers.
    pub width: RegisterWidth,
    /// The 32 general-purpose registers.
    pub x: Seq<int>,
    /// The program counter.
    pub pc: int,
    /// The control and status registers, in use only where `zicsr` is set.
    pub csr: CsrValues,
    /// Whether the hart implements multiplication and division.
    pub multiply: bool,
    /// Whether the hart implements the control and status registers, and so
    /// takes its traps itself.
    pub zicsr: bool,
}

/// What a binary operation computes.
pub enum Operation {
    Add,
    Sub,
    Sll,
    Slt,
    Sltu,
    Xor,
    Srl,
    Sra,
    Or,
    And,
    Mul,
    Mulh,
    Mulhsu,
    Mulhu,
    Div,
    Divu,
    Rem,
    Remu,
}

/// The comparison that decides a branch.
pub enum Condition {
    Equal,
    NotEqual,
    Less,
    GreaterEqual,
    LessUnsigned,
    GreaterEqualUnsigned,
}

/// What an instruction does to a control and status register.
pub enum CsrAccess {
    /// Replaces the register by the operand.
    Write,
    /// Sets the bits that are set in the operand.
    SetBits,
    /// Clears the bits that are set in the operand.
    ClearBits,
}

/// An instruction, decoded. Register fields are indices below 32; immediates
/// and offsets are bit patterns of the hart's width.
pub enum Instruction {
    /// A binary operation on two registers.
    Register { operation: Operation, rd: int, rs1: int, rs2: int },
    /// A binary operation on the low words of two registers, its 32-bit
    /// result sign-extended.
    RegisterWord { operation: Operation, rd: int, rs1: int, rs2: int },
    /// A binary operation on a register and an immediate.
    Immediate { operation: Operation, rd: int, rs1: int, immediate: int },
    /// A binary operation on the low word of a register and an immediate, its
    /// 32-bit result sign-extended.
    ImmediateWord { operation: Operation, rd: int, rs1: int, immediate: int },
    /// Loads the upper immediate.
    Lui { rd: int, immediate: int },
    /// Adds the upper immediate to the program counter.
    Auipc { rd: int, immediate: int },
    /// Loads `bytes` bytes from memory, sign-extending them if `signed`.
    Load { bytes: int, signed: bool, rd: int, rs1: int, offset: int },
    /// Stores the low `bytes` bytes of a register to memory.
    Store { bytes: int, rs1: int, rs2: int, offset: int },
    /// Jumps by an offset and links.
    Jal { rd: int, offset: int },
    /// Jumps to a register plus an offset and links.
    Jalr { rd: int, rs1: int, offset: int },
    /// Jumps by an offset if the condition holds of two registers.
    Branch { condition: Condition, rs1: int, rs2: int, offset: int },
    /// Calls the execution environment.
    Ecall,
    /// Hands control to a debugger.
    Ebreak,
    /// Reads a control and status register and changes it. `source` is the
    /// index of the register that holds the operand or, if `literal`, the
    /// operand itself.
    Csr { access: CsrAccess, literal: bool, rd: int, source: int, csr: int },
    /// No instruction that this hart implements.
    Illegal,
}

/// A transfer between the hart and memory that an instruction asks for.
pub enum Transfer {
    /// None.
    Nothing,
    /// `bytes` bytes are read, starting at `address`.
    Load { address: int, bytes: int },
    /// The `bytes` bytes that denote `value`, least significant first, are
    /// written, starting at `address`.
    Store { address: int, bytes: int, value: int },
}

/// The operation of an instruction on two registers, by its `funct3` and
/// `funct7` fields.
pub open spec fn register_operation(funct3: int, funct7: int, multiply: bool) -> Option<
    Operation,
> {
    if funct7 == 0x00 {
        if funct3 == 0 {
            Some(Operation::Add)
        } else if funct3 == 1 {
            Some(Operation::Sll)
        } else if funct3 == 2 {
            Some(Operation::Slt)
        } else if funct3 == 3 {
            Some(Operation::Sltu)
        } else if funct3 == 4 {
            Some(Operation::Xor)
        } else if funct3 == 5 {
            Some(Operation::Srl)
        } else if funct3 == 6 {
            Some(Operation::Or)
        } else if funct3 == 7 {
            Some(Operation::And)
        } else {
            None
        }
    } else if funct7 == 0x20 {
        if funct3 == 0 {
            Some(Operation::Sub)
        } else if funct3 == 5 {
            Some(Operation::Sra)
        } else {
            None
        }
    } else if funct7 == 0x01 && multiply {
        if funct3 == 0 {
            Some(Operation::Mul)
        } else if funct3 == 1 {
            Some(Operation::Mulh)
        } else if funct3 == 2 {
            Some(Operation::Mulhsu)
        } else if funct3 == 3 {
            Some(Operation::Mulhu)
        } else if funct3 == 4 {
            Some(Operation::Div)
        } else if funct3 == 5 {
            Some(Operation::Divu)
        } else if funct3 == 6 {
            Some(Operation::Rem)
        } else if funct3 == 7 {
            Some(Operation::Remu)
        } else {
            None
        }
    } else {
        None
    }
}

/// The operation of an instruction on the low words of two registers: the
/// operations of [`register_operation`] that have such a form.
pub open spec fn word_operation(funct3: int, funct7: int, multiply: bool) -> Option<Operation> {
    match register_operation(funct3, funct7, multiply) {
        Some(Operation::Add) => Some(Operation::Add),
        Some(Operation::Sub) => Some(Operation::Sub),
        Some(Operation::Sll) => Some(Operation::Sll),
        Some(Operation::Srl) => Some(Operation::Srl),
        Some(Operation::Sra) => Some(Operation::Sra),
        Some(Operation::Mul) => Some(Operation::Mul),
        Some(Operation::Div) => Some(Operation::Div),
        Some(Operation::Divu) => Some(Operation::Divu),
        Some(Operation::Rem) => Some(Operation::Rem),
        Some(Operation::Remu) => Some(Operation::Remu),
        _ => None,
    }
}

/// The operation of an instruction on a register and an immediate, by its
/// `funct3` field and, for the right shifts, bit 30 of the word.
pub open spec fn immediate_operation(funct3: int, arithmetic: bool) -> Operation {
    if funct3 == 0 {
        Operation::Add
    } else if funct3 == 1 {
        Operation::Sll
    } else if funct3 == 2 {
        Operation::Slt
    } else if funct3 == 3 {
        Operation::Sltu
    } else if funct3 == 4 {
        Operation::Xor
    } else if funct3 == 5 {
        if arithmetic {
            Operation::Sra
        } else {
            Operation::Srl
        }
    } else if funct3 == 6 {
        Operation::Or
    } else {
        Operation::And
    }
}

/// The instruction on two registers that a word encodes.
pub open spec fn decode_register(multiply: bool, word: int) -> Instruction {
    match register_operation(funct3(word), funct7(word), multiply) {
        Some(operation) => Instruction::Register {
            operation,
            rd: rd(word),
            rs1: rs1(word),
            rs2: rs2(word),
        },
        None => Instruction::Illegal,
    }
}

/// The instruction on the low words of two registers that a word encodes.
/// Only a hart of 64 bits has such instructions.
pub open spec fn decode_register_word(width: RegisterWidth, multiply: bool, word: int)
    -> Instruction {
    match word_operation(funct3(word), funct7(word), multiply) {
        Some(operation) if width == RegisterWidth::Bits64 => Instruction::RegisterWord {
            operation,
            rd: rd(word),
            rs1: rs1(word),
            rs2: rs2(word),
        },
        _ => Instruction::Illegal,
    }
}

/// The instruction on a register and an immediate that a word encodes. Bit 30
/// of the word tells the arithmetic right shift from the logical one.
pub open spec fn decode_immediate(width: RegisterWidth, word: int) -> Instruction {
    Instruction::Immediate {
        operation: immediate_operation(funct3(word), word / 0x4000_0000 % 2 == 1),
        rd: rd(word),
        rs1: rs1(word),
        immediate: wrap(width, immediate_i(word)),
    }
}

/// The instruction on the low word of a register and an immediate that a word
/// encodes: an addition or a shift, and a shift only where bit 25 of the
/// word, which is bit 5 of the shift amount, is clear. Only a hart of 64 bits
/// has such instructions.
pub open spec fn decode_immediate_word(width: RegisterWidth, word: int) -> Instruction {
    let funct3 = funct3(word);
    if width == RegisterWidth::Bits64 && (funct3 == 0 || ((funct3 == 1 || funct3 == 5) && word
        / 0x200_0000 % 2 == 0)) {
        Instruction::ImmediateWord {
            operation: immediate_operation(funct3, word / 0x4000_0000 % 2 == 1),
            rd: rd(word),
            rs1: rs1(word),
            immediate: wrap(width, immediate_i(word)),
        }
    } else {
        Instruction::Illegal
    }
}

/// The number of bytes of a memory operand, by the low two bits of `funct3`.
pub open spec fn operand_bytes(size: int) -> int {
    if size == 0 {
        1
    } else if size == 1 {
        2
    } else if size == 2 {
        4
    } else {
        8
    }
}

/// The load that a word encodes. Only a hart of 64 bits loads eight bytes,
/// or four bytes without their sign.
pub open spec fn decode_load(width: RegisterWidth, word: int) -> Instruction {
    let funct3 = funct3(word);
    if funct3 == 7 || ((funct3 == 3 || funct3 == 6) && width != RegisterWidth::Bits64) {
        Instruction::Illegal
    } else {
        Instruction::Load {
            bytes: operand_bytes(funct3 % 4),
            signed: funct3 < 4,
            rd: rd(word),
            rs1: rs1(word),
            offset: wrap(width, immediate_i(word)),
        }
    }
}

/// The store that a word encodes. Only a hart of 64 bits stores eight bytes.
pub open spec fn decode_store(width: RegisterWidth, word: int) -> Instruction {
    let funct3 = funct3(word);
    if funct3 > 3 || (funct3 == 3 && width != RegisterWidth::Bits64) {
        Instruction::Illegal
    } else {
        Instruction::Store {
            bytes: operand_bytes(funct3),
            rs1: rs1(word),
            rs2: rs2(word),
            offset: wrap(width, immediate_s(word)),
        }
    }
}

/// The jump to a register plus an offset that a word encodes.
pub open spec fn decode_jalr(width: RegisterWidth, word: int) -> Instruction {
    if funct3(word) == 0 {
        Instruction::Jalr { rd: rd(word), rs1: rs1(word), offset: wrap(width, immediate_i(word)) }
    } else {
        Instruction::Illegal
    }
}

/// The branch that a word encodes.
pub open spec fn decode_branch(width: RegisterWidth, word: int) -> Instruction {
    let funct3 = funct3(word);
    if funct3 == 2 || funct3 == 3 {
        Instruction::Illegal
    } else {
        Instruction::Branch {
            condition: if funct3 == 0 {
                Condition::Equal
            } else if funct3 == 1 {
                Condition::NotEqual
            } else if funct3 == 4 {
                Condition::Less
            } else if funct3 == 5 {
                Condition::GreaterEqual
            } else if funct3 == 6 {
                Condition::LessUnsigned
            } else {
                Condition::GreaterEqualUnsigned
            },
            rs1: rs1(word),
            rs2: rs2(word),
            offset: wrap(width, immediate_b(word)),
        }
    }
}

/// The system instruction that a word encodes: a call to the environment or,
/// where bit 20 of the word is set, a breakpoint; or, on a hart that has
/// them, an instruction on a control and status register.
pub open spec fn decode_system(zicsr: bool, word: int) -> Instruction {
    let funct3 = funct3(word);
    if funct3 == 0 {
        if word / 0x10_0000 % 2 == 0 {
            Instruction::Ecall
        } else {
            Instruction::Ebreak
        }
    } else if funct3 == 4 || !zicsr {
        Instruction::Illegal
    } else {
        Instruction::Csr {
            access: if funct3 % 4 == 1 {
                CsrAccess::Write
            } else if funct3 % 4 == 2 {
                CsrAccess::SetBits
            } else {
                CsrAccess::ClearBits
            },
            literal: funct3 > 4,
            rd: rd(word),
            source: rs1(word),
            csr: csr_index(word),
        }
    }
}

/// The instruction that a word encodes for a hart of the given width and
/// extensions: the opcode selects the kind of instruction, and a word that
/// encodes none is illegal.
#[verifier::opaque]
pub open spec fn decode(width: RegisterWidth, multiply: bool, zicsr: bool, word: int)
    -> Instruction {
    let opcode = opcode(word);
    if opcode == 0x33 {
        decode_register(multiply, word)
    } else if opcode == 0x3B {
        decode_register_word(width, multiply, word)
    } else if opcode == 0x13 {
        decode_immediate(width, word)
    } else if opcode == 0x1B {
        decode_immediate_word(width, word)
    } else if opcode == 0x37 {
        Instruction::Lui { rd: rd(word), immediate: wrap(width, immediate_u(word)) }
    } else if opcode == 0x17 {
        Instruction::Auipc { rd: rd(word), immediate: wrap(width, immediate_u(word)) }
    } else if opcode == 0x03 {
        decode_load(width, word)
    } else if opcode == 0x23 {
        decode_store(width, word)
    } else if opcode == 0x6F {
        Instruction::Jal { rd: rd(word), offset: wrap(width, immediate_j(word)) }
    } else if opcode == 0x67 {
        decode_jalr(width, word)
    } else if opcode == 0x63 {
        decode_branch(width, word)
    } else if opcode == 0x73 {
        decode_system(zicsr, word)
    } else {
        Instruction::Illegal
    }
}

/// The result of a binary operation on two bit patterns of width `w`.
#[verifier::opaque]
pub open spec fn compute(w: RegisterWidth, operation: Operation, a: int, b: int) -> int {
    match operation {
        Operation::Add => sum(w, a, b),
        Operation::Sub => difference(w, a, b),
        Operation::Sll => shift_left(w, a, b),
        Operation::Slt => if less_signed(w, a, b) {
            1
        } else {
            0
        },
        Operation::Sltu => if a < b {
            1
        } else {
            0
        },
        Operation::Xor => bit_xor(a, b),
        Operation::Srl => shift_right(w, a, b),
        Operation::Sra => shift_right_signed(w, a, b),
        Operation::Or => bit_or(a, b),
        Operation::And => bit_and(a, b),
        Operation::Mul => product(w, a, b),
        Operation::Mulh => product_high_signed(w, a, b),
        Operation::Mulhsu => product_high_mixed(w, a, b),
        Operation::Mulhu => product_high_unsigned(w, a, b),
        Operation::Div => quotient_signed(w, a, b),
        Operation::Divu => quotient_unsigned(w, a, b),
        Operation::Rem => remainder_signed(w, a, b),
        Operation::Remu => remainder_unsigned(a, b),
    }
}

/// The result of a binary operation on the low words of two bit patterns:
/// the operation is carried out on 32 bits and its result sign-extended.
pub open spec fn compute_word(w: RegisterWidth, operation: Operation, a: int, b: int) -> int {
    sign_extend(
        w,
        0x1_0000_0000,
        compute(RegisterWidth::Bits32, operation, a % 0x1_0000_0000, b % 0x1_0000_0000),
    )
}

/// Whether a branch is taken.
pub open spec fn holds(w: RegisterWidth, condition: Condition, a: int, b: int) -> bool {
    match condition {
        Condition::Equal => a == b,
        Condition::NotEqual => a != b,
        Condition::Less => less_signed(w, a, b),
        Condition::GreaterEqual => !less_signed(w, a, b),
        Condition::LessUnsigned => a < b,
        Condition::GreaterEqualUnsigned => a >= b,
    }
}

/// The number of patterns of a memory operand of `bytes` bytes.
pub open spec fn span(bytes: int) -> int {
    if bytes == 1 {
        0x100
    } else if bytes == 2 {
        0x1_0000
    } else if bytes == 4 {
        0x1_0000_0000
    } else {
        0x1_0000_0000_0000_0000
    }
}

/// The pattern that a load of `bytes` bytes writes to its destination:
/// `loaded` is the number denoted by eight bytes, least significant first,
/// of which the first `bytes` were read. They are sign-extended or
/// zero-extended to the width of the register.
pub open spec fn loaded_value(w: RegisterWidth, bytes: int, signed: bool, loaded: int) -> int {
    if signed {
        sign_extend(w, span(bytes), loaded % span(bytes))
    } else {
        loaded % span(bytes)
    }
}

/// The cause code that the `mcause` register holds for a trap.
pub open spec fn cause(trap: Trap) -> int {
    match trap {
        Trap::InstructionMisaligned => 0,
        Trap::IllegalInstruction => 2,
        Trap::Breakpoint => 3,
        Trap::SystemCall => 11,
    }
}

/// The address at which a trap handler starts: the base of the trap vector,
/// which is `mtvec` without its low two bits, or, where the lowest bit of
/// `mtvec` asks for vectoring, the entry of the cause in the table at the base.
pub open spec fn trap_target(w: RegisterWidth, mtvec: int, cause: int) -> int {
    let base = bit_and(mtvec, wrap(w, -4));
    if mtvec % 2 == 1 {
        sum(w, base, 4 * cause)
    } else {
        base
    }
}

/// The value of the `misa` register: bit 8, for the base integer instruction
/// set, and in the top two bits 1 for a hart of 32 bits and 2 for one of 64.
pub open spec fn misa(w: RegisterWidth) -> int {
    match w {
        RegisterWidth::Bits32 => 0x4000_0100,
        RegisterWidth::Bits64 => 0x8000_0000_0000_0100,
    }
}

/// The value of the `mimpid` register: the version of this library.
pub open spec fn mimpid() -> int {
    version::PATCH + 0x100 * version::MINOR + 0x1_0000 * version::MAJOR
}

/// The bits of the interrupt registers `mie` and `mip` that can be written;
/// the others are reserved and stay zero.
pub open spec fn interrupt_mask(w: RegisterWidth) -> int {
    complement(w, 0xF444)
}

impl Hart {
    /// The state before the first instruction of a hart that starts at
    /// `entry`: every register holds zero, and the trap vector is at `entry`.
    pub open spec fn initial(
        width: RegisterWidth,
        entry: int,
        hart: int,
        multiply: bool,
        zicsr: bool,
    ) -> Hart {
        Hart {
            width,
            x: Seq::new(32, |i: int| 0),
            pc: entry,
            csr: CsrValues::initial(hart, entry),
            multiply,
            zicsr,
        }
    }

    /// Whether the state is one that a hart can be in: there are 32
    /// registers, and the first holds zero.
    pub open spec fn valid(self) -> bool {
        &&& self.x.len() == 32
        &&& self.x[0] == 0
    }

    /// The state after `value` is written to register `rd`. Register 0 takes
    /// no value, and there is no register beyond the last.
    pub open spec fn write(self, rd: int, value: int) -> Hart {
        if 0 < rd < self.x.len() {
            Hart { x: self.x.update(rd, value), ..self }
        } else {
            self
        }
    }

    /// The state after each of `values` was written to register `rd`, the
    /// first of them first.
    pub open spec fn write_all(self, rd: int, values: Seq<int>) -> Hart
        decreases values.len(),
    {
        if values.len() == 0 {
            self
        } else {
            self.write(rd, values[0]).write_all(rd, values.skip(1))
        }
    }

    /// The state with the program counter at `pc`.
    pub open spec fn jump(self, pc: int) -> Hart {
        Hart { pc, ..self }
    }

    /// The state with the program counter at the next instruction.
    pub open spec fn advance(self) -> Hart {
        self.jump(sum(self.width, self.pc, 4))
    }

    /// The state after one more cycle has been counted.
    pub open spec fn tick(self) -> Hart {
        if self.zicsr {
            Hart {
                csr: CsrValues {
                    mcycle: sum(RegisterWidth::Bits64, self.csr.mcycle, 1),
                    ..self.csr
                },
                ..self
            }
        } else {
            self
        }
    }

    /// The value that a read of the control and status register `index`
    /// gives, or `None` where the hart has no such register.
    #[verifier::opaque]
    pub open spec fn csr_read(self, index: int) -> Option<int> {
        if !self.zicsr {
            None
        } else if index == 0x301 {
            Some(misa(self.width))
        } else if index == 0x302 {
            Some(self.csr.medeleg)
        } else if index == 0x303 {
            Some(self.csr.mideleg)
        } else if index == 0x304 {
            Some(self.csr.mie)
        } else if index == 0x305 {
            Some(self.csr.mtvec)
        } else if index == 0x306 {
            Some(self.csr.mcounteren)
        } else if index == 0x340 {
            Some(self.csr.mscratch)
        } else if index == 0x341 {
            Some(self.csr.mepc)
        } else if index == 0x342 {
            Some(self.csr.mcause)
        } else if index == 0x343 {
            Some(self.csr.mtval)
        } else if index == 0x344 {
            Some(self.csr.mip)
        } else if index == 0xB00 || index == 0xB02 {
            Some(self.csr.mcycle % self.width.modulus())
        } else if index == 0xB80 || index == 0xB82 {
            if self.width == RegisterWidth::Bits32 {
                Some(self.csr.mcycle / 0x1_0000_0000)
            } else {
                None
            }
        } else if 0xB03 <= index <= 0xB1F || 0xB23 <= index <= 0xB3F || 0xB83 <= index <= 0xB9F {
            Some(0)
        } else if index == 0xF11 || index == 0xF12 {
            Some(0)
        } else if index == 0xF13 {
            Some(mimpid())
        } else if index == 0xF14 {
            Some(self.csr.mhartid)
        } else {
            None
        }
    }

    /// The state after `value` is written to the control and status register
    /// `index`. Only the interrupt registers take a value, and only in the
    /// bits of [`interrupt_mask`].
    #[verifier::opaque]
    pub open spec fn csr_write(self, index: int, value: int) -> Hart {
        if self.zicsr && index == 0x304 {
            Hart {
                csr: CsrValues { mie: bit_and(value, interrupt_mask(self.width)), ..self.csr },
                ..self
            }
        } else if self.zicsr && index == 0x344 {
            Hart {
                csr: CsrValues { mip: bit_and(value, interrupt_mask(self.width)), ..self.csr },
                ..self
            }
        } else {
            self
        }
    }

    /// The state after trap entry, for a trap with the given cause code that
    /// is or is not an interrupt: `mcause` holds the cause, and the program
    /// counter is at the handler.
    pub open spec fn enter(self, cause: int, interrupt: bool) -> Hart {
        Hart {
            csr: CsrValues {
                mcause: cause + if interrupt {
                    self.width.modulus() / 2
                } else {
                    0
                },
                ..self.csr
            },
            pc: trap_target(self.width, self.csr.mtvec, cause),
            ..self
        }
    }

    /// The state after a trap was raised, and what is reported to the host. A
    /// hart with control and status registers takes the trap itself: `mtval`
    /// holds the program counter for a misaligned fetch and for a breakpoint,
    /// and zero for the other traps. A hart without them reports the trap and
    /// stays as it is.
    #[verifier::opaque]
    pub open spec fn raise(self, trap: Trap) -> (Hart, Option<Trap>) {
        if self.zicsr {
            let mtval = if trap == Trap::InstructionMisaligned || trap == Trap::Breakpoint {
                self.pc
            } else {
                0
            };
            (
                Hart { csr: CsrValues { mtval, ..self.csr }, ..self }.enter(cause(trap), false),
                None,
            )
        } else {
            (self, Some(trap))
        }
    }

    /// The transfer with memory that `instruction` asks for in this state.
    #[verifier::opaque]
    pub open spec fn transfer(self, instruction: Instruction) -> Transfer {
        match instruction {
            Instruction::Load { bytes, signed, rd, rs1, offset } => Transfer::Load {
                address: sum(self.width, self.x[rs1], offset),
                bytes,
            },
            Instruction::Store { bytes, rs1, rs2, offset } => Transfer::Store {
                address: sum(self.width, self.x[rs1], offset),
                bytes,
                value: self.x[rs2] % span(bytes),
            },
            _ => Transfer::Nothing,
        }
    }

    /// The state after `instruction` was carried out, and the trap that is
    /// reported to the host, if any. `loaded` is the number denoted by eight
    /// bytes, least significant first, of which the first are those that a
    /// load has read.
    #[verifier::opaque]
    pub open spec fn perform(self, instruction: Instruction, loaded: int) -> (Hart, Option<Trap>) {
        let w = self.width;
        match instruction {
            Instruction::Register { operation, rd, rs1, rs2 } => (
                self.write(rd, compute(w, operation, self.x[rs1], self.x[rs2])).advance(),
                None,
            ),
            Instruction::RegisterWord { operation, rd, rs1, rs2 } => (
                self.write(rd, compute_word(w, operation, self.x[rs1], self.x[rs2])).advance(),
                None,
            ),
            Instruction::Immediate { operation, rd, rs1, immediate } => (
                self.write(rd, compute(w, operation, self.x[rs1], immediate)).advance(),
                None,
            ),
            Instruction::ImmediateWord { operation, rd, rs1, immediate } => (
                self.write(rd, compute_word(w, operation, self.x[rs1], immediate)).advance(),
                None,
            ),
            Instruction::Lui { rd, immediate } => (self.write(rd, immediate).advance(), None),
            Instruction::Auipc { rd, immediate } => (
                self.write(rd, sum(w, self.pc, immediate)).advance(),
                None,
            ),
            Instruction::Load { bytes, signed, rd, rs1, offset } => (
                self.write(rd, loaded_value(w, bytes, signed, loaded)).advance(),
                None,
            ),
            Instruction::Store { bytes, rs1, rs2, offset } => (self.advance(), None),
            Instruction::Jal { rd, offset } => (
                self.write(rd, sum(w, self.pc, 4)).jump(sum(w, self.pc, offset)),
                None,
            ),
            Instruction::Jalr { rd, rs1, offset } => (
                self.write(rd, sum(w, self.pc, 4)).jump(
                    bit_and(sum(w, self.x[rs1], offset), wrap(w, -2)),
                ),
                None,
            ),
            Instruction::Branch { condition, rs1, rs2, offset } => (
                if holds(w, condition, self.x[rs1], self.x[rs2]) {
                    self.jump(sum(w, self.pc, offset))
                } else {
                    self.advance()
                },
                None,
            ),
            Instruction::Ecall => self.raise(Trap::SystemCall),
            Instruction::Ebreak => self.raise(Trap::Breakpoint),
            Instruction::Csr { access, literal, rd, source, csr } => {
                let operand = if literal {
                    source
                } else {
                    self.x[source]
                };
                match access {
                    CsrAccess::Write => if rd == 0 {
                        (self.csr_write(csr, operand).advance(), None)
                    } else {
                        match self.csr_read(csr) {
                            Some(old) => (
                                self.csr_write(csr, operand).write(rd, old).advance(),
                                None,
                            ),
                            None => self.raise(Trap::IllegalInstruction),
                        }
                    },
                    CsrAccess::SetBits => match self.csr_read(csr) {
                        Some(old) => (
                            (if source == 0 {
                                self
                            } else {
                                self.csr_write(csr, bit_or(old, operand))
                            }).write(rd, old).advance(),
                            None,
                        ),
                        None => self.raise(Trap::IllegalInstruction),
                    },
                    CsrAccess::ClearBits => match self.csr_read(csr) {
                        Some(old) => (
                            (if source == 0 {
                                self
                            } else {
                                self.csr_write(csr, bit_and(old, complement(w, operand)))
                            }).write(rd, old).advance(),
                            None,
                        ),
                        None => self.raise(Trap::IllegalInstruction),
                    },
                }
            },
            Instruction::Illegal => self.raise(Trap::IllegalInstruction),
        }
    }

    /// The instruction that `word` encodes for this hart.
    pub open spec fn decode(self, word: int) -> Instruction {
        decode(self.width, self.multiply, self.zicsr, word)
    }

    /// The state after the instruction that `word` encodes has retired, and
    /// the trap that is reported to the host, if any: a cycle is counted,
    /// then the instruction is carried out.
    #[verifier::opaque]
    pub open spec fn retire(self, word: int, loaded: int) -> (Hart, Option<Trap>) {
        self.tick().perform(self.decode(word), loaded)
    }
}

/// Register 0 takes no value: whatever is written to it, and however often,
/// the state stays as it is.
pub proof fn lemma_zero_register(hart: Hart, values: Seq<int>)
    ensures
        hart.write_all(0, values) == hart,
    decreases values.len(),
{
    if values.len() > 0 {
        lemma_zero_register(hart, values.skip(1));
    }
}

/// Writes to a register, whichever it is, keep a state valid: register 0
/// still holds zero.
pub proof fn lemma_write_valid(hart: Hart, rd: int, values: Seq<int>)
    requires
        hart.valid(),
    ensures
        hart.write_all(rd, values).valid(),
    decreases values.len(),
{
    if values.len() > 0 {
        lemma_write_valid(hart.write(rd, values[0]), rd, values.skip(1));
    }
}

/// Raising a trap keeps a state valid.
pub proof fn lemma_raise_valid(hart: Hart, trap: Trap)
    requires
        hart.valid(),
    ensures
        hart.raise(trap).0.valid(),
        hart.raise(trap).0.width == hart.width,
        hart.raise(trap).0.multiply == hart.multiply,
        hart.raise(trap).0.zicsr == hart.zicsr,
        hart.raise(trap).0.csr.mcycle == hart.csr.mcycle,
{
    reveal(Hart::raise);
}

/// A write to a control and status register changes no other part of the
/// state.
pub proof fn lemma_csr_write_valid(hart: Hart, index: int, value: int)
    ensures
        hart.csr_write(index, value).x == hart.x,
        hart.csr_write(index, value).pc == hart.pc,
        hart.csr_write(index, value).width == hart.width,
        hart.csr_write(index, value).multiply == hart.multiply,
        hart.csr_write(index, value).zicsr == hart.zicsr,
        hart.csr_write(index, value).csr.mcycle == hart.csr.mcycle,
{
    reveal(Hart::csr_write);
}

/// Carrying out an instruction keeps a state valid: there are still 32
/// registers, and register 0 still holds zero.
pub proof fn lemma_perform_valid(hart: Hart, instruction: Instruction, loaded: int)
    requires
        hart.valid(),
    ensures
        hart.perform(instruction, loaded).0.valid(),
        hart.perform(instruction, loaded).0.width == hart.width,
        hart.perform(instruction, loaded).0.multiply == hart.multiply,
        hart.perform(instruction, loaded).0.zicsr == hart.zicsr,
        hart.perform(instruction, loaded).0.csr.mcycle == hart.csr.mcycle,
{
    reveal(Hart::perform);
    match instruction {
        Instruction::Ecall => {
            lemma_raise_valid(hart, Trap::SystemCall);
        },
        Instruction::Ebreak => {
            lemma_raise_valid(hart, Trap::Breakpoint);
        },
        Instruction::Illegal => {
            lemma_raise_valid(hart, Trap::IllegalInstruction);
        },
        Instruction::Csr { access, literal, rd, source, csr } => {
            lemma_raise_valid(hart, Trap::IllegalInstruction);
            let operand = if literal {
                source
            } else {
                hart.x[source]
            };
            match hart.csr_read(csr) {
                Some(old) => {
                    lemma_csr_write_valid(hart, csr, bit_or(old, operand));
                    lemma_csr_write_valid(hart, csr, bit_and(old, complement(hart.width, operand)));
                },
                None => {},
            }
            lemma_csr_write_valid(hart, csr, operand);
        },
        _ => {},
    }
}

/// Every step counts exactly one cycle, whatever the instruction and whether
/// or not it traps: no instruction writes the cycle counter.
pub proof fn lemma_cycle_counted(hart: Hart, word: int, loaded: int, trap: Trap)
    requires
        hart.valid(),
    ensures
        hart.retire(word, loaded).0.csr.mcycle == hart.tick().csr.mcycle,
        hart.retire(word, loaded).0.zicsr == hart.zicsr,
        hart.retire(word, loaded).0.multiply == hart.multiply,
        hart.tick().raise(trap).0.csr.mcycle == hart.tick().csr.mcycle,
        hart.zicsr ==> hart.tick().csr.mcycle == (hart.csr.mcycle + 1) % 0x1_0000_0000_0000_0000,
        !hart.zicsr ==> hart.tick().csr.mcycle == hart.csr.mcycle,
{
    reveal(Hart::retire);
    lemma_perform_valid(hart.tick(), hart.decode(word), loaded);
    lemma_raise_valid(hart.tick(), trap);
}

/// Only a load depends on what was loaded.
pub proof fn lemma_perform_loaded(hart: Hart, instruction: Instruction, loaded: int, other: int)
    requires
        !(instruction is Load),
    ensures
        hart.perform(instruction, loaded) == hart.perform(instruction, other),
{
    reveal(Hart::perform);
}

} // verus!
