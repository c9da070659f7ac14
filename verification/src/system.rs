//! A hart and the memory that it executes from.

use vstd::prelude::*;
use crate::arithmetic::{
    double_value, fits, lemma_low_bits, lemma_low_bytes, lemma_low_bytes_of_word,
    lemma_quotient_remainder, lemma_wrap, sign_extend, wrap,
};
use crate::csr::Csr;
use crate::integer::Integer;
use crate::isa::{
    compute, decode, decode_branch, decode_immediate, decode_immediate_word, decode_jalr,
    decode_load, decode_register, decode_register_word, decode_store, decode_system,
    lemma_cycle_counted, lemma_perform_valid, lemma_raise_valid, loaded_value, operand_bytes,
    register_operation, span, Hart, Instruction, Transfer,
};
use crate::register::{Register, Register32, Register64, RegisterWidth, Xlen};
use crate::variant;
use crate::variant::{funct3, funct7, immediate_j, immediate_u, opcode, rd, word, Variant};
use crate::version;

verus! {

/// A trap that the execution environment has to handle.
#[derive(Copy, Clone, PartialEq, Eq, Debug, Structural)]
pub enum Trap {
    /// The program counter was not aligned to four bytes when an instruction
    /// was to be fetched.
    InstructionMisaligned,
    /// The bytes fetched encode no instruction that the hart implements.
    IllegalInstruction,
    /// A call to the execution environment.
    SystemCall,
    /// A breakpoint, for a debugger to handle.
    Breakpoint,
}

impl Trap {
    /// A description of the trap for people to read.
    pub fn message(&self) -> (r: &'static str)
        ensures
            r@ == match *self {
                Trap::InstructionMisaligned => "Instruction Address is Misaligned"@,
                Trap::IllegalInstruction => "Trap on Illegal Instruction"@,
                Trap::SystemCall => "System Call"@,
                Trap::Breakpoint => "Trap on External Debugger Breakpoint"@,
            },
    {
        match self {
            Trap::InstructionMisaligned => "Instruction Address is Misaligned",
            Trap::IllegalInstruction => "Trap on Illegal Instruction",
            Trap::SystemCall => "System Call",
            Trap::Breakpoint => "Trap on External Debugger Breakpoint",
        }
    }
}

/// The memory of the system, which the host provides. Devices and regions
/// other than working memory may be mapped into it, so nothing is assumed of
/// what a read returns, nor of what a write does.
pub trait Mmu<R: Register> {
    /// The byte at `address`.
    fn get(&self, address: R::Unsigned) -> u8;

    /// Writes `value` to the byte at `address`.
    fn set(&mut self, address: R::Unsigned, value: u8);

    /// Whether [`Mmu::fetch`] reads the instruction byte by byte, as it does
    /// unless a memory replaces it. A memory that fetches in its own way
    /// says so here.
    open spec fn fetches_bytes(&self) -> bool {
        true
    }

    /// The four bytes of the instruction at `address`. Unless a memory has
    /// its own way to fetch, they are the bytes that [`Mmu::get`] gives at
    /// `address` and at the three addresses after it, which wrap at the top
    /// of the address space.
    fn fetch(&self, address: R) -> (r: [u8; 4])
        ensures
            self.fetches_bytes() ==> forall|k: int|
                #![trigger r[k]]
                0 <= k < 4 ==> exists|at: R::Unsigned|
                    at.bits() == wrap(R::width(), address.value() + k) && #[trigger] call_ensures(
                        Self::get,
                        (self, at),
                        r[k],
                    ),
    {
        proof {
            address.lemma_value(address);
            lemma_wrap(R::width(), address.value());
        }
        [
            self.get(address.unsigned()),
            self.get(address.append(1)),
            self.get(address.append(2)),
            self.get(address.append(3)),
        ]
    }
}

/// Whether `instruction` is what `mmu` may give for the instruction at the
/// address `pc`.
pub open spec fn fetched<R: Register, M: Mmu<R> + ?Sized>(
    mmu: &M,
    pc: int,
    instruction: [u8; 4],
) -> bool {
    exists|at: R| at.value() == pc && call_ensures(M::fetch, (mmu, at), instruction)
}

/// Whether `byte` is what `mmu` may give for the byte at `address`.
pub open spec fn read<R: Register, M: Mmu<R> + ?Sized>(mmu: &M, address: int, byte: u8) -> bool {
    exists|at: R::Unsigned| at.bits() == address && call_ensures(M::get, (mmu, at), byte)
}

/// Whether the first bytes of `loaded` are what `mmu` may give for the bytes
/// that `transfer` reads, the first of them at the lowest address. A transfer
/// that reads nothing asks nothing of `loaded`.
pub open spec fn loaded_from<R: Register, M: Mmu<R> + ?Sized>(
    mmu: &M,
    transfer: Transfer,
    loaded: [u8; 8],
) -> bool {
    match transfer {
        Transfer::Load { address, bytes } => forall|k: int|
            0 <= k < bytes ==> read::<R, M>(mmu, wrap(R::width(), address + k), #[trigger] loaded[k]),
        _ => true,
    }
}

/// What an instruction asks of memory.
#[derive(Debug, PartialEq, Eq)]
pub enum Access<R: Register> {
    /// Nothing.
    Nothing,
    /// `length` bytes are to be read, starting at `address`.
    Load { address: R, length: usize },
    /// The first `length` bytes of `bytes` are to be written, starting at
    /// `address`.
    Store { address: R, length: usize, bytes: [u8; 8] },
}

impl<R: Register> Access<R> {
    /// The number of bytes that are to be read or written.
    pub open spec fn length(&self) -> int {
        match *self {
            Access::Nothing => 0,
            Access::Load { address, length } => length as int,
            Access::Store { address, length, bytes } => length as int,
        }
    }

    /// The bytes that are to be written, of which the first
    /// [`Access::length`] count.
    pub open spec fn bytes(&self) -> [u8; 8] {
        match *self {
            Access::Store { address, length, bytes } => bytes,
            _ => [0u8, 0u8, 0u8, 0u8, 0u8, 0u8, 0u8, 0u8],
        }
    }

    /// The transfer that is asked for.
    pub open spec fn view(&self) -> Transfer {
        match *self {
            Access::Nothing => Transfer::Nothing,
            Access::Load { address, length } => Transfer::Load {
                address: address.value(),
                bytes: length as int,
            },
            Access::Store { address, length, bytes } => Transfer::Store {
                address: address.value(),
                bytes: length as int,
                value: double_value(bytes),
            },
        }
    }
}

/// A single hart: a program counter, 32 registers and, where it implements
/// them, the control and status registers.
pub struct Core<R: Register> {
    /// The 32 general-purpose registers. Register 0 always holds zero.
    registers: [R; 32],
    /// The program counter.
    pub pc: R,
    /// The control and status registers.
    csr: Csr<R>,
    /// Whether the hart implements multiplication and division.
    multiply: bool,
    /// Whether the hart implements the control and status registers.
    zicsr: bool,
}

impl<R: Register> Core<R> {
    /// The state of the hart.
    pub closed spec fn view(&self) -> Hart {
        Hart {
            width: R::width(),
            x: Seq::new(32, |i: int| self.registers[i].value()),
            pc: self.pc.value(),
            csr: self.csr@,
            multiply: self.multiply,
            zicsr: self.zicsr,
        }
    }

    /// Whether the hart is in a state that a hart can be in. Every
    /// constructor gives such a hart and every method keeps it so.
    pub open spec fn wf(&self) -> bool {
        &&& self@.valid()
        &&& self@.width == R::width()
    }

    /// The state of a hart has the width of its registers and 32 of them,
    /// whatever the hart has gone through.
    pub proof fn lemma_view(&self)
        ensures
            self@.width == R::width(),
            self@.x.len() == 32,
    {
    }

    /// Every register of the hart, and its program counter, holds a pattern
    /// of the width of its registers.
    pub proof fn lemma_fits(&self)
        ensures
            forall|i: int| 0 <= i < 32 ==> fits(R::width(), #[trigger] self@.x[i]),
            fits(R::width(), self@.pc),
    {
        assert forall|i: int| 0 <= i < 32 implies fits(R::width(), #[trigger] self@.x[i]) by {
            self.registers[i].lemma_value(self.registers[i]);
        }
        self.pc.lemma_value(self.pc);
    }

    /// A hart of the base integer instruction set that starts execution at
    /// `address`. It reports its traps to the host.
    pub fn new(address: R::Unsigned) -> (r: Self)
        ensures
            r.wf(),
            r@ == Hart::initial(R::width(), address.bits(), 0, false, false),
    {
        let zero = R::zero_extended_byte(0);
        let r = Self {
            registers: [zero;32],
            pc: R::from_unsigned(address),
            csr: Csr::new(zero.unsigned(), address),
            multiply: false,
            zicsr: false,
        };
        assert(r@.x =~= Seq::new(32, |i: int| 0));
        r
    }

    /// A hart with control and status registers that starts execution at
    /// `address`. `hart` identifies it among the harts of the system, one of
    /// which must have the identifier 0. The trap vector starts at `address`,
    /// and the hart takes its traps itself.
    pub fn with_csr(address: R::Unsigned, hart: R::Unsigned) -> (r: Self)
        ensures
            r.wf(),
            r@ == Hart::initial(R::width(), address.bits(), hart.bits(), false, true),
    {
        let zero = R::zero_extended_byte(0);
        let r = Self {
            registers: [zero;32],
            pc: R::from_unsigned(address),
            csr: Csr::new(hart, address),
            multiply: false,
            zicsr: true,
        };
        assert(r@.x =~= Seq::new(32, |i: int| 0));
        r
    }

    /// The same hart with multiplication and division.
    pub fn with_multiply(self) -> (r: Self)
        requires
            self.wf(),
        ensures
            r.wf(),
            r@ == (Hart { multiply: true, ..self@ }),
    {
        Self { multiply: true, ..self }
    }

    /// The program counter.
    #[inline(always)]
    pub fn pc(&self) -> (r: R)
        ensures
            r.value() == self@.pc,
    {
        self.pc
    }

    /// Sets the program counter to `address`, where the next step fetches.
    /// An address that is no multiple of four makes that step trap.
    #[inline(always)]
    pub fn set_pc(&mut self, address: R)
        ensures
            final(self)@ == old(self)@.jump(address.value()),
            old(self).wf() ==> final(self).wf(),
    {
        self.pc = address;
    }

    /// Moves the program counter to the next instruction, four bytes on.
    pub fn step(&mut self)
        ensures
            final(self)@ == old(self)@.advance(),
            old(self).wf() ==> final(self).wf(),
    {
        self.pc = self.pc.add_unsigned(R::zero_extended_byte(4))
    }

    /// The register `x{index}`.
    #[inline(always)]
    pub fn get(&self, index: usize) -> (r: R)
        requires
            index < 32,
        ensures
            r.value() == self@.x[index as int],
            self.wf() && index == 0 ==> r.value() == 0,
    {
        self.registers[index]
    }

    /// Sets the register `x{index}` to `register`, unless `index` is 0.
    #[inline(always)]
    pub fn set(&mut self, index: usize, register: R)
        requires
            index < 32,
        ensures
            final(self)@ == old(self)@.write(index as int, register.value()),
            index == 0 ==> final(self)@ == old(self)@,
            old(self).wf() ==> final(self).wf(),
    {
        if index > 0 {
            self.registers[index] = register;
            assert(self@.x =~= old(self)@.x.update(index as int, register.value()));
        }
    }

    /// The value of the control and status register `index`. A hart has no
    /// register at most indices, and none at all without the extension: a
    /// read there is an illegal instruction.
    pub fn get_csr(&self, index: usize) -> (r: Result<R, Trap>)
        ensures
            match self@.csr_read(index as int) {
                Some(value) => r is Ok && r->Ok_0.value() == value,
                None => r == Err::<R, Trap>(Trap::IllegalInstruction),
            },
    {
        reveal(Hart::csr_read);
        if !self.zicsr {
            return Err(Trap::IllegalInstruction);
        }
        proof {
            R::lemma_integers();
            lemma_low_bytes(self.csr.mcycle.0);
            lemma_low_bytes_of_word(self.csr.mcounteren.0);
        }
        match index {
            // misa
            0x301 => Ok(
                match R::WIDTH {
                    RegisterWidth::Bits32 => R::zero_extended_word([0, 1, 0, 0x40]),
                    RegisterWidth::Bits64 => R::zero_extended_double(
                        [0, 1, 0, 0, 0, 0, 0, 0x80],
                    ),
                },
            ),
            // medeleg
            0x302 => Ok(self.csr.medeleg),
            // mideleg
            0x303 => Ok(self.csr.mideleg),
            // mie
            0x304 => Ok(self.csr.mie),
            // mtvec
            0x305 => Ok(self.csr.mtvec),
            // mcounteren
            0x306 => Ok(R::zero_extended_word(self.csr.mcounteren.word())),
            // mscratch
            0x340 => Ok(self.csr.mscratch),
            // mepc
            0x341 => Ok(self.csr.mepc),
            // mcause
            0x342 => Ok(self.csr.mcause),
            // mtval
            0x343 => Ok(self.csr.mtval),
            // mip
            0x344 => Ok(self.csr.mip),
            // mcycle, and minstret, which is the same
            0xB00 | 0xB02 => Ok(
                match R::WIDTH {
                    RegisterWidth::Bits32 => R::zero_extended_word(self.csr.mcycle.split().0.0),
                    RegisterWidth::Bits64 => R::zero_extended_double(self.csr.mcycle.double()),
                },
            ),
            // mcycleh and minstreth
            0xB80 | 0xB82 => match R::WIDTH {
                RegisterWidth::Bits32 => Ok(R::zero_extended_word(self.csr.mcycle.split().1.0)),
                RegisterWidth::Bits64 => Err(Trap::IllegalInstruction),
            },
            // the unused performance counters and event selectors
            0xB03..=0xB1F | 0xB23..=0xB3F | 0xB83..=0xB9F => Ok(R::zero_extended_byte(0)),
            // mvendorid and marchid
            0xF11 | 0xF12 => Ok(R::zero_extended_byte(0)),
            // mimpid
            0xF13 => Ok(R::zero_extended_word([version::PATCH, version::MINOR, version::MAJOR, 0])),
            // mhartid
            0xF14 => Ok(self.csr.mhartid),
            _ => Err(Trap::IllegalInstruction),
        }
    }

    /// Writes `value` to the control and status register `index`. Only the
    /// interrupt registers `mie` and `mip` take a value, and their reserved
    /// bits stay zero; a write to any other register changes nothing.
    pub fn set_csr(&mut self, index: usize, value: R)
        ensures
            final(self)@ == old(self)@.csr_write(index as int, value.value()),
            old(self).wf() ==> final(self).wf(),
    {
        reveal(Hart::csr_write);
        if self.zicsr {
            match index {
                // mie
                0x304 => {
                    self.csr.mie = value.and(R::zero_extended_half([0x44, 0xF4]).not());
                },
                // mip
                0x344 => {
                    self.csr.mip = value.and(R::zero_extended_half([0x44, 0xF4]).not());
                },
                _ => (),
            }
        }
    }

    /// Enters the handler of a trap: `mcause` takes the cause, and execution
    /// goes on at the address that the trap vector gives for it.
    fn trap(&mut self, cause: u8, interrupt: bool)
        ensures
            final(self)@ == old(self)@.enter(cause as int, interrupt),
    {
        proof {
            lemma_wrap(R::width(), -4);
            lemma_low_bits(self.csr.mtvec.value());
            lemma_quotient_remainder(4 * cause, 0x100, 4 * cause / 0x100, 4 * cause % 0x100);
        }
        self.csr.mcause = R::trap_cause(cause, interrupt);
        let base = self.csr.mtvec.and(R::sign_extended_byte(0xFC));
        let address = if self.csr.mtvec.byte() % 2 == 1 {
            // The entry of the cause in the vector table
            let offset: u16 = 4 * (cause as u16);
            base.add_unsigned(
                R::zero_extended_half([(offset % 0x100) as u8, (offset / 0x100) as u8]),
            )
        } else {
            // The one handler of a direct vector
            base
        };
        self.pc = address;
    }

    /// Raises `trap`. A hart with control and status registers takes it
    /// itself; a hart without them reports it to the host.
    fn raise(&mut self, trap: Trap) -> (reported: Option<Trap>)
        ensures
            (final(self)@, reported) == old(self)@.raise(trap),
    {
        reveal(Hart::raise);
        if self.zicsr {
            match trap {
                Trap::InstructionMisaligned => {
                    self.csr.mtval = self.pc;
                    self.trap(0, false);
                },
                Trap::IllegalInstruction => {
                    self.csr.mtval = R::zero_extended_byte(0);
                    self.trap(2, false);
                },
                Trap::Breakpoint => {
                    self.csr.mtval = self.pc;
                    self.trap(3, false);
                },
                Trap::SystemCall => {
                    self.csr.mtval = R::zero_extended_byte(0);
                    self.trap(11, false);
                },
            }
            None
        } else {
            Some(trap)
        }
    }

    /// Counts one cycle.
    fn tick(&mut self)
        ensures
            final(self)@ == old(self)@.tick(),
    {
        if self.zicsr {
            self.csr.mcycle = self.csr.mcycle.add_unsigned(Register64::zero_extended_byte(1));
        }
    }

    /// Carries out an instruction on two registers.
    fn operate(
        &mut self,
        instruction: [u8; 4],
        funct3: u8,
        funct7: u8,
        Ghost(loaded): Ghost<int>,
    ) -> (trap: Option<Trap>)
        requires
            old(self).wf(),
            funct3 == variant::funct3(word(instruction)),
            funct7 == variant::funct7(word(instruction)),
        ensures
            (final(self)@, trap) == old(self)@.perform(
                decode_register(old(self)@.multiply, word(instruction)),
                loaded,
            ),
    {
        reveal(Hart::perform);
        let fields = variant::R::decode(instruction);
        let first = self.get(fields.source1);
        let second = self.get(fields.source2);
        match evaluate(self.multiply, funct3, funct7, first, second) {
            Some(value) => {
                self.set(fields.destination, value);
                self.step();
                None
            },
            None => self.raise(Trap::IllegalInstruction),
        }
    }

    /// Carries out an instruction on the low words of two registers. Only a
    /// hart of 64 bits has such instructions.
    fn operate_word(
        &mut self,
        instruction: [u8; 4],
        funct3: u8,
        funct7: u8,
        Ghost(loaded): Ghost<int>,
    ) -> (trap: Option<Trap>)
        requires
            old(self).wf(),
            funct3 == variant::funct3(word(instruction)),
            funct7 == variant::funct7(word(instruction)),
        ensures
            (final(self)@, trap) == old(self)@.perform(
                decode_register_word(R::width(), old(self)@.multiply, word(instruction)),
                loaded,
            ),
    {
        reveal(Hart::perform);
        let in_words = match funct7 {
            0b0000000 => funct3 == 0b000 || funct3 == 0b001 || funct3 == 0b101,
            0b0000001 => funct3 == 0b000 || funct3 >= 0b100,
            _ => true,
        };
        if !in_words || !wide::<R>() {
            return self.raise(Trap::IllegalInstruction);
        }
        let fields = variant::R::decode(instruction);
        let first = low_word(self.get(fields.source1));
        let second = low_word(self.get(fields.source2));
        match evaluate(self.multiply, funct3, funct7, first, second) {
            Some(value) => {
                self.set(fields.destination, widened(value));
                self.step();
                None
            },
            None => self.raise(Trap::IllegalInstruction),
        }
    }

    /// Carries out an instruction on a register and an immediate. A shift
    /// takes its amount from the low bits of the immediate.
    fn operate_immediate(
        &mut self,
        instruction: [u8; 4],
        funct3: u8,
        Ghost(loaded): Ghost<int>,
    ) -> (trap: Option<Trap>)
        requires
            old(self).wf(),
            funct3 == variant::funct3(word(instruction)),
        ensures
            (final(self)@, trap) == old(self)@.perform(
                decode_immediate(R::width(), word(instruction)),
                loaded,
            ),
    {
        reveal(Hart::perform);
        let fields = variant::I::<R>::decode(instruction);
        let funct7: u8 = if funct3 == 0b101 && arithmetic(instruction) {
            0b0100000
        } else {
            0b0000000
        };
        let first = self.get(fields.source);
        match evaluate(false, funct3, funct7, first, fields.immediate) {
            Some(value) => {
                self.set(fields.destination, value);
                self.step();
                None
            },
            None => self.raise(Trap::IllegalInstruction),
        }
    }

    /// Carries out an instruction on the low word of a register and an
    /// immediate. Only a hart of 64 bits has such instructions, and a shift
    /// among them must leave bit 5 of its amount clear.
    fn operate_immediate_word(
        &mut self,
        instruction: [u8; 4],
        funct3: u8,
        Ghost(loaded): Ghost<int>,
    ) -> (trap: Option<Trap>)
        requires
            old(self).wf(),
            funct3 == variant::funct3(word(instruction)),
        ensures
            (final(self)@, trap) == old(self)@.perform(
                decode_immediate_word(R::width(), word(instruction)),
                loaded,
            ),
    {
        reveal(Hart::perform);
        let shift = funct3 == 0b001 || funct3 == 0b101;
        if !wide::<R>() || !(funct3 == 0b000 || shift) || (shift && long_shift(instruction)) {
            return self.raise(Trap::IllegalInstruction);
        }
        let fields = variant::I::<R>::decode(instruction);
        let funct7: u8 = if funct3 == 0b101 && arithmetic(instruction) {
            0b0100000
        } else {
            0b0000000
        };
        let first = low_word(self.get(fields.source));
        let second = low_word(fields.immediate);
        match evaluate(false, funct3, funct7, first, second) {
            Some(value) => {
                self.set(fields.destination, widened(value));
                self.step();
                None
            },
            None => self.raise(Trap::IllegalInstruction),
        }
    }

    /// Loads the upper immediate, or adds it to the program counter.
    fn upper(
        &mut self,
        instruction: [u8; 4],
        relative: bool,
        Ghost(loaded): Ghost<int>,
    ) -> (trap: Option<Trap>)
        requires
            old(self).wf(),
        ensures
            (final(self)@, trap) == old(self)@.perform(
                if relative {
                    Instruction::Auipc {
                        rd: rd(word(instruction)),
                        immediate: wrap(R::width(), immediate_u(word(instruction))),
                    }
                } else {
                    Instruction::Lui {
                        rd: rd(word(instruction)),
                        immediate: wrap(R::width(), immediate_u(word(instruction))),
                    }
                },
                loaded,
            ),
    {
        reveal(Hart::perform);
        let fields = variant::U::<R>::decode(instruction);
        let value = if relative {
            self.pc.add_signed(fields.immediate)
        } else {
            fields.immediate
        };
        self.set(fields.destination, value);
        self.step();
        None
    }

    /// Writes what a load has read to its destination.
    fn load(&mut self, instruction: [u8; 4], funct3: u8, loaded: [u8; 8]) -> (trap: Option<Trap>)
        requires
            old(self).wf(),
            funct3 == variant::funct3(word(instruction)),
        ensures
            (final(self)@, trap) == old(self)@.perform(
                decode_load(R::width(), word(instruction)),
                double_value(loaded),
            ),
    {
        reveal(Hart::perform);
        if funct3 == 0b111 || ((funct3 == 0b011 || funct3 == 0b110) && !wide::<R>()) {
            return self.raise(Trap::IllegalInstruction);
        }
        let fields = variant::I::<R>::decode(instruction);
        self.set(fields.destination, extended(funct3, loaded));
        self.step();
        None
    }

    /// Retires a store, whose bytes the host has written.
    fn store(
        &mut self,
        instruction: [u8; 4],
        funct3: u8,
        Ghost(loaded): Ghost<int>,
    ) -> (trap: Option<Trap>)
        requires
            old(self).wf(),
            funct3 == variant::funct3(word(instruction)),
        ensures
            (final(self)@, trap) == old(self)@.perform(
                decode_store(R::width(), word(instruction)),
                loaded,
            ),
    {
        reveal(Hart::perform);
        if funct3 > 0b011 || (funct3 == 0b011 && !wide::<R>()) {
            return self.raise(Trap::IllegalInstruction);
        }
        self.step();
        None
    }

    /// Jumps by an offset and links.
    fn jump(
        &mut self,
        instruction: [u8; 4],
        Ghost(loaded): Ghost<int>,
    ) -> (trap: Option<Trap>)
        requires
            old(self).wf(),
        ensures
            (final(self)@, trap) == old(self)@.perform(
                Instruction::Jal {
                    rd: rd(word(instruction)),
                    offset: wrap(R::width(), immediate_j(word(instruction))),
                },
                loaded,
            ),
    {
        reveal(Hart::perform);
        let fields = variant::J::<R>::decode(instruction);
        let link = self.pc.add_unsigned(R::zero_extended_byte(4));
        let target = self.pc.add_signed(fields.immediate);
        self.set(fields.destination, link);
        self.pc = target;
        None
    }

    /// Jumps to a register plus an offset and links.
    fn jump_indirect(
        &mut self,
        instruction: [u8; 4],
        funct3: u8,
        Ghost(loaded): Ghost<int>,
    ) -> (trap: Option<Trap>)
        requires
            old(self).wf(),
            funct3 == variant::funct3(word(instruction)),
        ensures
            (final(self)@, trap) == old(self)@.perform(
                decode_jalr(R::width(), word(instruction)),
                loaded,
            ),
    {
        reveal(Hart::perform);
        if funct3 != 0b000 {
            return self.raise(Trap::IllegalInstruction);
        }
        proof {
            lemma_wrap(R::width(), -2);
        }
        let fields = variant::I::<R>::decode(instruction);
        let link = self.pc.add_unsigned(R::zero_extended_byte(4));
        // The target is computed before the link is written, which may be to
        // the same register; its lowest bit is cleared
        let target = self.get(fields.source).add_signed(fields.immediate).and(
            R::sign_extended_byte(0xFE),
        );
        self.set(fields.destination, link);
        self.pc = target;
        None
    }

    /// Jumps by an offset if the condition of the branch holds.
    fn branch(
        &mut self,
        instruction: [u8; 4],
        funct3: u8,
        Ghost(loaded): Ghost<int>,
    ) -> (trap: Option<Trap>)
        requires
            old(self).wf(),
            funct3 == variant::funct3(word(instruction)),
        ensures
            (final(self)@, trap) == old(self)@.perform(
                decode_branch(R::width(), word(instruction)),
                loaded,
            ),
    {
        reveal(Hart::perform);
        let fields = variant::B::<R>::decode(instruction);
        let first = self.get(fields.source1);
        let second = self.get(fields.source2);
        let taken = match funct3 {
            // BEQ
            0b000 => first.eq(second),
            // BNE
            0b001 => first.neq(second),
            // BLT
            0b100 => first.lt_signed(second),
            // BGE
            0b101 => first.gte_signed(second),
            // BLTU
            0b110 => first.lt_unsigned(second),
            // BGEU
            0b111 => first.gte_unsigned(second),
            _ => {
                return self.raise(Trap::IllegalInstruction);
            },
        };
        if taken {
            self.pc = self.pc.add_signed(fields.immediate)
        } else {
            self.step()
        }
        None
    }

    /// Carries out a call to the environment, a breakpoint, or an instruction
    /// on a control and status register.
    fn system(
        &mut self,
        instruction: [u8; 4],
        funct3: u8,
        Ghost(loaded): Ghost<int>,
    ) -> (trap: Option<Trap>)
        requires
            old(self).wf(),
            funct3 == variant::funct3(word(instruction)),
        ensures
            (final(self)@, trap) == old(self)@.perform(
                decode_system(old(self)@.zicsr, word(instruction)),
                loaded,
            ),
    {
        reveal(Hart::perform);
        if funct3 == 0b000 {
            return if breakpoint(instruction) {
                // EBREAK
                self.raise(Trap::Breakpoint)
            } else {
                // ECALL
                self.raise(Trap::SystemCall)
            };
        }
        if funct3 == 0b100 || !self.zicsr {
            return self.raise(Trap::IllegalInstruction);
        }
        let fields = variant::C::decode(instruction);
        // The source field is a register index, or the operand itself
        let operand = if funct3 > 0b100 {
            R::zero_extended_byte(fields.source as u8)
        } else {
            self.get(fields.source)
        };
        if funct3 % 4 == 0b01 && fields.destination == 0 {
            // CSRRW and CSRRWI do not read where the value read is discarded
            self.set_csr(fields.csr, operand);
            self.step();
            return None;
        }
        match self.get_csr(fields.csr) {
            Ok(old) => {
                if funct3 % 4 == 0b01 {
                    // CSRRW and CSRRWI
                    self.set_csr(fields.csr, operand);
                } else if fields.source != 0 {
                    if funct3 % 4 == 0b10 {
                        // CSRRS and CSRRSI
                        self.set_csr(fields.csr, old.or(operand));
                    } else {
                        // CSRRC and CSRRCI
                        self.set_csr(fields.csr, old.and(operand.not()));
                    }
                }
                self.set(fields.destination, old);
                self.step();
                None
            },
            Err(_) => self.raise(Trap::IllegalInstruction),
        }
    }

    /// What a load asks of memory.
    fn load_access(&self, instruction: [u8; 4], funct3: u8) -> (r: Access<R>)
        requires
            self.wf(),
            funct3 == variant::funct3(word(instruction)),
        ensures
            r@ == self@.transfer(decode_load(R::width(), word(instruction))),
            r.length() <= 8,
    {
        reveal(Hart::transfer);
        let length: usize = match funct3 {
            // LB and LBU
            0b000 | 0b100 => 1,
            // LH and LHU
            0b001 | 0b101 => 2,
            // LW
            0b010 => 4,
            // LD and LWU
            _ => {
                if funct3 == 0b111 || !wide::<R>() {
                    return Access::Nothing;
                }
                if funct3 == 0b011 {
                    8
                } else {
                    4
                }
            },
        };
        let fields = variant::I::<R>::decode(instruction);
        Access::Load { address: self.get(fields.source).add_signed(fields.immediate), length }
    }

    /// What a store asks of memory.
    fn store_access(&self, instruction: [u8; 4], funct3: u8) -> (r: Access<R>)
        requires
            self.wf(),
            funct3 == variant::funct3(word(instruction)),
        ensures
            r@ == self@.transfer(decode_store(R::width(), word(instruction))),
            r.length() <= 8,
    {
        reveal(Hart::transfer);
        if funct3 > 0b011 || (funct3 == 0b011 && !wide::<R>()) {
            return Access::Nothing;
        }
        let fields = variant::S::<R>::decode(instruction);
        let address = self.get(fields.source1).add_signed(fields.immediate);
        let (length, bytes) = stored(funct3, self.get(fields.source2));
        Access::Store { address, length, bytes }
    }

    /// What `instruction` asks of memory in the present state of the hart: a
    /// load names the bytes to read, a store those to write, and any other
    /// instruction asks nothing.
    pub fn access(&self, instruction: [u8; 4]) -> (r: Access<R>)
        requires
            self.wf(),
        ensures
            r@ == self@.transfer(self@.decode(word(instruction))),
            r.length() <= 8,
    {
        reveal(decode);
        let (opcode, funct3, _) = key(instruction);
        match opcode {
            0b0000011 => self.load_access(instruction, funct3),
            0b0100011 => self.store_access(instruction, funct3),
            _ => {
                proof {
                    reveal(Hart::transfer);
                }
                Access::Nothing
            },
        }
    }

    /// Retires the instruction that was fetched: counts a cycle, then carries
    /// the instruction out. `loaded` holds, from its first byte on, the bytes
    /// that were read for a load; for any other instruction it plays no part.
    ///
    /// The transfer with memory that the instruction asks for is that of
    /// [`Core::access`], which is to be called before this.
    pub fn retire(&mut self, instruction: [u8; 4], loaded: [u8; 8]) -> (trap: Option<Trap>)
        requires
            old(self).wf(),
        ensures
            final(self).wf(),
            (final(self)@, trap) == old(self)@.retire(word(instruction), double_value(loaded)),
            final(self)@.csr.mcycle == old(self)@.tick().csr.mcycle,
            final(self)@.multiply == old(self)@.multiply,
            final(self)@.zicsr == old(self)@.zicsr,
    {
        reveal(Hart::retire);
        reveal(decode);
        let (opcode, funct3, funct7) = key(instruction);
        self.tick();
        let ghost ticked = self@;
        let ghost decoded = ticked.decode(word(instruction));
        proof {
            assert(ticked == old(self)@.tick());
            assert(decoded == old(self)@.decode(word(instruction)));
            lemma_perform_valid(ticked, decoded, double_value(loaded));
        }
        let ghost value = double_value(loaded);
        match opcode {
            0b0110011 => self.operate(instruction, funct3, funct7, Ghost(value)),
            0b0111011 => self.operate_word(instruction, funct3, funct7, Ghost(value)),
            0b0010011 => self.operate_immediate(instruction, funct3, Ghost(value)),
            0b0011011 => self.operate_immediate_word(instruction, funct3, Ghost(value)),
            0b0110111 => self.upper(instruction, false, Ghost(value)),
            0b0010111 => self.upper(instruction, true, Ghost(value)),
            0b0000011 => self.load(instruction, funct3, loaded),
            0b0100011 => self.store(instruction, funct3, Ghost(value)),
            0b1101111 => self.jump(instruction, Ghost(value)),
            0b1100111 => self.jump_indirect(instruction, funct3, Ghost(value)),
            0b1100011 => self.branch(instruction, funct3, Ghost(value)),
            0b1110011 => self.system(instruction, funct3, Ghost(value)),
            _ => {
                proof {
                    reveal(Hart::perform);
                }
                self.raise(Trap::IllegalInstruction)
            },
        }
    }

    /// Executes one instruction from the memory `mmu`.
    ///
    /// Every step counts a cycle. A program counter that is no multiple of
    /// four then raises a trap, and nothing is fetched. Otherwise the
    /// instruction at the program counter is fetched, the bytes that
    /// [`Core::access`] names for it are read or written, one by one from the
    /// lowest address, and the instruction is retired as by
    /// [`Core::retire`].
    ///
    /// The result is the trap that the host has to handle, if any. A hart
    /// with control and status registers takes its traps itself and always
    /// returns `None`.
    ///
    /// Nothing is assumed of the memory, so the contract speaks of whatever
    /// it gave: the hart has retired an instruction that the memory gave at
    /// the program counter, with loaded bytes that it gave at the addresses
    /// of the load; and the memory is as the writes of a store left it, or,
    /// after any other instruction, as it was.
    pub fn execute<M: Mmu<R> + ?Sized>(&mut self, mmu: &mut M) -> (trap: Option<Trap>)
        requires
            old(self).wf(),
        ensures
            final(self).wf(),
            final(self)@.csr.mcycle == old(self)@.tick().csr.mcycle,
            final(self)@.multiply == old(self)@.multiply,
            final(self)@.zicsr == old(self)@.zicsr,
            old(self)@.pc % 4 != 0 ==> (final(self)@, trap) == old(self)@.tick().raise(
                Trap::InstructionMisaligned,
            ),
            old(self)@.pc % 4 != 0 ==> &*final(mmu) == &*old(mmu),
            old(self)@.pc % 4 == 0 ==> exists|
                instruction: [u8; 4],
                loaded: [u8; 8],
                stored: [u8; 8],
                states: Seq<&M>,
            |
                #![trigger
                    old(self)@.retire(word(instruction), double_value(loaded)),
                    double_value(stored),
                    states.len(),
                ]
                {
                    // The instruction is one that the memory gave at the
                    // program counter
                    &&& fetched::<R, M>(&*old(mmu), old(self)@.pc, instruction)
                    // the bytes loaded are such as it gave at the addresses of
                    // a load
                    &&& loaded_from::<R, M>(
                        &*old(mmu),
                        old(self)@.transfer(old(self)@.decode(word(instruction))),
                        loaded,
                    )
                    // the hart has retired the instruction with them
                    &&& (final(self)@, trap) == old(self)@.retire(
                        word(instruction),
                        double_value(loaded),
                    )
                    // and the memory is as the writes of a store left it, one
                    // after the other from the lowest address, or as it was
                    &&& match old(self)@.transfer(old(self)@.decode(word(instruction))) {
                        Transfer::Store { address, bytes, value } => {
                            &&& double_value(stored) == value
                            &&& states.len() == bytes + 1
                            &&& states[0] == &*old(mmu)
                            &&& states[bytes] == &*final(mmu)
                            &&& forall|k: int|
                                #![trigger states[k]]
                                0 <= k < bytes ==> exists|writer: &mut M, at: R::Unsigned|
                                    {
                                        &&& at.bits() == wrap(R::width(), address + k)
                                        &&& &*writer == states[k]
                                        &&& &*final(writer) == states[k + 1]
                                        &&& #[trigger] call_ensures(
                                            M::set,
                                            (writer, at, stored[k]),
                                            (),
                                        )
                                    }
                        },
                        _ => &*final(mmu) == &*old(mmu),
                    }
                },
    {
        proof {
            lemma_low_bits(self.pc.value());
        }
        if self.pc.byte() % 4 != 0 {
            proof {
                lemma_raise_valid(old(self)@.tick(), Trap::InstructionMisaligned);
            }
            self.tick();
            return self.raise(Trap::InstructionMisaligned);
        }
        let instruction = mmu.fetch(self.pc);
        let access = self.access(instruction);
        let ghost stored = access.bytes();
        let (loaded, Ghost(states)) = transfer(mmu, access);
        let trap = self.retire(instruction, loaded);
        proof {
            lemma_cycle_counted(
                old(self)@,
                word(instruction),
                double_value(loaded),
                Trap::InstructionMisaligned,
            );
            assert(fetched::<R, M>(&*old(mmu), old(self)@.pc, instruction));
            // The witnesses of the contract
            let retired = old(self)@.retire(word(instruction), double_value(loaded));
            let value = double_value(stored);
            let length = states.len();
            assert((self@, trap) == retired);
        }
        trap
    }
}

/// Carries out what an instruction asks of memory, byte by byte from the
/// lowest address. The result holds, from its first byte on, the bytes that
/// were read, and with them the states that the memory went through, one
/// before every write and one after the last.
fn transfer<R: Register, M: Mmu<R> + ?Sized>(mmu: &mut M, access: Access<R>) -> (r: (
    [u8; 8],
    Ghost<Seq<&M>>,
))
    requires
        access.length() <= 8,
    ensures
        loaded_from::<R, M>(&*old(mmu), access@, r.0),
        match access {
            Access::Store { address, length, bytes } => {
                &&& r.1@.len() == length + 1
                &&& r.1@[0] == &*old(mmu)
                &&& r.1@[length as int] == &*final(mmu)
                &&& forall|k: int|
                    #![trigger r.1@[k]]
                    0 <= k < length ==> exists|writer: &mut M, at: R::Unsigned|
                        {
                            &&& at.bits() == wrap(R::width(), address.value() + k)
                            &&& &*writer == r.1@[k]
                            &&& &*final(writer) == r.1@[k + 1]
                            &&& #[trigger] call_ensures(M::set, (writer, at, bytes[k]), ())
                        }
            },
            _ => &*final(mmu) == &*old(mmu),
        },
{
    let mut loaded: [u8; 8] = [0;8];
    let ghost mut states: Seq<&M> = seq![&*mmu];
    match access {
        Access::Nothing => {},
        Access::Load { address, length } => {
            let mut offset: usize = 0;
            while offset < length
                invariant
                    length <= 8,
                    offset <= length,
                    &*mmu == &*old(mmu),
                    forall|k: int|
                        0 <= k < offset ==> read::<R, M>(
                            &*old(mmu),
                            wrap(R::width(), address.value() + k),
                            #[trigger] loaded[k],
                        ),
                decreases length - offset,
            {
                loaded[offset] = mmu.get(address.append(offset));
                offset += 1;
            }
        },
        Access::Store { address, length, bytes } => {
            let mut offset: usize = 0;
            while offset < length
                invariant
                    length <= 8,
                    offset <= length,
                    states.len() == offset + 1,
                    states[0] == &*old(mmu),
                    states[offset as int] == &*mmu,
                    forall|k: int|
                        #![trigger states[k]]
                        0 <= k < offset ==> exists|writer: &mut M, at: R::Unsigned|
                            {
                                &&& at.bits() == wrap(R::width(), address.value() + k)
                                &&& &*writer == states[k]
                                &&& &*final(writer) == states[k + 1]
                                &&& #[trigger] call_ensures(M::set, (writer, at, bytes[k]), ())
                            },
                decreases length - offset,
            {
                mmu.set(address.append(offset), bytes[offset]);
                proof {
                    states = states.push(&*mmu);
                }
                offset += 1;
            }
        },
    }
    (loaded, Ghost(states))
}

/// The fields that select an instruction: its opcode, `funct3` and `funct7`.
fn key(instruction: [u8; 4]) -> (r: (u8, u8, u8))
    ensures
        r.0 == opcode(word(instruction)),
        r.1 == funct3(word(instruction)),
        r.2 == funct7(word(instruction)),
{
    proof {
        reveal(word);
        lemma_key(instruction[0], instruction[1], instruction[2], instruction[3]);
    }
    (instruction[0] & 0x7F, (instruction[1] & 0x70) >> 4, (instruction[3] & 0xFE) >> 1)
}

/// Whether a right shift by an immediate is arithmetic: bit 30 of the word.
fn arithmetic(instruction: [u8; 4]) -> (r: bool)
    ensures
        r == (word(instruction) / 0x4000_0000 % 2 == 1),
{
    proof {
        reveal(word);
        lemma_key(instruction[0], instruction[1], instruction[2], instruction[3]);
    }
    instruction[3] & 0x40 != 0
}

/// Whether bit 5 of the shift amount of a shift by an immediate is set: bit
/// 25 of the word.
fn long_shift(instruction: [u8; 4]) -> (r: bool)
    ensures
        r == (word(instruction) / 0x200_0000 % 2 == 1),
{
    proof {
        reveal(word);
        lemma_key(instruction[0], instruction[1], instruction[2], instruction[3]);
    }
    instruction[3] & 0x02 != 0
}

/// Whether a system instruction without a function is a breakpoint rather
/// than a call: bit 20 of the word.
fn breakpoint(instruction: [u8; 4]) -> (r: bool)
    ensures
        r == (word(instruction) / 0x10_0000 % 2 == 1),
{
    proof {
        reveal(word);
        lemma_key(instruction[0], instruction[1], instruction[2], instruction[3]);
    }
    instruction[2] & 0x10 != 0
}

/// Whether registers of type `R` have 64 bits.
fn wide<R: Register>() -> (r: bool)
    ensures
        r == (R::width() == RegisterWidth::Bits64),
{
    proof {
        R::lemma_integers();
    }
    match R::WIDTH {
        RegisterWidth::Bits32 => false,
        RegisterWidth::Bits64 => true,
    }
}

/// The low word of a register, as a register of 32 bits.
fn low_word<R: Register>(register: R) -> (r: Register32)
    ensures
        r.value() == register.value() % 0x1_0000_0000,
{
    Register32(register.word())
}

/// The register that holds a word, sign-extended.
fn widened<R: Register>(word: Register32) -> (r: R)
    ensures
        r.value() == sign_extend(R::width(), 0x1_0000_0000, word.value()),
{
    proof {
        word.lemma_value(word);
    }
    R::sign_extended_word(word.word())
}

/// The bytes that a store writes, and their number: the low bytes of
/// `register`, as many as `funct3` says.
fn stored<R: Register>(funct3: u8, register: R) -> (r: (usize, [u8; 8]))
    requires
        funct3 <= 3,
        funct3 == 3 ==> R::width() == RegisterWidth::Bits64,
    ensures
        r.0 == operand_bytes(funct3 as int),
        double_value(r.1) == register.value() % span(operand_bytes(funct3 as int)),
{
    proof {
        register.lemma_value(register);
        R::lemma_integers();
    }
    match funct3 {
        // SB
        0b000 => (1, [register.byte(), 0, 0, 0, 0, 0, 0, 0]),
        // SH
        0b001 => {
            let half = register.half();
            (2, [half[0], half[1], 0, 0, 0, 0, 0, 0])
        },
        // SW
        0b010 => {
            let word = register.word();
            (4, [word[0], word[1], word[2], word[3], 0, 0, 0, 0])
        },
        // SD
        _ => {
            let double = register.double();
            proof {
                lemma_low_bytes(double);
            }
            (8, double)
        },
    }
}

/// The register that a load fills from the bytes that were read: `funct3`
/// gives their number and whether they are sign-extended.
fn extended<R: Register>(funct3: u8, loaded: [u8; 8]) -> (r: R)
    requires
        funct3 < 7,
        funct3 == 3 || funct3 == 6 ==> R::width() == RegisterWidth::Bits64,
    ensures
        r.value() == loaded_value(
            R::width(),
            operand_bytes(funct3 as int % 4),
            funct3 < 4,
            double_value(loaded),
        ),
{
    proof {
        lemma_low_bytes(loaded);
    }
    match funct3 {
        // LB
        0b000 => R::sign_extended_byte(loaded[0]),
        // LH
        0b001 => R::sign_extended_half([loaded[0], loaded[1]]),
        // LW
        0b010 => R::sign_extended_word([loaded[0], loaded[1], loaded[2], loaded[3]]),
        // LD
        0b011 => R::sign_extended_double(loaded),
        // LBU
        0b100 => R::zero_extended_byte(loaded[0]),
        // LHU
        0b101 => R::zero_extended_half([loaded[0], loaded[1]]),
        // LWU
        _ => R::zero_extended_word([loaded[0], loaded[1], loaded[2], loaded[3]]),
    }
}

/// The result of the binary operation that `funct3` and `funct7` select, or
/// `None` where they select none.
fn evaluate<T: Register>(multiply: bool, funct3: u8, funct7: u8, first: T, second: T) -> (r:
    Option<T>)
    requires
        funct3 < 8,
    ensures
        match register_operation(funct3 as int, funct7 as int, multiply) {
            Some(operation) => r is Some && r->Some_0.value() == compute(
                T::width(),
                operation,
                first.value(),
                second.value(),
            ),
            None => r is None,
        },
{
    reveal(compute);
    match funct7 {
        0b0000000 => Some(
            match funct3 {
                // ADD
                0b000 => first.add_unsigned(second),
                // SLL
                0b001 => first.shl(second),
                // SLT
                0b010 => T::zero_extended_byte(if first.lt_signed(second) { 1 } else { 0 }),
                // SLTU
                0b011 => T::zero_extended_byte(if first.lt_unsigned(second) { 1 } else { 0 }),
                // XOR
                0b100 => first.xor(second),
                // SRL
                0b101 => first.shr(second),
                // OR
                0b110 => first.or(second),
                // AND
                _ => first.and(second),
            },
        ),
        0b0100000 => match funct3 {
            // SUB
            0b000 => Some(first.sub_unsigned(second)),
            // SRA
            0b101 => Some(first.sha(second)),
            _ => None,
        },
        0b0000001 => if multiply {
            Some(
                match funct3 {
                    // MUL
                    0b000 => first.mul(second),
                    // MULH
                    0b001 => first.mulh(second),
                    // MULHSU
                    0b010 => first.mulhsu(second),
                    // MULHU
                    0b011 => first.mulhu(second),
                    // DIV
                    0b100 => first.div(second),
                    // DIVU
                    0b101 => first.divu(second),
                    // REM
                    0b110 => first.rem(second),
                    // REMU
                    _ => first.remu(second),
                },
            )
        } else {
            None
        },
        _ => None,
    }
}

/// How the fields that select an instruction lie in its bytes.
proof fn lemma_key(i0: u8, i1: u8, i2: u8, i3: u8)
    by (bit_vector)
    ensures
        ({
            let w = i0 as int + 0x100 * (i1 as int) + 0x1_0000 * (i2 as int) + 0x100_0000 * (
            i3 as int);
            &&& (i0 & 0x7F) as int == w % 0x80
            &&& ((i1 & 0x70) >> 4) as int == w / 0x1000 % 8
            &&& ((i3 & 0xFE) >> 1) as int == w / 0x200_0000 % 0x80
            &&& (i3 & 0x40 != 0) == (w / 0x4000_0000 % 2 == 1)
            &&& (i3 & 0x02 != 0) == (w / 0x200_0000 % 2 == 1)
            &&& (i2 & 0x10 != 0) == (w / 0x10_0000 % 2 == 1)
        }),
{
}

} // verus!
