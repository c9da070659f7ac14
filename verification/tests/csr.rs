use rysk_core::csr::Csr;
use rysk_core::register::Xlen;
use rysk_core::system::Trap;
use rysk_core::{Core, Mmu, Register32, Register64};

/// A flat working memory of 64 KiB whose addresses wrap, for either width.
struct Memory {
    bytes: Vec<u8>,
}

impl Memory {
    fn with_program(words: &[u32]) -> Self {
        let mut memory = Memory { bytes: vec![0; 0x1_0000] };
        for (index, word) in words.iter().enumerate() {
            memory.bytes[4 * index..4 * index + 4].copy_from_slice(&word.to_le_bytes());
        }
        memory
    }
}

impl Mmu<Register32> for Memory {
    fn get(&self, address: u32) -> u8 {
        self.bytes[address as usize % 0x1_0000]
    }

    fn set(&mut self, address: u32, value: u8) {
        self.bytes[address as usize % 0x1_0000] = value
    }
}

impl Mmu<Register64> for Memory {
    fn get(&self, address: u64) -> u8 {
        self.bytes[(address % 0x1_0000) as usize]
    }

    fn set(&mut self, address: u64, value: u8) {
        self.bytes[(address % 0x1_0000) as usize] = value
    }
}

/// An instruction on the control and status register `csr`.
fn csr_word(csr: u32, source: u32, funct3: u32, rd: u32) -> u32 {
    csr << 20 | source << 15 | funct3 << 12 | rd << 7 | 0x73
}

fn r32(value: u32) -> Register32 {
    Register32::from_unsigned(value)
}

#[test]
fn a_new_register_file() {
    let csr = Csr::<Register32>::new(3, 0x80);
    assert_eq!(csr.mhartid, r32(3));
    assert_eq!(csr.mtvec, r32(0x80));
    for register in [csr.medeleg, csr.mideleg, csr.mie, csr.mip, csr.mscratch, csr.mepc, csr.mcause, csr.mtval] {
        assert_eq!(register, r32(0));
    }
    assert_eq!(csr.mcycle, Register64::default());
    assert_eq!(csr.mcounteren, Register32::default());
}

#[test]
fn reads_of_the_registers_of_a_new_hart() {
    let core = Core::<Register32>::with_csr(0x100, 7);
    // misa: the base integer set, 32 bits
    assert_eq!(core.get_csr(0x301), Ok(r32(0x4000_0100)));
    // medeleg, mideleg, mie, mcounteren, mscratch, mepc, mcause, mtval, mip
    for index in [0x302, 0x303, 0x304, 0x306, 0x340, 0x341, 0x342, 0x343, 0x344] {
        assert_eq!(core.get_csr(index), Ok(r32(0)));
    }
    // mtvec is the entry address
    assert_eq!(core.get_csr(0x305), Ok(r32(0x100)));
    // mcycle, mcycleh, minstret, minstreth
    for index in [0xB00, 0xB80, 0xB02, 0xB82] {
        assert_eq!(core.get_csr(index), Ok(r32(0)));
    }
    // mvendorid, marchid, and mimpid, which is the version
    assert_eq!(core.get_csr(0xF11), Ok(r32(0)));
    assert_eq!(core.get_csr(0xF12), Ok(r32(0)));
    assert_eq!(core.get_csr(0xF13), Ok(r32(3)));
    // mhartid
    assert_eq!(core.get_csr(0xF14), Ok(r32(7)));
}

#[test]
fn reads_of_unused_counters_give_zero() {
    let core = Core::<Register32>::with_csr(0, 0);
    for index in [0xB03, 0xB1F, 0xB23, 0xB3F, 0xB83, 0xB9F, 0xB10, 0xB30, 0xB90] {
        assert_eq!(core.get_csr(index), Ok(r32(0)));
    }
    let core = Core::<Register64>::with_csr(0, 0);
    for index in [0xB03, 0xB1F, 0xB23, 0xB3F, 0xB83, 0xB9F] {
        assert_eq!(core.get_csr(index), Ok(Register64::default()));
    }
}

#[test]
fn reads_of_undefined_registers_are_illegal() {
    let core = Core::<Register32>::with_csr(0, 0);
    for index in [0x000, 0x300, 0x307, 0x33F, 0x345, 0xB01, 0xB20, 0xB22, 0xB40, 0xB81, 0xBA0, 0xF10, 0xF15, 0xFFF, 0x1301] {
        assert_eq!(core.get_csr(index), Err(Trap::IllegalInstruction));
    }
}

#[test]
fn a_hart_without_the_registers_has_none() {
    let mut core = Core::<Register32>::new(0);
    for index in [0x301, 0x304, 0x340, 0xB00, 0xF14] {
        assert_eq!(core.get_csr(index), Err(Trap::IllegalInstruction));
    }
    core.set_csr(0x304, r32(0xFFFF_FFFF));
    assert_eq!(core.get_csr(0x304), Err(Trap::IllegalInstruction));
    // csrrw x1, mscratch, x2
    let mut memory = Memory::with_program(&[csr_word(0x340, 2, 0b001, 1)]);
    assert_eq!(core.execute(&mut memory), Some(Trap::IllegalInstruction));
    assert_eq!(core.pc, r32(0));
}

#[test]
fn registers_of_a_hart_of_64_bits() {
    let core = Core::<Register64>::with_csr(0x100, 1);
    assert_eq!(core.get_csr(0x301), Ok(Register64::from_unsigned(0x8000_0000_0000_0100)));
    assert_eq!(core.get_csr(0xF14), Ok(Register64::from_unsigned(1)));
    assert_eq!(core.get_csr(0xF13), Ok(Register64::from_unsigned(3)));
    assert_eq!(core.get_csr(0xB00), Ok(Register64::from_unsigned(0)));
    // There are no high halves of the counters
    assert_eq!(core.get_csr(0xB80), Err(Trap::IllegalInstruction));
    assert_eq!(core.get_csr(0xB82), Err(Trap::IllegalInstruction));
}

#[test]
fn interrupt_registers_keep_their_reserved_bits_clear() {
    let mut core = Core::<Register32>::with_csr(0, 0);
    core.set_csr(0x304, r32(0xDEAD_BEEF));
    assert_eq!(core.get_csr(0x304), Ok(r32(0xDEAD_BEEF & !0x0000_F444)));
    assert_eq!(core.get_csr(0x304), Ok(r32(0xDEAD_0AAB)));
    core.set_csr(0x344, r32(0xFFFF_FFFF));
    assert_eq!(core.get_csr(0x344), Ok(r32(0xFFFF_0BBB)));
    assert_eq!(core.get_csr(0x304), Ok(r32(0xDEAD_0AAB)));
    let mut core = Core::<Register64>::with_csr(0, 0);
    core.set_csr(0x304, Register64::from_unsigned(u64::MAX));
    assert_eq!(core.get_csr(0x304), Ok(Register64::from_unsigned(0xFFFF_FFFF_FFFF_0BBB)));
}

#[test]
fn other_registers_take_no_value() {
    let mut core = Core::<Register32>::with_csr(0x40, 5);
    for index in [0x301, 0x302, 0x303, 0x305, 0x306, 0x340, 0x341, 0x342, 0x343, 0xB00, 0xF14, 0x7FF] {
        let before = core.get_csr(index);
        core.set_csr(index, r32(0xDEAD_BEEF));
        assert_eq!(core.get_csr(index), before);
    }
}

#[test]
fn csrrw_to_mie_reads_back_masked() {
    // csrrw x0, mie, x1; csrrs x3, mie, x0
    let mut memory = Memory::with_program(&[csr_word(0x304, 1, 0b001, 0), csr_word(0x304, 0, 0b010, 3)]);
    let mut core = Core::<Register32>::with_csr(0, 0);
    core.set(1, r32(0xDEAD_BEEF));
    assert_eq!(core.execute(&mut memory), None);
    assert_eq!(core.execute(&mut memory), None);
    assert_eq!(core.get(3), r32(0xDEAD_BEEF & !0x0000_F444));
    assert_eq!(core.pc, r32(8));
}

#[test]
fn csrrw_to_mscratch_reads_back_unchanged() {
    // Only the interrupt registers take a value: mscratch stays zero
    // csrrw x0, mscratch, x1; csrrw x3, mscratch, x0
    let mut memory = Memory::with_program(&[csr_word(0x340, 1, 0b001, 0), csr_word(0x340, 0, 0b001, 3)]);
    let mut core = Core::<Register32>::with_csr(0, 0);
    core.set(1, r32(0xDEAD_BEEF));
    core.set(3, r32(9));
    assert_eq!(core.execute(&mut memory), None);
    assert_eq!(core.execute(&mut memory), None);
    assert_eq!(core.get(3), r32(0));
    assert_eq!(core.pc, r32(8));
}

#[test]
fn csrrw_swaps_the_old_value_into_the_destination() {
    // csrrw x1, mie, x1
    let mut memory = Memory::with_program(&[csr_word(0x304, 1, 0b001, 1), csr_word(0x304, 1, 0b001, 1)]);
    let mut core = Core::<Register32>::with_csr(0, 0);
    core.set(1, r32(0x0000_0888));
    assert_eq!(core.execute(&mut memory), None);
    assert_eq!(core.get(1), r32(0));
    assert_eq!(core.get_csr(0x304), Ok(r32(0x888)));
    assert_eq!(core.execute(&mut memory), None);
    assert_eq!(core.get(1), r32(0x888));
    assert_eq!(core.get_csr(0x304), Ok(r32(0)));
}

#[test]
fn csrrs_and_csrrc_set_and_clear_bits() {
    // csrrs x3, mie, x1; csrrc x4, mie, x2; csrrs x5, mie, x0
    let mut memory = Memory::with_program(&[
        csr_word(0x304, 1, 0b010, 3),
        csr_word(0x304, 2, 0b011, 4),
        csr_word(0x304, 0, 0b010, 5),
    ]);
    let mut core = Core::<Register32>::with_csr(0, 0);
    core.set_csr(0x304, r32(0x0001));
    core.set(1, r32(0x0A0A));
    core.set(2, r32(0x0803));
    assert_eq!(core.execute(&mut memory), None);
    assert_eq!(core.get(3), r32(0x0001));
    assert_eq!(core.get_csr(0x304), Ok(r32(0x0A0B)));
    assert_eq!(core.execute(&mut memory), None);
    assert_eq!(core.get(4), r32(0x0A0B));
    assert_eq!(core.get_csr(0x304), Ok(r32(0x0208)));
    assert_eq!(core.execute(&mut memory), None);
    assert_eq!(core.get(5), r32(0x0208));
    assert_eq!(core.get_csr(0x304), Ok(r32(0x0208)));
}

#[test]
fn immediate_forms_take_five_bits_as_the_operand() {
    // csrrwi x3, mie, 0x1B; csrrsi x4, mie, 0x08; csrrci x5, mie, 0x03; csrrsi x6, mie, 0
    let mut memory = Memory::with_program(&[
        csr_word(0x304, 0x1B, 0b101, 3),
        csr_word(0x304, 0x08, 0b110, 4),
        csr_word(0x304, 0x03, 0b111, 5),
        csr_word(0x304, 0, 0b110, 6),
    ]);
    let mut core = Core::<Register32>::with_csr(0, 0);
    // What x27, x8 and x3 hold plays no part
    core.set(27, r32(0xFFFF_FFFF));
    core.set(8, r32(0xFFFF_FFFF));
    core.set(3, r32(0xFFFF_FFFF));
    assert_eq!(core.execute(&mut memory), None);
    assert_eq!(core.get(3), r32(0));
    assert_eq!(core.get_csr(0x304), Ok(r32(0x1B)));
    assert_eq!(core.execute(&mut memory), None);
    assert_eq!(core.get(4), r32(0x1B));
    assert_eq!(core.get_csr(0x304), Ok(r32(0x1B)));
    assert_eq!(core.execute(&mut memory), None);
    assert_eq!(core.get(5), r32(0x1B));
    assert_eq!(core.get_csr(0x304), Ok(r32(0x18)));
    assert_eq!(core.execute(&mut memory), None);
    assert_eq!(core.get(6), r32(0x18));
    assert_eq!(core.pc, r32(16));
}

#[test]
fn read_only_registers_are_read_with_a_zero_source() {
    // csrrs x3, mhartid, x0; csrrc x4, misa, x0
    let mut memory = Memory::with_program(&[csr_word(0xF14, 0, 0b010, 3), csr_word(0x301, 0, 0b011, 4)]);
    let mut core = Core::<Register32>::with_csr(0, 9);
    assert_eq!(core.execute(&mut memory), None);
    assert_eq!(core.get(3), r32(9));
    assert_eq!(core.execute(&mut memory), None);
    assert_eq!(core.get(4), r32(0x4000_0100));
}

#[test]
fn the_cycle_counter_counts_every_step() {
    // addi x1, x0, 5; csrrs x3, mcycle, x0; csrrs x4, minstret, x0; csrrs x5, mcycleh, x0
    let mut memory = Memory::with_program(&[
        0x00500093,
        csr_word(0xB00, 0, 0b010, 3),
        csr_word(0xB02, 0, 0b010, 4),
        csr_word(0xB80, 0, 0b010, 5),
    ]);
    let mut core = Core::<Register32>::with_csr(0, 0);
    for _ in 0..4 {
        assert_eq!(core.execute(&mut memory), None);
    }
    assert_eq!(core.get(3), r32(2));
    assert_eq!(core.get(4), r32(3));
    assert_eq!(core.get(5), r32(0));
    assert_eq!(core.get_csr(0xB00), Ok(r32(4)));
}

#[test]
fn an_undefined_register_in_an_instruction_traps() {
    // csrrs x3, 0x300, x0 with the trap vector at 0x80
    let mut memory = Memory::with_program(&[csr_word(0x300, 0, 0b010, 3)]);
    let mut core = Core::<Register32>::with_csr(0, 0);
    core.pc = r32(0);
    core.set(3, r32(9));
    assert_eq!(core.execute(&mut memory), None);
    assert_eq!(core.get(3), r32(9));
    assert_eq!(core.get_csr(0x342), Ok(r32(2)));
    assert_eq!(core.get_csr(0x343), Ok(r32(0)));
    assert_eq!(core.pc, r32(0));
}

#[test]
fn csrrw_without_a_destination_does_not_read() {
    // csrrw x0, 0x300, x1 writes nowhere and does not trap
    let mut memory = Memory::with_program(&[csr_word(0x300, 1, 0b001, 0), csr_word(0x7C0, 3, 0b101, 0)]);
    let mut core = Core::<Register32>::with_csr(0, 0);
    assert_eq!(core.execute(&mut memory), None);
    assert_eq!(core.pc, r32(4));
    assert_eq!(core.execute(&mut memory), None);
    assert_eq!(core.pc, r32(8));
    assert_eq!(core.get_csr(0x342), Ok(r32(0)));
}

#[test]
fn system_function_four_is_illegal() {
    let mut memory = Memory::with_program(&[csr_word(0x304, 1, 0b100, 3)]);
    let mut core = Core::<Register32>::with_csr(0x40, 0);
    core.pc = r32(0);
    assert_eq!(core.execute(&mut memory), None);
    assert_eq!(core.get_csr(0x342), Ok(r32(2)));
    assert_eq!(core.pc, r32(0x40));
}

#[test]
fn an_illegal_instruction_enters_the_direct_handler() {
    let mut memory = Memory::with_program(&[0, 0, 0xFFFF_FFFF]);
    let mut core = Core::<Register32>::with_csr(0x200, 0);
    core.pc = r32(8);
    assert_eq!(core.execute(&mut memory), None);
    // mcause, mtval, and the program counter at the base of the vector
    assert_eq!(core.get_csr(0x342), Ok(r32(2)));
    assert_eq!(core.get_csr(0x343), Ok(r32(0)));
    assert_eq!(core.pc, r32(0x200));
    assert_eq!(core.get_csr(0xB00), Ok(r32(1)));
}

#[test]
fn a_breakpoint_records_the_program_counter() {
    // ebreak at address 8
    let mut memory = Memory::with_program(&[0, 0, 0x00100073]);
    let mut core = Core::<Register32>::with_csr(0x200, 0);
    core.pc = r32(8);
    assert_eq!(core.execute(&mut memory), None);
    assert_eq!(core.get_csr(0x342), Ok(r32(3)));
    assert_eq!(core.get_csr(0x343), Ok(r32(8)));
    assert_eq!(core.pc, r32(0x200));
}

#[test]
fn an_environment_call_enters_the_handler() {
    // ecall at address 4
    let mut memory = Memory::with_program(&[0, 0x00000073]);
    let mut core = Core::<Register32>::with_csr(0x200, 0);
    core.pc = r32(4);
    assert_eq!(core.execute(&mut memory), None);
    assert_eq!(core.get_csr(0x342), Ok(r32(11)));
    assert_eq!(core.get_csr(0x343), Ok(r32(0)));
    assert_eq!(core.pc, r32(0x200));
}

#[test]
fn a_misaligned_fetch_records_the_program_counter() {
    let mut memory = Memory::with_program(&[0x00500093]);
    let mut core = Core::<Register32>::with_csr(0x200, 0);
    core.pc = r32(0x102);
    assert_eq!(core.execute(&mut memory), None);
    assert_eq!(core.get_csr(0x342), Ok(r32(0)));
    assert_eq!(core.get_csr(0x343), Ok(r32(0x102)));
    assert_eq!(core.pc, r32(0x200));
    // Nothing was fetched, and the cycle was counted
    assert_eq!(core.get(1), r32(0));
    assert_eq!(core.get_csr(0xB00), Ok(r32(1)));
}

#[test]
fn a_step_that_traps_on_its_fetch_counts_a_cycle() {
    // jal x0, 2 at address 0, then a fetch at address 2
    let mut memory = Memory::with_program(&[0x0020006F]);
    let mut core = Core::<Register32>::with_csr(0, 0);
    assert_eq!(core.execute(&mut memory), None);
    assert_eq!(core.pc, r32(2));
    assert_eq!(core.get_csr(0xB00), Ok(r32(1)));
    assert_eq!(core.execute(&mut memory), None);
    assert_eq!(core.get_csr(0xB00), Ok(r32(2)));
    assert_eq!(core.get_csr(0xB02), Ok(r32(2)));
    assert_eq!(core.get_csr(0x342), Ok(r32(0)));
    assert_eq!(core.get_csr(0x343), Ok(r32(2)));
}

#[test]
fn the_cycle_counter_counts_steps_of_every_kind() {
    // addi; an illegal word; ebreak; ecall, with every handler at address 0x10
    let mut memory = Memory::with_program(&[0x00500093, 0xFFFF_FFFF, 0x00100073, 0x00000073]);
    let mut core = Core::<Register32>::with_csr(0x10, 0);
    for (steps, address) in [(1u32, 0u32), (2, 4), (3, 8), (4, 12), (5, 0x102)] {
        core.set_pc(r32(address));
        assert_eq!(core.execute(&mut memory), None);
        assert_eq!(core.get_csr(0xB00), Ok(r32(steps)));
        assert_eq!(core.get_csr(0xB80), Ok(r32(0)));
    }
}

#[test]
fn the_program_counter_is_read_and_set() {
    let mut core = Core::<Register32>::with_csr(0x40, 0);
    assert_eq!(core.pc(), r32(0x40));
    core.set_pc(r32(0x80));
    assert_eq!(core.pc(), r32(0x80));
    assert_eq!(core.pc, r32(0x80));
    core.step();
    assert_eq!(core.pc(), r32(0x84));
    // The registers stay as they are
    for index in 0..32 {
        assert_eq!(core.get(index), r32(0));
    }
}

#[test]
fn a_vectored_handler_is_chosen_by_the_cause() {
    // The trap vector at 0x200 with the mode 1
    let mut memory = Memory::with_program(&[0x00100073, 0xFFFF_FFFF]);
    let mut core = Core::<Register32>::with_csr(0x201, 0);
    core.pc = r32(0);
    assert_eq!(core.execute(&mut memory), None);
    assert_eq!(core.pc, r32(0x200 + 4 * 3));
    core.pc = r32(4);
    assert_eq!(core.execute(&mut memory), None);
    assert_eq!(core.pc, r32(0x200 + 4 * 2));
    assert_eq!(core.get_csr(0x305), Ok(r32(0x201)));
}

#[test]
fn the_low_bits_of_the_vector_are_no_part_of_the_base() {
    // Mode 2 enters the base, mode 3 the entry of the cause
    let mut memory = Memory::with_program(&[0x00100073]);
    let mut core = Core::<Register32>::with_csr(0x202, 0);
    core.pc = r32(0);
    assert_eq!(core.execute(&mut memory), None);
    assert_eq!(core.pc, r32(0x200));
    let mut core = Core::<Register32>::with_csr(0x203, 0);
    core.pc = r32(0);
    assert_eq!(core.execute(&mut memory), None);
    assert_eq!(core.pc, r32(0x20C));
}

#[test]
fn traps_on_a_hart_of_64_bits() {
    let mut memory = Memory::with_program(&[0x00100073]);
    let mut core = Core::<Register64>::with_csr(0x1_0000_0001, 0);
    core.pc = Register64::from_unsigned(0);
    assert_eq!(core.execute(&mut memory), None);
    assert_eq!(core.pc, Register64::from_unsigned(0x1_0000_000C));
    assert_eq!(core.get_csr(0x342), Ok(Register64::from_unsigned(3)));
}

#[test]
fn a_hart_with_the_registers_starts_at_its_entry() {
    let core = Core::<Register32>::with_csr(0x1000, 2);
    assert_eq!(core.pc, r32(0x1000));
    for index in 0..32 {
        assert_eq!(core.get(index), r32(0));
    }
}
