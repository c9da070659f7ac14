use rysk_core::system::{Access, Trap};
use rysk_core::register::Xlen;
use rysk_core::{Core, Mmu, Register32};

/// A flat working memory of 64 KiB whose addresses wrap.
struct Ram {
    bytes: Vec<u8>,
}

impl Ram {
    fn new() -> Self {
        Ram { bytes: vec![0; 0x1_0000] }
    }

    fn with_program(words: &[u32]) -> Self {
        let mut ram = Ram::new();
        for (index, word) in words.iter().enumerate() {
            ram.bytes[4 * index..4 * index + 4].copy_from_slice(&word.to_le_bytes());
        }
        ram
    }
}

impl Mmu<Register32> for Ram {
    fn get(&self, address: u32) -> u8 {
        self.bytes[address as usize % 0x1_0000]
    }

    fn set(&mut self, address: u32, value: u8) {
        self.bytes[address as usize % 0x1_0000] = value
    }
}

fn r_type(funct7: u32, rs2: u32, rs1: u32, funct3: u32, rd: u32, opcode: u32) -> u32 {
    funct7 << 25 | rs2 << 20 | rs1 << 15 | funct3 << 12 | rd << 7 | opcode
}

fn i_type(immediate: i32, rs1: u32, funct3: u32, rd: u32, opcode: u32) -> u32 {
    (immediate as u32 & 0xFFF) << 20 | rs1 << 15 | funct3 << 12 | rd << 7 | opcode
}

fn s_type(immediate: i32, rs2: u32, rs1: u32, funct3: u32) -> u32 {
    let immediate = immediate as u32 & 0xFFF;
    (immediate >> 5) << 25 | rs2 << 20 | rs1 << 15 | funct3 << 12 | (immediate & 0x1F) << 7 | 0x23
}

fn b_type(offset: i32, rs2: u32, rs1: u32, funct3: u32) -> u32 {
    let offset = offset as u32 & 0x1FFF;
    (offset >> 12 & 1) << 31
        | (offset >> 5 & 0x3F) << 25
        | rs2 << 20
        | rs1 << 15
        | funct3 << 12
        | (offset >> 1 & 0xF) << 8
        | (offset >> 11 & 1) << 7
        | 0x63
}

fn j_type(offset: i32, rd: u32) -> u32 {
    let offset = offset as u32 & 0x1F_FFFF;
    (offset >> 20 & 1) << 31
        | (offset >> 1 & 0x3FF) << 21
        | (offset >> 11 & 1) << 20
        | (offset >> 12 & 0xFF) << 12
        | rd << 7
        | 0x6F
}

/// A hart at address 0 whose registers x1, x2, ... hold `values`.
fn core_with(values: &[u32]) -> Core<Register32> {
    let mut core = Core::<Register32>::new(0);
    for (index, value) in values.iter().enumerate() {
        core.set(index + 1, Register32::from(*value));
    }
    core
}

/// Executes the one instruction `word` on a hart whose registers x1, x2, ...
/// hold `values`, and gives the hart back.
fn after(word: u32, values: &[u32]) -> Core<Register32> {
    let mut ram = Ram::with_program(&[word]);
    let mut core = core_with(values);
    assert_eq!(core.execute(&mut ram), None);
    core
}

fn x(core: &Core<Register32>, index: usize) -> u32 {
    core.get(index).unsigned()
}

#[test]
fn addi_sets_register_and_advances() {
    let mut ram = Ram::with_program(&[0x00500093]);
    let mut core = Core::<Register32>::new(0);
    assert_eq!(core.execute(&mut ram), None);
    assert_eq!(core.get(1), Register32::from(5u32));
    assert_eq!(core.pc, Register32::from(4u32));
}

#[test]
fn lui_loads_the_upper_immediate() {
    // lui x2, 0x12345
    let core = after(0x12345137, &[]);
    assert_eq!(x(&core, 2), 0x1234_5000);
    assert_eq!(core.pc, Register32::from(4u32));
    // The same immediate with 5 in the destination field
    let core = after(0x123452B7, &[]);
    assert_eq!(x(&core, 5), 0x1234_5000);
    assert_eq!(x(&core, 2), 0);
}

#[test]
fn three_instructions_add_three_and_four() {
    // addi x1, x0, 3; addi x2, x0, 4; add x3, x1, x2
    let mut ram = Ram::with_program(&[0x00300093, 0x00400113, 0x002081B3]);
    let mut core = Core::<Register32>::new(0);
    for _ in 0..3 {
        assert_eq!(core.execute(&mut ram), None);
    }
    assert_eq!(x(&core, 3), 7);
    assert_eq!(core.pc, Register32::from(12u32));
}

#[test]
fn beq_taken_jumps_back_and_bne_not_taken_advances() {
    // beq x0, x0, -4 at address 4
    let mut ram = Ram::with_program(&[0, b_type(-4, 0, 0, 0b000)]);
    let mut core = Core::<Register32>::new(4);
    assert_eq!(core.execute(&mut ram), None);
    assert_eq!(core.pc, Register32::from(0u32));
    // bne x0, x0, 8 at address 0
    let core = after(b_type(8, 0, 0, 0b001), &[]);
    assert_eq!(core.pc, Register32::from(4u32));
}

#[test]
fn store_word_then_load_word() {
    // sw x1, 0(x2); lw x3, 0(x2)
    let mut ram = Ram::with_program(&[s_type(0, 1, 2, 0b010), i_type(0, 2, 0b010, 3, 0x03)]);
    let mut core = core_with(&[0xDEAD_BEEF, 0x100]);
    assert_eq!(core.execute(&mut ram), None);
    assert_eq!(&ram.bytes[0x100..0x104], &[0xEF, 0xBE, 0xAD, 0xDE]);
    assert_eq!(ram.bytes[0x104], 0);
    assert_eq!(core.execute(&mut ram), None);
    assert_eq!(x(&core, 3), 0xDEAD_BEEF);
    assert_eq!(core.pc, Register32::from(8u32));
}

#[test]
fn jalr_clears_the_lowest_bit_of_the_target() {
    // jalr x0, x1, 1
    let core = after(i_type(1, 1, 0b000, 0, 0x67), &[0x100]);
    assert_eq!(core.pc, Register32::from(0x100u32));
    assert_eq!(x(&core, 0), 0);
}

#[test]
fn jalr_reads_its_source_before_it_links() {
    // jalr x1, x1, 0 at address 8
    let mut ram = Ram::with_program(&[0, 0, i_type(0, 1, 0b000, 1, 0x67)]);
    let mut core = core_with(&[0x40]);
    core.pc = Register32::from(8u32);
    assert_eq!(core.execute(&mut ram), None);
    assert_eq!(core.pc, Register32::from(0x40u32));
    assert_eq!(x(&core, 1), 12);
}

#[test]
fn jalr_with_a_function_is_illegal() {
    let mut ram = Ram::with_program(&[i_type(0, 1, 0b001, 1, 0x67)]);
    let mut core = core_with(&[0x40]);
    assert_eq!(core.execute(&mut ram), Some(Trap::IllegalInstruction));
}

#[test]
fn jal_links_and_jumps() {
    // jal x1, 16 at address 4
    let mut ram = Ram::with_program(&[0, j_type(16, 1)]);
    let mut core = Core::<Register32>::new(4);
    assert_eq!(core.execute(&mut ram), None);
    assert_eq!(core.pc, Register32::from(20u32));
    assert_eq!(x(&core, 1), 8);
    // jal x0, -4 at address 4 discards the link
    let mut ram = Ram::with_program(&[0, j_type(-4, 0)]);
    let mut core = Core::<Register32>::new(4);
    assert_eq!(core.execute(&mut ram), None);
    assert_eq!(core.pc, Register32::from(0u32));
    assert_eq!(x(&core, 0), 0);
}

#[test]
fn auipc_adds_to_the_program_counter() {
    // auipc x1, 0x1 at address 8
    let mut ram = Ram::with_program(&[0, 0, 0x00001097]);
    let mut core = Core::<Register32>::new(8);
    assert_eq!(core.execute(&mut ram), None);
    assert_eq!(x(&core, 1), 0x1008);
    assert_eq!(core.pc, Register32::from(12u32));
}

#[test]
fn register_zero_is_never_written() {
    let mut core = Core::<Register32>::new(0);
    for value in [1u32, 0xFFFF_FFFF, 0x8000_0000, 42] {
        core.set(0, Register32::from(value));
        assert_eq!(core.get(0), Register32::default());
    }
    // addi x0, x0, 5 advances and leaves x0 as it is
    let core = after(i_type(5, 0, 0b000, 0, 0x13), &[]);
    assert_eq!(x(&core, 0), 0);
    assert_eq!(core.pc, Register32::from(4u32));
    // lui x0, 0xFFFFF
    let core = after(0xFFFFF037, &[]);
    assert_eq!(x(&core, 0), 0);
}

#[test]
fn set_and_get_every_register() {
    let mut core = Core::<Register32>::new(0);
    for index in 1..32 {
        core.set(index, Register32::from(index as u32 * 3));
    }
    assert_eq!(core.get(0), Register32::from(0u32));
    for index in 1..32 {
        assert_eq!(core.get(index), Register32::from(index as u32 * 3));
    }
}

#[test]
fn step_advances_by_four_and_wraps() {
    let mut core = Core::<Register32>::new(0xFFFF_FFFC);
    core.step();
    assert_eq!(core.pc, Register32::from(0u32));
    core.step();
    assert_eq!(core.pc, Register32::from(4u32));
}

#[test]
fn operations_on_two_registers() {
    let a = 0x8000_0005u32;
    let b = 3u32;
    let case = |funct7: u32, funct3: u32| x(&after(r_type(funct7, 2, 1, funct3, 3, 0x33), &[a, b]), 3);
    // ADD, SUB
    assert_eq!(case(0x00, 0b000), 0x8000_0008);
    assert_eq!(case(0x20, 0b000), 0x8000_0002);
    // SLL, SRL, SRA
    assert_eq!(case(0x00, 0b001), 0x0000_0028);
    assert_eq!(case(0x00, 0b101), 0x1000_0000);
    assert_eq!(case(0x20, 0b101), 0xF000_0000);
    // SLT: a is negative; SLTU: a is large
    assert_eq!(case(0x00, 0b010), 1);
    assert_eq!(case(0x00, 0b011), 0);
    // XOR, OR, AND
    assert_eq!(case(0x00, 0b100), 0x8000_0006);
    assert_eq!(case(0x00, 0b110), 0x8000_0007);
    assert_eq!(case(0x00, 0b111), 0x0000_0001);
}

#[test]
fn addition_and_subtraction_wrap() {
    assert_eq!(x(&after(r_type(0x00, 2, 1, 0b000, 3, 0x33), &[0xFFFF_FFFF, 1]), 3), 0);
    assert_eq!(x(&after(r_type(0x20, 2, 1, 0b000, 3, 0x33), &[0, 1]), 3), 0xFFFF_FFFF);
}

#[test]
fn shifts_take_the_low_five_bits_of_the_amount() {
    // sll x3, x1, x2 with x2 = 33 shifts by 1
    assert_eq!(x(&after(r_type(0x00, 2, 1, 0b001, 3, 0x33), &[0x4000_0001, 33]), 3), 0x8000_0002);
    assert_eq!(x(&after(r_type(0x00, 2, 1, 0b101, 3, 0x33), &[0x8000_0000, 32]), 3), 0x8000_0000);
    assert_eq!(x(&after(r_type(0x20, 2, 1, 0b101, 3, 0x33), &[0x8000_0000, 63]), 3), 0xFFFF_FFFF);
}

#[test]
fn unknown_functions_of_two_registers_are_illegal() {
    for (funct7, funct3) in [(0x20, 0b001), (0x20, 0b111), (0x02, 0b000), (0x7F, 0b000), (0x40, 0b101)] {
        let mut ram = Ram::with_program(&[r_type(funct7, 2, 1, funct3, 3, 0x33)]);
        let mut core = core_with(&[1, 2, 3]);
        assert_eq!(core.execute(&mut ram), Some(Trap::IllegalInstruction));
        assert_eq!(core.pc, Register32::from(0u32));
        assert_eq!(x(&core, 3), 3);
    }
}

#[test]
fn operations_on_a_register_and_an_immediate() {
    let a = 0x8000_0005u32;
    let case = |immediate: i32, funct3: u32| x(&after(i_type(immediate, 1, funct3, 3, 0x13), &[a]), 3);
    // ADDI
    assert_eq!(case(-6, 0b000), 0x7FFF_FFFF);
    // SLTI, SLTIU: the immediate is sign-extended, then compared
    assert_eq!(case(0, 0b010), 1);
    assert_eq!(case(-1, 0b011), 1);
    assert_eq!(case(6, 0b011), 0);
    // XORI, ORI, ANDI
    assert_eq!(case(-1, 0b100), 0x7FFF_FFFA);
    assert_eq!(case(0x0F0, 0b110), 0x8000_00F5);
    assert_eq!(case(0x7FC, 0b111), 0x0000_0004);
    // SLLI, SRLI, SRAI by 4
    assert_eq!(case(4, 0b001), 0x0000_0050);
    assert_eq!(case(4, 0b101), 0x0800_0000);
    assert_eq!(case(0x400 | 4, 0b101), 0xF800_0000);
}

#[test]
fn shifts_by_an_immediate_reach_thirty_one() {
    assert_eq!(x(&after(i_type(31, 1, 0b001, 3, 0x13), &[1]), 3), 0x8000_0000);
    assert_eq!(x(&after(i_type(31, 1, 0b101, 3, 0x13), &[0x8000_0000]), 3), 1);
    assert_eq!(x(&after(i_type(0x400 | 31, 1, 0b101, 3, 0x13), &[0x8000_0000]), 3), 0xFFFF_FFFF);
    // Shifts by 1, 16 and 17, whose amounts have bits beyond those of 0x0E
    assert_eq!(x(&after(i_type(1, 1, 0b001, 3, 0x13), &[3]), 3), 6);
    assert_eq!(x(&after(i_type(16, 1, 0b001, 3, 0x13), &[3]), 3), 0x0003_0000);
    assert_eq!(x(&after(i_type(17, 1, 0b101, 3, 0x13), &[0x0006_0000]), 3), 3);
}

#[test]
fn branches_compare_as_their_condition_says() {
    let negative = 0xFFFF_FFFFu32;
    let taken = |funct3: u32, a: u32, b: u32| {
        let core = after(b_type(16, 2, 1, funct3), &[a, b]);
        core.pc == Register32::from(16u32)
    };
    // BEQ, BNE
    assert!(taken(0b000, 7, 7));
    assert!(!taken(0b000, 7, 8));
    assert!(taken(0b001, 7, 8));
    assert!(!taken(0b001, 7, 7));
    // BLT, BGE: signed
    assert!(taken(0b100, negative, 1));
    assert!(!taken(0b100, 1, negative));
    assert!(taken(0b101, 1, negative));
    assert!(taken(0b101, 5, 5));
    assert!(!taken(0b101, negative, 1));
    // BLTU, BGEU: unsigned
    assert!(taken(0b110, 1, negative));
    assert!(!taken(0b110, negative, 1));
    assert!(taken(0b111, negative, 1));
    assert!(taken(0b111, 5, 5));
    assert!(!taken(0b111, 1, negative));
}

#[test]
fn branch_not_taken_advances_by_four() {
    let core = after(b_type(16, 2, 1, 0b000), &[7, 8]);
    assert_eq!(core.pc, Register32::from(4u32));
}

#[test]
fn branches_without_a_condition_are_illegal() {
    for funct3 in [0b010, 0b011] {
        let mut ram = Ram::with_program(&[b_type(16, 2, 1, funct3)]);
        let mut core = core_with(&[7, 7]);
        assert_eq!(core.execute(&mut ram), Some(Trap::IllegalInstruction));
    }
}

#[test]
fn loads_extend_as_their_kind_says() {
    let load = |funct3: u32, offset: i32| {
        let mut ram = Ram::with_program(&[i_type(offset, 1, funct3, 3, 0x03)]);
        ram.bytes[0x200..0x208].copy_from_slice(&[0x80, 0x91, 0xA2, 0xB3, 0xC4, 0xD5, 0xE6, 0xF7]);
        let mut core = core_with(&[0x204]);
        assert_eq!(core.execute(&mut ram), None);
        assert_eq!(core.pc, Register32::from(4u32));
        x(&core, 3)
    };
    // LB, LBU
    assert_eq!(load(0b000, -4), 0xFFFF_FF80);
    assert_eq!(load(0b100, -4), 0x0000_0080);
    // LH, LHU
    assert_eq!(load(0b001, -4), 0xFFFF_9180);
    assert_eq!(load(0b101, -4), 0x0000_9180);
    // LW
    assert_eq!(load(0b010, -4), 0xB3A2_9180);
    assert_eq!(load(0b010, 0), 0xF7E6_D5C4);
    assert_eq!(load(0b010, -2), 0xD5C4_B3A2);
}

#[test]
fn loads_of_a_wider_hart_are_illegal() {
    // LD, LWU and the load without a kind
    for funct3 in [0b011, 0b110, 0b111] {
        let mut ram = Ram::with_program(&[i_type(0, 1, funct3, 3, 0x03)]);
        let mut core = core_with(&[0x200, 0, 9]);
        assert_eq!(core.execute(&mut ram), Some(Trap::IllegalInstruction));
        assert_eq!(x(&core, 3), 9);
    }
}

#[test]
fn stores_write_the_low_bytes() {
    let store = |funct3: u32| {
        let mut ram = Ram::with_program(&[s_type(-8, 2, 1, funct3)]);
        let mut core = core_with(&[0x308, 0xDEAD_BEEF]);
        assert_eq!(core.execute(&mut ram), None);
        assert_eq!(core.pc, Register32::from(4u32));
        [ram.bytes[0x2FF], ram.bytes[0x300], ram.bytes[0x301], ram.bytes[0x302], ram.bytes[0x303], ram.bytes[0x304]]
    };
    // SB, SH, SW
    assert_eq!(store(0b000), [0, 0xEF, 0, 0, 0, 0]);
    assert_eq!(store(0b001), [0, 0xEF, 0xBE, 0, 0, 0]);
    assert_eq!(store(0b010), [0, 0xEF, 0xBE, 0xAD, 0xDE, 0]);
}

#[test]
fn stores_of_a_wider_hart_are_illegal() {
    for funct3 in [0b011, 0b100, 0b111] {
        let mut ram = Ram::with_program(&[s_type(0, 2, 1, funct3)]);
        let mut core = core_with(&[0x300, 0xDEAD_BEEF]);
        assert_eq!(core.execute(&mut ram), Some(Trap::IllegalInstruction));
        assert_eq!(&ram.bytes[0x300..0x308], &[0; 8]);
    }
}

#[test]
fn addresses_wrap() {
    // sb x2, 1(x1) with x1 = 0xFFFFFFFF writes address 0
    let mut ram = Ram::with_program(&[s_type(1, 2, 1, 0b000)]);
    let mut core = core_with(&[0xFFFF_FFFF, 0x5A]);
    assert_eq!(core.access(s_type(1, 2, 1, 0b000).to_le_bytes()), Access::Store {
        address: Register32::from(0u32),
        length: 1,
        bytes: [0x5A, 0, 0, 0, 0, 0, 0, 0]
    });
    assert_eq!(core.execute(&mut ram), None);
    assert_eq!(ram.bytes[0], 0x5A);
}

#[test]
fn ecall_and_ebreak_are_reported() {
    let mut ram = Ram::with_program(&[0x00000073, 0x00100073]);
    let mut core = Core::<Register32>::new(0);
    assert_eq!(core.execute(&mut ram), Some(Trap::SystemCall));
    assert_eq!(core.pc, Register32::from(0u32));
    core.step();
    assert_eq!(core.execute(&mut ram), Some(Trap::Breakpoint));
    assert_eq!(core.pc, Register32::from(4u32));
}

#[test]
fn misaligned_program_counter_is_reported() {
    for address in [1u32, 2, 3, 0x102] {
        let mut ram = Ram::with_program(&[0x00500093]);
        let mut core = Core::<Register32>::new(address);
        assert_eq!(core.execute(&mut ram), Some(Trap::InstructionMisaligned));
        assert_eq!(core.pc, Register32::from(address));
        assert_eq!(x(&core, 1), 0);
    }
}

#[test]
fn a_branch_to_a_misaligned_address_traps_at_the_next_fetch() {
    // beq x0, x0, 6
    let mut ram = Ram::with_program(&[b_type(6, 0, 0, 0b000)]);
    let mut core = Core::<Register32>::new(0);
    assert_eq!(core.execute(&mut ram), None);
    assert_eq!(core.pc, Register32::from(6u32));
    assert_eq!(core.execute(&mut ram), Some(Trap::InstructionMisaligned));
}

#[test]
fn unknown_opcodes_are_illegal() {
    for word in [0x0000_0000u32, 0xFFFF_FFFF, 0x0000_007F, 0x0000_002F, 0x0000_0007, 0x0000_000F] {
        let mut ram = Ram::with_program(&[word]);
        let mut core = core_with(&[1, 2, 3]);
        assert_eq!(core.execute(&mut ram), Some(Trap::IllegalInstruction));
        assert_eq!(core.pc, Register32::from(0u32));
    }
}

#[test]
fn instructions_on_words_are_illegal_on_a_hart_of_32_bits() {
    let words = [
        // addw, subw, sllw, srlw, sraw
        r_type(0x00, 2, 1, 0b000, 3, 0x3B),
        r_type(0x20, 2, 1, 0b000, 3, 0x3B),
        r_type(0x00, 2, 1, 0b001, 3, 0x3B),
        r_type(0x00, 2, 1, 0b101, 3, 0x3B),
        r_type(0x20, 2, 1, 0b101, 3, 0x3B),
        // addiw, slliw, srliw, sraiw
        i_type(1, 1, 0b000, 3, 0x1B),
        i_type(1, 1, 0b001, 3, 0x1B),
        i_type(1, 1, 0b101, 3, 0x1B),
        i_type(0x401, 1, 0b101, 3, 0x1B),
    ];
    for word in words {
        let mut ram = Ram::with_program(&[word]);
        let mut core = core_with(&[1, 2, 3]);
        assert_eq!(core.execute(&mut ram), Some(Trap::IllegalInstruction));
        assert_eq!(x(&core, 3), 3);
    }
}

#[test]
fn multiplication_needs_its_extension() {
    // mul x3, x1, x2
    let word = r_type(0x01, 2, 1, 0b000, 3, 0x33);
    let mut ram = Ram::with_program(&[word]);
    let mut core = core_with(&[6, 7, 3]);
    assert_eq!(core.execute(&mut ram), Some(Trap::IllegalInstruction));
    assert_eq!(x(&core, 3), 3);
    let mut core = core_with(&[6, 7, 3]).with_multiply();
    assert_eq!(core.execute(&mut ram), None);
    assert_eq!(x(&core, 3), 42);
    assert_eq!(core.pc, Register32::from(4u32));
}

#[test]
fn multiplication_and_division_instructions() {
    let case = |funct3: u32, a: u32, b: u32| {
        let mut ram = Ram::with_program(&[r_type(0x01, 2, 1, funct3, 3, 0x33)]);
        let mut core = core_with(&[a, b]).with_multiply();
        assert_eq!(core.execute(&mut ram), None);
        x(&core, 3)
    };
    let minus = |value: i32| value as u32;
    // MUL, MULH, MULHSU, MULHU
    assert_eq!(case(0b000, 0xFFFF_FFFF, 2), 0xFFFF_FFFE);
    assert_eq!(case(0b001, 0xFFFF_FFFF, 2), 0xFFFF_FFFF);
    assert_eq!(case(0b010, 0xFFFF_FFFF, 2), 0xFFFF_FFFF);
    assert_eq!(case(0b011, 0xFFFF_FFFF, 2), 1);
    assert_eq!(case(0b001, 0x8000_0000, 0x8000_0000), 0x4000_0000);
    assert_eq!(case(0b010, 0x8000_0000, 0x8000_0000), 0xC000_0000);
    assert_eq!(case(0b011, 0x8000_0000, 0x8000_0000), 0x4000_0000);
    // DIV, DIVU
    assert_eq!(case(0b100, minus(-16), 4), minus(-4));
    assert_eq!(case(0b100, 35, minus(-9)), minus(-3));
    assert_eq!(case(0b100, 35, 0), 0xFFFF_FFFF);
    assert_eq!(case(0b100, 0x8000_0000, 0xFFFF_FFFF), 0x8000_0000);
    assert_eq!(case(0b101, 35, 0), 0xFFFF_FFFF);
    assert_eq!(case(0b101, minus(-16), 4), 0x3FFF_FFFC);
    // REM, REMU
    assert_eq!(case(0b110, minus(-9), 4), minus(-1));
    assert_eq!(case(0b110, 35, 0), 35);
    assert_eq!(case(0b110, 0x8000_0000, 0xFFFF_FFFF), 0);
    assert_eq!(case(0b111, minus(-9), 4), 3);
    assert_eq!(case(0b111, 35, 0), 35);
}

#[test]
fn access_names_the_bytes_of_a_load() {
    let core = core_with(&[0x204]);
    // lh x3, -4(x1)
    assert_eq!(core.access(i_type(-4, 1, 0b001, 3, 0x03).to_le_bytes()), Access::Load {
        address: Register32::from(0x200u32),
        length: 2
    });
    // lbu, lw
    assert_eq!(core.access(i_type(0, 1, 0b100, 3, 0x03).to_le_bytes()), Access::Load {
        address: Register32::from(0x204u32),
        length: 1
    });
    assert_eq!(core.access(i_type(4, 1, 0b010, 3, 0x03).to_le_bytes()), Access::Load {
        address: Register32::from(0x208u32),
        length: 4
    });
    // ld is not an instruction of this hart
    assert_eq!(core.access(i_type(0, 1, 0b011, 3, 0x03).to_le_bytes()), Access::Nothing);
}

#[test]
fn access_names_the_bytes_of_a_store() {
    let core = core_with(&[0x300, 0xDEAD_BEEF]);
    assert_eq!(core.access(s_type(2, 2, 1, 0b001).to_le_bytes()), Access::Store {
        address: Register32::from(0x302u32),
        length: 2,
        bytes: [0xEF, 0xBE, 0, 0, 0, 0, 0, 0]
    });
    assert_eq!(core.access(s_type(0, 2, 1, 0b010).to_le_bytes()), Access::Store {
        address: Register32::from(0x300u32),
        length: 4,
        bytes: [0xEF, 0xBE, 0xAD, 0xDE, 0, 0, 0, 0]
    });
    assert_eq!(core.access(s_type(0, 2, 1, 0b011).to_le_bytes()), Access::Nothing);
}

#[test]
fn access_asks_nothing_for_other_instructions() {
    let core = core_with(&[1, 2]);
    for word in [0x00500093u32, 0x002081B3, 0x00000073, 0xFFFF_FFFF, j_type(8, 1)] {
        assert_eq!(core.access(word.to_le_bytes()), Access::Nothing);
    }
}

#[test]
fn retire_takes_the_loaded_bytes_as_given() {
    let mut core = core_with(&[0x204]);
    // lh x3, 0(x1) with the bytes 0x34, 0x92 read
    let trap = core.retire(i_type(0, 1, 0b001, 3, 0x03).to_le_bytes(), [0x34, 0x92, 0xFF, 0xFF, 0, 0, 0, 0]);
    assert_eq!(trap, None);
    assert_eq!(x(&core, 3), 0xFFFF_9234);
    assert_eq!(core.pc, Register32::from(4u32));
    // add x3, x1, x1 does not look at them
    let trap = core.retire(r_type(0, 1, 1, 0b000, 3, 0x33).to_le_bytes(), [0xFF; 8]);
    assert_eq!(trap, None);
    assert_eq!(x(&core, 3), 0x408);
    assert_eq!(core.pc, Register32::from(8u32));
}

#[test]
fn trap_messages() {
    assert_eq!(Trap::InstructionMisaligned.message(), "Instruction Address is Misaligned");
    assert_eq!(Trap::IllegalInstruction.message(), "Trap on Illegal Instruction");
    assert_eq!(Trap::SystemCall.message(), "System Call");
    assert_eq!(Trap::Breakpoint.message(), "Trap on External Debugger Breakpoint");
}

/// A memory that counts what is asked of it and answers every read with one
/// byte.
struct Probe {
    byte: u8,
    reads: Vec<u32>,
    writes: Vec<(u32, u8)>,
}

impl Mmu<Register32> for Probe {
    fn get(&self, _address: u32) -> u8 {
        self.byte
    }

    fn set(&mut self, address: u32, value: u8) {
        self.writes.push((address, value))
    }

    fn fetch(&self, _address: Register32) -> [u8; 4] {
        // sw x2, 0(x1)
        [0x23, 0xA0, 0x20, 0x00]
    }
}

#[test]
fn a_store_writes_its_bytes_from_the_lowest_address() {
    let mut probe = Probe { byte: 0, reads: Vec::new(), writes: Vec::new() };
    let mut core = core_with(&[0xFFFF_FFFE, 0x0403_0201]);
    assert_eq!(core.execute(&mut probe), None);
    assert_eq!(probe.writes, vec![(0xFFFF_FFFE, 1), (0xFFFF_FFFF, 2), (0, 3), (1, 4)]);
    assert!(probe.reads.is_empty());
}

#[test]
fn the_default_fetch_reads_four_bytes_that_wrap() {
    let mut ram = Ram::new();
    ram.bytes[0xFFFE] = 0x11;
    ram.bytes[0xFFFF] = 0x22;
    ram.bytes[0x0000] = 0x33;
    ram.bytes[0x0001] = 0x44;
    assert_eq!(Mmu::<Register32>::fetch(&ram, Register32::from(0xFFFF_FFFEu32)), [0x11, 0x22, 0x33, 0x44]);
}

#[test]
fn a_hart_runs_through_a_dyn_memory() {
    let mut ram = Ram::with_program(&[0x00500093]);
    let memory: &mut dyn Mmu<Register32> = &mut ram;
    let mut core = Core::<Register32>::new(0);
    assert_eq!(core.execute(memory), None);
    assert_eq!(x(&core, 1), 5);
}
