use riscu_emu::error::EmulatorError;
use riscu_emu::machine::EmulatorState;
use riscu_emu::program::Instruction;
use riscu_emu::step::execute;

fn fresh(memory_size: usize) -> EmulatorState {
    EmulatorState::new(memory_size)
}

#[test]
fn add_then_sub_is_identity() {
    let mut state = fresh(1024);
    let a: u64 = u64::MAX - 3;
    let b: u64 = 10;
    state.registers[5] = a;
    state.registers[6] = b;
    execute(&mut state, Instruction::Add { rd: 7, rs1: 5, rs2: 6 }).unwrap();
    assert_eq!(state.registers[7], a.wrapping_add(b));
    execute(&mut state, Instruction::Sub { rd: 7, rs1: 7, rs2: 6 }).unwrap();
    assert_eq!(state.registers[7], a);
}

#[test]
fn divu_remu_reconstruct_dividend() {
    let mut state = fresh(1024);
    state.registers[5] = 17;
    state.registers[6] = 5;
    execute(&mut state, Instruction::Divu { rd: 7, rs1: 5, rs2: 6 }).unwrap();
    execute(&mut state, Instruction::Remu { rd: 8, rs1: 5, rs2: 6 }).unwrap();
    assert_eq!(state.registers[7], 3);
    assert_eq!(state.registers[8], 2);
    assert_eq!(state.registers[7] * state.registers[6] + state.registers[8], 17);
}

#[test]
fn divu_by_zero_is_fatal() {
    let mut state = fresh(1024);
    state.registers[5] = 17;
    let pc_before = state.program_counter;
    let r = execute(&mut state, Instruction::Divu { rd: 7, rs1: 5, rs2: 6 });
    assert_eq!(r, Err(EmulatorError::DivisionByZero));
    assert_eq!(state.program_counter, pc_before);
    assert_eq!(state.registers[7], 0);
}

#[test]
fn remu_by_zero_is_fatal() {
    let mut state = fresh(1024);
    state.registers[5] = 17;
    let r = execute(&mut state, Instruction::Remu { rd: 7, rs1: 5, rs2: 6 });
    assert_eq!(r, Err(EmulatorError::DivisionByZero));
}

#[test]
fn jal_with_zero_rd_leaves_zero_register() {
    let mut state = fresh(1024);
    state.program_counter = 16;
    execute(&mut state, Instruction::Jal { rd: 0, imm: 8 }).unwrap();
    assert_eq!(state.registers[0], 0);
    assert_eq!(state.program_counter, 24);
}

#[test]
fn jalr_with_zero_rd_leaves_zero_register() {
    let mut state = fresh(1024);
    state.program_counter = 16;
    state.registers[5] = 64;
    execute(&mut state, Instruction::Jalr { rd: 0, rs1: 5, imm: 4 }).unwrap();
    assert_eq!(state.registers[0], 0);
    assert_eq!(state.program_counter, 68);
}

#[test]
fn jal_links_return_address() {
    let mut state = fresh(1024);
    state.program_counter = 16;
    execute(&mut state, Instruction::Jal { rd: 1, imm: 0x100 }).unwrap();
    assert_eq!(state.registers[1], 20);
    assert_eq!(state.program_counter, 16 + 0x100);
}

#[test]
fn jalr_to_unaligned_target_is_fatal() {
    let mut state = fresh(1024);
    state.registers[5] = 3;
    let r = execute(&mut state, Instruction::Jalr { rd: 1, rs1: 5, imm: 0 });
    assert_eq!(r, Err(EmulatorError::AlignmentViolation));
    assert_eq!(state.registers[1], 0);
    assert_eq!(state.program_counter, 0);
}

#[test]
fn beq_branches_on_equal_operands() {
    let mut state = fresh(1024);
    state.program_counter = 8;
    state.registers[5] = 7;
    state.registers[6] = 7;
    execute(&mut state, Instruction::Beq { rs1: 5, rs2: 6, imm: 16 }).unwrap();
    assert_eq!(state.program_counter, 24);
}

#[test]
fn beq_falls_through_on_unequal_operands() {
    let mut state = fresh(1024);
    state.program_counter = 8;
    state.registers[5] = 7;
    state.registers[6] = 8;
    execute(&mut state, Instruction::Beq { rs1: 5, rs2: 6, imm: 16 }).unwrap();
    assert_eq!(state.program_counter, 12);
}

#[test]
fn beq_backward_branch_wraps() {
    let mut state = fresh(1024);
    state.program_counter = 8;
    // A sign-extended negative immediate moves the program counter back.
    execute(&mut state, Instruction::Beq { rs1: 0, rs2: 0, imm: (-8i64) as u64 }).unwrap();
    assert_eq!(state.program_counter, 0);
}

#[test]
fn lui_shifts_and_sign_extends() {
    let mut state = fresh(1024);
    execute(&mut state, Instruction::Lui { rd: 5, imm: 1 }).unwrap();
    assert_eq!(state.registers[5], 0x1000);
    execute(&mut state, Instruction::Lui { rd: 6, imm: 0x80000 }).unwrap();
    assert_eq!(state.registers[6], 0xFFFF_FFFF_8000_0000);
}

#[test]
fn addi_wraps_on_overflow() {
    let mut state = fresh(1024);
    state.registers[5] = u64::MAX;
    execute(&mut state, Instruction::Addi { rd: 6, rs1: 5, imm: 2 }).unwrap();
    assert_eq!(state.registers[6], 1);
}

#[test]
fn sub_wraps_below_zero() {
    let mut state = fresh(1024);
    state.registers[5] = 1;
    state.registers[6] = 3;
    execute(&mut state, Instruction::Sub { rd: 7, rs1: 5, rs2: 6 }).unwrap();
    assert_eq!(state.registers[7], u64::MAX - 1);
}

#[test]
fn sltu_compares_unsigned() {
    let mut state = fresh(1024);
    state.registers[5] = 2;
    state.registers[6] = u64::MAX;
    execute(&mut state, Instruction::Sltu { rd: 7, rs1: 5, rs2: 6 }).unwrap();
    assert_eq!(state.registers[7], 1);
    execute(&mut state, Instruction::Sltu { rd: 7, rs1: 6, rs2: 5 }).unwrap();
    assert_eq!(state.registers[7], 0);
}

#[test]
fn mul_wraps() {
    let mut state = fresh(1024);
    state.registers[5] = 1 << 32;
    state.registers[6] = 1 << 32;
    execute(&mut state, Instruction::Mul { rd: 7, rs1: 5, rs2: 6 }).unwrap();
    assert_eq!(state.registers[7], 0);
    state.registers[5] = 6;
    state.registers[6] = 7;
    execute(&mut state, Instruction::Mul { rd: 7, rs1: 5, rs2: 6 }).unwrap();
    assert_eq!(state.registers[7], 42);
}

#[test]
fn ld_reads_memory_word() {
    let mut state = fresh(1024);
    state.memory[5] = 0xDEAD;
    state.registers[5] = 24;
    execute(&mut state, Instruction::Ld { rd: 6, rs1: 5, imm: 16 }).unwrap();
    assert_eq!(state.registers[6], 0xDEAD);
}

#[test]
fn sd_writes_memory_word() {
    let mut state = fresh(1024);
    state.registers[5] = 40;
    state.registers[6] = 0xBEEF;
    execute(&mut state, Instruction::Sd { rs1: 5, rs2: 6, imm: 8 }).unwrap();
    assert_eq!(state.memory[6], 0xBEEF);
}

#[test]
fn ld_out_of_range_is_fatal() {
    let mut state = fresh(1024);
    state.registers[5] = 4096;
    let r = execute(&mut state, Instruction::Ld { rd: 6, rs1: 5, imm: 0 });
    assert_eq!(r, Err(EmulatorError::OutOfRangeAccess));
}

#[test]
fn sd_out_of_range_is_fatal() {
    let mut state = fresh(1024);
    state.registers[5] = 1024;
    let r = execute(&mut state, Instruction::Sd { rs1: 5, rs2: 6, imm: 0 });
    assert_eq!(r, Err(EmulatorError::OutOfRangeAccess));
}

#[test]
fn brk_moves_exactly_to_valid_request() {
    let mut state = fresh(65536);
    state.program_break = 8192;
    state.registers[2] = 65536;
    state.registers[10] = 16384;
    state.registers[17] = 214;
    execute(&mut state, Instruction::Ecall).unwrap();
    assert_eq!(state.program_break, 16384);
    assert_eq!(state.registers[10], 16384);
}

#[test]
fn brk_ignores_request_below_current_break() {
    let mut state = fresh(65536);
    state.program_break = 8192;
    state.registers[2] = 65536;
    state.registers[10] = 4096;
    state.registers[17] = 214;
    execute(&mut state, Instruction::Ecall).unwrap();
    assert_eq!(state.program_break, 8192);
    assert_eq!(state.registers[10], 8192);
}

#[test]
fn brk_ignores_request_at_or_above_stack_pointer() {
    let mut state = fresh(65536);
    state.program_break = 8192;
    state.registers[2] = 32768;
    state.registers[10] = 32768;
    state.registers[17] = 214;
    execute(&mut state, Instruction::Ecall).unwrap();
    assert_eq!(state.program_break, 8192);
    assert_eq!(state.registers[10], 8192);
}

#[test]
fn brk_unaligned_request_is_fatal() {
    let mut state = fresh(65536);
    state.program_break = 8192;
    state.registers[2] = 65536;
    state.registers[10] = 8193;
    state.registers[17] = 214;
    let r = execute(&mut state, Instruction::Ecall);
    assert_eq!(r, Err(EmulatorError::AlignmentViolation));
    assert_eq!(state.program_break, 8192);
}

#[test]
fn write_collects_words_and_returns_byte_count() {
    let mut state = fresh(1024);
    state.memory[2] = u64::from_le_bytes(*b"hello wo");
    state.memory[3] = u64::from_le_bytes(*b"rld!\0\0\0\0");
    state.registers[10] = 1;
    state.registers[11] = 16;
    state.registers[12] = 12;
    state.registers[17] = 64;
    execute(&mut state, Instruction::Ecall).unwrap();
    // Twelve bytes are requested; whole words are copied.
    assert_eq!(state.output, b"hello world!\0\0\0\0".to_vec());
    assert_eq!(state.registers[10], 12);
}

#[test]
fn write_of_zero_bytes_sends_nothing() {
    let mut state = fresh(1024);
    state.registers[10] = 1;
    state.registers[11] = 16;
    state.registers[12] = 0;
    state.registers[17] = 64;
    execute(&mut state, Instruction::Ecall).unwrap();
    assert_eq!(state.output.len(), 0);
    assert_eq!(state.registers[10], 0);
}

#[test]
fn write_to_other_descriptor_is_fatal() {
    let mut state = fresh(1024);
    state.registers[10] = 2;
    state.registers[11] = 16;
    state.registers[12] = 8;
    state.registers[17] = 64;
    let r = execute(&mut state, Instruction::Ecall);
    assert_eq!(r, Err(EmulatorError::UnsupportedFileDescriptor));
    assert_eq!(state.output.len(), 0);
}

#[test]
fn write_out_of_range_buffer_is_fatal() {
    let mut state = fresh(1024);
    state.registers[10] = 1;
    state.registers[11] = 1020;
    state.registers[12] = 64;
    state.registers[17] = 64;
    let r = execute(&mut state, Instruction::Ecall);
    assert_eq!(r, Err(EmulatorError::OutOfRangeAccess));
}

#[test]
fn exit_halts_the_machine() {
    let mut state = fresh(1024);
    state.running = true;
    state.registers[10] = 7;
    state.registers[17] = 93;
    execute(&mut state, Instruction::Ecall).unwrap();
    assert!(!state.running);
    assert_eq!(state.registers[10], 7);
}

#[test]
fn read_and_openat_are_recognized_but_fatal() {
    let mut state = fresh(1024);
    state.registers[17] = 63;
    assert_eq!(
        execute(&mut state, Instruction::Ecall),
        Err(EmulatorError::UnsupportedSyscall)
    );
    state.registers[17] = 56;
    assert_eq!(
        execute(&mut state, Instruction::Ecall),
        Err(EmulatorError::UnsupportedSyscall)
    );
}

#[test]
fn unknown_syscall_is_fatal() {
    let mut state = fresh(1024);
    state.registers[17] = 9999;
    let r = execute(&mut state, Instruction::Ecall);
    assert_eq!(r, Err(EmulatorError::UnsupportedSyscall));
}

#[test]
fn set_reg_maybe_discards_zero_register_write() {
    let mut state = fresh(1024);
    state.set_reg_maybe(0, 99);
    assert_eq!(state.registers[0], 0);
    state.set_reg_maybe(4, 99);
    assert_eq!(state.registers[4], 99);
}

#[test]
fn pc_arithmetic_wraps() {
    let mut state = fresh(1024);
    state.program_counter = u64::MAX - 3;
    state.pc_next();
    assert_eq!(state.program_counter, 0);
    state.pc_add(12);
    assert_eq!(state.program_counter, 12);
}

#[test]
fn push_stack_grows_downward() {
    let mut state = fresh(1024);
    state.registers[2] = 1024;
    state.push_stack(11).unwrap();
    state.push_stack(22).unwrap();
    assert_eq!(state.registers[2], 1008);
    assert_eq!(state.memory[126], 22);
    assert_eq!(state.memory[127], 11);
}

#[test]
fn push_stack_below_zero_is_fatal() {
    let mut state = fresh(1024);
    state.registers[2] = 0;
    let r = state.push_stack(1);
    assert_eq!(r, Err(EmulatorError::OutOfRangeAccess));
}
