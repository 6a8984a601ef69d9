use riscu_emu::abi::next_multiple_of;
use riscu_emu::cycle::fetch_and_decode;
use riscu_emu::error::EmulatorError;
use riscu_emu::machine::EmulatorState;
use riscu_emu::program::{DecodedProgram, Instruction};
use riscu_emu::step::execute;

fn empty_data_program(code: Vec<Instruction>) -> DecodedProgram {
    DecodedProgram { code_address: 0, code, data_address: 0, data: Vec::new() }
}

fn read_c_string(state: &EmulatorState, mut address: u64) -> Vec<u8> {
    let mut out = Vec::new();
    'outer: loop {
        let word = state.memory[(address / 8) as usize];
        for byte in word.to_le_bytes() {
            if byte == 0 {
                break 'outer;
            }
            out.push(byte);
        }
        address += 8;
    }
    out
}

#[test]
fn new_machine_is_blank() {
    let state = EmulatorState::new(1024);
    assert_eq!(state.registers.len(), 32);
    assert_eq!(state.memory.len(), 128);
    assert!(state.registers.iter().all(|r| *r == 0));
    assert!(state.memory.iter().all(|w| *w == 0));
    assert_eq!(state.program_counter, 0);
    assert_eq!(state.program_break, 0);
    assert!(!state.running);
    assert!(state.output.is_empty());
}

#[test]
fn next_multiple_of_rounds_up() {
    assert_eq!(next_multiple_of(0, 4096), 0);
    assert_eq!(next_multiple_of(1, 4096), 4096);
    assert_eq!(next_multiple_of(4096, 4096), 4096);
    assert_eq!(next_multiple_of(4097, 4096), 8192);
}

#[test]
fn load_data_segment_places_words() {
    let mut state = EmulatorState::new(1024);
    let program = DecodedProgram {
        code_address: 0,
        code: Vec::new(),
        data_address: 32,
        data: vec![7, 8],
    };
    state.load_data_segment(&program).unwrap();
    assert_eq!(state.memory[4], 7);
    assert_eq!(state.memory[5], 8);
    assert_eq!(state.memory[3], 0);
    assert_eq!(state.memory[6], 0);
}

#[test]
fn load_data_segment_out_of_range_is_fatal() {
    let mut state = EmulatorState::new(1024);
    let program = DecodedProgram {
        code_address: 0,
        code: Vec::new(),
        data_address: 1016,
        data: vec![7, 8],
    };
    let r = state.load_data_segment(&program);
    assert_eq!(r, Err(EmulatorError::OutOfRangeAccess));
    assert!(state.memory.iter().all(|w| *w == 0));
}

#[test]
fn stack_layout_round_trips_argv() {
    let mut state = EmulatorState::new(65536);
    state.registers[2] = 65536;
    let argv: Vec<Vec<u8>> = vec![b"ab".to_vec(), b"cde".to_vec()];
    state.load_stack_segment(&argv).unwrap();

    let sp = state.registers[2];
    let argc = state.memory[(sp / 8) as usize];
    assert_eq!(argc, 2);
    let ptr0 = state.memory[(sp / 8) as usize + 1];
    let ptr1 = state.memory[(sp / 8) as usize + 2];
    assert_eq!(read_c_string(&state, ptr0), b"ab".to_vec());
    assert_eq!(read_c_string(&state, ptr1), b"cde".to_vec());
    // Argument-vector and environment-vector terminators.
    assert_eq!(state.memory[(sp / 8) as usize + 3], 0);
    assert_eq!(state.memory[(sp / 8) as usize + 4], 0);
}

#[test]
fn stack_too_small_for_argv_is_fatal() {
    let mut state = EmulatorState::new(32);
    state.registers[2] = 32;
    let argv: Vec<Vec<u8>> = vec![b"ab".to_vec(), b"cde".to_vec()];
    let r = state.load_stack_segment(&argv);
    assert_eq!(r, Err(EmulatorError::OutOfRangeAccess));
    assert_eq!(state.registers[2], 32);
}

#[test]
fn fetch_reads_instruction_at_pc() {
    let program = empty_data_program(vec![
        Instruction::Ecall,
        Instruction::Addi { rd: 10, rs1: 0, imm: 1 },
    ]);
    let mut state = EmulatorState::new(1024);
    state.program_counter = 4;
    assert_eq!(
        fetch_and_decode(&state, &program),
        Ok(Instruction::Addi { rd: 10, rs1: 0, imm: 1 })
    );
    state.program_counter = 2;
    assert_eq!(fetch_and_decode(&state, &program), Err(EmulatorError::AlignmentViolation));
    state.program_counter = 8;
    assert_eq!(fetch_and_decode(&state, &program), Err(EmulatorError::OutOfRangeAccess));
}

#[test]
fn fetch_below_code_base_is_fatal() {
    let program = DecodedProgram {
        code_address: 64,
        code: vec![Instruction::Ecall],
        data_address: 0,
        data: Vec::new(),
    };
    let mut state = EmulatorState::new(1024);
    state.program_counter = 32;
    assert_eq!(fetch_and_decode(&state, &program), Err(EmulatorError::OutOfRangeAccess));
}

#[test]
fn beq_branch_target_confirmed_by_fetch() {
    let program = empty_data_program(vec![
        Instruction::Beq { rs1: 5, rs2: 6, imm: 8 },
        Instruction::Ecall,
        Instruction::Addi { rd: 10, rs1: 0, imm: 1 },
    ]);
    let mut state = EmulatorState::new(1024);
    state.registers[5] = 4;
    state.registers[6] = 4;
    execute(&mut state, Instruction::Beq { rs1: 5, rs2: 6, imm: 8 }).unwrap();
    assert_eq!(
        fetch_and_decode(&state, &program),
        Ok(Instruction::Addi { rd: 10, rs1: 0, imm: 1 })
    );

    let mut state = EmulatorState::new(1024);
    state.registers[5] = 4;
    state.registers[6] = 5;
    execute(&mut state, Instruction::Beq { rs1: 5, rs2: 6, imm: 8 }).unwrap();
    assert_eq!(fetch_and_decode(&state, &program), Ok(Instruction::Ecall));
}

#[test]
fn run_exit_program_halts_with_code() {
    let program = empty_data_program(vec![
        Instruction::Addi { rd: 10, rs1: 0, imm: 5 },
        Instruction::Addi { rd: 17, rs1: 0, imm: 93 },
        Instruction::Ecall,
    ]);
    let mut state = EmulatorState::new(8192);
    let outcome = state.run(&program, &Vec::new(), 100);
    assert_eq!(outcome, Ok(Some(5)));
    assert!(!state.running);
}

#[test]
fn run_write_program_sends_loaded_word() {
    let payload = u64::from_le_bytes(*b"ABCDEFGH");
    let program = DecodedProgram {
        code_address: 0,
        code: vec![
            Instruction::Addi { rd: 5, rs1: 0, imm: 4096 },
            Instruction::Ld { rd: 11, rs1: 5, imm: 0 },
            Instruction::Addi { rd: 10, rs1: 0, imm: 1 },
            Instruction::Addi { rd: 12, rs1: 0, imm: 8 },
            Instruction::Addi { rd: 17, rs1: 0, imm: 64 },
            Instruction::Ecall,
        ],
        data_address: 4096,
        data: vec![4104, payload],
    };
    let mut state = EmulatorState::new(16384);
    let outcome = state.run(&program, &Vec::new(), 6);
    assert_eq!(outcome, Ok(None));
    assert_eq!(state.output, b"ABCDEFGH".to_vec());
    assert_eq!(state.registers[10], 8);
    assert!(state.running);
}

#[test]
fn run_write_then_exit_program() {
    let payload = u64::from_le_bytes(*b"ABCDEFGH");
    let program = DecodedProgram {
        code_address: 0,
        code: vec![
            Instruction::Addi { rd: 5, rs1: 0, imm: 4096 },
            Instruction::Ld { rd: 11, rs1: 5, imm: 0 },
            Instruction::Addi { rd: 10, rs1: 0, imm: 1 },
            Instruction::Addi { rd: 12, rs1: 0, imm: 8 },
            Instruction::Addi { rd: 17, rs1: 0, imm: 64 },
            Instruction::Ecall,
            Instruction::Addi { rd: 17, rs1: 0, imm: 93 },
            Instruction::Ecall,
        ],
        data_address: 4096,
        data: vec![4104, payload],
    };
    let mut state = EmulatorState::new(16384);
    // The write call leaves its byte count in a0, which exit then
    // reports as the exit code.
    let outcome = state.run(&program, &Vec::new(), 100);
    assert_eq!(outcome, Ok(Some(8)));
    assert_eq!(state.output, b"ABCDEFGH".to_vec());
    assert!(!state.running);
}

#[test]
fn run_boots_the_abi_stack() {
    let program = empty_data_program(vec![
        Instruction::Addi { rd: 17, rs1: 0, imm: 93 },
        Instruction::Ecall,
    ]);
    let mut state = EmulatorState::new(65536);
    let argv: Vec<Vec<u8>> = vec![b"self".to_vec()];
    let outcome = state.run(&program, &argv, 100);
    assert_eq!(outcome, Ok(Some(0)));
    // argc, argv[0] pointer, two terminators, then the string.
    let sp = state.registers[2];
    assert_eq!(state.memory[(sp / 8) as usize], 1);
    let ptr0 = state.memory[(sp / 8) as usize + 1];
    assert_eq!(read_c_string(&state, ptr0), b"self".to_vec());
    assert_eq!(state.program_break, 0);
}

#[test]
fn run_with_too_small_memory_is_fatal() {
    let program = empty_data_program(vec![Instruction::Ecall]);
    let mut state = EmulatorState::new(8);
    let outcome = state.run(&program, &Vec::new(), 100);
    assert_eq!(outcome, Err(EmulatorError::OutOfRangeAccess));
}

#[test]
fn run_out_of_budget_keeps_machine_running() {
    // An idle loop: branch back to itself forever.
    let program = empty_data_program(vec![Instruction::Beq { rs1: 0, rs2: 0, imm: 0 }]);
    let mut state = EmulatorState::new(8192);
    let outcome = state.run(&program, &Vec::new(), 25);
    assert_eq!(outcome, Ok(None));
    assert!(state.running);
}

#[test]
fn run_unknown_syscall_reports_fatal_condition() {
    let program = empty_data_program(vec![
        Instruction::Addi { rd: 17, rs1: 0, imm: 999 },
        Instruction::Ecall,
    ]);
    let mut state = EmulatorState::new(8192);
    let outcome = state.run(&program, &Vec::new(), 100);
    assert_eq!(outcome, Err(EmulatorError::UnsupportedSyscall));
}

#[test]
fn initial_break_is_page_aligned_end_of_data() {
    let program = DecodedProgram {
        code_address: 0,
        code: Vec::new(),
        data_address: 4096,
        data: vec![1, 2, 3],
    };
    assert_eq!(riscu_emu::abi::initial_program_break(&program), 8192);
}
