//! Per-instruction execution semantics and system-call emulation.
//!
//! `step_spec` is the mathematical small-step semantics: given a
//! machine model and one decoded instruction it yields either the next
//! model or the fatal condition that aborts the run.  Each executable
//! rule is proved to realize exactly that function, leaving the state
//! untouched whenever it reports an error.
//!
//! All register arithmetic wraps silently (two's-complement modular
//! arithmetic); only unsigned divide and remainder trap, on a zero
//! divisor.

use vstd::prelude::*;

use crate::error::EmulatorError;
use crate::machine::{EmulatorState, MachineModel};
use crate::machine::{REG_A0, REG_A1, REG_A2, REG_A7, REG_SP};
use crate::program::Instruction;

verus! {

/// Call number of the exit system call.
pub const SYSCALL_EXIT: u64 = 93;
/// Call number of the read system call (declared, not implemented).
pub const SYSCALL_READ: u64 = 63;
/// Call number of the write system call.
pub const SYSCALL_WRITE: u64 = 64;
/// Call number of the openat system call (declared, not implemented).
pub const SYSCALL_OPENAT: u64 = 56;
/// Call number of the break-adjust system call.
pub const SYSCALL_BRK: u64 = 214;

/// The file descriptor of standard output, the only supported write
/// target.
pub const FD_STDOUT: u64 = 1;

/// The value `Lui` writes: the 20-bit immediate shifted left by 12 and
/// sign-extended from 32 to 64 bits.
pub open spec fn lui_value(imm: u32) -> u64 {
    let shifted = imm << 12;
    if shifted >= 0x8000_0000u32 {
        (shifted as u64) | 0xFFFF_FFFF_0000_0000u64
    } else {
        shifted as u64
    }
}

/// How many memory words the write call touches for a request of
/// `size` bytes: one word per started 8-byte chunk.
pub open spec fn write_word_count(size: u64) -> int {
    if size == 0 {
        0
    } else {
        (size - 1) / 8 + 1
    }
}

/// The bytes the write call sends: the first `count` words holding the
/// buffer, each as eight little-endian bytes.
pub open spec fn write_bytes(mem: Seq<u64>, buffer: int, count: int) -> Seq<u8>
    decreases count,
{
    if count <= 0 {
        Seq::empty()
    } else {
        write_bytes(mem, buffer, count - 1) + vstd::bytes::spec_u64_to_le_bytes(
            mem[(buffer + 8 * (count - 1)) / 8],
        )
    }
}

/// Whether the write call's buffer lies within memory: the end address
/// fits in 64 bits and the last touched word is in range.
pub open spec fn write_in_range(m: MachineModel) -> bool {
    let buffer = m.regs[11];
    let size = m.regs[12];
    &&& buffer + size <= u64::MAX
    &&& (size == 0 || (buffer + 8 * (write_word_count(size) - 1)) / 8 < m.mem.len())
}

/// What the write system call does, before the trap returns: fatal
/// unless the file descriptor is standard output and the buffer is in
/// range; otherwise the touched words are appended to the output byte
/// stream and the requested byte count is written back as the return
/// value.
pub open spec fn write_syscall_spec(m: MachineModel) -> Result<MachineModel, EmulatorError> {
    let fd = m.regs[10];
    let buffer = m.regs[11];
    let size = m.regs[12];
    if fd != 1 {
        Err(EmulatorError::UnsupportedFileDescriptor)
    } else if !write_in_range(m) {
        Err(EmulatorError::OutOfRangeAccess)
    } else {
        Ok(MachineModel {
            regs: m.regs.update(10, size),
            output: m.output + write_bytes(m.mem, buffer as int, write_word_count(size)),
            ..m
        })
    }
}

/// What the break-adjust system call does, before the trap returns:
/// fatal unless the requested address is word-aligned; the break moves
/// exactly to the request when that lies in `[current break, stack
/// pointer)` and is left unchanged otherwise, and the resulting break
/// is written back as the return value.
pub open spec fn brk_syscall_spec(m: MachineModel) -> Result<MachineModel, EmulatorError> {
    let address = m.regs[10];
    if address % 8 != 0 {
        Err(EmulatorError::AlignmentViolation)
    } else {
        let new_brk = if m.brk <= address && address < m.regs[2] {
            address
        } else {
            m.brk
        };
        Ok(MachineModel { regs: m.regs.update(10, new_brk), brk: new_brk, ..m })
    }
}

/// What a trap does: dispatch on the call number in `a7`.  Exit halts
/// the machine; read and openat are recognized but unimplemented, and
/// those as well as any unknown number are fatal.  After a successful
/// call the program counter advances past the `Ecall`.
pub open spec fn ecall_spec(m: MachineModel) -> Result<MachineModel, EmulatorError> {
    let a7 = m.regs[17];
    if a7 == SYSCALL_EXIT {
        Ok(MachineModel { running: false, pc: m.pc.wrapping_add(4), ..m })
    } else if a7 == SYSCALL_READ {
        Err(EmulatorError::UnsupportedSyscall)
    } else if a7 == SYSCALL_WRITE {
        match write_syscall_spec(m) {
            Ok(m2) => Ok(MachineModel { pc: m.pc.wrapping_add(4), ..m2 }),
            Err(e) => Err(e),
        }
    } else if a7 == SYSCALL_OPENAT {
        Err(EmulatorError::UnsupportedSyscall)
    } else if a7 == SYSCALL_BRK {
        match brk_syscall_spec(m) {
            Ok(m2) => Ok(MachineModel { pc: m.pc.wrapping_add(4), ..m2 }),
            Err(e) => Err(e),
        }
    } else {
        Err(EmulatorError::UnsupportedSyscall)
    }
}

/// The small-step semantics: the machine after executing one decoded
/// instruction, or the fatal condition that aborts the run.
pub open spec fn step_spec(m: MachineModel, instr: Instruction) -> Result<
    MachineModel,
    EmulatorError,
> {
    match instr {
        Instruction::Lui { rd, imm } => Ok(MachineModel {
            regs: m.regs.update(rd as int, lui_value(imm)),
            pc: m.pc.wrapping_add(4),
            ..m
        }),
        Instruction::Jal { rd, imm } => Ok(MachineModel {
            regs: if rd == 0 {
                m.regs
            } else {
                m.regs.update(rd as int, m.pc.wrapping_add(4))
            },
            pc: m.pc.wrapping_add(imm),
            ..m
        }),
        Instruction::Jalr { rd, rs1, imm } => {
            let target = m.regs[rs1 as int].wrapping_add(imm);
            if target % 4 != 0 {
                Err(EmulatorError::AlignmentViolation)
            } else {
                Ok(MachineModel {
                    regs: if rd == 0 {
                        m.regs
                    } else {
                        m.regs.update(rd as int, m.pc.wrapping_add(4))
                    },
                    pc: target,
                    ..m
                })
            }
        },
        Instruction::Beq { rs1, rs2, imm } => Ok(MachineModel {
            pc: if m.regs[rs1 as int] == m.regs[rs2 as int] {
                m.pc.wrapping_add(imm)
            } else {
                m.pc.wrapping_add(4)
            },
            ..m
        }),
        Instruction::Ld { rd, rs1, imm } => {
            let address = m.regs[rs1 as int].wrapping_add(imm);
            if !m.in_memory(address) {
                Err(EmulatorError::OutOfRangeAccess)
            } else {
                Ok(MachineModel {
                    regs: m.regs.update(rd as int, m.word_at(address)),
                    pc: m.pc.wrapping_add(4),
                    ..m
                })
            }
        },
        Instruction::Sd { rs1, rs2, imm } => {
            let address = m.regs[rs1 as int].wrapping_add(imm);
            if !m.in_memory(address) {
                Err(EmulatorError::OutOfRangeAccess)
            } else {
                Ok(MachineModel {
                    mem: m.mem.update(address as int / 8, m.regs[rs2 as int]),
                    pc: m.pc.wrapping_add(4),
                    ..m
                })
            }
        },
        Instruction::Addi { rd, rs1, imm } => Ok(MachineModel {
            regs: m.regs.update(rd as int, m.regs[rs1 as int].wrapping_add(imm)),
            pc: m.pc.wrapping_add(4),
            ..m
        }),
        Instruction::Add { rd, rs1, rs2 } => Ok(MachineModel {
            regs: m.regs.update(rd as int, m.regs[rs1 as int].wrapping_add(m.regs[rs2 as int])),
            pc: m.pc.wrapping_add(4),
            ..m
        }),
        Instruction::Sub { rd, rs1, rs2 } => Ok(MachineModel {
            regs: m.regs.update(rd as int, m.regs[rs1 as int].wrapping_sub(m.regs[rs2 as int])),
            pc: m.pc.wrapping_add(4),
            ..m
        }),
        Instruction::Sltu { rd, rs1, rs2 } => Ok(MachineModel {
            regs: m.regs.update(
                rd as int,
                if m.regs[rs1 as int] < m.regs[rs2 as int] {
                    1u64
                } else {
                    0u64
                },
            ),
            pc: m.pc.wrapping_add(4),
            ..m
        }),
        Instruction::Mul { rd, rs1, rs2 } => Ok(MachineModel {
            regs: m.regs.update(rd as int, m.regs[rs1 as int].wrapping_mul(m.regs[rs2 as int])),
            pc: m.pc.wrapping_add(4),
            ..m
        }),
        Instruction::Divu { rd, rs1, rs2 } => {
            if m.regs[rs2 as int] == 0 {
                Err(EmulatorError::DivisionByZero)
            } else {
                Ok(MachineModel {
                    regs: m.regs.update(rd as int, m.regs[rs1 as int] / m.regs[rs2 as int]),
                    pc: m.pc.wrapping_add(4),
                    ..m
                })
            }
        },
        Instruction::Remu { rd, rs1, rs2 } => {
            if m.regs[rs2 as int] == 0 {
                Err(EmulatorError::DivisionByZero)
            } else {
                Ok(MachineModel {
                    regs: m.regs.update(rd as int, m.regs[rs1 as int] % m.regs[rs2 as int]),
                    pc: m.pc.wrapping_add(4),
                    ..m
                })
            }
        },
        Instruction::Ecall => ecall_spec(m),
    }
}

/// Executes `Lui`: the destination takes the shifted, sign-extended
/// immediate.
pub fn exec_lui(state: &mut EmulatorState, rd: usize, imm: u32)
    requires
        old(state).wf(),
        0 < rd < 32,
    ensures
        final(state).wf(),
        Ok::<MachineModel, EmulatorError>(final(state)@) == step_spec(
            old(state)@,
            Instruction::Lui { rd, imm },
        ),
{
    let shifted: u32 = imm << 12u32;
    let rd_value: u64 = if shifted >= 0x8000_0000u32 {
        (shifted as u64) | 0xFFFF_FFFF_0000_0000u64
    } else {
        shifted as u64
    };
    state.set_reg(rd, rd_value);
    state.pc_next();
}

/// Executes `Jal`: the link register takes the return address unless
/// it is the zero register, and the program counter moves by the
/// immediate.
pub fn exec_jal(state: &mut EmulatorState, rd: usize, imm: u64)
    requires
        old(state).wf(),
        rd < 32,
    ensures
        final(state).wf(),
        Ok::<MachineModel, EmulatorError>(final(state)@) == step_spec(
            old(state)@,
            Instruction::Jal { rd, imm },
        ),
{
    let rd_value = state.program_counter.wrapping_add(4);
    state.set_reg_maybe(rd, rd_value);
    state.pc_add(imm);
}

/// Executes `Jalr`: like `Jal`, but the target is `rs1 + imm` and must
/// be instruction-aligned; a misaligned target is fatal and leaves the
/// state unchanged.
pub fn exec_jalr(state: &mut EmulatorState, rd: usize, rs1: usize, imm: u64) -> (r: Result<
    (),
    EmulatorError,
>)
    requires
        old(state).wf(),
        rd < 32,
        rs1 < 32,
    ensures
        final(state).wf(),
        (match step_spec(old(state)@, Instruction::Jalr { rd, rs1, imm }) {
            Ok(m) => r == Ok::<(), EmulatorError>(()) && final(state)@ == m,
            Err(e) => r == Err::<(), EmulatorError>(e) && final(state)@ == old(state)@,
        }),
{
    let rs1_value = state.get_reg(rs1);
    let rd_value = state.program_counter.wrapping_add(4);
    let pc_value = rs1_value.wrapping_add(imm);
    if pc_value % 4 != 0 {
        return Err(EmulatorError::AlignmentViolation);
    }
    state.set_reg_maybe(rd, rd_value);
    match state.pc_set(pc_value) {
        Ok(()) => Ok(()),
        Err(e) => Err(e),
    }
}

/// Executes `Beq`: branch by the immediate when the operands are
/// equal, else fall through to the next instruction.
pub fn exec_beq(state: &mut EmulatorState, rs1: usize, rs2: usize, imm: u64)
    requires
        old(state).wf(),
        rs1 < 32,
        rs2 < 32,
    ensures
        final(state).wf(),
        Ok::<MachineModel, EmulatorError>(final(state)@) == step_spec(
            old(state)@,
            Instruction::Beq { rs1, rs2, imm },
        ),
{
    let rs1_value = state.get_reg(rs1);
    let rs2_value = state.get_reg(rs2);
    if rs1_value == rs2_value {
        state.pc_add(imm);
    } else {
        state.pc_next();
    }
}

/// Executes `Ld`: the destination takes the memory word at
/// `rs1 + imm`; an out-of-range address is fatal and leaves the state
/// unchanged.
pub fn exec_ld(state: &mut EmulatorState, rd: usize, rs1: usize, imm: u64) -> (r: Result<
    (),
    EmulatorError,
>)
    requires
        old(state).wf(),
        0 < rd < 32,
        rs1 < 32,
    ensures
        final(state).wf(),
        (match step_spec(old(state)@, Instruction::Ld { rd, rs1, imm }) {
            Ok(m) => r == Ok::<(), EmulatorError>(()) && final(state)@ == m,
            Err(e) => r == Err::<(), EmulatorError>(e) && final(state)@ == old(state)@,
        }),
{
    let rs1_value = state.get_reg(rs1);
    let address = rs1_value.wrapping_add(imm);
    match state.get_mem(address) {
        Ok(rd_value) => {
            state.set_reg(rd, rd_value);
            state.pc_next();
            Ok(())
        },
        Err(e) => Err(e),
    }
}

/// Executes `Sd`: the memory word at `rs1 + imm` takes `rs2`; an
/// out-of-range address is fatal and leaves the state unchanged.
pub fn exec_sd(state: &mut EmulatorState, rs1: usize, rs2: usize, imm: u64) -> (r: Result<
    (),
    EmulatorError,
>)
    requires
        old(state).wf(),
        rs1 < 32,
        rs2 < 32,
    ensures
        final(state).wf(),
        (match step_spec(old(state)@, Instruction::Sd { rs1, rs2, imm }) {
            Ok(m) => r == Ok::<(), EmulatorError>(()) && final(state)@ == m,
            Err(e) => r == Err::<(), EmulatorError>(e) && final(state)@ == old(state)@,
        }),
{
    let rs1_value = state.get_reg(rs1);
    let rs2_value = state.get_reg(rs2);
    let address = rs1_value.wrapping_add(imm);
    match state.set_mem(address, rs2_value) {
        Ok(()) => {
            state.pc_next();
            Ok(())
        },
        Err(e) => Err(e),
    }
}

/// Executes `Addi`: the destination takes `rs1 + imm`, wrapping.
pub fn exec_addi(state: &mut EmulatorState, rd: usize, rs1: usize, imm: u64)
    requires
        old(state).wf(),
        0 < rd < 32,
        rs1 < 32,
    ensures
        final(state).wf(),
        Ok::<MachineModel, EmulatorError>(final(state)@) == step_spec(
            old(state)@,
            Instruction::Addi { rd, rs1, imm },
        ),
{
    let rs1_value = state.get_reg(rs1);
    state.set_reg(rd, rs1_value.wrapping_add(imm));
    state.pc_next();
}

/// Executes `Add`: the destination takes `rs1 + rs2`, wrapping.
pub fn exec_add(state: &mut EmulatorState, rd: usize, rs1: usize, rs2: usize)
    requires
        old(state).wf(),
        0 < rd < 32,
        rs1 < 32,
        rs2 < 32,
    ensures
        final(state).wf(),
        Ok::<MachineModel, EmulatorError>(final(state)@) == step_spec(
            old(state)@,
            Instruction::Add { rd, rs1, rs2 },
        ),
{
    let rs1_value = state.get_reg(rs1);
    let rs2_value = state.get_reg(rs2);
    state.set_reg(rd, rs1_value.wrapping_add(rs2_value));
    state.pc_next();
}

/// Executes `Sub`: the destination takes `rs1 - rs2`, wrapping.
pub fn exec_sub(state: &mut EmulatorState, rd: usize, rs1: usize, rs2: usize)
    requires
        old(state).wf(),
        0 < rd < 32,
        rs1 < 32,
        rs2 < 32,
    ensures
        final(state).wf(),
        Ok::<MachineModel, EmulatorError>(final(state)@) == step_spec(
            old(state)@,
            Instruction::Sub { rd, rs1, rs2 },
        ),
{
    let rs1_value = state.get_reg(rs1);
    let rs2_value = state.get_reg(rs2);
    state.set_reg(rd, rs1_value.wrapping_sub(rs2_value));
    state.pc_next();
}

/// Executes `Sltu`: the destination takes one exactly when
/// `rs1 < rs2` as unsigned values, else zero.
pub fn exec_sltu(state: &mut EmulatorState, rd: usize, rs1: usize, rs2: usize)
    requires
        old(state).wf(),
        0 < rd < 32,
        rs1 < 32,
        rs2 < 32,
    ensures
        final(state).wf(),
        Ok::<MachineModel, EmulatorError>(final(state)@) == step_spec(
            old(state)@,
            Instruction::Sltu { rd, rs1, rs2 },
        ),
{
    let rs1_value = state.get_reg(rs1);
    let rs2_value = state.get_reg(rs2);
    let rd_value: u64 = if rs1_value < rs2_value {
        1
    } else {
        0
    };
    state.set_reg(rd, rd_value);
    state.pc_next();
}

/// Executes `Mul`: the destination takes `rs1 * rs2`, wrapping.
pub fn exec_mul(state: &mut EmulatorState, rd: usize, rs1: usize, rs2: usize)
    requires
        old(state).wf(),
        0 < rd < 32,
        rs1 < 32,
        rs2 < 32,
    ensures
        final(state).wf(),
        Ok::<MachineModel, EmulatorError>(final(state)@) == step_spec(
            old(state)@,
            Instruction::Mul { rd, rs1, rs2 },
        ),
{
    let rs1_value = state.get_reg(rs1);
    let rs2_value = state.get_reg(rs2);
    state.set_reg(rd, rs1_value.wrapping_mul(rs2_value));
    state.pc_next();
}

/// Executes `Divu`: the destination takes the unsigned quotient; a
/// zero divisor is fatal and leaves the state unchanged.
pub fn exec_divu(state: &mut EmulatorState, rd: usize, rs1: usize, rs2: usize) -> (r: Result<
    (),
    EmulatorError,
>)
    requires
        old(state).wf(),
        0 < rd < 32,
        rs1 < 32,
        rs2 < 32,
    ensures
        final(state).wf(),
        (match step_spec(old(state)@, Instruction::Divu { rd, rs1, rs2 }) {
            Ok(m) => r == Ok::<(), EmulatorError>(()) && final(state)@ == m,
            Err(e) => r == Err::<(), EmulatorError>(e) && final(state)@ == old(state)@,
        }),
{
    let rs1_value = state.get_reg(rs1);
    let rs2_value = state.get_reg(rs2);
    if rs2_value == 0 {
        return Err(EmulatorError::DivisionByZero);
    }
    state.set_reg(rd, rs1_value / rs2_value);
    state.pc_next();
    Ok(())
}

/// Executes `Remu`: the destination takes the unsigned remainder; a
/// zero divisor is fatal and leaves the state unchanged.
pub fn exec_remu(state: &mut EmulatorState, rd: usize, rs1: usize, rs2: usize) -> (r: Result<
    (),
    EmulatorError,
>)
    requires
        old(state).wf(),
        0 < rd < 32,
        rs1 < 32,
        rs2 < 32,
    ensures
        final(state).wf(),
        (match step_spec(old(state)@, Instruction::Remu { rd, rs1, rs2 }) {
            Ok(m) => r == Ok::<(), EmulatorError>(()) && final(state)@ == m,
            Err(e) => r == Err::<(), EmulatorError>(e) && final(state)@ == old(state)@,
        }),
{
    let rs1_value = state.get_reg(rs1);
    let rs2_value = state.get_reg(rs2);
    if rs2_value == 0 {
        return Err(EmulatorError::DivisionByZero);
    }
    state.set_reg(rd, rs1_value % rs2_value);
    state.pc_next();
    Ok(())
}

/// The read system call: recognized but unimplemented, hence fatal.
pub fn syscall_read(state: &mut EmulatorState) -> (r: Result<(), EmulatorError>)
    requires
        old(state).wf(),
    ensures
        final(state)@ == old(state)@,
        r == Err::<(), EmulatorError>(EmulatorError::UnsupportedSyscall),
{
    Err(EmulatorError::UnsupportedSyscall)
}

/// The openat system call: recognized but unimplemented, hence fatal.
pub fn syscall_openat(state: &mut EmulatorState) -> (r: Result<(), EmulatorError>)
    requires
        old(state).wf(),
    ensures
        final(state)@ == old(state)@,
        r == Err::<(), EmulatorError>(EmulatorError::UnsupportedSyscall),
{
    Err(EmulatorError::UnsupportedSyscall)
}

/// The write system call: sends the words holding `a2` bytes starting
/// at address `a1` to the collected output, eight little-endian bytes
/// per word, and returns the byte count in `a0`.  Fatal unless the
/// file descriptor in `a0` names standard output and the buffer lies
/// in memory.
pub fn syscall_write(state: &mut EmulatorState) -> (r: Result<(), EmulatorError>)
    requires
        old(state).wf(),
    ensures
        final(state).wf(),
        (match write_syscall_spec(old(state)@) {
            Ok(m) => r == Ok::<(), EmulatorError>(()) && final(state)@ == m,
            Err(e) => r == Err::<(), EmulatorError>(e) && final(state)@ == old(state)@,
        }),
{
    let fd = state.get_reg(REG_A0);
    let buffer = state.get_reg(REG_A1);
    let size = state.get_reg(REG_A2);

    if fd != FD_STDOUT {
        return Err(EmulatorError::UnsupportedFileDescriptor);
    }
    match buffer.checked_add(size) {
        Some(_end) => {},
        None => {
            return Err(EmulatorError::OutOfRangeAccess);
        },
    }
    if size > 0 {
        let word_count = (size - 1) / 8 + 1;
        let last_address = buffer + 8 * ((size - 1) / 8);
        if last_address / 8 >= state.memory.len() as u64 {
            return Err(EmulatorError::OutOfRangeAccess);
        }
        let mut k: u64 = 0;
        while k < word_count
            invariant
                state.wf(),
                old(state).wf(),
                k <= word_count,
                word_count == write_word_count(size),
                size > 0,
                buffer == old(state)@.regs[11],
                size == old(state)@.regs[12],
                buffer + size <= u64::MAX,
                (buffer + 8 * (word_count - 1)) / 8 < old(state)@.mem.len(),
                state@ == (MachineModel {
                    output: old(state)@.output + write_bytes(
                        old(state)@.mem,
                        buffer as int,
                        k as int,
                    ),
                    ..old(state)@
                }),
            decreases word_count - k,
        {
            proof {
                assert(8 * (k as int) <= 8 * (word_count - 1)) by {
                    assert(k as int <= word_count - 1);
                }
                assert((buffer + 8 * (k as int)) / 8 <= (buffer + 8 * (word_count - 1)) / 8);
            }
            let address = buffer + 8 * k;
            let word = match state.get_mem(address) {
                Ok(w) => w,
                Err(_e) => {
                    proof {
                        assert(false);
                    }
                    return Err(EmulatorError::OutOfRangeAccess);
                },
            };
            let mut bytes = vstd::bytes::u64_to_le_bytes(word);
            state.output.append(&mut bytes);
            k += 1;
            proof {
                let mem0 = old(state)@.mem;
                let b = buffer as int;
                let le = vstd::bytes::spec_u64_to_le_bytes(mem0[(b + 8 * (k as int - 1)) / 8]);
                assert(write_bytes(mem0, b, k as int) == write_bytes(mem0, b, k as int - 1) + le);
                assert(old(state)@.output + write_bytes(mem0, b, k as int) =~= (old(state)@.output
                    + write_bytes(mem0, b, k as int - 1)) + le);
            }
        }
    }
    state.set_reg(REG_A0, size);
    proof {
        let m = write_syscall_spec(old(state)@);
        assert(m is Ok);
        if size == 0 {
            assert(state@.output =~= old(state)@.output + write_bytes(
                old(state)@.mem,
                buffer as int,
                0,
            ));
        }
        assert(state@ == m->Ok_0);
    }
    Ok(())
}

/// The break-adjust system call: fatal unless the requested address is
/// word-aligned; moves the break to the request exactly when it lies
/// between the current break and the stack pointer, and returns the
/// resulting break in `a0`.
pub fn syscall_brk(state: &mut EmulatorState) -> (r: Result<(), EmulatorError>)
    requires
        old(state).wf(),
    ensures
        final(state).wf(),
        (match brk_syscall_spec(old(state)@) {
            Ok(m) => r == Ok::<(), EmulatorError>(()) && final(state)@ == m,
            Err(e) => r == Err::<(), EmulatorError>(e) && final(state)@ == old(state)@,
        }),
{
    let address = state.get_reg(REG_A0);
    if address % 8 != 0 {
        return Err(EmulatorError::AlignmentViolation);
    }
    if address >= state.program_break && address < state.get_reg(REG_SP) {
        state.program_break = address;
    }
    let result = state.program_break;
    state.set_reg(REG_A0, result);
    Ok(())
}

/// Executes `Ecall`: dispatches on the call number in `a7` and, when
/// the call succeeds, advances the program counter past the trap.  A
/// fatal call leaves the state unchanged.
pub fn exec_ecall(state: &mut EmulatorState) -> (r: Result<(), EmulatorError>)
    requires
        old(state).wf(),
    ensures
        final(state).wf(),
        (match ecall_spec(old(state)@) {
            Ok(m) => r == Ok::<(), EmulatorError>(()) && final(state)@ == m,
            Err(e) => r == Err::<(), EmulatorError>(e) && final(state)@ == old(state)@,
        }),
{
    let a7_value = state.get_reg(REG_A7);
    if a7_value == SYSCALL_EXIT {
        state.running = false;
    } else if a7_value == SYSCALL_READ {
        match syscall_read(state) {
            Ok(()) => {},
            Err(e) => {
                return Err(e);
            },
        }
    } else if a7_value == SYSCALL_WRITE {
        match syscall_write(state) {
            Ok(()) => {},
            Err(e) => {
                return Err(e);
            },
        }
    } else if a7_value == SYSCALL_OPENAT {
        match syscall_openat(state) {
            Ok(()) => {},
            Err(e) => {
                return Err(e);
            },
        }
    } else if a7_value == SYSCALL_BRK {
        match syscall_brk(state) {
            Ok(()) => {},
            Err(e) => {
                return Err(e);
            },
        }
    } else {
        return Err(EmulatorError::UnsupportedSyscall);
    }
    state.pc_next();
    Ok(())
}

/// Executes one decoded instruction: dispatch over the closed variant
/// set, realizing `step_spec` exactly; on a fatal condition the state
/// is unchanged and the condition is reported.
pub fn execute(state: &mut EmulatorState, instr: Instruction) -> (r: Result<(), EmulatorError>)
    requires
        old(state).wf(),
        instr.wf(),
    ensures
        final(state).wf(),
        (match step_spec(old(state)@, instr) {
            Ok(m) => r == Ok::<(), EmulatorError>(()) && final(state)@ == m,
            Err(e) => r == Err::<(), EmulatorError>(e) && final(state)@ == old(state)@,
        }),
{
    match instr {
        Instruction::Lui { rd, imm } => {
            exec_lui(state, rd, imm);
            Ok(())
        },
        Instruction::Jal { rd, imm } => {
            exec_jal(state, rd, imm);
            Ok(())
        },
        Instruction::Jalr { rd, rs1, imm } => exec_jalr(state, rd, rs1, imm),
        Instruction::Beq { rs1, rs2, imm } => {
            exec_beq(state, rs1, rs2, imm);
            Ok(())
        },
        Instruction::Ld { rd, rs1, imm } => exec_ld(state, rd, rs1, imm),
        Instruction::Sd { rs1, rs2, imm } => exec_sd(state, rs1, rs2, imm),
        Instruction::Addi { rd, rs1, imm } => {
            exec_addi(state, rd, rs1, imm);
            Ok(())
        },
        Instruction::Add { rd, rs1, rs2 } => {
            exec_add(state, rd, rs1, rs2);
            Ok(())
        },
        Instruction::Sub { rd, rs1, rs2 } => {
            exec_sub(state, rd, rs1, rs2);
            Ok(())
        },
        Instruction::Sltu { rd, rs1, rs2 } => {
            exec_sltu(state, rd, rs1, rs2);
            Ok(())
        },
        Instruction::Mul { rd, rs1, rs2 } => {
            exec_mul(state, rd, rs1, rs2);
            Ok(())
        },
        Instruction::Divu { rd, rs1, rs2 } => exec_divu(state, rd, rs1, rs2),
        Instruction::Remu { rd, rs1, rs2 } => exec_remu(state, rd, rs1, rs2),
        Instruction::Ecall => exec_ecall(state),
    }
}

} // verus!
