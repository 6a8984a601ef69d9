//! Laws of the execution semantics, stated and proved once for all
//! inputs.

use vstd::arithmetic::div_mod::{lemma_fundamental_div_mod, lemma_mod_bound};
use vstd::prelude::*;

use crate::error::EmulatorError;
use crate::machine::MachineModel;
use crate::program::Instruction;
use crate::step::{brk_syscall_spec, step_spec};

verus! {

/// Adding then subtracting the same operand is the identity on 64-bit
/// values, wraparound included.
pub proof fn lemma_wrapping_add_sub_identity(a: u64, b: u64)
    ensures
        a.wrapping_add(b).wrapping_sub(b) == a,
{
}

/// Executing `Add rd, rs1, rs2` and then `Sub rd, rd, rs2` restores
/// `rs1`'s original value in `rd`, for every pair of operand values;
/// neither step can fail.
pub proof fn lemma_add_then_sub_identity(m: MachineModel, rd: usize, rs1: usize, rs2: usize)
    requires
        m.wf(),
        0 < rd < 32,
        rs1 < 32,
        rs2 < 32,
        rs2 != rd,
    ensures
        step_spec(m, Instruction::Add { rd, rs1, rs2 }) is Ok,
        ({
            let m1 = step_spec(m, Instruction::Add { rd, rs1, rs2 })->Ok_0;
            &&& step_spec(m1, Instruction::Sub { rd, rs1: rd, rs2 }) is Ok
            &&& step_spec(m1, Instruction::Sub { rd, rs1: rd, rs2 })->Ok_0.regs[rd as int]
                == m.regs[rs1 as int]
        }),
{
    let m1 = step_spec(m, Instruction::Add { rd, rs1, rs2 })->Ok_0;
    lemma_wrapping_add_sub_identity(m.regs[rs1 as int], m.regs[rs2 as int]);
    assert(m1.regs[rd as int] == m.regs[rs1 as int].wrapping_add(m.regs[rs2 as int]));
    assert(m1.regs[rs2 as int] == m.regs[rs2 as int]);
}

/// Unsigned divide and remainder reconstruct the dividend:
/// `quotient * b + remainder == a` (wraparound included, though none
/// occurs) whenever `b` is nonzero; for `b == 0` both instructions
/// are fatal with a division-by-zero condition.
pub proof fn lemma_divu_remu_reconstruct(m: MachineModel, rd: usize, rs1: usize, rs2: usize)
    requires
        m.wf(),
        0 < rd < 32,
        rs1 < 32,
        rs2 < 32,
    ensures
        m.regs[rs2 as int] == 0 ==> step_spec(m, Instruction::Divu { rd, rs1, rs2 }) == Err::<
            MachineModel,
            EmulatorError,
        >(EmulatorError::DivisionByZero) && step_spec(m, Instruction::Remu { rd, rs1, rs2 })
            == Err::<MachineModel, EmulatorError>(EmulatorError::DivisionByZero),
        m.regs[rs2 as int] != 0 ==> ({
            let q = step_spec(m, Instruction::Divu { rd, rs1, rs2 })->Ok_0.regs[rd as int];
            let r = step_spec(m, Instruction::Remu { rd, rs1, rs2 })->Ok_0.regs[rd as int];
            &&& step_spec(m, Instruction::Divu { rd, rs1, rs2 }) is Ok
            &&& step_spec(m, Instruction::Remu { rd, rs1, rs2 }) is Ok
            &&& q.wrapping_mul(m.regs[rs2 as int]).wrapping_add(r) == m.regs[rs1 as int]
        }),
{
    let a = m.regs[rs1 as int];
    let b = m.regs[rs2 as int];
    if b != 0 {
        lemma_fundamental_div_mod(a as int, b as int);
        lemma_mod_bound(a as int, b as int);
        assert((a as int / b as int) * (b as int) == (b as int) * (a as int / b as int))
            by (nonlinear_arith);
        assert((a / b) as nat * b as nat == (a as int / b as int) * (b as int))
            by (nonlinear_arith);
    }
}

/// The zero register reads zero in every state a step can reach: no
/// instruction changes it, and in particular `Jal` and `Jalr` with
/// the zero register as destination discard the link-address write.
pub proof fn lemma_zero_register_preserved(m: MachineModel, instr: Instruction)
    requires
        m.wf(),
        instr.wf(),
    ensures
        step_spec(m, instr) matches Ok(m2) ==> m2.regs[0] == 0,
{
}

/// The break-adjust call is monotonic-or-unchanged: an aligned
/// request below the current break or at or above the stack pointer
/// leaves the break where it was, an aligned request between them
/// moves the break exactly to the request, and the break never
/// decreases.  An unaligned request is fatal.
pub proof fn lemma_brk_monotonic_or_unchanged(m: MachineModel)
    requires
        m.wf(),
    ensures
        m.regs[10] % 8 != 0 ==> brk_syscall_spec(m) == Err::<MachineModel, EmulatorError>(
            EmulatorError::AlignmentViolation,
        ),
        m.regs[10] % 8 == 0 ==> ({
            let a = m.regs[10];
            let m2 = brk_syscall_spec(m)->Ok_0;
            &&& brk_syscall_spec(m) is Ok
            &&& ((a < m.brk || a >= m.regs[2]) ==> m2.brk == m.brk)
            &&& ((m.brk <= a && a < m.regs[2]) ==> m2.brk == a)
            &&& m2.brk >= m.brk
        }),
{
}

/// `Beq` branches by the immediate exactly when its operands are
/// equal and falls through to the next instruction otherwise; it
/// never fails.
pub proof fn lemma_beq_branch(m: MachineModel, rs1: usize, rs2: usize, imm: u64)
    requires
        m.wf(),
        rs1 < 32,
        rs2 < 32,
    ensures
        step_spec(m, Instruction::Beq { rs1, rs2, imm }) is Ok,
        ({
            let m2 = step_spec(m, Instruction::Beq { rs1, rs2, imm })->Ok_0;
            &&& (m.regs[rs1 as int] == m.regs[rs2 as int] ==> m2.pc == m.pc.wrapping_add(imm))
            &&& (m.regs[rs1 as int] != m.regs[rs2 as int] ==> m2.pc == m.pc.wrapping_add(4))
        }),
{
}

} // verus!
