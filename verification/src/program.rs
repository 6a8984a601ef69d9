//! The decoded program image: instructions and the initial data segment.
//!
//! Decoding a binary image into this form is the decoder's business and
//! happens outside the library; the emulator consumes the result.  An
//! instruction carries its operand fields only: register identifiers as
//! plain indices into the register file, and immediates already
//! sign-extended to 64 bits by the decoder (except for `Lui`, whose
//! 20-bit immediate is shifted and sign-extended by the execution rule
//! itself).

use vstd::prelude::*;

verus! {

/// How many general-purpose registers the machine has.
pub const NUMBER_OF_REGISTERS: usize = 32;

/// One decoded instruction of the RISC-U subset.
///
/// `rd`, `rs1` and `rs2` index the register file; the decoder
/// guarantees they are in range, and that `rd` is non-zero wherever the
/// execution rule writes it unconditionally (`Jal` and `Jalr` may name
/// the zero register, in which case the write is discarded).
#[derive(Clone, Copy, Debug, PartialEq, Eq, Structural)]
#[allow(inconsistent_fields)]
pub enum Instruction {
    Lui { rd: usize, imm: u32 },
    Jal { rd: usize, imm: u64 },
    Jalr { rd: usize, rs1: usize, imm: u64 },
    Beq { rs1: usize, rs2: usize, imm: u64 },
    Ld { rd: usize, rs1: usize, imm: u64 },
    Sd { rs1: usize, rs2: usize, imm: u64 },
    Addi { rd: usize, rs1: usize, imm: u64 },
    Add { rd: usize, rs1: usize, rs2: usize },
    Sub { rd: usize, rs1: usize, rs2: usize },
    Sltu { rd: usize, rs1: usize, rs2: usize },
    Mul { rd: usize, rs1: usize, rs2: usize },
    Divu { rd: usize, rs1: usize, rs2: usize },
    Remu { rd: usize, rs1: usize, rs2: usize },
    Ecall,
}

impl Instruction {
    /// What decode guarantees of an instruction's operand fields.
    pub open spec fn wf(self) -> bool {
        match self {
            Instruction::Lui { rd, imm } => 0 < rd < 32,
            Instruction::Jal { rd, imm } => rd < 32,
            Instruction::Jalr { rd, rs1, imm } => rd < 32 && rs1 < 32,
            Instruction::Beq { rs1, rs2, imm } => rs1 < 32 && rs2 < 32,
            Instruction::Ld { rd, rs1, imm } => 0 < rd < 32 && rs1 < 32,
            Instruction::Sd { rs1, rs2, imm } => rs1 < 32 && rs2 < 32,
            Instruction::Addi { rd, rs1, imm } => 0 < rd < 32 && rs1 < 32,
            Instruction::Add { rd, rs1, rs2 } => 0 < rd < 32 && rs1 < 32 && rs2 < 32,
            Instruction::Sub { rd, rs1, rs2 } => 0 < rd < 32 && rs1 < 32 && rs2 < 32,
            Instruction::Sltu { rd, rs1, rs2 } => 0 < rd < 32 && rs1 < 32 && rs2 < 32,
            Instruction::Mul { rd, rs1, rs2 } => 0 < rd < 32 && rs1 < 32 && rs2 < 32,
            Instruction::Divu { rd, rs1, rs2 } => 0 < rd < 32 && rs1 < 32 && rs2 < 32,
            Instruction::Remu { rd, rs1, rs2 } => 0 < rd < 32 && rs1 < 32 && rs2 < 32,
            Instruction::Ecall => true,
        }
    }
}

/// The decoded program image: a code segment (base address plus the
/// decoded instructions, four bytes apart) and a data segment (base
/// address plus the initial memory words).  The code segment is never
/// copied into memory; instructions are fetched from it by address.
pub struct DecodedProgram {
    pub code_address: u64,
    pub code: Vec<Instruction>,
    pub data_address: u64,
    pub data: Vec<u64>,
}

impl DecodedProgram {
    /// The first byte address past the data segment.
    pub open spec fn data_end(self) -> int {
        self.data_address + self.data@.len() * 8
    }

    /// What the emulator asks of a decoded image: every instruction's
    /// operands in range, and the data segment placed so that the
    /// page-aligned initial program break still fits in an address.
    pub open spec fn wf(self) -> bool {
        &&& forall|i: int| 0 <= i < self.code@.len() ==> (#[trigger] self.code@[i]).wf()
        &&& self.data_end() + 4095 <= u64::MAX
    }
}

} // verus!
