//! The machine state and its primitive accessors.
//!
//! A single mutable state owns the register file, the word memory, the
//! program counter, the program break and the running flag, plus the
//! bytes the emulated write call has sent to standard output so far
//! (the host forwards them after the run).  Addresses are byte offsets;
//! memory is indexed by `address / 8`.

use vstd::prelude::*;

use crate::error::EmulatorError;
use crate::program::NUMBER_OF_REGISTERS;

verus! {

/// The width of every register and memory word, in bits' worth: u64.
pub type EmulatorValue = u64;

/// Identifier of the hard-wired zero register.
pub const REG_ZERO: usize = 0;
/// Identifier of the stack-pointer register.
pub const REG_SP: usize = 2;
/// First system-call argument and return-value register.
pub const REG_A0: usize = 10;
/// Second system-call argument register.
pub const REG_A1: usize = 11;
/// Third system-call argument register.
pub const REG_A2: usize = 12;
/// The register holding the system-call number.
pub const REG_A7: usize = 17;

/// Bytes per instruction; the program counter moves in these steps.
pub const INSTRUCTION_SIZE: u64 = 4;
/// Bytes per memory word and per register value.
pub const WORD_SIZE: u64 = 8;
/// The alignment of the initial program break.
pub const PAGE_SIZE: u64 = 4096;

/// The mathematical value of a machine state.
pub ghost struct MachineModel {
    pub regs: Seq<u64>,
    pub mem: Seq<u64>,
    pub pc: u64,
    pub brk: u64,
    pub running: bool,
    pub output: Seq<u8>,
}

impl MachineModel {
    /// The state invariant: a full register file whose zero register
    /// reads zero, and a memory small enough that every byte has an
    /// address.
    pub open spec fn wf(self) -> bool {
        &&& self.regs.len() == NUMBER_OF_REGISTERS
        &&& self.regs[0] == 0
        &&& self.mem.len() * 8 <= u64::MAX
    }

    /// The memory word holding byte address `adr`.
    pub open spec fn word_at(self, adr: u64) -> u64 {
        self.mem[adr as int / 8]
    }

    /// Whether byte address `adr` falls inside memory.
    pub open spec fn in_memory(self, adr: u64) -> bool {
        adr as int / 8 < self.mem.len()
    }
}

/// The machine state: register file, word memory, program counter,
/// program break, running flag, and the output bytes collected so far.
pub struct EmulatorState {
    pub registers: Vec<EmulatorValue>,
    pub memory: Vec<EmulatorValue>,
    pub program_counter: EmulatorValue,
    pub program_break: EmulatorValue,
    pub running: bool,
    pub output: Vec<u8>,
}

impl View for EmulatorState {
    type V = MachineModel;

    open spec fn view(&self) -> MachineModel {
        MachineModel {
            regs: self.registers@,
            mem: self.memory@,
            pc: self.program_counter,
            brk: self.program_break,
            running: self.running,
            output: self.output@,
        }
    }
}

impl EmulatorState {
    /// The state invariant, lifted to the executable type.
    pub open spec fn wf(self) -> bool {
        self@.wf()
    }

    /// A fresh machine: all registers and all `memory_size / 8` memory
    /// words zero, program counter and break zero, not running, no
    /// output.
    pub fn new(memory_size: usize) -> (s: Self)
        ensures
            s.wf(),
            s@.regs =~= Seq::new(NUMBER_OF_REGISTERS as nat, |i: int| 0u64),
            s@.mem =~= Seq::new((memory_size / 8) as nat, |i: int| 0u64),
            s@.pc == 0,
            s@.brk == 0,
            !s@.running,
            s@.output =~= Seq::<u8>::empty(),
    {
        let mut registers: Vec<u64> = Vec::new();
        let mut i: usize = 0;
        while i < NUMBER_OF_REGISTERS
            invariant
                i <= NUMBER_OF_REGISTERS,
                registers@.len() == i,
                forall|j: int| 0 <= j < i ==> registers@[j] == 0u64,
            decreases NUMBER_OF_REGISTERS - i,
        {
            registers.push(0);
            i += 1;
        }
        let words: usize = memory_size / 8;
        let mut memory: Vec<u64> = Vec::new();
        let mut k: usize = 0;
        while k < words
            invariant
                k <= words,
                memory@.len() == k,
                forall|j: int| 0 <= j < k ==> memory@[j] == 0u64,
            decreases words - k,
        {
            memory.push(0);
            k += 1;
        }
        let s = EmulatorState {
            registers,
            memory,
            program_counter: 0,
            program_break: 0,
            running: false,
            output: Vec::new(),
        };
        proof {
            assert(s@.regs =~= Seq::new(NUMBER_OF_REGISTERS as nat, |i: int| 0u64));
            assert(s@.mem =~= Seq::new((memory_size / 8) as nat, |i: int| 0u64));
        }
        s
    }

    /// Reads a register.
    pub fn get_reg(&self, reg: usize) -> (v: EmulatorValue)
        requires
            self.wf(),
            reg < NUMBER_OF_REGISTERS,
        ensures
            v == self@.regs[reg as int],
    {
        self.registers[reg]
    }

    /// Writes a register other than the zero register.
    pub fn set_reg(&mut self, reg: usize, val: EmulatorValue)
        requires
            old(self).wf(),
            0 < reg < NUMBER_OF_REGISTERS,
        ensures
            final(self).wf(),
            final(self)@ == (MachineModel {
                regs: old(self)@.regs.update(reg as int, val),
                ..old(self)@
            }),
    {
        self.registers[reg] = val;
    }

    /// Writes a register, silently discarding a write to the zero
    /// register.
    pub fn set_reg_maybe(&mut self, reg: usize, val: EmulatorValue)
        requires
            old(self).wf(),
            reg < NUMBER_OF_REGISTERS,
        ensures
            final(self).wf(),
            reg == 0 ==> final(self)@ == old(self)@,
            reg != 0 ==> final(self)@ == (MachineModel {
                regs: old(self)@.regs.update(reg as int, val),
                ..old(self)@
            }),
    {
        if reg == REG_ZERO {
            return ;
        }
        self.set_reg(reg, val);
    }

    /// Reads the memory word holding byte address `adr`; out-of-range
    /// access is fatal.
    pub fn get_mem(&self, adr: EmulatorValue) -> (r: Result<EmulatorValue, EmulatorError>)
        requires
            self.wf(),
        ensures
            self@.in_memory(adr) ==> r == Ok::<u64, EmulatorError>(self@.word_at(adr)),
            !self@.in_memory(adr) ==> r == Err::<u64, EmulatorError>(
                EmulatorError::OutOfRangeAccess,
            ),
    {
        let idx = adr / 8;
        if idx < self.memory.len() as u64 {
            Ok(self.memory[idx as usize])
        } else {
            Err(EmulatorError::OutOfRangeAccess)
        }
    }

    /// Writes the memory word holding byte address `adr`; out-of-range
    /// access is fatal and leaves the state unchanged.
    pub fn set_mem(&mut self, adr: EmulatorValue, val: EmulatorValue) -> (r: Result<
        (),
        EmulatorError,
    >)
        requires
            old(self).wf(),
        ensures
            final(self).wf(),
            old(self)@.in_memory(adr) ==> r == Ok::<(), EmulatorError>(()) && final(self)@ == (
            MachineModel { mem: old(self)@.mem.update(adr as int / 8, val), ..old(self)@ }),
            !old(self)@.in_memory(adr) ==> r == Err::<(), EmulatorError>(
                EmulatorError::OutOfRangeAccess,
            ) && final(self)@ == old(self)@,
    {
        let idx = adr / 8;
        if idx < self.memory.len() as u64 {
            self.memory[idx as usize] = val;
            Ok(())
        } else {
            Err(EmulatorError::OutOfRangeAccess)
        }
    }

    /// Adds `imm` to the program counter, wrapping on overflow.
    pub fn pc_add(&mut self, imm: EmulatorValue)
        requires
            old(self).wf(),
        ensures
            final(self).wf(),
            final(self)@ == (MachineModel {
                pc: old(self)@.pc.wrapping_add(imm),
                ..old(self)@
            }),
    {
        self.program_counter = self.program_counter.wrapping_add(imm);
    }

    /// Advances the program counter past one instruction.
    pub fn pc_next(&mut self)
        requires
            old(self).wf(),
        ensures
            final(self).wf(),
            final(self)@ == (MachineModel {
                pc: old(self)@.pc.wrapping_add(4),
                ..old(self)@
            }),
    {
        self.pc_add(INSTRUCTION_SIZE);
    }

    /// Sets the program counter to `val`; an unaligned target is fatal
    /// and leaves the state unchanged.
    pub fn pc_set(&mut self, val: EmulatorValue) -> (r: Result<(), EmulatorError>)
        requires
            old(self).wf(),
        ensures
            final(self).wf(),
            val % 4 == 0 ==> r == Ok::<(), EmulatorError>(()) && final(self)@ == (MachineModel {
                pc: val,
                ..old(self)@
            }),
            val % 4 != 0 ==> r == Err::<(), EmulatorError>(EmulatorError::AlignmentViolation)
                && final(self)@ == old(self)@,
    {
        if val % 4 == 0 {
            self.program_counter = val;
            Ok(())
        } else {
            Err(EmulatorError::AlignmentViolation)
        }
    }

    /// Decrements the stack pointer by one word and stores `val` there.
    /// Running the stack below address zero or outside memory is fatal
    /// and leaves the state unchanged.
    pub fn push_stack(&mut self, val: EmulatorValue) -> (r: Result<(), EmulatorError>)
        requires
            old(self).wf(),
        ensures
            final(self).wf(),
            old(self)@.regs[2] >= 8 && old(self)@.in_memory((old(self)@.regs[2] - 8) as u64) ==> r
                == Ok::<(), EmulatorError>(()) && final(self)@ == (MachineModel {
                regs: old(self)@.regs.update(2, (old(self)@.regs[2] - 8) as u64),
                mem: old(self)@.mem.update((old(self)@.regs[2] - 8) as int / 8, val),
                ..old(self)@
            }),
            !(old(self)@.regs[2] >= 8 && old(self)@.in_memory((old(self)@.regs[2] - 8) as u64))
                ==> r == Err::<(), EmulatorError>(EmulatorError::OutOfRangeAccess) && final(self)@
                == old(self)@,
    {
        let sp = self.get_reg(REG_SP);
        if sp < 8 {
            return Err(EmulatorError::OutOfRangeAccess);
        }
        let nsp = sp - 8;
        if nsp / 8 >= self.memory.len() as u64 {
            return Err(EmulatorError::OutOfRangeAccess);
        }
        self.set_reg(REG_SP, nsp);
        match self.set_mem(nsp, val) {
            Ok(()) => Ok(()),
            Err(e) => Err(e),
        }
    }
}

} // verus!
