//! The fetch-decode-execute cycle.
//!
//! `run` boots the machine (stack pointer, program counter, program
//! break, data segment, argument stack) and then loops: fetch the
//! instruction at the program counter from the code segment, execute
//! it, until the exit call clears the running flag or a fatal
//! condition aborts the run.  `run_spec` is that loop as a function:
//! it stops at the first halted state, at the first fatal condition,
//! or when the step budget is spent, and `run`'s contract ties both
//! its result and the final machine to it exactly.

use vstd::prelude::*;

use crate::abi::{
    arg_views, data_fits, load_data_spec, next_multiple_of_spec, stack_fits, stack_loaded_model,
};
use crate::error::EmulatorError;
use crate::machine::{EmulatorState, MachineModel, PAGE_SIZE, REG_A0, REG_SP};
use crate::program::{DecodedProgram, Instruction};
use crate::step::{execute, step_spec};

verus! {

/// The instruction the cycle fetches next: fatal when the program
/// counter is unaligned or points outside the code segment.
pub open spec fn fetch_spec(prog: DecodedProgram, m: MachineModel) -> Result<
    Instruction,
    EmulatorError,
> {
    if m.pc % 4 != 0 {
        Err(EmulatorError::AlignmentViolation)
    } else if m.pc < prog.code_address {
        Err(EmulatorError::OutOfRangeAccess)
    } else if (m.pc - prog.code_address) / 4 >= prog.code@.len() {
        Err(EmulatorError::OutOfRangeAccess)
    } else {
        Ok(prog.code@[(m.pc - prog.code_address) as int / 4])
    }
}

/// Fetches the instruction at the current program counter.
pub fn fetch_and_decode(state: &EmulatorState, program: &DecodedProgram) -> (r: Result<
    Instruction,
    EmulatorError,
>)
    requires
        state.wf(),
    ensures
        r == fetch_spec(*program, state@),
{
    if state.program_counter % 4 != 0 {
        return Err(EmulatorError::AlignmentViolation);
    }
    if state.program_counter < program.code_address {
        return Err(EmulatorError::OutOfRangeAccess);
    }
    let offset = state.program_counter - program.code_address;
    let idx = offset / 4;
    if idx >= program.code.len() as u64 {
        return Err(EmulatorError::OutOfRangeAccess);
    }
    Ok(program.code[idx as usize])
}

/// One turn of the cycle: fetch, then execute.
pub open spec fn step_once(prog: DecodedProgram, m: MachineModel) -> Result<
    MachineModel,
    EmulatorError,
> {
    match fetch_spec(prog, m) {
        Ok(instr) => step_spec(m, instr),
        Err(e) => Err(e),
    }
}

/// The cycle run to its end from machine `m` with `fuel` turns of
/// budget left, paired with the machine it stops in: a halted machine
/// stops at once with the exit code read from `a0`; a spent budget
/// stops with no outcome and the machine still running; otherwise one
/// turn runs, stopping at its fatal condition if it has one, and the
/// cycle continues on its successor.
pub open spec fn run_spec(prog: DecodedProgram, m: MachineModel, fuel: nat) -> (Result<
    Option<u64>,
    EmulatorError,
>, MachineModel)
    decreases fuel,
{
    if !m.running {
        (Ok(Some(m.regs[10])), m)
    } else if fuel == 0 {
        (Ok(None), m)
    } else {
        match step_once(prog, m) {
            Ok(m2) => run_spec(prog, m2, (fuel - 1) as nat),
            Err(e) => (Err(e), m),
        }
    }
}

/// The machine as the ABI initializer leaves it: stack pointer at the
/// top of memory, program counter at the code base, break at the
/// page-aligned end of the data segment, data segment copied in,
/// argument block on the stack, running.
pub open spec fn boot_model(m: MachineModel, prog: DecodedProgram, av: Seq<Seq<u8>>) -> MachineModel {
    let top = (m.mem.len() * 8) as u64;
    let booted = MachineModel {
        regs: m.regs.update(2, top),
        pc: prog.code_address,
        brk: next_multiple_of_spec(prog.data_end(), PAGE_SIZE as int) as u64,
        mem: load_data_spec(m.mem, prog.data_address, prog.data@),
        ..m
    };
    MachineModel { running: true, ..stack_loaded_model(booted, av) }
}

/// Whether booting succeeds: the data segment and the argument block
/// both fit in memory.
pub open spec fn boot_fits(m: MachineModel, prog: DecodedProgram, av: Seq<Seq<u8>>) -> bool {
    let top = (m.mem.len() * 8) as u64;
    let booted = MachineModel {
        regs: m.regs.update(2, top),
        pc: prog.code_address,
        brk: next_multiple_of_spec(prog.data_end(), PAGE_SIZE as int) as u64,
        mem: load_data_spec(m.mem, prog.data_address, prog.data@),
        ..m
    };
    data_fits(m, prog) && stack_fits(booted, av)
}

impl EmulatorState {
    /// Boots the machine for `program` with arguments `argv` and runs
    /// the cycle until the exit call halts it, a fatal condition
    /// aborts it, or `max_steps` instructions have been executed (the
    /// host passes as many steps as it is willing to emulate).
    ///
    /// A boot that does not fit in memory is fatal; otherwise both the
    /// result and the final machine are exactly what `run_spec` yields
    /// from the booted state.  So on exit the result carries the exit
    /// code (the value of `a0` at the exit call) and the machine is
    /// halted; an exhausted budget carries no outcome and leaves the
    /// machine running; and a fatal condition is the first one the
    /// running trace meets, with the machine as that step left it.
    pub fn run(&mut self, program: &DecodedProgram, argv: &Vec<Vec<u8>>, max_steps: u64) -> (r:
        Result<Option<u64>, EmulatorError>)
        requires
            old(self).wf(),
            program.wf(),
        ensures
            final(self).wf(),
            !boot_fits(old(self)@, *program, arg_views(argv@)) ==> r == Err::<
                Option<u64>,
                EmulatorError,
            >(EmulatorError::OutOfRangeAccess),
            boot_fits(old(self)@, *program, arg_views(argv@)) ==> r == run_spec(
                *program,
                boot_model(old(self)@, *program, arg_views(argv@)),
                max_steps as nat,
            ).0 && final(self)@ == run_spec(
                *program,
                boot_model(old(self)@, *program, arg_views(argv@)),
                max_steps as nat,
            ).1,
    {
        let sp_value = (self.memory.len() as u64) * 8;
        self.set_reg(REG_SP, sp_value);
        self.program_counter = program.code_address;
        self.program_break = crate::abi::initial_program_break(program);
        match self.load_data_segment(program) {
            Ok(()) => {},
            Err(e) => {
                return Err(e);
            },
        }
        proof {
            let ml = old(self)@.mem.len() as int;
            assert((ml * 8) % 8 == 0) by (nonlinear_arith);
            assert(sp_value % 8 == 0);
        }
        match self.load_stack_segment(argv) {
            Ok(()) => {},
            Err(e) => {
                return Err(e);
            },
        }
        self.running = true;

        let ghost m0 = boot_model(old(self)@, *program, arg_views(argv@));
        proof {
            assert(self@ == m0);
        }
        let mut steps_done: u64 = 0;
        while self.running && steps_done < max_steps
            invariant
                self.wf(),
                program.wf(),
                boot_fits(old(self)@, *program, arg_views(argv@)),
                m0 == boot_model(old(self)@, *program, arg_views(argv@)),
                steps_done <= max_steps,
                run_spec(*program, m0, max_steps as nat) == run_spec(
                    *program,
                    self@,
                    (max_steps - steps_done) as nat,
                ),
            decreases max_steps - steps_done,
        {
            let ghost pre = self@;
            let ghost fuel = (max_steps - steps_done) as nat;
            let instr = match fetch_and_decode(self, program) {
                Ok(instr) => instr,
                Err(e) => {
                    proof {
                        assert(run_spec(*program, pre, fuel) == (Err::<Option<u64>, EmulatorError>(
                            e,
                        ), pre));
                    }
                    return Err(e);
                },
            };
            proof {
                assert(instr.wf());
            }
            match execute(self, instr) {
                Ok(()) => {
                    steps_done += 1;
                    proof {
                        assert(run_spec(*program, pre, fuel) == run_spec(
                            *program,
                            self@,
                            (fuel - 1) as nat,
                        ));
                    }
                },
                Err(e) => {
                    proof {
                        assert(run_spec(*program, pre, fuel) == (Err::<Option<u64>, EmulatorError>(
                            e,
                        ), pre));
                    }
                    return Err(e);
                },
            }
        }
        if self.running {
            proof {
                assert(run_spec(*program, self@, (max_steps - steps_done) as nat) == (Ok::<
                    Option<u64>,
                    EmulatorError,
                >(None), self@));
            }
            Ok(None)
        } else {
            proof {
                assert(run_spec(*program, self@, (max_steps - steps_done) as nat) == (Ok::<
                    Option<u64>,
                    EmulatorError,
                >(Some(self@.regs[10])), self@));
            }
            Ok(Some(self.get_reg(REG_A0)))
        }
    }
}

} // verus!

