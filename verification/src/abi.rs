//! The ABI initializer: data-segment loading, the initial program
//! break, and the Unix-like argument layout on the stack.
//!
//! Before the cycle starts, the stack pointer is set to the top of the
//! simulated address space, the data segment is copied into memory,
//! and the process arguments are laid out so that memory read upward
//! from the final stack pointer holds `argc`, the `argv` pointers in
//! order, two zero terminator words (argument and environment vector),
//! and then the argument strings themselves, each NUL-terminated and
//! padded to whole words, in little-endian byte order.

use vstd::arithmetic::div_mod::{lemma_fundamental_div_mod, lemma_hoist_over_denominator, lemma_mod_bound};
use vstd::prelude::*;

use crate::error::EmulatorError;
use crate::machine::{EmulatorState, MachineModel, PAGE_SIZE, REG_SP};
use crate::program::DecodedProgram;

verus! {

/// `value` rounded up to the next multiple of `align`.
pub open spec fn next_multiple_of_spec(value: int, align: int) -> int {
    ((value + align - 1) / align) * align
}

/// Rounds `value` up to the next multiple of `align`.
pub fn next_multiple_of(value: u64, align: u64) -> (r: u64)
    requires
        align > 0,
        value + align <= u64::MAX + 1,
    ensures
        r == next_multiple_of_spec(value as int, align as int),
{
    let x = value + (align - 1);
    let q = x / align;
    proof {
        lemma_fundamental_div_mod(x as int, align as int);
        lemma_mod_bound(x as int, align as int);
        assert(align as int * (q as int) == q as int * align as int) by (nonlinear_arith);
    }
    q * align
}

/// The initial program break: the end of the data segment, rounded up
/// to the next page boundary.
pub fn initial_program_break(program: &DecodedProgram) -> (r: u64)
    requires
        program.wf(),
    ensures
        r == next_multiple_of_spec(program.data_end(), PAGE_SIZE as int),
{
    let data_size = (program.data.len() as u64) * 8;
    let data_end = program.data_address + data_size;
    next_multiple_of(data_end, PAGE_SIZE)
}

/// Memory after the data segment is copied in: word `data[i]` lands at
/// byte address `base + 8*i`, everything else is untouched.
pub open spec fn load_data_spec(mem: Seq<u64>, base: u64, data: Seq<u64>) -> Seq<u64> {
    Seq::new(
        mem.len(),
        |j: int|
            if base as int / 8 <= j < base as int / 8 + data.len() {
                data[j - base as int / 8]
            } else {
                mem[j]
            },
    )
}

/// Whether the whole data segment lands inside memory.
pub open spec fn data_fits(m: MachineModel, prog: DecodedProgram) -> bool {
    prog.data@.len() == 0 || prog.data_address as int / 8 + prog.data@.len() <= m.mem.len()
}

/// `(b + 8*i) / 8 == b/8 + i`: adding whole words to an address moves
/// the word index by as much.
proof fn lemma_word_index(b: int, i: int)
    requires
        b >= 0,
        i >= 0,
    ensures
        (b + 8 * i) / 8 == b / 8 + i,
{
    lemma_hoist_over_denominator(b, i, 8);
}

impl EmulatorState {
    /// Copies the data segment into memory at its addresses; a segment
    /// reaching outside memory is fatal and leaves the state
    /// unchanged.
    pub fn load_data_segment(&mut self, program: &DecodedProgram) -> (r: Result<
        (),
        EmulatorError,
    >)
        requires
            old(self).wf(),
            program.wf(),
        ensures
            final(self).wf(),
            data_fits(old(self)@, *program) ==> r == Ok::<(), EmulatorError>(()) && final(self)@
                == (MachineModel {
                mem: load_data_spec(old(self)@.mem, program.data_address, program.data@),
                ..old(self)@
            }),
            !data_fits(old(self)@, *program) ==> r == Err::<(), EmulatorError>(
                EmulatorError::OutOfRangeAccess,
            ) && final(self)@ == old(self)@,
    {
        let words = program.data.len();
        let base = program.data_address;
        if words > 0 {
            let last_index = base / 8 + (words as u64 - 1);
            if last_index >= self.memory.len() as u64 {
                return Err(EmulatorError::OutOfRangeAccess);
            }
        }
        let ghost base_w = base as int / 8;
        proof {
            assert(self@.mem =~= Seq::new(
                old(self)@.mem.len(),
                |j: int|
                    if base_w <= j < base_w {
                        program.data@[j - base_w]
                    } else {
                        old(self)@.mem[j]
                    },
            ));
        }
        let mut i: usize = 0;
        while i < words
            invariant
                old(self).wf(),
                self.wf(),
                program.wf(),
                data_fits(old(self)@, *program),
                i <= words,
                words == program.data@.len(),
                base == program.data_address,
                base_w == base as int / 8,
                self@ == (MachineModel {
                    mem: Seq::new(
                        old(self)@.mem.len(),
                        |j: int|
                            if base_w <= j < base_w + i {
                                program.data@[j - base_w]
                            } else {
                                old(self)@.mem[j]
                            },
                    ),
                    ..old(self)@
                }),
            decreases words - i,
        {
            proof {
                lemma_word_index(base as int, i as int);
                assert(8 * (i as int) <= 8 * (words - 1)) by {
                    assert(i as int <= words - 1);
                }
            }
            let adr = base + 8 * (i as u64);
            let val = program.data[i];
            match self.set_mem(adr, val) {
                Ok(()) => {},
                Err(_e) => {
                    proof {
                        assert(false);
                    }
                    return Err(EmulatorError::OutOfRangeAccess);
                },
            }
            i += 1;
            proof {
                assert(self@.mem =~= Seq::new(
                    old(self)@.mem.len(),
                    |j: int|
                        if base_w <= j < base_w + i {
                            program.data@[j - base_w]
                        } else {
                            old(self)@.mem[j]
                        },
                ));
            }
        }
        proof {
            assert(self@.mem =~= load_data_spec(old(self)@.mem, program.data_address,
            program.data@));
        }
        Ok(())
    }
}

/// The views of the argument byte strings.
pub open spec fn arg_views(argv: Seq<Vec<u8>>) -> Seq<Seq<u8>> {
    argv.map_values(|a: Vec<u8>| a@)
}

/// How many words one argument occupies on the stack: its bytes plus
/// at least one and at most eight NUL bytes of padding, in whole
/// words.
pub open spec fn arg_word_count(arg: Seq<u8>) -> int {
    arg.len() as int / 8 + 1
}

/// Word `j` of an argument's stack representation: eight little-endian
/// bytes, NUL-padded past the end of the string.
pub open spec fn arg_word(arg: Seq<u8>, j: int) -> u64 {
    vstd::bytes::spec_u64_from_le_bytes(
        Seq::new(
            8,
            |k: int|
                if 8 * j + k < arg.len() {
                    arg[8 * j + k]
                } else {
                    0u8
                },
        ),
    )
}

/// An argument's full stack representation, lowest-address word first.
pub open spec fn arg_words(arg: Seq<u8>) -> Seq<u64> {
    Seq::new(arg_word_count(arg) as nat, |j: int| arg_word(arg, j))
}

/// The stack representations of the first `i` arguments, concatenated
/// in argument order.
pub open spec fn args_words_upto(av: Seq<Seq<u8>>, i: int) -> Seq<u64>
    decreases i,
{
    if i <= 0 || i > av.len() {
        Seq::empty()
    } else {
        args_words_upto(av, i - 1) + arg_words(av[i - 1])
    }
}

/// The stack representations of all arguments, concatenated in
/// argument order: how the string block reads in increasing memory
/// order.
pub open spec fn args_words(av: Seq<Seq<u8>>) -> Seq<u64> {
    args_words_upto(av, av.len() as int)
}

/// The whole block the initializer lays at the top of the stack, read
/// in increasing memory order from the final stack pointer: `argc`,
/// the `argv` pointers in argument order, one zero word terminating
/// the argument vector, one terminating the (empty) environment
/// vector, then the string block.  `sp_start` is the stack pointer
/// before the block is pushed; pointer `i` addresses the first word of
/// argument `i`'s string.
pub open spec fn stack_image(av: Seq<Seq<u8>>, sp_start: int) -> Seq<u64> {
    seq![av.len() as u64] + Seq::new(
        av.len(),
        |i: int| (sp_start - 8 * (args_words(av).len() - args_words_upto(av, i).len())) as u64,
    ) + seq![0u64, 0u64] + args_words(av)
}

/// Whether the whole argument block fits below the stack pointer.
pub open spec fn stack_fits(m: MachineModel, av: Seq<Seq<u8>>) -> bool {
    8 * stack_image(av, m.regs[2] as int).len() <= m.regs[2]
}

/// The machine after the argument block is pushed: the stack pointer
/// drops by the block's size and the block sits between the new and
/// the old stack pointer; nothing else changes.
pub open spec fn stack_loaded_model(m: MachineModel, av: Seq<Seq<u8>>) -> MachineModel {
    let sp_start = m.regs[2] as int;
    let img = stack_image(av, sp_start);
    let base = sp_start / 8 - img.len();
    MachineModel {
        regs: m.regs.update(2, (sp_start - 8 * img.len()) as u64),
        mem: Seq::new(
            m.mem.len(),
            |j: int|
                if base <= j < sp_start / 8 {
                    img[j - base]
                } else {
                    m.mem[j]
                },
        ),
        ..m
    }
}

/// Reads word `j` of the argument's stack representation.
fn arg_word_at(arg: &Vec<u8>, j: usize) -> (w: u64)
    requires
        j <= arg@.len() / 8,
    ensures
        w == arg_word(arg@, j as int),
{
    let len = arg.len();
    proof {
        lemma_fundamental_div_mod(len as int, 8);
        lemma_mod_bound(len as int, 8);
        assert(8 * (j as int) <= len as int);
    }
    let base = 8 * j;
    let avail = len - base;
    let mut buf: Vec<u8> = Vec::new();
    let mut t: usize = 0;
    while t < 8
        invariant
            base == 8 * j,
            base <= arg@.len(),
            avail == arg@.len() - base,
            t <= 8,
            buf@.len() == t,
            forall|s: int|
                0 <= s < t ==> buf@[s] == (if 8 * (j as int) + s < arg@.len() {
                    arg@[8 * (j as int) + s]
                } else {
                    0u8
                }),
        decreases 8 - t,
    {
        let b: u8 = if t < avail {
            arg[base + t]
        } else {
            0
        };
        buf.push(b);
        t += 1;
    }
    let w = vstd::bytes::u64_from_le_bytes(buf.as_slice());
    proof {
        assert(buf@ =~= Seq::new(
            8,
            |k: int|
                if 8 * (j as int) + k < arg@.len() {
                    arg@[8 * (j as int) + k]
                } else {
                    0u8
                },
        ));
    }
    w
}

impl EmulatorState {
    /// Lays the argument block out on the stack.  Requires a
    /// word-aligned stack pointer no higher than the top of memory; a
    /// block too large for the stack is fatal and leaves the state
    /// unchanged.
    pub fn load_stack_segment(&mut self, argv: &Vec<Vec<u8>>) -> (r: Result<(), EmulatorError>)
        requires
            old(self).wf(),
            old(self)@.regs[2] % 8 == 0,
            old(self)@.regs[2] <= old(self)@.mem.len() * 8,
        ensures
            final(self).wf(),
            stack_fits(old(self)@, arg_views(argv@)) ==> r == Ok::<(), EmulatorError>(())
                && final(self)@ == stack_loaded_model(old(self)@, arg_views(argv@)),
            !stack_fits(old(self)@, arg_views(argv@)) ==> r == Err::<(), EmulatorError>(
                EmulatorError::OutOfRangeAccess,
            ) && final(self)@ == old(self)@,
    {
        let ghost av = arg_views(argv@);
        let n = argv.len();
        let sp_start = self.get_reg(REG_SP);

        // The string block, in increasing memory order.
        let mut strings: Vec<u64> = Vec::new();
        let mut i: usize = 0;
        while i < n
            invariant
                av == arg_views(argv@),
                n == argv@.len(),
                i <= n,
                strings@ == args_words_upto(av, i as int),
            decreases n - i,
        {
            let arg = &argv[i];
            let nw = arg.len() / 8 + 1;
            let ghost strings_before = strings@;
            let mut j: usize = 0;
            while j < nw
                invariant
                    av == arg_views(argv@),
                    n == argv@.len(),
                    i < n,
                    arg == argv@[i as int],
                    nw == arg_word_count(arg@),
                    j <= nw,
                    strings@ == strings_before + Seq::new(j as nat, |jj: int| arg_word(arg@, jj)),
                decreases nw - j,
            {
                let w = arg_word_at(arg, j);
                strings.push(w);
                j += 1;
                proof {
                    assert(strings@ =~= strings_before + Seq::new(
                        j as nat,
                        |jj: int| arg_word(arg@, jj),
                    ));
                }
            }
            i += 1;
            proof {
                assert(av[i - 1] == arg@);
                assert(Seq::new(nw as nat, |jj: int| arg_word(arg@, jj)) =~= arg_words(av[i - 1]));
                assert(strings@ =~= args_words_upto(av, i as int));
            }
        }
        proof {
            assert(strings@ == args_words(av));
        }

        // Room check, before anything is written.
        let total: usize = strings.len();
        let ghost img = stack_image(av, sp_start as int);
        proof {
            assert(img.len() == 3 + n + total);
        }
        let img_words: u64 = match (total as u64).checked_add(n as u64) {
            Some(s) => match s.checked_add(3) {
                Some(w) => w,
                None => {
                    return Err(EmulatorError::OutOfRangeAccess);
                },
            },
            None => {
                return Err(EmulatorError::OutOfRangeAccess);
            },
        };
        if img_words > sp_start / 8 {
            proof {
                lemma_fundamental_div_mod(sp_start as int, 8);
            }
            return Err(EmulatorError::OutOfRangeAccess);
        }
        proof {
            lemma_fundamental_div_mod(sp_start as int, 8);
            assert(8 * img.len() <= sp_start);
        }

        // The whole block, in increasing memory order.
        let mut image: Vec<u64> = Vec::new();
        image.push(n as u64);
        let mut prefix: u64 = 0;
        let mut i2: usize = 0;
        while i2 < n
            invariant
                av == arg_views(argv@),
                n == argv@.len(),
                i2 <= n,
                total == args_words(av).len(),
                total as u64 + n as u64 + 3 == img_words,
                8 * img_words <= sp_start,
                prefix == args_words_upto(av, i2 as int).len(),
                prefix <= total,
                image@ == seq![n as u64] + Seq::new(
                    i2 as nat,
                    |i: int| (sp_start - 8 * (args_words(av).len() - args_words_upto(
                        av,
                        i,
                    ).len())) as u64,
                ),
            decreases n - i2,
        {
            let ptr = sp_start - 8 * (total as u64 - prefix);
            image.push(ptr);
            let aw = (argv[i2].len() as u64) / 8 + 1;
            proof {
                assert(args_words_upto(av, i2 as int + 1) == args_words_upto(av, i2 as int)
                    + arg_words(av[i2 as int]));
                assert(arg_words(av[i2 as int]).len() == arg_word_count(argv@[i2 as int]@));
                assert(args_words_upto(av, i2 as int + 1).len() <= args_words(av).len()) by {
                    lemma_args_words_upto_len_mono(av, i2 as int + 1, n as int);
                }
            }
            prefix = prefix + aw;
            i2 += 1;
            proof {
                assert(image@ =~= seq![n as u64] + Seq::new(
                    i2 as nat,
                    |i: int| (sp_start - 8 * (args_words(av).len() - args_words_upto(
                        av,
                        i,
                    ).len())) as u64,
                ));
            }
        }
        image.push(0);
        image.push(0);
        image.append(&mut strings);
        proof {
            assert(image@ =~= img);
        }

        // Push the block, highest-address word first.
        let m = image.len();
        let ghost base = sp_start as int / 8 - m;
        let mut k: usize = m;
        while k > 0
            invariant
                old(self).wf(),
                self.wf(),
                k <= m,
                m == image@.len(),
                image@ == img,
                img == stack_image(av, sp_start as int),
                base == sp_start as int / 8 - m,
                sp_start == old(self)@.regs[2],
                sp_start % 8 == 0,
                sp_start <= old(self)@.mem.len() * 8,
                8 * m <= sp_start,
                self@.regs =~= old(self)@.regs.update(2, (sp_start - 8 * (m - k)) as u64),
                self@.mem.len() == old(self)@.mem.len(),
                forall|j: int|
                    base + k <= j < sp_start as int / 8 ==> self@.mem[j] == img[j - base],
                forall|j: int|
                    (0 <= j < base + k || sp_start as int / 8 <= j < self@.mem.len())
                        ==> self@.mem[j] == old(self)@.mem[j],
                self@.pc == old(self)@.pc,
                self@.brk == old(self)@.brk,
                self@.running == old(self)@.running,
                self@.output == old(self)@.output,
            decreases k,
        {
            k -= 1;
            let w = image[k];
            proof {
                lemma_fundamental_div_mod(sp_start as int, 8);
                let sp_now = sp_start as int - 8 * (m - k - 1);
                lemma_word_index(sp_now - 8, 0);
            }
            match self.push_stack(w) {
                Ok(()) => {},
                Err(_e) => {
                    proof {
                        assert(false);
                    }
                    return Err(EmulatorError::OutOfRangeAccess);
                },
            }
            proof {
                assert(self@.regs =~= old(self)@.regs.update(
                    2,
                    (sp_start - 8 * (m - k)) as u64,
                ));
                let sp_new = sp_start as int - 8 * (m - k);
                assert(sp_new / 8 == base + k) by {
                    lemma_fundamental_div_mod(sp_start as int, 8);
                    lemma_hoist_over_denominator(sp_start as int, -(m - k), 8);
                }
            }
        }
        proof {
            let model = stack_loaded_model(old(self)@, av);
            lemma_fundamental_div_mod(sp_start as int, 8);
            assert(self@.mem =~= model.mem);
            assert(self@.regs =~= model.regs);
            assert(self@ == model);
        }
        Ok(())
    }
}

/// The word count of a prefix of the argument list never exceeds that
/// of a longer prefix.
proof fn lemma_args_words_upto_len_mono(av: Seq<Seq<u8>>, i: int, j: int)
    requires
        0 <= i <= j <= av.len(),
    ensures
        args_words_upto(av, i).len() <= args_words_upto(av, j).len(),
    decreases j - i,
{
    if i < j {
        lemma_args_words_upto_len_mono(av, i, j - 1);
        assert(args_words_upto(av, j) == args_words_upto(av, j - 1) + arg_words(av[j - 1]));
    }
}

} // verus!
