//! A functional emulator for a reduced 64-bit RISC-V subset (RISC-U).
//!
//! The library models a flat machine (32 general-purpose registers, a
//! byte-addressed word memory, a program counter and a program break),
//! initializes the Unix-like process ABI on the stack, and executes a
//! previously decoded program image instruction by instruction.  The
//! emulated system-call layer supports program exit, writes to standard
//! output (collected as a byte sequence for the host to forward) and
//! heap-break adjustment.  Every fatal condition is reported as a value
//! of a closed error type rather than by panicking.

pub mod abi;
pub mod cycle;
pub mod error;
pub mod laws;
pub mod machine;
pub mod program;
pub mod step;
