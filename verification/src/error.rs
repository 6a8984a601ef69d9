//! The closed set of fatal conditions that abort a run.

use vstd::prelude::*;

verus! {

/// A fatal condition met while initializing or running the machine.
///
/// The emulator defines no recoverable-error path: every variant aborts
/// the run immediately and is propagated up to the run boundary, where
/// the host decides how to report it.
#[derive(Clone, Copy, Debug, PartialEq, Eq, Structural)]
pub enum EmulatorError {
    /// The program counter or a requested break address misses its
    /// required alignment boundary.
    AlignmentViolation,
    /// A computed address maps outside the memory array, or an
    /// instruction fetch falls outside the code segment.
    OutOfRangeAccess,
    /// A zero divisor was handed to unsigned divide or remainder.
    DivisionByZero,
    /// A recognized-but-unimplemented or entirely unknown call number.
    UnsupportedSyscall,
    /// A write directed at a file descriptor other than standard output.
    UnsupportedFileDescriptor,
}

} // verus!
