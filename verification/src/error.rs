//! The ways in which the machine can fault.

use vstd::prelude::*;

verus! {

/// A fault raised by the store or the engine.
#[derive(Clone, Copy, Debug, PartialEq, Eq, Structural)]
pub enum VmError {
    /// The opcode is not in the instruction table.
    DecodeMiss,
    /// A return was executed with an empty call stack.
    StackUnderflow,
    /// A call was executed with a full call stack.
    StackOverflow,
    /// A register index, a memory address or a program counter lies outside
    /// its valid range.
    OutOfBounds,
}

} // verus!
