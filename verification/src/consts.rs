//! Project wide constant definitions.
//!
//! The machine is built in its integer configuration: words are signed
//! 32 bit integers, instructions are bytes and jump targets are 16 bit
//! addresses.
use vstd::prelude::*;

verus! {

/// Maximum stack size in words.
///
/// Performance suffers when this is not a power of two.
pub const MAX_STACK: usize = 256;

/// Maximum number of words that a program can output.
///
/// If more values than these are output the oldest are discarded.
/// This behaviour is the same as the stack machine's main stack.
pub const MAX_OUTPUT: usize = 16;

/// Hard limit on the number of instructions a program may execute
/// (the largest [`Address`]).
pub const MAX_INSTRUCTIONS: usize = 65535;

/// The type used to fill the stack and do calculations with.
///
/// It is a signed integer, so the float-only instructions (`Round`, `Trunc`,
/// `Ceil`, `Floor`) do nothing, `JmpAprxZero` behaves like `JmpZero` and
/// `JmpFin` like `Jmp`. Every sequence of four bytes is a valid value.
pub type MachineWord = i32;

/// Bytes in a [`MachineWord`].
pub const WORD_SIZE: usize = 4;

/// Type used to encode bytecode instructions.
pub type Instruction = u8;

/// Bytes in an [`Instruction`].
pub const INSTRUCTION_SIZE: usize = 1;

/// Number of elements of the program needed to construct one [`MachineWord`] immediate value.
pub const INSTR_PER_WORD: usize = WORD_SIZE / INSTRUCTION_SIZE;

/// Type used to encode jump targets. This limits programs to 65535 instructions.
pub type Address = u16;

/// Bytes in an [`Address`].
pub const ADDRESS_SIZE: usize = 2;

/// Number of elements of the program needed to construct one [`Address`] jump target.
pub const INSTR_PER_ADDRESS: usize = ADDRESS_SIZE / INSTRUCTION_SIZE;

} // verus!
