//! A tiny stack machine where every sequence of bytes is a valid program.
pub mod consts;
pub mod disassembler;
pub mod file;
pub mod instr;
pub mod interpreter;
pub mod numeric;
pub mod stack;
pub mod text;
pub mod util;
pub mod laws;
