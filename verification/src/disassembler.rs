//! Disassemble bytecode.
//!
//! Each line shows: `address: hex_bytes  mnemonic  [value]`.
//! Immediate values are shown in decimal. Jump targets are shown as
//! zero-padded hex addresses; a target at or past the end of the program is
//! followed by `->` and the address that it is taken to modulo the program
//! length. Bytes extending past the end of the program are treated as zero.
use crate::consts::{INSTR_PER_ADDRESS, INSTR_PER_WORD, Instruction};
use crate::instr::{OpCode, decode_opcode};
use crate::interpreter::{immediate_bytes, immediate_word, instruction_or_zero};
use crate::numeric::{FormatImm, decimal_text};
use crate::text::{hex_digits, hex_text, padded, push_char, push_hex, push_hex_digits, push_padded, push_spaces, push_str, spaces};
use crate::util::{address_from_instructions, address_of, word_from_instructions};
use vstd::prelude::*;

verus! {

/// Hex digits of an address column.
pub const ADDRESS_DIGITS: usize = 4;

/// Hex digits of an instruction column.
pub const INSTRUCTION_DIGITS: usize = 2;

/// Width of the mnemonic column.
pub const MNEMONIC_WIDTH: usize = 15;

/// Characters taken by one operand byte column (` XX`).
pub const COLUMN_WIDTH: usize = INSTRUCTION_DIGITS + 1;

/// The start of every line: the address and the opcode byte.
pub open spec fn line_start(program: Seq<Instruction>, i: int) -> Seq<char> {
    hex_text(i as nat, ADDRESS_DIGITS as nat) + seq![':', ' '] + hex_digits(
        program[i] as nat,
        INSTRUCTION_DIGITS as nat,
    )
}

/// One operand byte column.
pub open spec fn byte_column(b: Instruction) -> Seq<char> {
    seq![' '] + hex_digits(b as nat, INSTRUCTION_DIGITS as nat)
}

/// The mnemonic column, preceded by its separator.
pub open spec fn mnemonic_column(op: OpCode) -> Seq<char> {
    seq![' '] + padded(op.mnemonic_of(), MNEMONIC_WIDTH as nat)
}

/// The line of a `PushImm` at `i`: its four immediate bytes and its value.
pub open spec fn immediate_line(program: Seq<Instruction>, i: int) -> Seq<char> {
    let b = immediate_bytes(program, i + 1, INSTR_PER_WORD as nat);
    line_start(program, i) + byte_column(b[0]) + byte_column(b[1]) + byte_column(b[2])
        + byte_column(b[3]) + mnemonic_column(OpCode::PushImm) + seq![' '] + decimal_text(
        immediate_word(program, i + 1),
    ) + seq!['\n']
}

/// The line of a jump at `i`: its two address bytes and its target. A target
/// at or past `program.len()` (taken as an address, modulo 2^16) is followed
/// by the target modulo that length.
pub open spec fn jump_line(program: Seq<Instruction>, i: int) -> Seq<char> {
    let b = immediate_bytes(program, i + 1, INSTR_PER_ADDRESS as nat);
    let addr = address_of(b) as int;
    let len: int = program.len() as int % 0x1_0000;
    line_start(program, i) + byte_column(b[0]) + byte_column(b[1]) + spaces(
        ((INSTR_PER_WORD - INSTR_PER_ADDRESS) * COLUMN_WIDTH) as nat,
    ) + mnemonic_column(decode_opcode(program[i])) + seq![' '] + hex_text(
        addr as nat,
        ADDRESS_DIGITS as nat,
    ) + (if addr >= len {
        seq![' ', '-', '>', ' '] + hex_text((addr % len) as nat, ADDRESS_DIGITS as nat)
    } else {
        Seq::empty()
    }) + seq!['\n']
}

/// The line of an instruction without operands at `i`.
pub open spec fn plain_line(program: Seq<Instruction>, i: int) -> Seq<char> {
    line_start(program, i) + spaces((INSTR_PER_WORD * COLUMN_WIDTH) as nat) + mnemonic_column(
        decode_opcode(program[i]),
    ) + seq!['\n']
}

/// Index of the instruction that follows the one at `i` with its operands.
pub open spec fn next_instruction(program: Seq<Instruction>, i: int) -> int {
    let op = decode_opcode(program[i]);
    if op == OpCode::PushImm {
        i + 1 + INSTR_PER_WORD
    } else if op.takes_address() {
        i + 1 + INSTR_PER_ADDRESS
    } else {
        i + 1
    }
}

/// The disassembly of the instructions from `i` on.
pub open spec fn listing_from(program: Seq<Instruction>, i: int) -> Seq<char>
    decreases (if i < program.len() {
        program.len() - i
    } else {
        0
    }),
{
    if i < 0 || i >= program.len() {
        Seq::empty()
    } else {
        let op = decode_opcode(program[i]);
        let line = if op == OpCode::PushImm {
            immediate_line(program, i)
        } else if op.takes_address() {
            jump_line(program, i)
        } else {
            plain_line(program, i)
        };
        let next = if op == OpCode::PushImm {
            i + 1 + INSTR_PER_WORD
        } else if op.takes_address() {
            i + 1 + INSTR_PER_ADDRESS
        } else {
            i + 1
        };
        line + listing_from(program, next)
    }
}

/// The disassembly of a program.
pub open spec fn listing(program: Seq<Instruction>) -> Seq<char> {
    listing_from(program, 0)
}

/// Whether a jump instruction is listed from `i` on.
pub open spec fn lists_jump_from(program: Seq<Instruction>, i: int) -> bool
    decreases (if i < program.len() {
        program.len() - i
    } else {
        0
    }),
{
    if i < 0 || i >= program.len() {
        false
    } else {
        let op = decode_opcode(program[i]);
        let next = if op == OpCode::PushImm {
            i + 1 + INSTR_PER_WORD
        } else {
            i + 1
        };
        op.takes_address() || lists_jump_from(program, next)
    }
}

/// The instruction `k` places after `i`, or zero past the end of the program.
fn byte_after(program: &[Instruction], i: usize, k: usize) -> (b: Instruction)
    requires
        i < program@.len(),
    ensures
        b == instruction_or_zero(program@, i + k),
{
    if k < program.len() - i {
        program[i + k]
    } else {
        0
    }
}

fn push_byte_column(out: &mut String, b: Instruction)
    ensures
        final(out)@ == old(out)@ + byte_column(b),
{
    push_char(out, ' ');
    push_hex_digits(out, b as usize, INSTRUCTION_DIGITS);
    assert(final(out)@ =~= old(out)@ + byte_column(b));
}

fn push_mnemonic_column(out: &mut String, op: OpCode)
    ensures
        final(out)@ == old(out)@ + mnemonic_column(op),
{
    push_char(out, ' ');
    push_padded(out, op.mnemonic(), MNEMONIC_WIDTH);
    assert(final(out)@ =~= old(out)@ + mnemonic_column(op));
}

fn push_line_start(out: &mut String, program: &[Instruction], i: usize)
    requires
        i < program@.len(),
    ensures
        final(out)@ == old(out)@ + line_start(program@, i as int),
{
    push_hex(out, i, ADDRESS_DIGITS);
    push_char(out, ':');
    push_char(out, ' ');
    push_hex_digits(out, program[i] as usize, INSTRUCTION_DIGITS);
    assert(final(out)@ =~= old(out)@ + line_start(program@, i as int));
}

fn push_immediate_line(out: &mut String, program: &[Instruction], i: usize)
    requires
        i < program@.len(),
    ensures
        final(out)@ == old(out)@ + immediate_line(program@, i as int),
{
    let parts = [
        byte_after(program, i, 1),
        byte_after(program, i, 2),
        byte_after(program, i, 3),
        byte_after(program, i, 4),
    ];
    assert(parts@ =~= immediate_bytes(program@, i + 1, INSTR_PER_WORD as nat));
    let imm = word_from_instructions(parts);
    push_line_start(out, program, i);
    push_byte_column(out, parts[0]);
    push_byte_column(out, parts[1]);
    push_byte_column(out, parts[2]);
    push_byte_column(out, parts[3]);
    push_mnemonic_column(out, OpCode::PushImm);
    push_char(out, ' ');
    push_str(out, imm.format_imm().as_str());
    push_char(out, '\n');
    assert(final(out)@ =~= old(out)@ + immediate_line(program@, i as int));
}

fn push_jump_line(out: &mut String, program: &[Instruction], i: usize)
    requires
        i < program@.len(),
        program@.len() % 0x1_0000 != 0,
        decode_opcode(program@[i as int]).takes_address(),
    ensures
        final(out)@ == old(out)@ + jump_line(program@, i as int),
{
    let parts = [byte_after(program, i, 1), byte_after(program, i, 2)];
    assert(parts@ =~= immediate_bytes(program@, i + 1, INSTR_PER_ADDRESS as nat));
    let addr = address_from_instructions(parts);
    let len = (program.len() % 0x1_0000) as u16;
    push_line_start(out, program, i);
    push_byte_column(out, parts[0]);
    push_byte_column(out, parts[1]);
    push_spaces(out, (INSTR_PER_WORD - INSTR_PER_ADDRESS) * COLUMN_WIDTH);
    push_mnemonic_column(out, OpCode::from(program[i]));
    push_char(out, ' ');
    push_hex(out, addr as usize, ADDRESS_DIGITS);
    if addr >= len {
        push_char(out, ' ');
        push_char(out, '-');
        push_char(out, '>');
        push_char(out, ' ');
        push_hex(out, (addr % len) as usize, ADDRESS_DIGITS);
    }
    push_char(out, '\n');
    assert(final(out)@ =~= old(out)@ + jump_line(program@, i as int));
}

fn push_plain_line(out: &mut String, program: &[Instruction], i: usize)
    requires
        i < program@.len(),
    ensures
        final(out)@ == old(out)@ + plain_line(program@, i as int),
{
    push_line_start(out, program, i);
    assert(INSTR_PER_WORD == 4 && COLUMN_WIDTH == 3);
    push_spaces(out, INSTR_PER_WORD * COLUMN_WIDTH);
    push_mnemonic_column(out, OpCode::from(program[i]));
    push_char(out, '\n');
    assert(final(out)@ =~= old(out)@ + plain_line(program@, i as int));
}

/// The disassembly of `program`, one line per instruction.
///
/// ### Example
/// ```text
/// 0x0000: 02 05 00 00 00 PushImm         5
/// 0x0005: 06             PopOut
/// 0x0006: 18 0b 00       Jmp             0x000b
/// 0x0009: 07             Add
/// 0x000a: 09             Mul
/// 0x000b: 01             Halt
/// 0x000c: 1f             Halt
/// ```
/// (each mnemonic is padded to fifteen characters).
///
/// A program whose length is a multiple of 2^16 cannot be listed if it holds
/// a jump, since its length taken as an address is zero.
pub fn disassemble_program(program: &[Instruction]) -> (text: String)
    requires
        program@.len() % 0x1_0000 != 0 || !lists_jump_from(program@, 0),
    ensures
        text@ == listing(program@),
{
    let mut out = String::new();
    let mut i: usize = 0;
    while i < program.len()
        invariant
            i <= program@.len(),
            out@ + listing_from(program@, i as int) == listing(program@),
            program@.len() % 0x1_0000 != 0 || !lists_jump_from(program@, i as int),
        decreases program@.len() - i,
    {
        let ghost before = out@;
        let op = OpCode::from(program[i]);
        let step: usize;
        if op == OpCode::PushImm {
            push_immediate_line(&mut out, program, i);
            step = 1 + INSTR_PER_WORD;
        } else if op == OpCode::Jmp || op == OpCode::JmpZero || op == OpCode::JmpAprxZero || op
            == OpCode::JmpPos || op == OpCode::JmpFin {
            push_jump_line(&mut out, program, i);
            step = 1 + INSTR_PER_ADDRESS;
        } else {
            push_plain_line(&mut out, program, i);
            step = 1;
        }
        let ghost next = next_instruction(program@, i as int);
        assert(next == i + step);
        assert(out@ + listing_from(program@, next) =~= before + listing_from(program@, i as int));
        if program.len() - i > step {
            i = i + step;
        } else {
            assert(listing_from(program@, next) == Seq::<char>::empty());
            assert(!lists_jump_from(program@, next));
            i = program.len();
        }
    }
    assert(listing_from(program@, i as int) == Seq::<char>::empty());
    assert(out@ =~= listing(program@));
    out
}

/// Whether [`disassemble_program`] can list `program`: its length taken as an
/// address is not zero, or it lists no jump.
pub fn can_disassemble(program: &[Instruction]) -> (ok: bool)
    ensures
        ok == (program@.len() % 0x1_0000 != 0 || !lists_jump_from(program@, 0)),
{
    if program.len() % 0x1_0000 != 0 {
        return true;
    }
    let mut i: usize = 0;
    while i < program.len()
        invariant
            i <= program@.len(),
            lists_jump_from(program@, 0) == lists_jump_from(program@, i as int),
            program@.len() % 0x1_0000 == 0,
        decreases program@.len() - i,
    {
        let op = OpCode::from(program[i]);
        if op == OpCode::Jmp || op == OpCode::JmpZero || op == OpCode::JmpAprxZero || op
            == OpCode::JmpPos || op == OpCode::JmpFin {
            assert(decode_opcode(program@[i as int]).takes_address());
            assert(lists_jump_from(program@, i as int));
            return false;
        }
        let step: usize = if op == OpCode::PushImm {
            1 + INSTR_PER_WORD
        } else {
            1
        };
        if program.len() - i > step {
            i = i + step;
        } else {
            assert(!lists_jump_from(program@, i + step));
            i = program.len();
        }
    }
    true
}

} // verus!
