//! Conversions between machine values and their bytecode encoding, and
//! helpers for building programs.
//!
//! Immediate words and jump addresses are stored little endian, one
//! [`Instruction`] per byte.
use crate::consts::{Address, INSTR_PER_ADDRESS, INSTR_PER_WORD, Instruction, MachineWord};
use crate::instr::OpCode;
use vstd::prelude::*;

verus! {

/// The unsigned value of four little endian bytes.
pub open spec fn le_u32_value(b: Seq<u8>) -> int {
    b[0] + 256 * b[1] + 65536 * b[2] + 16777216 * b[3]
}

/// The [`MachineWord`] that the four little endian bytes `b` encode
/// (two's complement).
pub open spec fn word_of(b: Seq<u8>) -> MachineWord {
    let v = le_u32_value(b);
    if v < 0x8000_0000 {
        v as MachineWord
    } else {
        (v - 0x1_0000_0000) as MachineWord
    }
}

/// The four little endian bytes that encode `w` (two's complement).
pub open spec fn word_bytes(w: MachineWord) -> Seq<u8> {
    let v: int = if w >= 0 {
        w as int
    } else {
        w + 0x1_0000_0000
    };
    seq![
        (v % 256) as u8,
        ((v / 256) % 256) as u8,
        ((v / 65536) % 256) as u8,
        ((v / 16777216) % 256) as u8,
    ]
}

/// The [`Address`] that the two little endian bytes `b` encode.
pub open spec fn address_of(b: Seq<u8>) -> Address {
    (b[0] + 256 * b[1]) as Address
}

/// The two little endian bytes that encode `a`.
pub open spec fn address_bytes(a: Address) -> Seq<u8> {
    seq![(a % 256) as u8, (a / 256) as u8]
}

/// Turn a set of [`Instruction`]s into its representation as a [`MachineWord`].
///
/// This representation is the one used by the VM to accept immediate values.
pub fn word_from_instructions(parts: [Instruction; INSTR_PER_WORD]) -> (w: MachineWord)
    ensures
        w == word_of(parts@),
{
    let v: u32 = parts[0] as u32 + 256 * (parts[1] as u32) + 65536 * (parts[2] as u32)
        + 16777216 * (parts[3] as u32);
    if v < 0x8000_0000 {
        v as MachineWord
    } else {
        let low = (v - 0x8000_0000) as MachineWord;
        low - 0x7fff_ffff - 1
    }
}

/// Turn a [`MachineWord`] into its representation as [`Instruction`]s.
///
/// Primarily used to encode immediate values into bytecode.
pub fn instructions_from_word(word: MachineWord) -> (parts: [Instruction; INSTR_PER_WORD])
    ensures
        parts@ == word_bytes(word),
{
    let v: u32 = if word >= 0 {
        word as u32
    } else {
        ((word as i64) + 0x1_0000_0000) as u32
    };
    let parts = [
        (v % 256) as u8,
        ((v / 256) % 256) as u8,
        ((v / 65536) % 256) as u8,
        ((v / 16777216) % 256) as u8,
    ];
    assert(parts@ =~= word_bytes(word));
    parts
}

/// Turn a set of [`Instruction`]s into an [`Address`].
///
/// Used by the VM to accept jump target addresses from the bytecode.
pub fn address_from_instructions(parts: [Instruction; INSTR_PER_ADDRESS]) -> (a: Address)
    ensures
        a == address_of(parts@),
{
    parts[0] as Address + 256 * (parts[1] as Address)
}

/// Turn an [`Address`] into its representation as [`Instruction`]s.
///
/// Primarily used to encode jump target addresses into bytecode.
pub fn instructions_from_address(addr: Address) -> (parts: [Instruction; INSTR_PER_ADDRESS])
    ensures
        parts@ == address_bytes(addr),
{
    let parts = [(addr % 256) as u8, (addr / 256) as u8];
    assert(parts@ =~= address_bytes(addr));
    parts
}

/// Append a jump [`OpCode`] with a placeholder address of zero to `program`.
///
/// Returns the offset of the address slot so it can be filled in
/// later with [`patch_jmp`] once the target address is known.
pub fn push_jmp(program: &mut Vec<Instruction>, opcode: OpCode) -> (offset: usize)
    requires
        old(program).len() + 1 + INSTR_PER_ADDRESS <= usize::MAX,
    ensures
        final(program)@ == old(program)@.push(opcode.index()) + address_bytes(0),
        offset == old(program).len() + 1,
{
    program.push(opcode.into());
    let offset = program.len();
    let parts = instructions_from_address(0);
    program.push(parts[0]);
    program.push(parts[1]);
    assert(program@ =~= old(program)@.push(opcode.index()) + address_bytes(0));
    offset
}

/// The bytes of `program` with the address slot at `offset` set to encode
/// `target` truncated to an [`Address`].
pub open spec fn patched(program: Seq<u8>, offset: int, target: int) -> Seq<u8> {
    let parts = address_bytes((target % 0x1_0000) as Address);
    program.update(offset, parts[0]).update(offset + 1, parts[1])
}

/// Overwrite the address slot at `offset` in `program` with `target`.
///
/// `offset` must be the value returned by a previous call to [`push_jmp`].
/// The target is truncated to the width of an [`Address`].
pub fn patch_jmp(program: &mut [Instruction], offset: usize, target: usize)
    requires
        offset + INSTR_PER_ADDRESS <= old(program)@.len(),
    ensures
        final(program)@ == patched(old(program)@, offset as int, target as int),
{
    let parts = instructions_from_address((target % 0x1_0000) as Address);
    program[offset] = parts[0];
    program[offset + 1] = parts[1];
}

/// Decoding the encoding of a word gives the word back.
pub proof fn law_word_round_trip(w: MachineWord)
    ensures
        word_of(word_bytes(w)) == w,
{
    let v: int = if w >= 0 {
        w as int
    } else {
        w + 0x1_0000_0000
    };
    let b = word_bytes(w);
    assert(le_u32_value(b) == v);
}

/// Encoding a decoded word gives its four bytes back.
pub proof fn law_word_bytes_round_trip(b: Seq<u8>)
    requires
        b.len() == INSTR_PER_WORD,
    ensures
        word_bytes(word_of(b)) == b,
{
    let v = le_u32_value(b);
    let w = word_of(b);
    let v2: int = if w >= 0 {
        w as int
    } else {
        w + 0x1_0000_0000
    };
    assert(v2 == v);
    let q1 = b[1] + 256 * b[2] + 65536 * b[3];
    let q2 = b[2] + 256 * b[3];
    vstd::arithmetic::div_mod::lemma_fundamental_div_mod_converse(v, 256, q1, b[0] as int);
    vstd::arithmetic::div_mod::lemma_fundamental_div_mod_converse(v, 65536, q2, b[0] + 256 * b[1]);
    vstd::arithmetic::div_mod::lemma_fundamental_div_mod_converse(
        v,
        16777216,
        b[3] as int,
        b[0] + 256 * b[1] + 65536 * b[2],
    );
    vstd::arithmetic::div_mod::lemma_fundamental_div_mod_converse(q1, 256, q2, b[1] as int);
    vstd::arithmetic::div_mod::lemma_fundamental_div_mod_converse(q2, 256, b[3] as int, b[2] as int);
    vstd::arithmetic::div_mod::lemma_fundamental_div_mod_converse(b[3] as int, 256, 0, b[3] as int);
    assert(word_bytes(word_of(b)) =~= b);
}

/// Decoding the encoding of an address gives the address back.
pub proof fn law_address_round_trip(a: Address)
    ensures
        address_of(address_bytes(a)) == a,
{
}

/// Encoding a decoded address gives its two bytes back.
pub proof fn law_address_bytes_round_trip(b: Seq<u8>)
    requires
        b.len() == INSTR_PER_ADDRESS,
    ensures
        address_bytes(address_of(b)) == b,
{
    assert(address_bytes(address_of(b)) =~= b);
}

/// After a jump slot is patched, the slot decodes to the target truncated to
/// an [`Address`], and every other instruction is unchanged.
pub proof fn law_patched_slot_decodes_to_target(program: Seq<u8>, offset: int, target: int)
    requires
        0 <= offset,
        offset + INSTR_PER_ADDRESS <= program.len(),
        0 <= target,
    ensures
        address_of(patched(program, offset, target).subrange(offset, offset + 2)) == target
            % 0x1_0000,
        patched(program, offset, target).len() == program.len(),
        forall|i: int|
            0 <= i < program.len() && i != offset && i != offset + 1 ==> #[trigger] patched(
                program,
                offset,
                target,
            )[i] == program[i],
{
    law_address_round_trip((target % 0x1_0000) as Address);
    assert(patched(program, offset, target).subrange(offset, offset + 2) =~= address_bytes(
        (target % 0x1_0000) as Address,
    ));
}

/// Patching the placeholder of a freshly pushed jump gives the program, the
/// jump opcode and the encoding of the target truncated to an [`Address`];
/// the address slot then decodes to that target.
pub proof fn law_patch_after_push_jmp(program: Seq<u8>, opcode: OpCode, target: int)
    requires
        0 <= target,
    ensures
        patched(program.push(opcode.index()) + address_bytes(0), program.len() + 1int, target)
            == program.push(opcode.index()) + address_bytes((target % 0x1_0000) as Address),
        address_of(
            patched(program.push(opcode.index()) + address_bytes(0), program.len() + 1int, target).subrange(
                program.len() + 1int,
                program.len() + 3int,
            ),
        ) == target % 0x1_0000,
{
    let pushed = program.push(opcode.index()) + address_bytes(0);
    law_patched_slot_decodes_to_target(pushed, program.len() + 1int, target);
    assert(patched(pushed, program.len() + 1int, target) =~= program.push(opcode.index())
        + address_bytes((target % 0x1_0000) as Address));
}

} // verus!
