use tardi::consts::{Instruction, MachineWord};
use tardi::instr::OpCode;
use tardi::util::{
    address_from_instructions, instructions_from_address, instructions_from_word, patch_jmp,
    push_jmp, word_from_instructions,
};

#[test]
fn words_are_little_endian_twos_complement() {
    assert_eq!([0xd2, 0x04, 0x00, 0x00], instructions_from_word(1234));
    assert_eq!([0xfe, 0xff, 0xff, 0xff], instructions_from_word(-2));
    assert_eq!([0x00, 0x00, 0x00, 0x80], instructions_from_word(MachineWord::MIN));
    assert_eq!(1234, word_from_instructions([0xd2, 0x04, 0x00, 0x00]));
    assert_eq!(-1, word_from_instructions([0xff, 0xff, 0xff, 0xff]));
    assert_eq!(MachineWord::MAX, word_from_instructions([0xff, 0xff, 0xff, 0x7f]));
}

#[test]
fn word_round_trips() {
    for w in [0, 1, -1, 1234, -98765, MachineWord::MIN, MachineWord::MAX] {
        assert_eq!(w, word_from_instructions(instructions_from_word(w)));
    }
    for parts in [[1u8, 2, 3, 4], [0xff, 0, 0x80, 0x7f], [0, 0, 0, 0x80]] {
        assert_eq!(parts, instructions_from_word(word_from_instructions(parts)));
    }
}

#[test]
fn address_round_trips() {
    assert_eq!([0x1b, 0x00], instructions_from_address(0x1b));
    assert_eq!([0x34, 0x12], instructions_from_address(0x1234));
    for a in [0u16, 1, 255, 256, 0x1234, u16::MAX] {
        assert_eq!(a, address_from_instructions(instructions_from_address(a)));
    }
    assert_eq!([0xab, 0xcd], instructions_from_address(address_from_instructions([0xab, 0xcd])));
}

#[test]
fn push_jmp_leaves_placeholder() {
    let mut program: Vec<Instruction> = vec![OpCode::Nop.into()];
    let offset = push_jmp(&mut program, OpCode::JmpPos);
    assert_eq!(2, offset);
    assert_eq!(vec![0x00, 0x1b, 0x00, 0x00], program);
}

#[test]
fn patch_jmp_truncates_target_to_address() {
    let mut program: Vec<Instruction> = vec![OpCode::Nop.into()];
    let offset = push_jmp(&mut program, OpCode::Jmp);
    program.push(OpCode::Halt.into());
    patch_jmp(&mut program, offset, 0x1_0005);
    assert_eq!(vec![0x00, 0x18, 0x05, 0x00, 0x01], program);
    patch_jmp(&mut program, offset, 0x0203);
    assert_eq!(vec![0x00, 0x18, 0x03, 0x02, 0x01], program);
}
