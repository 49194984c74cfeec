use tardi::consts::{Instruction, MachineWord};
use tardi::disassembler::{can_disassemble, disassemble_program};
use tardi::instr::OpCode;
use tardi::numeric::FormatImm;
use tardi::util::{instructions_from_address, instructions_from_word};

#[test]
fn disassembles_each_instruction_kind() {
    let mut program: Vec<Instruction> = Vec::new();
    program.push(OpCode::PushImm.into());
    program.extend_from_slice(&instructions_from_word(5));
    program.push(OpCode::PopOut.into());
    program.push(OpCode::Jmp.into());
    let jump_addr_offset = program.len();
    program.extend_from_slice(&instructions_from_address(0));
    program.push(OpCode::Add.into());
    program.push(OpCode::Mul.into());
    let halt_pos = program.len() as u16;
    program[jump_addr_offset..jump_addr_offset + 2].copy_from_slice(&instructions_from_address(halt_pos));
    program.push(OpCode::Halt.into());
    // Byte 0x1f = 31 also maps to Halt (31 % COUNT = 1).
    program.push(u8::from(OpCode::Halt) + OpCode::COUNT as u8);
    let expected = "0x0000: 02 05 00 00 00 PushImm         5\n0x0005: 06             PopOut         \n0x0006: 18 0b 00       Jmp             0x000b\n0x0009: 07             Add            \n0x000a: 09             Mul            \n0x000b: 01             Halt           \n0x000c: 1f             Halt           \n";
    assert_eq!(expected, disassemble_program(&program));
}

#[test]
fn disassembly_shows_jump_target_modulo_length_and_zero_fills() {
    let program: Vec<Instruction> = vec![0x18, 0x1b, 0x00, 0x1d, 0x02];
    let expected = "0x0000: 18 1b 00       Jmp             0x001b -> 0x0002\n0x0003: 1d             JmpTos         \n0x0004: 02 00 00 00 00 PushImm         0\n";
    assert_eq!(expected, disassemble_program(&program));
}

#[test]
fn disassembly_of_negative_immediate() {
    let program: Vec<Instruction> = vec![0x02, 0xfe, 0xff, 0xff, 0xff, 0x1c, 0x00];
    let expected = "0x0000: 02 fe ff ff ff PushImm         -2\n0x0005: 1c 00 00       JmpFin          0x0000\n";
    assert_eq!(expected, disassemble_program(&program));
}

#[test]
fn disassembly_of_empty_program_is_empty() {
    assert_eq!("", disassemble_program(&[]));
}

#[test]
fn format_imm_is_decimal() {
    assert_eq!("0", (0 as MachineWord).format_imm());
    assert_eq!("1234", (1234 as MachineWord).format_imm());
    assert_eq!("-2147483648", MachineWord::MIN.format_imm());
    assert_eq!("2147483647", MachineWord::MAX.format_imm());
}

#[test]
fn listing_is_possible_unless_length_is_a_multiple_of_the_address_range() {
    assert!(can_disassemble(&[0x18, 0x00, 0x00]));
    let mut long = vec![OpCode::Nop.into(); 0x1_0000];
    assert!(can_disassemble(&long));
    // An immediate hides the jump byte inside its operand.
    long[0] = OpCode::PushImm.into();
    long[1] = OpCode::Jmp.into();
    assert!(can_disassemble(&long));
    long[5] = OpCode::JmpZero.into();
    assert!(!can_disassemble(&long));
}
