use tardi::instr::OpCode;

#[test]
fn every_byte_decodes_modulo_count() {
    assert_eq!(30, OpCode::COUNT);
    assert_eq!(OpCode::Nop, OpCode::from(0));
    assert_eq!(OpCode::Halt, OpCode::from(31));
    assert_eq!(OpCode::JmpTos, OpCode::from(29));
    assert_eq!(OpCode::Nop, OpCode::from(30));
    assert_eq!(OpCode::Round, OpCode::from(255));
    for b in 0..=255u8 {
        let op = OpCode::from(b);
        assert_eq!(b % 30, u8::from(op));
    }
}

#[test]
fn opcode_numbers_follow_declaration_order() {
    assert_eq!(6, u8::from(OpCode::PopOut));
    assert_eq!(9, u8::from(OpCode::Mul));
    assert_eq!(14, u8::from(OpCode::Sqrt));
    assert_eq!(24, u8::from(OpCode::Jmp));
    assert_eq!(27, u8::from(OpCode::JmpPos));
    assert_eq!(OpCode::Nop, OpCode::default());
}

#[test]
fn mnemonics_are_variant_names() {
    assert_eq!("PushImm", OpCode::PushImm.mnemonic());
    assert_eq!("JmpAprxZero", OpCode::JmpAprxZero.mnemonic());
    assert_eq!("ModDiv", OpCode::from(11).mnemonic());
}
