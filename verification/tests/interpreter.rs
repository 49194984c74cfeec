use tardi::consts::{INSTR_PER_WORD, Instruction, MAX_INSTRUCTIONS, MachineWord};
use tardi::instr::OpCode;
use tardi::interpreter::{HaltReason, Interpreter};
use tardi::util::{instructions_from_word, patch_jmp, push_jmp};

#[test]
fn halt_on_halt_instruction() {
    let program = vec![OpCode::Nop.into(), OpCode::Halt.into()];
    let mut int = Interpreter::new_from_program(program, vec![]);
    int.execute();
    assert_eq!(Some(HaltReason::HaltInstruction), int.halt_reason(),);
}

#[test]
fn halt_on_program_end() {
    let program = vec![OpCode::Nop.into(), OpCode::Nop.into()];
    let mut int = Interpreter::new_from_program(program, vec![]);
    int.execute();
    assert_eq!(Some(HaltReason::EndOfProgram), int.halt_reason(),);
}

#[test]
fn halt_on_instruction_limit() {
    let mut program = vec![OpCode::Nop.into()];
    // Constructing an infinite loop.
    let offset = push_jmp(&mut program, OpCode::Jmp);
    patch_jmp(&mut program, offset, 0);
    let mut int = Interpreter::new_from_program(program, vec![]);
    int.set_execution_count(MAX_INSTRUCTIONS - 10);
    int.execute();
    assert_eq!(Some(HaltReason::MaxInstructions), int.halt_reason(),);
}

#[test]
fn halt_on_custom_instruction_limit() {
    const TEST_LIMIT: usize = 20;
    let mut program = vec![OpCode::Nop.into()];
    // Constructing an infinite loop.
    let offset = push_jmp(&mut program, OpCode::Jmp);
    patch_jmp(&mut program, offset, 0);
    let mut int = Interpreter::new_with_program_and_limit(program, vec![], TEST_LIMIT);
    int.execute();
    assert_eq!(
        Some(HaltReason::MaxInstructions),
        int.halt_reason(),
        "halt reason should be set to instruction limit halt"
    );
    assert_eq!(
        TEST_LIMIT,
        int.execution_count(),
        "instruction limit halt should occur after specified number of instructions executed"
    );
}

#[test]
fn push_imm_reads_correct_bytes() {
    let expected: MachineWord = 1234;
    let mut program = vec![OpCode::PushImm as Instruction];
    program.extend_from_slice(&instructions_from_word(expected));
    let mut int = Interpreter::new_from_program(program, vec![]);
    int.dispatch();
    assert_eq!(
        INSTR_PER_WORD + 1,
        int.program_counter(),
        "PC has not advanced past opcode and all immediate bytes"
    );
    assert_eq!(
        expected,
        int.stack().peek(),
        "immediate value not decoded onto the stack"
    );
}

#[test]
fn push_imm_out_of_bounds_bytes_are_zero() {
    // PushImm with no following bytes: missing immediate bytes default to zero.
    let program = vec![OpCode::PushImm as Instruction];
    let mut int = Interpreter::new_from_program(program, vec![]);
    int.dispatch();
    assert_eq!(MachineWord::default(), int.stack().peek());
}

#[test]
fn basic_jmp() {
    // `Jmp` should skip over add instruction leaving one as top of stack.
    let mut program: Vec<Instruction> = vec![OpCode::PushOne.into(), OpCode::PushOne.into()];
    let jmp_offset = push_jmp(&mut program, OpCode::Jmp);
    program.push(OpCode::Add.into()); // dead code: jumped over
    let pop_pos = program.len();
    program.extend_from_slice(&[OpCode::PopOut.into(), OpCode::Halt.into()]);
    patch_jmp(&mut program, jmp_offset, pop_pos);

    let mut int = Interpreter::new_from_program(program, vec![]);
    int.execute();
    assert_eq!(vec![1 as MachineWord], int.output());
}

/// If the jump is taken the data value is output unaltered.
fn conditional_jump_taken(value: MachineWord, opcode: OpCode) {
    let mut program: Vec<Instruction> = vec![OpCode::PushIn.into()];
    let jmp_offset = push_jmp(&mut program, opcode);
    // jumped over if jump taken
    program.push(OpCode::PushOne.into());
    program.push(OpCode::Add.into());

    let pop_pos = program.len();
    program.extend_from_slice(&[OpCode::PopOut.into(), OpCode::Halt.into()]);
    patch_jmp(&mut program, jmp_offset, pop_pos);
    let mut int = Interpreter::new_from_program(program, vec![value]);
    int.execute();
    assert_eq!(vec![value], int.output());
}

/// If the jump is not taken the output is two.
fn conditional_jump_skipped(value: MachineWord, opcode: OpCode) {
    let mut program: Vec<Instruction> = vec![OpCode::PushIn.into()];
    let jmp_offset = push_jmp(&mut program, opcode);
    // jumped over if jump taken
    program.push(OpCode::PushOne.into());
    program.push(OpCode::PushOne.into());
    program.push(OpCode::Add.into());

    let pop_pos = program.len();
    program.extend_from_slice(&[OpCode::PopOut.into(), OpCode::Halt.into()]);
    patch_jmp(&mut program, jmp_offset, pop_pos);
    let mut int = Interpreter::new_from_program(program, vec![value]);
    int.execute();
    assert_eq!(vec![2 as MachineWord], int.output());
}

#[test]
fn jmp_zero_taken() {
    conditional_jump_taken(0, OpCode::JmpZero);
}

#[test]
fn jmp_zero_not_taken() {
    conditional_jump_skipped(1, OpCode::JmpZero);
}

#[test]
fn jmp_pos_taken() {
    conditional_jump_taken(1, OpCode::JmpPos);
}

#[test]
fn jmp_pos_not_taken() {
    conditional_jump_skipped(0, OpCode::JmpPos);
}

#[test]
fn opcode_jmp_tos() {
    // We measure the jump distance based on the number of `PushOne`s executed.
    let program: Vec<Instruction> = vec![
        OpCode::PushIn.into(),
        OpCode::JmpTos.into(),
        OpCode::PushOne.into(),
        OpCode::PushOne.into(),
        OpCode::PushOne.into(),
        OpCode::PushOne.into(),
        // Note that `Add` becomes effective no-op if only
        // one value is present on the stack.
        OpCode::Add.into(),
        OpCode::Add.into(),
        OpCode::Add.into(),
        OpCode::PopOut.into(),
    ];
    let mut int = Interpreter::new_from_program(program, vec![4 as MachineWord]);
    int.execute();
    assert_eq!(vec![2 as MachineWord], int.output());
}

#[test]
fn dispatch_sequence() {
    let program: Vec<Instruction> = vec![
        OpCode::PushIn.into(),
        OpCode::PushOne.into(),
        OpCode::PushZero.into(),
        OpCode::Add.into(),
        OpCode::Add.into(),
    ];
    let data: Vec<MachineWord> = vec![3 as MachineWord];
    let expected_sum = data[0] + 1 as MachineWord;
    let mut int = Interpreter::new_from_program(program, data.clone());
    assert_eq!(
        MachineWord::default(),
        int.stack().peek(),
        "stack should be empty initially"
    );
    int.dispatch(); // PushIn: pushes data[0]
    assert_eq!(
        data[0],
        int.stack().peek(),
        "`PushIn` did not push the input value"
    );
    int.dispatch(); // PushOne
    assert_eq!(1 as MachineWord, int.stack().peek(), "PushOne did not push one");
    int.dispatch(); // PushZero
    assert_eq!(
        MachineWord::default(),
        int.stack().peek(),
        "`PushZero` did not push 0"
    );
    int.dispatch(); // Add: 0 + 1
    assert_eq!(1 as MachineWord, int.stack().peek(), "add(0, 1) did not give one");
    int.dispatch(); // Add: 1 + 3
    assert_eq!(
        expected_sum,
        int.stack().peek(),
        "addition did not create expected sum"
    );
    int.dispatch(); // End of program
    assert_eq!(
        expected_sum,
        int.stack().peek(),
        "stack not unchanged after halting"
    );
    assert!(
        int.halted(),
        "interpreter not halted after past end of program"
    );
}

fn two_operand(val_a: MachineWord, val_b: MachineWord, rslt: MachineWord, opcode: OpCode) {
    let program: Vec<Instruction> = vec![
        OpCode::PushIn.into(),
        OpCode::PushIn.into(),
        opcode.into(),
        OpCode::PopOut.into(),
    ];
    let data: Vec<MachineWord> = vec![val_a, val_b];
    let mut int = Interpreter::new_from_program(program, data.clone());
    int.execute();
    assert_eq!(vec![rslt], int.output());
}

#[test]
fn add_opcode() {
    two_operand(5, 6, 11, OpCode::Add);
}

#[test]
fn sub_opcode() {
    two_operand(5, 6, 1, OpCode::Sub);
}

#[test]
fn mul_opcode() {
    two_operand(5, 6, 30, OpCode::Mul);
}

#[test]
fn div_opcode() {
    two_operand(5, 30, 6, OpCode::Div);
}

#[test]
fn mod_div_opcode() {
    two_operand(7, 30, 2, OpCode::ModDiv);
}

#[test]
fn min_opcode() {
    two_operand(5, 6, 5, OpCode::Min);
}

#[test]
fn max_opcode() {
    two_operand(5, 6, 6, OpCode::Max);
}

fn one_operand(val_a: MachineWord, rslt: MachineWord, opcode: OpCode) {
    let program: Vec<Instruction> =
        vec![OpCode::PushIn.into(), opcode.into(), OpCode::PopOut.into()];
    let mut int = Interpreter::new_from_program(program, vec![val_a]);
    int.execute();
    assert_eq!(vec![rslt], int.output());
}

#[test]
fn sqrt_opcode() {
    one_operand(16, 4, OpCode::Sqrt);
}

#[test]
fn neg_opcode() {
    one_operand(6, -6, OpCode::Neg);
}

#[test]
fn abs_opcode() {
    one_operand(-4, 4, OpCode::Abs);
}

#[test]
fn swap_opcode() {
    let program: Vec<Instruction> = vec![
        OpCode::PushIn.into(),
        OpCode::PushIn.into(),
        OpCode::Swap.into(),
        OpCode::PopOut.into(),
        OpCode::Halt.into(),
    ];
    let mut int = Interpreter::new_from_program(program, vec![3 as MachineWord, 7 as MachineWord]);
    int.execute();
    assert_eq!(vec![7 as MachineWord], int.output());
}

#[test]
fn remove_opcode() {
    let program: Vec<Instruction> = vec![
        OpCode::PushIn.into(),
        OpCode::PushIn.into(),
        OpCode::Remove.into(),
        OpCode::PopOut.into(),
        OpCode::Halt.into(),
    ];
    let mut int = Interpreter::new_from_program(program, vec![3 as MachineWord, 7 as MachineWord]);
    int.execute();
    assert_eq!(vec![7 as MachineWord], int.output(),);
}

#[test]
fn dup_opcode() {
    let program: Vec<Instruction> = vec![
        OpCode::PushIn.into(),
        OpCode::Dup.into(),
        OpCode::PopOut.into(),
        OpCode::PopOut.into(),
        OpCode::Halt.into(),
    ];
    let mut int = Interpreter::new_from_program(program, vec![5 as MachineWord]);
    int.execute();
    assert_eq!(vec![5 as MachineWord, 5 as MachineWord], int.output(),);
}
