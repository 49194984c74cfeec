//! Properties of the machine on concrete programs.
use tardi::consts::{Instruction, MAX_INSTRUCTIONS, MAX_OUTPUT, MachineWord};
use tardi::instr::OpCode;
use tardi::interpreter::{HaltReason, Interpreter};
use tardi::numeric::isqrt_u32;
use tardi::util::{patch_jmp, push_jmp};

fn run(program: Vec<Instruction>, input: Vec<MachineWord>) -> Interpreter {
    let mut int = Interpreter::new(program, input);
    int.execute();
    int
}

#[test]
fn halted_machine_does_not_change() {
    let mut int = run(vec![OpCode::PushOne.into(), OpCode::Halt.into(), OpCode::PushOne.into()], vec![]);
    assert_eq!(Some(HaltReason::HaltInstruction), int.halt_reason());
    let pc = int.program_counter();
    let count = int.execution_count();
    int.dispatch();
    int.execute();
    assert_eq!(pc, int.program_counter());
    assert_eq!(count, int.execution_count());
    assert_eq!(1, int.stack().len());
    assert_eq!(Some(HaltReason::HaltInstruction), int.halt_reason());
}

#[test]
fn not_halted_before_execution() {
    let int = Interpreter::new(vec![OpCode::Nop.into()], vec![]);
    assert!(!int.halted());
    assert_eq!(None, int.halt_reason());
    assert_eq!(MAX_INSTRUCTIONS, int.instruction_limit());
}

#[test]
fn default_interpreter_stops_at_once() {
    let mut int = Interpreter::default();
    int.execute();
    assert_eq!(Some(HaltReason::MaxInstructions), int.halt_reason());
    assert_eq!(0, int.execution_count());
}

#[test]
fn float_only_instructions_do_nothing() {
    let program = vec![
        OpCode::PushIn.into(),
        OpCode::Round.into(),
        OpCode::Trunc.into(),
        OpCode::Ceil.into(),
        OpCode::Floor.into(),
        OpCode::PopOut.into(),
    ];
    assert_eq!(vec![-7], run(program, vec![-7]).output());
}

fn jump_outcome(value: MachineWord, opcode: OpCode) -> Vec<MachineWord> {
    let mut program: Vec<Instruction> = vec![OpCode::PushIn.into()];
    let offset = push_jmp(&mut program, opcode);
    program.push(OpCode::PushZero.into());
    program.push(OpCode::PopOut.into());
    let target = program.len();
    program.push(OpCode::PopOut.into());
    patch_jmp(&mut program, offset, target);
    run(program, vec![value]).output()
}

#[test]
fn approximate_zero_jump_is_zero_jump() {
    assert_eq!(vec![0], jump_outcome(0, OpCode::JmpAprxZero));
    assert_eq!(vec![1, 0], jump_outcome(1, OpCode::JmpAprxZero));
    assert_eq!(jump_outcome(5, OpCode::JmpZero), jump_outcome(5, OpCode::JmpAprxZero));
}

#[test]
fn finite_jump_always_jumps() {
    assert_eq!(vec![-3], jump_outcome(-3, OpCode::JmpFin));
    assert_eq!(vec![-3], jump_outcome(-3, OpCode::Jmp));
    assert_eq!(vec![-3, 0], jump_outcome(-3, OpCode::JmpPos));
}

#[test]
fn jump_targets_wrap_around_program_length() {
    // Jmp to 5 + 8 in a program of length 8 lands on 5.
    let mut program: Vec<Instruction> = vec![OpCode::Nop.into()];
    let offset = push_jmp(&mut program, OpCode::Jmp);
    program.push(OpCode::Halt.into());
    program.push(OpCode::PushOne.into());
    program.push(OpCode::PopOut.into());
    program.push(OpCode::Halt.into());
    let target = 5 + program.len();
    patch_jmp(&mut program, offset, target);
    assert_eq!(vec![1], run(program, vec![]).output());
}

#[test]
fn jump_to_top_of_stack_takes_magnitude_modulo_length() {
    let program = vec![
        OpCode::PushIn.into(),
        OpCode::JmpTos.into(),
        OpCode::Halt.into(),
        OpCode::PushOne.into(),
        OpCode::PopOut.into(),
    ];
    // |-8| % 5 == 3
    assert_eq!(vec![1], run(program, vec![-8]).output());
}

#[test]
fn long_programs_are_cut_short() {
    let program: Vec<Instruction> = vec![OpCode::Nop.into(); 70000];
    let mut int = Interpreter::new_with_program_and_limit(program, vec![], 100000);
    int.execute();
    assert_eq!(Some(HaltReason::EndOfProgram), int.halt_reason());
    assert_eq!(MAX_INSTRUCTIONS, int.execution_count());
}

#[test]
fn output_keeps_most_recent_values() {
    let mut program: Vec<Instruction> = Vec::new();
    for _ in 0..20 {
        program.push(OpCode::PushIn.into());
        program.push(OpCode::PopOut.into());
    }
    let input: Vec<MachineWord> = (0..20).collect();
    let out = run(program, input).output();
    assert_eq!(MAX_OUTPUT, out.len());
    // Input is read from its end; the output lists the most recent value first.
    let expected: Vec<MachineWord> = (0..16).collect();
    assert_eq!(expected, out);
}

#[test]
fn empty_input_pushes_nothing() {
    let int = run(vec![OpCode::PushIn.into()], vec![]);
    assert_eq!(0, int.stack().len());
    assert_eq!(0, int.input().len());
}

#[test]
fn quotients_round_toward_zero_and_missing_ones_are_zero() {
    let div = |a: MachineWord, b: MachineWord, op: OpCode| {
        let program = vec![OpCode::PushIn.into(), OpCode::PushIn.into(), op.into(), OpCode::PopOut.into()];
        run(program, vec![b, a]).output()[0]
    };
    assert_eq!(-3, div(-7, 2, OpCode::Div));
    assert_eq!(-1, div(-7, 2, OpCode::ModDiv));
    assert_eq!(-1, div(7, -4, OpCode::Div));
    assert_eq!(3, div(7, -4, OpCode::ModDiv));
    assert_eq!(0, div(MachineWord::MIN, -1, OpCode::Div));
    assert_eq!(0, div(MachineWord::MIN, -1, OpCode::ModDiv));
    assert_eq!(0, div(9, 0, OpCode::Div));
    assert_eq!(0, div(9, 0, OpCode::ModDiv));
}

#[test]
fn integer_square_roots() {
    assert_eq!(0, isqrt_u32(0));
    assert_eq!(1, isqrt_u32(3));
    assert_eq!(2, isqrt_u32(4));
    assert_eq!(65535, isqrt_u32(u32::MAX));
    assert_eq!(46340, isqrt_u32(0x8000_0000));
    let program = vec![OpCode::PushIn.into(), OpCode::Sqrt.into(), OpCode::PopOut.into()];
    assert_eq!(vec![46340], run(program, vec![MachineWord::MIN]).output());
}

#[test]
fn swap_on_short_stack_uses_zero() {
    let program = vec![OpCode::PushOne.into(), OpCode::Swap.into(), OpCode::PopOut.into(), OpCode::PopOut.into()];
    assert_eq!(vec![1, 0], run(program, vec![]).output());
}

#[test]
fn peeking_at_the_next_instruction() {
    let mut program: Vec<Instruction> = vec![OpCode::PushImm.into(), 7, 0, 0, 0];
    let offset = push_jmp(&mut program, OpCode::JmpZero);
    patch_jmp(&mut program, offset, 9);
    let mut int = Interpreter::new(program, vec![]);
    assert_eq!(Some(OpCode::PushImm), int.current_opcode());
    assert_eq!(7, int.peek_immediate());
    int.dispatch();
    assert_eq!(Some(OpCode::JmpZero), int.current_opcode());
    assert_eq!(1, int.peek_jump_address());
    int.dispatch();
    assert_eq!(None, int.current_opcode());
    let copy = int.clone();
    assert_eq!(copy.program_counter(), int.program_counter());
    assert_eq!(0, int.output_stack().len());
}

#[test]
fn output_lists_most_recent_first() {
    let program = vec![
        OpCode::PushOne.into(),
        OpCode::PopOut.into(),
        OpCode::PushZero.into(),
        OpCode::PopOut.into(),
        OpCode::PushImm.into(),
        7,
        0,
        0,
        0,
        OpCode::PopOut.into(),
    ];
    assert_eq!(vec![7, 0, 1], run(program, vec![]).output());
}

#[test]
fn execution_ends_with_a_defined_reason() {
    let mut int = Interpreter::new_with_program_and_limit(vec![OpCode::Nop.into()], vec![], 5);
    int.set_execution_count(9);
    int.execute();
    assert_eq!(Some(HaltReason::MaxInstructions), int.halt_reason());
    assert_eq!(9, int.execution_count());
}

#[test]
fn dispatch_of_a_halted_machine_counts_nothing() {
    let mut int = run(vec![OpCode::Halt.into()], vec![]);
    int.set_execution_count(usize::MAX);
    int.dispatch();
    assert_eq!(usize::MAX, int.execution_count());
    assert_eq!(Some(HaltReason::HaltInstruction), int.halt_reason());
}
