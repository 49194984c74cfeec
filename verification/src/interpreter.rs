//! General interpreter functionality.
//!
//! The behaviour of the machine is given by the spec functions [`step`]
//! (one fetched and executed instruction) and [`run`] (steps until the
//! machine halts or reaches its instruction limit). [`Interpreter::dispatch`]
//! and [`Interpreter::execute`] are proved to follow them.
use crate::consts::{
    Address, INSTR_PER_ADDRESS, INSTR_PER_WORD, Instruction, MAX_INSTRUCTIONS, MAX_OUTPUT,
    MAX_STACK, MachineWord,
};
use crate::instr::{OpCode, decode_opcode};
use crate::numeric::{
    isqrt, isqrt_u32, magnitude, quotient, remainder, saturating_abs, saturating_neg,
    unsigned_magnitude, word_quotient, word_remainder, word_saturating_abs, word_saturating_neg,
};
use crate::stack::{Stack, bounded_push, popped};
use crate::util::{address_from_instructions, address_of, word_from_instructions, word_of};
use vstd::prelude::*;

verus! {

/// Specifies the reason why the interpreter was halted.
#[derive(Debug, Clone, Copy, PartialEq, Eq, Structural)]
pub enum HaltReason {
    /// Interpreter has not been halted or no reason defined.
    Undefined,
    /// `Halt` instruction was executed.
    HaltInstruction,
    /// End of program was reached.
    EndOfProgram,
    /// The instruction limit has been reached.
    MaxInstructions,
}

impl Default for HaltReason {
    fn default() -> (r: Self)
        ensures
            r == HaltReason::Undefined,
    {
        HaltReason::Undefined
    }
}

/// The state of an interpreter as a mathematical value.
pub struct VmState {
    /// Main stack, bottom first.
    pub stack: Seq<MachineWord>,
    /// The program's instructions.
    pub program: Seq<Instruction>,
    /// Index of the next instruction to fetch.
    pub pc: int,
    /// Remaining input; the last element is read first.
    pub input: Seq<MachineWord>,
    /// Output stack, oldest first.
    pub output: Seq<MachineWord>,
    pub halted: bool,
    /// Number of instructions fetched so far.
    pub execution_count: int,
    pub halt_reason: HaltReason,
    /// Number of instructions after which `execute` stops.
    pub instruction_limit: int,
}

/// The top of a stack, or zero (the default word) if it is empty.
pub open spec fn top_of(s: Seq<MachineWord>) -> MachineWord {
    if s.len() == 0 {
        0
    } else {
        s.last()
    }
}

/// Instruction `i` of the program, or zero past its end.
pub open spec fn instruction_or_zero(program: Seq<Instruction>, i: int) -> Instruction {
    if 0 <= i < program.len() {
        program[i]
    } else {
        0
    }
}

/// The `n` instructions starting at `at`; those past the end of the program are zero.
pub open spec fn immediate_bytes(program: Seq<Instruction>, at: int, n: nat) -> Seq<Instruction> {
    Seq::new(n, |k: int| instruction_or_zero(program, at + k))
}

/// The immediate word encoded at `at`.
pub open spec fn immediate_word(program: Seq<Instruction>, at: int) -> MachineWord {
    word_of(immediate_bytes(program, at, INSTR_PER_WORD as nat))
}

/// The jump target encoded at `at`, taken modulo the program length.
pub open spec fn jump_target(program: Seq<Instruction>, at: int) -> int {
    address_of(immediate_bytes(program, at, INSTR_PER_ADDRESS as nat)) as int % program.len() as int
}

/// The result of a two operand instruction on the second value `a` and the top value `b`.
pub open spec fn binary_result(op: OpCode, a: MachineWord, b: MachineWord) -> MachineWord {
    match op {
        OpCode::Add => vstd::wrapping::i32_specs::wrapping_add(a, b),
        OpCode::Sub => vstd::wrapping::i32_specs::wrapping_sub(a, b),
        OpCode::Mul => vstd::wrapping::i32_specs::wrapping_mul(a, b),
        OpCode::Div => quotient(a, b),
        OpCode::ModDiv => remainder(a, b),
        OpCode::Min => if a <= b {
            a
        } else {
            b
        },
        OpCode::Max => if a >= b {
            a
        } else {
            b
        },
        _ => 0,
    }
}

/// Whether `op` pops two values and pushes one result.
pub open spec fn is_binary(op: OpCode) -> bool {
    op == OpCode::Add || op == OpCode::Sub || op == OpCode::Mul || op == OpCode::Div || op
        == OpCode::ModDiv || op == OpCode::Min || op == OpCode::Max
}

impl VmState {
    /// The bounds every interpreter state keeps.
    pub open spec fn wf(self) -> bool {
        &&& self.program.len() <= MAX_INSTRUCTIONS
        &&& 0 <= self.pc <= self.program.len() + INSTR_PER_WORD
        &&& self.stack.len() <= MAX_STACK
        &&& self.output.len() <= MAX_OUTPUT
        &&& 0 <= self.execution_count
        &&& 0 <= self.instruction_limit
        &&& self.halted ==> self.halt_reason != HaltReason::Undefined
    }

    /// The top of the main stack (zero if empty).
    pub open spec fn top(self) -> MachineWord {
        top_of(self.stack)
    }

    /// The state with `v` pushed on the main stack.
    pub open spec fn push(self, v: MachineWord) -> VmState {
        VmState { stack: bounded_push(self.stack, MAX_STACK as nat, v), ..self }
    }

    /// The state with the top of the main stack removed.
    pub open spec fn pop(self) -> VmState {
        VmState { stack: popped(self.stack), ..self }
    }

    /// The state after a jump whose target is encoded at the program counter:
    /// to the target if `taken`, else past the address.
    pub open spec fn jump_if(self, taken: bool) -> VmState {
        if taken {
            VmState { pc: jump_target(self.program, self.pc), ..self }
        } else {
            VmState { pc: self.pc + INSTR_PER_ADDRESS, ..self }
        }
    }
}

/// The effect of executing `op`, once it has been fetched (the program
/// counter already points past the opcode).
pub open spec fn operation(s: VmState, op: OpCode) -> VmState {
    match op {
        OpCode::Nop | OpCode::Round | OpCode::Trunc | OpCode::Ceil | OpCode::Floor => s,
        OpCode::Halt => VmState { halted: true, halt_reason: HaltReason::HaltInstruction, ..s },
        OpCode::PushImm => VmState {
            pc: s.pc + INSTR_PER_WORD,
            ..s.push(immediate_word(s.program, s.pc))
        },
        OpCode::PushIn => if s.input.len() == 0 {
            s
        } else {
            VmState { input: s.input.drop_last(), ..s.push(s.input.last()) }
        },
        OpCode::PushOne => s.push(1),
        OpCode::PushZero => s.push(0),
        OpCode::PopOut => VmState {
            output: bounded_push(s.output, MAX_OUTPUT as nat, s.top()),
            ..s.pop()
        },
        OpCode::Add | OpCode::Sub | OpCode::Mul | OpCode::Div | OpCode::ModDiv | OpCode::Min
        | OpCode::Max => {
            let b = s.top();
            let a = s.pop().top();
            s.pop().pop().push(binary_result(op, a, b))
        },
        OpCode::Sqrt => s.pop().push(isqrt(magnitude(s.top())) as MachineWord),
        OpCode::Neg => s.pop().push(saturating_neg(s.top())),
        OpCode::Abs => s.pop().push(saturating_abs(s.top())),
        OpCode::Swap => {
            let a = s.top();
            let b = s.pop().top();
            s.pop().pop().push(a).push(b)
        },
        OpCode::Remove => s.pop(),
        OpCode::Dup => s.push(s.top()),
        OpCode::Jmp | OpCode::JmpFin => s.jump_if(true),
        OpCode::JmpZero | OpCode::JmpAprxZero => s.jump_if(s.top() == 0),
        OpCode::JmpPos => s.jump_if(s.top() > 0),
        OpCode::JmpTos => VmState {
            pc: saturating_abs(s.top()) as int % s.program.len() as int,
            ..s.pop()
        },
    }
}

/// One step of the machine: fetch and execute the instruction at the program counter.
///
/// A halted machine does not change; a machine whose program counter is past
/// the end of the program halts.
pub open spec fn step(s: VmState) -> VmState {
    if s.halted {
        s
    } else if s.pc >= s.program.len() {
        VmState { halted: true, halt_reason: HaltReason::EndOfProgram, ..s }
    } else {
        operation(
            VmState { pc: s.pc + 1, execution_count: s.execution_count + 1, ..s },
            decode_opcode(s.program[s.pc]),
        )
    }
}

/// The state in which `execute` leaves the machine: it steps until the
/// machine halts, or halts it with `MaxInstructions` once the instruction
/// limit is reached.
///
/// A step of a machine that is not halted either halts it or fetches one
/// instruction, so the recursion continues exactly while the machine runs
/// (see [`law_execution_is_bounded`]).
pub open spec fn run(s: VmState) -> VmState
    decreases s.instruction_limit - s.execution_count,
{
    if s.execution_count >= s.instruction_limit {
        VmState { halted: true, halt_reason: HaltReason::MaxInstructions, ..s }
    } else {
        let t = step(s);
        if !t.halted && t.execution_count == s.execution_count + 1 && t.instruction_limit
            == s.instruction_limit {
            run(t)
        } else {
            t
        }
    }
}

/// The output as [`Interpreter::output`] lists it: the most recent value first.
pub open spec fn listed_output(s: VmState) -> Seq<MachineWord> {
    s.output.reverse()
}

/// The state of a fresh interpreter; programs longer than [`MAX_INSTRUCTIONS`] are cut short.
pub open spec fn initial_state(
    program: Seq<Instruction>,
    input: Seq<MachineWord>,
    instruction_limit: int,
) -> VmState {
    VmState {
        stack: Seq::empty(),
        program: if program.len() > MAX_INSTRUCTIONS {
            program.take(MAX_INSTRUCTIONS as int)
        } else {
            program
        },
        pc: 0,
        input: input,
        output: Seq::empty(),
        halted: false,
        execution_count: 0,
        halt_reason: HaltReason::Undefined,
        instruction_limit: instruction_limit,
    }
}

/// The TARDI stack VM that executes [`OpCode`]s supplied as bytes.
/// Instructions are taken modulo the total number of opcodes,
/// so every byte maps to a valid instruction.
#[derive(Debug)]
pub struct Interpreter {
    stack: Stack<MachineWord, MAX_STACK>,
    instructions: Vec<Instruction>,
    program_counter: usize,
    input: Vec<MachineWord>,
    output: Stack<MachineWord, MAX_OUTPUT>,
    halted: bool,
    execution_count: usize,
    halt_reason: HaltReason,
    instruction_limit: usize,
}

impl View for Interpreter {
    type V = VmState;

    closed spec fn view(&self) -> VmState {
        VmState {
            stack: self.stack@,
            program: self.instructions@,
            pc: self.program_counter as int,
            input: self.input@,
            output: self.output@,
            halted: self.halted,
            execution_count: self.execution_count as int,
            halt_reason: self.halt_reason,
            instruction_limit: self.instruction_limit as int,
        }
    }
}

impl Clone for Interpreter {
    fn clone(&self) -> (c: Self)
        ensures
            c@ == self@,
    {
        Interpreter {
            stack: self.stack.clone(),
            instructions: self.instructions.clone(),
            program_counter: self.program_counter,
            input: self.input.clone(),
            output: self.output.clone(),
            halted: self.halted,
            execution_count: self.execution_count,
            halt_reason: self.halt_reason,
            instruction_limit: self.instruction_limit,
        }
    }
}

impl Default for Interpreter {
    /// An interpreter with no program, no input and an instruction limit of zero.
    fn default() -> (r: Self)
        ensures
            r.wf(),
            r@ == initial_state(Seq::empty(), Seq::empty(), 0),
    {
        let r = Interpreter {
            stack: Stack::default(),
            instructions: Vec::new(),
            program_counter: 0,
            input: Vec::new(),
            output: Stack::default(),
            halted: false,
            execution_count: 0,
            halt_reason: HaltReason::Undefined,
            instruction_limit: 0,
        };
        assert(r@ == initial_state(Seq::empty(), Seq::empty(), 0));
        r
    }
}

impl Interpreter {
    /// The bounds that every interpreter keeps.
    pub open spec fn wf(&self) -> bool {
        self@.wf()
    }

    /// Initialize a new interpreter with the [`Instruction`] bytes of a program
    /// and its input data. The input is read from its end.
    /// A program longer than [`MAX_INSTRUCTIONS`] is cut short to that length.
    /// The interpreter halts after [`MAX_INSTRUCTIONS`] instructions have been
    /// executed.
    pub fn new(program: Vec<Instruction>, input: Vec<MachineWord>) -> (r: Self)
        ensures
            r.wf(),
            r@ == initial_state(program@, input@, MAX_INSTRUCTIONS as int),
    {
        Self::new_with_program_and_limit(program, input, MAX_INSTRUCTIONS)
    }

    /// Same as [`Self::new`].
    pub fn new_from_program(program: Vec<Instruction>, input: Vec<MachineWord>) -> (r: Self)
        ensures
            r.wf(),
            r@ == initial_state(program@, input@, MAX_INSTRUCTIONS as int),
    {
        Self::new_with_program_and_limit(program, input, MAX_INSTRUCTIONS)
    }

    /// Like [`Self::new`] but with the number of instructions to execute
    /// before the interpreter halts.
    pub fn new_with_program_and_limit(
        program: Vec<Instruction>,
        input: Vec<MachineWord>,
        instruction_limit: usize,
    ) -> (r: Self)
        ensures
            r.wf(),
            r@ == initial_state(program@, input@, instruction_limit as int),
    {
        let ghost given = program@;
        let mut program = program;
        program.truncate(MAX_INSTRUCTIONS);
        let r = Interpreter {
            stack: Stack::default(),
            instructions: program,
            program_counter: 0,
            input,
            output: Stack::default(),
            halted: false,
            execution_count: 0,
            halt_reason: HaltReason::Undefined,
            instruction_limit,
        };
        assert(r@.program =~= initial_state(given, input@, instruction_limit as int).program);
        r
    }

    /// Returns `true` if the interpreter has halted.
    pub fn halted(&self) -> (r: bool)
        ensures
            r == self@.halted,
    {
        self.halted
    }

    /// Returns the reason why the interpreter was halted, or `None` if it is not halted.
    pub fn halt_reason(&self) -> (r: Option<HaltReason>)
        ensures
            r == (if self@.halted {
                Some(self@.halt_reason)
            } else {
                None
            }),
    {
        if self.halted {
            Some(self.halt_reason)
        } else {
            None
        }
    }

    /// Returns the contents of the output stack, most recent output first.
    pub fn output(&self) -> (r: Vec<MachineWord>)
        ensures
            r@ == listed_output(self@),
    {
        let oldest_first = self.output.to_vec();
        let mut r: Vec<MachineWord> = Vec::new();
        let mut k: usize = oldest_first.len();
        while k > 0
            invariant
                k <= oldest_first@.len(),
                r@ == oldest_first@.skip(k as int).reverse(),
            decreases k,
        {
            k = k - 1;
            r.push(oldest_first[k]);
            assert(r@ =~= oldest_first@.skip(k as int).reverse());
        }
        assert(oldest_first@.skip(0) =~= oldest_first@);
        r
    }

    /// The output stack.
    pub fn output_stack(&self) -> (r: &Stack<MachineWord, MAX_OUTPUT>)
        ensures
            r@ == self@.output,
    {
        &self.output
    }

    /// The main stack.
    pub fn stack(&self) -> (r: &Stack<MachineWord, MAX_STACK>)
        ensures
            r@ == self@.stack,
    {
        &self.stack
    }

    /// The input that has not been read yet; it is read from its end.
    pub fn input(&self) -> (r: &[MachineWord])
        ensures
            r@ == self@.input,
    {
        self.input.as_slice()
    }

    /// Index of the next instruction to fetch.
    pub fn program_counter(&self) -> (r: usize)
        ensures
            r == self@.pc,
    {
        self.program_counter
    }

    /// Number of instructions fetched so far.
    pub fn execution_count(&self) -> (r: usize)
        ensures
            r == self@.execution_count,
    {
        self.execution_count
    }

    /// Number of instructions after which [`Self::execute`] stops.
    pub fn instruction_limit(&self) -> (r: usize)
        ensures
            r == self@.instruction_limit,
    {
        self.instruction_limit
    }

    /// Sets the number of instructions counted as executed so far.
    pub fn set_execution_count(&mut self, count: usize)
        requires
            old(self).wf(),
        ensures
            final(self).wf(),
            final(self)@ == (VmState { execution_count: count as int, ..old(self)@ }),
    {
        self.execution_count = count;
    }

    /// The opcode at the program counter, or `None` at the end of the program.
    pub fn current_opcode(&self) -> (r: Option<OpCode>)
        requires
            self.wf(),
        ensures
            r == (if self@.pc < self@.program.len() {
                Some(decode_opcode(self@.program[self@.pc]))
            } else {
                None
            }),
    {
        if self.program_counter < self.instructions.len() {
            Some(OpCode::from(self.instructions[self.program_counter]))
        } else {
            None
        }
    }

    /// The immediate word that a `PushImm` at the program counter would push.
    pub fn peek_immediate(&self) -> (r: MachineWord)
        requires
            self.wf(),
        ensures
            r == immediate_word(self@.program, self@.pc + 1),
    {
        self.read_word_at(self.program_counter + 1)
    }

    /// The target of a jump at the program counter, taken modulo the program length.
    pub fn peek_jump_address(&self) -> (r: usize)
        requires
            self.wf(),
            self@.program.len() > 0,
        ensures
            r == jump_target(self@.program, self@.pc + 1),
    {
        self.read_address_at(self.program_counter + 1)
    }

    /// Execute the program until it halts:
    ///     - a `Halt` instruction is executed,
    ///     - the end of the program is reached, or
    ///     - the instruction limit is reached.
    pub fn execute(&mut self)
        requires
            old(self).wf(),
        ensures
            final(self).wf(),
            final(self)@ == run(old(self)@),
            final(self)@.halted,
            final(self)@.halt_reason != HaltReason::Undefined,
    {
        while self.execution_count < self.instruction_limit
            invariant
                self.wf(),
                run(self@) == run(old(self)@),
            decreases self.instruction_limit - self.execution_count,
        {
            let ghost before = self@;
            self.dispatch();
            if self.halted {
                return;
            }
            assert(self@.execution_count == before.execution_count + 1);
        }
        self.halted = true;
        self.halt_reason = HaltReason::MaxInstructions;
    }

    /// Fetch and execute the instruction at the program counter.
    ///
    /// If all instructions have been executed the interpreter halts.
    /// When halted, this function does nothing.
    pub fn dispatch(&mut self)
        requires
            old(self).wf(),
            !old(self)@.halted && old(self)@.pc < old(self)@.program.len()
                ==> old(self)@.execution_count < usize::MAX,
        ensures
            final(self).wf(),
            final(self)@ == step(old(self)@),
    {
        if self.halted {
            return;
        }
        if self.program_counter >= self.instructions.len() {
            self.halted = true;
            self.halt_reason = HaltReason::EndOfProgram;
            return;
        }
        let byte = self.instructions[self.program_counter];
        self.program_counter = self.program_counter + 1;
        self.execution_count = self.execution_count + 1;
        let op = OpCode::from(byte);
        match op {
            OpCode::Nop | OpCode::Round | OpCode::Trunc | OpCode::Ceil | OpCode::Floor => {},
            OpCode::Halt => self.op_halt(),
            OpCode::PushImm => self.op_push_imm(),
            OpCode::PushIn => self.op_push_in(),
            OpCode::PushOne => self.stack.push(1),
            OpCode::PushZero => self.stack.push(0),
            OpCode::PopOut => self.op_pop_out(),
            OpCode::Add | OpCode::Sub | OpCode::Mul | OpCode::Div | OpCode::ModDiv | OpCode::Min
            | OpCode::Max => self.op_binary(op),
            OpCode::Sqrt => self.op_sqrt(),
            OpCode::Neg => self.op_neg(),
            OpCode::Abs => self.op_abs(),
            OpCode::Swap => self.op_swap(),
            OpCode::Remove => {
                let _ = self.stack.pop();
            },
            OpCode::Dup => self.op_dup(),
            OpCode::Jmp | OpCode::JmpFin => self.op_jmp(),
            OpCode::JmpZero | OpCode::JmpAprxZero => {
                let taken = self.stack.peek() == 0;
                self.op_jmp_if(taken);
            },
            OpCode::JmpPos => {
                let taken = self.stack.peek() > 0;
                self.op_jmp_if(taken);
            },
            OpCode::JmpTos => self.op_jmp_tos(),
        }
    }

    fn op_halt(&mut self)
        requires
            old(self).wf(),
        ensures
            final(self).wf(),
            final(self)@ == operation(old(self)@, OpCode::Halt),
    {
        self.halted = true;
        self.halt_reason = HaltReason::HaltInstruction;
    }

    /// Instruction `i`, or zero past the end of the program.
    fn instruction_or_zero(&self, i: usize) -> (r: Instruction)
        ensures
            r == instruction_or_zero(self@.program, i as int),
    {
        if i < self.instructions.len() {
            self.instructions[i]
        } else {
            0
        }
    }

    /// Read the immediate word encoded at `at`; bytes past the end of the
    /// program are treated as zero.
    fn read_word_at(&self, at: usize) -> (w: MachineWord)
        requires
            at + INSTR_PER_WORD <= usize::MAX,
        ensures
            w == immediate_word(self@.program, at as int),
    {
        let parts = [
            self.instruction_or_zero(at),
            self.instruction_or_zero(at + 1),
            self.instruction_or_zero(at + 2),
            self.instruction_or_zero(at + 3),
        ];
        assert(parts@ =~= immediate_bytes(self@.program, at as int, INSTR_PER_WORD as nat));
        word_from_instructions(parts)
    }

    /// Read the jump target encoded at `at`, taken modulo the program length;
    /// bytes past the end of the program are treated as zero.
    fn read_address_at(&self, at: usize) -> (a: usize)
        requires
            at + INSTR_PER_ADDRESS <= usize::MAX,
            self@.program.len() > 0,
        ensures
            a == jump_target(self@.program, at as int),
            a < self@.program.len(),
    {
        let parts = [self.instruction_or_zero(at), self.instruction_or_zero(at + 1)];
        assert(parts@ =~= immediate_bytes(self@.program, at as int, INSTR_PER_ADDRESS as nat));
        let addr: Address = address_from_instructions(parts);
        (addr as usize) % self.instructions.len()
    }

    fn op_push_imm(&mut self)
        requires
            old(self).wf(),
            old(self)@.pc <= old(self)@.program.len(),
        ensures
            final(self).wf(),
            final(self)@ == operation(old(self)@, OpCode::PushImm),
    {
        let imm = self.read_word_at(self.program_counter);
        self.stack.push(imm);
        self.program_counter = self.program_counter + INSTR_PER_WORD;
    }

    fn op_push_in(&mut self)
        requires
            old(self).wf(),
        ensures
            final(self).wf(),
            final(self)@ == operation(old(self)@, OpCode::PushIn),
    {
        match self.input.pop() {
            Some(v) => self.stack.push(v),
            None => {},
        }
    }

    fn op_pop_out(&mut self)
        requires
            old(self).wf(),
        ensures
            final(self).wf(),
            final(self)@ == operation(old(self)@, OpCode::PopOut),
    {
        let v = self.stack.pop();
        self.output.push(v);
    }

    fn op_binary(&mut self, op: OpCode)
        requires
            old(self).wf(),
            is_binary(op),
        ensures
            final(self).wf(),
            final(self)@ == operation(old(self)@, op),
    {
        let b = self.stack.pop();
        let a = self.stack.pop();
        let r = match op {
            OpCode::Add => a.wrapping_add(b),
            OpCode::Sub => a.wrapping_sub(b),
            OpCode::Mul => a.wrapping_mul(b),
            OpCode::Div => word_quotient(a, b),
            OpCode::ModDiv => word_remainder(a, b),
            OpCode::Min => if a <= b {
                a
            } else {
                b
            },
            _ => if a >= b {
                a
            } else {
                b
            },
        };
        self.stack.push(r);
    }

    fn op_sqrt(&mut self)
        requires
            old(self).wf(),
        ensures
            final(self).wf(),
            final(self)@ == operation(old(self)@, OpCode::Sqrt),
    {
        let a = self.stack.pop();
        let m = unsigned_magnitude(a);
        let r = isqrt_u32(m);
        assert(r <= 46341) by (nonlinear_arith)
            requires
                r * r <= m,
                m <= 0x8000_0000,
        ;
        self.stack.push(r as MachineWord);
    }

    fn op_neg(&mut self)
        requires
            old(self).wf(),
        ensures
            final(self).wf(),
            final(self)@ == operation(old(self)@, OpCode::Neg),
    {
        let a = self.stack.pop();
        self.stack.push(word_saturating_neg(a));
    }

    fn op_abs(&mut self)
        requires
            old(self).wf(),
        ensures
            final(self).wf(),
            final(self)@ == operation(old(self)@, OpCode::Abs),
    {
        let a = self.stack.pop();
        self.stack.push(word_saturating_abs(a));
    }

    fn op_swap(&mut self)
        requires
            old(self).wf(),
        ensures
            final(self).wf(),
            final(self)@ == operation(old(self)@, OpCode::Swap),
    {
        let a = self.stack.pop();
        let b = self.stack.pop();
        self.stack.push(a);
        self.stack.push(b);
    }

    fn op_dup(&mut self)
        requires
            old(self).wf(),
        ensures
            final(self).wf(),
            final(self)@ == operation(old(self)@, OpCode::Dup),
    {
        let v = self.stack.peek();
        self.stack.push(v);
    }

    fn op_jmp(&mut self)
        requires
            old(self).wf(),
            old(self)@.pc <= old(self)@.program.len(),
            old(self)@.program.len() > 0,
        ensures
            final(self).wf(),
            final(self)@ == operation(old(self)@, OpCode::Jmp),
    {
        self.program_counter = self.read_address_at(self.program_counter);
    }

    /// Jump to the target encoded at the program counter if `taken`, else skip it.
    fn op_jmp_if(&mut self, taken: bool)
        requires
            old(self).wf(),
            old(self)@.pc <= old(self)@.program.len(),
            old(self)@.program.len() > 0,
        ensures
            final(self).wf(),
            final(self)@ == old(self)@.jump_if(taken),
    {
        if taken {
            self.program_counter = self.read_address_at(self.program_counter);
        } else {
            self.program_counter = self.program_counter + INSTR_PER_ADDRESS;
        }
    }

    fn op_jmp_tos(&mut self)
        requires
            old(self).wf(),
            old(self)@.program.len() > 0,
        ensures
            final(self).wf(),
            final(self)@ == operation(old(self)@, OpCode::JmpTos),
    {
        let a = self.stack.pop();
        let addr = word_saturating_abs(a);
        self.program_counter = (addr as usize) % self.instructions.len();
    }
}

/// Whether `op` jumps (unconditionally, or depending on the top of the stack).
pub open spec fn is_jump(op: OpCode) -> bool {
    op.takes_address() || op == OpCode::JmpTos
}

/// Executing an instruction never changes the instruction count or the limit;
/// only fetching counts.
proof fn lemma_operation_keeps_counts(s: VmState, op: OpCode)
    ensures
        operation(s, op).execution_count == s.execution_count,
        operation(s, op).instruction_limit == s.instruction_limit,
        operation(s, op).program == s.program,
{
}

/// A halted machine does not change.
pub proof fn law_halted_machine_is_unchanged(s: VmState)
    requires
        s.halted,
    ensures
        step(s) == s,
        run(s).halted,
{
    if s.execution_count < s.instruction_limit {
        assert(run(s) == step(s));
    }
}

/// A step from a well-formed state leads to a well-formed state: the program
/// is never changed, the stacks stay within their capacities and the program
/// counter stays within the program (plus the operands of its last instruction).
pub proof fn law_step_keeps_bounds(s: VmState)
    requires
        s.wf(),
    ensures
        step(s).wf(),
        step(s).program == s.program,
{
    if !s.halted && s.pc < s.program.len() {
        let f = VmState { pc: s.pc + 1, execution_count: s.execution_count + 1, ..s };
        let op = decode_opcode(s.program[s.pc]);
        lemma_operation_keeps_counts(f, op);
    }
}

/// Jumps are always in bounds: a jump that is taken lands inside the
/// program (its target is taken modulo the program length); a conditional
/// jump that is not taken continues after its address.
pub proof fn law_jumps_stay_in_program(s: VmState)
    requires
        s.wf(),
        !s.halted,
        s.pc < s.program.len(),
        is_jump(decode_opcode(s.program[s.pc])),
    ensures
        0 <= step(s).pc < s.program.len() || step(s).pc == s.pc + 1 + INSTR_PER_ADDRESS,
        decode_opcode(s.program[s.pc]) == OpCode::Jmp || decode_opcode(s.program[s.pc])
            == OpCode::JmpFin || decode_opcode(s.program[s.pc]) == OpCode::JmpTos ==> 0 <= step(
            s,
        ).pc < s.program.len(),
{
}

/// With integer words the float-only instructions do nothing, `JmpAprxZero`
/// behaves like `JmpZero` and `JmpFin` like `Jmp`.
pub proof fn law_integer_words(s: VmState)
    ensures
        operation(s, OpCode::Round) == s,
        operation(s, OpCode::Trunc) == s,
        operation(s, OpCode::Ceil) == s,
        operation(s, OpCode::Floor) == s,
        operation(s, OpCode::JmpAprxZero) == operation(s, OpCode::JmpZero),
        operation(s, OpCode::JmpFin) == operation(s, OpCode::Jmp),
{
}

/// Running always ends in a halted machine, having fetched no more
/// instructions than the limit allows (none if the count is already at or
/// past it); it stops because of the limit only once the limit has been
/// reached exactly. From a well-formed state it ends in a well-formed state,
/// so the machine always ends with a defined halt reason.
pub proof fn law_execution_is_bounded(s: VmState)
    ensures
        run(s).halted,
        s.execution_count <= run(s).execution_count,
        run(s).execution_count <= if s.execution_count <= s.instruction_limit {
            s.instruction_limit
        } else {
            s.execution_count
        },
        s.execution_count <= s.instruction_limit && !s.halted && run(s).halt_reason
            == HaltReason::MaxInstructions ==> run(s).execution_count == s.instruction_limit,
        s.wf() ==> run(s).wf(),
        s.wf() ==> run(s).halt_reason != HaltReason::Undefined,
    decreases s.instruction_limit - s.execution_count,
{
    if s.execution_count < s.instruction_limit {
        let t = step(s);
        if s.wf() {
            law_step_keeps_bounds(s);
        }
        if !s.halted && s.pc < s.program.len() {
            let f = VmState { pc: s.pc + 1, execution_count: s.execution_count + 1, ..s };
            lemma_operation_keeps_counts(f, decode_opcode(s.program[s.pc]));
            assert(t.execution_count == s.execution_count + 1);
            if !t.halted {
                law_execution_is_bounded(t);
            } else {
                assert(t.halt_reason != HaltReason::MaxInstructions);
            }
        }
    }
}

} // verus!
