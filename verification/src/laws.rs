//! What each instruction does, stated directly over the bytes of the program
//! and the values on the stack, and proved of [`step`] (and so of
//! [`Interpreter::dispatch`](crate::interpreter::Interpreter::dispatch)).
//!
//! Opcodes are named here by their numbers (the byte taken modulo 30), as the
//! instruction table of the machine numbers them.
use crate::consts::MachineWord;
use crate::disassembler::listing_from;
use crate::instr::{OpCode, decode_opcode};
use crate::interpreter::{VmState, step};
use vstd::prelude::*;

verus! {

/// The machine is running and fetches an instruction whose byte, taken
/// modulo 30, is `n`.
pub open spec fn fetches(s: VmState, n: int) -> bool {
    &&& s.wf()
    &&& !s.halted
    &&& 0 <= s.pc < s.program.len()
    &&& s.program[s.pc] % 30 == n
}

/// The `k`-th value from the top of the stack (`0` is the top), zero past the bottom.
pub open spec fn stack_value(s: VmState, k: int) -> int {
    if 0 <= k < s.stack.len() {
        s.stack[s.stack.len() - 1 - k] as int
    } else {
        0
    }
}

/// The stack without its `k` top values (empty if it holds fewer).
pub open spec fn stack_below(s: VmState, k: int) -> Seq<MachineWord> {
    if s.stack.len() >= k {
        s.stack.take(s.stack.len() - k)
    } else {
        Seq::empty()
    }
}

/// Program byte `k` places after the opcode, zero past the end of the program.
pub open spec fn operand_byte(s: VmState, k: int) -> int {
    if s.pc + k < s.program.len() {
        s.program[s.pc + k] as int
    } else {
        0
    }
}

/// The jump target encoded after the opcode (little endian), modulo the program length.
pub open spec fn encoded_target(s: VmState) -> int {
    (operand_byte(s, 1) + 256 * operand_byte(s, 2)) % (s.program.len() as int)
}

/// Everything but the program counter, the stack and the count is as before,
/// the count has gone up by one and the machine still runs.
pub open spec fn counted_one(s: VmState, t: VmState) -> bool {
    &&& t.program == s.program
    &&& t.input == s.input
    &&& t.output == s.output
    &&& !t.halted
    &&& t.halt_reason == s.halt_reason
    &&& t.execution_count == s.execution_count + 1
    &&& t.instruction_limit == s.instruction_limit
}

/// `JmpZero` and `JmpAprxZero` (with integer words) jump to their target
/// exactly when the top of the stack is zero; otherwise they continue after
/// their address. They do not pop.
#[verifier::spinoff_prover]
pub proof fn law_jump_if_zero(s: VmState)
    requires
        fetches(s, 25) || fetches(s, 26),
    ensures
        stack_value(s, 0) == 0 ==> step(s).pc == encoded_target(s),
        stack_value(s, 0) != 0 ==> step(s).pc == s.pc + 3,
        step(s).stack == s.stack,
        counted_one(s, step(s)),
{
}

/// `JmpPos` jumps to its target exactly when the top of the stack is
/// positive; otherwise it continues after its address. It does not pop.
#[verifier::spinoff_prover]
pub proof fn law_jump_if_positive(s: VmState)
    requires
        fetches(s, 27),
    ensures
        stack_value(s, 0) > 0 ==> step(s).pc == encoded_target(s),
        stack_value(s, 0) <= 0 ==> step(s).pc == s.pc + 3,
        step(s).stack == s.stack,
        counted_one(s, step(s)),
{
}

/// `Jmp` and `JmpFin` (with integer words) always jump to their target.
#[verifier::spinoff_prover]
pub proof fn law_jump_always(s: VmState)
    requires
        fetches(s, 24) || fetches(s, 28),
    ensures
        step(s).pc == encoded_target(s),
        step(s).stack == s.stack,
        counted_one(s, step(s)),
{
}

/// `JmpTos` pops the top value and jumps to its magnitude modulo the program
/// length (the magnitude of the smallest word saturates to the largest), so a
/// value and its negation jump to the same place.
#[verifier::spinoff_prover]
pub proof fn law_jump_to_top(s: VmState)
    requires
        fetches(s, 29),
    ensures
        step(s).pc == (if stack_value(s, 0) == MachineWord::MIN {
            MachineWord::MAX as int
        } else if stack_value(s, 0) < 0 {
            -stack_value(s, 0)
        } else {
            stack_value(s, 0)
        }) % (s.program.len() as int),
        step(s).stack == stack_below(s, 1),
        counted_one(s, step(s)),
{
}

/// The result that an instruction left on top of the stack.
pub open spec fn result(s: VmState) -> int {
    step(s).stack.last() as int
}

/// The two operand instructions pop the top value `b` and the one below it
/// `a` (zero where the stack runs out) and push one result.
pub open spec fn replaces_two_by_result(s: VmState) -> bool {
    &&& step(s).stack == stack_below(s, 2).push(step(s).stack.last())
    &&& step(s).pc == s.pc + 1
    &&& counted_one(s, step(s))
}

/// `Add`, `Sub` and `Mul` give the sum, difference (`a - b`) and product of
/// the second value `a` and the top value `b`, wrapped to a word: the result
/// differs from the exact value by a multiple of 2^32.
#[verifier::spinoff_prover]
pub proof fn law_wrapping_arithmetic(s: VmState)
    requires
        fetches(s, 7) || fetches(s, 8) || fetches(s, 9),
    ensures
        replaces_two_by_result(s),
        fetches(s, 7) ==> (result(s) - (stack_value(s, 1) + stack_value(s, 0))) % 0x1_0000_0000 == 0,
        fetches(s, 8) ==> (result(s) - (stack_value(s, 1) - stack_value(s, 0))) % 0x1_0000_0000 == 0,
        fetches(s, 9) ==> (result(s) - stack_value(s, 1) * stack_value(s, 0)) % 0x1_0000_0000 == 0,
{
    lemma_two_operands(s);
}

/// `Min` gives the smaller and `Max` the larger of the second value `a` and
/// the top value `b`, compared as signed words.
#[verifier::spinoff_prover]
pub proof fn law_min_max(s: VmState)
    requires
        fetches(s, 12) || fetches(s, 13),
    ensures
        replaces_two_by_result(s),
        result(s) == stack_value(s, 1) || result(s) == stack_value(s, 0),
        fetches(s, 12) ==> result(s) <= stack_value(s, 1) && result(s) <= stack_value(s, 0),
        fetches(s, 13) ==> result(s) >= stack_value(s, 1) && result(s) >= stack_value(s, 0),
{
    lemma_two_operands(s);
}

/// The operands of a two operand instruction, as the machine pops them.
proof fn lemma_two_operands(s: VmState)
    requires
        s.wf(),
    ensures
        crate::interpreter::top_of(s.stack) == stack_value(s, 0),
        crate::interpreter::top_of(crate::stack::popped(s.stack)) == stack_value(s, 1),
        crate::stack::popped(crate::stack::popped(s.stack)) == stack_below(s, 2),
{
    assert(crate::stack::popped(crate::stack::popped(s.stack)) =~= stack_below(s, 2));
}

/// The magnitude of a value (of the smallest word: one more than the largest).
pub open spec fn abs_int(x: int) -> int {
    if x < 0 {
        -x
    } else {
        x
    }
}

/// `Div` divides the second value `a` by the top value `b`, rounding toward
/// zero: `a == q * b + m` with `|m| < |b|` and `m` zero or of the sign of `a`.
/// Where no such word `q` exists (`b == 0`, or `MIN / -1`) the result is zero.
#[verifier::spinoff_prover]
pub proof fn law_division(s: VmState)
    requires
        fetches(s, 10),
    ensures
        replaces_two_by_result(s),
        ({
            let a = stack_value(s, 1);
            let b = stack_value(s, 0);
            let q = result(s);
            let m = a - q * b;
            if b == 0 || (a == MachineWord::MIN && b == -1) {
                q == 0
            } else {
                abs_int(m) < abs_int(b) && (m == 0 || (m > 0) == (a > 0))
            }
        }),
{
    lemma_two_operands(s);
    let a = stack_value(s, 1);
    let b = stack_value(s, 0);
    let q = result(s);
    assert(q == crate::numeric::quotient(a as MachineWord, b as MachineWord));
    if !(b == 0 || (a == MachineWord::MIN && b == -1)) {
        lemma_truncated_division(a, b);
    }
}

/// `ModDiv` gives the remainder `m` of the second value `a` divided by the
/// top value `b` rounding toward zero: `a - m` is a multiple of `|b|`, `|m| < |b|`
/// and `m` is zero or of the sign of `a`. Where it does not exist (`b == 0`,
/// or `MIN % -1`) the result is zero.
#[verifier::spinoff_prover]
pub proof fn law_remainder(s: VmState)
    requires
        fetches(s, 11),
    ensures
        replaces_two_by_result(s),
        ({
            let a = stack_value(s, 1);
            let b = stack_value(s, 0);
            let m = result(s);
            if b == 0 || (a == MachineWord::MIN && b == -1) {
                m == 0
            } else {
                abs_int(m) < abs_int(b) && (m == 0 || (m > 0) == (a > 0)) && (a - m) % abs_int(b) == 0
            }
        }),
{
    lemma_two_operands(s);
    let a = stack_value(s, 1);
    let b = stack_value(s, 0);
    if !(b == 0 || (a == MachineWord::MIN && b == -1)) {
        lemma_truncated_division(a, b);
    }
}

/// The quotient and remainder of truncated division, as the words `checked_div`
/// and `checked_rem` give them.
proof fn lemma_truncated_division(a: int, b: int)
    requires
        MachineWord::MIN <= a <= MachineWord::MAX,
        MachineWord::MIN <= b <= MachineWord::MAX,
        b != 0,
        !(a == MachineWord::MIN && b == -1),
    ensures
        ({
            let q = crate::numeric::quotient(a as MachineWord, b as MachineWord) as int;
            let m = a - q * b;
            abs_int(m) < abs_int(b) && (m == 0 || (m > 0) == (a > 0))
        }),
        ({
            let q = crate::numeric::quotient(a as MachineWord, b as MachineWord) as int;
            crate::numeric::remainder(a as MachineWord, b as MachineWord) == a - q * b
        }),
        ({
            let m = crate::numeric::remainder(a as MachineWord, b as MachineWord) as int;
            (a - m) % abs_int(b) == 0
        }),
{
    let x = abs_int(a);
    let d = abs_int(b);
    vstd::arithmetic::div_mod::lemma_fundamental_div_mod(x, d);
    let qq = x / d;
    let rr = x % d;
    assert(0 <= rr < d);
    assert(0 <= qq <= x) by (nonlinear_arith)
        requires
            x == d * qq + rr,
            0 <= rr < d,
            d >= 1,
            x >= 0,
    ;
    // The words that checked_div and checked_rem give: the quotient and
    // remainder of the magnitudes, with the signs of truncated division.
    let sq: int = if (a >= 0) == (b > 0) || a == 0 {
        qq
    } else {
        -qq
    };
    let sr: int = if a >= 0 {
        rr
    } else {
        -rr
    };
    assert(sq != 0x8000_0000) by {
        if sq == 0x8000_0000 {
            assert(qq == 0x8000_0000);
            assert(x == 0x8000_0000);
            assert(d == 1) by (nonlinear_arith)
                requires
                    x == d * qq + rr,
                    0 <= rr < d,
                    qq == 0x8000_0000,
                    x == 0x8000_0000,
            ;
        }
    }
    assert(crate::numeric::quotient(a as MachineWord, b as MachineWord) as int == sq);
    assert(crate::numeric::remainder(a as MachineWord, b as MachineWord) as int == sr);
    let sb: int = if b > 0 {
        1
    } else {
        -1
    };
    assert(b == sb * d);
    if a >= 0 {
        assert(a == x);
        if b > 0 {
            assert(sq == qq && sr == rr);
            assert(a - sq * b == sr) by (nonlinear_arith)
                requires
                    a == d * qq + rr,
                    b == d,
                    sq == qq,
                    sr == rr,
            ;
        } else if a == 0 {
            assert(qq == 0 && rr == 0) by (nonlinear_arith)
                requires
                    0 == d * qq + rr,
                    0 <= rr < d,
                    qq >= 0,
            ;
            assert(a - sq * b == sr) by (nonlinear_arith)
                requires
                    sq == 0,
                    sr == 0,
                    a == 0,
            ;
        } else {
            assert(sq == -qq && sr == rr);
            assert(a - sq * b == sr) by (nonlinear_arith)
                requires
                    a == d * qq + rr,
                    b == -d,
                    sq == -qq,
                    sr == rr,
            ;
        }
    } else {
        assert(a == -x);
        if b > 0 {
            assert(sq == -qq && sr == -rr);
            assert(a - sq * b == sr) by (nonlinear_arith)
                requires
                    -a == d * qq + rr,
                    b == d,
                    sq == -qq,
                    sr == -rr,
            ;
        } else {
            assert(sq == qq && sr == -rr);
            assert(a - sq * b == sr) by (nonlinear_arith)
                requires
                    -a == d * qq + rr,
                    b == -d,
                    sq == qq,
                    sr == -rr,
            ;
        }
    }
    assert((a - sr) % d == 0) by {
        assert(a - sr == (sq * sb) * d) by (nonlinear_arith)
            requires
                a - sr == sq * b,
                b == sb * d,
        ;
        vstd::arithmetic::div_mod::lemma_mod_multiples_basic(sq * sb, d);
    }
}

/// The one operand instructions pop the top value and push one result.
pub open spec fn replaces_top_by_result(s: VmState) -> bool {
    &&& step(s).stack == stack_below(s, 1).push(step(s).stack.last())
    &&& step(s).pc == s.pc + 1
    &&& counted_one(s, step(s))
}

/// `Sqrt` gives the integer square root of the magnitude of the top value:
/// the `r >= 0` with `r * r <= |a| < (r + 1) * (r + 1)`.
#[verifier::spinoff_prover]
pub proof fn law_square_root(s: VmState)
    requires
        fetches(s, 14),
    ensures
        replaces_top_by_result(s),
        result(s) >= 0,
        result(s) * result(s) <= abs_int(stack_value(s, 0)),
        abs_int(stack_value(s, 0)) < (result(s) + 1) * (result(s) + 1),
{
    let a = stack_value(s, 0);
    let n = crate::numeric::magnitude(a as MachineWord);
    let r = crate::numeric::isqrt(n);
    assert(crate::stack::popped(s.stack) =~= stack_below(s, 1));
    assert(n == abs_int(a));
    assert(n <= 0x8000_0000);
    lemma_isqrt_exists(n);
    assert(crate::numeric::is_isqrt(n, r));
    assert(r <= 46341) by (nonlinear_arith)
        requires
            r >= 0,
            r * r <= n,
            n <= 0x8000_0000,
    ;
}

/// Every natural number has an integer square root.
proof fn lemma_isqrt_exists(n: int)
    requires
        0 <= n,
    ensures
        exists|r: int| #[trigger] crate::numeric::is_isqrt(n, r),
    decreases n,
{
    if n == 0 {
        assert(crate::numeric::is_isqrt(0, 0));
    } else {
        lemma_isqrt_exists(n - 1);
        let r = choose|r: int| #[trigger] crate::numeric::is_isqrt(n - 1, r);
        if (r + 1) * (r + 1) <= n {
            assert((r + 1) * (r + 1) <= n < (r + 2) * (r + 2)) by (nonlinear_arith)
                requires
                    r >= 0,
                    n - 1 < (r + 1) * (r + 1),
                    (r + 1) * (r + 1) <= n,
            ;
            assert(crate::numeric::is_isqrt(n, r + 1));
        } else {
            assert(crate::numeric::is_isqrt(n, r));
        }
    }
}

/// `Neg` negates and `Abs` takes the magnitude of the top value; the
/// negation and the magnitude of the smallest word saturate to the largest.
pub proof fn law_negation_and_magnitude(s: VmState)
    requires
        fetches(s, 19) || fetches(s, 20),
    ensures
        replaces_top_by_result(s),
        fetches(s, 19) && stack_value(s, 0) != MachineWord::MIN ==> result(s) == -stack_value(s, 0),
        fetches(s, 20) && stack_value(s, 0) != MachineWord::MIN ==> result(s) == abs_int(
            stack_value(s, 0),
        ),
        stack_value(s, 0) == MachineWord::MIN ==> result(s) == MachineWord::MAX,
{
    assert(crate::stack::popped(s.stack) =~= stack_below(s, 1));
}

/// `Swap` exchanges the top two values (zero where the stack runs out).
pub proof fn law_swap(s: VmState)
    requires
        fetches(s, 21),
    ensures
        step(s).stack == stack_below(s, 2).push(stack_value(s, 0) as MachineWord).push(
            stack_value(s, 1) as MachineWord,
        ),
        step(s).pc == s.pc + 1,
        counted_one(s, step(s)),
{
    lemma_two_operands(s);
}

/// `Remove` drops the top value; `Dup` pushes a copy of it (zero if the stack is empty).
pub proof fn law_remove_and_dup(s: VmState)
    requires
        fetches(s, 22) || fetches(s, 23),
    ensures
        fetches(s, 22) ==> step(s).stack == stack_below(s, 1),
        fetches(s, 23) ==> step(s).stack == crate::stack::bounded_push(
            s.stack,
            crate::consts::MAX_STACK as nat,
            stack_value(s, 0) as MachineWord,
        ),
        step(s).pc == s.pc + 1,
        counted_one(s, step(s)),
{
    assert(crate::stack::popped(s.stack) =~= stack_below(s, 1));
}

/// The little endian value of the four program bytes after the opcode (zero
/// past the end), as a signed word.
pub open spec fn encoded_word(s: VmState) -> int {
    let v = operand_byte(s, 1) + 256 * operand_byte(s, 2) + 65536 * operand_byte(s, 3) + 16777216
        * operand_byte(s, 4);
    if v < 0x8000_0000 {
        v
    } else {
        v - 0x1_0000_0000
    }
}

/// `PushImm` pushes the word encoded in the four bytes after it and skips them;
/// `PushOne` pushes one and `PushZero` zero.
pub proof fn law_push_constants(s: VmState)
    requires
        fetches(s, 2) || fetches(s, 4) || fetches(s, 5),
    ensures
        fetches(s, 2) ==> step(s).stack == crate::stack::bounded_push(
            s.stack,
            crate::consts::MAX_STACK as nat,
            encoded_word(s) as MachineWord,
        ) && step(s).pc == s.pc + 5,
        fetches(s, 4) ==> step(s).stack == crate::stack::bounded_push(
            s.stack,
            crate::consts::MAX_STACK as nat,
            1,
        ) && step(s).pc == s.pc + 1,
        fetches(s, 5) ==> step(s).stack == crate::stack::bounded_push(
            s.stack,
            crate::consts::MAX_STACK as nat,
            0,
        ) && step(s).pc == s.pc + 1,
        counted_one(s, step(s)),
{
    if fetches(s, 2) {
        let b = crate::interpreter::immediate_bytes(s.program, s.pc + 1, 4);
        assert(b[0] == operand_byte(s, 1));
        assert(b[1] == operand_byte(s, 2));
        assert(b[2] == operand_byte(s, 3));
        assert(b[3] == operand_byte(s, 4));
    }
}

/// `PushIn` moves the last input value onto the stack, and does nothing when
/// the input is empty.
pub proof fn law_push_input(s: VmState)
    requires
        fetches(s, 3),
    ensures
        s.input.len() == 0 ==> step(s).stack == s.stack && step(s).input == s.input,
        s.input.len() > 0 ==> step(s).stack == crate::stack::bounded_push(
            s.stack,
            crate::consts::MAX_STACK as nat,
            s.input.last(),
        ) && step(s).input == s.input.drop_last(),
        step(s).pc == s.pc + 1,
        step(s).output == s.output,
        step(s).execution_count == s.execution_count + 1,
        !step(s).halted,
{
}

/// `PopOut` moves the top value (zero if the stack is empty) onto the output
/// stack, where the output lists it first.
pub proof fn law_pop_output(s: VmState)
    requires
        fetches(s, 6),
    ensures
        step(s).stack == stack_below(s, 1),
        step(s).output == crate::stack::bounded_push(
            s.output,
            crate::consts::MAX_OUTPUT as nat,
            stack_value(s, 0) as MachineWord,
        ),
        crate::interpreter::listed_output(step(s))[0] == stack_value(s, 0),
        s.output.len() < crate::consts::MAX_OUTPUT ==> crate::interpreter::listed_output(step(s))
            == seq![stack_value(s, 0) as MachineWord] + crate::interpreter::listed_output(s),
        crate::interpreter::listed_output(step(s)).len() <= crate::consts::MAX_OUTPUT,
        step(s).pc == s.pc + 1,
        step(s).input == s.input,
        step(s).execution_count == s.execution_count + 1,
        !step(s).halted,
{
    assert(crate::stack::popped(s.stack) =~= stack_below(s, 1));
    let t = step(s);
    if s.output.len() < crate::consts::MAX_OUTPUT {
        assert(crate::interpreter::listed_output(t) =~= seq![stack_value(s, 0) as MachineWord]
            + crate::interpreter::listed_output(s));
    }
}

/// `Halt` stops the machine for that reason; `Nop`, `Round`, `Trunc`, `Ceil`
/// and `Floor` (with integer words) only move on.
pub proof fn law_halt_and_no_ops(s: VmState)
    requires
        fetches(s, 1) || fetches(s, 0) || fetches(s, 15) || fetches(s, 16) || fetches(s, 17)
            || fetches(s, 18),
    ensures
        fetches(s, 1) ==> step(s).halted && step(s).halt_reason
            == crate::interpreter::HaltReason::HaltInstruction,
        !fetches(s, 1) ==> counted_one(s, step(s)),
        step(s).stack == s.stack,
        step(s).pc == s.pc + 1,
        step(s).execution_count == s.execution_count + 1,
{
}

/// Past the end of the program the machine halts for that reason without
/// counting an instruction.
pub proof fn law_end_of_program(s: VmState)
    requires
        !s.halted,
        s.pc >= s.program.len(),
    ensures
        step(s).halted,
        step(s).halt_reason == crate::interpreter::HaltReason::EndOfProgram,
        step(s).execution_count == s.execution_count,
        step(s).stack == s.stack,
        step(s).output == s.output,
{
}

/// The value of a digit character: `0`-`9`, then `a`-`f` for ten to fifteen;
/// -1 for any other character.
pub open spec fn digit_value(c: char) -> int {
    if '0' <= c <= '9' {
        c as int - '0' as int
    } else if 'a' <= c <= 'f' {
        c as int - 'a' as int + 10
    } else {
        -1
    }
}

/// Every character of `t` is a digit of `base`.
pub open spec fn all_digits_of(t: Seq<char>, base: int) -> bool {
    forall|i: int| 0 <= i < t.len() ==> 0 <= #[trigger] digit_value(t[i]) < base
}

/// The value of the numeral `t` in `base`, most significant digit first.
pub open spec fn numeral_value(t: Seq<char>, base: int) -> int
    decreases t.len(),
{
    if t.len() == 0 {
        0
    } else {
        base * numeral_value(t.drop_last(), base) + digit_value(t.last())
    }
}

/// The decimal digits of `n`, read back as a numeral, give `n`; there is at
/// least one and no leading zero.
pub proof fn law_decimal_digits(n: nat)
    ensures
        crate::numeric::decimal_digits(n).len() >= 1,
        all_digits_of(crate::numeric::decimal_digits(n), 10),
        numeral_value(crate::numeric::decimal_digits(n), 10) == n,
        n > 0 ==> crate::numeric::decimal_digits(n)[0] != '0',
    decreases n,
{
    let t = crate::numeric::decimal_digits(n);
    if n < 10 {
        assert(t.drop_last() =~= Seq::<char>::empty());
        assert(digit_value(t.last()) == n);
        assert(numeral_value(t, 10) == 10 * numeral_value(t.drop_last(), 10) + digit_value(t.last()));
    } else {
        law_decimal_digits(n / 10);
        let front = crate::numeric::decimal_digits(n / 10);
        assert(t.drop_last() =~= front);
        assert(digit_value(t.last()) == n % 10);
        vstd::arithmetic::div_mod::lemma_fundamental_div_mod(n as int, 10);
        assert(numeral_value(t, 10) == 10 * numeral_value(front, 10) + digit_value(t.last()));
        assert(t[0] == front[0]);
        assert forall|i: int| 0 <= i < t.len() implies 0 <= #[trigger] digit_value(t[i]) < 10 by {
            if i < t.len() - 1 {
                assert(t[i] == front[i]);
            }
        }
    }
}

/// The decimal text of a word read back as a numeral gives the word: a `-`
/// exactly for negative words, then the digits of its magnitude.
pub proof fn law_decimal_text(w: MachineWord)
    ensures
        w < 0 ==> crate::numeric::decimal_text(w)[0] == '-' && numeral_value(
            crate::numeric::decimal_text(w).drop_first(),
            10,
        ) == -w && all_digits_of(crate::numeric::decimal_text(w).drop_first(), 10),
        w >= 0 ==> numeral_value(crate::numeric::decimal_text(w), 10) == w && all_digits_of(
            crate::numeric::decimal_text(w),
            10,
        ),
        crate::numeric::decimal_text(w).len() >= 1,
{
    if w < 0 {
        law_decimal_digits((-w) as nat);
        assert(crate::numeric::decimal_text(w).drop_first() =~= crate::numeric::decimal_digits(
            (-w) as nat,
        ));
    } else {
        law_decimal_digits(w as nat);
    }
}

/// The hexadecimal digits of `n` padded to `width`, read back as a numeral,
/// give `n`; there are at least `width` (and one) of them, lowercase, with a
/// leading zero only where padding asks for it.
pub proof fn law_hex_digits(n: nat, width: nat)
    ensures
        crate::text::hex_digits(n, width).len() >= width,
        crate::text::hex_digits(n, width).len() >= 1,
        all_digits_of(crate::text::hex_digits(n, width), 16),
        numeral_value(crate::text::hex_digits(n, width), 16) == n,
        n > 0 && crate::text::hex_digits(n, width).len() > width ==> crate::text::hex_digits(
            n,
            width,
        )[0] != '0',
    decreases n + width,
{
    let t = crate::text::hex_digits(n, width);
    if n < 16 && width <= 1 {
        assert(t.drop_last() =~= Seq::<char>::empty());
        assert(digit_value(t.last()) == n);
        assert(numeral_value(t, 16) == 16 * numeral_value(t.drop_last(), 16) + digit_value(t.last()));
    } else {
        let w2: nat = if width > 0 {
            (width - 1) as nat
        } else {
            0
        };
        law_hex_digits(n / 16, w2);
        let front = crate::text::hex_digits(n / 16, w2);
        assert(t.drop_last() =~= front);
        assert(digit_value(t.last()) == n % 16);
        vstd::arithmetic::div_mod::lemma_fundamental_div_mod(n as int, 16);
        assert(numeral_value(t, 16) == 16 * numeral_value(front, 16) + digit_value(t.last()));
        if n / 16 == 0 {
            lemma_hex_zero_len(w2);
        }
        assert(t[0] == front[0]);
        assert forall|i: int| 0 <= i < t.len() implies 0 <= #[trigger] digit_value(t[i]) < 16 by {
            if i < t.len() - 1 {
                assert(t[i] == front[i]);
            }
        }
    }
}

/// Zero in hexadecimal padded to `width` digits takes `width` digits (one if
/// `width` is zero).
proof fn lemma_hex_zero_len(width: nat)
    ensures
        crate::text::hex_digits(0, width).len() == if width == 0 {
            1
        } else {
            width
        },
    decreases width,
{
    if width > 1 {
        lemma_hex_zero_len((width - 1) as nat);
    }
}

/// A number below 16^w takes exactly `w` padded hex digits (for the widths
/// of the listing: two and four).
proof fn lemma_hex_width(n: nat, w: nat)
    requires
        (w == 2 && n < 256) || (w == 4 && n < 65536),
    ensures
        crate::text::hex_digits(n, w).len() == w,
{
    let n1 = n / 16;
    let n2 = n1 / 16;
    let n3 = n2 / 16;
    assert(crate::text::hex_digits(n, w) == crate::text::hex_digits(n1, (w - 1) as nat).push(
        crate::text::hex_char((n % 16) as int),
    ));
    if w == 2 {
        assert(n1 < 16);
        assert(crate::text::hex_digits(n1, 1).len() == 1);
    } else {
        assert(n3 < 16);
        assert(crate::text::hex_digits(n3, 1).len() == 1);
        assert(crate::text::hex_digits(n2, 2) == crate::text::hex_digits(n3, 1).push(
            crate::text::hex_char((n2 % 16) as int),
        ));
        assert(crate::text::hex_digits(n1, 3) == crate::text::hex_digits(n2, 2).push(
            crate::text::hex_char((n1 % 16) as int),
        ));
    }
}

/// The number that the `w` hex digits of `t` from `at` spell.
pub open spec fn hex_field(t: Seq<char>, at: int, w: int) -> int {
    numeral_value(t.subrange(at, at + w), 16)
}

/// Whether `t` holds only spaces from `from` up to `to`.
pub open spec fn blank(t: Seq<char>, from: int, to: int) -> bool {
    forall|k: int| from <= k < to ==> #[trigger] t[k] == ' '
}

/// The start of every listed line: `0x`, the address in four hex digits,
/// `: ` and the opcode byte in two hex digits.
pub open spec fn line_starts_right(t: Seq<char>, p: Seq<u8>, i: int) -> bool {
    &&& t.len() >= 10
    &&& t[0] == '0' && t[1] == 'x'
    &&& all_digits_of(t.subrange(2, 6), 16) && hex_field(t, 2, 4) == i
    &&& t[6] == ':' && t[7] == ' '
    &&& all_digits_of(t.subrange(8, 10), 16) && hex_field(t, 8, 2) == p[i]
}

/// The mnemonic of `op` in the column of fifteen characters from 23,
/// preceded by a space.
pub open spec fn mnemonic_in_column(t: Seq<char>, op: OpCode) -> bool {
    &&& t.len() >= 38
    &&& t[22] == ' '
    &&& t.subrange(23, 23 + op.mnemonic_of().len() as int) == op.mnemonic_of()
    &&& blank(t, 23 + op.mnemonic_of().len() as int, 38)
}

proof fn lemma_line_start(p: Seq<u8>, i: int, rest: Seq<char>)
    requires
        0 <= i < p.len(),
        i < 0x1_0000,
    ensures
        line_starts_right(crate::disassembler::line_start(p, i) + rest, p, i),
        crate::disassembler::line_start(p, i).len() == 10,
{
    let t = crate::disassembler::line_start(p, i) + rest;
    lemma_hex_width(i as nat, 4);
    lemma_hex_width(p[i] as nat, 2);
    law_hex_digits(i as nat, 4);
    law_hex_digits(p[i] as nat, 2);
    assert(t.subrange(2, 6) =~= crate::text::hex_digits(i as nat, 4));
    assert(t.subrange(8, 10) =~= crate::text::hex_digits(p[i] as nat, 2));
}

proof fn lemma_mnemonic_column(op: OpCode, front: Seq<char>, rest: Seq<char>)
    requires
        front.len() == 22,
    ensures
        mnemonic_in_column(front + crate::disassembler::mnemonic_column(op) + rest, op),
        crate::disassembler::mnemonic_column(op).len() == 16,
{
    crate::instr::lemma_mnemonic_length(op);
    let m = op.mnemonic_of();
    let t = front + crate::disassembler::mnemonic_column(op) + rest;
    assert(t.subrange(23, 23 + m.len() as int) =~= m);
    assert forall|k: int| 23 + m.len() <= k < 38 implies #[trigger] t[k] == ' ' by {}
}

/// A listed instruction without operands takes a line of 39 characters: its
/// address and byte, blanks, its mnemonic in the column from 23, and a newline;
/// the listing goes on with the next byte.
#[verifier::spinoff_prover]
#[verifier::rlimit(50)]
pub proof fn law_plain_line_layout(p: Seq<u8>, i: int)
    requires
        0 <= i < p.len(),
        i < 0x1_0000,
        p[i] % 30 != 2,
        !(24 <= p[i] % 30 <= 28),
    ensures
        ({
            let t = listing_from(p, i);
            &&& line_starts_right(t, p, i)
            &&& blank(t, 10, 22)
            &&& mnemonic_in_column(t, decode_opcode(p[i]))
            &&& t[38] == '\n'
            &&& t.skip(39) == listing_from(p, i + 1)
        }),
{
    let op = decode_opcode(p[i]);
    let rest = crate::text::spaces(12) + crate::disassembler::mnemonic_column(op) + seq!['\n'];
    let l = crate::disassembler::plain_line(p, i);
    assert(l =~= crate::disassembler::line_start(p, i) + rest);
    let t = listing_from(p, i);
    assert(t == l + listing_from(p, i + 1));
    lemma_line_start(p, i, rest + listing_from(p, i + 1));
    assert(t =~= crate::disassembler::line_start(p, i) + (rest + listing_from(p, i + 1)));
    let front = crate::disassembler::line_start(p, i) + crate::text::spaces(12);
    lemma_mnemonic_column(op, front, seq!['\n'] + listing_from(p, i + 1));
    assert(t =~= front + crate::disassembler::mnemonic_column(op) + (seq!['\n'] + listing_from(p, i + 1)));
    assert forall|k: int| 10 <= k < 22 implies #[trigger] t[k] == ' ' by {}
    assert(t.skip(39) =~= listing_from(p, i + 1));
}

/// Program byte `k` places after `i`, zero past the end.
pub open spec fn listed_byte(p: Seq<u8>, i: int, k: int) -> int {
    if i + k < p.len() {
        p[i + k] as int
    } else {
        0
    }
}

/// Operand byte column `c` (from 0) of a line: a space and two hex digits
/// giving the byte `k` places after the opcode.
pub open spec fn operand_column_right(t: Seq<char>, p: Seq<u8>, i: int, c: int) -> bool {
    &&& t[10 + 3 * c] == ' '
    &&& all_digits_of(t.subrange(11 + 3 * c, 13 + 3 * c), 16)
    &&& hex_field(t, 11 + 3 * c, 2) == listed_byte(p, i, c + 1)
}

proof fn lemma_byte_column(t: Seq<char>, at: int, b: u8)
    requires
        0 <= at,
        at + 3 <= t.len(),
        t.subrange(at, at + 3) == crate::disassembler::byte_column(b),
    ensures
        t[at] == ' ',
        all_digits_of(t.subrange(at + 1, at + 3), 16),
        hex_field(t, at + 1, 2) == b,
{
    lemma_hex_width(b as nat, 2);
    law_hex_digits(b as nat, 2);
    let h = crate::text::hex_digits(b as nat, 2);
    assert(t.subrange(at, at + 3)[0] == ' ');
    assert(t.subrange(at, at + 3)[1] == h[0]);
    assert(t.subrange(at, at + 3)[2] == h[1]);
    assert(t[at] == t.subrange(at, at + 3)[0]);
    assert(t[at + 1] == t.subrange(at, at + 3)[1]);
    assert(t[at + 2] == t.subrange(at, at + 3)[2]);
    assert(t.subrange(at + 1, at + 3) =~= h);
}

/// A listed jump takes a line with its address and byte, its two address
/// bytes, blanks, its mnemonic in the column from 23, and its target `A` (the
/// little endian value of the two bytes) as `0x` and four hex digits. When
/// `A` is not below the program length `L` (taken as an address), `-> 0x` and
/// `A % L` follow. The listing goes on after the address bytes.
#[verifier::spinoff_prover]
#[verifier::rlimit(50)]
pub proof fn law_jump_line_layout(p: Seq<u8>, i: int)
    requires
        0 <= i < p.len(),
        i < 0x1_0000,
        24 <= p[i] % 30 <= 28,
        p.len() % 0x1_0000 != 0,
    ensures
        ({
            let t = listing_from(p, i);
            let a = listed_byte(p, i, 1) + 256 * listed_byte(p, i, 2);
            let len: int = p.len() as int % 0x1_0000;
            &&& line_starts_right(t, p, i)
            &&& operand_column_right(t, p, i, 0)
            &&& operand_column_right(t, p, i, 1)
            &&& blank(t, 16, 22)
            &&& mnemonic_in_column(t, decode_opcode(p[i]))
            &&& t[38] == ' ' && t[39] == '0' && t[40] == 'x'
            &&& all_digits_of(t.subrange(41, 45), 16) && hex_field(t, 41, 4) == a
            &&& a >= len ==> {
                &&& t.subrange(45, 51) == seq![' ', '-', '>', ' ', '0', 'x']
                &&& all_digits_of(t.subrange(51, 55), 16) && hex_field(t, 51, 4) == a % len
                &&& t[55] == '\n'
                &&& t.skip(56) == listing_from(p, i + 3)
            }
            &&& a < len ==> t[45] == '\n' && t.skip(46) == listing_from(p, i + 3)
        }),
{
    let op = decode_opcode(p[i]);
    let b = crate::interpreter::immediate_bytes(p, i + 1, 2);
    let a = listed_byte(p, i, 1) + 256 * listed_byte(p, i, 2);
    let len: int = p.len() as int % 0x1_0000;
    assert(b[0] == listed_byte(p, i, 1) && b[1] == listed_byte(p, i, 2));
    assert(crate::util::address_of(b) as int == a);
    let l = crate::disassembler::jump_line(p, i);
    let t = listing_from(p, i);
    let next = listing_from(p, i + 3);
    assert(t == l + next);
    let cols = crate::disassembler::byte_column(b[0]) + crate::disassembler::byte_column(b[1]);
    let front = crate::disassembler::line_start(p, i) + cols + crate::text::spaces(6);
    let target = crate::text::hex_text(a as nat, 4);
    let tail = if a >= len {
        seq![' ', '-', '>', ' '] + crate::text::hex_text((a % len) as nat, 4)
    } else {
        Seq::empty()
    };
    let after = seq![' '] + target + tail + seq!['\n'] + next;
    lemma_hex_width(b[0] as nat, 2);
    lemma_hex_width(b[1] as nat, 2);
    lemma_line_start(p, i, cols + crate::text::spaces(6) + crate::disassembler::mnemonic_column(op) + after);
    assert(front.len() == 22);
    assert(t =~= front + crate::disassembler::mnemonic_column(op) + after);
    lemma_mnemonic_column(op, front, after);
    assert(t =~= crate::disassembler::line_start(p, i) + (cols + crate::text::spaces(6)
        + crate::disassembler::mnemonic_column(op) + after));
    assert(t.subrange(10, 13) =~= crate::disassembler::byte_column(b[0]));
    assert(t.subrange(13, 16) =~= crate::disassembler::byte_column(b[1]));
    lemma_byte_column(t, 10, b[0]);
    lemma_byte_column(t, 13, b[1]);
    assert forall|k: int| 16 <= k < 22 implies #[trigger] t[k] == ' ' by {}
    lemma_hex_width(a as nat, 4);
    law_hex_digits(a as nat, 4);
    assert(t.subrange(41, 45) =~= crate::text::hex_digits(a as nat, 4));
    if a >= len {
        lemma_hex_width((a % len) as nat, 4);
        law_hex_digits((a % len) as nat, 4);
        assert(t.subrange(45, 51) =~= seq![' ', '-', '>', ' ', '0', 'x']);
        assert(t.subrange(51, 55) =~= crate::text::hex_digits((a % len) as nat, 4));
        assert(t.skip(56) =~= next);
    } else {
        assert(t.skip(46) =~= next);
    }
}

/// A listed `PushImm` takes a line with its address and byte, its four
/// immediate bytes, the mnemonic in the column from 23, and then the
/// immediate word (the two's complement value of the four little endian
/// bytes) in decimal, with a `-` exactly when it is negative. The listing goes
/// on after the immediate bytes.
#[verifier::spinoff_prover]
#[verifier::rlimit(50)]
pub proof fn law_immediate_line_layout(p: Seq<u8>, i: int)
    requires
        0 <= i < p.len(),
        i < 0x1_0000,
        p[i] % 30 == 2,
    ensures
        ({
            let t = listing_from(p, i);
            let v = listed_byte(p, i, 1) + 256 * listed_byte(p, i, 2) + 65536 * listed_byte(p, i, 3)
                + 16777216 * listed_byte(p, i, 4);
            let w = if v < 0x8000_0000 {
                v
            } else {
                v - 0x1_0000_0000
            };
            let k = crate::numeric::decimal_text(w as MachineWord).len() as int;
            let d = t.subrange(39, 39 + k);
            &&& line_starts_right(t, p, i)
            &&& operand_column_right(t, p, i, 0)
            &&& operand_column_right(t, p, i, 1)
            &&& operand_column_right(t, p, i, 2)
            &&& operand_column_right(t, p, i, 3)
            &&& mnemonic_in_column(t, OpCode::PushImm)
            &&& t[38] == ' '
            &&& k >= 1
            &&& (d[0] == '-') == (w < 0)
            &&& w < 0 ==> numeral_value(d.drop_first(), 10) == -w && all_digits_of(d.drop_first(), 10)
            &&& w >= 0 ==> numeral_value(d, 10) == w && all_digits_of(d, 10)
            &&& t[39 + k] == '\n'
            &&& t.skip(40 + k) == listing_from(p, i + 5)
        }),
{
    let b = crate::interpreter::immediate_bytes(p, i + 1, 4);
    assert(b[0] == listed_byte(p, i, 1) && b[1] == listed_byte(p, i, 2));
    assert(b[2] == listed_byte(p, i, 3) && b[3] == listed_byte(p, i, 4));
    let v = listed_byte(p, i, 1) + 256 * listed_byte(p, i, 2) + 65536 * listed_byte(p, i, 3)
        + 16777216 * listed_byte(p, i, 4);
    let w = if v < 0x8000_0000 {
        v
    } else {
        v - 0x1_0000_0000
    };
    let word = crate::interpreter::immediate_word(p, i + 1);
    assert(word as int == w);
    let text = crate::numeric::decimal_text(word);
    let k = text.len() as int;
    let t = listing_from(p, i);
    let next = listing_from(p, i + 5);
    assert(t == crate::disassembler::immediate_line(p, i) + next);
    let cols = crate::disassembler::byte_column(b[0]) + crate::disassembler::byte_column(b[1])
        + crate::disassembler::byte_column(b[2]) + crate::disassembler::byte_column(b[3]);
    let front = crate::disassembler::line_start(p, i) + cols;
    let after = seq![' '] + text + seq!['\n'] + next;
    lemma_hex_width(b[0] as nat, 2);
    lemma_hex_width(b[1] as nat, 2);
    lemma_hex_width(b[2] as nat, 2);
    lemma_hex_width(b[3] as nat, 2);
    lemma_line_start(p, i, cols + crate::disassembler::mnemonic_column(OpCode::PushImm) + after);
    assert(front.len() == 22);
    assert(t =~= front + crate::disassembler::mnemonic_column(OpCode::PushImm) + after);
    lemma_mnemonic_column(OpCode::PushImm, front, after);
    assert(t =~= crate::disassembler::line_start(p, i) + (cols + crate::disassembler::mnemonic_column(
        OpCode::PushImm,
    ) + after));
    assert(t.subrange(10, 13) =~= crate::disassembler::byte_column(b[0]));
    assert(t.subrange(13, 16) =~= crate::disassembler::byte_column(b[1]));
    assert(t.subrange(16, 19) =~= crate::disassembler::byte_column(b[2]));
    assert(t.subrange(19, 22) =~= crate::disassembler::byte_column(b[3]));
    lemma_byte_column(t, 10, b[0]);
    lemma_byte_column(t, 13, b[1]);
    lemma_byte_column(t, 16, b[2]);
    lemma_byte_column(t, 19, b[3]);
    law_decimal_text(word);
    let d = t.subrange(39, 39 + k);
    assert(d =~= text);
    if w >= 0 {
        crate::numeric::lemma_decimal_digits_no_sign(w as nat);
    }
    assert(t.skip(40 + k) =~= next);
}

/// A fresh machine runs the first (at most 65535) bytes of the program from
/// the start, with empty stacks, the whole input and nothing counted.
pub proof fn law_fresh_machine(
    program: Seq<u8>,
    input: Seq<MachineWord>,
    limit: int,
)
    requires
        0 <= limit,
    ensures
        ({
            let s = crate::interpreter::initial_state(program, input, limit);
            &&& s.wf()
            &&& s.program.len() == if program.len() <= 65535 {
                program.len() as int
            } else {
                65535
            }
            &&& forall|k: int| 0 <= k < s.program.len() ==> #[trigger] s.program[k] == program[k]
            &&& s.pc == 0 && s.stack.len() == 0 && s.output.len() == 0 && s.input == input
            &&& !s.halted && s.execution_count == 0 && s.instruction_limit == limit
        }),
{
}

} // verus!
