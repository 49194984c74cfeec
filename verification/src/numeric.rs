//! Arithmetic on [`MachineWord`]s and their text form.
//!
//! All operations are total: they wrap or saturate instead of overflowing,
//! and a quotient or remainder that does not exist is zero.
use crate::consts::MachineWord;
use crate::text::push_char;
use vstd::prelude::*;

verus! {

/// `r` is the integer square root of `n`: the largest `r` with `r * r <= n`.
pub open spec fn is_isqrt(n: int, r: int) -> bool {
    0 <= r && r * r <= n < (r + 1) * (r + 1)
}

/// The integer square root of `n` (rounded down).
pub open spec fn isqrt(n: int) -> int {
    choose|r: int| is_isqrt(n, r)
}

/// The magnitude of a word, as a mathematical integer.
pub open spec fn magnitude(a: MachineWord) -> int {
    if a < 0 {
        -a
    } else {
        a as int
    }
}

/// `-a`, except that the negation of the smallest word is the largest word.
pub open spec fn saturating_neg(a: MachineWord) -> MachineWord {
    if a == MachineWord::MIN {
        MachineWord::MAX
    } else {
        (-a) as MachineWord
    }
}

/// `|a|`, except that the magnitude of the smallest word is the largest word.
pub open spec fn saturating_abs(a: MachineWord) -> MachineWord {
    if a == MachineWord::MIN {
        MachineWord::MAX
    } else if a < 0 {
        (-a) as MachineWord
    } else {
        a
    }
}

/// `a / b` rounded toward zero; zero where the quotient does not exist
/// (`b == 0`, or `MIN / -1` which overflows).
pub open spec fn quotient(a: MachineWord, b: MachineWord) -> MachineWord {
    match a.checked_div(b) {
        Some(q) => q,
        None => 0,
    }
}

/// The remainder of `a / b` rounded toward zero (it has the sign of `a`);
/// zero where it does not exist (`b == 0`, or `MIN % -1`).
pub open spec fn remainder(a: MachineWord, b: MachineWord) -> MachineWord {
    match a.checked_rem(b) {
        Some(r) => r,
        None => 0,
    }
}

/// The decimal digit character for `d < 10`.
pub open spec fn digit_char(d: int) -> char {
    (48 + d) as char
}

/// The decimal digits of `n`, most significant first, with no leading zeros.
pub open spec fn decimal_digits(n: nat) -> Seq<char>
    decreases n,
{
    if n < 10 {
        seq![digit_char(n as int)]
    } else {
        decimal_digits(n / 10).push(digit_char((n % 10) as int))
    }
}

/// The decimal text of a word, with a leading `-` when it is negative.
pub open spec fn decimal_text(w: MachineWord) -> Seq<char> {
    if w < 0 {
        seq!['-'] + decimal_digits((-w) as nat)
    } else {
        decimal_digits(w as nat)
    }
}

/// Two integer square roots of the same number are equal.
pub proof fn lemma_isqrt_unique(n: int, r1: int, r2: int)
    requires
        is_isqrt(n, r1),
        is_isqrt(n, r2),
    ensures
        r1 == r2,
{
    if r1 < r2 {
        assert((r1 + 1) * (r1 + 1) <= r2 * r2) by (nonlinear_arith)
            requires
                0 <= r1,
                r1 + 1 <= r2,
        ;
    } else if r2 < r1 {
        assert((r2 + 1) * (r2 + 1) <= r1 * r1) by (nonlinear_arith)
            requires
                0 <= r2,
                r2 + 1 <= r1,
        ;
    }
}

/// The integer square root of `n`, rounded down.
pub fn isqrt_u32(n: u32) -> (r: u32)
    ensures
        r == isqrt(n as int),
        is_isqrt(n as int, r as int),
{
    let mut lo: u64 = 0;
    let mut hi: u64 = 65536;
    assert(65536 * 65536 == 0x1_0000_0000) by (nonlinear_arith);
    while hi - lo > 1
        invariant
            lo < hi <= 65536,
            lo * lo <= n,
            n < hi * hi,
        decreases hi - lo,
    {
        let mid = lo + (hi - lo) / 2;
        assert(mid * mid <= 65536 * 65536) by (nonlinear_arith)
            requires
                mid <= 65536,
        ;
        if mid * mid <= n as u64 {
            lo = mid;
        } else {
            hi = mid;
        }
    }
    assert(hi == lo + 1);
    proof {
        let r = isqrt(n as int);
        assert(is_isqrt(n as int, lo as int));
        lemma_isqrt_unique(n as int, r, lo as int);
    }
    lo as u32
}

/// The magnitude of `a` as an unsigned number (`MIN` included).
pub fn unsigned_magnitude(a: MachineWord) -> (m: u32)
    ensures
        m == magnitude(a),
{
    if a >= 0 {
        a as u32
    } else if a == MachineWord::MIN {
        0x8000_0000
    } else {
        (-a) as u32
    }
}

/// Negation that saturates at the largest word.
pub fn word_saturating_neg(a: MachineWord) -> (r: MachineWord)
    ensures
        r == saturating_neg(a),
{
    if a == MachineWord::MIN {
        MachineWord::MAX
    } else {
        -a
    }
}

/// Absolute value that saturates at the largest word.
pub fn word_saturating_abs(a: MachineWord) -> (r: MachineWord)
    ensures
        r == saturating_abs(a),
{
    if a == MachineWord::MIN {
        MachineWord::MAX
    } else if a < 0 {
        -a
    } else {
        a
    }
}

/// Quotient rounded toward zero, zero where it does not exist.
pub fn word_quotient(a: MachineWord, b: MachineWord) -> (q: MachineWord)
    ensures
        q == quotient(a, b),
{
    a.checked_div(b).unwrap_or_default()
}

/// Remainder of the division rounded toward zero, zero where it does not exist.
pub fn word_remainder(a: MachineWord, b: MachineWord) -> (r: MachineWord)
    ensures
        r == remainder(a, b),
{
    a.checked_rem(b).unwrap_or_default()
}

/// Append the decimal digits of `n` to `out`.
pub fn push_decimal_digits(out: &mut String, n: u32)
    ensures
        final(out)@ == old(out)@ + decimal_digits(n as nat),
    decreases n,
{
    if n >= 10 {
        push_decimal_digits(out, n / 10);
    }
    let d = (n % 10) as u8;
    push_char(out, (48u8 + d) as char);
    assert(final(out)@ =~= old(out)@ + decimal_digits(n as nat));
}

/// Formats an immediate value for disassembly output.
pub trait FormatImm {
    /// Returns the formatted text of the immediate value.
    fn format_imm(&self) -> String;
}

impl FormatImm for MachineWord {
    /// Plain decimal, with a leading `-` for negative values.
    fn format_imm(&self) -> (s: String)
        ensures
            s@ == decimal_text(*self),
    {
        let mut s = String::new();
        if *self < 0 {
            push_char(&mut s, '-');
        }
        push_decimal_digits(&mut s, unsigned_magnitude(*self));
        assert(s@ =~= decimal_text(*self));
        s
    }
}

/// Decimal digits never start with a minus sign.
pub proof fn lemma_decimal_digits_no_sign(n: nat)
    ensures
        decimal_digits(n).len() >= 1,
        decimal_digits(n)[0] != '-',
    decreases n,
{
    if n >= 10 {
        lemma_decimal_digits_no_sign(n / 10);
        assert(decimal_digits(n)[0] == decimal_digits(n / 10)[0]);
    }
}

} // verus!
