//! Building text: hexadecimal numbers and padded columns.
use vstd::prelude::*;
use vstd::string::StringSliceAdditionalSpecFns;

verus! {

/// `std::string::String::push`: appends the character `c` to `s`.
#[verifier::external_body]
pub(crate) fn push_char(s: &mut String, c: char)
    ensures
        final(s)@ == old(s)@.push(c),
{
    s.push(c);
}

/// `std::string::String::push_str`: appends the characters of `t` to `s`.
#[verifier::external_body]
pub(crate) fn push_str(s: &mut String, t: &str)
    ensures
        final(s)@ == old(s)@ + t@,
{
    s.push_str(t);
}

/// The lowercase hexadecimal digit character for `d < 16`.
pub open spec fn hex_char(d: int) -> char {
    if d < 10 {
        (48 + d) as char
    } else {
        (87 + d) as char
    }
}

/// The lowercase hexadecimal digits of `n`, most significant first,
/// padded with leading zeros to at least `width` digits (and at least one).
pub open spec fn hex_digits(n: nat, width: nat) -> Seq<char>
    decreases n + width,
{
    if n < 16 && width <= 1 {
        seq![hex_char(n as int)]
    } else {
        hex_digits(
            n / 16,
            if width > 0 {
                (width - 1) as nat
            } else {
                0
            },
        ).push(hex_char((n % 16) as int))
    }
}

/// `n` in the form `0x` followed by at least `width` hexadecimal digits.
pub open spec fn hex_text(n: nat, width: nat) -> Seq<char> {
    seq!['0', 'x'] + hex_digits(n, width)
}

/// `n` space characters.
pub open spec fn spaces(n: nat) -> Seq<char> {
    Seq::new(n, |i: int| ' ')
}

/// `s` followed by spaces up to a length of `width`.
pub open spec fn padded(s: Seq<char>, width: nat) -> Seq<char> {
    if s.len() < width {
        s + spaces((width - s.len()) as nat)
    } else {
        s
    }
}

/// Append the lowercase hexadecimal digits of `n`, zero padded to `width` digits.
pub fn push_hex_digits(out: &mut String, n: usize, width: usize)
    ensures
        final(out)@ == old(out)@ + hex_digits(n as nat, width as nat),
    decreases n + width,
{
    if n < 16 && width <= 1 {
        push_char(out, hex_digit(n));
    } else {
        push_hex_digits(
            out,
            n / 16,
            if width > 0 {
                width - 1
            } else {
                0
            },
        );
        push_char(out, hex_digit(n % 16));
    }
    assert(final(out)@ =~= old(out)@ + hex_digits(n as nat, width as nat));
}

fn hex_digit(d: usize) -> (c: char)
    requires
        d < 16,
    ensures
        c == hex_char(d as int),
{
    let b = d as u8;
    if b < 10 {
        (48u8 + b) as char
    } else {
        (87u8 + b) as char
    }
}

/// Append `0x` and the lowercase hexadecimal digits of `n`, zero padded to `width` digits.
pub fn push_hex(out: &mut String, n: usize, width: usize)
    ensures
        final(out)@ == old(out)@ + hex_text(n as nat, width as nat),
{
    push_char(out, '0');
    push_char(out, 'x');
    push_hex_digits(out, n, width);
    assert(final(out)@ =~= old(out)@ + hex_text(n as nat, width as nat));
}

/// Append `count` spaces.
pub fn push_spaces(out: &mut String, count: usize)
    ensures
        final(out)@ == old(out)@ + spaces(count as nat),
{
    let mut k: usize = 0;
    while k < count
        invariant
            k <= count,
            out@ == old(out)@ + spaces(k as nat),
        decreases count - k,
    {
        push_char(out, ' ');
        k = k + 1;
        assert(out@ =~= old(out)@ + spaces(k as nat));
    }
}

/// Append the ASCII text `t` padded with spaces to `width` characters.
pub fn push_padded(out: &mut String, t: &str, width: usize)
    requires
        vstd::string::is_ascii(t),
        t@.len() <= usize::MAX,
    ensures
        final(out)@ == old(out)@ + padded(t@, width as nat),
{
    proof {
        vstd::string::is_ascii_spec_bytes(t);
        assert(t.spec_bytes().len() == t@.len());
    }
    let n = t.len();
    assert(n == t@.len());
    push_str(out, t);
    if n < width {
        push_spaces(out, width - n);
    }
    assert(final(out)@ =~= old(out)@ + padded(t@, width as nat));
}

} // verus!
