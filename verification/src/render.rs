//! Numbers as text: what the machine prints for a word.

use vstd::prelude::*;
use crate::word::signed;

verus! {

/// The character for a digit: `0` to `9`, then `a` to `f`.
pub open spec fn digit_char(d: int) -> u8 {
    if d < 10 {
        (0x30 + d) as u8
    } else {
        (0x61 + d - 10) as u8
    }
}

/// The digits of `n` in the given radix, the first weighing most, with no
/// zero in front of them; zero is the one digit `0`.
pub open spec fn digits_text(n: nat, radix: nat) -> Seq<u8>
    decreases n,
    via digits_text_decreases
{
    if radix < 2 || n < radix {
        seq![digit_char(n as int)]
    } else {
        digits_text(n / radix, radix).push(digit_char((n % radix) as int))
    }
}

#[via_fn]
proof fn digits_text_decreases(n: nat, radix: nat) {
    if radix >= 2 && n >= radix {
        lemma_quotient_smaller(n, radix);
    }
}

/// Dividing a positive number by two or more makes it smaller.
proof fn lemma_quotient_smaller(n: nat, radix: nat)
    requires
        radix >= 2,
        n > 0,
    ensures
        n / radix < n,
{
    vstd::arithmetic::div_mod::lemma_div_decreases(n as int, radix as int);
}

/// The last `width` digits of `n` in the given radix, with zeros in front
/// where `n` has fewer.
pub open spec fn fixed_digits(n: nat, radix: nat, width: nat) -> Seq<u8>
    decreases width,
{
    if width == 0 || radix < 2 {
        Seq::empty()
    } else {
        fixed_digits(n / radix, radix, (width - 1) as nat).push(digit_char((n % radix) as int))
    }
}

/// A signed number in decimal, with a minus sign in front if it is negative.
pub open spec fn decimal_text(v: int) -> Seq<u8> {
    if v < 0 {
        seq![0x2Du8] + digits_text((-v) as nat, 10)
    } else {
        digits_text(v as nat, 10)
    }
}

/// The line that shows a word in one of four styles: 0 is signed decimal,
/// 1 is hexadecimal after `0x`, 2 is binary after `0b`, and any other is
/// octal after `0o`. The three last show the 32 bits as an unsigned number.
/// The line ends with a line feed.
pub open spec fn print_text(word: u32, style: int) -> Seq<u8> {
    if style == 0 {
        decimal_text(signed(word)).push(0x0A)
    } else if style == 1 {
        (seq![0x30u8, 0x78u8] + digits_text(word as nat, 16)).push(0x0A)
    } else if style == 2 {
        (seq![0x30u8, 0x62u8] + digits_text(word as nat, 2)).push(0x0A)
    } else {
        (seq![0x30u8, 0x6Fu8] + digits_text(word as nat, 8)).push(0x0A)
    }
}

/// The line that shows one slot of the stack: its address in four
/// hexadecimal digits, a colon and a space, its word in eight, and a line
/// feed.
pub open spec fn dump_text(address: nat, word: u32) -> Seq<u8> {
    (fixed_digits(address, 16, 4) + seq![0x3Au8, 0x20u8] + fixed_digits(word as nat, 16, 8)).push(
        0x0A,
    )
}

/// The character for a digit.
fn digit(d: u32) -> (c: u8)
    requires
        d < 16,
    ensures
        c == digit_char(d as int),
{
    if d < 10 {
        0x30 + d as u8
    } else {
        0x61 + (d as u8 - 10)
    }
}

/// Appends the digits of a number.
fn push_digits(out: &mut Vec<u8>, n: u32, radix: u32)
    requires
        2 <= radix <= 16,
    ensures
        final(out)@ == old(out)@ + digits_text(n as nat, radix as nat),
    decreases n,
{
    if n >= radix {
        proof {
            lemma_quotient_smaller(n as nat, radix as nat);
        }
        push_digits(out, n / radix, radix);
    }
    out.push(digit(n % radix));
    proof {
        let front = digits_text((n / radix) as nat, radix as nat);
        let last = digit_char((n % radix) as int);
        if n >= radix {
            assert((old(out)@ + front).push(last) =~= old(out)@ + front.push(last));
        } else {
            vstd::arithmetic::div_mod::lemma_small_mod(n as nat, radix as nat);
            assert(old(out)@.push(last) =~= old(out)@ + seq![last]);
        }
    }
}

/// Appends a number in a fixed count of digits.
fn push_fixed(out: &mut Vec<u8>, n: u32, radix: u32, width: u32)
    requires
        2 <= radix <= 16,
    ensures
        final(out)@ == old(out)@ + fixed_digits(n as nat, radix as nat, width as nat),
    decreases width,
{
    if width > 0 {
        push_fixed(out, n / radix, radix, width - 1);
        out.push(digit(n % radix));
        proof {
            let front = fixed_digits((n / radix) as nat, radix as nat, (width - 1) as nat);
            let last = digit_char((n % radix) as int);
            assert((old(out)@ + front).push(last) =~= old(out)@ + front.push(last));
        }
    } else {
        assert(old(out)@ + Seq::<u8>::empty() =~= old(out)@);
    }
}

/// Writes the line that shows a word in the given style.
pub fn print_line(word: u32, style: u8) -> (line: Vec<u8>)
    ensures
        line@ == print_text(word, style as int),
{
    let mut line: Vec<u8> = Vec::new();
    if style == 0 {
        let v = crate::word::to_signed(word);
        if v < 0 {
            line.push(0x2D);
            push_digits(&mut line, (-(v as i64)) as u32, 10);
        } else {
            push_digits(&mut line, v as u32, 10);
            assert(Seq::<u8>::empty() + digits_text(v as nat, 10) =~= digits_text(v as nat, 10));
        }
    } else {
        line.push(0x30);
        if style == 1 {
            line.push(0x78);
            push_digits(&mut line, word, 16);
        } else if style == 2 {
            line.push(0x62);
            push_digits(&mut line, word, 2);
        } else {
            line.push(0x6F);
            push_digits(&mut line, word, 8);
        }
    }
    line.push(0x0A);
    line
}

/// Writes the line that shows one slot of the stack.
pub fn dump_line(address: u16, word: u32) -> (line: Vec<u8>)
    ensures
        line@ == dump_text(address as nat, word),
{
    let mut line: Vec<u8> = Vec::new();
    push_fixed(&mut line, address as u32, 16, 4);
    line.push(0x3A);
    line.push(0x20);
    push_fixed(&mut line, word, 16, 8);
    line.push(0x0A);
    proof {
        let a = fixed_digits(address as nat, 16, 4);
        let w = fixed_digits(word as nat, 16, 8);
        assert(Seq::<u8>::empty() + a =~= a);
        assert(a.push(0x3A).push(0x20) =~= a + seq![0x3Au8, 0x20u8]);
    }
    line
}

} // verus!
