//! Lines of input: where a line ends, what surrounds it, and the number that
//! it spells.
//!
//! Text is a sequence of bytes; a byte is read as the character of the same
//! code.

use vstd::prelude::*;

verus! {

/// A byte that ends a line: a line feed or a null byte.
pub open spec fn ends_line(b: u8) -> bool {
    b == 0x0A || b == 0x00
}

/// Tells whether a byte ends a line.
pub fn is_line_end(b: u8) -> (r: bool)
    ensures
        r == ends_line(b),
{
    b == 0x0A || b == 0x00
}

/// The number of bytes that come before the first line end of `input`, or
/// all of them if there is none.
pub open spec fn line_len(input: Seq<u8>) -> nat
    decreases input.len(),
{
    if input.len() == 0 || ends_line(input[0]) {
        0
    } else {
        1 + line_len(input.drop_first())
    }
}

/// The first line of `input`, without the byte that ends it.
pub open spec fn first_line(input: Seq<u8>) -> Seq<u8> {
    input.take(line_len(input) as int)
}

/// What is left of `input` once its first line and the byte that ends it are
/// taken away.
pub open spec fn after_line(input: Seq<u8>) -> Seq<u8> {
    if line_len(input) < input.len() {
        input.skip(line_len(input) as int + 1)
    } else {
        Seq::empty()
    }
}

/// The first line of a text ends at `n` if no byte before `n` ends a line and
/// the text ends or the line ends at `n`.
pub proof fn lemma_line_len(input: Seq<u8>, n: int)
    requires
        0 <= n <= input.len(),
        forall|k: int| 0 <= k < n ==> !ends_line(#[trigger] input[k]),
        n == input.len() || ends_line(input[n]),
    ensures
        line_len(input) == n,
    decreases n,
{
    if n > 0 {
        let rest = input.drop_first();
        assert forall|k: int| 0 <= k < n - 1 implies !ends_line(#[trigger] rest[k]) by {
            assert(rest[k] == input[k + 1]);
        }
        lemma_line_len(rest, n - 1);
    }
}

/// A whitespace character: tab, line feed, vertical tab, form feed, carriage
/// return, space, next line or no-break space.
pub open spec fn is_space_spec(b: u8) -> bool {
    (0x09 <= b <= 0x0D) || b == 0x20 || b == 0x85 || b == 0xA0
}

/// Tells whether a byte is a whitespace character.
#[verifier::when_used_as_spec(is_space_spec)]
pub fn is_space(b: u8) -> (r: bool)
    ensures
        r == is_space_spec(b),
{
    (0x09 <= b && b <= 0x0D) || b == 0x20 || b == 0x85 || b == 0xA0
}

/// A text without the whitespace at its start.
pub open spec fn trim_start(text: Seq<u8>) -> Seq<u8>
    decreases text.len(),
{
    if text.len() > 0 && is_space(text[0]) {
        trim_start(text.drop_first())
    } else {
        text
    }
}

/// A text without the whitespace at its end.
pub open spec fn trim_end(text: Seq<u8>) -> Seq<u8>
    decreases text.len(),
{
    if text.len() > 0 && is_space(text.last()) {
        trim_end(text.drop_last())
    } else {
        text
    }
}

/// A text without the whitespace at its start and at its end.
pub open spec fn trim_spec(text: Seq<u8>) -> Seq<u8> {
    trim_end(trim_start(text))
}

proof fn lemma_trim_start(text: Seq<u8>, n: int)
    requires
        0 <= n <= text.len(),
        forall|k: int| 0 <= k < n ==> is_space(#[trigger] text[k]),
        n == text.len() || !is_space(text[n]),
    ensures
        trim_start(text) == text.skip(n),
    decreases n,
{
    if n > 0 {
        let rest = text.drop_first();
        assert forall|k: int| 0 <= k < n - 1 implies is_space(#[trigger] rest[k]) by {
            assert(rest[k] == text[k + 1]);
        }
        lemma_trim_start(rest, n - 1);
        assert(rest.skip(n - 1) =~= text.skip(n));
    } else {
        assert(text.skip(0) =~= text);
    }
}

proof fn lemma_trim_end(text: Seq<u8>, n: int)
    requires
        0 <= n <= text.len(),
        forall|k: int| n <= k < text.len() ==> is_space(#[trigger] text[k]),
        n == 0 || !is_space(text[n - 1]),
    ensures
        trim_end(text) == text.take(n),
    decreases text.len() - n,
{
    if n < text.len() {
        let rest = text.drop_last();
        lemma_trim_end(rest, n);
        assert(rest.take(n) =~= text.take(n));
    } else {
        assert(text.take(n) =~= text);
    }
}

/// Copies a text without the whitespace that surrounds it.
pub fn trim(text: &[u8]) -> (r: Vec<u8>)
    ensures
        r@ == trim_spec(text@),
{
    let mut start: usize = 0;
    while start < text.len() && is_space(text[start])
        invariant
            start <= text.len(),
            forall|k: int| 0 <= k < start ==> is_space(#[trigger] text@[k]),
        decreases text.len() - start,
    {
        start += 1;
    }
    let mut end: usize = text.len();
    while end > start && is_space(text[end - 1])
        invariant
            start <= end <= text.len(),
            forall|k: int| end <= k < text.len() ==> is_space(#[trigger] text@[k]),
        decreases end,
    {
        end -= 1;
    }
    let mut r: Vec<u8> = Vec::new();
    let mut i: usize = start;
    while i < end
        invariant
            start <= i <= end <= text.len(),
            r@ == text@.subrange(start as int, i as int),
        decreases end - i,
    {
        r.push(text[i]);
        proof {
            assert(text@.subrange(start as int, i as int).push(text@[i as int])
                =~= text@.subrange(start as int, i + 1));
        }
        i += 1;
    }
    proof {
        let front = text@.skip(start as int);
        lemma_trim_start(text@, start as int);
        assert forall|k: int| end - start <= k < front.len() implies is_space(
            #[trigger] front[k],
        ) by {
            assert(front[k] == text@[k + start]);
        }
        lemma_trim_end(front, end - start);
        assert(front.take(end - start) =~= text@.subrange(start as int, end as int));
    }
    r
}

/// The value of a character as a digit: `0` to `9` count 0 to 9, and the
/// letters of either case count from 10 on.
pub open spec fn digit_value(b: u8) -> Option<int> {
    if 0x30 <= b <= 0x39 {
        Some(b - 0x30)
    } else if 0x61 <= b <= 0x7A {
        Some(b - 0x61 + 10)
    } else if 0x41 <= b <= 0x5A {
        Some(b - 0x41 + 10)
    } else {
        None
    }
}

/// A character that is a digit in the given radix.
pub open spec fn is_digit(b: u8, radix: int) -> bool {
    digit_value(b) is Some && digit_value(b).unwrap() < radix
}

/// A text that holds one digit of the given radix or more, and nothing else.
pub open spec fn all_digits(digits: Seq<u8>, radix: int) -> bool {
    digits.len() > 0 && forall|k: int|
        0 <= k < digits.len() ==> is_digit(#[trigger] digits[k], radix)
}

/// The number that a text of digits spells in the given radix, the first
/// digit weighing most.
pub open spec fn digits_value(digits: Seq<u8>, radix: int) -> int
    decreases digits.len(),
{
    if digits.len() == 0 {
        0
    } else {
        digits_value(digits.drop_last(), radix) * radix + digit_value(digits.last()).unwrap()
    }
}

/// The signed 32-bit number that a text spells in the given radix: an
/// optional sign, then one digit or more, and a value that fits.
pub open spec fn parse_radix_spec(text: Seq<u8>, radix: int) -> Option<int> {
    let signed = text.len() > 0 && (text[0] == 0x2B || text[0] == 0x2D);
    let digits = if signed {
        text.drop_first()
    } else {
        text
    };
    let value = if signed && text[0] == 0x2D {
        -digits_value(digits, radix)
    } else {
        digits_value(digits, radix)
    };
    if all_digits(digits, radix) && -0x8000_0000 <= value <= 0x7FFF_FFFF {
        Some(value)
    } else {
        None
    }
}

/// A text that begins with `0` and the given letter.
pub open spec fn has_prefix(text: Seq<u8>, letter: u8) -> bool {
    text.len() >= 2 && text[0] == 0x30 && text[1] == letter
}

/// The number that a line spells once the whitespace around it is gone:
/// hexadecimal after `0x`, binary after `0b`, decimal otherwise.
pub open spec fn parse_number_spec(line: Seq<u8>) -> Option<int> {
    let text = trim_spec(line);
    if has_prefix(text, 0x78) {
        parse_radix_spec(text.skip(2), 16)
    } else if has_prefix(text, 0x62) {
        parse_radix_spec(text.skip(2), 2)
    } else {
        parse_radix_spec(text, 10)
    }
}

/// A text of digits spells at least what any of its beginnings spells.
proof fn lemma_digits_grow(digits: Seq<u8>, n: int, radix: int)
    requires
        2 <= radix,
        0 <= n <= digits.len(),
        forall|k: int| 0 <= k < digits.len() ==> is_digit(#[trigger] digits[k], radix),
    ensures
        0 <= digits_value(digits.take(n), radix) <= digits_value(digits, radix),
    decreases digits.len() - n,
{
    lemma_digits_not_negative(digits, radix);
    if n < digits.len() {
        let front = digits.drop_last();
        assert(front.take(n) =~= digits.take(n));
        lemma_digits_grow(front, n, radix);
        let v = digits_value(front, radix);
        assert(v * radix >= v) by (nonlinear_arith)
            requires
                v >= 0,
                radix >= 2,
        ;
    } else {
        assert(digits.take(n) =~= digits);
    }
}

/// A text of digits spells no negative number.
proof fn lemma_digits_not_negative(digits: Seq<u8>, radix: int)
    requires
        2 <= radix,
        forall|k: int| 0 <= k < digits.len() ==> is_digit(#[trigger] digits[k], radix),
    ensures
        0 <= digits_value(digits, radix),
    decreases digits.len(),
{
    if digits.len() > 0 {
        let front = digits.drop_last();
        lemma_digits_not_negative(front, radix);
        let v = digits_value(front, radix);
        assert(v * radix >= 0) by (nonlinear_arith)
            requires
                v >= 0,
                radix >= 2,
        ;
        assert(is_digit(digits[digits.len() - 1], radix));
    }
}

/// The value of a byte as a digit of the given radix.
fn digit_of(b: u8, radix: u32) -> (r: Option<u32>)
    requires
        2 <= radix <= 36,
    ensures
        r is Some <==> is_digit(b, radix as int),
        r is Some ==> Some(r.unwrap() as int) == digit_value(b),
{
    let d: u32 = if 0x30 <= b && b <= 0x39 {
        (b - 0x30) as u32
    } else if 0x61 <= b && b <= 0x7A {
        (b - 0x61) as u32 + 10
    } else if 0x41 <= b && b <= 0x5A {
        (b - 0x41) as u32 + 10
    } else {
        return None;
    };
    if d < radix {
        Some(d)
    } else {
        None
    }
}

/// Reads a signed 32-bit number in the given radix. `None` stands for a text
/// that spells none.
pub fn parse_radix(text: &[u8], radix: u32) -> (r: Option<i32>)
    requires
        2 <= radix <= 36,
    ensures
        r is Some <==> parse_radix_spec(text@, radix as int) is Some,
        r is Some ==> Some(r.unwrap() as int) == parse_radix_spec(text@, radix as int),
{
    let signed = text.len() > 0 && (text[0] == 0x2B || text[0] == 0x2D);
    let negative = signed && text[0] == 0x2D;
    let start: usize = if signed {
        1
    } else {
        0
    };
    let ghost digits = if signed {
        text@.drop_first()
    } else {
        text@
    };
    if start == text.len() {
        return None;
    }
    let mut value: i64 = 0;
    let mut i: usize = start;
    while i < text.len()
        invariant
            2 <= radix <= 36,
            start <= i <= text.len(),
            signed == (text@.len() > 0 && (text@[0] == 0x2B || text@[0] == 0x2D)),
            digits == if signed {
                text@.drop_first()
            } else {
                text@
            },
            digits.len() == text.len() - start,
            forall|k: int| 0 <= k < digits.len() ==> digits[k] == text@[k + start],
            forall|k: int| 0 <= k < i - start ==> is_digit(#[trigger] digits[k], radix as int),
            value == digits_value(digits.take(i - start), radix as int),
            0 <= value <= 0x8000_0000,
        decreases text.len() - i,
    {
        match digit_of(text[i], radix) {
            None => {
                proof {
                    assert(!is_digit(digits[i - start], radix as int));
                }
                return None;
            },
            Some(d) => {
                proof {
                    let upto = digits.take(i - start + 1);
                    assert(upto.drop_last() =~= digits.take(i - start));
                    assert(upto.last() == text@[i as int]);
                    assert(value * radix <= 0x8000_0000 * 36) by (nonlinear_arith)
                        requires
                            0 <= value <= 0x8000_0000,
                            2 <= radix <= 36,
                    ;
                    assert(value * radix >= 0) by (nonlinear_arith)
                        requires
                            0 <= value,
                            2 <= radix,
                    ;
                }
                let next: i64 = value * (radix as i64) + d as i64;
                if next > 0x8000_0000 {
                    proof {
                        if forall|k: int|
                            0 <= k < digits.len() ==> is_digit(#[trigger] digits[k], radix as int) {
                            lemma_digits_grow(digits, i - start + 1, radix as int);
                        }
                    }
                    return None;
                }
                value = next;
                i += 1;
            },
        }
    }
    proof {
        assert(digits.take(i - start) =~= digits);
    }
    if negative {
        Some((-value) as i32)
    } else if value > 0x7FFF_FFFF {
        None
    } else {
        Some(value as i32)
    }
}

/// Reads the number that a line spells. `None` stands for a line that spells
/// none.
pub fn parse_number(line: &[u8]) -> (r: Option<i32>)
    ensures
        r is Some <==> parse_number_spec(line@) is Some,
        r is Some ==> Some(r.unwrap() as int) == parse_number_spec(line@),
{
    let text = trim(line);
    let hex = text.len() >= 2 && text[0] == 0x30 && text[1] == 0x78;
    let binary = text.len() >= 2 && text[0] == 0x30 && text[1] == 0x62;
    if hex || binary {
        let rest = vstd::slice::slice_subrange(text.as_slice(), 2, text.len());
        proof {
            assert(rest@ =~= text@.skip(2));
        }
        if hex {
            parse_radix(rest, 16)
        } else {
            parse_radix(rest, 2)
        }
    } else {
        parse_radix(text.as_slice(), 10)
    }
}

} // verus!

