//! The arithmetic of the machine, on signed 32-bit numbers.

use vstd::prelude::*;
use crate::instruction::Instruction;
use crate::word::{
    quotient, remainder, signed, to_signed, to_word, wrap, wrap_signed, wrapping_quotient,
    wrapping_remainder,
};

verus! {

/// The count of bits by which a shift moves: the five low bits of its right
/// operand.
pub open spec fn shift_amount(r: i32) -> u32 {
    (r as int % 32) as u32
}

/// The result of an arithmetic instruction on two operands, or `None` for a
/// division by zero and for an instruction of another kind. Sums, products
/// and quotients that do not fit wrap around.
pub open spec fn binary_value(instruction: Instruction, l: i32, r: i32) -> Option<i32> {
    match instruction {
        Instruction::Add() => Some(wrap_signed(l + r) as i32),
        Instruction::Subtract() => Some(wrap_signed(l - r) as i32),
        Instruction::Multiply() => Some(wrap_signed(l * r) as i32),
        Instruction::Divide() => if r == 0 {
            None
        } else {
            Some(wrap_signed(quotient(l as int, r as int)) as i32)
        },
        Instruction::Remainder() => if r == 0 {
            None
        } else {
            Some(remainder(l as int, r as int) as i32)
        },
        Instruction::And() => Some(l & r),
        Instruction::Or() => Some(l | r),
        Instruction::Xor() => Some(l ^ r),
        Instruction::LogicalLeftShift() => Some(signed(wrap(l as int) << shift_amount(r)) as i32),
        Instruction::LogicalRightShift() => Some(signed(wrap(l as int) >> shift_amount(r)) as i32),
        Instruction::ArithmeticRightShift() => Some(l >> shift_amount(r)),
        _ => None,
    }
}

/// The result of an arithmetic instruction on one operand.
pub open spec fn unary_value(instruction: Instruction, v: i32) -> i32 {
    match instruction {
        Instruction::Negate() => wrap_signed(-v) as i32,
        _ => !v,
    }
}

/// Whether the comparison with the given code holds of two numbers. The
/// codes are 0 equal, 1 not equal, 2 less, 3 greater, 4 at most, 5 at least;
/// no other code holds of anything.
pub open spec fn compare(code: u8, l: int, r: int) -> bool {
    if code == 0 {
        l == r
    } else if code == 1 {
        l != r
    } else if code == 2 {
        l < r
    } else if code == 3 {
        l > r
    } else if code == 4 {
        l <= r
    } else if code == 5 {
        l >= r
    } else {
        false
    }
}

/// Whether the test of a branch on one operand holds of a number.
pub open spec fn test_zero(instruction: Instruction, v: int) -> bool {
    match instruction {
        Instruction::EqZero(_) => v == 0,
        Instruction::NeZero(_) => v != 0,
        Instruction::LtZero(_) => v < 0,
        Instruction::GeZero(_) => v >= 0,
        _ => false,
    }
}

/// The count of bits by which a shift moves.
pub fn shift_count(r: i32) -> (count: u32)
    ensures
        count == shift_amount(r),
        count < 32,
{
    to_word(r) % 32
}

/// The sum of two numbers; it wraps around.
pub fn plus(l: i32, r: i32) -> (v: i32)
    ensures
        Some(v) == binary_value(Instruction::Add(), l, r),
{
    l.wrapping_add(r)
}

/// The difference of two numbers; it wraps around.
pub fn minus(l: i32, r: i32) -> (v: i32)
    ensures
        Some(v) == binary_value(Instruction::Subtract(), l, r),
{
    l.wrapping_sub(r)
}

/// The product of two numbers; it wraps around.
pub fn times(l: i32, r: i32) -> (v: i32)
    ensures
        Some(v) == binary_value(Instruction::Multiply(), l, r),
{
    l.wrapping_mul(r)
}

/// The quotient of two numbers, rounded toward zero; it wraps around.
pub fn divided(l: i32, r: i32) -> (v: i32)
    requires
        r != 0,
    ensures
        Some(v) == binary_value(Instruction::Divide(), l, r),
{
    wrapping_quotient(l, r)
}

/// What the division of two numbers leaves over.
pub fn modulo(l: i32, r: i32) -> (v: i32)
    requires
        r != 0,
    ensures
        Some(v) == binary_value(Instruction::Remainder(), l, r),
{
    wrapping_remainder(l, r)
}

/// The bits that both numbers have.
pub fn bit_and(l: i32, r: i32) -> (v: i32)
    ensures
        Some(v) == binary_value(Instruction::And(), l, r),
{
    l & r
}

/// The bits that either number has.
pub fn bit_or(l: i32, r: i32) -> (v: i32)
    ensures
        Some(v) == binary_value(Instruction::Or(), l, r),
{
    l | r
}

/// The bits that one number has and the other lacks.
pub fn bit_xor(l: i32, r: i32) -> (v: i32)
    ensures
        Some(v) == binary_value(Instruction::Xor(), l, r),
{
    l ^ r
}

/// The bits of `l` moved up; zeros come in from below.
pub fn shift_left(l: i32, r: i32) -> (v: i32)
    ensures
        Some(v) == binary_value(Instruction::LogicalLeftShift(), l, r),
{
    to_signed(to_word(l) << shift_count(r))
}

/// The bits of `l` moved down; zeros come in from above.
pub fn shift_right(l: i32, r: i32) -> (v: i32)
    ensures
        Some(v) == binary_value(Instruction::LogicalRightShift(), l, r),
{
    to_signed(to_word(l) >> shift_count(r))
}

/// The bits of `l` moved down; copies of the sign bit come in from above.
pub fn shift_right_signed(l: i32, r: i32) -> (v: i32)
    ensures
        Some(v) == binary_value(Instruction::ArithmeticRightShift(), l, r),
{
    l >> shift_count(r)
}

/// The negative of a number; it wraps around.
pub fn negated(x: i32) -> (v: i32)
    ensures
        v == unary_value(Instruction::Negate(), x),
{
    0i32.wrapping_sub(x)
}

/// The bits that a number lacks.
pub fn bit_not(x: i32) -> (v: i32)
    ensures
        v == unary_value(Instruction::Not(), x),
{
    !x
}

/// Whether a number is zero.
pub fn is_zero(x: i32) -> (b: bool)
    ensures
        b == test_zero(Instruction::EqZero(0), x as int),
{
    x == 0
}

/// Whether a number is not zero.
pub fn is_not_zero(x: i32) -> (b: bool)
    ensures
        b == test_zero(Instruction::NeZero(0), x as int),
{
    x != 0
}

/// Whether a number is less than zero.
pub fn is_negative(x: i32) -> (b: bool)
    ensures
        b == test_zero(Instruction::LtZero(0), x as int),
{
    x < 0
}

/// Whether a number is zero or more.
pub fn is_not_negative(x: i32) -> (b: bool)
    ensures
        b == test_zero(Instruction::GeZero(0), x as int),
{
    x >= 0
}

/// Whether the comparison with the given code holds of two numbers.
pub fn compares(code: u8, l: i32, r: i32) -> (b: bool)
    ensures
        b == compare(code, l as int, r as int),
{
    match code {
        0 => l == r,
        1 => l != r,
        2 => l < r,
        3 => l > r,
        4 => l <= r,
        5 => l >= r,
        _ => false,
    }
}

} // verus!
