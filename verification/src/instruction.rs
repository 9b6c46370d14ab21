//! The instruction set and its 32-bit encoding.
//!
//! The four highest bits of a word select a group of instructions; where a
//! group holds several instructions, the next four bits select one of them.
//! What is left of the word carries the operands.

use vstd::prelude::*;
use crate::word::sign_extend;

verus! {

/// The group of instructions that the highest four bits of a word select.
#[derive(Clone, Copy, Debug, PartialEq, Eq, Structural)]
pub enum Opcode {
    Miscellaneous,
    BinaryArithmetic,
    UnaryArithmetic,
    Pop,
    StringPrint,
    Goto,
    Call,
    Return,
    UnaryIf,
    BinaryIf,
    Dup,
    Print,
    Dump,
    Push,
    Unknown,
}

/// A decoded instruction with its operands.
///
/// Offsets that address memory count bytes relative to the stack pointer;
/// offsets that move the program counter count words.
#[derive(Clone, Copy, Debug, PartialEq, Eq, Structural)]
pub enum Instruction {
    /// Halts with a code.
    Exit(u8),
    /// Exchanges two words of the stack, each found by a signed byte offset.
    Swap(i16, i16),
    Nop(),
    /// Reads a number from the input and pushes it.
    Input(),
    /// Reads a line of at most so many bytes and pushes it as a packed string.
    Stinput(u32),
    Debug(u32),
    /// Discards so many bytes of the stack.
    Pop(u32),
    Add(),
    Subtract(),
    Multiply(),
    Divide(),
    Remainder(),
    And(),
    Or(),
    Xor(),
    LogicalLeftShift(),
    LogicalRightShift(),
    ArithmeticRightShift(),
    Negate(),
    Not(),
    /// Prints the packed string found at a byte offset.
    Stprint(i32),
    Goto(i32),
    Call(i32),
    /// Returns to the address on top of the stack and discards so many bytes
    /// more.
    Return(u32),
    /// Branches on a comparison, given by its code, of the two topmost words.
    BinaryIf(u8, i32),
    EqZero(i32),
    NeZero(i32),
    LtZero(i32),
    GeZero(i32),
    /// Pushes a copy of the word found at a byte offset.
    Dup(u32),
    Dump(),
    /// Prints the word found at a byte offset, in the radix that the two
    /// lowest bits of the offset select.
    Print(i32),
    /// Pushes an immediate value.
    Push(u32),
}

/// Bits 31 to 28 of a word.
pub open spec fn group(word: u32) -> int {
    word as int / 0x1000_0000
}

/// Bits 27 to 24 of a word.
pub open spec fn selector(word: u32) -> int {
    (word as int / 0x100_0000) % 16
}

/// The field of a word that starts at the bit of weight `unit` and has `span`
/// distinct values.
pub open spec fn field(word: u32, unit: int, span: int) -> int {
    (word as int / unit) % span
}

impl Opcode {
    /// The group that a four-bit number stands for.
    pub open spec fn of(n: int) -> Opcode {
        if n == 0x0 {
            Opcode::Miscellaneous
        } else if n == 0x1 {
            Opcode::Pop
        } else if n == 0x2 {
            Opcode::BinaryArithmetic
        } else if n == 0x3 {
            Opcode::UnaryArithmetic
        } else if n == 0x4 {
            Opcode::StringPrint
        } else if n == 0x5 {
            Opcode::Call
        } else if n == 0x6 {
            Opcode::Return
        } else if n == 0x7 {
            Opcode::Goto
        } else if n == 0x8 {
            Opcode::BinaryIf
        } else if n == 0x9 {
            Opcode::UnaryIf
        } else if n == 0xC {
            Opcode::Dup
        } else if n == 0xD {
            Opcode::Print
        } else if n == 0xE {
            Opcode::Dump
        } else if n == 0xF {
            Opcode::Push
        } else {
            Opcode::Unknown
        }
    }

    /// Converts the highest four bits of an instruction word to its group.
    pub fn from_integer(n: u8) -> (opcode: Opcode)
        ensures
            opcode == Opcode::of(n as int),
    {
        match n {
            0x0 => Opcode::Miscellaneous,
            0x1 => Opcode::Pop,
            0x2 => Opcode::BinaryArithmetic,
            0x3 => Opcode::UnaryArithmetic,
            0x4 => Opcode::StringPrint,
            0x5 => Opcode::Call,
            0x6 => Opcode::Return,
            0x7 => Opcode::Goto,
            0x8 => Opcode::BinaryIf,
            0x9 => Opcode::UnaryIf,
            0xC => Opcode::Dup,
            0xD => Opcode::Print,
            0xE => Opcode::Dump,
            0xF => Opcode::Push,
            _ => Opcode::Unknown,
        }
    }
}

/// The miscellaneous instruction that a word of group 0 encodes.
pub open spec fn decode_miscellaneous(word: u32) -> Option<Instruction> {
    let s = selector(word);
    if s == 0x0 {
        Some(Instruction::Exit(field(word, 1, 0x100) as u8))
    } else if s == 0x1 {
        Some(
            Instruction::Swap(
                sign_extend(field(word, 0x1000, 0x1000), 0x1000) as i16,
                sign_extend(field(word, 1, 0x1000), 0x1000) as i16,
            ),
        )
    } else if s == 0x2 {
        Some(Instruction::Nop())
    } else if s == 0x4 {
        Some(Instruction::Input())
    } else if s == 0x5 {
        Some(Instruction::Stinput(field(word, 1, 0x100_0000) as u32))
    } else if s == 0xF {
        Some(Instruction::Debug(field(word, 1, 0x100_0000) as u32))
    } else {
        None
    }
}

/// The arithmetic instruction on two operands that a selector stands for.
pub open spec fn decode_binary_arithmetic(s: int) -> Option<Instruction> {
    if s == 0x0 {
        Some(Instruction::Add())
    } else if s == 0x1 {
        Some(Instruction::Subtract())
    } else if s == 0x2 {
        Some(Instruction::Multiply())
    } else if s == 0x3 {
        Some(Instruction::Divide())
    } else if s == 0x4 {
        Some(Instruction::Remainder())
    } else if s == 0x5 {
        Some(Instruction::And())
    } else if s == 0x6 {
        Some(Instruction::Or())
    } else if s == 0x7 {
        Some(Instruction::Xor())
    } else if s == 0x8 {
        Some(Instruction::LogicalLeftShift())
    } else if s == 0x9 {
        Some(Instruction::LogicalRightShift())
    } else if s == 0xB {
        Some(Instruction::ArithmeticRightShift())
    } else {
        None
    }
}

/// The arithmetic instruction on one operand that a selector stands for.
pub open spec fn decode_unary_arithmetic(s: int) -> Option<Instruction> {
    if s == 0x0 {
        Some(Instruction::Negate())
    } else if s == 0x1 {
        Some(Instruction::Not())
    } else {
        None
    }
}

/// The branch on one operand that a word of group 9 encodes: bits 26 and 25
/// choose the test, the low 24 bits are the signed offset.
pub open spec fn decode_unary_if(word: u32) -> Instruction {
    let test = field(word, 0x200_0000, 4);
    let offset = sign_extend(field(word, 1, 0x100_0000), 0x100_0000) as i32;
    if test == 0 {
        Instruction::EqZero(offset)
    } else if test == 1 {
        Instruction::NeZero(offset)
    } else if test == 2 {
        Instruction::LtZero(offset)
    } else {
        Instruction::GeZero(offset)
    }
}

/// The instruction that a word encodes, if it encodes one.
pub open spec fn decode_spec(word: u32) -> Option<Instruction> {
    match Opcode::of(group(word)) {
        Opcode::Miscellaneous => decode_miscellaneous(word),
        Opcode::Pop => Some(Instruction::Pop(field(word, 1, 0x1000_0000) as u32)),
        Opcode::BinaryArithmetic => decode_binary_arithmetic(selector(word)),
        Opcode::UnaryArithmetic => decode_unary_arithmetic(selector(word)),
        Opcode::StringPrint => Some(Instruction::Stprint(field(word, 1, 0x1000_0000) as i32)),
        Opcode::Call => Some(
            Instruction::Call(sign_extend(field(word, 1, 0x400_0000), 0x400_0000) as i32),
        ),
        Opcode::Return => Some(Instruction::Return(field(word, 1, 0x400_0000) as u32)),
        Opcode::Goto => Some(
            Instruction::Goto(sign_extend(field(word, 4, 0x100_0000), 0x100_0000) as i32),
        ),
        Opcode::BinaryIf => Some(
            Instruction::BinaryIf(
                field(word, 0x200_0000, 8) as u8,
                sign_extend(field(word, 4, 0x80_0000), 0x80_0000) as i32,
            ),
        ),
        Opcode::UnaryIf => Some(decode_unary_if(word)),
        Opcode::Dup => Some(Instruction::Dup(field(word, 1, 0x1000_0000) as u32)),
        Opcode::Print => Some(
            Instruction::Print(sign_extend(field(word, 1, 0x1000_0000), 0x1000_0000) as i32),
        ),
        Opcode::Dump => Some(Instruction::Dump()),
        Opcode::Push => Some(
            Instruction::Push(
                crate::word::wrap(sign_extend(field(word, 1, 0x1000_0000), 0x1000_0000)),
            ),
        ),
        Opcode::Unknown => None,
    }
}

/// Reads a field as a signed number of 32 bits.
fn extend(value: u32, span: u32) -> (r: i32)
    requires
        value < span <= 0x1000_0000,
    ensures
        r == sign_extend(value as int, span as int),
{
    if value >= span - value {
        value as i32 - span as i32
    } else {
        value as i32
    }
}

/// Decodes an instruction word. `None` stands for a word that encodes no
/// instruction.
pub fn decode(word: u32) -> (r: Option<Instruction>)
    ensures
        r == decode_spec(word),
{
    let high: u32 = word >> 28;
    let s: u32 = (word >> 24) & 0xF;
    assert(high == word / 0x1000_0000 && high < 16) by (bit_vector)
        requires
            high == word >> 28,
    ;
    assert(s == (word / 0x100_0000) % 16) by (bit_vector)
        requires
            s == (word >> 24) & 0xF,
    ;
    match Opcode::from_integer(high as u8) {
        Opcode::Miscellaneous => match s {
            0x0 => {
                let code: u32 = word & 0xFF;
                assert(code == word % 0x100) by (bit_vector)
                    requires
                        code == word & 0xFF,
                ;
                Some(Instruction::Exit(code as u8))
            },
            0x1 => {
                let from: u32 = (word >> 12) & 0xFFF;
                let to: u32 = word & 0xFFF;
                assert(from == (word / 0x1000) % 0x1000 && to == word % 0x1000) by (bit_vector)
                    requires
                        from == (word >> 12) & 0xFFF,
                        to == word & 0xFFF,
                ;
                Some(Instruction::Swap(extend(from, 0x1000) as i16, extend(to, 0x1000) as i16))
            },
            0x2 => Some(Instruction::Nop()),
            0x4 => Some(Instruction::Input()),
            0x5 => Some(Instruction::Stinput(low_bits(word, 0xFF_FFFF))),
            0xF => Some(Instruction::Debug(low_bits(word, 0xFF_FFFF))),
            _ => None,
        },
        Opcode::Pop => Some(Instruction::Pop(low_bits(word, 0xFFF_FFFF))),
        Opcode::BinaryArithmetic => match s {
            0x0 => Some(Instruction::Add()),
            0x1 => Some(Instruction::Subtract()),
            0x2 => Some(Instruction::Multiply()),
            0x3 => Some(Instruction::Divide()),
            0x4 => Some(Instruction::Remainder()),
            0x5 => Some(Instruction::And()),
            0x6 => Some(Instruction::Or()),
            0x7 => Some(Instruction::Xor()),
            0x8 => Some(Instruction::LogicalLeftShift()),
            0x9 => Some(Instruction::LogicalRightShift()),
            0xB => Some(Instruction::ArithmeticRightShift()),
            _ => None,
        },
        Opcode::UnaryArithmetic => match s {
            0x0 => Some(Instruction::Negate()),
            0x1 => Some(Instruction::Not()),
            _ => None,
        },
        Opcode::StringPrint => Some(Instruction::Stprint(low_bits(word, 0xFFF_FFFF) as i32)),
        Opcode::Call => Some(Instruction::Call(extend(low_bits(word, 0x3FF_FFFF), 0x400_0000))),
        Opcode::Return => Some(Instruction::Return(low_bits(word, 0x3FF_FFFF))),
        Opcode::Goto => {
            let raw: u32 = (word >> 2) & 0xFF_FFFF;
            assert(raw == (word / 4) % 0x100_0000) by (bit_vector)
                requires
                    raw == (word >> 2) & 0xFF_FFFF,
            ;
            Some(Instruction::Goto(extend(raw, 0x100_0000)))
        },
        Opcode::BinaryIf => {
            let test: u32 = (word >> 25) & 0b111;
            let raw: u32 = (word >> 2) & 0x7F_FFFF;
            assert(test == (word / 0x200_0000) % 8 && raw == (word / 4) % 0x80_0000)
                by (bit_vector)
                requires
                    test == (word >> 25) & 0b111,
                    raw == (word >> 2) & 0x7F_FFFF,
            ;
            Some(Instruction::BinaryIf(test as u8, extend(raw, 0x80_0000)))
        },
        Opcode::UnaryIf => {
            let test: u32 = (word >> 25) & 0b11;
            assert(test == (word / 0x200_0000) % 4) by (bit_vector)
                requires
                    test == (word >> 25) & 0b11,
            ;
            let offset = extend(low_bits(word, 0xFF_FFFF), 0x100_0000);
            match test {
                0b00 => Some(Instruction::EqZero(offset)),
                0b01 => Some(Instruction::NeZero(offset)),
                0b10 => Some(Instruction::LtZero(offset)),
                _ => Some(Instruction::GeZero(offset)),
            }
        },
        Opcode::Dup => Some(Instruction::Dup(low_bits(word, 0xFFF_FFFF))),
        Opcode::Print => Some(Instruction::Print(extend(low_bits(word, 0xFFF_FFFF), 0x1000_0000))),
        Opcode::Dump => Some(Instruction::Dump()),
        Opcode::Push => Some(
            Instruction::Push(crate::word::to_word(extend(low_bits(word, 0xFFF_FFFF), 0x1000_0000))),
        ),
        Opcode::Unknown => None,
    }
}

/// The bits of a word that a mask of 24, 26 or 28 low bits keeps.
fn low_bits(word: u32, mask: u32) -> (r: u32)
    requires
        mask == 0xFF_FFFF || mask == 0x3FF_FFFF || mask == 0xFFF_FFFF,
    ensures
        r == field(word, 1, mask + 1),
{
    let r = word & mask;
    assert(r == word % ((mask + 1) as u32)) by (bit_vector)
        requires
            r == word & mask,
            mask == 0xFF_FFFF || mask == 0x3FF_FFFF || mask == 0xFFF_FFFF,
    ;
    r
}

} // verus!
