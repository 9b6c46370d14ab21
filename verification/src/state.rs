//! The machine as a mathematical object: its state, and what each
//! instruction does to it.

use vstd::prelude::*;
use crate::alu::{binary_value, compare, test_zero, unary_value};
use crate::instruction::{decode_spec, Instruction};
use crate::packed::{pack_spec, string_at};
use crate::render::{dump_text, print_text};
use crate::text::{after_line, first_line, parse_number_spec, trim_spec};
use crate::word::{quotient, signed, wrap, wrap16};

verus! {

/// The number of words in the memory.
pub const MEMORY_WORDS: usize = 1024;

/// Why a run was given up.
#[derive(Clone, Copy, Debug, PartialEq, Eq, Structural)]
pub enum Fault {
    /// A word was pushed on a full stack.
    StackOverflow,
    /// A line of input spelled no number.
    BadInput,
    /// A word that encodes no instruction was fetched.
    IllegalInstruction,
    /// An address outside the memory was used.
    OutOfRange,
    /// A number was divided by zero.
    DivideByZero,
}

/// How the machine goes on after an instruction.
#[derive(Clone, Copy, Debug, PartialEq, Eq, Structural)]
pub enum Flow {
    /// With the instruction that follows.
    Next,
    /// With the instruction at the program counter, which the instruction set.
    Jump,
    /// Not at all: the program halted with this code.
    Halt(u8),
}

/// The state of a machine.
pub struct State {
    /// The memory: the program from address 0 up, the stack from the top
    /// down.
    pub ram: Seq<u32>,
    /// The address of the topmost word of the stack; 1024 if it is empty.
    pub sp: int,
    /// The address of the next instruction.
    pub pc: int,
    /// The input that has not been read yet.
    pub input: Seq<u8>,
    /// The output so far.
    pub output: Seq<u8>,
}

/// The state after an instruction, and how the machine goes on.
pub type Effect = (State, Result<Flow, Fault>);

/// The nearest number to `x` that lies between `low` and `high`.
pub open spec fn clamp(x: int, low: int, high: int) -> int {
    if x < low {
        low
    } else if x > high {
        high
    } else {
        x
    }
}

/// The lines that show the stack from the slot at `at` to its bottom, each
/// with its distance from the top at `sp`.
pub open spec fn dump_from(ram: Seq<u32>, sp: int, at: int) -> Seq<u8>
    decreases MEMORY_WORDS - at,
{
    if at < sp || at < 0 || at >= MEMORY_WORDS {
        Seq::empty()
    } else {
        dump_text((at - sp) as nat, ram[at]) + dump_from(ram, sp, at + 1)
    }
}

impl State {
    /// A state that a machine can be in.
    pub open spec fn wf(self) -> bool {
        &&& self.ram.len() == MEMORY_WORDS
        &&& 0 <= self.sp <= MEMORY_WORDS
        &&& -0x8000 <= self.pc <= 0x7FFF
    }

    /// The state of a new machine that will read the given input.
    pub open spec fn fresh(input: Seq<u8>) -> State {
        State {
            ram: Seq::new(MEMORY_WORDS as nat, |i: int| 0u32),
            sp: MEMORY_WORDS as int,
            pc: 0,
            input,
            output: Seq::empty(),
        }
    }

    /// Whether an address lies in the memory.
    pub open spec fn holds(self, at: int) -> bool {
        0 <= at < MEMORY_WORDS
    }

    /// The address that a byte offset from the stack pointer names: the
    /// offset counts four to a word, and what is left over is dropped.
    pub open spec fn slot(self, offset: int) -> int {
        self.sp + quotient(offset, 4)
    }

    /// The word at an address, or zero outside the memory.
    pub open spec fn word_or_zero(self, at: int) -> u32 {
        if self.holds(at) {
            self.ram[at]
        } else {
            0
        }
    }

    /// The state with the program counter moved by an offset, in 16-bit
    /// arithmetic.
    pub open spec fn jumped(self, offset: int) -> State {
        State { pc: wrap16(self.pc + offset), ..self }
    }

    /// The state with more output.
    pub open spec fn printed(self, text: Seq<u8>) -> State {
        State { output: self.output + text, ..self }
    }

    /// The state with one word more on the stack; the stack is not full.
    pub open spec fn pushed(self, word: u32) -> State {
        State { sp: self.sp - 1, ram: self.ram.update(self.sp - 1, word), ..self }
    }

    /// Pushing a word: a fault that leaves the state as it is if the stack is
    /// full.
    pub open spec fn push(self, word: u32) -> (State, Result<(), Fault>) {
        if self.sp <= 0 {
            (self, Err(Fault::StackOverflow))
        } else {
            (self.pushed(word), Ok(()))
        }
    }

    /// Pushing words one by one, the last first, so that they come to lie in
    /// memory in their order. It ends at the first push that faults.
    pub open spec fn push_all(self, words: Seq<u32>) -> (State, Result<(), Fault>)
        decreases words.len(),
    {
        if words.len() == 0 {
            (self, Ok(()))
        } else if self.sp <= 0 {
            (self, Err(Fault::StackOverflow))
        } else {
            self.pushed(words.last()).push_all(words.drop_last())
        }
    }

    /// The instruction at the program counter.
    pub open spec fn fetch(self) -> Result<Instruction, Fault> {
        if !self.holds(self.pc) {
            Err(Fault::OutOfRange)
        } else {
            match decode_spec(self.ram[self.pc]) {
                Some(instruction) => Ok(instruction),
                None => Err(Fault::IllegalInstruction),
            }
        }
    }

    /// Exchanging the words at two byte offsets from the stack pointer.
    pub open spec fn swap(self, from: int, to: int) -> Effect {
        let f = self.slot(from);
        let t = self.slot(to);
        if self.holds(f) && self.holds(t) {
            (State { ram: self.ram.update(f, self.ram[t]).update(t, self.ram[f]), ..self }, Ok(Flow::Next))
        } else {
            (self, Err(Fault::OutOfRange))
        }
    }

    /// Reading a line and pushing the number that it spells. The line is
    /// gone from the input even if it spells none.
    pub open spec fn input_number(self) -> Effect {
        let read = State { input: after_line(self.input), ..self };
        match parse_number_spec(first_line(self.input)) {
            Some(v) => next(read.push(wrap(v))),
            None => (read, Err(Fault::BadInput)),
        }
    }

    /// The text that a line gives for a string of at most `limit` bytes: the
    /// line without the whitespace around it, cut off after `limit` bytes.
    pub open spec fn string_text(line: Seq<u8>, limit: int) -> Seq<u8> {
        let text = trim_spec(line);
        if 0 <= limit < text.len() {
            text.take(limit)
        } else {
            text
        }
    }

    /// Reading a line and pushing it as a packed string; an empty text is
    /// pushed as one word of zero.
    pub open spec fn input_string(self, limit: int) -> Effect {
        let read = State { input: after_line(self.input), ..self };
        let text = Self::string_text(first_line(self.input), limit);
        if text.len() == 0 {
            next(read.push(0))
        } else {
            next(read.push_all(pack_spec(text)))
        }
    }

    /// Discarding so many bytes of the stack, as far as it goes.
    pub open spec fn pop(self, count: int) -> Effect {
        (State { sp: clamp(self.sp + count / 4, 0, MEMORY_WORDS as int), ..self }, Ok(Flow::Next))
    }

    /// The topmost word of the stack as a signed number: the only operand of
    /// an instruction that takes one, the right operand of one that takes
    /// two.
    pub open spec fn top(self) -> i32 {
        signed(self.ram[self.sp]) as i32
    }

    /// The word below the topmost as a signed number: the left operand.
    pub open spec fn below(self) -> i32 {
        signed(self.ram[self.sp + 1]) as i32
    }

    /// The state with the two topmost words replaced by one number.
    pub open spec fn combined(self, v: i32) -> State {
        State { sp: self.sp + 1, ram: self.ram.update(self.sp + 1, wrap(v as int)), ..self }
    }

    /// The state with the topmost word replaced by a number.
    pub open spec fn replaced(self, v: i32) -> State {
        State { ram: self.ram.update(self.sp, wrap(v as int)), ..self }
    }

    /// Replacing the two topmost words by the result of an arithmetic
    /// instruction: the word on top is its right operand, the word below its
    /// left one.
    pub open spec fn binary(self, instruction: Instruction) -> Effect {
        if !self.holds(self.sp + 1) {
            (self, Err(Fault::OutOfRange))
        } else {
            match binary_value(instruction, self.below(), self.top()) {
                Some(v) => (self.combined(v), Ok(Flow::Next)),
                None => (self, Err(Fault::DivideByZero)),
            }
        }
    }

    /// Replacing the topmost word by the result of an arithmetic instruction.
    pub open spec fn unary(self, instruction: Instruction) -> Effect {
        if !self.holds(self.sp) {
            (self, Err(Fault::OutOfRange))
        } else {
            (self.replaced(unary_value(instruction, self.top())), Ok(Flow::Next))
        }
    }

    /// Printing the packed string at a byte offset from the stack pointer.
    pub open spec fn print_string(self, offset: int) -> Effect {
        match string_at(self.ram, self.slot(offset)) {
            Some(text) => (self.printed(text), Ok(Flow::Next)),
            None => (self, Err(Fault::OutOfRange)),
        }
    }

    /// Pushing the address of the next instruction and jumping.
    pub open spec fn call(self, offset: int) -> Effect {
        if self.sp <= 0 {
            (self, Err(Fault::StackOverflow))
        } else {
            (self.pushed(wrap(self.pc + 1)).jumped(offset), Ok(Flow::Jump))
        }
    }

    /// Jumping to the address on top of the stack, which is popped together
    /// with so many bytes more, as far as the stack goes. An empty stack
    /// gives the address 0.
    pub open spec fn ret(self, extra: int) -> Effect {
        let target = self.word_or_zero(self.sp);
        let sp = self.sp + 1 + clamp(extra / 4, 0, MEMORY_WORDS - self.sp);
        (
            State { sp: clamp(sp, 0, MEMORY_WORDS as int), pc: wrap16(target as int), ..self },
            Ok(Flow::Jump),
        )
    }

    /// Branching if a comparison holds of the two topmost words, read as
    /// signed numbers: the word on top is the right one. A word that the
    /// stack lacks counts as zero.
    pub open spec fn branch_binary(self, code: u8, offset: int) -> Effect {
        let r = signed(self.word_or_zero(self.sp));
        let l = signed(self.word_or_zero(self.sp + 1));
        if compare(code, l, r) {
            (self.jumped(offset), Ok(Flow::Jump))
        } else {
            (self, Ok(Flow::Next))
        }
    }

    /// Branching if a test holds of the topmost word, read as a signed
    /// number.
    pub open spec fn branch_unary(self, instruction: Instruction, offset: int) -> Effect {
        if !self.holds(self.sp) {
            (self, Err(Fault::OutOfRange))
        } else if test_zero(instruction, self.top() as int) {
            (self.jumped(offset), Ok(Flow::Jump))
        } else {
            (self, Ok(Flow::Next))
        }
    }

    /// Pushing a copy of the word at a byte offset from the stack pointer.
    pub open spec fn dup(self, offset: int) -> Effect {
        let at = self.slot(offset);
        if !self.holds(at) {
            (self, Err(Fault::OutOfRange))
        } else {
            next(self.push(self.ram[at]))
        }
    }

    /// Printing the word at a byte offset from the stack pointer, in the
    /// style that the two low bits of the offset select.
    pub open spec fn print_word(self, offset: int) -> Effect {
        let at = self.slot(offset);
        if !self.holds(at) {
            (self, Err(Fault::OutOfRange))
        } else {
            (self.printed(print_text(self.ram[at], offset % 4)), Ok(Flow::Next))
        }
    }

    /// Printing every slot of the stack, from the top down to the bottom.
    pub open spec fn dump(self) -> Effect {
        (self.printed(dump_from(self.ram, self.sp, self.sp)), Ok(Flow::Next))
    }

    /// What an instruction does.
    pub open spec fn execute(self, instruction: Instruction) -> Effect {
        match instruction {
            Instruction::Exit(code) => (self, Ok(Flow::Halt(code))),
            Instruction::Swap(from, to) => self.swap(from as int, to as int),
            Instruction::Nop() => (self, Ok(Flow::Next)),
            Instruction::Input() => self.input_number(),
            Instruction::Stinput(limit) => self.input_string(limit as int),
            Instruction::Debug(_) => (self, Ok(Flow::Next)),
            Instruction::Pop(count) => self.pop(count as int),
            Instruction::Add()
            | Instruction::Subtract()
            | Instruction::Multiply()
            | Instruction::Divide()
            | Instruction::Remainder()
            | Instruction::And()
            | Instruction::Or()
            | Instruction::Xor()
            | Instruction::LogicalLeftShift()
            | Instruction::LogicalRightShift()
            | Instruction::ArithmeticRightShift() => self.binary(instruction),
            Instruction::Negate() | Instruction::Not() => self.unary(instruction),
            Instruction::Stprint(offset) => self.print_string(offset as int),
            Instruction::Goto(offset) => (self.jumped(offset as int), Ok(Flow::Jump)),
            Instruction::Call(offset) => self.call(offset as int),
            Instruction::Return(extra) => self.ret(extra as int),
            Instruction::BinaryIf(code, offset) => self.branch_binary(code, offset as int),
            Instruction::EqZero(offset)
            | Instruction::NeZero(offset)
            | Instruction::LtZero(offset)
            | Instruction::GeZero(offset) => self.branch_unary(instruction, offset as int),
            Instruction::Dup(offset) => self.dup(offset as int),
            Instruction::Dump() => self.dump(),
            Instruction::Print(offset) => self.print_word(offset as int),
            Instruction::Push(value) => next(self.push(value)),
        }
    }

    /// One turn of the machine: it fetches the instruction at the program
    /// counter, executes it and, unless the instruction jumped, halted or
    /// faulted, moves the program counter to the next word. The result is the
    /// halt code if the program halted.
    pub open spec fn cycle(self) -> (State, Result<Option<u8>, Fault>) {
        match self.fetch() {
            Err(fault) => (self, Err(fault)),
            Ok(instruction) => {
                let (after, flow) = self.execute(instruction);
                match flow {
                    Ok(Flow::Next) => (after.jumped(1), Ok(None)),
                    Ok(Flow::Jump) => (after, Ok(None)),
                    Ok(Flow::Halt(code)) => (after, Ok(Some(code))),
                    Err(fault) => (after, Err(fault)),
                }
            },
        }
    }

    /// At most `turns` turns of the machine, ended by the first that halts or
    /// faults. The result is `Ok(None)` if the program is still running.
    pub open spec fn run(self, turns: nat) -> (State, Result<Option<u8>, Fault>)
        decreases turns,
    {
        if turns == 0 {
            (self, Ok(None))
        } else {
            let (after, result) = self.cycle();
            if result == Ok::<Option<u8>, Fault>(None) {
                after.run((turns - 1) as nat)
            } else {
                (after, result)
            }
        }
    }

    /// The state after a program was loaded: its words lie from address 0 up,
    /// the rest of the memory is as before, the stack is empty and the
    /// program counter is 0.
    pub open spec fn loaded(self, body: Seq<u32>) -> State {
        State {
            ram: Seq::new(
                MEMORY_WORDS as nat,
                |i: int|
                    if i < body.len() {
                        body[i]
                    } else {
                        self.ram[i]
                    },
            ),
            sp: MEMORY_WORDS as int,
            pc: 0,
            ..self
        }
    }
}

/// How the machine goes on after an instruction that does not jump: with
/// the next instruction, unless it faulted.
pub open spec fn flow_of(r: Result<(), Fault>) -> Result<Flow, Fault> {
    match r {
        Ok(_) => Ok(Flow::Next),
        Err(fault) => Err(fault),
    }
}

/// A push as the whole of an instruction.
pub open spec fn next(pushed: (State, Result<(), Fault>)) -> Effect {
    (pushed.0, flow_of(pushed.1))
}

} // verus!
