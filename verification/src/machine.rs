//! The machine that runs: memory, stack pointer, program counter, and the
//! two byte buffers that it reads from and prints to.

use vstd::prelude::*;
use crate::instruction::{decode, Instruction};
use crate::packed::{pack, unpack};
use crate::render::{dump_line, print_line};
use crate::alu::{
    binary_value, bit_and, bit_not, bit_or, bit_xor, compares, divided, is_negative, is_not_negative,
    is_not_zero, is_zero, minus, modulo, negated, plus, shift_left, shift_right,
    shift_right_signed, times,
};
use crate::program::{is_program, BadProgram, MAGIC};
use crate::state::{dump_from, flow_of, Fault, Flow, State, MEMORY_WORDS};
use crate::text::{
    after_line, ends_line, first_line, is_line_end, lemma_line_len, parse_number, trim,
};
use crate::word::{to_i16, to_signed, to_word};

verus! {

/// A stack machine with a memory of 1024 words.
pub struct Machine {
    ram: [u32; MEMORY_WORDS],
    sp: i16,
    pc: i16,
    input: Vec<u8>,
    cursor: usize,
    output: Vec<u8>,
}

impl View for Machine {
    type V = State;

    closed spec fn view(&self) -> State {
        State {
            ram: self.ram@,
            sp: self.sp as int,
            pc: self.pc as int,
            input: self.input@.skip(self.cursor as int),
            output: self.output@,
        }
    }
}

impl Machine {
    #[verifier::type_invariant]
    spec fn inv(&self) -> bool {
        0 <= self.sp <= MEMORY_WORDS && self.cursor <= self.input.len()
    }

    /// A machine with a memory of zeros, an empty stack and the program
    /// counter at 0, which will read the given input.
    pub fn new(input: Vec<u8>) -> (machine: Machine)
        ensures
            machine@ == State::fresh(input@),
            machine@.wf(),
    {
        let machine = Machine {
            ram: [0u32; MEMORY_WORDS],
            sp: MEMORY_WORDS as i16,
            pc: 0,
            input,
            cursor: 0,
            output: Vec::new(),
        };
        proof {
            assert(machine.ram@ =~= Seq::new(MEMORY_WORDS as nat, |i: int| 0u32));
            assert(machine.input@.skip(0) =~= input@);
        }
        machine
    }

    /// The stack pointer.
    pub fn sp(&self) -> (sp: i16)
        ensures
            sp == self@.sp,
            self@.wf(),
    {
        proof {
            use_type_invariant(self);
        }
        self.sp
    }

    /// The program counter.
    pub fn pc(&self) -> (pc: i16)
        ensures
            pc == self@.pc,
    {
        self.pc
    }

    /// The word at an address, if the address lies in the memory.
    pub fn word_at(&self, address: usize) -> (word: Option<u32>)
        ensures
            word == if address < MEMORY_WORDS {
                Some(self@.ram[address as int])
            } else {
                None
            },
    {
        if address < MEMORY_WORDS {
            Some(self.ram[address])
        } else {
            None
        }
    }

    /// The topmost word of the stack, if the stack holds one.
    pub fn peek(&self) -> (word: Option<u32>)
        ensures
            word == if self@.sp < MEMORY_WORDS {
                Some(self@.ram[self@.sp])
            } else {
                None
            },
    {
        proof {
            use_type_invariant(self);
        }
        if self.sp < MEMORY_WORDS as i16 {
            Some(self.ram[self.sp as usize])
        } else {
            None
        }
    }

    /// The output so far.
    pub fn output(&self) -> (bytes: &Vec<u8>)
        ensures
            bytes@ == self@.output,
    {
        &self.output
    }

    /// Hands out the output so far and starts anew with none.
    pub fn take_output(&mut self) -> (bytes: Vec<u8>)
        ensures
            bytes@ == old(self)@.output,
            final(self)@ == (State { output: Seq::empty(), ..old(self)@ }),
            final(self)@.wf(),
    {
        proof {
            use_type_invariant(&*self);
        }
        let mut bytes: Vec<u8> = Vec::new();
        core::mem::swap(&mut self.output, &mut bytes);
        bytes
    }

    /// Adds bytes to the end of the input.
    pub fn feed(&mut self, bytes: &[u8])
        ensures
            final(self)@ == (State { input: old(self)@.input + bytes@, ..old(self)@ }),
            final(self)@.wf(),
    {
        proof {
            use_type_invariant(&*self);
        }
        let mut input: Vec<u8> = Vec::new();
        let unread = vstd::slice::slice_subrange(
            self.input.as_slice(),
            self.cursor,
            self.input.len(),
        );
        input.extend_from_slice(unread);
        input.extend_from_slice(bytes);
        self.cursor = 0;
        self.input = input;
        proof {
            assert(self.input@.skip(0) =~= old(self)@.input + bytes@);
        }
    }

    /// Adds bytes to the end of the output.
    fn emit(&mut self, bytes: &[u8])
        ensures
            final(self)@ == old(self)@.printed(bytes@),
            final(self)@.wf(),
    {
        proof {
            use_type_invariant(&*self);
        }
        let mut output: Vec<u8> = Vec::new();
        core::mem::swap(&mut self.output, &mut output);
        output.extend_from_slice(bytes);
        self.output = output;
        proof {
            assert(self.output@ =~= old(self).output@ + bytes@);
        }
    }

    /// Loads a program: the magic word, then the words that come to lie in
    /// memory from address 0 up. The stack is emptied and the program counter
    /// set to 0. Words that are no program leave the machine as it is.
    pub fn load(&mut self, program: &[u32]) -> (r: Result<(), BadProgram>)
        ensures
            r is Ok <==> is_program(program@),
            r is Ok ==> final(self)@ == old(self)@.loaded(program@.skip(1)),
            r is Err ==> final(self)@ == old(self)@,
            final(self)@.wf(),
    {
        proof {
            use_type_invariant(&*self);
        }
        if program.len() == 0 || program[0] != MAGIC || program.len() - 1 > MEMORY_WORDS {
            return Err(BadProgram);
        }
        let count = program.len() - 1;
        let mut i: usize = 0;
        while i < count
            invariant
                i <= count <= MEMORY_WORDS,
                count == program.len() - 1,
                0 <= self.sp <= MEMORY_WORDS,
                self.cursor <= self.input.len(),
                self.cursor == old(self).cursor,
                self.input == old(self).input,
                self.output == old(self).output,
                forall|k: int| 0 <= k < i ==> self.ram@[k] == program@[k + 1],
                forall|k: int| i <= k < MEMORY_WORDS ==> self.ram@[k] == old(self).ram@[k],
            decreases count - i,
        {
            self.ram[i] = program[i + 1];
            i += 1;
        }
        self.sp = MEMORY_WORDS as i16;
        self.pc = 0;
        proof {
            assert(self@.ram =~= old(self)@.loaded(program@.skip(1)).ram);
        }
        Ok(())
    }

    /// Moves the program counter to the next word, in 16-bit arithmetic.
    pub fn step(&mut self)
        ensures
            final(self)@ == old(self)@.jumped(1),
            final(self)@.wf(),
    {
        proof {
            use_type_invariant(&*self);
        }
        self.pc = to_i16(self.pc as i64 + 1);
    }

    /// Pushes a word onto the stack. A full stack is a fault that leaves the
    /// machine as it is.
    pub fn push(&mut self, word: u32) -> (r: Result<(), Fault>)
        ensures
            (final(self)@, r) == old(self)@.push(word),
            final(self)@.wf(),
    {
        proof {
            use_type_invariant(&*self);
        }
        if self.sp <= 0 {
            return Err(Fault::StackOverflow);
        }
        self.sp = self.sp - 1;
        self.ram[self.sp as usize] = word;
        Ok(())
    }

    /// Decodes the instruction at the program counter.
    pub fn fetch(&self) -> (r: Result<Instruction, Fault>)
        ensures
            r == self@.fetch(),
    {
        if self.pc < 0 || self.pc >= MEMORY_WORDS as i16 {
            return Err(Fault::OutOfRange);
        }
        match decode(self.ram[self.pc as usize]) {
            Some(instruction) => Ok(instruction),
            None => Err(Fault::IllegalInstruction),
        }
    }

    /// Reads a line from the input: the bytes before the next line feed or
    /// null byte, which is read too and dropped, or what is left of the input
    /// if it holds neither.
    pub fn read_line(&mut self) -> (line: Vec<u8>)
        ensures
            line@ == first_line(old(self)@.input),
            final(self)@ == (State { input: after_line(old(self)@.input), ..old(self)@ }),
            final(self)@.wf(),
    {
        proof {
            use_type_invariant(&*self);
        }
        let ghost rest = self.input@.skip(self.cursor as int);
        let mut line: Vec<u8> = Vec::new();
        let mut i: usize = self.cursor;
        while i < self.input.len() && !is_line_end(self.input[i])
            invariant
                self.cursor <= i <= self.input.len(),
                *self == *old(self),
                rest == self.input@.skip(self.cursor as int),
                line@ == rest.take(i - self.cursor),
                forall|k: int| 0 <= k < i - self.cursor ==> !ends_line(#[trigger] rest[k]),
            decreases self.input.len() - i,
        {
            line.push(self.input[i]);
            proof {
                assert(rest.take(i - self.cursor).push(rest[i - self.cursor]) =~= rest.take(
                    i - self.cursor + 1,
                ));
            }
            i += 1;
        }
        proof {
            lemma_line_len(rest, i - self.cursor);
        }
        if i < self.input.len() {
            proof {
                assert(self.input@.skip(i + 1) =~= rest.skip(i - self.cursor + 1));
            }
            self.cursor = i + 1;
        } else {
            proof {
                assert(self.input@.skip(i as int) =~= Seq::<u8>::empty());
            }
            self.cursor = i;
        }
        line
    }

    /// Replaces the two topmost words of the stack by what `op` makes of
    /// them, read as signed numbers: the word below the top is its first
    /// argument, the word on top its second. A stack of fewer than two words
    /// is a fault that leaves the machine as it is.
    pub fn binary_op<F: Fn(i32, i32) -> i32>(&mut self, op: F) -> (r: Result<(), Fault>)
        requires
            old(self)@.holds(old(self)@.sp + 1) ==> call_requires(
                op,
                (old(self)@.below(), old(self)@.top()),
            ),
        ensures
            r is Ok <==> old(self)@.holds(old(self)@.sp + 1),
            r is Ok ==> call_ensures(
                op,
                (old(self)@.below(), old(self)@.top()),
                final(self)@.top(),
            ) && final(self)@ == old(self)@.combined(final(self)@.top()),
            r is Err ==> r == Err::<(), Fault>(Fault::OutOfRange) && final(self)@ == old(self)@,
            final(self)@.wf(),
    {
        proof {
            use_type_invariant(&*self);
        }
        if self.sp >= MEMORY_WORDS as i16 - 1 {
            return Err(Fault::OutOfRange);
        }
        let right = to_signed(self.ram[self.sp as usize]);
        let left = to_signed(self.ram[self.sp as usize + 1]);
        let result = op(left, right);
        self.sp = self.sp + 1;
        self.ram[self.sp as usize] = to_word(result);
        Ok(())
    }

    /// Replaces the topmost word of the stack by what `op` makes of it, read
    /// as a signed number. An empty stack is a fault that leaves the machine
    /// as it is.
    pub fn unary_op<F: Fn(i32) -> i32>(&mut self, op: F) -> (r: Result<(), Fault>)
        requires
            old(self)@.holds(old(self)@.sp) ==> call_requires(op, (old(self)@.top(),)),
        ensures
            r is Ok <==> old(self)@.holds(old(self)@.sp),
            r is Ok ==> call_ensures(op, (old(self)@.top(),), final(self)@.top()) && final(self)@
                == old(self)@.replaced(final(self)@.top()),
            r is Err ==> r == Err::<(), Fault>(Fault::OutOfRange) && final(self)@ == old(self)@,
            final(self)@.wf(),
    {
        proof {
            use_type_invariant(&*self);
        }
        if self.sp >= MEMORY_WORDS as i16 {
            return Err(Fault::OutOfRange);
        }
        let value = to_signed(self.ram[self.sp as usize]);
        let result = op(value);
        self.ram[self.sp as usize] = to_word(result);
        Ok(())
    }

    /// Moves the program counter by `offset` words if `cond` holds of the
    /// topmost word of the stack, read as a signed number, and tells whether
    /// it did. The stack stays as it is. An empty stack is a fault.
    pub fn unary_if<F: Fn(i32) -> bool>(&mut self, offset: i32, cond: F) -> (r: Result<bool, Fault>)
        requires
            old(self)@.holds(old(self)@.sp) ==> call_requires(cond, (old(self)@.top(),)),
        ensures
            r is Ok <==> old(self)@.holds(old(self)@.sp),
            r is Ok ==> call_ensures(cond, (old(self)@.top(),), r.unwrap()) && final(self)@ == if r.unwrap() {
                old(self)@.jumped(offset as int)
            } else {
                old(self)@
            },
            r is Err ==> r == Err::<bool, Fault>(Fault::OutOfRange) && final(self)@ == old(self)@,
            final(self)@.wf(),
    {
        proof {
            use_type_invariant(&*self);
        }
        if self.sp >= MEMORY_WORDS as i16 {
            return Err(Fault::OutOfRange);
        }
        let value = to_signed(self.ram[self.sp as usize]);
        if cond(value) {
            self.jump(offset);
            Ok(true)
        } else {
            Ok(false)
        }
    }

    /// Moves the program counter by an offset, in 16-bit arithmetic.
    fn jump(&mut self, offset: i32)
        ensures
            final(self)@ == old(self)@.jumped(offset as int),
            final(self)@.wf(),
    {
        proof {
            use_type_invariant(&*self);
        }
        self.pc = to_i16(self.pc as i64 + offset as i64);
    }

    /// The address that a byte offset from the stack pointer names, if it
    /// lies in the memory.
    fn slot(&self, offset: i64) -> (at: Option<usize>)
        requires
            -0x1_0000_0000 <= offset <= 0x1_0000_0000,
        ensures
            at is Some <==> self@.holds(self@.slot(offset as int)),
            at is Some ==> at.unwrap() == self@.slot(offset as int),
    {
        proof {
            use_type_invariant(self);
        }
        let words: i64 = if offset >= 0 {
            offset / 4
        } else {
            -((-offset) / 4)
        };
        let at: i64 = self.sp as i64 + words;
        if 0 <= at && at < MEMORY_WORDS as i64 {
            Some(at as usize)
        } else {
            None
        }
    }

    /// The word at an address, or zero outside the memory.
    fn word_or_zero(&self, at: usize) -> (word: u32)
        ensures
            word == self@.word_or_zero(at as int),
    {
        if at < MEMORY_WORDS {
            self.ram[at]
        } else {
            0
        }
    }

    /// Pushes words one by one, the last first, up to the first push that
    /// faults.
    fn push_all(&mut self, words: &[u32]) -> (r: Result<(), Fault>)
        ensures
            (final(self)@, r) == old(self)@.push_all(words@),
            final(self)@.wf(),
    {
        let mut i: usize = words.len();
        proof {
            use_type_invariant(&*self);
            assert(words@.take(i as int) =~= words@);
        }
        while i > 0
            invariant
                i <= words.len(),
                old(self)@.push_all(words@) == self@.push_all(words@.take(i as int)),
                self@.wf(),
            decreases i,
        {
            proof {
                assert(words@.take(i as int).drop_last() =~= words@.take(i - 1));
            }
            match self.push(words[i - 1]) {
                Ok(()) => {},
                Err(fault) => {
                    return Err(fault);
                },
            }
            i -= 1;
        }
        Ok(())
    }

    /// Exchanges the words at two byte offsets from the stack pointer.
    fn swap(&mut self, from: i16, to: i16) -> (r: Result<Flow, Fault>)
        ensures
            (final(self)@, r) == old(self)@.swap(from as int, to as int),
            final(self)@.wf(),
    {
        proof {
            use_type_invariant(&*self);
        }
        match (self.slot(from as i64), self.slot(to as i64)) {
            (Some(f), Some(t)) => {
                let first = self.ram[f];
                let second = self.ram[t];
                self.ram[f] = second;
                self.ram[t] = first;
                Ok(Flow::Next)
            },
            _ => Err(Fault::OutOfRange),
        }
    }

    /// Reads a line and pushes the number that it spells.
    fn input_number(&mut self) -> (r: Result<Flow, Fault>)
        ensures
            (final(self)@, r) == old(self)@.input_number(),
            final(self)@.wf(),
    {
        let line = self.read_line();
        match parse_number(line.as_slice()) {
            Some(v) => going_on(self.push(to_word(v))),
            None => Err(Fault::BadInput),
        }
    }

    /// Reads a line and pushes it as a packed string of at most `limit`
    /// bytes.
    fn input_string(&mut self, limit: u32) -> (r: Result<Flow, Fault>)
        ensures
            (final(self)@, r) == old(self)@.input_string(limit as int),
            final(self)@.wf(),
    {
        let line = self.read_line();
        let mut text = trim(line.as_slice());
        if (limit as usize) < text.len() {
            text.truncate(limit as usize);
        }
        let pushed = if text.len() == 0 {
            self.push(0)
        } else {
            let words = pack(text.as_slice());
            self.push_all(words.as_slice())
        };
        going_on(pushed)
    }

    /// Discards so many bytes of the stack, as far as it goes.
    fn pop(&mut self, count: u32) -> (r: Result<Flow, Fault>)
        ensures
            (final(self)@, r) == old(self)@.pop(count as int),
            final(self)@.wf(),
    {
        proof {
            use_type_invariant(&*self);
        }
        let target: u64 = self.sp as u64 + (count / 4) as u64;
        self.sp = if target > MEMORY_WORDS as u64 {
            MEMORY_WORDS as i16
        } else {
            target as i16
        };
        Ok(Flow::Next)
    }

    /// Prints the packed string at a byte offset from the stack pointer.
    fn print_string(&mut self, offset: i32) -> (r: Result<Flow, Fault>)
        ensures
            (final(self)@, r) == old(self)@.print_string(offset as int),
            final(self)@.wf(),
    {
        proof {
            use_type_invariant(&*self);
        }
        let found = match self.slot(offset as i64) {
            Some(at) => unpack(self.ram.as_slice(), at),
            None => None,
        };
        match found {
            Some(text) => {
                self.emit(text.as_slice());
                Ok(Flow::Next)
            },
            None => Err(Fault::OutOfRange),
        }
    }

    /// Pushes the address of the next instruction and jumps.
    fn call(&mut self, offset: i32) -> (r: Result<Flow, Fault>)
        ensures
            (final(self)@, r) == old(self)@.call(offset as int),
            final(self)@.wf(),
    {
        match self.push(to_word(self.pc as i32 + 1)) {
            Ok(()) => {
                self.jump(offset);
                Ok(Flow::Jump)
            },
            Err(fault) => Err(fault),
        }
    }

    /// Jumps to the address on top of the stack and pops it, together with
    /// so many bytes more.
    fn ret(&mut self, extra: u32) -> (r: Result<Flow, Fault>)
        ensures
            (final(self)@, r) == old(self)@.ret(extra as int),
            final(self)@.wf(),
    {
        proof {
            use_type_invariant(&*self);
        }
        let target = self.word_or_zero(self.sp as usize);
        let room: u32 = MEMORY_WORDS as u32 - self.sp as u32;
        let more: u32 = if extra / 4 > room {
            room
        } else {
            extra / 4
        };
        let sp: u32 = self.sp as u32 + 1 + more;
        self.sp = if sp > MEMORY_WORDS as u32 {
            MEMORY_WORDS as i16
        } else {
            sp as i16
        };
        self.pc = to_i16(target as i64);
        Ok(Flow::Jump)
    }

    /// Branches if the comparison with the given code holds of the two
    /// topmost words.
    fn branch_binary(&mut self, code: u8, offset: i32) -> (r: Result<Flow, Fault>)
        ensures
            (final(self)@, r) == old(self)@.branch_binary(code, offset as int),
            final(self)@.wf(),
    {
        proof {
            use_type_invariant(&*self);
        }
        let right = to_signed(self.word_or_zero(self.sp as usize));
        let left = to_signed(self.word_or_zero(self.sp as usize + 1));
        if compares(code, left, right) {
            self.jump(offset);
            Ok(Flow::Jump)
        } else {
            Ok(Flow::Next)
        }
    }

    /// Pushes a copy of the word at a byte offset from the stack pointer.
    fn dup(&mut self, offset: u32) -> (r: Result<Flow, Fault>)
        ensures
            (final(self)@, r) == old(self)@.dup(offset as int),
            final(self)@.wf(),
    {
        proof {
            use_type_invariant(&*self);
        }
        match self.slot(offset as i64) {
            Some(at) => going_on(self.push(self.ram[at])),
            None => Err(Fault::OutOfRange),
        }
    }

    /// Prints the word at a byte offset from the stack pointer, in the style
    /// that the two low bits of the offset select.
    fn print_word(&mut self, offset: i32) -> (r: Result<Flow, Fault>)
        ensures
            (final(self)@, r) == old(self)@.print_word(offset as int),
            final(self)@.wf(),
    {
        proof {
            use_type_invariant(&*self);
        }
        match self.slot(offset as i64) {
            Some(at) => {
                let style = (to_word(offset) % 4) as u8;
                let line = print_line(self.ram[at], style);
                self.emit(line.as_slice());
                Ok(Flow::Next)
            },
            None => Err(Fault::OutOfRange),
        }
    }

    /// Prints every slot of the stack, from the top down to the bottom.
    fn dump(&mut self) -> (r: Result<Flow, Fault>)
        ensures
            (final(self)@, r) == old(self)@.dump(),
            final(self)@.wf(),
    {
        proof {
            use_type_invariant(&*self);
        }
        let top: usize = self.sp as usize;
        let mut at: usize = top;
        proof {
            assert(self@.output + dump_from(self@.ram, top as int, top as int)
                =~= old(self)@.printed(dump_from(self@.ram, top as int, top as int)).output);
        }
        while at < MEMORY_WORDS
            invariant
                top <= at <= MEMORY_WORDS,
                self@.wf(),
                self@ == (State { output: self@.output, ..old(self)@ }),
                self@.output + dump_from(self@.ram, top as int, at as int) == old(self)@.output
                    + dump_from(self@.ram, top as int, top as int),
            decreases MEMORY_WORDS - at,
        {
            let ghost before = self@.output;
            let word = self.ram[at];
            let line = dump_line((at - top) as u16, word);
            self.emit(line.as_slice());
            proof {
                assert((before + line@) + dump_from(self@.ram, top as int, at + 1) =~= before + (
                line@ + dump_from(self@.ram, top as int, at + 1)));
            }
            at += 1;
        }
        proof {
            assert(self@.output + Seq::<u8>::empty() =~= self@.output);
        }
        Ok(Flow::Next)
    }

    /// Divides the word below the top of the stack by the word on top, or
    /// takes the remainder of that division, and puts the result in their
    /// place. A divisor of zero is a fault that leaves the machine as it is.
    fn divide(&mut self, instruction: Instruction) -> (r: Result<(), Fault>)
        requires
            instruction == Instruction::Divide() || instruction == Instruction::Remainder(),
        ensures
            (final(self)@, flow_of(r)) == old(self)@.binary(instruction),
            final(self)@.wf(),
    {
        proof {
            use_type_invariant(&*self);
        }
        if self.sp < MEMORY_WORDS as i16 - 1 && self.ram[self.sp as usize] == 0 {
            return Err(Fault::DivideByZero);
        }
        match instruction {
            Instruction::Divide() => self.binary_op(divided),
            _ => self.binary_op(modulo),
        }
    }

    /// Executes an arithmetic instruction.
    fn arithmetic(&mut self, instruction: Instruction) -> (r: Result<(), Fault>)
        requires
            binary_value(instruction, 1, 1) is Some || instruction == Instruction::Negate()
                || instruction == Instruction::Not(),
        ensures
            (final(self)@, flow_of(r)) == match instruction {
                Instruction::Negate() | Instruction::Not() => old(self)@.unary(instruction),
                _ => old(self)@.binary(instruction),
            },
            final(self)@.wf(),
    {
        proof {
            use_type_invariant(&*self);
        }
        match instruction {
            Instruction::Add() => self.binary_op(plus),
            Instruction::Subtract() => self.binary_op(minus),
            Instruction::Multiply() => self.binary_op(times),
            Instruction::Divide() | Instruction::Remainder() => self.divide(instruction),
            Instruction::And() => self.binary_op(bit_and),
            Instruction::Or() => self.binary_op(bit_or),
            Instruction::Xor() => self.binary_op(bit_xor),
            Instruction::LogicalLeftShift() => self.binary_op(shift_left),
            Instruction::LogicalRightShift() => self.binary_op(shift_right),
            Instruction::ArithmeticRightShift() => self.binary_op(shift_right_signed),
            Instruction::Negate() => self.unary_op(negated),
            _ => self.unary_op(bit_not),
        }
    }

    /// Branches if the test of the instruction holds of the topmost word.
    fn branch_unary(&mut self, instruction: Instruction, offset: i32) -> (r: Result<Flow, Fault>)
        requires
            instruction is EqZero || instruction is NeZero || instruction is LtZero
                || instruction is GeZero,
        ensures
            (final(self)@, r) == old(self)@.branch_unary(instruction, offset as int),
            final(self)@.wf(),
    {
        proof {
            use_type_invariant(&*self);
        }
        let taken = match instruction {
            Instruction::EqZero(_) => self.unary_if(offset, is_zero),
            Instruction::NeZero(_) => self.unary_if(offset, is_not_zero),
            Instruction::LtZero(_) => self.unary_if(offset, is_negative),
            _ => self.unary_if(offset, is_not_negative),
        };
        match taken {
            Ok(true) => Ok(Flow::Jump),
            Ok(false) => Ok(Flow::Next),
            Err(fault) => Err(fault),
        }
    }

    /// Executes one instruction. The program counter stays where it is
    /// unless the instruction jumps.
    pub fn execute(&mut self, instruction: Instruction) -> (r: Result<Flow, Fault>)
        ensures
            (final(self)@, r) == old(self)@.execute(instruction),
            final(self)@.wf(),
    {
        proof {
            use_type_invariant(&*self);
        }
        match instruction {
            Instruction::Exit(code) => Ok(Flow::Halt(code)),
            Instruction::Swap(from, to) => self.swap(from, to),
            Instruction::Nop() => Ok(Flow::Next),
            Instruction::Input() => self.input_number(),
            Instruction::Stinput(limit) => self.input_string(limit),
            Instruction::Debug(_) => Ok(Flow::Next),
            Instruction::Pop(count) => self.pop(count),
            Instruction::Add()
            | Instruction::Subtract()
            | Instruction::Multiply()
            | Instruction::Divide()
            | Instruction::Remainder()
            | Instruction::And()
            | Instruction::Or()
            | Instruction::Xor()
            | Instruction::LogicalLeftShift()
            | Instruction::LogicalRightShift()
            | Instruction::ArithmeticRightShift()
            | Instruction::Negate()
            | Instruction::Not() => going_on(self.arithmetic(instruction)),
            Instruction::Stprint(offset) => self.print_string(offset),
            Instruction::Goto(offset) => {
                self.jump(offset);
                Ok(Flow::Jump)
            },
            Instruction::Call(offset) => self.call(offset),
            Instruction::Return(extra) => self.ret(extra),
            Instruction::BinaryIf(code, offset) => self.branch_binary(code, offset),
            Instruction::EqZero(offset)
            | Instruction::NeZero(offset)
            | Instruction::LtZero(offset)
            | Instruction::GeZero(offset) => self.branch_unary(instruction, offset),
            Instruction::Dup(offset) => self.dup(offset),
            Instruction::Dump() => self.dump(),
            Instruction::Print(offset) => self.print_word(offset),
            Instruction::Push(value) => going_on(self.push(value)),
        }
    }

    /// Takes one turn: fetches the instruction at the program counter,
    /// executes it, and moves on to the next word unless the instruction
    /// jumped, halted or faulted. The result is the halt code if the program
    /// halted.
    pub fn cycle(&mut self) -> (r: Result<Option<u8>, Fault>)
        ensures
            (final(self)@, r) == old(self)@.cycle(),
            final(self)@.wf(),
    {
        proof {
            use_type_invariant(&*self);
        }
        let instruction = match self.fetch() {
            Ok(instruction) => instruction,
            Err(fault) => {
                return Err(fault);
            },
        };
        match self.execute(instruction) {
            Ok(Flow::Next) => {
                self.step();
                Ok(None)
            },
            Ok(Flow::Jump) => Ok(None),
            Ok(Flow::Halt(code)) => Ok(Some(code)),
            Err(fault) => Err(fault),
        }
    }

    /// Runs the program for at most `turns` turns, up to the first that
    /// halts or faults. The result is the halt code, or `None` if the program
    /// is still running after the last turn.
    pub fn run(&mut self, turns: u64) -> (r: Result<Option<u8>, Fault>)
        ensures
            (final(self)@, r) == old(self)@.run(turns as nat),
            final(self)@.wf(),
    {
        proof {
            use_type_invariant(&*self);
        }
        let mut left: u64 = turns;
        while left > 0
            invariant
                old(self)@.run(turns as nat) == self@.run(left as nat),
                self@.wf(),
            decreases left,
        {
            match self.cycle() {
                Ok(None) => {},
                halted => {
                    return halted;
                },
            }
            left -= 1;
        }
        Ok(None)
    }
}

/// Goes on with the next instruction after one that did not fault.
fn going_on(r: Result<(), Fault>) -> (flow: Result<Flow, Fault>)
    ensures
        flow == flow_of(r),
{
    match r {
        Ok(()) => Ok(Flow::Next),
        Err(fault) => Err(fault),
    }
}

} // verus!
