//! What holds of every state and every instruction.

use vstd::prelude::*;
use crate::instruction::Instruction;
use crate::packed::{
    byte_of, chunk_count, chunk_word, continues, pack_spec, padded_byte, payload, string_at,
    CONTINUES, SENTINEL,
};
use crate::state::{Fault, Flow, State, MEMORY_WORDS};
use crate::text::{after_line, first_line};
use crate::word::{signed, wrap, wrap_signed};

verus! {

/// Pushing words leaves a state that a machine can be in, and touches
/// nothing but the memory and the stack pointer.
pub proof fn lemma_push_all_wf(s: State, words: Seq<u32>)
    requires
        s.wf(),
    ensures
        s.push_all(words).0.wf(),
        s.push_all(words).0 == (State {
            sp: s.push_all(words).0.sp,
            ram: s.push_all(words).0.ram,
            ..s
        }),
    decreases words.len(),
{
    if words.len() > 0 && s.sp > 0 {
        lemma_push_all_wf(s.pushed(words.last()), words.drop_last());
    }
}

/// Every instruction takes a state that a machine can be in to another one.
pub proof fn law_execute_keeps_wf(s: State, instruction: Instruction)
    requires
        s.wf(),
    ensures
        s.execute(instruction).0.wf(),
{
    match instruction {
        Instruction::Stinput(limit) => {
            let read = State { input: after_line(s.input), ..s };
            let text = State::string_text(first_line(s.input), limit as int);
            lemma_push_all_wf(read, pack_spec(text));
        },
        _ => {},
    }
}

/// Output is only ever added, and only `Stprint`, `Print` and `Dump` add any;
/// only `Input` and `Stinput` take anything from the input.
pub proof fn law_streams(s: State, instruction: Instruction)
    requires
        s.wf(),
    ensures
        ({
            let after = s.execute(instruction).0;
            &&& s.output.len() <= after.output.len()
            &&& after.output.take(s.output.len() as int) == s.output
            &&& !(instruction is Stprint || instruction is Print || instruction is Dump)
                ==> after.output == s.output
            &&& !(instruction is Input || instruction is Stinput) ==> after.input == s.input
        }),
{
    let after = s.execute(instruction).0;
    match instruction {
        Instruction::Stinput(limit) => {
            let read = State { input: after_line(s.input), ..s };
            let text = State::string_text(first_line(s.input), limit as int);
            lemma_push_all_wf(read, pack_spec(text));
        },
        _ => {},
    }
    assert(after.output.take(s.output.len() as int) =~= s.output);
}

/// An instruction that faults changes nothing, with two exceptions: `Input`
/// and `Stinput` have read their line, and `Stinput` has pushed the words
/// for which there was room.
pub proof fn law_fault_changes_nothing(s: State, instruction: Instruction)
    requires
        s.execute(instruction).1 is Err,
        !(instruction is Input || instruction is Stinput),
    ensures
        s.execute(instruction).0 == s,
{
}

/// Every turn takes a state that a machine can be in to another one.
pub proof fn law_cycle_keeps_wf(s: State)
    requires
        s.wf(),
    ensures
        s.cycle().0.wf(),
{
    match s.fetch() {
        Ok(instruction) => {
            law_execute_keeps_wf(s, instruction);
        },
        Err(_) => {},
    }
}

/// Only `Exit` halts, with its code, and it changes nothing.
pub proof fn law_halt_is_exit(s: State, instruction: Instruction, code: u8)
    requires
        s.execute(instruction).1 == Ok::<Flow, Fault>(Flow::Halt(code)),
    ensures
        instruction == Instruction::Exit(code),
        s.execute(instruction).0 == s,
{
}

/// A run from a state that a machine can be in ends in such a state, and in
/// one of three ways: still running, faulted, or halted with a code from 0
/// to 255, which is the code of the `Exit` instruction at the program
/// counter.
pub proof fn law_run_outcome(s: State, turns: nat)
    requires
        s.wf(),
    ensures
        s.run(turns).0.wf(),
        s.run(turns).1 matches Ok(Some(code)) ==> 0 <= code <= 255 && s.run(turns).0.fetch()
            == Ok::<Instruction, Fault>(Instruction::Exit(code)),
    decreases turns,
{
    if turns > 0 {
        law_cycle_keeps_wf(s);
        let (after, result) = s.cycle();
        if result == Ok::<Option<u8>, Fault>(None) {
            law_run_outcome(after, (turns - 1) as nat);
        } else {
            match (s.fetch(), result) {
                (Ok(instruction), Ok(Some(code))) => {
                    law_halt_is_exit(s, instruction, code);
                },
                _ => {},
            }
        }
    }
}

/// A run can be taken up where it was left: more turns after a run that is
/// still running give what one run of all the turns gives, and a run that
/// halted or faulted stays as it is however many turns it is given.
pub proof fn law_run_resumes(s: State, first: nat, more: nat)
    ensures
        s.run(first + more) == if s.run(first).1 == Ok::<Option<u8>, Fault>(None) {
            s.run(first).0.run(more)
        } else {
            s.run(first)
        },
    decreases first,
{
    if first > 0 {
        let (after, result) = s.cycle();
        if result == Ok::<Option<u8>, Fault>(None) {
            law_run_resumes(after, (first - 1) as nat, more);
            assert(first + more - 1 == (first - 1) as nat + more);
        }
    }
}

/// A word pushed on a stack that is not full is the topmost word afterwards,
/// one address below the old top, and popping one word gives back the old
/// stack pointer.
pub proof fn law_push_then_pop(s: State, word: u32)
    requires
        s.wf(),
        s.sp > 0,
    ensures
        s.push(word).1 is Ok,
        s.push(word).0.sp == s.sp - 1,
        s.push(word).0.ram[s.push(word).0.sp] == word,
        s.push(word).0.execute(Instruction::Pop(4)).0.sp == s.sp,
        s.push(word).0.execute(Instruction::Pop(4)).1 == Ok::<Flow, Fault>(Flow::Next),
{
}

/// Popping one word from a stack that is not empty moves the stack pointer
/// up by one.
pub proof fn law_pop_one(s: State)
    requires
        s.wf(),
        s.sp < MEMORY_WORDS,
    ensures
        s.execute(Instruction::Pop(4)).0.sp == s.sp + 1,
{
}

/// A push on a full stack is a stack overflow that changes nothing.
pub proof fn law_push_full(s: State, word: u32)
    requires
        s.wf(),
        s.sp == 0,
    ensures
        s.push(word) == (s, Err::<(), Fault>(Fault::StackOverflow)),
        s.execute(Instruction::Push(word)) == (s, Err::<Flow, Fault>(Fault::StackOverflow)),
{
}

/// After `a` and then `b` are pushed, `Subtract` leaves the one word
/// `a - b`, taken modulo 2^32 and read as a signed number, on top of the
/// stack: the stack pointer is one above where the two pushes left it, which
/// is one below where it was before them.
pub proof fn law_subtract(s: State, a: u32, b: u32)
    requires
        s.wf(),
        s.sp >= 2,
    ensures
        ({
            let pushed = s.push(a).0.push(b).0;
            let (after, flow) = pushed.execute(Instruction::Subtract());
            &&& flow == Ok::<Flow, Fault>(Flow::Next)
            &&& after.sp == pushed.sp + 1
            &&& after.sp == s.sp - 1
            &&& signed(after.ram[after.sp]) == wrap_signed(signed(a) - signed(b))
            &&& after.ram[after.sp] == wrap(a - b)
        }),
{
}

/// A `Call` from an address in the memory followed by a `Return` that finds
/// the stack as the call left it goes on with the instruction after the call:
/// whatever happened in between, if the stack pointer is back where the call
/// put it and the word there is the one that the call pushed, the program
/// counter after the return is the address of the call plus one.
pub proof fn law_call_return(s: State, offset: i32, later: State, extra: u32)
    requires
        s.wf(),
        s.holds(s.pc),
        s.sp > 0,
        later.wf(),
        later.sp == s.call(offset as int).0.sp,
        later.ram[later.sp] == s.call(offset as int).0.ram[later.sp],
    ensures
        s.execute(Instruction::Call(offset)).1 == Ok::<Flow, Fault>(Flow::Jump),
        later.execute(Instruction::Return(extra)).1 == Ok::<Flow, Fault>(Flow::Jump),
        later.execute(Instruction::Return(extra)).0.pc == s.pc + 1,
{
}

/// A branch never changes the stack: the memory and the stack pointer are
/// after it what they were before, whether it is taken or not.
pub proof fn law_branch_keeps_stack(s: State, instruction: Instruction)
    requires
        instruction is BinaryIf || instruction is EqZero || instruction is NeZero
            || instruction is LtZero || instruction is GeZero,
    ensures
        s.execute(instruction).0.sp == s.sp,
        s.execute(instruction).0.ram == s.ram,
{
}

/// Words pushed on a stack that has room for them lie in memory in their
/// order, the first on top, and nothing else changes.
pub proof fn lemma_push_all_layout(s: State, words: Seq<u32>)
    requires
        s.wf(),
        words.len() <= s.sp,
    ensures
        ({
            let (after, r) = s.push_all(words);
            &&& r is Ok
            &&& after == (State { sp: after.sp, ram: after.ram, ..s })
            &&& after.sp == s.sp - words.len()
            &&& after.ram.len() == s.ram.len()
            &&& forall|k: int| 0 <= k < words.len() ==> after.ram[after.sp + k] == words[k]
            &&& forall|j: int|
                0 <= j < after.sp || s.sp <= j < MEMORY_WORDS ==> after.ram[j] == s.ram[j]
        }),
    decreases words.len(),
{
    if words.len() > 0 {
        let first = s.pushed(words.last());
        let rest = words.drop_last();
        lemma_push_all_layout(first, rest);
        let after = first.push_all(rest).0;
        assert forall|k: int| 0 <= k < words.len() implies after.ram[after.sp + k] == words[k] by {
            if k < rest.len() {
                assert(rest[k] == words[k]);
            }
        }
    }
}

/// The bytes of a word of a packed string are the three bytes of the text
/// that it was made of, as far as the text goes, if the text holds no
/// filling byte; and the word has the mark unless it is the last.
pub proof fn lemma_chunk_payload(text: Seq<u8>, k: int)
    requires
        0 <= k < chunk_count(text.len()),
        forall|i: int| 0 <= i < text.len() ==> text[i] != SENTINEL,
    ensures
        payload(chunk_word(text, k)) == text.subrange(
            3 * k,
            if 3 * k + 3 <= text.len() {
                3 * k + 3
            } else {
                text.len() as int
            },
        ),
        continues(chunk_word(text, k)) == (k + 1 < chunk_count(text.len())),
        text[3 * k] != 0 ==> chunk_word(text, k) != 0,
{
    let b0 = padded_byte(text, 3 * k);
    let b1 = padded_byte(text, 3 * k + 1);
    let b2 = padded_byte(text, 3 * k + 2);
    let mark: int = if k + 1 < chunk_count(text.len()) {
        CONTINUES as int
    } else {
        0
    };
    let w = chunk_word(text, k);
    assert(w == b0 + 0x100 * b1 + 0x1_0000 * b2 + mark);
    assert(byte_of(w, 1) == b0);
    assert(byte_of(w, 0x100) == b1);
    assert(byte_of(w, 0x1_0000) == b2);
    let end = if 3 * k + 3 <= text.len() {
        3 * k + 3
    } else {
        text.len() as int
    };
    assert(payload(w) =~= text.subrange(3 * k, end));
}

/// The string at the address of word `k` of a packed text that lies in
/// memory is the text from byte `3k` on.
proof fn lemma_string_at_chunk(ram: Seq<u32>, at: int, text: Seq<u8>, k: int)
    requires
        0 < at,
        at + chunk_count(text.len()) <= ram.len(),
        0 <= k < chunk_count(text.len()),
        forall|i: int| 0 <= i < text.len() ==> text[i] != SENTINEL && text[i] != 0,
        forall|j: int| 0 <= j < chunk_count(text.len()) ==> ram[at + j] == chunk_word(text, j),
    ensures
        string_at(ram, at + k) == Some(text.skip(3 * k)),
    decreases chunk_count(text.len()) - k,
{
    lemma_chunk_payload(text, k);
    assert(ram[at + k] == chunk_word(text, k));
    if k + 1 < chunk_count(text.len()) {
        lemma_string_at_chunk(ram, at, text, k + 1);
        assert(text.subrange(3 * k, 3 * k + 3) + text.skip(3 * (k + 1)) =~= text.skip(3 * k));
    } else {
        assert(text.subrange(3 * k, text.len() as int) =~= text.skip(3 * k));
    }
}

/// A line that was read as a string is printed as it was read: if the text
/// of the line is not empty, holds neither a null byte nor the filling byte 1
/// and leaves one slot of the stack free, then `Stinput` followed by
/// `Stprint` at offset 0 adds just this text to the output.
pub proof fn law_string_round_trip(s: State, limit: u32)
    requires
        s.wf(),
        ({
            let text = State::string_text(first_line(s.input), limit as int);
            &&& text.len() > 0
            &&& chunk_count(text.len()) < s.sp
            &&& forall|i: int| 0 <= i < text.len() ==> text[i] != SENTINEL && text[i] != 0
        }),
    ensures
        ({
            let text = State::string_text(first_line(s.input), limit as int);
            let (read, flow) = s.execute(Instruction::Stinput(limit));
            &&& flow == Ok::<Flow, Fault>(Flow::Next)
            &&& read.sp == s.sp - chunk_count(text.len())
            &&& read.output == s.output
            &&& read.execute(Instruction::Stprint(0)) == (
                read.printed(text),
                Ok::<Flow, Fault>(Flow::Next),
            )
        }),
{
    let text = State::string_text(first_line(s.input), limit as int);
    let before = State { input: after_line(s.input), ..s };
    let words = pack_spec(text);
    lemma_push_all_layout(before, words);
    let read = before.push_all(words).0;
    assert forall|j: int| 0 <= j < chunk_count(text.len()) implies read.ram[read.sp + j]
        == chunk_word(text, j) by {
        assert(words[j] == chunk_word(text, j));
    }
    lemma_string_at_chunk(read.ram, read.sp, text, 0);
    assert(text.skip(0) =~= text);
}

} // verus!
