//! Program files: a magic word, then the words of the program, each word
//! four bytes with the lowest first.

use vstd::prelude::*;
use crate::state::MEMORY_WORDS;

verus! {

/// The word that a program file begins with.
pub const MAGIC: u32 = 0xDEAD_BEEF;

/// The error of a load: the bytes or words are no program, or too long a
/// one.
#[derive(Clone, Copy, Debug, PartialEq, Eq, Structural)]
pub struct BadProgram;

/// Whether a sequence of words is a program that fits the memory: the magic
/// word, then at most 1024 words.
pub open spec fn is_program(words: Seq<u32>) -> bool {
    words.len() >= 1 && words[0] == MAGIC && words.len() - 1 <= MEMORY_WORDS
}

/// The word that four bytes make, the lowest first.
pub open spec fn word_of(b0: u8, b1: u8, b2: u8, b3: u8) -> u32 {
    (b0 + 0x100 * b1 + 0x1_0000 * b2 + 0x100_0000 * b3) as u32
}

/// The words that a file of whole words holds.
pub open spec fn words_spec(bytes: Seq<u8>) -> Seq<u32> {
    Seq::new(
        bytes.len() / 4,
        |i: int| word_of(bytes[4 * i], bytes[4 * i + 1], bytes[4 * i + 2], bytes[4 * i + 3]),
    )
}

/// Groups the bytes of a file into words. A file whose length is no multiple
/// of four is no program.
pub fn words_from_bytes(bytes: &[u8]) -> (r: Result<Vec<u32>, BadProgram>)
    ensures
        r is Ok <==> bytes@.len() % 4 == 0,
        r is Ok ==> r.unwrap()@ == words_spec(bytes@),
{
    if bytes.len() % 4 != 0 {
        return Err(BadProgram);
    }
    let count = bytes.len() / 4;
    let mut words: Vec<u32> = Vec::new();
    let mut i: usize = 0;
    while i < count
        invariant
            i <= count,
            count == bytes@.len() / 4,
            bytes@.len() % 4 == 0,
            bytes@.len() <= usize::MAX,
            words@.len() == i,
            forall|k: int| 0 <= k < i ==> words@[k] == words_spec(bytes@)[k],
        decreases count - i,
    {
        let b0 = bytes[4 * i];
        let b1 = bytes[4 * i + 1];
        let b2 = bytes[4 * i + 2];
        let b3 = bytes[4 * i + 3];
        let word: u32 = (b3 as u32) << 24 | (b2 as u32) << 16 | (b1 as u32) << 8 | (b0 as u32);
        assert(word == b0 + 0x100 * b1 + 0x1_0000 * b2 + 0x100_0000 * b3) by (bit_vector)
            requires
                word == (b3 as u32) << 24 | (b2 as u32) << 16 | (b1 as u32) << 8 | (b0 as u32),
        ;
        words.push(word);
        i += 1;
    }
    assert(words@ =~= words_spec(bytes@));
    Ok(words)
}

} // verus!
