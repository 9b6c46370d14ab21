//! Strings in memory: three bytes to a word.
//!
//! A word holds three bytes of a string in its low 24 bits, the first byte
//! lowest. Bit 24 says that the string goes on in the next word. A string
//! whose length is no multiple of three is filled up with the byte 1, which
//! is never printed.

use vstd::prelude::*;

verus! {

/// The byte that fills up the last word of a string.
pub const SENTINEL: u8 = 1;

/// The bit that marks a word after which the string goes on.
pub const CONTINUES: u32 = 0x0100_0000;

/// The number of words that hold a string of the given length.
pub open spec fn chunk_count(len: nat) -> nat {
    (len + 2) / 3
}

/// The byte at a place of a string, or the filling byte after its end.
pub open spec fn padded_byte(text: Seq<u8>, i: int) -> u8 {
    if 0 <= i < text.len() {
        text[i]
    } else {
        SENTINEL
    }
}

/// The `k`-th word of a string: its bytes `3k`, `3k + 1` and `3k + 2`, the
/// first lowest, and the mark unless it is the last word.
pub open spec fn chunk_word(text: Seq<u8>, k: int) -> u32 {
    (padded_byte(text, 3 * k) + 0x100 * padded_byte(text, 3 * k + 1) + 0x1_0000 * padded_byte(
        text,
        3 * k + 2,
    ) + if k + 1 < chunk_count(text.len()) {
        CONTINUES as int
    } else {
        0
    }) as u32
}

/// The words that hold a string, in the order of their addresses.
pub open spec fn pack_spec(text: Seq<u8>) -> Seq<u32> {
    Seq::new(chunk_count(text.len()), |k: int| chunk_word(text, k))
}

/// The low byte of a word at the given weight.
pub open spec fn byte_of(word: u32, weight: int) -> u8 {
    ((word as int / weight) % 0x100) as u8
}

/// A byte as printed: nothing for the filling byte, itself otherwise.
pub open spec fn shown(b: u8) -> Seq<u8> {
    if b == SENTINEL {
        Seq::empty()
    } else {
        seq![b]
    }
}

/// The bytes of a string that a word holds, without filling bytes.
pub open spec fn payload(word: u32) -> Seq<u8> {
    shown(byte_of(word, 1)) + shown(byte_of(word, 0x100)) + shown(byte_of(word, 0x1_0000))
}

/// Whether the string goes on after a word: bit 24.
pub open spec fn continues(word: u32) -> bool {
    (word as int / 0x100_0000) % 2 == 1
}

/// The string that starts at an address of a memory. It ends before a word
/// that is zero, after a word without the mark, and after the word at
/// address 0. `None` stands for a string that leaves the memory.
pub open spec fn string_at(ram: Seq<u32>, at: int) -> Option<Seq<u8>>
    decreases ram.len() - at,
{
    if !(0 <= at < ram.len()) {
        None
    } else if ram[at] == 0 {
        Some(Seq::empty())
    } else if !continues(ram[at]) || at == 0 {
        Some(payload(ram[at]))
    } else {
        match string_at(ram, at + 1) {
            Some(rest) => Some(payload(ram[at]) + rest),
            None => None,
        }
    }
}

/// Packs a string into words, in the order of their addresses.
pub fn pack(text: &[u8]) -> (words: Vec<u32>)
    ensures
        words@ == pack_spec(text@),
{
    let len = text.len();
    let count: usize = len / 3 + if len % 3 != 0 {
        1
    } else {
        0
    };
    let mut words: Vec<u32> = Vec::new();
    let mut k: usize = 0;
    while k < count
        invariant
            len == text.len(),
            count == chunk_count(len as nat),
            k <= count,
            words@.len() == k,
            forall|j: int| 0 <= j < k ==> words@[j] == chunk_word(text@, j),
        decreases count - k,
    {
        let at = 3 * k;
        let b0: u8 = text[at];
        let b1: u8 = if len - at > 1 {
            text[at + 1]
        } else {
            SENTINEL
        };
        let b2: u8 = if len - at > 2 {
            text[at + 2]
        } else {
            SENTINEL
        };
        let mark: u32 = if count - k > 1 {
            CONTINUES
        } else {
            0
        };
        let word: u32 = (b2 as u32) << 16 | (b1 as u32) << 8 | (b0 as u32) | mark;
        assert(word == b0 + 0x100 * b1 + 0x1_0000 * b2 + mark) by (bit_vector)
            requires
                word == (b2 as u32) << 16 | (b1 as u32) << 8 | (b0 as u32) | mark,
                mark == 0x0100_0000 || mark == 0,
        ;
        words.push(word);
        k += 1;
    }
    assert(words@ =~= pack_spec(text@));
    words
}

/// Appends to `out` the bytes of a string that a word holds.
fn push_payload(out: &mut Vec<u8>, word: u32)
    ensures
        final(out)@ == old(out)@ + payload(word),
{
    let b0: u8 = (word & 0xFF) as u8;
    let b1: u8 = ((word >> 8) & 0xFF) as u8;
    let b2: u8 = ((word >> 16) & 0xFF) as u8;
    assert(b0 == word % 0x100 && b1 == (word / 0x100) % 0x100 && b2 == (word / 0x1_0000) % 0x100)
        by (bit_vector)
        requires
            b0 == (word & 0xFF) as u8,
            b1 == ((word >> 8) & 0xFF) as u8,
            b2 == ((word >> 16) & 0xFF) as u8,
    ;
    if b0 != SENTINEL {
        out.push(b0);
    }
    if b1 != SENTINEL {
        out.push(b1);
    }
    if b2 != SENTINEL {
        out.push(b2);
    }
    assert(final(out)@ =~= old(out)@ + payload(word));
}

/// Reads the string that starts at an address of a memory. `None` stands
/// for a string that leaves the memory.
pub fn unpack(ram: &[u32], at: usize) -> (text: Option<Vec<u8>>)
    ensures
        text is Some <==> string_at(ram@, at as int) is Some,
        text is Some ==> Some(text.unwrap()@) == string_at(ram@, at as int),
{
    let mut text: Vec<u8> = Vec::new();
    let mut i: usize = at;
    loop
        invariant
            at <= i,
            string_at(ram@, at as int) == match string_at(ram@, i as int) {
                Some(rest) => Some(text@ + rest),
                None => None,
            },
        decreases ram.len() - i,
    {
        if i >= ram.len() {
            return None;
        }
        let word = ram[i];
        if word == 0 {
            assert(text@ + Seq::<u8>::empty() =~= text@);
            return Some(text);
        }
        let ghost before = text@;
        push_payload(&mut text, word);
        let marked = (word >> 24) & 1 == 1;
        assert(marked == ((word / 0x100_0000) % 2 == 1)) by (bit_vector)
            requires
                marked == ((word >> 24) & 1 == 1),
        ;
        if !marked || i == 0 {
            return Some(text);
        }
        proof {
            match string_at(ram@, i + 1) {
                Some(rest) => {
                    assert(before + (payload(word) + rest) =~= (before + payload(word)) + rest);
                },
                None => {},
            }
        }
        i += 1;
    }
}

} // verus!
