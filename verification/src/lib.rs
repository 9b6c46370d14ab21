//! A bytecode interpreter for a small stack machine.
//!
//! A program is a sequence of 32-bit instruction words. It is loaded into a
//! memory of 1024 words that serves both as program store and as stack, and
//! is run until it halts or faults. The machine reads its input from a byte
//! buffer and collects its output in another, so every run is a function of
//! the program and the input bytes.
//!
//! `instruction` decodes words, `state` says what each instruction does to
//! the state of a machine, and `machine` is the machine that does it. `laws`
//! holds what follows for every state. The other modules are the parts that
//! these are made of: arithmetic on words, lines of text, numbers as text,
//! strings in memory, and program files.

pub mod word;
pub mod instruction;
pub mod text;
pub mod render;
pub mod packed;
pub mod alu;
pub mod state;
pub mod program;
pub mod machine;
pub mod laws;
