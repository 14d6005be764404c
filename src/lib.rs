//! An interpreter core for the CHIP-8 virtual machine: instruction decoding,
//! the opcode semantics, the call stack and the two countdown timers.
//!
//! `model` states what each instruction does, over sequences and integers;
//! `machine` implements it and is proved against that statement; `laws`
//! proves properties of whole steps and runs of steps.
//!
//! Where the instruction set leaves the edges open, this interpreter never
//! panics and does the following:
//! - memory is addressed modulo 4096, so only the low twelve bits of `pc + k`
//!   or `I + k` are used;
//! - `pc` and `I` are sixteen-bit counters that wrap;
//! - sprites are clipped at the right and bottom edges, never wrapped;
//! - the key skips treat a key number above 0xF as not held.

pub mod error;
pub mod laws;
pub mod machine;
pub mod model;
pub mod opcode;
pub mod stack;
