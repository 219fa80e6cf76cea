//! A 16-bit belt-machine toolchain: an assembler from mnemonic text to a
//! compact instruction encoding, and a virtual machine that executes it.
//!
//! The belt machine has no named registers. Results are pushed onto a
//! fixed-capacity rotating "belt"; operands name belt slots by age, slot 0
//! being the most recently pushed value. Instructions occupy one 16-bit word,
//! some followed by a second word holding a constant or address.

pub mod ast;
pub mod belt;
pub mod codec;
pub mod lexer;
pub mod machine;
pub mod numlit;
pub mod parser;
pub mod riscv;
