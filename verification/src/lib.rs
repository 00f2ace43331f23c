//! A two-pass assembler for the Chip-8 virtual machine.
//!
//! The first pass walks the source once and records the address of every
//! label definition. The second pass lexes the source again, parses it
//! with one token of lookahead, and hands each instruction or data item
//! to the `ch8_isa` code generator.
//!
//! * `lex` holds the tokens, the lexical grammar and the two lexers.
//! * `codegen` holds the address table, the two passes, the grammar of
//!   instructions and the bridge to the code generator.
//! * `error` holds one type for each kind of failure.
//! * `util` holds constants and small value types.

pub mod codegen;
pub mod error;
pub mod lex;
pub mod util;
