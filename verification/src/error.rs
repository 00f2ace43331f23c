//! The errors of the assembler, one type for each kind of failure.

pub mod addr_error;
pub mod arg_error;
pub mod asm_error;
pub mod encode_error;
pub mod fault;
pub mod lexer_error;
pub mod opcode_error;
pub mod parse_error;
pub mod skip_error;
pub mod variant_error;

pub use addr_error::AddrError;
pub use arg_error::ArgError;
pub use asm_error::AsmError;
pub use encode_error::EncodeError;
pub use fault::{EncodeErrorType, Fault};
pub use lexer_error::LexerError;
pub use opcode_error::OpcodeError;
pub use parse_error::ParseError;
pub use skip_error::SkipError;
pub use variant_error::{Mismatch, VariantError};
