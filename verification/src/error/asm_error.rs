//! The union of everything that stops an assembly.

use super::addr_error::AddrError;
use super::arg_error::ArgError;
use super::encode_error::EncodeError;
use super::fault::Fault;
use super::lexer_error::LexerError;
use super::opcode_error::OpcodeError;
use super::parse_error::ParseError;
use super::skip_error::SkipError;
use vstd::prelude::*;

verus! {

/// An error generated when assembling a Chip-8 binary
#[derive(PartialEq, Eq, Debug)]
pub enum AsmError {
    /// A lexer error
    Lexer(LexerError),
    /// A parser error
    Parser(ParseError),
    /// An opcode generation error
    Opcode(OpcodeError),
    /// A register that an instruction does not take
    Argument(ArgError),
    /// A skip condition that does not fit its operands
    Skip(SkipError),
    /// A label without an address
    Address(AddrError),
    /// A refusal by the code generator
    Binary(EncodeError),
}

impl View for AsmError {
    type V = Fault;

    open spec fn view(&self) -> Fault {
        match self {
            AsmError::Lexer(e) => e@,
            AsmError::Parser(e) => e@,
            AsmError::Opcode(e) => e@,
            AsmError::Argument(e) => e@,
            AsmError::Skip(e) => e@,
            AsmError::Address(e) => e@,
            AsmError::Binary(e) => e@,
        }
    }
}

impl AsmError {
    /// The message of the error, as it is shown to the user: the
    /// message of the error that it holds.
    pub fn message(&self) -> (msg: String)
        ensures
            msg@ == self@.message(),
    {
        match self {
            AsmError::Lexer(e) => e.message(),
            AsmError::Parser(e) => e.message(),
            AsmError::Opcode(e) => e.message(),
            AsmError::Argument(e) => e.message(),
            AsmError::Skip(e) => e.message(),
            AsmError::Address(e) => e.message(),
            AsmError::Binary(e) => e.message(),
        }
    }
}

} // verus!
