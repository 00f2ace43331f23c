//! What an error says, as a mathematical value.

use crate::codegen::instruction::{Reg, SkipType};
use crate::lex::token_type::TokenType;
use crate::util::text::{decimal_digits, push_decimal};
use vstd::prelude::*;

verus! {

/// Why the code generator refused a binary or a value.
#[derive(Clone, Copy, PartialEq, Eq, Structural, Debug)]
pub enum EncodeErrorType {
    /// The desired filename exists already
    FileExists,
    /// Error writing data to the binary
    DataError,
    /// Error writing the binary to a file
    FileError,
}

impl EncodeErrorType {
    /// What the error says of the reason.
    pub open spec fn description(self) -> Seq<char> {
        match self {
            EncodeErrorType::FileExists => "A binary already exists with the given name"@,
            EncodeErrorType::DataError => "Error writing data into binary"@,
            EncodeErrorType::FileError => "Error writing binary to disk"@,
        }
    }

    /// Gets what the error says of the reason
    pub fn get_description(&self) -> (text: &str)
        ensures
            text@ == self.description(),
    {
        match *self {
            EncodeErrorType::FileExists => "A binary already exists with the given name",
            EncodeErrorType::DataError => "Error writing data into binary",
            EncodeErrorType::FileError => "Error writing binary to disk",
        }
    }
}

/// How a message gives a position: the line and the column in
/// parentheses, a colon between them and a colon after.
pub open spec fn position_text(line: u32, col: u32) -> Seq<char> {
    "("@ + decimal_digits(line as nat) + ":"@ + decimal_digits(col as nat) + "): "@
}

/// A new message that starts with the position.
pub fn position_message(line: u32, col: u32) -> (msg: String)
    ensures
        msg@ == position_text(line, col),
{
    let mut msg = String::from_str("(");
    push_decimal(&mut msg, line);
    msg.append(":");
    push_decimal(&mut msg, col);
    msg.append("): ");
    msg
}

/// The content of an error: its kind, the source position it was raised
/// at, and what it complains about. Every error type of this crate has
/// a `Fault` as its view.
pub enum Fault {
    /// An unknown character `chr` at a position
    Lexer { line: u32, col: u32, chr: char },
    /// A token of type `actual` where the grammar asks for `expected`
    Parser { expected: TokenType, actual: TokenType, line: u32, col: u32 },
    /// A mnemonic that names no instruction
    Opcode { instr: Seq<char>, line: u32, col: u32 },
    /// A register that the named instruction does not take
    Argument { arg: Reg, instr: Seq<char>, line: u32, col: u32 },
    /// A skip condition that does not fit the operands
    Skip { kind: SkipType, line: u32, col: u32 },
    /// A label without an address
    Address { label: Seq<char> },
    /// A refusal by the code generator, for the binary of the given name
    Binary { reason: EncodeErrorType, name: Seq<char> },
}

impl Fault {
    /// The message of the error, as it is shown to the user.
    pub open spec fn message(self) -> Seq<char> {
        match self {
            Fault::Lexer { line, col, chr } => position_text(line, col) + "unknown character "@
                + seq![chr],
            Fault::Parser { expected, actual, line, col } => position_text(line, col) + "Expected "@
                + expected.name() + ", found "@ + actual.name(),
            Fault::Opcode { instr, line, col } => position_text(line, col)
                + "unknown instruction "@ + instr,
            Fault::Argument { arg, instr, line, col } => position_text(line, col)
                + "bad argument "@ + arg.name() + " for "@ + instr + " instruction"@,
            Fault::Skip { kind, line, col } => position_text(line, col) + "Bad skip type "@
                + kind.name(),
            Fault::Address { label } => "Could not get the address of the label "@ + label,
            Fault::Binary { reason, name } => "An error occurred creating the Chip-8 binary: "@
                + reason.description(),
        }
    }
}

} // verus!
