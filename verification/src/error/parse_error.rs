//! The error of the parser's single primitive.

use super::fault::{position_message, Fault};
use crate::lex::token_type::TokenType;
use vstd::prelude::*;

verus! {

/// Generated when a Chip-8 parser encounters an error
#[derive(Clone, Copy, PartialEq, Eq, Debug)]
pub struct ParseError {
    /// The expected token
    expected: TokenType,
    /// The actual token
    actual: TokenType,
    /// The line number of the bad symbol
    line: u32,
    /// The column number of the bad symbol
    col: u32,
}

impl View for ParseError {
    type V = Fault;

    closed spec fn view(&self) -> Fault {
        Fault::Parser {
            expected: self.expected,
            actual: self.actual,
            line: self.line,
            col: self.col,
        }
    }
}

impl ParseError {
    /// Constructs a new `ParseError` instance
    pub fn new(new_expected: &TokenType, new_actual: &TokenType, new_line: u32, new_col: u32) -> (e:
        Self)
        ensures
            e@ == (Fault::Parser {
                expected: *new_expected,
                actual: *new_actual,
                line: new_line,
                col: new_col,
            }),
    {
        ParseError { expected: *new_expected, actual: *new_actual, line: new_line, col: new_col }
    }

    /// The message of the error, as it is shown to the user.
    pub fn message(&self) -> (msg: String)
        ensures
            msg@ == self@.message(),
    {
        let mut msg = position_message(self.line, self.col);
        msg.append("Expected ");
        msg.append(self.expected.get_name());
        msg.append(", found ");
        msg.append(self.actual.get_name());
        msg
    }
}

} // verus!
