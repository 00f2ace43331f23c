//! The error of the lexers.

use super::fault::{position_message, Fault};
use vstd::prelude::*;

verus! {

/// Created when a `Lexer` encounters an error
#[derive(Clone, Copy, PartialEq, Eq, Debug)]
pub struct LexerError {
    /// The line of source code that the error was triggered on
    line: u32,
    /// The column of source code that the error was triggered on
    col: u32,
    /// The character that triggered the error
    chr: char,
}

impl View for LexerError {
    type V = Fault;

    closed spec fn view(&self) -> Fault {
        Fault::Lexer { line: self.line, col: self.col, chr: self.chr }
    }
}

impl LexerError {
    /// Constructs a new `LexerError` instance
    pub fn new(bad_line: u32, bad_col: u32, bad_char: char) -> (e: Self)
        ensures
            e@ == (Fault::Lexer { line: bad_line, col: bad_col, chr: bad_char }),
    {
        LexerError { line: bad_line, col: bad_col, chr: bad_char }
    }

    /// The message of the error, as it is shown to the user.
    pub fn message(&self) -> (msg: String)
        ensures
            msg@ == self@.message(),
    {
        let mut msg = position_message(self.line, self.col);
        msg.append("unknown character ");
        msg.push(self.chr);
        proof {
            assert(msg@ =~= self@.message());
        }
        msg
    }
}

} // verus!
