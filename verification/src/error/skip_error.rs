//! The error for a skip condition that does not fit its operands.

use super::fault::{position_message, Fault};
use crate::codegen::instruction::SkipType;
use vstd::prelude::*;

verus! {

/// Generated when a `SKIP` instruction is given a bad condition
#[derive(Clone, Copy, PartialEq, Eq, Debug)]
pub struct SkipError {
    /// The `SkipType` that caused the error
    bad_type: SkipType,
    /// The line number that the error was found on
    line: u32,
    /// The column the error was found on
    col: u32,
}

impl View for SkipError {
    type V = Fault;

    closed spec fn view(&self) -> Fault {
        Fault::Skip { kind: self.bad_type, line: self.line, col: self.col }
    }
}

impl SkipError {
    /// Constructs a new `SkipError` instance
    pub fn new(new_type: SkipType, new_line: u32, new_col: u32) -> (e: Self)
        ensures
            e@ == (Fault::Skip { kind: new_type, line: new_line, col: new_col }),
    {
        SkipError { bad_type: new_type, line: new_line, col: new_col }
    }

    /// The message of the error, as it is shown to the user.
    pub fn message(&self) -> (msg: String)
        ensures
            msg@ == self@.message(),
    {
        let mut msg = position_message(self.line, self.col);
        msg.append("Bad skip type ");
        msg.append(self.bad_type.get_name());
        msg
    }
}

} // verus!
