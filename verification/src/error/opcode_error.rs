//! The error for a mnemonic that names no instruction.

use super::fault::{position_message, Fault};
use vstd::prelude::*;

verus! {

/// Created when an instruction string doesn't map to a valid opcode
#[derive(PartialEq, Eq, Debug)]
pub struct OpcodeError {
    /// The instruction string that generated the error
    bad_instr: String,
    /// The line number the instruction was found on
    line: u32,
    /// The column number the instruction was found on
    col: u32,
}

impl View for OpcodeError {
    type V = Fault;

    closed spec fn view(&self) -> Fault {
        Fault::Opcode { instr: self.bad_instr@, line: self.line, col: self.col }
    }
}

impl OpcodeError {
    /// Constructs a new `OpcodeError` instance
    pub fn new(new_instr: &str, new_line: u32, new_col: u32) -> (e: Self)
        ensures
            e@ == (Fault::Opcode { instr: new_instr@, line: new_line, col: new_col }),
    {
        OpcodeError { bad_instr: String::from_str(new_instr), line: new_line, col: new_col }
    }

    /// The message of the error, as it is shown to the user.
    pub fn message(&self) -> (msg: String)
        ensures
            msg@ == self@.message(),
    {
        let mut msg = position_message(self.line, self.col);
        msg.append("unknown instruction ");
        msg.append(self.bad_instr.as_str());
        msg
    }
}

} // verus!
