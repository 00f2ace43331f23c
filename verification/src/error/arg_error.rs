//! The error for a register that an instruction does not take.

use super::fault::{position_message, Fault};
use crate::codegen::instruction::Reg;
use vstd::prelude::*;

verus! {

/// Generated when an instruction is given bad arguments
#[derive(PartialEq, Eq, Debug)]
pub struct ArgError {
    /// The bad argument
    bad_arg: Reg,
    /// The instruction that had the bad argument
    instr: String,
    /// The line number of the bad argument
    line: u32,
    /// The column number of the bad argument
    col: u32,
}

impl View for ArgError {
    type V = Fault;

    closed spec fn view(&self) -> Fault {
        Fault::Argument { arg: self.bad_arg, instr: self.instr@, line: self.line, col: self.col }
    }
}

impl ArgError {
    /// Constructs a new `ArgError` instance
    pub fn new(new_arg: &Reg, new_instr: &str, new_line: u32, new_col: u32) -> (e: Self)
        ensures
            e@ == (Fault::Argument {
                arg: *new_arg,
                instr: new_instr@,
                line: new_line,
                col: new_col,
            }),
    {
        ArgError {
            bad_arg: *new_arg,
            instr: String::from_str(new_instr),
            line: new_line,
            col: new_col,
        }
    }

    /// The message of the error, as it is shown to the user.
    pub fn message(&self) -> (msg: String)
        ensures
            msg@ == self@.message(),
    {
        let mut msg = position_message(self.line, self.col);
        msg.append("bad argument ");
        msg.append(self.bad_arg.get_name());
        msg.append(" for ");
        msg.append(self.instr.as_str());
        msg.append(" instruction");
        msg
    }
}

} // verus!
