//! The error for a refusal by the code generator.

use super::fault::{EncodeErrorType, Fault};
use vstd::prelude::*;

verus! {

/// Created when the code generator refuses a binary or a value
#[derive(PartialEq, Eq, Debug)]
pub struct EncodeError {
    /// Why it refused
    error_type: EncodeErrorType,
    /// The name of the binary
    binary_name: String,
}

impl View for EncodeError {
    type V = Fault;

    closed spec fn view(&self) -> Fault {
        Fault::Binary { reason: self.error_type, name: self.binary_name@ }
    }
}

impl EncodeError {
    /// Constructs a new `EncodeError` instance
    pub fn new(new_type: EncodeErrorType, new_name: &str) -> (e: Self)
        ensures
            e@ == (Fault::Binary { reason: new_type, name: new_name@ }),
    {
        EncodeError { error_type: new_type, binary_name: String::from_str(new_name) }
    }

    /// Gets the error type
    pub fn get_type(&self) -> (t: EncodeErrorType)
        ensures
            self@ matches Fault::Binary { reason, name } && reason == t,
    {
        self.error_type
    }

    /// The message of the error, as it is shown to the user.
    pub fn message(&self) -> (msg: String)
        ensures
            msg@ == self@.message(),
    {
        let mut msg = String::from_str("An error occurred creating the Chip-8 binary: ");
        msg.append(self.error_type.get_description());
        msg
    }
}

} // verus!
