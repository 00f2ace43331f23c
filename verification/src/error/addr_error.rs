//! The error for a label without an address.

use super::fault::Fault;
use vstd::prelude::*;

verus! {

/// Created when a label does not have a defined address
#[derive(PartialEq, Eq, Debug)]
pub struct AddrError {
    /// The label that an address was not defined for
    label: String,
}

impl View for AddrError {
    type V = Fault;

    closed spec fn view(&self) -> Fault {
        Fault::Address { label: self.label@ }
    }
}

impl AddrError {
    /// Constructs a new `AddrError` instance
    pub fn new(bad_label: &str) -> (e: Self)
        ensures
            e@ == (Fault::Address { label: bad_label@ }),
    {
        AddrError { label: String::from_str(bad_label) }
    }

    /// The message of the error, as it is shown to the user.
    pub fn message(&self) -> (msg: String)
        ensures
            msg@ == self@.message(),
    {
        let mut msg = String::from_str("Could not get the address of the label ");
        msg.append(self.label.as_str());
        msg
    }
}

} // verus!
