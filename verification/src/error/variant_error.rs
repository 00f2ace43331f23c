//! The error for a `Variant` read as the wrong type.

use vstd::prelude::*;

verus! {

/// Generated when a `Variant` is unwrapped wrongly
#[derive(PartialEq, Eq, Debug)]
pub struct VariantError {
    /// The type that was expected by the `as` method
    expected: String,
    /// The actual type of the variant
    actual: String,
}

/// What a `VariantError` says: the type asked for and the type found.
pub struct Mismatch {
    pub expected: Seq<char>,
    pub actual: Seq<char>,
}

impl Mismatch {
    /// The message of the error, as it is shown to the user.
    pub open spec fn message(self) -> Seq<char> {
        "Attempted to unwrap a "@ + self.actual + " variant as a "@ + self.expected
            + " variant."@
    }
}

impl View for VariantError {
    type V = Mismatch;

    closed spec fn view(&self) -> Mismatch {
        Mismatch { expected: self.expected@, actual: self.actual@ }
    }
}

impl VariantError {
    /// Constructs a new `VariantError` instance
    pub fn new(new_expected: &str, new_actual: &str) -> (e: Self)
        ensures
            e@ == (Mismatch { expected: new_expected@, actual: new_actual@ }),
    {
        VariantError {
            expected: String::from_str(new_expected),
            actual: String::from_str(new_actual),
        }
    }

    /// The message of the error, as it is shown to the user.
    pub fn message(&self) -> (msg: String)
        ensures
            msg@ == self@.message(),
    {
        let mut msg = String::from_str("Attempted to unwrap a ");
        msg.append(self.actual.as_str());
        msg.append(" variant as a ");
        msg.append(self.expected.as_str());
        msg.append(" variant.");
        msg
    }
}

} // verus!
