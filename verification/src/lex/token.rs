//! A token: a type and a payload.

use super::token_type::TokenType;
use crate::util::variant::{Payload, Variant};
use vstd::prelude::*;
use vstd::std_specs::cmp::PartialEqSpecImpl;

verus! {

/// A program token
#[derive(Debug)]
pub struct Token {
    /// The type of the `Token`
    ttype: TokenType,
    /// The value of the `Token`
    value: Variant,
}

/// What a `Token` holds: its type and the view of its payload.
pub struct Lexeme {
    pub kind: TokenType,
    pub value: Payload,
}

impl View for Token {
    type V = Lexeme;

    closed spec fn view(&self) -> Lexeme {
        Lexeme { kind: self.ttype, value: self.value@ }
    }
}

impl Clone for Token {
    fn clone(&self) -> (res: Self)
        ensures
            res@ == self@,
    {
        Token { ttype: self.ttype, value: self.value.clone() }
    }
}

impl Token {
    /// Constructs a new `Token` instance
    pub fn new(new_type: TokenType, new_value: Variant) -> (tok: Self)
        ensures
            tok@ == (Lexeme { kind: new_type, value: new_value@ }),
    {
        Token { ttype: new_type, value: new_value }
    }

    /// Gets the type of the `Token`
    pub fn get_type(&self) -> (kind: TokenType)
        ensures
            kind == self@.kind,
    {
        self.ttype
    }

    /// Gets the value of the `Token`
    pub fn get_value(&self) -> (value: Variant)
        ensures
            value@ == self@.value,
    {
        self.value.clone()
    }
}

impl PartialEqSpecImpl for Token {
    open spec fn obeys_eq_spec() -> bool {
        true
    }

    /// Two tokens are equal when their types and their payloads are.
    open spec fn eq_spec(&self, other: &Token) -> bool {
        self@ == other@
    }
}

impl PartialEq for Token {
    fn eq(&self, rhs: &Self) -> (res: bool) {
        (self.ttype == rhs.ttype) && (self.value == rhs.value)
    }
}

} // verus!
