//! The kinds of token that the lexers produce.

use vstd::prelude::*;

verus! {

/// The type of a program `Token`
#[derive(Clone, Copy, PartialEq, Eq, Structural, Debug)]
pub enum TokenType {
    /// An assembly instruction
    Instruction,
    /// An address label
    Label,
    /// A label definition
    LblDef,
    /// A register reference
    Register,
    /// A decimal integer literal
    DecLit,
    /// A hex integer literal
    HexLit,
    /// A binary byte literal
    BinLit,
    /// A skip condition
    SkipCond,
    /// A comma character
    Comma,
    /// A period character
    Period,
    /// End of source input
    EndOfInput,
}

impl TokenType {
    /// The name under which diagnostics mention the type.
    pub open spec fn name(self) -> Seq<char> {
        match self {
            TokenType::Instruction => "instruction"@,
            TokenType::Label => "label"@,
            TokenType::LblDef => "label definition"@,
            TokenType::Register => "register"@,
            TokenType::DecLit => "decimal literal"@,
            TokenType::HexLit => "hex literal"@,
            TokenType::BinLit => "binary literal"@,
            TokenType::SkipCond => "skip condition"@,
            TokenType::Comma => "comma"@,
            TokenType::Period => "period"@,
            TokenType::EndOfInput => "EOF"@,
        }
    }

    /// Whether the type is one of the three literal types.
    #[verifier::allow_in_spec]
    pub fn is_literal(self) -> bool
        returns
            self == TokenType::DecLit || self == TokenType::HexLit || self == TokenType::BinLit,
    {
        self == TokenType::DecLit || self == TokenType::HexLit || self == TokenType::BinLit
    }

    /// Gets the name of the type
    pub fn get_name(&self) -> (name: &str)
        ensures
            name@ == self.name(),
    {
        match *self {
            TokenType::Instruction => "instruction",
            TokenType::Label => "label",
            TokenType::LblDef => "label definition",
            TokenType::Register => "register",
            TokenType::DecLit => "decimal literal",
            TokenType::HexLit => "hex literal",
            TokenType::BinLit => "binary literal",
            TokenType::SkipCond => "skip condition",
            TokenType::Comma => "comma",
            TokenType::Period => "period",
            TokenType::EndOfInput => "EOF",
        }
    }
}

} // verus!
