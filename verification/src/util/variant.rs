//! The payload of a token: a byte, a word or a string of text.

use crate::error::variant_error::{Mismatch, VariantError};
use vstd::prelude::*;
use vstd::std_specs::cmp::PartialEqSpecImpl;

verus! {

/// Contains a single variable of various types
#[derive(Debug)]
pub enum Variant {
    /// A single byte
    Byte(u8),
    /// A two-byte word
    Word(u16),
    /// A string of text
    Text(String),
}

/// What a `Variant` holds, with text as a sequence of characters.
pub enum Payload {
    Byte(u8),
    Word(u16),
    Text(Seq<char>),
}

impl View for Variant {
    type V = Payload;

    open spec fn view(&self) -> Payload {
        match self {
            Variant::Byte(b) => Payload::Byte(*b),
            Variant::Word(w) => Payload::Word(*w),
            Variant::Text(t) => Payload::Text(t@),
        }
    }
}

impl Payload {
    /// The name of the type held, as the errors give it.
    pub open spec fn kind_name(self) -> Seq<char> {
        match self {
            Payload::Byte(_) => "byte"@,
            Payload::Word(_) => "word"@,
            Payload::Text(_) => "text"@,
        }
    }

    /// The text held; empty for a byte or a word.
    pub open spec fn text(self) -> Seq<char> {
        match self {
            Payload::Text(t) => t,
            _ => Seq::empty(),
        }
    }

    /// The number held, a byte widened to a word; 0 for text.
    pub open spec fn number(self) -> u16 {
        match self {
            Payload::Byte(b) => b as u16,
            Payload::Word(w) => w,
            Payload::Text(_) => 0,
        }
    }
}

impl Clone for Variant {
    fn clone(&self) -> (res: Self)
        ensures
            res@ == self@,
    {
        match self {
            Variant::Byte(b) => Variant::Byte(*b),
            Variant::Word(w) => Variant::Word(*w),
            Variant::Text(t) => Variant::Text(t.clone()),
        }
    }
}

impl Variant {
    /// The name of the type held, as the errors give it.
    fn kind_name(&self) -> (name: &str)
        ensures
            name@ == self@.kind_name(),
    {
        match self {
            Variant::Byte(_) => "byte",
            Variant::Word(_) => "word",
            Variant::Text(_) => "text",
        }
    }

    /// Extracts the byte value of the `Variant`
    ///
    /// Fails, naming both types, unless the `Variant` holds a byte.
    pub fn as_byte(&self) -> (res: Result<u8, VariantError>)
        ensures
            match self@ {
                Payload::Byte(b) => res == Ok::<u8, VariantError>(b),
                _ => res matches Err(e) && e@ == (Mismatch {
                    expected: "byte"@,
                    actual: self@.kind_name(),
                }),
            },
    {
        match self {
            Variant::Byte(b) => Ok(*b),
            _ => Err(VariantError::new("byte", self.kind_name())),
        }
    }

    /// Extracts the word value of the `Variant`
    ///
    /// Fails, naming both types, unless the `Variant` holds a word.
    pub fn as_word(&self) -> (res: Result<u16, VariantError>)
        ensures
            match self@ {
                Payload::Word(w) => res == Ok::<u16, VariantError>(w),
                _ => res matches Err(e) && e@ == (Mismatch {
                    expected: "word"@,
                    actual: self@.kind_name(),
                }),
            },
    {
        match self {
            Variant::Word(w) => Ok(*w),
            _ => Err(VariantError::new("word", self.kind_name())),
        }
    }

    /// Extracts the text value of the `Variant`
    ///
    /// Fails, naming both types, unless the `Variant` holds text.
    pub fn as_text(&self) -> (res: Result<String, VariantError>)
        ensures
            match self@ {
                Payload::Text(t) => res matches Ok(s) && s@ == t,
                _ => res matches Err(e) && e@ == (Mismatch {
                    expected: "text"@,
                    actual: self@.kind_name(),
                }),
            },
    {
        match self {
            Variant::Text(t) => Ok(t.clone()),
            _ => Err(VariantError::new("text", self.kind_name())),
        }
    }
}

impl PartialEqSpecImpl for Variant {
    open spec fn obeys_eq_spec() -> bool {
        true
    }

    /// Two variants are equal when they hold the same type and the same
    /// value of it.
    open spec fn eq_spec(&self, other: &Variant) -> bool {
        self@ == other@
    }
}

impl PartialEq for Variant {
    fn eq(&self, rhs: &Self) -> (res: bool) {
        match self {
            Variant::Byte(b1) => match rhs {
                Variant::Byte(b2) => *b1 == *b2,
                _ => false,
            },
            Variant::Word(w1) => match rhs {
                Variant::Word(w2) => *w1 == *w2,
                _ => false,
            },
            Variant::Text(t1) => match rhs {
                Variant::Text(t2) => *t1 == *t2,
                _ => false,
            },
        }
    }
}

} // verus!
