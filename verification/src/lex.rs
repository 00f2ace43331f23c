//! Tokens and the two scanners that produce them.

pub mod address;
pub mod asm_lexer;
pub mod chars;
pub mod grammar;
pub mod prep_lexer;
pub mod token;
pub mod token_type;

pub use asm_lexer::AsmLexer;
pub use prep_lexer::PrepLexer;
pub use token::{Lexeme, Token};
pub use token_type::TokenType;
