//! The lexer of the first pass: it reports the labels of the source
//! and keeps the address at which each one stands.

use super::address::{
    ceil_log2, decimal_nibbles, is_whole_word, label_lexeme, nibbles, survey, tally_after, Tally,
};
use super::asm_lexer::AsmLexer;
use super::grammar::{
    char_at, clamp, column_at, lemma_scan_bounds, lemma_scan_from_start, lexer_fault, line_at,
    text_lexeme, Scan,
};
use super::token::Token;
use super::token_type::TokenType;
use crate::error::lexer_error::LexerError;
use crate::util::constants::MEM_START;
use crate::util::text::is_word;
use crate::util::variant::Variant;
use vstd::arithmetic::div_mod::lemma_add_mod_noop;
use vstd::prelude::*;

verus! {

/// A preprocessor lexer
pub struct PrepLexer {
    /// Reads the tokens of the text
    lexer: AsmLexer,
    /// The current address being used to create labels
    addr: u16,
    /// Whether a nibble has been counted that does not yet fill a byte
    pending: bool,
}

impl PrepLexer {
    /// The text being lexed.
    pub closed spec fn text(&self) -> Seq<char> {
        self.lexer.text()
    }

    /// The current position in the text.
    pub closed spec fn offset(&self) -> int {
        self.lexer.offset()
    }

    /// The address bookkeeping as it stands.
    pub closed spec fn tally(&self) -> Tally {
        Tally { addr: self.addr, pending: self.pending }
    }

    /// Constructs a new `PrepLexer` instance
    ///
    /// The lexer stands at the start of the text, which may be empty,
    /// and at the start of program memory.
    pub fn new(new_text: &str) -> (lexer: Self)
        ensures
            lexer.text() == new_text@,
            lexer.offset() == 0,
            lexer.tally() == (Tally { addr: MEM_START, pending: false }),
    {
        PrepLexer { lexer: AsmLexer::new(new_text), addr: MEM_START, pending: false }
    }

    /// The index of the next character to read.
    pub fn position(&self) -> (pos: usize)
        ensures
            pos == self.offset(),
            pos <= self.text().len(),
    {
        self.lexer.position()
    }

    /// Gets the current address being processed
    pub fn get_address(&self) -> (addr: u16)
        ensures
            addr == self.tally().addr,
    {
        self.addr
    }

    /// Gets the current line being processed
    pub fn get_line(&self) -> (line: u32)
        ensures
            line == clamp(line_at(self.text(), self.offset())),
    {
        self.lexer.get_line()
    }

    /// Gets the current column being processed
    pub fn get_column(&self) -> (col: u32)
        ensures
            col == clamp(column_at(self.text(), self.offset())),
    {
        self.lexer.get_column()
    }

    /// Updates the address field
    ///
    /// Counts `count` more nibbles.
    fn update_addr(&mut self, count: usize)
        requires
            count < usize::MAX,
        ensures
            final(self).text() == old(self).text(),
            final(self).offset() == old(self).offset(),
            final(self).tally() == tally_after(old(self).tally(), count as nat),
    {
        let total: usize = if self.pending {
            count + 1
        } else {
            count
        };
        if total >= 2 {
            let step: usize = (total / 2) % 0x10000;
            let sum: usize = (self.addr as usize + step) % 0x10000;
            proof {
                lemma_add_mod_noop(self.addr as int, (total / 2) as int, 0x10000);
            }
            self.addr = sum as u16;
            self.pending = false;
        } else {
            self.pending = total == 1;
        }
    }

    /// The nibbles that a decimal literal of the given value counts for.
    fn consume_dec_lit(value: u16) -> (count: usize)
        ensures
            count == decimal_nibbles(value as nat),
            count <= 4,
    {
        proof {
            lemma_ceil_log2_steps();
            lemma_ceil_log2_monotonic(value as nat, 1);
            lemma_ceil_log2_monotonic(2, value as nat);
            lemma_ceil_log2_monotonic(value as nat, 16);
            lemma_ceil_log2_monotonic(17, value as nat);
            lemma_ceil_log2_monotonic(value as nat, 256);
            lemma_ceil_log2_monotonic(257, value as nat);
            lemma_ceil_log2_monotonic(value as nat, 4096);
            lemma_ceil_log2_monotonic(4097, value as nat);
            lemma_ceil_log2_monotonic(value as nat, 65536);
        }
        if value <= 1 {
            0
        } else if value <= 16 {
            1
        } else if value <= 256 {
            2
        } else if value <= 4096 {
            3
        } else {
            4
        }
    }

    /// The nibbles that a mnemonic or a skip condition counts for, which
    /// starts at index `start` of the text.
    fn consume_instr(&self, tok: &Token, start: usize) -> (count: usize)
        ensures
            count == if char_at(self.text(), start - 1) == '.' {
                0nat
            } else if is_whole_word(tok@.value.text()) {
                4nat
            } else {
                2nat
            },
    {
        proof {
            reveal_strlit("CLS");
            reveal_strlit("RET");
            assert("CLS"@.len() == 3 && "RET"@.len() == 3);
        }
        if start > 0 && self.lexer.char_at(start - 1) == '.' {
            0
        } else {
            match tok.get_value() {
                Variant::Text(word) => {
                    if is_word(&word, "CLS") || is_word(&word, "RET") {
                        4
                    } else {
                        2
                    }
                },
                _ => 2,
            }
        }
    }

    /// The nibbles that the token counts for which the lexer has just
    /// read from index `start` on.
    fn consume(&self, tok: &Token, start: usize) -> (count: usize)
        requires
            0 <= start <= self.offset() <= self.text().len(),
            start < self.offset(),
        ensures
            count == nibbles(
                self.text(),
                Scan { token: Some(tok@), start: start as int, end: self.offset() },
            ),
            count < usize::MAX,
    {
        match tok.get_type() {
            TokenType::Register => 1,
            TokenType::Instruction | TokenType::SkipCond => self.consume_instr(tok, start),
            TokenType::Label => 2,
            TokenType::DecLit => match tok.get_value() {
                Variant::Byte(value) => Self::consume_dec_lit(value as u16),
                Variant::Word(value) => Self::consume_dec_lit(value),
                Variant::Text(_) => Self::consume_dec_lit(0),
            },
            TokenType::HexLit => self.lexer.position() - start - 1,
            TokenType::BinLit => 2,
            _ => 0,
        }
    }

    /// The label that the lexer has just read from index `start` on, as
    /// it is written in the source.
    fn consume_label(&self, kind: TokenType, start: usize) -> (tok: Token)
        requires
            kind == TokenType::Label || kind == TokenType::LblDef,
            0 <= start < self.offset() <= self.text().len(),
        ensures
            tok@ == label_lexeme(
                self.text(),
                Scan {
                    token: Some(text_lexeme(kind, Seq::empty())),
                    start: start as int,
                    end: self.offset(),
                },
            ),
    {
        let end = if kind == TokenType::LblDef {
            self.lexer.position() - 1
        } else {
            self.lexer.position()
        };
        let mut name = String::new();
        let mut i = start;
        proof {
            assert(name@ =~= self.text().subrange(start as int, i as int));
        }
        while i < end
            invariant
                start <= i <= end <= self.text().len(),
                name@ == self.text().subrange(start as int, i as int),
            decreases end - i,
        {
            name.push(self.lexer.char_at(i));
            i = i + 1;
            proof {
                assert(name@ =~= self.text().subrange(start as int, i as int));
            }
        }
        Token::new(kind, Variant::Text(name))
    }

    /// Gets the next `Token` consumed from the input
    ///
    /// Reads and counts tokens up to the next label, the end of the
    /// input or a lexical error. A label is returned as it is written
    /// in the source; for a definition, `get_address` then gives the
    /// address that the label stands for.
    pub fn get_next_token(&mut self) -> (res: Result<Token, LexerError>)
        ensures
            final(self).text() == old(self).text(),
            ({
                let found = survey(old(self).text(), old(self).offset(), old(self).tally());
                &&& final(self).offset() == found.end
                &&& final(self).tally() == found.tally
                &&& match found.token {
                    Some(lexeme) => res matches Ok(tok) && tok@ == lexeme,
                    None => res matches Err(e) && e@ == lexer_fault(final(self).text(), found.end),
                }
            }),
    {
        loop
            invariant
                self.text() == old(self).text(),
                survey(self.text(), self.offset(), self.tally()) == survey(
                    old(self).text(),
                    old(self).offset(),
                    old(self).tally(),
                ),
            decreases self.text().len() - self.offset(),
        {
            let ghost from = self.offset();
            let before = self.lexer.position();
            proof {
                lemma_scan_from_start(self.text(), from);
                lemma_scan_bounds(self.text(), from);
            }
            self.lexer.skip_blank();
            let start = self.lexer.position();
            let tok = match self.lexer.get_next_token() {
                Ok(tok) => tok,
                Err(e) => {
                    return Err(e);
                },
            };
            let kind = tok.get_type();
            if kind == TokenType::EndOfInput {
                return Ok(tok);
            } else if kind == TokenType::LblDef {
                return Ok(self.consume_label(kind, start));
            } else if kind == TokenType::Label {
                self.update_addr(2);
                return Ok(self.consume_label(kind, start));
            } else {
                let count = self.consume(&tok, start);
                self.update_addr(count);
            }
        }
    }
}

/// The value of `ceil_log2` at the ends of the ranges of values that
/// count for the same number of nibbles.
proof fn lemma_ceil_log2_steps()
    ensures
        ceil_log2(1) == 0,
        ceil_log2(2) == 1,
        ceil_log2(16) == 4,
        ceil_log2(17) == 5,
        ceil_log2(256) == 8,
        ceil_log2(257) == 9,
        ceil_log2(4096) == 12,
        ceil_log2(4097) == 13,
        ceil_log2(65536) == 16,
{
    reveal_with_fuel(ceil_log2, 20);
}

/// A larger value has no smaller logarithm.
proof fn lemma_ceil_log2_monotonic(a: nat, b: nat)
    ensures
        a <= b ==> ceil_log2(a) <= ceil_log2(b),
    decreases b,
{
    if a <= b && a > 1 {
        lemma_ceil_log2_monotonic((a + 1) / 2, (b + 1) / 2);
    }
}

} // verus!
