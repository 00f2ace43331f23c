//! The lexer of the second pass: source text to tokens.

use super::chars::{
    digit_value, is_bin_digit, is_digit_in, is_hex_digit, is_letter, is_newline, is_whitespace,
    to_upper, upper_seq, END_CHAR,
};
use super::grammar::{
    char_at, clamp, column_at, comment_end, lemma_comment_end_bounds, lemma_position_positive,
    lemma_skip_whitespace_run, letters_end, lexer_fault, line_at, scan, scan_binary, scan_bits,
    scan_digits, scan_label, scan_number, scan_register, skip_blank, whitespace_end,
};
use super::token::{Lexeme, Token};
use super::token_type::TokenType;
use crate::error::lexer_error::LexerError;
use crate::util::constants::{BIN_LIT_CHAR, COMMENT_CHAR, DEC_LIT_CHAR, HEX_LIT_CHAR};
use crate::util::text::{chars_of, is_word};
use crate::util::variant::Variant;
use vstd::prelude::*;

verus! {

/// Where a lexer stands: an index into the text, and the line and
/// column of that index.
#[derive(Clone, Copy)]
struct Place {
    pos: usize,
    line: u32,
    col: u32,
}

/// Lexes Chip-8 assembly code
pub struct AsmLexer {
    /// The code being lexed
    text: Vec<char>,
    /// The current position in the text
    at: Place,
}

impl AsmLexer {
    /// The position lies within the text or at its end, and the line
    /// and column are those of the position.
    #[verifier::type_invariant]
    spec fn well_formed(self) -> bool {
        &&& self.at.pos <= self.text.len()
        &&& self.at.line == clamp(line_at(self.text@, self.at.pos as int))
        &&& self.at.col == clamp(column_at(self.text@, self.at.pos as int))
    }

    /// The code being lexed.
    pub closed spec fn text(&self) -> Seq<char> {
        self.text@
    }

    /// The current position in the text: the index of the next
    /// character to read.
    pub closed spec fn offset(&self) -> int {
        self.at.pos as int
    }

    /// Constructs a new `AsmLexer` instance
    ///
    /// The lexer stands at the start of the text, which may be empty.
    pub fn new(new_text: &str) -> (lexer: Self)
        ensures
            lexer.text() == new_text@,
            lexer.offset() == 0,
    {
        AsmLexer { text: chars_of(new_text), at: Place { pos: 0, line: 1, col: 1 } }
    }

    /// Gets the current line being lexed
    pub fn get_line(&self) -> (line: u32)
        ensures
            line == clamp(line_at(self.text(), self.offset())),
    {
        proof {
            use_type_invariant(self);
        }
        self.at.line
    }

    /// Gets the current column being lexed
    pub fn get_column(&self) -> (col: u32)
        ensures
            col == clamp(column_at(self.text(), self.offset())),
    {
        proof {
            use_type_invariant(self);
        }
        self.at.col
    }

    /// The index of the next character to read.
    pub fn position(&self) -> (pos: usize)
        ensures
            pos == self.offset(),
            pos <= self.text().len(),
    {
        proof {
            use_type_invariant(self);
        }
        self.at.pos
    }

    /// The character at index `pos`; `END_CHAR` beyond the text.
    pub fn char_at(&self, pos: usize) -> (c: char)
        ensures
            c == char_at(self.text(), pos as int),
    {
        if pos < self.text.len() {
            self.text[pos]
        } else {
            END_CHAR
        }
    }

    /// The current character: the one at the current position.
    pub fn current(&self) -> (c: char)
        ensures
            c == char_at(self.text(), self.offset()),
    {
        self.char_at(self.at.pos)
    }

    /// The lexical error about the current character.
    fn error(&self) -> (e: LexerError)
        ensures
            e@ == lexer_fault(self.text(), self.offset()),
    {
        proof {
            use_type_invariant(self);
        }
        LexerError::new(self.at.line, self.at.col, self.current())
    }

    /// Advances the lexer to the next character
    ///
    /// At the end of the text the lexer stays where it is.
    fn advance(&mut self)
        ensures
            final(self).text() == old(self).text(),
            final(self).offset() == if old(self).offset() < old(self).text().len() {
                old(self).offset() + 1
            } else {
                old(self).offset()
            },
    {
        proof {
            use_type_invariant(&*self);
        }
        if self.at.pos < self.text.len() {
            let c = self.text[self.at.pos];
            let line = if !is_newline(c) {
                self.at.line
            } else if self.at.line < u32::MAX {
                self.at.line + 1
            } else {
                self.at.line
            };
            let col = if is_newline(c) {
                1
            } else if self.at.col < u32::MAX {
                self.at.col + 1
            } else {
                self.at.col
            };
            proof {
                lemma_position_positive(self.text@, self.at.pos as int);
            }
            self.at = Place { pos: self.at.pos + 1, line, col };
        }
    }

    /// Skips whitespace in the text
    fn skip_whitespace(&mut self)
        ensures
            final(self).text() == old(self).text(),
            final(self).offset() == whitespace_end(old(self).text(), old(self).offset()),
            old(self).offset() <= final(self).offset() <= final(self).text().len(),
    {
        proof {
            use_type_invariant(&*self);
        }
        while is_whitespace(self.current())
            invariant
                self.text() == old(self).text(),
                old(self).offset() <= self.offset() <= self.text().len(),
                whitespace_end(self.text(), self.offset()) == whitespace_end(
                    old(self).text(),
                    old(self).offset(),
                ),
            decreases self.text().len() - self.offset(),
        {
            self.advance();
        }
    }

    /// Consumes a comment in the text
    ///
    /// The lexer moves past the current character, which starts the
    /// comment, and on to the end of the line.
    fn consume_comment(&mut self)
        requires
            char_at(old(self).text(), old(self).offset()) == COMMENT_CHAR,
        ensures
            final(self).text() == old(self).text(),
            final(self).offset() == comment_end(old(self).text(), old(self).offset() + 1),
            old(self).offset() < final(self).offset() <= final(self).text().len(),
    {
        proof {
            use_type_invariant(&*self);
        }
        self.advance();
        while !is_newline(self.current()) && self.current() != END_CHAR
            invariant
                self.text() == old(self).text(),
                old(self).offset() < self.offset() <= self.text().len(),
                comment_end(self.text(), self.offset()) == comment_end(
                    old(self).text(),
                    old(self).offset() + 1,
                ),
            decreases self.text().len() - self.offset(),
        {
            self.advance();
        }
    }

    /// Skips whitespace and comments, up to the start of the next token.
    pub fn skip_blank(&mut self)
        ensures
            final(self).text() == old(self).text(),
            final(self).offset() == skip_blank(old(self).text(), old(self).offset()),
            old(self).offset() <= final(self).offset() <= final(self).text().len(),
    {
        proof {
            use_type_invariant(&*self);
        }
        while is_whitespace(self.current()) || self.current() == COMMENT_CHAR
            invariant
                self.text() == old(self).text(),
                old(self).offset() <= self.offset() <= self.text().len(),
                skip_blank(self.text(), self.offset()) == skip_blank(
                    old(self).text(),
                    old(self).offset(),
                ),
            decreases self.text().len() - self.offset(),
        {
            if is_whitespace(self.current()) {
                proof {
                    lemma_skip_whitespace_run(self.text(), self.offset());
                }
                self.skip_whitespace();
            } else {
                proof {
                    lemma_comment_end_bounds(self.text(), self.offset() + 1);
                }
                self.consume_comment();
            }
        }
    }

    /// Lexes a text symbol in the input
    ///
    /// Returns the run of letters at the current position, in upper
    /// case, and moves past it.
    fn symbol(&mut self) -> (word: String)
        ensures
            final(self).text() == old(self).text(),
            final(self).offset() == letters_end(old(self).text(), old(self).offset()),
            word@ == upper_seq(
                old(self).text().subrange(old(self).offset(), final(self).offset()),
            ),
    {
        let mut word = String::new();
        self.letters(&mut word);
        proof {
            assert(word@ =~= upper_seq(
                old(self).text().subrange(old(self).offset(), self.offset()),
            ));
        }
        word
    }

    /// Appends the run of letters at the current position to `word`,
    /// in upper case, and moves past it.
    fn letters(&mut self, word: &mut String)
        ensures
            final(self).text() == old(self).text(),
            final(self).offset() == letters_end(old(self).text(), old(self).offset()),
            old(self).offset() <= final(self).offset() <= final(self).text().len(),
            final(word)@ == old(word)@ + upper_seq(
                old(self).text().subrange(old(self).offset(), final(self).offset()),
            ),
    {
        let ghost start = self.offset();
        proof {
            use_type_invariant(&*self);
            assert(word@ =~= old(word)@ + upper_seq(self.text().subrange(start, start)));
        }
        while is_letter(self.current())
            invariant
                self.text() == old(self).text(),
                start == old(self).offset(),
                0 <= start <= self.offset() <= self.text().len(),
                letters_end(self.text(), self.offset()) == letters_end(self.text(), start),
                word@ == old(word)@ + upper_seq(self.text().subrange(start, self.offset())),
            decreases self.text().len() - self.offset(),
        {
            let c = self.current();
            let ghost before = self.offset();
            word.push(to_upper(c));
            self.advance();
            proof {
                assert(self.text().subrange(start, before + 1) =~= self.text().subrange(
                    start,
                    before,
                ).push(c));
                assert(word@ =~= old(word)@ + upper_seq(
                    self.text().subrange(start, self.offset()),
                ));
            }
        }
    }

    /// Lexes a label in the input
    ///
    /// The current character is the underscore that starts the label.
    fn label(&mut self) -> (tok: Token)
        requires
            char_at(old(self).text(), old(self).offset()) == '_',
        ensures
            final(self).text() == old(self).text(),
            final(self).offset() == scan_label(old(self).text(), old(self).offset()).end,
            Some(tok@) == scan_label(old(self).text(), old(self).offset()).token,
    {
        let mut name = String::from_str("_");
        self.advance();
        self.letters(&mut name);
        if self.current() == ':' {
            self.advance();
            Token::new(TokenType::LblDef, Variant::Text(name))
        } else {
            Token::new(TokenType::Label, Variant::Text(name))
        }
    }

    /// Lexes a register reference in the input
    ///
    /// The current character is a `V` or an `I` of either case.
    fn register(&mut self) -> (res: Result<Token, LexerError>)
        requires
            ({
                let c = char_at(old(self).text(), old(self).offset());
                c == 'V' || c == 'v' || c == 'I' || c == 'i'
            }),
        ensures
            final(self).text() == old(self).text(),
            final(self).offset() == scan_register(old(self).text(), old(self).offset()).end,
            lexed(res, scan_register(old(self).text(), old(self).offset()).token, *final(self)),
    {
        let c = self.current();
        self.advance();
        if c == 'I' || c == 'i' {
            Ok(Token::new(TokenType::Register, Variant::Text(String::from_str("I"))))
        } else {
            let d = self.current();
            if is_hex_digit(d) {
                let mut name = String::from_str("V");
                name.push(to_upper(d));
                self.advance();
                Ok(Token::new(TokenType::Register, Variant::Text(name)))
            } else {
                Err(self.error())
            }
        }
    }

    /// Reads the digits of a literal in the given radix, which is 10 or
    /// 16, after moving past the sigil at the current position.
    fn number(&mut self, radix: u8) -> (res: Result<u16, LexerError>)
        requires
            radix == 10 || radix == 16,
            char_at(old(self).text(), old(self).offset()) != END_CHAR,
        ensures
            final(self).text() == old(self).text(),
            final(self).offset() == scan_digits(
                old(self).text(),
                old(self).offset() + 1,
                radix,
                0,
            ).end,
            ({
                let digits = scan_digits(old(self).text(), old(self).offset() + 1, radix, 0);
                if digits.fits && digits.end > old(self).offset() + 1 {
                    res == Ok::<u16, LexerError>(digits.value as u16)
                } else {
                    res matches Err(e) && e@ == lexer_fault(final(self).text(), digits.end)
                }
            }),
    {
        proof {
            use_type_invariant(&*self);
        }
        self.advance();
        let ghost first = self.offset();
        let mut value: u16 = 0;
        let mut any = false;
        while is_digit_in(self.current(), radix)
            invariant
                self.text() == old(self).text(),
                first == old(self).offset() + 1,
                radix == 10 || radix == 16,
                0 <= first <= self.offset() <= self.text().len(),
                any == (self.offset() > first),
                scan_digits(self.text(), self.offset(), radix, value as int) == scan_digits(
                    self.text(),
                    first,
                    radix,
                    0,
                ),
            decreases self.text().len() - self.offset(),
        {
            let digit = digit_value(self.current());
            let next: u32 = if radix == 10 {
                value as u32 * 10 + digit as u32
            } else {
                value as u32 * 16 + digit as u32
            };
            assert(next == value as int * radix + digit);
            if next > 0xFFFF {
                return Err(self.error());
            }
            value = next as u16;
            any = true;
            self.advance();
        }
        if any {
            Ok(value)
        } else {
            Err(self.error())
        }
    }

    /// Lexes a decimal literal in the text
    ///
    /// The current character is the sigil. The literal has at least one
    /// digit and a value of at most 16 bits; otherwise the error names
    /// the character at which reading stopped.
    fn dec_lit(&mut self) -> (res: Result<u16, LexerError>)
        requires
            char_at(old(self).text(), old(self).offset()) == DEC_LIT_CHAR,
        ensures
            final(self).text() == old(self).text(),
            final(self).offset() == scan_number(
                old(self).text(),
                old(self).offset(),
                10,
                TokenType::DecLit,
            ).end,
            match scan_number(old(self).text(), old(self).offset(), 10, TokenType::DecLit).token {
                Some(lexeme) => res == Ok::<u16, LexerError>(lexeme.value.number()),
                None => res matches Err(e) && e@ == lexer_fault(
                    final(self).text(),
                    final(self).offset(),
                ),
            },
    {
        self.number(10)
    }

    /// Lexes a hexadecimal literal in the text
    ///
    /// The current character is the sigil. The literal has at least one
    /// digit and a value of at most 16 bits; otherwise the error names
    /// the character at which reading stopped.
    fn hex_lit(&mut self) -> (res: Result<u16, LexerError>)
        requires
            char_at(old(self).text(), old(self).offset()) == HEX_LIT_CHAR,
        ensures
            final(self).text() == old(self).text(),
            final(self).offset() == scan_number(
                old(self).text(),
                old(self).offset(),
                16,
                TokenType::HexLit,
            ).end,
            match scan_number(old(self).text(), old(self).offset(), 16, TokenType::HexLit).token {
                Some(lexeme) => res == Ok::<u16, LexerError>(lexeme.value.number()),
                None => res matches Err(e) && e@ == lexer_fault(
                    final(self).text(),
                    final(self).offset(),
                ),
            },
    {
        self.number(16)
    }

    /// Lexes a binary literal in the text
    ///
    /// The current character is the sigil. The literal has exactly eight
    /// binary digits; otherwise the error names the character found in
    /// place of a digit.
    fn bin_lit(&mut self) -> (res: Result<u8, LexerError>)
        requires
            char_at(old(self).text(), old(self).offset()) == BIN_LIT_CHAR,
        ensures
            final(self).text() == old(self).text(),
            final(self).offset() == scan_binary(old(self).text(), old(self).offset()).end,
            match scan_binary(old(self).text(), old(self).offset()).token {
                Some(lexeme) => res == Ok::<u8, LexerError>(lexeme.value.number() as u8),
                None => res matches Err(e) && e@ == lexer_fault(
                    final(self).text(),
                    final(self).offset(),
                ),
            },
    {
        proof {
            use_type_invariant(&*self);
            lemma_pow2_values();
        }
        self.advance();
        let ghost first = self.offset();
        let mut value: u8 = 0;
        let mut left: u8 = 8;
        while left > 0
            invariant
                self.text() == old(self).text(),
                first == old(self).offset() + 1,
                0 <= first <= self.offset() <= self.text().len(),
                left <= 8,
                (value as int) < pow2_int(8 - left),
                scan_bits(self.text(), self.offset(), left as nat, value as int) == scan_bits(
                    self.text(),
                    first,
                    8,
                    0,
                ),
            decreases left,
        {
            let c = self.current();
            if !is_bin_digit(c) {
                return Err(self.error());
            }
            proof {
                lemma_pow2_values();
                assert(left == 1 || left == 2 || left == 3 || left == 4 || left == 5 || left == 6
                    || left == 7 || left == 8);
            }
            value = value * 2 + digit_value(c);
            left = left - 1;
            self.advance();
        }
        Ok(value)
    }

    /// Gets the next `Token` consumed from the input
    ///
    /// Whitespace and comments are skipped, then one token is read.
    /// Once the input is exhausted every call returns `EndOfInput`; a
    /// NUL character in the text ends the input like the end of the
    /// text. On an error the lexer stands at the character that the
    /// error names.
    pub fn get_next_token(&mut self) -> (res: Result<Token, LexerError>)
        ensures
            final(self).text() == old(self).text(),
            final(self).offset() == scan(old(self).text(), old(self).offset()).end,
            lexed(res, scan(old(self).text(), old(self).offset()).token, *final(self)),
    {
        self.skip_blank();
        let c = self.current();
        if c == END_CHAR {
            Ok(Token::new(TokenType::EndOfInput, Variant::Text(String::from_str(""))))
        } else if c == ',' {
            self.advance();
            Ok(Token::new(TokenType::Comma, Variant::Text(String::from_str(","))))
        } else if c == '.' {
            self.advance();
            Ok(Token::new(TokenType::Period, Variant::Text(String::from_str("."))))
        } else if c == 'V' || c == 'v' || c == 'I' || c == 'i' {
            self.register()
        } else if c == '_' {
            Ok(self.label())
        } else if is_letter(c) {
            let word = self.symbol();
            if is_word(&word, "EQ") || is_word(&word, "NE") || is_word(&word, "KEY") || is_word(
                &word,
                "NOKEY",
            ) {
                Ok(Token::new(TokenType::SkipCond, Variant::Text(word)))
            } else {
                Ok(Token::new(TokenType::Instruction, Variant::Text(word)))
            }
        } else if c == DEC_LIT_CHAR {
            match self.dec_lit() {
                Ok(value) => Ok(Token::new(TokenType::DecLit, Variant::Word(value))),
                Err(e) => Err(e),
            }
        } else if c == HEX_LIT_CHAR {
            match self.hex_lit() {
                Ok(value) => Ok(Token::new(TokenType::HexLit, Variant::Word(value))),
                Err(e) => Err(e),
            }
        } else if c == BIN_LIT_CHAR {
            match self.bin_lit() {
                Ok(value) => Ok(Token::new(TokenType::BinLit, Variant::Byte(value))),
                Err(e) => Err(e),
            }
        } else {
            Err(self.error())
        }
    }
}

/// What a lexing function returns for an outcome of the grammar: the
/// token, or without one the lexical error at the lexer's position.
pub open spec fn lexed(
    res: Result<Token, LexerError>,
    token: Option<Lexeme>,
    lexer: AsmLexer,
) -> bool {
    match token {
        Some(lexeme) => res matches Ok(tok) && tok@ == lexeme,
        None => res matches Err(e) && e@ == lexer_fault(lexer.text(), lexer.offset()),
    }
}

/// Two to the power `n`.
spec fn pow2_int(n: int) -> int
    decreases n,
{
    if n <= 0 {
        1
    } else {
        2 * pow2_int(n - 1)
    }
}

/// The powers of two up to the eighth.
proof fn lemma_pow2_values()
    ensures
        pow2_int(0) == 1,
        pow2_int(1) == 2,
        pow2_int(2) == 4,
        pow2_int(3) == 8,
        pow2_int(4) == 16,
        pow2_int(5) == 32,
        pow2_int(6) == 64,
        pow2_int(7) == 128,
        pow2_int(8) == 256,
{
    reveal_with_fuel(pow2_int, 10);
}

} // verus!
