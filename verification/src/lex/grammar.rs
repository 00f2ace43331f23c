//! The lexical grammar, as functions on the source text.
//!
//! The source is a sequence of characters and a position is an index
//! into it. `scan` says which token starts at or after a position and
//! where it ends; the lexers are proved to compute exactly that.

use super::chars::{
    is_bin_digit, is_digit_in, is_hex_digit, is_letter, is_newline, is_whitespace, digit_value,
    to_upper, upper_seq, END_CHAR,
};
use super::token::Lexeme;
use super::token_type::TokenType;
use crate::error::fault::Fault;
use crate::util::constants::{BIN_LIT_CHAR, COMMENT_CHAR, DEC_LIT_CHAR, HEX_LIT_CHAR};
use crate::util::variant::Payload;
use vstd::prelude::*;

verus! {

/// The character at `pos`; `END_CHAR` at and beyond the end of the text.
pub open spec fn char_at(text: Seq<char>, pos: int) -> char {
    if 0 <= pos < text.len() {
        text[pos]
    } else {
        END_CHAR
    }
}

/// The line that position `pos` lies on: 1 plus the number of line
/// feeds and carriage returns before it.
pub open spec fn line_at(text: Seq<char>, pos: int) -> int
    decreases pos,
{
    if pos <= 0 {
        1
    } else if is_newline(char_at(text, pos - 1)) {
        line_at(text, pos - 1) + 1
    } else {
        line_at(text, pos - 1)
    }
}

/// The column of position `pos`: 1 plus the number of characters
/// between the start of its line and `pos`.
pub open spec fn column_at(text: Seq<char>, pos: int) -> int
    decreases pos,
{
    if pos <= 0 {
        1
    } else if is_newline(char_at(text, pos - 1)) {
        1
    } else {
        column_at(text, pos - 1) + 1
    }
}

/// A line or column number as the lexers report it: numbers that do
/// not fit in 32 bits are reported as the largest that does.
pub open spec fn clamp(n: int) -> u32 {
    if n < 0 {
        0
    } else if n > u32::MAX {
        u32::MAX
    } else {
        n as u32
    }
}

/// The lexical error at position `pos`: it carries the line, the column
/// and the character found there.
pub open spec fn lexer_fault(text: Seq<char>, pos: int) -> Fault {
    Fault::Lexer {
        line: clamp(line_at(text, pos)),
        col: clamp(column_at(text, pos)),
        chr: char_at(text, pos),
    }
}

/// Where the run of whitespace that starts at `pos` ends.
pub open spec fn whitespace_end(text: Seq<char>, pos: int) -> int
    decreases text.len() - pos,
{
    if is_whitespace(char_at(text, pos)) {
        whitespace_end(text, pos + 1)
    } else {
        pos
    }
}

/// Where a comment ends whose text starts at `pos`: at the next line
/// feed, carriage return or end of input.
pub open spec fn comment_end(text: Seq<char>, pos: int) -> int
    decreases text.len() - pos,
{
    let c = char_at(text, pos);
    if c == END_CHAR || is_newline(c) {
        pos
    } else {
        comment_end(text, pos + 1)
    }
}

/// Where the next token starts: `pos` moved past whitespace and comments.
pub open spec fn skip_blank(text: Seq<char>, pos: int) -> int
    decreases text.len() - pos,
{
    let c = char_at(text, pos);
    if is_whitespace(c) {
        skip_blank(text, pos + 1)
    } else if c == COMMENT_CHAR {
        proof {
            lemma_comment_end_bounds(text, pos + 1);
        }
        skip_blank(text, comment_end(text, pos + 1))
    } else {
        pos
    }
}

/// Where the run of letters that starts at `pos` ends.
pub open spec fn letters_end(text: Seq<char>, pos: int) -> int
    decreases text.len() - pos,
{
    if is_letter(char_at(text, pos)) {
        letters_end(text, pos + 1)
    } else {
        pos
    }
}

/// The outcome of reading the digits of a literal: where reading
/// stopped, whether the value fits, and the value.
pub struct Digits {
    pub fits: bool,
    pub value: int,
    pub end: int,
}

/// Reads digits of the given radix from `pos` on, with `acc` the value
/// of the digits before `pos`. Reading stops at the first character
/// that is no digit, or at the digit that takes the value past 16 bits.
pub open spec fn scan_digits(text: Seq<char>, pos: int, radix: u8, acc: int) -> Digits
    decreases text.len() - pos,
{
    let c = char_at(text, pos);
    if is_digit_in(c, radix) {
        let value = acc * radix + digit_value(c);
        if value > u16::MAX {
            Digits { fits: false, value: acc, end: pos }
        } else {
            scan_digits(text, pos + 1, radix, value)
        }
    } else {
        Digits { fits: true, value: acc, end: pos }
    }
}

/// Reads exactly `count` binary digits from `pos` on, with `acc` the
/// value of the digits before `pos`. Reading stops early at a character
/// that is no binary digit.
pub open spec fn scan_bits(text: Seq<char>, pos: int, count: nat, acc: int) -> Digits
    decreases count,
{
    if count == 0 {
        Digits { fits: true, value: acc, end: pos }
    } else if is_bin_digit(char_at(text, pos)) {
        scan_bits(text, pos + 1, (count - 1) as nat, acc * 2 + digit_value(char_at(text, pos)))
    } else {
        Digits { fits: false, value: acc, end: pos }
    }
}

/// The words that name a skip condition.
pub open spec fn is_skip_word(word: Seq<char>) -> bool {
    word == "EQ"@ || word == "NE"@ || word == "KEY"@ || word == "NOKEY"@
}

/// A token whose payload is text.
pub open spec fn text_lexeme(kind: TokenType, text: Seq<char>) -> Lexeme {
    Lexeme { kind, value: Payload::Text(text) }
}

/// The token that ends every token stream.
pub open spec fn end_lexeme() -> Lexeme {
    text_lexeme(TokenType::EndOfInput, ""@)
}

/// One step of lexing: the token found, where it starts and where the
/// lexer stands afterwards. Without a token the step is a lexical error
/// at `end`, about the character there.
pub struct Scan {
    pub token: Option<Lexeme>,
    pub start: int,
    pub end: int,
}

/// The outcome of a literal of the given radix whose sigil stands at
/// `start`: at least one digit, and a value of at most 16 bits.
pub open spec fn scan_number(text: Seq<char>, start: int, radix: u8, kind: TokenType) -> Scan {
    let digits = scan_digits(text, start + 1, radix, 0);
    if digits.fits && digits.end > start + 1 {
        Scan {
            token: Some(Lexeme { kind, value: Payload::Word(digits.value as u16) }),
            start,
            end: digits.end,
        }
    } else {
        Scan { token: None, start, end: digits.end }
    }
}

/// The outcome of a binary literal whose sigil stands at `start`:
/// exactly eight binary digits.
pub open spec fn scan_binary(text: Seq<char>, start: int) -> Scan {
    let digits = scan_bits(text, start + 1, 8, 0);
    if digits.fits {
        Scan {
            token: Some(
                Lexeme { kind: TokenType::BinLit, value: Payload::Byte(digits.value as u8) },
            ),
            start,
            end: digits.end,
        }
    } else {
        Scan { token: None, start, end: digits.end }
    }
}

/// The outcome of a register reference that starts at `start`: `I`
/// alone, or `V` and one hexadecimal digit, in either case.
pub open spec fn scan_register(text: Seq<char>, start: int) -> Scan {
    let c = char_at(text, start);
    let d = char_at(text, start + 1);
    if c == 'I' || c == 'i' {
        Scan { token: Some(text_lexeme(TokenType::Register, "I"@)), start, end: start + 1 }
    } else if is_hex_digit(d) {
        Scan {
            token: Some(text_lexeme(TokenType::Register, "V"@.push(to_upper(d)))),
            start,
            end: start + 2,
        }
    } else {
        Scan { token: None, start, end: start + 1 }
    }
}

/// The outcome of a label whose underscore stands at `start`: the
/// underscore and the letters after it, in upper case. A colon after
/// the letters makes it a definition; the colon is not part of the name.
pub open spec fn scan_label(text: Seq<char>, start: int) -> Scan {
    let end = letters_end(text, start + 1);
    let name = "_"@ + upper_seq(text.subrange(start + 1, end));
    if char_at(text, end) == ':' {
        Scan { token: Some(text_lexeme(TokenType::LblDef, name)), start, end: end + 1 }
    } else {
        Scan { token: Some(text_lexeme(TokenType::Label, name)), start, end }
    }
}

/// The outcome of a symbol that starts at `start`: a run of letters, in
/// upper case, which is a skip condition if it is one of the four
/// condition words and a mnemonic otherwise.
pub open spec fn scan_symbol(text: Seq<char>, start: int) -> Scan {
    let end = letters_end(text, start);
    let word = upper_seq(text.subrange(start, end));
    let kind = if is_skip_word(word) {
        TokenType::SkipCond
    } else {
        TokenType::Instruction
    };
    Scan { token: Some(text_lexeme(kind, word)), start, end }
}

/// The token that starts exactly at `start`, by its first character.
pub open spec fn scan_at(text: Seq<char>, start: int) -> Scan {
    let c = char_at(text, start);
    if c == END_CHAR {
        Scan { token: Some(end_lexeme()), start, end: start }
    } else if c == ',' {
        Scan { token: Some(text_lexeme(TokenType::Comma, ","@)), start, end: start + 1 }
    } else if c == '.' {
        Scan { token: Some(text_lexeme(TokenType::Period, "."@)), start, end: start + 1 }
    } else if c == 'V' || c == 'v' || c == 'I' || c == 'i' {
        scan_register(text, start)
    } else if c == '_' {
        scan_label(text, start)
    } else if is_letter(c) {
        scan_symbol(text, start)
    } else if c == DEC_LIT_CHAR {
        scan_number(text, start, 10, TokenType::DecLit)
    } else if c == HEX_LIT_CHAR {
        scan_number(text, start, 16, TokenType::HexLit)
    } else if c == BIN_LIT_CHAR {
        scan_binary(text, start)
    } else {
        Scan { token: None, start, end: start }
    }
}

/// The next token at or after `pos`: whitespace and comments are
/// skipped, then one token is read.
pub open spec fn scan(text: Seq<char>, pos: int) -> Scan {
    scan_at(text, skip_blank(text, pos))
}

/// Lines and columns are counted from 1.
pub proof fn lemma_position_positive(text: Seq<char>, pos: int)
    ensures
        line_at(text, pos) >= 1,
        column_at(text, pos) >= 1,
    decreases pos,
{
    if pos > 0 {
        lemma_position_positive(text, pos - 1);
    }
}

/// Skipping a run of whitespace first does not change where the next
/// token starts.
pub proof fn lemma_skip_whitespace_run(text: Seq<char>, pos: int)
    ensures
        skip_blank(text, whitespace_end(text, pos)) == skip_blank(text, pos),
        whitespace_end(text, pos) >= pos,
        is_whitespace(char_at(text, pos)) ==> whitespace_end(text, pos) > pos,
    decreases text.len() - pos,
{
    if is_whitespace(char_at(text, pos)) {
        lemma_skip_whitespace_run(text, pos + 1);
    }
}

/// A comment ends between where its text starts and the end of the source.
pub proof fn lemma_comment_end_bounds(text: Seq<char>, pos: int)
    requires
        0 <= pos,
    ensures
        pos <= comment_end(text, pos),
        pos <= text.len() ==> comment_end(text, pos) <= text.len(),
    decreases text.len() - pos,
{
    let c = char_at(text, pos);
    if !(c == END_CHAR || is_newline(c)) {
        lemma_comment_end_bounds(text, pos + 1);
    }
}

/// The start of the next token lies between `pos` and the end of the source.
pub proof fn lemma_skip_blank_bounds(text: Seq<char>, pos: int)
    requires
        0 <= pos <= text.len(),
    ensures
        pos <= skip_blank(text, pos) <= text.len(),
        !is_whitespace(char_at(text, skip_blank(text, pos))),
        char_at(text, skip_blank(text, pos)) != COMMENT_CHAR,
        skip_blank(text, skip_blank(text, pos)) == skip_blank(text, pos),
    decreases text.len() - pos,
{
    let c = char_at(text, pos);
    if is_whitespace(c) {
        lemma_skip_blank_bounds(text, pos + 1);
    } else if c == COMMENT_CHAR {
        lemma_comment_end_bounds(text, pos + 1);
        lemma_skip_blank_bounds(text, comment_end(text, pos + 1));
    }
}

/// A run of letters ends between its start and the end of the source.
pub proof fn lemma_letters_end_bounds(text: Seq<char>, pos: int)
    requires
        0 <= pos <= text.len(),
    ensures
        pos <= letters_end(text, pos) <= text.len(),
        is_letter(char_at(text, pos)) ==> pos < letters_end(text, pos),
        !is_letter(char_at(text, letters_end(text, pos))),
    decreases text.len() - pos,
{
    if is_letter(char_at(text, pos)) {
        lemma_letters_end_bounds(text, pos + 1);
    }
}

/// Reading digits stops between its start and the end of the source,
/// with a value of at most 16 bits.
pub proof fn lemma_scan_digits_bounds(text: Seq<char>, pos: int, radix: u8, acc: int)
    requires
        0 <= pos <= text.len(),
        0 <= acc <= u16::MAX,
    ensures
        pos <= scan_digits(text, pos, radix, acc).end <= text.len(),
        0 <= scan_digits(text, pos, radix, acc).value <= u16::MAX,
    decreases text.len() - pos,
{
    let c = char_at(text, pos);
    if is_digit_in(c, radix) {
        let value = acc * radix + digit_value(c);
        assert(0 <= acc * radix) by (nonlinear_arith)
            requires
                0 <= acc,
                0 <= radix,
        ;
        if value <= u16::MAX {
            lemma_scan_digits_bounds(text, pos + 1, radix, value);
        }
    }
}

/// Reading `count` binary digits stops within `count` characters and
/// within the source; all of them read, the value has grown by
/// `count` bits.
pub proof fn lemma_scan_bits_bounds(text: Seq<char>, pos: int, count: nat, acc: int)
    requires
        0 <= pos <= text.len(),
        0 <= acc,
    ensures
        pos <= scan_bits(text, pos, count, acc).end <= text.len(),
        scan_bits(text, pos, count, acc).end <= pos + count,
        scan_bits(text, pos, count, acc).fits ==> scan_bits(text, pos, count, acc).end == pos
            + count,
    decreases count,
{
    if count > 0 && is_bin_digit(char_at(text, pos)) {
        lemma_scan_bits_bounds(
            text,
            pos + 1,
            (count - 1) as nat,
            acc * 2 + digit_value(char_at(text, pos)),
        );
    }
}

/// A step of lexing moves forward and stays within the source. A token
/// other than `EndOfInput` takes at least one character; `EndOfInput`
/// takes none.
pub proof fn lemma_scan_bounds(text: Seq<char>, pos: int)
    requires
        0 <= pos <= text.len(),
    ensures
        pos <= scan(text, pos).start <= scan(text, pos).end <= text.len(),
        scan(text, pos).start == skip_blank(text, pos),
        scan(text, pos).token matches Some(lexeme) ==> (lexeme.kind == TokenType::EndOfInput
            <==> scan(text, pos).start == scan(text, pos).end),
        scan(text, pos).token matches Some(lexeme) ==> (lexeme.kind == TokenType::EndOfInput
            <==> char_at(text, scan(text, pos).start) == END_CHAR),
{
    lemma_skip_blank_bounds(text, pos);
    let start = skip_blank(text, pos);
    lemma_letters_end_bounds(text, start);
    if start < text.len() {
        lemma_letters_end_bounds(text, start + 1);
        lemma_scan_digits_bounds(text, start + 1, 10, 0);
        lemma_scan_digits_bounds(text, start + 1, 16, 0);
        lemma_scan_bits_bounds(text, start + 1, 8, 0);
    }
}

/// Lexing from the start of a token gives that token: the blank before
/// a token plays no part in what the token is.
pub proof fn lemma_scan_from_start(text: Seq<char>, pos: int)
    requires
        0 <= pos <= text.len(),
    ensures
        scan(text, skip_blank(text, pos)) == scan(text, pos),
{
    lemma_skip_blank_bounds(text, pos);
}

/// Once lexing has reached `EndOfInput`, every further step returns
/// `EndOfInput` again and leaves the position where it is.
pub proof fn lemma_end_of_input_repeats(text: Seq<char>, pos: int)
    requires
        0 <= pos <= text.len(),
        scan(text, pos).token matches Some(lexeme) && lexeme.kind == TokenType::EndOfInput,
    ensures
        scan(text, scan(text, pos).end).token == Some(end_lexeme()),
        scan(text, scan(text, pos).end).end == scan(text, pos).end,
{
    lemma_scan_bounds(text, pos);
    lemma_skip_blank_bounds(text, pos);
}

/// Whether every token from `pos` on can be read: lexing reaches the
/// end of the input without an error.
pub open spec fn lexes(text: Seq<char>, pos: int) -> bool
    decreases text.len() - pos,
{
    if 0 <= pos <= text.len() {
        match scan(text, pos).token {
            None => false,
            Some(lexeme) => {
                proof {
                    lemma_scan_bounds(text, pos);
                }
                lexeme.kind == TokenType::EndOfInput || lexes(text, scan(text, pos).end)
            },
        }
    } else {
        false
    }
}

/// Where every token can be read, the next one can, and every token
/// after it.
pub proof fn lemma_lexes_on(text: Seq<char>, pos: int)
    requires
        lexes(text, pos),
    ensures
        scan(text, pos).token is Some,
        lexes(text, scan(text, pos).end),
{
    lemma_scan_bounds(text, pos);
    if scan(text, pos).token->0.kind == TokenType::EndOfInput {
        lemma_end_of_input_repeats(text, pos);
    }
}

/// The number that a sequence of digits stands for in positional
/// notation: the last digit counts once, and each digit before it
/// `radix` times as much as the one after it.
pub open spec fn numeral(digits: Seq<char>, radix: int) -> int
    decreases digits.len(),
{
    if digits.len() == 0 {
        0
    } else {
        numeral(digits.drop_last(), radix) * radix + digit_value(digits.last())
    }
}

/// Reading digits gives the number that they stand for. If `acc` is
/// the number that the characters from `first` to `pos` stand for, the
/// value read is the number that the characters from `first` to the
/// end of the run stand for; every character of the run is a digit,
/// and the character after the run is none.
pub proof fn lemma_scan_digits_value(text: Seq<char>, first: int, pos: int, radix: u8, acc: int)
    requires
        0 <= first <= pos <= text.len(),
        acc == numeral(text.subrange(first, pos), radix as int),
        scan_digits(text, pos, radix, acc).fits,
    ensures
        ({
            let digits = scan_digits(text, pos, radix, acc);
            &&& pos <= digits.end <= text.len()
            &&& digits.value == numeral(text.subrange(first, digits.end), radix as int)
            &&& forall|i: int| pos <= i < digits.end ==> is_digit_in(#[trigger] text[i], radix)
            &&& !is_digit_in(char_at(text, digits.end), radix)
        }),
    decreases text.len() - pos,
{
    let c = char_at(text, pos);
    if is_digit_in(c, radix) {
        assert(text.subrange(first, pos + 1).drop_last() =~= text.subrange(first, pos));
        lemma_scan_digits_value(text, first, pos + 1, radix, acc * radix + digit_value(c));
    }
}

/// A decimal or hex literal holds the number that its digits stand
/// for: the token of a literal whose sigil stands at `start` holds the
/// value, in positional notation, of the digits between the sigil and
/// the end of the token, of which there is at least one.
pub proof fn lemma_literal_value(text: Seq<char>, start: int, radix: u8, kind: TokenType)
    requires
        0 <= start < text.len(),
        scan_number(text, start, radix, kind).token is Some,
    ensures
        ({
            let step = scan_number(text, start, radix, kind);
            &&& start + 1 < step.end <= text.len()
            &&& step.token->0.kind == kind
            &&& step.token->0.value == Payload::Word(
                numeral(text.subrange(start + 1, step.end), radix as int) as u16,
            )
            &&& 0 <= numeral(text.subrange(start + 1, step.end), radix as int) <= u16::MAX
        }),
{
    assert(text.subrange(start + 1, start + 1) =~= Seq::<char>::empty());
    lemma_scan_digits_value(text, start + 1, start + 1, radix, 0);
    lemma_scan_digits_bounds(text, start + 1, radix, 0);
}

/// Reading binary digits gives the number that they stand for.
pub proof fn lemma_scan_bits_value(text: Seq<char>, first: int, pos: int, count: nat, acc: int)
    requires
        0 <= first <= pos <= text.len(),
        acc == numeral(text.subrange(first, pos), 2),
        scan_bits(text, pos, count, acc).fits,
    ensures
        pos + count <= text.len(),
        scan_bits(text, pos, count, acc).end == pos + count,
        scan_bits(text, pos, count, acc).value == numeral(text.subrange(first, pos + count), 2),
        forall|i: int| pos <= i < pos + count ==> is_bin_digit(#[trigger] text[i]),
    decreases count,
{
    if count > 0 {
        let c = char_at(text, pos);
        assert(text.subrange(first, pos + 1).drop_last() =~= text.subrange(first, pos));
        lemma_scan_bits_value(text, first, pos + 1, (count - 1) as nat, acc * 2 + digit_value(c));
    }
}

/// A binary literal holds the number that its eight digits stand for.
pub proof fn lemma_binary_value(text: Seq<char>, start: int)
    requires
        0 <= start < text.len(),
        scan_binary(text, start).token is Some,
    ensures
        ({
            let step = scan_binary(text, start);
            &&& step.end == start + 9
            &&& step.end <= text.len()
            &&& step.token->0.kind == TokenType::BinLit
            &&& step.token->0.value == Payload::Byte(
                numeral(text.subrange(start + 1, start + 9), 2) as u8,
            )
            &&& forall|i: int| start < i < start + 9 ==> is_bin_digit(#[trigger] text[i])
        }),
{
    assert(text.subrange(start + 1, start + 1) =~= Seq::<char>::empty());
    lemma_scan_bits_value(text, start + 1, start + 1, 8, 0);
}

} // verus!
