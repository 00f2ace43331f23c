//! The address bookkeeping of the first pass.
//!
//! The first pass does not encode anything. It counts, for each token,
//! the nibbles that the token will take in the binary, and turns every
//! two nibbles into one byte of address.

use super::grammar::{char_at, lemma_scan_bounds, lexes, scan, Scan};
use super::token::Lexeme;
use super::token_type::TokenType;
use crate::util::variant::Payload;
use vstd::prelude::*;

verus! {

/// The least `k` with `2^k >= value`: the logarithm of `value` to the
/// base 2, rounded up. It is 0 for the values 0 and 1.
pub open spec fn ceil_log2(value: nat) -> nat
    decreases value,
{
    if value <= 1 {
        0
    } else {
        1 + ceil_log2((value + 1) / 2)
    }
}

/// The nibbles that a decimal literal counts for: the logarithm of its
/// value to the base 2, rounded up, divided by 4 and rounded up again.
pub open spec fn decimal_nibbles(value: nat) -> nat {
    (ceil_log2(value) + 3) / 4
}

/// Whether `word` is one of the two mnemonics that fill a whole
/// two-byte word by themselves.
pub open spec fn is_whole_word(word: Seq<char>) -> bool {
    word == "CLS"@ || word == "RET"@
}

/// The nibbles that the token of a lexing step counts for.
///
/// A register counts 1. A mnemonic counts 2, or 4 if it fills a whole
/// word; a symbol written directly after a period is part of the
/// mnemonic before it and counts nothing. A label reference counts 2, a
/// decimal literal by its value, a hex literal by the digits written,
/// a binary literal 2. Everything else counts nothing.
pub open spec fn nibbles(text: Seq<char>, step: Scan) -> nat {
    match step.token {
        Some(lexeme) => match lexeme.kind {
            TokenType::Register => 1,
            TokenType::Instruction | TokenType::SkipCond => if char_at(text, step.start - 1)
                == '.' {
                0
            } else if is_whole_word(lexeme.value.text()) {
                4
            } else {
                2
            },
            TokenType::Label => 2,
            TokenType::DecLit => decimal_nibbles(lexeme.value.number() as nat),
            TokenType::HexLit => (step.end - step.start - 1) as nat,
            TokenType::BinLit => 2,
            _ => 0,
        },
        None => 0,
    }
}

/// The state of the bookkeeping: the address of the next byte, and
/// whether one nibble has been counted that does not yet fill a byte.
pub struct Tally {
    pub addr: u16,
    pub pending: bool,
}

/// The state after `count` more nibbles. Two nibbles or more move the
/// address on by half their number, rounded down, and leave nothing
/// pending; a single nibble stays pending. Addresses wrap around at the
/// end of the 16-bit address space.
pub open spec fn tally_after(tally: Tally, count: nat) -> Tally {
    let total = count + if tally.pending {
        1nat
    } else {
        0nat
    };
    if total >= 2 {
        Tally { addr: ((tally.addr + total / 2) % 0x10000) as u16, pending: false }
    } else {
        Tally { addr: tally.addr, pending: total == 1 }
    }
}

/// The label of a lexing step as the first pass reports it: the
/// characters as they are written in the source, without the colon of
/// a definition.
pub open spec fn label_lexeme(text: Seq<char>, step: Scan) -> Lexeme {
    match step.token {
        Some(lexeme) if lexeme.kind == TokenType::LblDef => Lexeme {
            kind: TokenType::LblDef,
            value: Payload::Text(text.subrange(step.start, step.end - 1)),
        },
        _ => Lexeme {
            kind: TokenType::Label,
            value: Payload::Text(text.subrange(step.start, step.end)),
        },
    }
}

/// One step of the first pass: the token it reports, where it stands
/// afterwards, and the bookkeeping at that point. Without a token the
/// step is a lexical error at `end`.
pub struct Survey {
    pub token: Option<Lexeme>,
    pub end: int,
    pub tally: Tally,
}

/// One step of the first pass from `pos`. Tokens are read and counted
/// until a label is found, the input ends or a token cannot be read. A
/// label definition is reported with the bookkeeping as it stands; a
/// label reference is counted first.
pub open spec fn survey(text: Seq<char>, pos: int, tally: Tally) -> Survey
    decreases text.len() - pos,
{
    let step = scan(text, pos);
    if 0 <= pos <= text.len() {
        match step.token {
            None => Survey { token: None, end: step.end, tally },
            Some(lexeme) => if lexeme.kind == TokenType::EndOfInput {
                Survey { token: Some(lexeme), end: step.end, tally }
            } else if lexeme.kind == TokenType::LblDef {
                Survey { token: Some(label_lexeme(text, step)), end: step.end, tally }
            } else if lexeme.kind == TokenType::Label {
                Survey {
                    token: Some(label_lexeme(text, step)),
                    end: step.end,
                    tally: tally_after(tally, 2),
                }
            } else {
                proof {
                    lemma_scan_bounds(text, pos);
                }
                survey(text, step.end, tally_after(tally, nibbles(text, step)))
            },
        }
    } else {
        Survey { token: None, end: pos, tally }
    }
}

/// A step of the first pass moves forward and stays within the source.
/// It reports a label or `EndOfInput`, and a label takes at least one
/// character.
pub proof fn lemma_survey_bounds(text: Seq<char>, pos: int, tally: Tally)
    requires
        0 <= pos <= text.len(),
    ensures
        pos <= survey(text, pos, tally).end <= text.len(),
        survey(text, pos, tally).token matches Some(lexeme) ==> {
            &&& lexeme.kind == TokenType::Label || lexeme.kind == TokenType::LblDef || lexeme.kind
                == TokenType::EndOfInput
            &&& lexeme.kind != TokenType::EndOfInput ==> pos < survey(text, pos, tally).end
        },
    decreases text.len() - pos,
{
    let step = scan(text, pos);
    lemma_scan_bounds(text, pos);
    if let Some(lexeme) = step.token {
        if lexeme.kind != TokenType::EndOfInput && lexeme.kind != TokenType::LblDef && lexeme.kind
            != TokenType::Label {
            lemma_survey_bounds(text, step.end, tally_after(tally, nibbles(text, step)));
        }
    }
}

/// If a step of the first pass reports a token and every token after
/// it can be read, then every token from the start of the step on can
/// be read: the step itself skips none that cannot.
pub proof fn lemma_survey_lexes(text: Seq<char>, pos: int, tally: Tally)
    requires
        0 <= pos <= text.len(),
        survey(text, pos, tally).token matches Some(lexeme) && (lexeme.kind
            == TokenType::EndOfInput || lexes(text, survey(text, pos, tally).end)),
    ensures
        lexes(text, pos),
    decreases text.len() - pos,
{
    let step = scan(text, pos);
    lemma_scan_bounds(text, pos);
    let lexeme = step.token->0;
    if lexeme.kind != TokenType::EndOfInput && lexeme.kind != TokenType::LblDef && lexeme.kind
        != TokenType::Label {
        lemma_survey_lexes(text, step.end, tally_after(tally, nibbles(text, step)));
    }
}

} // verus!
