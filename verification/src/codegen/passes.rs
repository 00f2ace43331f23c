//! What the first pass does for the second.
//!
//! Both passes read the same tokens. A source that the first pass has
//! walked to its end holds no character that the lexer cannot read, so
//! the second pass never fails with a lexical error.

use super::mnemonic::Mnemonic;
use super::preprocessor::{collect, label_table, start_tally};
use super::syntax::{
    add_operands, add_source, address, binary_operands, constant, draw_operands, eat, first,
    general, instruction, item, jump_operand, label, lemma_item_follows, mov_operands, mov_source,
    operands, program, rand_operands, read, register, skip_operands, skip_source, skiptype,
    unary_operand, valid, Cursor,
};
use crate::error::fault::Fault;
use crate::lex::address::{lemma_survey_bounds, lemma_survey_lexes, survey, Tally};
use crate::lex::chars::upper_seq;
use crate::lex::grammar::{lemma_lexes_on, lemma_scan_bounds, lexes};
use crate::lex::token_type::TokenType;
use vstd::prelude::*;

verus! {

/// Where the first pass collects the labels without an error, every
/// token can be read.
pub proof fn lemma_collected_lexes(
    text: Seq<char>,
    pos: int,
    tally: Tally,
    entries: Seq<(Seq<char>, u16)>,
)
    requires
        0 <= pos <= text.len(),
        collect(text, pos, tally, entries) is Ok,
    ensures
        lexes(text, pos),
    decreases text.len() - pos,
{
    let found = survey(text, pos, tally);
    lemma_survey_bounds(text, pos, tally);
    let lexeme = found.token->0;
    if lexeme.kind == TokenType::LblDef {
        lemma_collected_lexes(
            text,
            found.end,
            found.tally,
            entries.push((upper_seq(lexeme.value.text()), found.tally.addr)),
        );
    } else if lexeme.kind == TokenType::Label {
        lemma_collected_lexes(text, found.end, found.tally, entries);
    }
    lemma_survey_lexes(text, pos, tally);
}

/// The outcome of a rule is free of lexical errors: the rule did not
/// fail with one, and after what it parsed every token can be read.
pub open spec fn reads<T>(text: Seq<char>, outcome: Result<(T, Cursor), Fault>) -> bool {
    match outcome {
        Ok((_, next)) => lexes(text, next.pos),
        Err(fault) => !(fault is Lexer),
    }
}

/// Where every token can be read, reading the next token succeeds.
proof fn lemma_read_reads(text: Seq<char>, c: Cursor)
    requires
        lexes(text, c.pos),
    ensures
        read(text, c.pos) matches Ok(next) && lexes(text, next.pos),
        forall|kind: TokenType|
            (#[trigger] eat(text, c, kind) matches Ok(next) ==> lexes(text, next.pos)) && (eat(
                text,
                c,
                kind,
            ) matches Err(fault) ==> !(fault is Lexer)),
{
    lemma_lexes_on(text, c.pos);
}

/// Where every token can be read, the operand rules of one token are
/// free of lexical errors.
proof fn lemma_operand_reads(text: Seq<char>, table: Map<Seq<char>, u16>, c: Cursor, m: Mnemonic)
    requires
        lexes(text, c.pos),
    ensures
        reads(text, register(text, c)),
        reads(text, general(text, c, m)),
        reads(text, constant(text, c)),
        reads(text, label(text, table, c)),
        reads(text, address(text, table, c)),
        reads(text, skiptype(text, c)),
        reads(text, jump_operand(text, table, c, m)),
        reads(text, unary_operand(text, c, m)),
{
    lemma_read_reads(text, c);
}

/// Where every token can be read, the rules of two registers, of
/// `RAND` and of `DRAW` are free of lexical errors.
proof fn lemma_registers_read(text: Seq<char>, table: Map<Seq<char>, u16>, c: Cursor, m: Mnemonic)
    requires
        lexes(text, c.pos),
    ensures
        reads(text, binary_operands(text, c, m)),
        reads(text, rand_operands(text, c)),
        reads(text, draw_operands(text, c)),
{
    lemma_three_read(text, table, c, m);
    lemma_three_read(text, table, c, Mnemonic::RAND);
    lemma_three_read(text, table, c, Mnemonic::DRAW);
    if let Ok((_, c1)) = general(text, c, Mnemonic::DRAW) {
        if let Ok(c2) = eat(text, c1, TokenType::Comma) {
            if let Ok((_, c3)) = general(text, c2, Mnemonic::DRAW) {
                lemma_read_reads(text, c3);
                if let Ok(c4) = eat(text, c3, TokenType::Comma) {
                    lemma_operand_reads(text, table, c4, Mnemonic::DRAW);
                }
            }
        }
    }
}

/// Where every token can be read, a general register, a comma and one
/// more operand are read without a lexical error.
proof fn lemma_three_read(text: Seq<char>, table: Map<Seq<char>, u16>, c: Cursor, m: Mnemonic)
    requires
        lexes(text, c.pos),
    ensures
        reads(text, general(text, c, m)),
        general(text, c, m) matches Ok((_, c1)) ==> {
            &&& eat(text, c1, TokenType::Comma) matches Err(fault) ==> !(fault is Lexer)
            &&& eat(text, c1, TokenType::Comma) matches Ok(c2) ==> {
                &&& lexes(text, c2.pos)
                &&& reads(text, general(text, c2, m))
                &&& reads(text, constant(text, c2))
            }
        },
{
    lemma_operand_reads(text, table, c, m);
    if let Ok((_, c1)) = general(text, c, m) {
        lemma_read_reads(text, c1);
        if let Ok(c2) = eat(text, c1, TokenType::Comma) {
            lemma_operand_reads(text, table, c2, m);
        }
    }
}

/// Where every token can be read, the rules of `ADD` and of `MOV` are
/// free of lexical errors.
proof fn lemma_add_mov_read(text: Seq<char>, table: Map<Seq<char>, u16>, c: Cursor)
    requires
        lexes(text, c.pos),
    ensures
        reads(text, add_operands(text, c)),
        reads(text, mov_operands(text, table, c)),
{
    lemma_operand_reads(text, table, c, Mnemonic::ADD);
    if let Ok((vx, c1)) = register(text, c) {
        lemma_read_reads(text, c1);
        if let Ok(c2) = eat(text, c1, TokenType::Comma) {
            lemma_operand_reads(text, table, c2, Mnemonic::ADD);
            lemma_operand_reads(text, table, c2, Mnemonic::MOV);
            assert(reads(text, add_source(text, c2, vx)));
            assert(reads(text, mov_source(text, table, c2, vx)));
        }
    }
}

/// Where every token can be read, the rule of `SKIP` is free of
/// lexical errors.
proof fn lemma_skip_reads(text: Seq<char>, table: Map<Seq<char>, u16>, c: Cursor)
    requires
        lexes(text, c.pos),
    ensures
        reads(text, skip_operands(text, c)),
{
    let m = Mnemonic::SKIP;
    lemma_read_reads(text, c);
    if let Ok(c1) = eat(text, c, TokenType::Period) {
        lemma_operand_reads(text, table, c1, m);
        if let Ok((kind, c2)) = skiptype(text, c1) {
            lemma_operand_reads(text, table, c2, m);
            if let Ok((vx, c3)) = general(text, c2, m) {
                lemma_read_reads(text, c3);
                lemma_operand_reads(text, table, c3, m);
                assert(reads(text, skip_source(text, c3, vx, kind)));
                if let Ok(c4) = eat(text, c3, TokenType::Comma) {
                    lemma_operand_reads(text, table, c4, m);
                    assert(reads(text, skip_source(text, c4, vx, kind)));
                }
            }
        }
    }
}

/// Where every token can be read, a step at top level is free of
/// lexical errors.
proof fn lemma_item_reads(text: Seq<char>, table: Map<Seq<char>, u16>, c: Cursor)
    requires
        lexes(text, c.pos),
    ensures
        reads(text, item(text, table, c)),
{
    reveal(item);
    reveal(instruction);
    reveal(operands);
    lemma_read_reads(text, c);
    let after = read(text, c.pos)->Ok_0;
    if let Some(m) = Mnemonic::of(c.token.value.text()) {
        lemma_operand_reads(text, table, after, m);
        lemma_registers_read(text, table, after, m);
        lemma_add_mov_read(text, table, after);
        lemma_skip_reads(text, table, after);
    }
}

/// Where every token can be read, the second pass does not fail with
/// a lexical error.
pub proof fn lemma_program_reads(text: Seq<char>, table: Map<Seq<char>, u16>, c: Cursor)
    requires
        valid(text, c),
        lexes(text, c.pos),
    ensures
        !(program(text, table, c).fault matches Some(fault) && fault is Lexer),
    decreases text.len() - c.pos, if c.token.kind == TokenType::EndOfInput { 0int } else { 1int },
{
    if c.token.kind != TokenType::EndOfInput {
        lemma_item_reads(text, table, c);
        lemma_item_follows(text, table, c);
        if let Ok((_, next)) = item(text, table, c) {
            lemma_program_reads(text, table, next);
        }
    }
}

/// A lexical error stops the assembly before the second pass starts: if
/// the first pass has built the address table of a source, the second
/// pass can read the first token and never fails with a lexical error.
pub proof fn lemma_second_pass_reads(text: Seq<char>)
    requires
        label_table(text) is Ok,
    ensures
        first(text) is Ok,
        !(program(text, label_table(text)->Ok_0, first(text)->Ok_0).fault matches Some(fault)
            && fault is Lexer),
{
    lemma_collected_lexes(text, 0, start_tally(), Seq::empty());
    lemma_lexes_on(text, 0);
    lemma_scan_bounds(text, 0);
    lemma_program_reads(text, label_table(text)->Ok_0, first(text)->Ok_0);
}

} // verus!
