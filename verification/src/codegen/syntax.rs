//! The grammar of the assembly language, as functions on the source.
//!
//! The parser holds one token of lookahead. A `Cursor` is that token
//! together with the position at which the lexer stands after it.
//! Every rule takes a cursor and gives what it parsed with the cursor
//! after it, or the first error; the assembler is proved to compute
//! exactly that.

use super::instruction::{
    AddData, DrawData, Instr, Item, MovData, RandData, Reg, SkipData, SkipType,
};
use super::mnemonic::Mnemonic;
use crate::error::fault::Fault;
use crate::lex::chars::digit_value;
use crate::lex::grammar::{clamp, column_at, lemma_scan_bounds, lexer_fault, line_at, scan};
use crate::lex::token::Lexeme;
use crate::lex::token_type::TokenType;
use vstd::prelude::*;

verus! {

/// The state of the parser within the source: the current token, and
/// the position at which the lexer stands, which is after that token.
pub struct Cursor {
    pub token: Lexeme,
    pub pos: int,
}

/// The cursor lies within the text.
pub open spec fn valid(text: Seq<char>, c: Cursor) -> bool {
    0 <= c.pos <= text.len()
}

/// The cursor `next` lies after `c`, at least one token further on.
pub open spec fn follows(c: Cursor, next: Cursor) -> bool {
    c.pos <= next.pos && (next.token.kind != TokenType::EndOfInput ==> c.pos < next.pos)
}

/// The cursor after the lexer has read one more token from `pos` on.
pub open spec fn read(text: Seq<char>, pos: int) -> Result<Cursor, Fault> {
    let step = scan(text, pos);
    match step.token {
        Some(token) => Ok(Cursor { token, pos: step.end }),
        None => Err(lexer_fault(text, step.end)),
    }
}

/// The cursor at the first token of the source.
pub open spec fn first(text: Seq<char>) -> Result<Cursor, Fault> {
    read(text, 0)
}

/// The error for a token of the wrong type: it carries the position at
/// which the lexer stands.
pub open spec fn parser_fault(text: Seq<char>, c: Cursor, expected: TokenType) -> Fault {
    Fault::Parser {
        expected,
        actual: c.token.kind,
        line: clamp(line_at(text, c.pos)),
        col: clamp(column_at(text, c.pos)),
    }
}

/// The error for a register that the instruction does not take.
pub open spec fn argument_fault(text: Seq<char>, c: Cursor, arg: Reg, m: Mnemonic) -> Fault {
    Fault::Argument {
        arg,
        instr: m.name(),
        line: clamp(line_at(text, c.pos)),
        col: clamp(column_at(text, c.pos)),
    }
}

/// The error for a skip condition that does not fit the operands.
pub open spec fn skip_fault(text: Seq<char>, c: Cursor, kind: SkipType) -> Fault {
    Fault::Skip { kind, line: clamp(line_at(text, c.pos)), col: clamp(column_at(text, c.pos)) }
}

/// The error for a mnemonic that names no instruction.
pub open spec fn opcode_fault(text: Seq<char>, c: Cursor, word: Seq<char>) -> Fault {
    Fault::Opcode {
        instr: word,
        line: clamp(line_at(text, c.pos)),
        col: clamp(column_at(text, c.pos)),
    }
}

/// The single primitive of the parser: if the current token has the
/// expected type, the next token is read; otherwise the token is an
/// error.
pub open spec fn eat(text: Seq<char>, c: Cursor, expected: TokenType) -> Result<Cursor, Fault> {
    if c.token.kind == expected {
        read(text, c.pos)
    } else {
        Err(parser_fault(text, c, expected))
    }
}

/// Where the parser stands after the primitive has failed. A token of
/// the wrong type is left where it is, and the lexer with it. If the
/// next token cannot be read, the current token stays and the lexer
/// stands at the character that it could not read.
pub open spec fn failed(text: Seq<char>, c: Cursor, expected: TokenType) -> Cursor {
    if c.token.kind == expected {
        Cursor { token: c.token, pos: scan(text, c.pos).end }
    } else {
        c
    }
}

/// The register that a register token names: `I`, or `V` and a
/// hexadecimal digit.
pub open spec fn register_of(name: Seq<char>) -> Reg {
    if name.len() >= 1 && name[0] == 'I' {
        Reg::I
    } else if name.len() >= 2 {
        Reg::general(digit_value(name[1]))
    } else {
        Reg::V0
    }
}

/// A register operand.
pub open spec fn register(text: Seq<char>, c: Cursor) -> Result<(Reg, Cursor), Fault> {
    match eat(text, c, TokenType::Register) {
        Ok(next) => Ok((register_of(c.token.value.text()), next)),
        Err(fault) => Err(fault),
    }
}

/// A general register operand of the instruction `m`: a register
/// operand that is not the index register.
pub open spec fn general(text: Seq<char>, c: Cursor, m: Mnemonic) -> Result<(Reg, Cursor), Fault> {
    match register(text, c) {
        Ok((reg, next)) => if reg == Reg::I {
            Err(argument_fault(text, next, reg, m))
        } else {
            Ok((reg, next))
        },
        Err(fault) => Err(fault),
    }
}

/// The type of literal that a constant operand is taken to be: the
/// type of the token if it is a decimal or a hex literal, and else a
/// binary literal.
pub open spec fn constant_type(c: Cursor) -> TokenType {
    if c.token.kind == TokenType::DecLit || c.token.kind == TokenType::HexLit {
        c.token.kind
    } else {
        TokenType::BinLit
    }
}

/// A constant operand: a decimal, hex or binary literal. Any other
/// token is reported as found in place of a binary literal.
pub open spec fn constant(text: Seq<char>, c: Cursor) -> Result<(u16, Cursor), Fault> {
    let expected = constant_type(c);
    match eat(text, c, expected) {
        Ok(next) => Ok((c.token.value.number(), next)),
        Err(fault) => Err(fault),
    }
}

/// A label operand: the address that the table holds for the label.
/// A label that the table does not hold is an error.
pub open spec fn label(text: Seq<char>, table: Map<Seq<char>, u16>, c: Cursor) -> Result<
    (u16, Cursor),
    Fault,
> {
    let name = c.token.value.text();
    match eat(text, c, TokenType::Label) {
        Ok(next) => if table.contains_key(name) {
            Ok((table[name], next))
        } else {
            Err(Fault::Address { label: name })
        },
        Err(fault) => Err(fault),
    }
}

/// An address operand: a label or a constant.
pub open spec fn address(text: Seq<char>, table: Map<Seq<char>, u16>, c: Cursor) -> Result<
    (u16, Cursor),
    Fault,
> {
    if c.token.kind == TokenType::Label {
        label(text, table, c)
    } else {
        constant(text, c)
    }
}

/// Whether the token is one of the two short names of a key
/// condition, `KD` and `KU`, which the lexer reads as symbols.
pub open spec fn is_key_word(token: Lexeme) -> bool {
    token.kind == TokenType::Instruction && (token.value.text() == "KD"@ || token.value.text()
        == "KU"@)
}

/// The condition that a word names: `EQ` and `NE` compare, `KEY` or
/// `KD` asks for a key that is down, `NOKEY` or `KU` for one that is
/// up.
pub open spec fn skip_type_of(word: Seq<char>) -> SkipType {
    if word == "EQ"@ {
        SkipType::Equals
    } else if word == "NE"@ {
        SkipType::NotEquals
    } else if word == "KEY"@ || word == "KD"@ {
        SkipType::KeyDown
    } else {
        SkipType::KeyUp
    }
}

/// A skip condition: a skip condition token, or one of the two short
/// names of a key condition.
pub open spec fn skiptype(text: Seq<char>, c: Cursor) -> Result<(SkipType, Cursor), Fault> {
    let next = if is_key_word(c.token) {
        read(text, c.pos)
    } else {
        eat(text, c, TokenType::SkipCond)
    };
    match next {
        Ok(next) => Ok((skip_type_of(c.token.value.text()), next)),
        Err(fault) => Err(fault),
    }
}

/// The operand of a jump: an address.
pub open spec fn jump_operand(text: Seq<char>, table: Map<Seq<char>, u16>, c: Cursor, m: Mnemonic)
    -> Result<(Instr, Cursor), Fault> {
    match address(text, table, c) {
        Ok((addr, next)) => Ok((m.jump(addr), next)),
        Err(fault) => Err(fault),
    }
}

/// The operand of an instruction on one register: a general register.
pub open spec fn unary_operand(text: Seq<char>, c: Cursor, m: Mnemonic) -> Result<
    (Instr, Cursor),
    Fault,
> {
    match general(text, c, m) {
        Ok((vx, next)) => Ok((m.unary(vx), next)),
        Err(fault) => Err(fault),
    }
}

/// The operands of an instruction on two registers: a general
/// register, a comma and a general register.
pub open spec fn binary_operands(text: Seq<char>, c: Cursor, m: Mnemonic) -> Result<
    (Instr, Cursor),
    Fault,
> {
    match general(text, c, m) {
        Ok((vx, c1)) => match eat(text, c1, TokenType::Comma) {
            Ok(c2) => match general(text, c2, m) {
                Ok((vy, next)) => Ok((m.binary(vx, vy), next)),
                Err(fault) => Err(fault),
            },
            Err(fault) => Err(fault),
        },
        Err(fault) => Err(fault),
    }
}

/// The operands of `RAND`: a general register, a comma and a constant,
/// of which the low eight bits are kept.
pub open spec fn rand_operands(text: Seq<char>, c: Cursor) -> Result<(Instr, Cursor), Fault> {
    match general(text, c, Mnemonic::RAND) {
        Ok((vx, c1)) => match eat(text, c1, TokenType::Comma) {
            Ok(c2) => match constant(text, c2) {
                Ok((value, next)) => Ok(
                    (Instr::RAND(RandData { vx, nn: (value % 0x100) as u8 }), next),
                ),
                Err(fault) => Err(fault),
            },
            Err(fault) => Err(fault),
        },
        Err(fault) => Err(fault),
    }
}

/// The operands of `DRAW`: two general registers and a constant,
/// separated by commas; of the constant the low four bits are kept.
pub open spec fn draw_operands(text: Seq<char>, c: Cursor) -> Result<(Instr, Cursor), Fault> {
    match general(text, c, Mnemonic::DRAW) {
        Ok((vx, c1)) => match eat(text, c1, TokenType::Comma) {
            Ok(c2) => match general(text, c2, Mnemonic::DRAW) {
                Ok((vy, c3)) => match eat(text, c3, TokenType::Comma) {
                    Ok(c4) => match constant(text, c4) {
                        Ok((value, next)) => Ok(
                            (Instr::DRAW(DrawData { vx, vy, h: (value % 0x10) as u8 }), next),
                        ),
                        Err(fault) => Err(fault),
                    },
                    Err(fault) => Err(fault),
                },
                Err(fault) => Err(fault),
            },
            Err(fault) => Err(fault),
        },
        Err(fault) => Err(fault),
    }
}

/// The second operand of `ADD`, after the first register `vx` and the
/// comma: a general register, or a constant if `vx` is a general
/// register. The constant is read before `vx` is checked.
pub open spec fn add_source(text: Seq<char>, c: Cursor, vx: Reg) -> Result<(Instr, Cursor), Fault> {
    if c.token.kind == TokenType::Register {
        match general(text, c, Mnemonic::ADD) {
            Ok((vy, next)) => Ok((Instr::ADD(AddData::Register { first: vx, second: vy }), next)),
            Err(fault) => Err(fault),
        }
    } else {
        match constant(text, c) {
            Ok((value, next)) => if vx == Reg::I {
                Err(argument_fault(text, next, vx, Mnemonic::ADD))
            } else {
                Ok((Instr::ADD(AddData::Constant { first: vx, value }), next))
            },
            Err(fault) => Err(fault),
        }
    }
}

/// The operands of `ADD`: a register, a comma and the second operand.
pub open spec fn add_operands(text: Seq<char>, c: Cursor) -> Result<(Instr, Cursor), Fault> {
    match register(text, c) {
        Ok((vx, c1)) => match eat(text, c1, TokenType::Comma) {
            Ok(c2) => add_source(text, c2, vx),
            Err(fault) => Err(fault),
        },
        Err(fault) => Err(fault),
    }
}

/// The second operand of `MOV`, after the destination `vx` and the
/// comma. A register is copied between general registers only. A label
/// goes to the index register only. A constant goes to any register.
/// The destination is checked before the second operand is read.
pub open spec fn mov_source(
    text: Seq<char>,
    table: Map<Seq<char>, u16>,
    c: Cursor,
    vx: Reg,
) -> Result<(Instr, Cursor), Fault> {
    if c.token.kind == TokenType::Register {
        if vx == Reg::I {
            Err(argument_fault(text, c, vx, Mnemonic::MOV))
        } else {
            match general(text, c, Mnemonic::MOV) {
                Ok((vy, next)) => Ok((Instr::MOV(MovData::Register { dest: vx, src: vy }), next)),
                Err(fault) => Err(fault),
            }
        }
    } else if c.token.kind == TokenType::Label {
        if vx != Reg::I {
            Err(argument_fault(text, c, vx, Mnemonic::MOV))
        } else {
            match label(text, table, c) {
                Ok((addr, next)) => Ok(
                    (Instr::MOV(MovData::Constant { dest: vx, value: addr }), next),
                ),
                Err(fault) => Err(fault),
            }
        }
    } else {
        match constant(text, c) {
            Ok((value, next)) => Ok((Instr::MOV(MovData::Constant { dest: vx, value }), next)),
            Err(fault) => Err(fault),
        }
    }
}

/// The operands of `MOV`: a register, a comma and the second operand.
pub open spec fn mov_operands(text: Seq<char>, table: Map<Seq<char>, u16>, c: Cursor) -> Result<
    (Instr, Cursor),
    Fault,
> {
    match register(text, c) {
        Ok((vx, c1)) => match eat(text, c1, TokenType::Comma) {
            Ok(c2) => mov_source(text, table, c2, vx),
            Err(fault) => Err(fault),
        },
        Err(fault) => Err(fault),
    }
}

/// What follows the first register `vx` of a `SKIP` with the condition
/// `kind`, and the comma of a comparison. A comparison takes a general
/// register or a constant, of which the low eight bits are kept; a key
/// test takes nothing. An operand after a key test, with or without a
/// comma before it, and a comparison without an operand are errors
/// about the condition.
pub open spec fn skip_source(text: Seq<char>, c: Cursor, vx: Reg, kind: SkipType) -> Result<
    (Instr, Cursor),
    Fault,
> {
    if c.token.kind == TokenType::Register {
        match general(text, c, Mnemonic::SKIP) {
            Ok((vy, next)) => if kind.is_key() {
                Err(skip_fault(text, next, kind))
            } else {
                Ok((Instr::SKIP(SkipData::Register { vx, vy, kind }), next))
            },
            Err(fault) => Err(fault),
        }
    } else if c.token.kind.is_literal() {
        match constant(text, c) {
            Ok((value, next)) => if kind.is_key() {
                Err(skip_fault(text, next, kind))
            } else {
                Ok((Instr::SKIP(SkipData::Constant { vx, nn: (value % 0x100) as u8, kind }), next))
            },
            Err(fault) => Err(fault),
        }
    } else if kind.is_key() && c.token.kind != TokenType::Comma {
        Ok((Instr::SKIP(SkipData::Key { vx, kind }), c))
    } else {
        Err(skip_fault(text, c, kind))
    }
}

/// The operands of `SKIP`: a period, a condition and a general
/// register; for a comparison a comma follows; then what `skip_source`
/// says.
pub open spec fn skip_operands(text: Seq<char>, c: Cursor) -> Result<(Instr, Cursor), Fault> {
    match eat(text, c, TokenType::Period) {
        Ok(c1) => match skiptype(text, c1) {
            Ok((kind, c2)) => match general(text, c2, Mnemonic::SKIP) {
                Ok((vx, c3)) => if kind.is_key() {
                    skip_source(text, c3, vx, kind)
                } else {
                    match eat(text, c3, TokenType::Comma) {
                        Ok(c4) => skip_source(text, c4, vx, kind),
                        Err(fault) => Err(fault),
                    }
                },
                Err(fault) => Err(fault),
            },
            Err(fault) => Err(fault),
        },
        Err(fault) => Err(fault),
    }
}

/// The operands of the instruction `m`, from the token after the
/// mnemonic on.
#[verifier::opaque]
pub open spec fn operands(text: Seq<char>, table: Map<Seq<char>, u16>, c: Cursor, m: Mnemonic)
    -> Result<(Instr, Cursor), Fault> {
    if m == Mnemonic::CLS {
        Ok((Instr::CLS, c))
    } else if m == Mnemonic::RET {
        Ok((Instr::RET, c))
    } else if m.is_jump() {
        jump_operand(text, table, c, m)
    } else if m == Mnemonic::SKIP {
        skip_operands(text, c)
    } else if m == Mnemonic::MOV {
        mov_operands(text, table, c)
    } else if m == Mnemonic::ADD {
        add_operands(text, c)
    } else if m == Mnemonic::RAND {
        rand_operands(text, c)
    } else if m == Mnemonic::DRAW {
        draw_operands(text, c)
    } else if m.is_binary() {
        binary_operands(text, c, m)
    } else {
        unary_operand(text, c, m)
    }
}

/// Whether the token stands for a mnemonic. A symbol does unless it is
/// a skip condition; of the condition words, `KEY` is a mnemonic too.
pub open spec fn is_mnemonic(token: Lexeme) -> bool {
    token.kind == TokenType::Instruction || (token.kind == TokenType::SkipCond
        && token.value.text() == "KEY"@)
}

/// One instruction: a mnemonic and its operands. Any other token is
/// reported as found in place of an instruction; a mnemonic that names
/// no instruction is an error once the token after it has been read.
#[verifier::opaque]
pub open spec fn instruction(text: Seq<char>, table: Map<Seq<char>, u16>, c: Cursor) -> Result<
    (Instr, Cursor),
    Fault,
> {
    let word = c.token.value.text();
    if is_mnemonic(c.token) {
        match read(text, c.pos) {
            Ok(next) => match Mnemonic::of(word) {
                Some(m) => operands(text, table, next, m),
                None => Err(opcode_fault(text, next, word)),
            },
            Err(fault) => Err(fault),
        }
    } else {
        Err(parser_fault(text, c, TokenType::Instruction))
    }
}

/// The data item that a literal at top level stands for: a byte for a
/// binary literal and for a value of at most eight bits, a word for a
/// larger one.
pub open spec fn data_item(token: Lexeme) -> Item {
    let value = token.value.number();
    if token.kind == TokenType::BinLit || value <= 0xFF {
        Item::Byte((value % 0x100) as u8)
    } else {
        Item::Word(value)
    }
}

/// One step at top level, from a token other than `EndOfInput`: an
/// instruction, a literal as data, or a label definition, which gives
/// no item. Any other token is reported as found in place of an
/// instruction.
#[verifier::opaque]
pub open spec fn item(text: Seq<char>, table: Map<Seq<char>, u16>, c: Cursor) -> Result<
    (Option<Item>, Cursor),
    Fault,
> {
    if c.token.kind.is_literal() {
        match read(text, c.pos) {
            Ok(next) => Ok((Some(data_item(c.token)), next)),
            Err(fault) => Err(fault),
        }
    } else if c.token.kind == TokenType::LblDef {
        match read(text, c.pos) {
            Ok(next) => Ok((None, next)),
            Err(fault) => Err(fault),
        }
    } else {
        match instruction(text, table, c) {
            Ok((instr, next)) => Ok((Some(Item::Instruction(instr)), next)),
            Err(fault) => Err(fault),
        }
    }
}

/// What parsing a source gives: the items up to the end of the source
/// or up to the first error, and that error if there is one.
pub struct Run {
    pub items: Seq<Item>,
    pub fault: Option<Fault>,
}

/// The items of the source from the cursor on, in order, up to the end
/// of the source or up to the first error.
pub open spec fn program(text: Seq<char>, table: Map<Seq<char>, u16>, c: Cursor) -> Run
    decreases text.len() - c.pos, if c.token.kind == TokenType::EndOfInput { 0int } else { 1int },
{
    if c.token.kind == TokenType::EndOfInput || !valid(text, c) {
        Run { items: Seq::empty(), fault: None }
    } else {
        match item(text, table, c) {
            Ok((found, next)) => {
                proof {
                    lemma_item_follows(text, table, c);
                }
                let rest = program(text, table, next);
                match found {
                    Some(it) => Run { items: seq![it] + rest.items, fault: rest.fault },
                    None => rest,
                }
            },
            Err(fault) => Run { items: Seq::empty(), fault: Some(fault) },
        }
    }
}

/// Reading a token moves the cursor on.
pub proof fn lemma_read_follows(text: Seq<char>, c: Cursor)
    requires
        valid(text, c),
    ensures
        read(text, c.pos) matches Ok(next) ==> valid(text, next) && follows(c, next),
{
    lemma_scan_bounds(text, c.pos);
}

/// An operand rule that succeeds leaves the cursor within the text, at
/// least one token further on.
pub proof fn lemma_operand_follows(
    text: Seq<char>,
    table: Map<Seq<char>, u16>,
    c: Cursor,
    m: Mnemonic,
)
    requires
        valid(text, c),
    ensures
        forall|kind: TokenType|
            #[trigger] eat(text, c, kind) matches Ok(next) ==> valid(text, next) && follows(
                c,
                next,
            ),
        register(text, c) matches Ok((_, next)) ==> valid(text, next) && follows(c, next),
        general(text, c, m) matches Ok((_, next)) ==> valid(text, next) && follows(c, next),
        constant(text, c) matches Ok((_, next)) ==> valid(text, next) && follows(c, next),
        label(text, table, c) matches Ok((_, next)) ==> valid(text, next) && follows(c, next),
        address(text, table, c) matches Ok((_, next)) ==> valid(text, next) && follows(c, next),
        skiptype(text, c) matches Ok((_, next)) ==> valid(text, next) && follows(c, next),
{
    lemma_read_follows(text, c);
}

/// The operands of a jump, of an instruction on one register or of one
/// on two, once parsed, leave the cursor further on.
proof fn lemma_plain_follows(text: Seq<char>, table: Map<Seq<char>, u16>, c: Cursor, m: Mnemonic)
    requires
        valid(text, c),
    ensures
        jump_operand(text, table, c, m) matches Ok((_, next)) ==> valid(text, next) && follows(
            c,
            next,
        ),
        unary_operand(text, c, m) matches Ok((_, next)) ==> valid(text, next) && follows(c, next),
        binary_operands(text, c, m) matches Ok((_, next)) ==> valid(text, next) && follows(c, next),
{
    lemma_operand_follows(text, table, c, m);
    if let Ok((_, c1)) = general(text, c, m) {
        lemma_operand_follows(text, table, c1, m);
        if let Ok(c2) = eat(text, c1, TokenType::Comma) {
            lemma_operand_follows(text, table, c2, m);
        }
    }
}

/// The operands of `RAND` and of `DRAW`, once parsed, leave the cursor
/// further on.
proof fn lemma_rand_draw_follows(text: Seq<char>, table: Map<Seq<char>, u16>, c: Cursor)
    requires
        valid(text, c),
    ensures
        rand_operands(text, c) matches Ok((_, next)) ==> valid(text, next) && follows(c, next),
        draw_operands(text, c) matches Ok((_, next)) ==> valid(text, next) && follows(c, next),
{
    lemma_operand_follows(text, table, c, Mnemonic::RAND);
    if let Ok((_, c1)) = general(text, c, Mnemonic::RAND) {
        lemma_operand_follows(text, table, c1, Mnemonic::RAND);
        if let Ok(c2) = eat(text, c1, TokenType::Comma) {
            lemma_operand_follows(text, table, c2, Mnemonic::RAND);
        }
    }
    lemma_operand_follows(text, table, c, Mnemonic::DRAW);
    if let Ok((_, c1)) = general(text, c, Mnemonic::DRAW) {
        lemma_operand_follows(text, table, c1, Mnemonic::DRAW);
        if let Ok(c2) = eat(text, c1, TokenType::Comma) {
            lemma_operand_follows(text, table, c2, Mnemonic::DRAW);
            if let Ok((_, c3)) = general(text, c2, Mnemonic::DRAW) {
                lemma_operand_follows(text, table, c3, Mnemonic::DRAW);
                if let Ok(c4) = eat(text, c3, TokenType::Comma) {
                    lemma_operand_follows(text, table, c4, Mnemonic::DRAW);
                }
            }
        }
    }
}

/// The operands of `ADD` and of `MOV`, once parsed, leave the cursor
/// further on.
proof fn lemma_add_mov_follows(text: Seq<char>, table: Map<Seq<char>, u16>, c: Cursor)
    requires
        valid(text, c),
    ensures
        add_operands(text, c) matches Ok((_, next)) ==> valid(text, next) && follows(c, next),
        mov_operands(text, table, c) matches Ok((_, next)) ==> valid(text, next) && follows(
            c,
            next,
        ),
{
    lemma_operand_follows(text, table, c, Mnemonic::ADD);
    if let Ok((_, c1)) = register(text, c) {
        lemma_operand_follows(text, table, c1, Mnemonic::ADD);
        if let Ok(c2) = eat(text, c1, TokenType::Comma) {
            lemma_operand_follows(text, table, c2, Mnemonic::ADD);
            lemma_operand_follows(text, table, c2, Mnemonic::MOV);
        }
    }
}

/// The operands of `SKIP`, once parsed, leave the cursor further on.
proof fn lemma_skip_follows(text: Seq<char>, table: Map<Seq<char>, u16>, c: Cursor)
    requires
        valid(text, c),
    ensures
        skip_operands(text, c) matches Ok((_, next)) ==> valid(text, next) && follows(c, next),
{
    let m = Mnemonic::SKIP;
    lemma_operand_follows(text, table, c, m);
    if let Ok(c1) = eat(text, c, TokenType::Period) {
        lemma_operand_follows(text, table, c1, m);
        if let Ok((kind, c2)) = skiptype(text, c1) {
            lemma_operand_follows(text, table, c2, m);
            if let Ok((vx, c3)) = general(text, c2, m) {
                lemma_operand_follows(text, table, c3, m);
                if let Ok(c4) = eat(text, c3, TokenType::Comma) {
                    lemma_operand_follows(text, table, c4, m);
                }
            }
        }
    }
}

/// The operands of an instruction, once parsed, leave the cursor where
/// it is or further on.
pub proof fn lemma_operands_follow(
    text: Seq<char>,
    table: Map<Seq<char>, u16>,
    c: Cursor,
    m: Mnemonic,
)
    requires
        valid(text, c),
    ensures
        operands(text, table, c, m) matches Ok((_, next)) ==> valid(text, next) && (next == c
            || follows(c, next)),
{
    reveal(operands);
    lemma_plain_follows(text, table, c, m);
    lemma_rand_draw_follows(text, table, c);
    lemma_add_mov_follows(text, table, c);
    lemma_skip_follows(text, table, c);
}

/// An instruction, once parsed, leaves the cursor within the text, at
/// least one token further on.
pub proof fn lemma_instruction_follows(text: Seq<char>, table: Map<Seq<char>, u16>, c: Cursor)
    requires
        valid(text, c),
    ensures
        instruction(text, table, c) matches Ok((_, next)) ==> valid(text, next) && follows(
            c,
            next,
        ),
{
    reveal(instruction);
    lemma_read_follows(text, c);
    if let Ok(c1) = read(text, c.pos) {
        if let Some(m) = Mnemonic::of(c.token.value.text()) {
            lemma_operands_follow(text, table, c1, m);
        }
    }
}

/// A step at top level, once parsed, leaves the cursor within the
/// text, at least one token further on.
pub proof fn lemma_item_follows(text: Seq<char>, table: Map<Seq<char>, u16>, c: Cursor)
    requires
        valid(text, c),
    ensures
        item(text, table, c) matches Ok((_, next)) ==> valid(text, next) && follows(c, next),
{
    reveal(item);
    lemma_read_follows(text, c);
    lemma_instruction_follows(text, table, c);
}

/// A general register that the grammar accepts is not the index
/// register.
pub proof fn lemma_general_is_general(text: Seq<char>, c: Cursor, m: Mnemonic)
    ensures
        general(text, c, m) matches Ok((reg, _)) ==> reg != Reg::I,
{
}

/// An instruction on registers alone that the grammar accepts is legal.
proof fn lemma_plain_legal(text: Seq<char>, table: Map<Seq<char>, u16>, c: Cursor, m: Mnemonic)
    ensures
        jump_operand(text, table, c, m) matches Ok((instr, _)) ==> instr.legal(),
        unary_operand(text, c, m) matches Ok((instr, _)) ==> instr.legal(),
        binary_operands(text, c, m) matches Ok((instr, _)) ==> instr.legal(),
{
    lemma_general_is_general(text, c, m);
    if let Ok((_, c1)) = general(text, c, m) {
        if let Ok(c2) = eat(text, c1, TokenType::Comma) {
            lemma_general_is_general(text, c2, m);
        }
    }
}

/// A `RAND` and a `DRAW` that the grammar accepts are legal.
proof fn lemma_rand_draw_legal(text: Seq<char>, c: Cursor)
    ensures
        rand_operands(text, c) matches Ok((instr, _)) ==> instr.legal(),
        draw_operands(text, c) matches Ok((instr, _)) ==> instr.legal(),
{
    lemma_general_is_general(text, c, Mnemonic::RAND);
    lemma_general_is_general(text, c, Mnemonic::DRAW);
    if let Ok((_, c1)) = general(text, c, Mnemonic::DRAW) {
        if let Ok(c2) = eat(text, c1, TokenType::Comma) {
            lemma_general_is_general(text, c2, Mnemonic::DRAW);
        }
    }
}

/// An `ADD` and a `MOV` that the grammar accepts are legal.
proof fn lemma_add_mov_legal(text: Seq<char>, table: Map<Seq<char>, u16>, c: Cursor)
    ensures
        add_operands(text, c) matches Ok((instr, _)) ==> instr.legal(),
        mov_operands(text, table, c) matches Ok((instr, _)) ==> instr.legal(),
{
    if let Ok((vx, c1)) = register(text, c) {
        if let Ok(c2) = eat(text, c1, TokenType::Comma) {
            lemma_general_is_general(text, c2, Mnemonic::ADD);
            lemma_general_is_general(text, c2, Mnemonic::MOV);
        }
    }
}

/// What the grammar accepts after the first register of a `SKIP` is
/// legal, if that register is a general register.
proof fn lemma_skip_source_legal(text: Seq<char>, c: Cursor, vx: Reg, kind: SkipType)
    requires
        vx != Reg::I,
    ensures
        skip_source(text, c, vx, kind) matches Ok((instr, _)) ==> instr.legal(),
{
    lemma_general_is_general(text, c, Mnemonic::SKIP);
}

/// A `SKIP` that the grammar accepts is legal.
proof fn lemma_skip_legal(text: Seq<char>, c: Cursor)
    ensures
        skip_operands(text, c) matches Ok((instr, _)) ==> instr.legal(),
{
    if let Ok(c1) = eat(text, c, TokenType::Period) {
        if let Ok((kind, c2)) = skiptype(text, c1) {
            lemma_general_is_general(text, c2, Mnemonic::SKIP);
            if let Ok((vx, c3)) = general(text, c2, Mnemonic::SKIP) {
                lemma_skip_source_legal(text, c3, vx, kind);
                if let Ok(c4) = eat(text, c3, TokenType::Comma) {
                    lemma_skip_source_legal(text, c4, vx, kind);
                }
            }
        }
    }
}

/// Operands that the grammar accepts are legal: no rule lets the
/// index register stand where an instruction takes a general register,
/// and none pairs a condition with operands that do not fit it.
pub proof fn lemma_operands_legal(
    text: Seq<char>,
    table: Map<Seq<char>, u16>,
    c: Cursor,
    m: Mnemonic,
)
    ensures
        operands(text, table, c, m) matches Ok((instr, _)) ==> instr.legal(),
{
    reveal(operands);
    lemma_plain_legal(text, table, c, m);
    lemma_rand_draw_legal(text, c);
    lemma_add_mov_legal(text, table, c);
    lemma_skip_legal(text, c);
}

/// An instruction that the grammar accepts is legal.
pub proof fn lemma_instruction_legal(text: Seq<char>, table: Map<Seq<char>, u16>, c: Cursor)
    ensures
        instruction(text, table, c) matches Ok((instr, _)) ==> instr.legal(),
{
    reveal(instruction);
    if let Ok(next) = read(text, c.pos) {
        if let Some(m) = Mnemonic::of(c.token.value.text()) {
            lemma_operands_legal(text, table, next, m);
        }
    }
}

/// An item that the grammar accepts is legal.
pub proof fn lemma_item_legal(text: Seq<char>, table: Map<Seq<char>, u16>, c: Cursor)
    ensures
        item(text, table, c) matches Ok((Some(found), _)) ==> found.legal(),
{
    reveal(item);
    lemma_instruction_legal(text, table, c);
}

/// Whether the error is one of the grammar: a character that the
/// lexer cannot read, a token of the wrong type, a register or a skip
/// condition that the instruction does not take, or a label without an
/// address.
pub open spec fn of_grammar(fault: Fault) -> bool {
    fault is Lexer || fault is Parser || fault is Argument || fault is Skip || fault is Address
}

/// The rule of `SKIP` fails only with an error of the grammar.
proof fn lemma_skip_faults(text: Seq<char>, c: Cursor)
    ensures
        skip_operands(text, c) matches Err(fault) ==> of_grammar(fault),
{
}

/// The rule of `DRAW` fails only with an error of the grammar.
proof fn lemma_draw_faults(text: Seq<char>, c: Cursor)
    ensures
        draw_operands(text, c) matches Err(fault) ==> of_grammar(fault),
{
}

/// The operand rules fail only with an error of the grammar.
pub proof fn lemma_operands_faults(
    text: Seq<char>,
    table: Map<Seq<char>, u16>,
    c: Cursor,
    m: Mnemonic,
)
    ensures
        operands(text, table, c, m) matches Err(fault) ==> of_grammar(fault),
{
    reveal(operands);
    if m == Mnemonic::SKIP {
        lemma_skip_faults(text, c);
    } else if m == Mnemonic::DRAW {
        lemma_draw_faults(text, c);
    }
}

/// The parser fails on an instruction with an error of the grammar, or
/// with the error for an unknown mnemonic; with that one exactly if
/// the word is no mnemonic of the fixed set and the token after it
/// can be read.
pub proof fn lemma_instruction_faults(text: Seq<char>, table: Map<Seq<char>, u16>, c: Cursor)
    ensures
        instruction(text, table, c) matches Err(fault) ==> of_grammar(fault) || fault is Opcode,
        (instruction(text, table, c) matches Err(fault) && fault is Opcode) <==> (is_mnemonic(
            c.token,
        ) && read(text, c.pos) is Ok && Mnemonic::of(c.token.value.text()) is None),
{
    reveal(instruction);
    if let Ok(after) = read(text, c.pos) {
        if let Some(m) = Mnemonic::of(c.token.value.text()) {
            lemma_operands_faults(text, table, after, m);
        }
    }
}

/// A step at top level fails with an error of the grammar or with the
/// error for an unknown mnemonic.
pub proof fn lemma_item_faults(text: Seq<char>, table: Map<Seq<char>, u16>, c: Cursor)
    ensures
        item(text, table, c) matches Err(fault) ==> of_grammar(fault) || fault is Opcode,
{
    reveal(item);
    lemma_instruction_faults(text, table, c);
}

} // verus!
