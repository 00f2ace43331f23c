//! How an instruction is written: the tokens that stand for it.
//!
//! `syntax` says what the parser does, token by token and error by
//! error. This file says, without any order of reading, which token
//! sequences are an instruction and which instruction they are. The
//! two are proved to agree wherever the parser succeeds: it returns an
//! instruction only for tokens that are a way of writing it.

use super::instruction::{AddData, DrawData, Instr, MovData, PairData, Reg, SkipData, SkipType};
use super::mnemonic::Mnemonic;
use super::syntax::{
    add_operands, address, binary_operands, constant, draw_operands, eat, general, instruction,
    is_key_word, is_mnemonic, jump_operand, label, lemma_instruction_faults,
    lemma_instruction_legal, mov_operands, of_grammar, operands, rand_operands, read, register,
    register_of, skip_operands, skip_source, skip_type_of, skiptype, unary_operand, Cursor,
};
use crate::lex::chars::{digit_value, is_hex_digit};
use crate::lex::grammar::{char_at, scan_register};
use crate::lex::token::Lexeme;
use crate::lex::token_type::TokenType;
use vstd::prelude::*;

verus! {

/// The next `count` tokens from the cursor on, the current token first,
/// and the cursor after them. There is no such sequence if one of the
/// tokens after them cannot be read.
pub open spec fn upcoming(text: Seq<char>, c: Cursor, count: nat) -> Option<(Seq<Lexeme>, Cursor)>
    decreases count,
{
    if count == 0 {
        Some((Seq::empty(), c))
    } else {
        match read(text, c.pos) {
            Ok(next) => match upcoming(text, next, (count - 1) as nat) {
                Some((rest, end)) => Some((seq![c.token] + rest, end)),
                None => None,
            },
            Err(_) => None,
        }
    }
}

/// The token names the register.
pub open spec fn names(token: Lexeme, reg: Reg) -> bool {
    token.kind == TokenType::Register && register_of(token.value.text()) == reg
}

/// The token is a literal of the given value.
pub open spec fn holds(token: Lexeme, value: u16) -> bool {
    token.kind.is_literal() && token.value.number() == value
}

/// The token is a label that the table holds with the given address.
pub open spec fn refers(token: Lexeme, table: Map<Seq<char>, u16>, addr: u16) -> bool {
    &&& token.kind == TokenType::Label
    &&& table.contains_key(token.value.text())
    &&& table[token.value.text()] == addr
}

/// The token is the skip condition: a skip condition token or one of
/// the two short names of a key condition.
pub open spec fn conditions(token: Lexeme, kind: SkipType) -> bool {
    (token.kind == TokenType::SkipCond || is_key_word(token)) && skip_type_of(token.value.text())
        == kind
}

impl Instr {
    /// The mnemonic of the instruction.
    pub open spec fn mnemonic(self) -> Mnemonic {
        match self {
            Instr::CLS => Mnemonic::CLS,
            Instr::RET => Mnemonic::RET,
            Instr::JMP(_) => Mnemonic::JMP,
            Instr::CALL(_) => Mnemonic::CALL,
            Instr::JPC(_) => Mnemonic::JPC,
            Instr::SKIP(_) => Mnemonic::SKIP,
            Instr::MOV(_) => Mnemonic::MOV,
            Instr::ADD(_) => Mnemonic::ADD,
            Instr::RAND(_) => Mnemonic::RAND,
            Instr::DRAW(_) => Mnemonic::DRAW,
            Instr::OR(_) => Mnemonic::OR,
            Instr::AND(_) => Mnemonic::AND,
            Instr::XOR(_) => Mnemonic::XOR,
            Instr::SUB(_) => Mnemonic::SUB,
            Instr::SUBN(_) => Mnemonic::SUBN,
            Instr::SHR(_) => Mnemonic::SHR,
            Instr::SHL(_) => Mnemonic::SHL,
            Instr::GDL(_) => Mnemonic::GDL,
            Instr::KEY(_) => Mnemonic::KEY,
            Instr::SDL(_) => Mnemonic::SDL,
            Instr::SND(_) => Mnemonic::SND,
            Instr::SCH(_) => Mnemonic::SCH,
            Instr::BCD(_) => Mnemonic::BCD,
            Instr::RDP(_) => Mnemonic::RDP,
            Instr::RLD(_) => Mnemonic::RLD,
        }
    }

    /// The register of an instruction on one register.
    pub open spec fn register(self) -> Reg {
        match self {
            Instr::SHR(r) => r,
            Instr::SHL(r) => r,
            Instr::GDL(r) => r,
            Instr::KEY(r) => r,
            Instr::SDL(r) => r,
            Instr::SND(r) => r,
            Instr::SCH(r) => r,
            Instr::BCD(r) => r,
            Instr::RDP(r) => r,
            Instr::RLD(r) => r,
            _ => Reg::V0,
        }
    }

    /// The registers of an instruction on two registers.
    pub open spec fn pair(self) -> PairData {
        match self {
            Instr::OR(p) => p,
            Instr::AND(p) => p,
            Instr::XOR(p) => p,
            Instr::SUB(p) => p,
            Instr::SUBN(p) => p,
            _ => PairData { vx: Reg::V0, vy: Reg::V0 },
        }
    }

    /// The address of a jump.
    pub open spec fn target(self) -> u16 {
        match self {
            Instr::JMP(a) => a,
            Instr::CALL(a) => a,
            Instr::JPC(a) => a,
            _ => 0,
        }
    }
}

/// The tokens are two registers with a comma between them.
pub open spec fn pair_written(ops: Seq<Lexeme>, vx: Reg, vy: Reg) -> bool {
    &&& ops.len() == 3
    &&& names(ops[0], vx)
    &&& ops[1].kind == TokenType::Comma
    &&& names(ops[2], vy)
}

/// The tokens are a register, a comma and a literal.
pub open spec fn register_literal_written(ops: Seq<Lexeme>, vx: Reg) -> bool {
    &&& ops.len() == 3
    &&& names(ops[0], vx)
    &&& ops[1].kind == TokenType::Comma
    &&& ops[2].kind.is_literal()
}

/// The tokens are the operands of the `SKIP`: a period, the condition
/// and a register; for a comparison, a comma and a register or a
/// literal, of which the low eight bits count.
pub open spec fn skip_written(data: SkipData, ops: Seq<Lexeme>) -> bool {
    match data {
        SkipData::Register { vx, vy, kind } => {
            &&& ops.len() == 5
            &&& ops[0].kind == TokenType::Period
            &&& conditions(ops[1], kind)
            &&& names(ops[2], vx)
            &&& ops[3].kind == TokenType::Comma
            &&& names(ops[4], vy)
        },
        SkipData::Constant { vx, nn, kind } => {
            &&& ops.len() == 5
            &&& ops[0].kind == TokenType::Period
            &&& conditions(ops[1], kind)
            &&& names(ops[2], vx)
            &&& ops[3].kind == TokenType::Comma
            &&& ops[4].kind.is_literal()
            &&& nn == ops[4].value.number() % 0x100
        },
        SkipData::Key { vx, kind } => {
            &&& ops.len() == 3
            &&& ops[0].kind == TokenType::Period
            &&& conditions(ops[1], kind)
            &&& names(ops[2], vx)
        },
    }
}

/// The tokens are the operands of the `MOV`: a register, a comma and a
/// register, a literal or, for the index register, a label.
pub open spec fn mov_written(data: MovData, ops: Seq<Lexeme>, table: Map<Seq<char>, u16>) -> bool {
    match data {
        MovData::Register { dest, src } => pair_written(ops, dest, src),
        MovData::Constant { dest, value } => {
            &&& ops.len() == 3
            &&& names(ops[0], dest)
            &&& ops[1].kind == TokenType::Comma
            &&& holds(ops[2], value) || (dest == Reg::I && refers(ops[2], table, value))
        },
    }
}

/// The tokens are the operands of the `ADD`: a register, a comma and a
/// register or a literal.
pub open spec fn add_written(data: AddData, ops: Seq<Lexeme>) -> bool {
    match data {
        AddData::Register { first, second } => pair_written(ops, first, second),
        AddData::Constant { first, value } => register_literal_written(ops, first) && holds(
            ops[2],
            value,
        ),
    }
}

/// The tokens are the operands of the `DRAW`: two registers and a
/// literal, of which the low four bits count, with commas between them.
pub open spec fn draw_written(data: DrawData, ops: Seq<Lexeme>) -> bool {
    &&& ops.len() == 5
    &&& names(ops[0], data.vx)
    &&& ops[1].kind == TokenType::Comma
    &&& names(ops[2], data.vy)
    &&& ops[3].kind == TokenType::Comma
    &&& ops[4].kind.is_literal()
    &&& data.h == ops[4].value.number() % 0x10
}

/// The tokens are the operands of the instruction: they are what the
/// grammar of its mnemonic asks for, and they say what it holds.
pub open spec fn written(instr: Instr, ops: Seq<Lexeme>, table: Map<Seq<char>, u16>) -> bool {
    let m = instr.mnemonic();
    if m == Mnemonic::CLS || m == Mnemonic::RET {
        ops.len() == 0
    } else if m.is_jump() {
        ops.len() == 1 && (refers(ops[0], table, instr.target()) || holds(ops[0], instr.target()))
    } else if m.is_unary() {
        ops.len() == 1 && names(ops[0], instr.register())
    } else if m.is_binary() {
        pair_written(ops, instr.pair().vx, instr.pair().vy)
    } else {
        match instr {
            Instr::SKIP(data) => skip_written(data, ops),
            Instr::MOV(data) => mov_written(data, ops, table),
            Instr::ADD(data) => add_written(data, ops),
            Instr::RAND(data) => register_literal_written(ops, data.vx) && data.nn
                == ops[2].value.number() % 0x100,
            Instr::DRAW(data) => draw_written(data, ops),
            _ => false,
        }
    }
}

/// What the operands of an instruction are found to be: some number of
/// upcoming tokens that are a way of writing them, with the cursor
/// after them.
pub open spec fn found(
    text: Seq<char>,
    table: Map<Seq<char>, u16>,
    c: Cursor,
    instr: Instr,
    next: Cursor,
) -> bool {
    exists|count: nat|
        #![trigger upcoming(text, c, count)]
        upcoming(text, c, count) matches Some((ops, end)) && end == next && written(
            instr,
            ops,
            table,
        )
}

/// Tokens that follow one another follow in one run.
pub proof fn lemma_upcoming_joins(
    text: Seq<char>,
    c: Cursor,
    first: nat,
    head: Seq<Lexeme>,
    mid: Cursor,
    second: nat,
    tail: Seq<Lexeme>,
    end: Cursor,
)
    requires
        upcoming(text, c, first) == Some((head, mid)),
        upcoming(text, mid, second) == Some((tail, end)),
    ensures
        upcoming(text, c, first + second) == Some((head + tail, end)),
    decreases first,
{
    if first == 0 {
        assert(head + tail =~= tail);
    } else {
        let next = read(text, c.pos)->Ok_0;
        let rest = upcoming(text, next, (first - 1) as nat).unwrap().0;
        lemma_upcoming_joins(text, next, (first - 1) as nat, rest, mid, second, tail, end);
        assert(seq![c.token] + (rest + tail) =~= (seq![c.token] + rest) + tail);
    }
}

/// A token that the parser eats is the one upcoming token.
pub proof fn lemma_one_token(text: Seq<char>, table: Map<Seq<char>, u16>, c: Cursor, m: Mnemonic)
    ensures
        read(text, c.pos) matches Ok(next) ==> upcoming(text, c, 1) == Some((seq![c.token], next)),
        forall|kind: TokenType|
            #[trigger] eat(text, c, kind) matches Ok(next) ==> c.token.kind == kind && upcoming(
                text,
                c,
                1,
            ) == Some((seq![c.token], next)),
        register(text, c) matches Ok((reg, next)) ==> names(c.token, reg) && upcoming(text, c, 1)
            == Some((seq![c.token], next)),
        general(text, c, m) matches Ok((reg, next)) ==> names(c.token, reg) && reg != Reg::I
            && upcoming(text, c, 1) == Some((seq![c.token], next)),
        constant(text, c) matches Ok((value, next)) ==> holds(c.token, value) && upcoming(
            text,
            c,
            1,
        ) == Some((seq![c.token], next)),
        label(text, table, c) matches Ok((addr, next)) ==> refers(c.token, table, addr)
            && upcoming(text, c, 1) == Some((seq![c.token], next)),
        address(text, table, c) matches Ok((addr, next)) ==> (refers(c.token, table, addr)
            || holds(c.token, addr)) && upcoming(text, c, 1) == Some((seq![c.token], next)),
        skiptype(text, c) matches Ok((kind, next)) ==> conditions(c.token, kind) && upcoming(
            text,
            c,
            1,
        ) == Some((seq![c.token], next)),
{
    if let Ok(next) = read(text, c.pos) {
        assert(upcoming(text, next, 0) == Some((Seq::<Lexeme>::empty(), next)));
        assert(seq![c.token] + Seq::<Lexeme>::empty() =~= seq![c.token]);
    }
}

/// Three tokens that the parser takes one after the other are the
/// three upcoming tokens.
proof fn lemma_three_tokens(text: Seq<char>, c: Cursor, c1: Cursor, c2: Cursor, c3: Cursor)
    requires
        upcoming(text, c, 1) == Some((seq![c.token], c1)),
        upcoming(text, c1, 1) == Some((seq![c1.token], c2)),
        upcoming(text, c2, 1) == Some((seq![c2.token], c3)),
    ensures
        upcoming(text, c, 3) == Some((seq![c.token, c1.token, c2.token], c3)),
        upcoming(text, c1, 2) == Some((seq![c1.token, c2.token], c3)),
{
    lemma_upcoming_joins(text, c1, 1, seq![c1.token], c2, 1, seq![c2.token], c3);
    assert(seq![c1.token] + seq![c2.token] =~= seq![c1.token, c2.token]);
    lemma_upcoming_joins(text, c, 1, seq![c.token], c1, 2, seq![c1.token, c2.token], c3);
    assert(seq![c.token] + seq![c1.token, c2.token] =~= seq![c.token, c1.token, c2.token]);
}

/// Five tokens that the parser takes one after the other are the five
/// upcoming tokens.
proof fn lemma_five_tokens(
    text: Seq<char>,
    c: Cursor,
    c1: Cursor,
    c2: Cursor,
    c3: Cursor,
    c4: Cursor,
    c5: Cursor,
)
    requires
        upcoming(text, c, 1) == Some((seq![c.token], c1)),
        upcoming(text, c1, 1) == Some((seq![c1.token], c2)),
        upcoming(text, c2, 1) == Some((seq![c2.token], c3)),
        upcoming(text, c3, 1) == Some((seq![c3.token], c4)),
        upcoming(text, c4, 1) == Some((seq![c4.token], c5)),
    ensures
        upcoming(text, c, 5) == Some(
            (seq![c.token, c1.token, c2.token, c3.token, c4.token], c5),
        ),
{
    lemma_three_tokens(text, c, c1, c2, c3);
    lemma_three_tokens(text, c2, c3, c4, c5);
    lemma_upcoming_joins(
        text,
        c,
        3,
        seq![c.token, c1.token, c2.token],
        c3,
        2,
        seq![c3.token, c4.token],
        c5,
    );
    assert(seq![c.token, c1.token, c2.token] + seq![c3.token, c4.token] =~= seq![
        c.token,
        c1.token,
        c2.token,
        c3.token,
        c4.token,
    ]);
}

/// A jump and an instruction on one register are parsed only from
/// the token that is a way of writing their operand.
proof fn lemma_single_written(text: Seq<char>, table: Map<Seq<char>, u16>, c: Cursor, m: Mnemonic)
    ensures
        m.is_jump() ==> (jump_operand(text, table, c, m) matches Ok((instr, next))
            ==> instr.mnemonic() == m && found(text, table, c, instr, next)),
        m.is_unary() ==> (unary_operand(text, c, m) matches Ok((instr, next)) ==> instr.mnemonic()
            == m && found(text, table, c, instr, next)),
{
    lemma_one_token(text, table, c, m);
    if m.is_jump() {
        if let Ok((instr, next)) = jump_operand(text, table, c, m) {
            assert(upcoming(text, c, 1) == Some((seq![c.token], next)));
            assert(written(instr, seq![c.token], table));
        }
    }
    if m.is_unary() {
        if let Ok((instr, next)) = unary_operand(text, c, m) {
            assert(upcoming(text, c, 1) == Some((seq![c.token], next)));
            assert(written(instr, seq![c.token], table));
        }
    }
}

/// An instruction on two registers is parsed only from tokens that are
/// a way of writing its operands.
proof fn lemma_binary_written(text: Seq<char>, table: Map<Seq<char>, u16>, c: Cursor, m: Mnemonic)
    requires
        m.is_binary(),
    ensures
        binary_operands(text, c, m) matches Ok((instr, next)) ==> instr.mnemonic() == m && found(
            text,
            table,
            c,
            instr,
            next,
        ),
{
    if let Ok((instr, next)) = binary_operands(text, c, m) {
        let (vx, c1) = general(text, c, m)->Ok_0;
        let c2 = eat(text, c1, TokenType::Comma)->Ok_0;
        lemma_one_token(text, table, c, m);
        lemma_one_token(text, table, c1, m);
        lemma_one_token(text, table, c2, m);
        lemma_three_tokens(text, c, c1, c2, next);
        assert(written(instr, seq![c.token, c1.token, c2.token], table));
    }
}

/// A `RAND` is parsed only from tokens that are a way of writing its
/// operands.
proof fn lemma_rand_written(text: Seq<char>, table: Map<Seq<char>, u16>, c: Cursor)
    ensures
        rand_operands(text, c) matches Ok((instr, next)) ==> instr.mnemonic() == Mnemonic::RAND
            && found(text, table, c, instr, next),
{
    if let Ok((instr, next)) = rand_operands(text, c) {
        let m = Mnemonic::RAND;
        let (vx, c1) = general(text, c, m)->Ok_0;
        let c2 = eat(text, c1, TokenType::Comma)->Ok_0;
        lemma_one_token(text, table, c, m);
        lemma_one_token(text, table, c1, m);
        lemma_one_token(text, table, c2, m);
        lemma_three_tokens(text, c, c1, c2, next);
        assert(written(instr, seq![c.token, c1.token, c2.token], table));
    }
}

/// A `DRAW` is parsed only from tokens that are a way of writing its
/// operands.
proof fn lemma_draw_written(text: Seq<char>, table: Map<Seq<char>, u16>, c: Cursor)
    ensures
        draw_operands(text, c) matches Ok((instr, next)) ==> instr.mnemonic() == Mnemonic::DRAW
            && found(text, table, c, instr, next),
{
    if let Ok((instr, next)) = draw_operands(text, c) {
        let m = Mnemonic::DRAW;
        let (vx, c1) = general(text, c, m)->Ok_0;
        let c2 = eat(text, c1, TokenType::Comma)->Ok_0;
        let (vy, c3) = general(text, c2, m)->Ok_0;
        let c4 = eat(text, c3, TokenType::Comma)->Ok_0;
        lemma_one_token(text, table, c, m);
        lemma_one_token(text, table, c1, m);
        lemma_one_token(text, table, c2, m);
        lemma_one_token(text, table, c3, m);
        lemma_one_token(text, table, c4, m);
        lemma_five_tokens(text, c, c1, c2, c3, c4, next);
        let ops = seq![c.token, c1.token, c2.token, c3.token, c4.token];
        assert(draw_written(instr->DRAW_0, ops));
        assert(written(instr, ops, table));
    }
}

/// An `ADD` is parsed only from tokens that are a way of writing its
/// operands.
proof fn lemma_add_written(text: Seq<char>, table: Map<Seq<char>, u16>, c: Cursor)
    ensures
        add_operands(text, c) matches Ok((instr, next)) ==> instr.mnemonic() == Mnemonic::ADD
            && found(text, table, c, instr, next),
{
    if let Ok((instr, next)) = add_operands(text, c) {
        let m = Mnemonic::ADD;
        let (vx, c1) = register(text, c)->Ok_0;
        let c2 = eat(text, c1, TokenType::Comma)->Ok_0;
        lemma_one_token(text, table, c, m);
        lemma_one_token(text, table, c1, m);
        lemma_one_token(text, table, c2, m);
        lemma_three_tokens(text, c, c1, c2, next);
        assert(written(instr, seq![c.token, c1.token, c2.token], table));
    }
}

/// A `MOV` is parsed only from tokens that are a way of writing its
/// operands.
proof fn lemma_mov_written(text: Seq<char>, table: Map<Seq<char>, u16>, c: Cursor)
    ensures
        mov_operands(text, table, c) matches Ok((instr, next)) ==> instr.mnemonic()
            == Mnemonic::MOV && found(text, table, c, instr, next),
{
    if let Ok((instr, next)) = mov_operands(text, table, c) {
        let m = Mnemonic::MOV;
        let (vx, c1) = register(text, c)->Ok_0;
        let c2 = eat(text, c1, TokenType::Comma)->Ok_0;
        lemma_one_token(text, table, c, m);
        lemma_one_token(text, table, c1, m);
        lemma_one_token(text, table, c2, m);
        lemma_three_tokens(text, c, c1, c2, next);
        assert(written(instr, seq![c.token, c1.token, c2.token], table));
    }
}

/// What follows the first register of a `SKIP` is parsed only from the
/// token that is a way of writing it, or from none for a key test.
proof fn lemma_skip_source_written(
    text: Seq<char>,
    table: Map<Seq<char>, u16>,
    c: Cursor,
    vx: Reg,
    kind: SkipType,
)
    ensures
        skip_source(text, c, vx, kind) matches Ok((instr, next)) ==> match instr {
            Instr::SKIP(SkipData::Register { vx: x, vy, kind: k }) => x == vx && k == kind
                && !kind.is_key() && names(c.token, vy) && upcoming(text, c, 1) == Some(
                (seq![c.token], next),
            ),
            Instr::SKIP(SkipData::Constant { vx: x, nn, kind: k }) => x == vx && k == kind
                && !kind.is_key() && c.token.kind.is_literal() && nn == c.token.value.number()
                % 0x100 && upcoming(text, c, 1) == Some((seq![c.token], next)),
            Instr::SKIP(SkipData::Key { vx: x, kind: k }) => x == vx && k == kind && kind.is_key()
                && next == c,
            _ => false,
        },
{
    lemma_one_token(text, table, c, Mnemonic::SKIP);
}

/// A `SKIP` is parsed only from tokens that are a way of writing its
/// operands.
proof fn lemma_skip_written(text: Seq<char>, table: Map<Seq<char>, u16>, c: Cursor)
    ensures
        skip_operands(text, c) matches Ok((instr, next)) ==> instr.mnemonic() == Mnemonic::SKIP
            && found(text, table, c, instr, next),
{
    if let Ok((instr, next)) = skip_operands(text, c) {
        let m = Mnemonic::SKIP;
        let c1 = eat(text, c, TokenType::Period)->Ok_0;
        let (kind, c2) = skiptype(text, c1)->Ok_0;
        let (vx, c3) = general(text, c2, m)->Ok_0;
        lemma_one_token(text, table, c, m);
        lemma_one_token(text, table, c1, m);
        lemma_one_token(text, table, c2, m);
        lemma_three_tokens(text, c, c1, c2, c3);
        if kind.is_key() {
            lemma_skip_source_written(text, table, c3, vx, kind);
            assert(next == c3);
            assert(written(instr, seq![c.token, c1.token, c2.token], table));
        } else {
            let c4 = eat(text, c3, TokenType::Comma)->Ok_0;
            lemma_one_token(text, table, c3, m);
            lemma_skip_source_written(text, table, c4, vx, kind);
            lemma_five_tokens(text, c, c1, c2, c3, c4, next);
            assert(written(instr, seq![c.token, c1.token, c2.token, c3.token, c4.token], table));
        }
    }
}

/// The operands of an instruction are parsed only from tokens that are
/// a way of writing them, and the instruction has the mnemonic that
/// the operands were parsed for.
pub proof fn lemma_operands_as_written(
    text: Seq<char>,
    table: Map<Seq<char>, u16>,
    c: Cursor,
    m: Mnemonic,
)
    ensures
        operands(text, table, c, m) matches Ok((instr, next)) ==> instr.mnemonic() == m && found(
            text,
            table,
            c,
            instr,
            next,
        ),
{
    reveal(operands);
    if m == Mnemonic::CLS || m == Mnemonic::RET {
        if let Ok((instr, next)) = operands(text, table, c, m) {
            assert(upcoming(text, c, 0) == Some((Seq::<Lexeme>::empty(), c)));
            assert(written(instr, Seq::<Lexeme>::empty(), table));
        }
    } else if m.is_jump() || m.is_unary() {
        lemma_single_written(text, table, c, m);
    } else if m.is_binary() {
        lemma_binary_written(text, table, c, m);
    } else if m == Mnemonic::SKIP {
        lemma_skip_written(text, table, c);
    } else if m == Mnemonic::MOV {
        lemma_mov_written(text, table, c);
    } else if m == Mnemonic::ADD {
        lemma_add_written(text, table, c);
    } else if m == Mnemonic::RAND {
        lemma_rand_written(text, table, c);
    } else {
        lemma_draw_written(text, table, c);
    }
}

/// The parser returns an instruction only for tokens that are a way of
/// writing it: a mnemonic of the fixed set, which is the mnemonic of
/// the instruction, and after it the operands that the grammar of the
/// mnemonic asks for, which say what the instruction holds. The
/// operands are legal. So operands that the grammar does not allow
/// never yield an instruction.
pub proof fn lemma_parsed_as_written(text: Seq<char>, table: Map<Seq<char>, u16>, c: Cursor)
    requires
        instruction(text, table, c) is Ok,
    ensures
        ({
            let (instr, next) = instruction(text, table, c)->Ok_0;
            &&& is_mnemonic(c.token)
            &&& Mnemonic::of(c.token.value.text()) == Some(instr.mnemonic())
            &&& read(text, c.pos) is Ok
            &&& found(text, table, read(text, c.pos)->Ok_0, instr, next)
            &&& instr.legal()
        }),
{
    reveal(instruction);
    lemma_instruction_legal(text, table, c);
    let after = read(text, c.pos)->Ok_0;
    let m = Mnemonic::of(c.token.value.text())->0;
    lemma_operands_as_written(text, table, after, m);
}

/// For a mnemonic of the fixed set the parser fails only with an error
/// of the grammar: a token of the wrong type, a register or a skip
/// condition that the instruction does not take, a label without an
/// address, or a character that the lexer cannot read. It never
/// reports the mnemonic as unknown.
pub proof fn lemma_known_mnemonic_errors(text: Seq<char>, table: Map<Seq<char>, u16>, c: Cursor)
    requires
        is_mnemonic(c.token),
        Mnemonic::of(c.token.value.text()) is Some,
    ensures
        instruction(text, table, c) matches Err(fault) ==> of_grammar(fault),
{
    lemma_instruction_faults(text, table, c);
}

/// The register that the parser takes from a register token is the
/// one written: for the token read at `start`, the index register if
/// an `I` stands there, in either case, and else the general register
/// whose number the digit after the `V` gives.
pub proof fn lemma_register_as_written(text: Seq<char>, start: int)
    requires
        scan_register(text, start).token is Some,
    ensures
        ({
            let token = scan_register(text, start).token->0;
            let c = char_at(text, start);
            let d = char_at(text, start + 1);
            &&& token.kind == TokenType::Register
            &&& register_of(token.value.text()) == if c == 'I' || c == 'i' {
                Reg::I
            } else {
                Reg::general(digit_value(d))
            }
            &&& !(c == 'I' || c == 'i') ==> is_hex_digit(d) && register_of(token.value.text())
                != Reg::I
        }),
{
    reveal_strlit("I");
    reveal_strlit("V");
}

} // verus!
