//! The second pass: a recursive-descent parser with one token of
//! lookahead, which hands what it parses to the code generator.

use super::addr_table::AddrTable;
use super::instruction::{
    AddData, DrawData, Instr, Item, MovData, RandData, Reg, SkipData, SkipType,
};
use super::isa::{
    binary_add_byte, binary_add_instruction, binary_add_word, binary_bytes, binary_error_name,
    binary_error_type, binary_len, binary_length, binary_new, encode, opcode, word_bytes,
};
use super::mnemonic::Mnemonic;
use super::notation::{found, lemma_parsed_as_written};
use super::passes::lemma_collected_lexes;
use super::preprocessor::{
    decides, definitions, label_table, lemma_first_token_lexes, lemma_last_entry_decides,
    start_tally, Preprocessor,
};
use super::syntax::{
    add_operands, add_source, address, argument_fault, binary_operands, constant, constant_type,
    data_item, failed, draw_operands, eat, first, general, instruction, is_key_word, is_mnemonic,
    item, jump_operand, label, lemma_instruction_faults, lemma_instruction_legal,
    lemma_item_follows, mov_operands, mov_source, of_grammar, operands, program, rand_operands,
    read, register, register_of, skip_fault, skip_operands, skip_source, skip_type_of, skiptype,
    unary_operand, valid, Cursor, Run,
};
use crate::error::arg_error::ArgError;
use crate::error::asm_error::AsmError;
use crate::error::encode_error::EncodeError;
use crate::error::fault::{EncodeErrorType, Fault};
use crate::error::opcode_error::OpcodeError;
use crate::error::parse_error::ParseError;
use crate::error::skip_error::SkipError;
use crate::lex::asm_lexer::AsmLexer;
use crate::lex::chars::digit_value;
use crate::lex::grammar::{clamp, column_at, lemma_lexes_on, lemma_scan_bounds, lexes, line_at};
use crate::lex::token::Token;
use crate::lex::token_type::TokenType;
use crate::util::text::is_word;
use crate::util::variant::Variant;
use vstd::prelude::*;

verus! {

/// The bytes that an item becomes in the binary: the opcode of an
/// instruction and a word of data with the high byte first, a byte of
/// data as it is.
pub open spec fn item_bytes(item: Item) -> Seq<u8> {
    match item {
        Item::Instruction(instr) => word_bytes(opcode(instr)),
        Item::Byte(byte) => seq![byte],
        Item::Word(word) => word_bytes(word),
    }
}

/// The bytes that a sequence of items becomes in the binary.
pub open spec fn program_bytes(items: Seq<Item>) -> Seq<u8>
    decreases items.len(),
{
    if items.len() == 0 {
        Seq::empty()
    } else {
        program_bytes(items.drop_last()) + item_bytes(items.last())
    }
}

/// Whether a binary that counts `length` bytes has room for the items:
/// with them it counts at most as many bytes as 16 bits can count.
pub open spec fn fits(items: Seq<Item>, length: int) -> bool {
    length + program_bytes(items).len() <= 0xFFFF
}

/// Whether the first `count` of the items are what a binary that
/// counts `length` bytes takes: they fit, and either they are all or
/// the next one does not fit any more.
pub open spec fn taken(items: Seq<Item>, length: int, count: int) -> bool {
    &&& 0 <= count <= items.len()
    &&& fits(items.take(count), length)
    &&& count < items.len() ==> !fits(items.take(count + 1), length)
}

/// The error for a binary of the given name that has no room for an
/// item.
pub open spec fn full_fault(name: Seq<char>) -> Fault {
    Fault::Binary { reason: EncodeErrorType::DataError, name }
}

/// What assembling a run into a binary comes to, if the binary has the
/// given name and counts `length` bytes: the error for a full binary
/// if the items of the run do not all fit, else the error of the run
/// if it has one.
pub open spec fn outcome(run: Run, name: Seq<char>, length: int) -> Result<(), Fault> {
    if !fits(run.items, length) {
        Err(full_fault(name))
    } else {
        match run.fault {
            Some(fault) => Err(fault),
            None => Ok(()),
        }
    }
}

/// What an assembly returns for an outcome.
pub open spec fn returned<T>(res: Result<T, AsmError>, expected: Result<(), Fault>) -> bool {
    match expected {
        Ok(()) => res is Ok,
        Err(fault) => res matches Err(e) && e@ == fault,
    }
}

/// The bytes of items that follow one another follow one another.
pub proof fn lemma_program_bytes_join(head: Seq<Item>, tail: Seq<Item>)
    ensures
        program_bytes(head + tail) == program_bytes(head) + program_bytes(tail),
    decreases tail.len(),
{
    if tail.len() == 0 {
        assert(head + tail =~= head);
        assert(program_bytes(head) + program_bytes(tail) =~= program_bytes(head));
    } else {
        assert((head + tail).drop_last() =~= head + tail.drop_last());
        lemma_program_bytes_join(head, tail.drop_last());
        assert(program_bytes(head + tail) =~= program_bytes(head) + program_bytes(tail));
    }
}

/// What a rule of the parser returns for an outcome of the grammar:
/// the value, with the parser at the cursor after it, or the error.
pub open spec fn parsed<T>(
    res: Result<T, AsmError>,
    expected: Result<(T, Cursor), Fault>,
    cursor: Cursor,
) -> bool {
    match expected {
        Ok((value, next)) => res == Ok::<T, AsmError>(value) && cursor == next,
        Err(fault) => res matches Err(e) && e@ == fault,
    }
}

/// What a step of the parser without a value returns for an outcome of
/// the grammar.
pub open spec fn moved(res: Result<(), AsmError>, expected: Result<Cursor, Fault>, cursor: Cursor)
    -> bool {
    match expected {
        Ok(next) => res is Ok && cursor == next,
        Err(fault) => res matches Err(e) && e@ == fault,
    }
}

/// Assembles Chip-8 binaries
pub struct Assembler {
    /// Lexes the source code
    lexer: AsmLexer,
    /// The address table for labels in the source code
    addrs: AddrTable,
    /// The current `Token` being assembled
    cur_token: Token,
    /// The binary being created
    binary: ch8_isa::codegen::Binary,
    /// The name of the binary being created
    name: String,
}

impl Assembler {
    /// The source code being assembled.
    pub closed spec fn text(&self) -> Seq<char> {
        self.lexer.text()
    }

    /// The address table of the source code.
    pub closed spec fn table(&self) -> Map<Seq<char>, u16> {
        self.addrs@
    }

    /// The current token, and where the lexer stands after it.
    pub closed spec fn cursor(&self) -> Cursor {
        Cursor { token: self.cur_token@, pos: self.lexer.offset() }
    }

    /// The binary being created.
    pub closed spec fn binary(&self) -> ch8_isa::codegen::Binary {
        self.binary
    }

    /// The name of the binary being created.
    pub closed spec fn name(&self) -> Seq<char> {
        self.name@
    }

    /// The bytes of the binary being created.
    pub open spec fn bytes(&self) -> Seq<u8> {
        binary_bytes(self.binary())
    }

    /// The number of bytes that the binary being created counts.
    pub open spec fn length(&self) -> u16 {
        binary_length(self.binary())
    }

    /// Whether the assembler stands in a source that the first pass
    /// has walked: its table is the address table of the source, and
    /// every token from where the lexer stands can be read. An
    /// assembler that `new` has made is ready, and stays so.
    pub open spec fn ready(&self) -> bool {
        &&& valid(self.text(), self.cursor())
        &&& lexes(self.text(), self.cursor().pos)
        &&& label_table(self.text()) == Ok::<Map<Seq<char>, u16>, Fault>(self.table())
    }

    /// The same source, table and name: only the cursor and the binary
    /// may differ.
    pub open spec fn same_source(&self, other: &Assembler) -> bool {
        &&& self.text() == other.text()
        &&& self.table() == other.table()
        &&& self.name() == other.name()
    }

    /// The same source, table, name and binary: only the cursor may
    /// differ.
    pub open spec fn same_but_cursor(&self, other: &Assembler) -> bool {
        self.same_source(other) && self.binary() == other.binary()
    }

    /// Constructs a new `Assembler` instance
    ///
    /// Makes the binary of the given name, builds the address table of
    /// the code and reads its first token. Whether the binary can be
    /// made is for the code generator to say; `with_binary` says what
    /// follows from its answer.
    pub fn new(code: &str, name: &str) -> (res: Result<Self, AsmError>)
        ensures
            match res {
                Ok(made) => {
                    &&& made.text() == code@
                    &&& made.name() == name@
                    &&& label_table(code@) == Ok::<Map<Seq<char>, u16>, Fault>(made.table())
                    &&& first(code@) == Ok::<Cursor, Fault>(made.cursor())
                    &&& made.bytes() == Seq::<u8>::empty()
                    &&& made.length() == 0
                    &&& made.ready()
                },
                Err(e) => e@ is Binary || label_table(code@) == Err::<Map<Seq<char>, u16>, Fault>(
                    e@,
                ),
            },
    {
        Self::with_binary(code, name, binary_new(name))
    }

    /// Constructs a new `Assembler` instance for what the code
    /// generator returned for the binary
    ///
    /// Fails with the error of the code generator if it made no
    /// binary, else with the first lexical error of the code if the
    /// first pass finds one.
    pub fn with_binary(
        code: &str,
        name: &str,
        created: Result<ch8_isa::codegen::Binary, ch8_isa::error::BinaryError>,
    ) -> (res: Result<Self, AsmError>)
        ensures
            match created {
                Err(_) => res matches Err(e) && e@ is Binary,
                Ok(binary) => match label_table(code@) {
                    Err(fault) => res matches Err(e) && e@ == fault,
                    Ok(table) => {
                        &&& res matches Ok(made)
                        &&& res->Ok_0.text() == code@
                        &&& res->Ok_0.name() == name@
                        &&& res->Ok_0.table() == table
                        &&& first(code@) == Ok::<Cursor, Fault>(res->Ok_0.cursor())
                        &&& res->Ok_0.binary() == binary
                        &&& res->Ok_0.ready()
                    },
                },
            },
    {
        proof {
            if definitions(code@) is Ok {
                lemma_first_token_lexes(code@);
                lemma_collected_lexes(code@, 0, start_tally(), Seq::empty());
                lemma_lexes_on(code@, 0);
                lemma_scan_bounds(code@, 0);
            }
        }
        let binary = match created {
            Ok(binary) => binary,
            Err(error) => {
                return Err(AsmError::Binary(Self::sink_error(&error)));
            },
        };
        let mut prep = Preprocessor::new(code);
        let addrs = match prep.process() {
            Ok(addrs) => addrs,
            Err(e) => {
                return Err(AsmError::Lexer(e));
            },
        };
        let mut lexer = AsmLexer::new(code);
        let cur_token = match lexer.get_next_token() {
            Ok(tok) => tok,
            Err(e) => {
                return Err(AsmError::Lexer(e));
            },
        };
        Ok(Assembler { lexer, addrs, cur_token, binary, name: String::from_str(name) })
    }

    /// The error of the code generator as an error of the assembler.
    fn sink_error(error: &ch8_isa::error::BinaryError) -> (e: EncodeError)
        ensures
            e@ is Binary,
    {
        let name = binary_error_name(error);
        EncodeError::new(binary_error_type(error), name.as_str())
    }

    /// Gets the current line being assembled: the line at which the
    /// lexer stands, after the current token.
    pub fn get_line(&self) -> (line: u32)
        ensures
            line == clamp(line_at(self.text(), self.cursor().pos)),
    {
        self.lexer.get_line()
    }

    /// Gets the current column being assembled: the column at which
    /// the lexer stands, after the current token.
    pub fn get_column(&self) -> (col: u32)
        ensures
            col == clamp(column_at(self.text(), self.cursor().pos)),
    {
        self.lexer.get_column()
    }

    /// The number of bytes that the binary holds by its own count.
    pub fn binary_len(&self) -> (len: u16)
        ensures
            len == self.length(),
    {
        binary_len(&self.binary)
    }

    /// Hands over the binary.
    pub fn into_binary(self) -> (binary: ch8_isa::codegen::Binary)
        ensures
            binary == self.binary(),
    {
        self.binary
    }

    /// The type of the current token.
    fn kind(&self) -> (kind: TokenType)
        ensures
            kind == self.cursor().token.kind,
    {
        self.cur_token.get_type()
    }

    /// The text of the current token; empty if it holds a number.
    fn word(&self) -> (word: String)
        ensures
            word@ == self.cursor().token.value.text(),
    {
        match self.cur_token.get_value() {
            Variant::Text(word) => word,
            _ => String::new(),
        }
    }

    /// The number of the current token, a byte widened to a word; 0 if
    /// it holds text.
    fn number(&self) -> (value: u16)
        ensures
            value == self.cursor().token.value.number(),
    {
        match self.cur_token.get_value() {
            Variant::Byte(byte) => byte as u16,
            Variant::Word(word) => word,
            Variant::Text(_) => 0,
        }
    }

    /// Reads the next token and makes it the current one.
    fn advance(&mut self) -> (res: Result<(), AsmError>)
        ensures
            final(self).same_but_cursor(old(self)),
            old(self).ready() ==> final(self).ready() && !(res matches Err(e) && e@ is Lexer),
            moved(res, read(old(self).text(), old(self).cursor().pos), final(self).cursor()),
            res is Err ==> final(self).cursor() == failed(
                old(self).text(),
                old(self).cursor(),
                old(self).cursor().token.kind,
            ),
    {
        proof {
            if self.ready() {
                lemma_lexes_on(self.text(), self.cursor().pos);
                lemma_scan_bounds(self.text(), self.cursor().pos);
            }
        }
        match self.lexer.get_next_token() {
            Ok(tok) => {
                self.cur_token = tok;
                Ok(())
            },
            Err(e) => Err(AsmError::Lexer(e)),
        }
    }

    /// Verifies the current token and gets the next token
    ///
    /// Fails with a parse error, which names both types and the
    /// position of the lexer, if the current token is not of the given
    /// type: nothing is consumed then. Fails with a lexical error if
    /// the next token cannot be read: the current token stays then.
    pub fn eat(&mut self, ttype: &TokenType) -> (res: Result<(), AsmError>)
        ensures
            final(self).same_but_cursor(old(self)),
            old(self).ready() ==> final(self).ready() && !(res matches Err(e) && e@ is Lexer),
            moved(res, eat(old(self).text(), old(self).cursor(), *ttype), final(self).cursor()),
            res is Err ==> final(self).cursor() == failed(
                old(self).text(),
                old(self).cursor(),
                *ttype,
            ),
    {
        let actual = self.kind();
        if actual == *ttype {
            self.advance()
        } else {
            Err(
                AsmError::Parser(
                    ParseError::new(ttype, &actual, self.lexer.get_line(), self.lexer.get_column()),
                ),
            )
        }
    }

    /// The error for a register that the instruction does not take,
    /// at the position of the lexer.
    fn bad_argument(&self, arg: Reg, m: Mnemonic) -> (e: AsmError)
        ensures
            e@ == argument_fault(self.text(), self.cursor(), arg, m),
    {
        AsmError::Argument(
            ArgError::new(&arg, m.get_name(), self.lexer.get_line(), self.lexer.get_column()),
        )
    }

    /// The error for a skip condition that does not fit the operands,
    /// at the position of the lexer.
    fn bad_skip(&self, kind: SkipType) -> (e: AsmError)
        ensures
            e@ == skip_fault(self.text(), self.cursor(), kind),
    {
        AsmError::Skip(SkipError::new(kind, self.lexer.get_line(), self.lexer.get_column()))
    }

    /// The register that a register token of the given text names.
    fn register_named(name: &String) -> (reg: Reg)
        ensures
            reg == register_of(name@),
    {
        let text = name.as_str();
        let len = text.unicode_len();
        if len >= 1 && text.get_char(0) == 'I' {
            Reg::I
        } else if len >= 2 {
            Reg::general(digit_value(text.get_char(1)))
        } else {
            Reg::V0
        }
    }

    /// Assembles a register reference
    pub fn register(&mut self) -> (res: Result<Reg, AsmError>)
        ensures
            final(self).same_but_cursor(old(self)),
            old(self).ready() ==> final(self).ready() && !(res matches Err(e) && e@ is Lexer),
            parsed(res, register(old(self).text(), old(self).cursor()), final(self).cursor()),
            res is Err ==> final(self).cursor() == failed(
                old(self).text(),
                old(self).cursor(),
                TokenType::Register,
            ),
    {
        let name = self.word();
        match self.eat(&TokenType::Register) {
            Ok(()) => Ok(Self::register_named(&name)),
            Err(e) => Err(e),
        }
    }

    /// Assembles a general register of the instruction `m`: a register
    /// other than the index register.
    pub fn general(&mut self, m: Mnemonic) -> (res: Result<Reg, AsmError>)
        ensures
            final(self).same_but_cursor(old(self)),
            old(self).ready() ==> final(self).ready() && !(res matches Err(e) && e@ is Lexer),
            parsed(res, general(old(self).text(), old(self).cursor(), m), final(self).cursor()),
            match eat(old(self).text(), old(self).cursor(), TokenType::Register) {
                Ok(next) => final(self).cursor() == next,
                Err(_) => final(self).cursor() == failed(
                    old(self).text(),
                    old(self).cursor(),
                    TokenType::Register,
                ),
            },
    {
        match self.register() {
            Ok(reg) => {
                if reg.is_index() {
                    Err(self.bad_argument(reg, m))
                } else {
                    Ok(reg)
                }
            },
            Err(e) => Err(e),
        }
    }

    /// Assembles a literal of the given type.
    fn literal(&mut self, ttype: TokenType) -> (res: Result<u16, AsmError>)
        ensures
            final(self).same_but_cursor(old(self)),
            old(self).ready() ==> final(self).ready() && !(res matches Err(e) && e@ is Lexer),
            match eat(old(self).text(), old(self).cursor(), ttype) {
                Ok(next) => res == Ok::<u16, AsmError>(old(self).cursor().token.value.number())
                    && final(self).cursor() == next,
                Err(fault) => res matches Err(e) && e@ == fault && final(self).cursor() == failed(
                    old(self).text(),
                    old(self).cursor(),
                    ttype,
                ),
            },
    {
        let value = self.number();
        match self.eat(&ttype) {
            Ok(()) => Ok(value),
            Err(e) => Err(e),
        }
    }

    /// Assembles a decimal integer literal
    pub fn dec_lit(&mut self) -> (res: Result<u16, AsmError>)
        ensures
            final(self).same_but_cursor(old(self)),
            old(self).ready() ==> final(self).ready() && !(res matches Err(e) && e@ is Lexer),
            match eat(old(self).text(), old(self).cursor(), TokenType::DecLit) {
                Ok(next) => res == Ok::<u16, AsmError>(old(self).cursor().token.value.number())
                    && final(self).cursor() == next,
                Err(fault) => res matches Err(e) && e@ == fault && final(self).cursor() == failed(
                    old(self).text(),
                    old(self).cursor(),
                    TokenType::DecLit,
                ),
            },
    {
        self.literal(TokenType::DecLit)
    }

    /// Assembles a hex integer literal
    pub fn hex_lit(&mut self) -> (res: Result<u16, AsmError>)
        ensures
            final(self).same_but_cursor(old(self)),
            old(self).ready() ==> final(self).ready() && !(res matches Err(e) && e@ is Lexer),
            match eat(old(self).text(), old(self).cursor(), TokenType::HexLit) {
                Ok(next) => res == Ok::<u16, AsmError>(old(self).cursor().token.value.number())
                    && final(self).cursor() == next,
                Err(fault) => res matches Err(e) && e@ == fault && final(self).cursor() == failed(
                    old(self).text(),
                    old(self).cursor(),
                    TokenType::HexLit,
                ),
            },
    {
        self.literal(TokenType::HexLit)
    }

    /// Assembles a binary literal
    pub fn bin_lit(&mut self) -> (res: Result<u8, AsmError>)
        ensures
            final(self).same_but_cursor(old(self)),
            old(self).ready() ==> final(self).ready() && !(res matches Err(e) && e@ is Lexer),
            match eat(old(self).text(), old(self).cursor(), TokenType::BinLit) {
                Ok(next) => res == Ok::<u8, AsmError>(
                    (old(self).cursor().token.value.number() % 0x100) as u8,
                ) && final(self).cursor() == next,
                Err(fault) => res matches Err(e) && e@ == fault && final(self).cursor() == failed(
                    old(self).text(),
                    old(self).cursor(),
                    TokenType::BinLit,
                ),
            },
    {
        match self.literal(TokenType::BinLit) {
            Ok(value) => Ok((value % 0x100) as u8),
            Err(e) => Err(e),
        }
    }

    /// Assembles a constant literal
    pub fn constant(&mut self) -> (res: Result<u16, AsmError>)
        ensures
            final(self).same_but_cursor(old(self)),
            old(self).ready() ==> final(self).ready() && !(res matches Err(e) && e@ is Lexer),
            parsed(res, constant(old(self).text(), old(self).cursor()), final(self).cursor()),
            res is Err ==> final(self).cursor() == failed(
                old(self).text(),
                old(self).cursor(),
                constant_type(old(self).cursor()),
            ),
    {
        let kind = self.kind();
        if kind == TokenType::DecLit {
            self.dec_lit()
        } else if kind == TokenType::HexLit {
            self.hex_lit()
        } else {
            self.literal(TokenType::BinLit)
        }
    }

    /// Assembles a label reference
    ///
    /// Returns the address that the table holds for the label.
    pub fn label(&mut self) -> (res: Result<u16, AsmError>)
        ensures
            final(self).same_but_cursor(old(self)),
            old(self).ready() ==> final(self).ready() && !(res matches Err(e) && e@ is Lexer),
            parsed(
                res,
                label(old(self).text(), old(self).table(), old(self).cursor()),
                final(self).cursor(),
            ),
            match eat(old(self).text(), old(self).cursor(), TokenType::Label) {
                Ok(next) => final(self).cursor() == next,
                Err(_) => final(self).cursor() == failed(
                    old(self).text(),
                    old(self).cursor(),
                    TokenType::Label,
                ),
            },
            old(self).ready() && old(self).cursor().token.kind == TokenType::Label ==> ({
                let name = old(self).cursor().token.value.text();
                let entries = definitions(old(self).text())->Ok_0;
                &&& old(self).table().contains_key(name) ==> res == Ok::<u16, AsmError>(
                    old(self).table()[name],
                )
                &&& !old(self).table().contains_key(name) ==> (res matches Err(e) && e@
                    == (Fault::Address { label: name }))
                &&& forall|index: int|
                    decides(entries, index) && (#[trigger] entries[index]).0 == name ==> res
                        == Ok::<u16, AsmError>(entries[index].1)
            }),
    {
        proof {
            if self.ready() && self.cursor().token.kind == TokenType::Label {
                lemma_lexes_on(self.text(), self.cursor().pos);
                let entries = definitions(self.text())->Ok_0;
                assert forall|index: int|
                    decides(entries, index) && (#[trigger] entries[index]).0
                        == self.cursor().token.value.text() implies self.table().contains_key(
                    entries[index].0,
                ) && self.table()[entries[index].0] == entries[index].1 by {
                    lemma_last_entry_decides(entries, index);
                }
            }
        }
        let name = self.word();
        match self.eat(&TokenType::Label) {
            Ok(()) => match self.addrs.get_entry(name.as_str()) {
                Ok(addr) => Ok(addr),
                Err(e) => Err(AsmError::Address(e)),
            },
            Err(e) => Err(e),
        }
    }

    /// Assembles an address: a label reference or a constant.
    pub fn address(&mut self) -> (res: Result<u16, AsmError>)
        ensures
            final(self).same_but_cursor(old(self)),
            old(self).ready() ==> final(self).ready() && !(res matches Err(e) && e@ is Lexer),
            parsed(
                res,
                address(old(self).text(), old(self).table(), old(self).cursor()),
                final(self).cursor(),
            ),
    {
        if self.kind() == TokenType::Label {
            self.label()
        } else {
            self.constant()
        }
    }

    /// The condition that a word names.
    fn skip_type_named(word: &String) -> (kind: SkipType)
        ensures
            kind == skip_type_of(word@),
    {
        if is_word(word, "EQ") {
            SkipType::Equals
        } else if is_word(word, "NE") {
            SkipType::NotEquals
        } else if is_word(word, "KEY") || is_word(word, "KD") {
            SkipType::KeyDown
        } else {
            SkipType::KeyUp
        }
    }

    /// Whether the current token is one of the two short names of a
    /// key condition.
    fn at_key_word(&self) -> (yes: bool)
        ensures
            yes == is_key_word(self.cursor().token),
    {
        if self.kind() == TokenType::Instruction {
            let word = self.word();
            is_word(&word, "KD") || is_word(&word, "KU")
        } else {
            false
        }
    }

    /// Assembles a skip condition
    pub fn skiptype(&mut self) -> (res: Result<SkipType, AsmError>)
        ensures
            final(self).same_but_cursor(old(self)),
            old(self).ready() ==> final(self).ready() && !(res matches Err(e) && e@ is Lexer),
            parsed(res, skiptype(old(self).text(), old(self).cursor()), final(self).cursor()),
            res is Err ==> final(self).cursor() == failed(
                old(self).text(),
                old(self).cursor(),
                if is_key_word(old(self).cursor().token) {
                    TokenType::Instruction
                } else {
                    TokenType::SkipCond
                },
            ),
    {
        let word = self.word();
        let eaten = if self.at_key_word() {
            self.advance()
        } else {
            self.eat(&TokenType::SkipCond)
        };
        match eaten {
            Ok(()) => Ok(Self::skip_type_named(&word)),
            Err(e) => Err(e),
        }
    }

    /// Assembles the operand of a jump.
    fn jump_operand(&mut self, m: Mnemonic) -> (res: Result<Instr, AsmError>)
        ensures
            final(self).same_but_cursor(old(self)),
            old(self).ready() ==> final(self).ready() && !(res matches Err(e) && e@ is Lexer),
            parsed(
                res,
                jump_operand(old(self).text(), old(self).table(), old(self).cursor(), m),
                final(self).cursor(),
            ),
    {
        match self.address() {
            Ok(addr) => Ok(m.jump(addr)),
            Err(e) => Err(e),
        }
    }

    /// Assembles the operand of an instruction on one register.
    fn unary_operand(&mut self, m: Mnemonic) -> (res: Result<Instr, AsmError>)
        ensures
            final(self).same_but_cursor(old(self)),
            old(self).ready() ==> final(self).ready() && !(res matches Err(e) && e@ is Lexer),
            parsed(
                res,
                unary_operand(old(self).text(), old(self).cursor(), m),
                final(self).cursor(),
            ),
    {
        match self.general(m) {
            Ok(vx) => Ok(m.unary(vx)),
            Err(e) => Err(e),
        }
    }

    /// Assembles the operands of an instruction on two registers.
    fn binary_operands(&mut self, m: Mnemonic) -> (res: Result<Instr, AsmError>)
        ensures
            final(self).same_but_cursor(old(self)),
            old(self).ready() ==> final(self).ready() && !(res matches Err(e) && e@ is Lexer),
            parsed(
                res,
                binary_operands(old(self).text(), old(self).cursor(), m),
                final(self).cursor(),
            ),
    {
        let vx = match self.general(m) {
            Ok(vx) => vx,
            Err(e) => {
                return Err(e);
            },
        };
        match self.eat(&TokenType::Comma) {
            Ok(()) => {},
            Err(e) => {
                return Err(e);
            },
        };
        match self.general(m) {
            Ok(vy) => Ok(m.binary(vx, vy)),
            Err(e) => Err(e),
        }
    }

    /// Assembles the operands of `RAND`.
    fn rand_operands(&mut self) -> (res: Result<Instr, AsmError>)
        ensures
            final(self).same_but_cursor(old(self)),
            old(self).ready() ==> final(self).ready() && !(res matches Err(e) && e@ is Lexer),
            parsed(res, rand_operands(old(self).text(), old(self).cursor()), final(self).cursor()),
    {
        let vx = match self.general(Mnemonic::RAND) {
            Ok(vx) => vx,
            Err(e) => {
                return Err(e);
            },
        };
        match self.eat(&TokenType::Comma) {
            Ok(()) => {},
            Err(e) => {
                return Err(e);
            },
        };
        match self.constant() {
            Ok(value) => Ok(Instr::RAND(RandData { vx, nn: (value % 0x100) as u8 })),
            Err(e) => Err(e),
        }
    }

    /// Assembles the operands of `DRAW`.
    fn draw_operands(&mut self) -> (res: Result<Instr, AsmError>)
        ensures
            final(self).same_but_cursor(old(self)),
            old(self).ready() ==> final(self).ready() && !(res matches Err(e) && e@ is Lexer),
            parsed(res, draw_operands(old(self).text(), old(self).cursor()), final(self).cursor()),
    {
        let vx = match self.general(Mnemonic::DRAW) {
            Ok(vx) => vx,
            Err(e) => {
                return Err(e);
            },
        };
        match self.eat(&TokenType::Comma) {
            Ok(()) => {},
            Err(e) => {
                return Err(e);
            },
        };
        let vy = match self.general(Mnemonic::DRAW) {
            Ok(vy) => vy,
            Err(e) => {
                return Err(e);
            },
        };
        match self.eat(&TokenType::Comma) {
            Ok(()) => {},
            Err(e) => {
                return Err(e);
            },
        };
        match self.constant() {
            Ok(value) => Ok(Instr::DRAW(DrawData { vx, vy, h: (value % 0x10) as u8 })),
            Err(e) => Err(e),
        }
    }

    /// Assembles the second operand of `ADD`.
    fn add_source(&mut self, vx: Reg) -> (res: Result<Instr, AsmError>)
        ensures
            final(self).same_but_cursor(old(self)),
            old(self).ready() ==> final(self).ready() && !(res matches Err(e) && e@ is Lexer),
            parsed(res, add_source(old(self).text(), old(self).cursor(), vx), final(self).cursor()),
    {
        if self.kind() == TokenType::Register {
            match self.general(Mnemonic::ADD) {
                Ok(vy) => Ok(Instr::ADD(AddData::Register { first: vx, second: vy })),
                Err(e) => Err(e),
            }
        } else {
            match self.constant() {
                Ok(value) => {
                    if vx.is_index() {
                        Err(self.bad_argument(vx, Mnemonic::ADD))
                    } else {
                        Ok(Instr::ADD(AddData::Constant { first: vx, value }))
                    }
                },
                Err(e) => Err(e),
            }
        }
    }

    /// Assembles the operands of `ADD`.
    fn add_operands(&mut self) -> (res: Result<Instr, AsmError>)
        ensures
            final(self).same_but_cursor(old(self)),
            old(self).ready() ==> final(self).ready() && !(res matches Err(e) && e@ is Lexer),
            parsed(res, add_operands(old(self).text(), old(self).cursor()), final(self).cursor()),
    {
        let vx = match self.register() {
            Ok(vx) => vx,
            Err(e) => {
                return Err(e);
            },
        };
        match self.eat(&TokenType::Comma) {
            Ok(()) => self.add_source(vx),
            Err(e) => Err(e),
        }
    }

    /// Assembles the second operand of `MOV`.
    fn mov_source(&mut self, vx: Reg) -> (res: Result<Instr, AsmError>)
        ensures
            final(self).same_but_cursor(old(self)),
            old(self).ready() ==> final(self).ready() && !(res matches Err(e) && e@ is Lexer),
            parsed(
                res,
                mov_source(old(self).text(), old(self).table(), old(self).cursor(), vx),
                final(self).cursor(),
            ),
    {
        let kind = self.kind();
        if kind == TokenType::Register {
            if vx.is_index() {
                Err(self.bad_argument(vx, Mnemonic::MOV))
            } else {
                match self.general(Mnemonic::MOV) {
                    Ok(vy) => Ok(Instr::MOV(MovData::Register { dest: vx, src: vy })),
                    Err(e) => Err(e),
                }
            }
        } else if kind == TokenType::Label {
            if !vx.is_index() {
                Err(self.bad_argument(vx, Mnemonic::MOV))
            } else {
                match self.label() {
                    Ok(addr) => Ok(Instr::MOV(MovData::Constant { dest: vx, value: addr })),
                    Err(e) => Err(e),
                }
            }
        } else {
            match self.constant() {
                Ok(value) => Ok(Instr::MOV(MovData::Constant { dest: vx, value })),
                Err(e) => Err(e),
            }
        }
    }

    /// Assembles the operands of `MOV`.
    fn mov_operands(&mut self) -> (res: Result<Instr, AsmError>)
        ensures
            final(self).same_but_cursor(old(self)),
            old(self).ready() ==> final(self).ready() && !(res matches Err(e) && e@ is Lexer),
            parsed(
                res,
                mov_operands(old(self).text(), old(self).table(), old(self).cursor()),
                final(self).cursor(),
            ),
    {
        let vx = match self.register() {
            Ok(vx) => vx,
            Err(e) => {
                return Err(e);
            },
        };
        match self.eat(&TokenType::Comma) {
            Ok(()) => self.mov_source(vx),
            Err(e) => Err(e),
        }
    }

    /// Assembles what follows the first register of `SKIP`.
    fn skip_source(&mut self, vx: Reg, kind: SkipType) -> (res: Result<Instr, AsmError>)
        ensures
            final(self).same_but_cursor(old(self)),
            old(self).ready() ==> final(self).ready() && !(res matches Err(e) && e@ is Lexer),
            parsed(
                res,
                skip_source(old(self).text(), old(self).cursor(), vx, kind),
                final(self).cursor(),
            ),
    {
        let ttype = self.kind();
        if ttype == TokenType::Register {
            match self.general(Mnemonic::SKIP) {
                Ok(vy) => {
                    if kind.is_key() {
                        Err(self.bad_skip(kind))
                    } else {
                        Ok(Instr::SKIP(SkipData::Register { vx, vy, kind }))
                    }
                },
                Err(e) => Err(e),
            }
        } else if ttype.is_literal() {
            match self.constant() {
                Ok(value) => {
                    if kind.is_key() {
                        Err(self.bad_skip(kind))
                    } else {
                        Ok(Instr::SKIP(SkipData::Constant { vx, nn: (value % 0x100) as u8, kind }))
                    }
                },
                Err(e) => Err(e),
            }
        } else if kind.is_key() && ttype != TokenType::Comma {
            Ok(Instr::SKIP(SkipData::Key { vx, kind }))
        } else {
            Err(self.bad_skip(kind))
        }
    }

    /// Assembles the operands of `SKIP`.
    fn skip_operands(&mut self) -> (res: Result<Instr, AsmError>)
        ensures
            final(self).same_but_cursor(old(self)),
            old(self).ready() ==> final(self).ready() && !(res matches Err(e) && e@ is Lexer),
            parsed(res, skip_operands(old(self).text(), old(self).cursor()), final(self).cursor()),
    {
        match self.eat(&TokenType::Period) {
            Ok(()) => {},
            Err(e) => {
                return Err(e);
            },
        };
        let kind = match self.skiptype() {
            Ok(kind) => kind,
            Err(e) => {
                return Err(e);
            },
        };
        let vx = match self.general(Mnemonic::SKIP) {
            Ok(vx) => vx,
            Err(e) => {
                return Err(e);
            },
        };
        if kind.is_key() {
            self.skip_source(vx, kind)
        } else {
            match self.eat(&TokenType::Comma) {
                Ok(()) => self.skip_source(vx, kind),
                Err(e) => Err(e),
            }
        }
    }

    /// Assembles the operands of the instruction `m`.
    fn operands(&mut self, m: Mnemonic) -> (res: Result<Instr, AsmError>)
        ensures
            final(self).same_but_cursor(old(self)),
            old(self).ready() ==> final(self).ready() && !(res matches Err(e) && e@ is Lexer),
            parsed(
                res,
                operands(old(self).text(), old(self).table(), old(self).cursor(), m),
                final(self).cursor(),
            ),
    {
        proof {
            reveal(operands);
        }
        if m == Mnemonic::CLS {
            Ok(Instr::CLS)
        } else if m == Mnemonic::RET {
            Ok(Instr::RET)
        } else if m.is_jump() {
            self.jump_operand(m)
        } else if m == Mnemonic::SKIP {
            self.skip_operands()
        } else if m == Mnemonic::MOV {
            self.mov_operands()
        } else if m == Mnemonic::ADD {
            self.add_operands()
        } else if m == Mnemonic::RAND {
            self.rand_operands()
        } else if m == Mnemonic::DRAW {
            self.draw_operands()
        } else if m.is_binary() {
            self.binary_operands(m)
        } else {
            self.unary_operand(m)
        }
    }

    /// Whether the current token stands for a mnemonic.
    fn at_mnemonic(&self) -> (yes: bool)
        ensures
            yes == is_mnemonic(self.cursor().token),
    {
        let kind = self.kind();
        kind == TokenType::Instruction || (kind == TokenType::SkipCond && is_word(
            &self.word(),
            "KEY",
        ))
    }

    /// Assembles an instruction
    ///
    /// Parses a mnemonic and the operands that its grammar asks for.
    /// Fails with the first error: a token of the wrong type, an
    /// unknown mnemonic, a register or a skip condition that the
    /// instruction does not take, a label without an address, or a
    /// character that the lexer cannot read.
    pub fn instruction(&mut self) -> (res: Result<Instr, AsmError>)
        ensures
            final(self).same_but_cursor(old(self)),
            old(self).ready() ==> final(self).ready() && !(res matches Err(e) && e@ is Lexer),
            parsed(
                res,
                instruction(old(self).text(), old(self).table(), old(self).cursor()),
                final(self).cursor(),
            ),
            res matches Ok(instr) ==> {
                &&& instr.legal()
                &&& is_mnemonic(old(self).cursor().token)
                &&& Mnemonic::of(old(self).cursor().token.value.text()) == Some(instr.mnemonic())
                &&& found(
                    old(self).text(),
                    old(self).table(),
                    read(old(self).text(), old(self).cursor().pos)->Ok_0,
                    instr,
                    final(self).cursor(),
                )
            },
            res matches Err(e) ==> {
                &&& !is_mnemonic(old(self).cursor().token) ==> final(self).cursor() == old(
                    self,
                ).cursor()
                &&& e@ is Opcode <==> (is_mnemonic(old(self).cursor().token) && read(
                    old(self).text(),
                    old(self).cursor().pos,
                ) is Ok && Mnemonic::of(old(self).cursor().token.value.text()) is None)
                &&& of_grammar(e@) || e@ is Opcode
            },
    {
        proof {
            reveal(instruction);
            lemma_instruction_legal(self.text(), self.table(), self.cursor());
            lemma_instruction_faults(self.text(), self.table(), self.cursor());
            if instruction(self.text(), self.table(), self.cursor()) is Ok {
                lemma_parsed_as_written(self.text(), self.table(), self.cursor());
            }
        }
        if !self.at_mnemonic() {
            let actual = self.kind();
            return Err(
                AsmError::Parser(
                    ParseError::new(
                        &TokenType::Instruction,
                        &actual,
                        self.lexer.get_line(),
                        self.lexer.get_column(),
                    ),
                ),
            );
        }
        let word = self.word();
        match self.advance() {
            Ok(()) => {},
            Err(e) => {
                return Err(e);
            },
        };
        match Mnemonic::parse(&word) {
            Some(m) => self.operands(m),
            None => Err(
                AsmError::Opcode(
                    OpcodeError::new(
                        word.as_str(),
                        self.lexer.get_line(),
                        self.lexer.get_column(),
                    ),
                ),
            ),
        }
    }

    /// The data item that the current token stands for, a literal.
    fn data_item(&self) -> (data: Item)
        ensures
            data == data_item(self.cursor().token),
    {
        let value = self.number();
        if self.kind() == TokenType::BinLit || value <= 0xFF {
            Item::Byte((value % 0x100) as u8)
        } else {
            Item::Word(value)
        }
    }

    /// Assembles one step at top level: an instruction, a literal as
    /// data, or a label definition, which gives no item.
    pub fn item(&mut self) -> (res: Result<Option<Item>, AsmError>)
        ensures
            final(self).same_but_cursor(old(self)),
            old(self).ready() ==> final(self).ready() && !(res matches Err(e) && e@ is Lexer),
            parsed(
                res,
                item(old(self).text(), old(self).table(), old(self).cursor()),
                final(self).cursor(),
            ),
            res matches Ok(Some(found)) ==> found.legal(),
    {
        proof {
            reveal(item);
        }
        let kind = self.kind();
        if kind.is_literal() {
            let data = self.data_item();
            match self.advance() {
                Ok(()) => Ok(Some(data)),
                Err(e) => Err(e),
            }
        } else if kind == TokenType::LblDef {
            match self.advance() {
                Ok(()) => Ok(None),
                Err(e) => Err(e),
            }
        } else {
            match self.instruction() {
                Ok(instr) => Ok(Some(Item::Instruction(instr))),
                Err(e) => Err(e),
            }
        }
    }

    /// The error for a binary that has no room for more.
    fn full(&self) -> (e: AsmError)
        ensures
            e@ == full_fault(self.name()),
    {
        AsmError::Binary(EncodeError::new(EncodeErrorType::DataError, self.name.as_str()))
    }

    /// Adds an item to the binary.
    ///
    /// Fails, and leaves the binary as it is, exactly if the binary has
    /// no room for the item.
    fn emit(&mut self, item: &Item) -> (res: Result<(), AsmError>)
        requires
            item.legal(),
        ensures
            final(self).same_source(old(self)),
            final(self).cursor() == old(self).cursor(),
            res is Ok <==> old(self).length() + item_bytes(*item).len() <= 0xFFFF,
            res is Ok ==> final(self).bytes() == old(self).bytes() + item_bytes(*item),
            res is Ok ==> final(self).length() == old(self).length() + item_bytes(*item).len(),
            res matches Err(e) ==> e@ == full_fault(old(self).name()) && final(self).binary()
                == old(self).binary(),
    {
        let len = binary_len(&self.binary);
        let added = match *item {
            Item::Byte(byte) => {
                if len >= 0xFFFF {
                    return Err(self.full());
                }
                proof {
                    assert(self.bytes().push(byte) =~= self.bytes() + seq![byte]);
                }
                binary_add_byte(&mut self.binary, byte)
            },
            Item::Word(word) => {
                if len >= 0xFFFE {
                    return Err(self.full());
                }
                binary_add_word(&mut self.binary, word)
            },
            Item::Instruction(instr) => {
                if len >= 0xFFFE {
                    return Err(self.full());
                }
                let encoded = encode(&instr);
                binary_add_instruction(&mut self.binary, &encoded)
            },
        };
        // the code generator takes every byte for which its count has room
        match added {
            Ok(()) => Ok(()),
            Err(error) => Err(AsmError::Binary(Self::sink_error(&error))),
        }
    }

    /// Assembles source code into a binary
    ///
    /// Parses the source from the current token on and adds every
    /// instruction and every data item to the binary, one by one and
    /// in order, up to the end of the source or the first error. An
    /// error of the grammar is returned once the items before it are
    /// in the binary. An item for which the binary has no room is
    /// returned as an error at once, with the items before it in the
    /// binary.
    pub fn assemble(&mut self) -> (res: Result<(), AsmError>)
        ensures
            final(self).same_source(old(self)),
            ({
                let run = program(old(self).text(), old(self).table(), old(self).cursor());
                let length = old(self).length() as int;
                &&& returned(res, outcome(run, old(self).name(), length))
                &&& exists|count: int| #[trigger]
                    taken(run.items, length, count) && final(self).bytes() == old(self).bytes()
                        + program_bytes(run.items.take(count)) && final(self).length() == length
                        + program_bytes(run.items.take(count)).len()
                &&& fits(run.items, length) ==> {
                    &&& final(self).bytes() == old(self).bytes() + program_bytes(run.items)
                    &&& final(self).length() == length + program_bytes(run.items).len()
                }
                &&& res is Ok ==> final(self).cursor().token.kind == TokenType::EndOfInput
            }),
            old(self).ready() ==> final(self).ready() && !(res matches Err(e) && e@ is Lexer),
    {
        let ghost start = self.cursor();
        let ghost mut done: Seq<Item> = Seq::empty();
        proof {
            assert(done + program(self.text(), self.table(), start).items =~= program(
                self.text(),
                self.table(),
                start,
            ).items);
        }
        loop
            invariant
                self.same_source(old(self)),
                old(self).ready() ==> self.ready(),
                start == old(self).cursor(),
                self.bytes() == old(self).bytes() + program_bytes(done),
                self.length() == old(self).length() + program_bytes(done).len(),
                program(self.text(), self.table(), start).items == done + program(
                    self.text(),
                    self.table(),
                    self.cursor(),
                ).items,
                program(self.text(), self.table(), start).fault == program(
                    self.text(),
                    self.table(),
                    self.cursor(),
                ).fault,
            decreases
                    self.text().len() - self.cursor().pos,
                    if self.cursor().token.kind == TokenType::EndOfInput {
                        0int
                    } else {
                        1int
                    },
        {
            let pos = self.lexer.position();
            let ghost items = program(self.text(), self.table(), start).items;
            let ghost length = old(self).length() as int;
            if self.kind() == TokenType::EndOfInput {
                proof {
                    assert(done + Seq::<Item>::empty() =~= done);
                    assert(items.take(items.len() as int) =~= items);
                    assert(taken(items, length, items.len() as int));
                }
                return Ok(());
            }
            let ghost before = self.cursor();
            proof {
                lemma_item_follows(self.text(), self.table(), before);
            }
            let found = match self.item() {
                Ok(found) => found,
                Err(e) => {
                    proof {
                        assert(done + Seq::<Item>::empty() =~= done);
                        assert(items.take(items.len() as int) =~= items);
                        assert(taken(items, length, items.len() as int));
                    }
                    return Err(e);
                },
            };
            match found {
                Some(it) => {
                    proof {
                        let rest = program(self.text(), self.table(), self.cursor()).items;
                        assert(done + (seq![it] + rest) =~= done.push(it) + rest);
                        assert(done.push(it).drop_last() =~= done);
                        assert(items.take(done.len() as int) =~= done);
                        assert(items.take(done.len() as int + 1) =~= done.push(it));
                        lemma_program_bytes_join(done.push(it), rest);
                    }
                    match self.emit(&it) {
                        Ok(()) => {},
                        Err(e) => {
                            proof {
                                assert(taken(items, length, done.len() as int));
                            }
                            return Err(e);
                        },
                    };
                    proof {
                        assert(self.bytes() =~= old(self).bytes() + program_bytes(done.push(it)));
                        done = done.push(it);
                    }
                },
                None => {},
            }
        }
    }
}

/// Assembles source code into the binary that the code generator has
/// made for it, or fails with the code generator if it made none
///
/// Runs both passes. A lexical error in the first pass stops the
/// assembly. Else the items of the source are added to the binary, in
/// order and with each label resolved by the address table of the
/// source, and the binary is returned; unless the binary has no room
/// for them all, or the source has an error of the grammar.
pub fn assemble_with_binary(
    code: &str,
    name: &str,
    created: Result<ch8_isa::codegen::Binary, ch8_isa::error::BinaryError>,
) -> (res: Result<ch8_isa::codegen::Binary, AsmError>)
    ensures
        match created {
            Err(_) => res matches Err(e) && e@ is Binary,
            Ok(binary) => match label_table(code@) {
                Err(fault) => res matches Err(e) && e@ == fault,
                Ok(_) => {
                    let run = whole_run(code@);
                    &&& returned(res, outcome(run, name@, binary_length(binary) as int))
                    &&& res matches Ok(out) ==> {
                        &&& binary_bytes(out) == binary_bytes(binary) + program_bytes(run.items)
                        &&& binary_length(out) == binary_length(binary) + program_bytes(
                            run.items,
                        ).len()
                    }
                },
            },
        },
{
    let mut assembler = match Assembler::with_binary(code, name, created) {
        Ok(assembler) => assembler,
        Err(e) => {
            return Err(e);
        },
    };
    match assembler.assemble() {
        Ok(()) => Ok(assembler.into_binary()),
        Err(e) => Err(e),
    }
}

/// Assembles source code into a new binary of the given name
///
/// Makes the binary and runs both passes. Whether the binary can be
/// made is for the code generator to say; `assemble_with_binary` says
/// what follows from its answer. On success the binary holds the bytes
/// of every item of the source and nothing else.
pub fn assemble_source(code: &str, name: &str) -> (res: Result<ch8_isa::codegen::Binary, AsmError>)
    ensures
        match res {
            Ok(binary) => {
                &&& label_table(code@) is Ok
                &&& outcome(whole_run(code@), name@, 0) is Ok
                &&& binary_bytes(binary) == program_bytes(whole_run(code@).items)
                &&& binary_length(binary) == program_bytes(whole_run(code@).items).len()
            },
            Err(e) => {
                ||| e@ is Binary
                ||| label_table(code@) == Err::<Map<Seq<char>, u16>, Fault>(e@)
                ||| label_table(code@) is Ok && outcome(whole_run(code@), name@, 0) == Err::<
                    (),
                    Fault,
                >(e@)
            },
        },
{
    proof {
        assert(Seq::<u8>::empty() + program_bytes(whole_run(code@).items) =~= program_bytes(
            whole_run(code@).items,
        ));
    }
    assemble_with_binary(code, name, binary_new(name))
}

/// What the second pass makes of a source whose labels the first pass
/// has collected: the items of the source, parsed from its first token
/// on with its address table.
pub open spec fn whole_run(text: Seq<char>) -> Run {
    program(text, label_table(text)->Ok_0, first(text)->Ok_0)
}

} // verus!
