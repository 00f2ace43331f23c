//! The first pass: the address of every label of the source.

use super::addr_table::{table_of, AddrTable};
use super::syntax::{first, label, read, Cursor};
use crate::error::fault::Fault;
use crate::error::lexer_error::LexerError;
use crate::lex::address::{label_lexeme, lemma_survey_bounds, survey, Tally};
use crate::lex::chars::upper_seq;
use crate::lex::grammar::{
    lemma_letters_end_bounds, lemma_scan_bounds, letters_end, lexer_fault, scan, skip_blank,
};
use crate::lex::prep_lexer::PrepLexer;
use crate::lex::token_type::TokenType;
use crate::util::constants::MEM_START;
use crate::util::text::to_upper_string;
use crate::util::variant::Variant;
use vstd::prelude::*;

verus! {

/// The bookkeeping at the start of the source: the start of program
/// memory, and nothing pending.
pub open spec fn start_tally() -> Tally {
    Tally { addr: MEM_START, pending: false }
}

/// The label definitions of the source from `pos` on, after those in
/// `entries`: each with the name of the label in upper case and the
/// address at the moment its definition is reported. A lexical error
/// anywhere in the source takes the place of the list.
pub open spec fn collect(
    text: Seq<char>,
    pos: int,
    tally: Tally,
    entries: Seq<(Seq<char>, u16)>,
) -> Result<Seq<(Seq<char>, u16)>, Fault>
    decreases text.len() - pos,
{
    let found = survey(text, pos, tally);
    if 0 <= pos <= text.len() {
        match found.token {
            None => Err(lexer_fault(text, found.end)),
            Some(lexeme) => {
                proof {
                    lemma_survey_bounds(text, pos, tally);
                }
                if lexeme.kind == TokenType::LblDef {
                    collect(
                        text,
                        found.end,
                        found.tally,
                        entries.push((upper_seq(lexeme.value.text()), found.tally.addr)),
                    )
                } else if lexeme.kind == TokenType::Label {
                    collect(text, found.end, found.tally, entries)
                } else {
                    Ok(entries)
                }
            },
        }
    } else {
        Ok(entries)
    }
}

/// The label definitions of the source, in order.
pub open spec fn definitions(text: Seq<char>) -> Result<Seq<(Seq<char>, u16)>, Fault> {
    collect(text, 0, start_tally(), Seq::empty())
}

/// The address table of the source: the last definition of a label
/// decides its address.
pub open spec fn label_table(text: Seq<char>) -> Result<Map<Seq<char>, u16>, Fault> {
    match definitions(text) {
        Ok(entries) => Ok(table_of(entries)),
        Err(fault) => Err(fault),
    }
}

/// Walks the source once and builds its address table
pub struct Preprocessor {
    /// Reports the labels of the source
    lexer: PrepLexer,
}

impl Preprocessor {
    /// The source being processed.
    pub closed spec fn text(&self) -> Seq<char> {
        self.lexer.text()
    }

    /// The position up to which the source has been processed.
    pub closed spec fn offset(&self) -> int {
        self.lexer.offset()
    }

    /// The address bookkeeping as it stands.
    pub closed spec fn tally(&self) -> Tally {
        self.lexer.tally()
    }

    /// Constructs a new `Preprocessor` instance
    pub fn new(code: &str) -> (prep: Self)
        ensures
            prep.text() == code@,
            prep.offset() == 0,
            prep.tally() == start_tally(),
    {
        Preprocessor { lexer: PrepLexer::new(code) }
    }

    /// Builds the address table of what is left of the source
    ///
    /// Every label definition is entered under its name in upper case,
    /// with the address at which it stands. The first lexical error
    /// stops the pass.
    pub fn process(&mut self) -> (res: Result<AddrTable, LexerError>)
        ensures
            final(self).text() == old(self).text(),
            match collect(old(self).text(), old(self).offset(), old(self).tally(), Seq::empty()) {
                Ok(entries) => res matches Ok(table) && table@ == table_of(entries),
                Err(fault) => res matches Err(e) && e@ == fault,
            },
    {
        let mut table = AddrTable::new();
        let ghost mut entries: Seq<(Seq<char>, u16)> = Seq::empty();
        loop
            invariant
                self.text() == old(self).text(),
                table@ == table_of(entries),
                collect(self.text(), self.offset(), self.tally(), entries) == collect(
                    old(self).text(),
                    old(self).offset(),
                    old(self).tally(),
                    Seq::empty(),
                ),
            decreases self.text().len() - self.offset(),
        {
            let before = self.lexer.position();
            proof {
                lemma_survey_bounds(self.text(), self.offset(), self.tally());
            }
            let tok = match self.lexer.get_next_token() {
                Ok(tok) => tok,
                Err(e) => {
                    return Err(e);
                },
            };
            let kind = tok.get_type();
            if kind == TokenType::LblDef {
                let name = match tok.get_value() {
                    Variant::Text(name) => name,
                    _ => String::new(),
                };
                let key = to_upper_string(name.as_str());
                let addr = self.lexer.get_address();
                proof {
                    let entry = (upper_seq(tok@.value.text()), addr);
                    assert(entries.push(entry).drop_last() =~= entries);
                    entries = entries.push(entry);
                }
                table.add_entry(key.as_str(), addr);
            } else if kind != TokenType::Label {
                return Ok(table);
            }
        }
    }
}

/// Whether the entry at `index` is the last one for its label.
pub open spec fn decides(entries: Seq<(Seq<char>, u16)>, index: int) -> bool {
    &&& 0 <= index < entries.len()
    &&& forall|later: int|
        index < later < entries.len() ==> (#[trigger] entries[later]).0 != entries[index].0
}

/// The address that the table of the source holds for a label is the
/// address of its last definition: the address at which the first pass
/// stood when it reported that definition. A label that is defined
/// once resolves to the address of that one definition.
pub proof fn lemma_label_resolves(text: Seq<char>, index: int)
    requires
        definitions(text) matches Ok(entries) && 0 <= index < entries.len() && forall|later: int|
            index < later < entries.len() ==> (#[trigger] entries[later]).0 != entries[index].0,
    ensures
        label_table(text) matches Ok(table) && table.contains_key(
            definitions(text)->Ok_0[index].0,
        ) && table[definitions(text)->Ok_0[index].0] == definitions(text)->Ok_0[index].1,
{
    lemma_last_entry_decides(definitions(text)->Ok_0, index);
}

/// In a table built from a list of entries, the last entry for a label
/// decides its address.
pub proof fn lemma_last_entry_decides(entries: Seq<(Seq<char>, u16)>, index: int)
    requires
        0 <= index < entries.len(),
        forall|later: int|
            index < later < entries.len() ==> (#[trigger] entries[later]).0 != entries[index].0,
    ensures
        table_of(entries).contains_key(entries[index].0),
        table_of(entries)[entries[index].0] == entries[index].1,
    decreases entries.len(),
{
    if index < entries.len() - 1 {
        let rest = entries.drop_last();
        assert(rest[index] == entries[index]);
        assert forall|later: int| index < later < rest.len() implies (#[trigger] rest[later]).0
            != rest[index].0 by {
            assert(rest[later] == entries[later]);
        }
        lemma_last_entry_decides(rest, index);
        assert(entries[entries.len() - 1].0 != entries[index].0);
    }
}

/// Both passes know a label by one name. The first pass reports a
/// label as it is written and enters it in the table in upper case;
/// that is the text of the token that the second pass reads at the
/// same place.
pub proof fn lemma_label_names_agree(text: Seq<char>, pos: int)
    requires
        0 <= pos <= text.len(),
        scan(text, pos).token matches Some(lexeme) && (lexeme.kind == TokenType::Label
            || lexeme.kind == TokenType::LblDef),
    ensures
        upper_seq(label_lexeme(text, scan(text, pos)).value.text()) == scan(
            text,
            pos,
        ).token->0.value.text(),
{
    reveal_strlit("_");
    lemma_scan_bounds(text, pos);
    let start = skip_blank(text, pos);
    lemma_letters_end_bounds(text, start + 1);
    let end = letters_end(text, start + 1);
    let written = text.subrange(start, end);
    assert(upper_seq(written) =~= "_"@ + upper_seq(text.subrange(start + 1, end)));
}

/// A reference to a label resolves to the address of the last
/// definition of that label. If the source has a definition of the
/// label that the current token refers to, and no later one, the
/// second pass takes the address of that definition for the reference.
pub proof fn lemma_reference_resolves(text: Seq<char>, c: Cursor, index: int)
    requires
        c.token.kind == TokenType::Label,
        read(text, c.pos) is Ok,
        definitions(text) matches Ok(entries) && 0 <= index < entries.len() && entries[index].0
            == c.token.value.text() && forall|later: int|
            index < later < entries.len() ==> (#[trigger] entries[later]).0 != entries[index].0,
    ensures
        label_table(text) matches Ok(table) && label(text, table, c) == Ok::<(u16, Cursor), Fault>(
            (definitions(text)->Ok_0[index].1, read(text, c.pos)->Ok_0),
        ),
{
    lemma_label_resolves(text, index);
}

/// A source whose labels the first pass can collect starts with a
/// token that the second pass can read.
pub proof fn lemma_first_token_lexes(text: Seq<char>)
    requires
        definitions(text) is Ok,
    ensures
        first(text) is Ok,
{
}

} // verus!
