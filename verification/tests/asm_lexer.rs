use ch8alib::error::LexerError;
use ch8alib::lex::{AsmLexer, Token, TokenType};
use ch8alib::util::Variant;

//define code strings to be lexed
const LEX_STR: &str = "MOV V1, V2
                            _hex:
                            $FC00
                            _bin: 
                            %11111111
                            _dec:
                            #212
                            _start:
                            CLS
                            SKIP.NE V0, V1 
                            CALL _start 
                            RET";
const ERR_STR: &str = "MOV V1, @";

fn text(kind: TokenType, s: &str) -> Token {
    Token::new(kind, Variant::Text(String::from(s)))
}

fn all_tokens(src: &str) -> Vec<Token> {
    let mut lex = AsmLexer::new(src);
    let mut out = Vec::new();
    loop {
        let tok = lex.get_next_token().unwrap();
        let done = tok.get_type() == TokenType::EndOfInput;
        out.push(tok);
        if done {
            return out;
        }
    }
}

//this test checks error generation
#[test]
#[should_panic]
fn asm_lexer_test_err_gen() {
    let mut lex = AsmLexer::new(ERR_STR);
    let mut _tok = lex.get_next_token().unwrap();
    _tok = lex.get_next_token().unwrap();
    _tok = lex.get_next_token().unwrap();
    _tok = lex.get_next_token().unwrap();
}

//this test checks token generation
#[test]
fn asm_lexer_test_token_gen() {
    let mut lex = AsmLexer::new(LEX_STR);
    let mut tok = lex.get_next_token().unwrap();
    assert_eq!(tok.get_type(), TokenType::Instruction);
    assert_eq!(tok.get_value(), Variant::Text(String::from("MOV")));
    tok = lex.get_next_token().unwrap();
    assert_eq!(tok.get_type(), TokenType::Register);
    assert_eq!(tok.get_value(), Variant::Text(String::from("V1")));
    tok = lex.get_next_token().unwrap();
    assert_eq!(tok.get_type(), TokenType::Comma);
    tok = lex.get_next_token().unwrap();
    assert_eq!(tok.get_type(), TokenType::Register);
    assert_eq!(tok.get_value(), Variant::Text(String::from("V2")));
    tok = lex.get_next_token().unwrap();
    assert_eq!(tok.get_type(), TokenType::LblDef);
    assert_eq!(tok.get_value(), Variant::Text(String::from("_HEX")));
    tok = lex.get_next_token().unwrap();
    assert_eq!(tok.get_type(), TokenType::HexLit);
    assert_eq!(tok.get_value(), Variant::Word(0xFC00));
    tok = lex.get_next_token().unwrap();
    assert_eq!(tok.get_type(), TokenType::LblDef);
    assert_eq!(tok.get_value(), Variant::Text(String::from("_BIN")));
    tok = lex.get_next_token().unwrap();
    assert_eq!(tok.get_type(), TokenType::BinLit);
    assert_eq!(tok.get_value(), Variant::Byte(0xFF));
    tok = lex.get_next_token().unwrap();
    assert_eq!(tok.get_type(), TokenType::LblDef);
    assert_eq!(tok.get_value(), Variant::Text(String::from("_DEC")));
    tok = lex.get_next_token().unwrap();
    assert_eq!(tok.get_type(), TokenType::DecLit);
    assert_eq!(tok.get_value(), Variant::Word(212));
    tok = lex.get_next_token().unwrap();
    assert_eq!(tok.get_type(), TokenType::LblDef);
    assert_eq!(tok.get_value(), Variant::Text(
                                    String::from("_START")));
    tok = lex.get_next_token().unwrap();
    assert_eq!(tok.get_type(), TokenType::Instruction);
    assert_eq!(tok.get_value(), Variant::Text(String::from("CLS")));
    tok = lex.get_next_token().unwrap();
    assert_eq!(tok.get_type(), TokenType::Instruction);
    assert_eq!(tok.get_value(), Variant::Text(String::from("SKIP")));
    tok = lex.get_next_token().unwrap();
    assert_eq!(tok.get_type(), TokenType::Period);
    tok = lex.get_next_token().unwrap();
    assert_eq!(tok.get_type(), TokenType::SkipCond);
    assert_eq!(tok.get_value(), Variant::Text(String::from("NE")));
    tok = lex.get_next_token().unwrap();
    assert_eq!(tok.get_type(), TokenType::Register);
    assert_eq!(tok.get_value(), Variant::Text(String::from("V0")));
    tok = lex.get_next_token().unwrap();
    assert_eq!(tok.get_type(), TokenType::Comma);
    tok = lex.get_next_token().unwrap();
    assert_eq!(tok.get_type(), TokenType::Register);
    assert_eq!(tok.get_value(), Variant::Text(String::from("V1")));
    tok = lex.get_next_token().unwrap();
    assert_eq!(tok.get_type(), TokenType::Instruction);
    assert_eq!(tok.get_value(), Variant::Text(String::from("CALL")));
    tok = lex.get_next_token().unwrap();
    assert_eq!(tok.get_type(), TokenType::Label);
    assert_eq!(tok.get_value(), Variant::Text(
                                        String::from("_START")));
    tok = lex.get_next_token().unwrap();
    assert_eq!(tok.get_type(), TokenType::Instruction);
    assert_eq!(tok.get_value(), Variant::Text(String::from("RET")));
    tok = lex.get_next_token().unwrap();
    assert_eq!(tok.get_type(), TokenType::EndOfInput);
}

#[test]
fn test_tokens_of_a_register_move() {
    assert_eq!(
        all_tokens("MOV V1, V2"),
        vec![
            text(TokenType::Instruction, "MOV"),
            text(TokenType::Register, "V1"),
            text(TokenType::Comma, ","),
            text(TokenType::Register, "V2"),
            text(TokenType::EndOfInput, ""),
        ]
    );
}

#[test]
fn test_end_of_input_repeats() {
    let mut lex = AsmLexer::new("CLS ; done\n   ");
    assert_eq!(lex.get_next_token().unwrap(), text(TokenType::Instruction, "CLS"));
    for _ in 0..5 {
        assert_eq!(lex.get_next_token().unwrap(), text(TokenType::EndOfInput, ""));
    }
}

#[test]
fn test_empty_source_is_end_of_input() {
    assert_eq!(all_tokens(""), vec![text(TokenType::EndOfInput, "")]);
    assert_eq!(all_tokens(" \t\r\n"), vec![text(TokenType::EndOfInput, "")]);
    assert_eq!(all_tokens("; only a comment"), vec![text(TokenType::EndOfInput, "")]);
}

#[test]
fn test_lower_case_is_canonicalized() {
    assert_eq!(
        all_tokens("mov v1, va\nadd i, vf\n_loop: jmp _Loop skip.nokey"),
        vec![
            text(TokenType::Instruction, "MOV"),
            text(TokenType::Register, "V1"),
            text(TokenType::Comma, ","),
            text(TokenType::Register, "VA"),
            text(TokenType::Instruction, "ADD"),
            text(TokenType::Register, "I"),
            text(TokenType::Comma, ","),
            text(TokenType::Register, "VF"),
            text(TokenType::LblDef, "_LOOP"),
            text(TokenType::Instruction, "JMP"),
            text(TokenType::Label, "_LOOP"),
            text(TokenType::Instruction, "SKIP"),
            text(TokenType::Period, "."),
            text(TokenType::SkipCond, "NOKEY"),
            text(TokenType::EndOfInput, ""),
        ]
    );
}

#[test]
fn test_skip_condition_words() {
    for word in ["EQ", "NE", "KEY", "NOKEY"] {
        assert_eq!(
            all_tokens(word),
            vec![text(TokenType::SkipCond, word), text(TokenType::EndOfInput, "")]
        );
    }
    for word in ["KD", "KU", "EQU", "N", "KEYS"] {
        assert_eq!(
            all_tokens(word),
            vec![text(TokenType::Instruction, word), text(TokenType::EndOfInput, "")]
        );
    }
}

#[test]
fn test_newline_skips_nothing_but_itself() {
    assert_eq!(
        all_tokens("_hex:\n$FC00\r\n%00000101\n#7"),
        vec![
            text(TokenType::LblDef, "_HEX"),
            Token::new(TokenType::HexLit, Variant::Word(0xFC00)),
            Token::new(TokenType::BinLit, Variant::Byte(5)),
            Token::new(TokenType::DecLit, Variant::Word(7)),
            text(TokenType::EndOfInput, ""),
        ]
    );
}

#[test]
fn test_comment_runs_to_end_of_line() {
    assert_eq!(
        all_tokens("CLS ; clear @ everything\nRET;bye"),
        vec![
            text(TokenType::Instruction, "CLS"),
            text(TokenType::Instruction, "RET"),
            text(TokenType::EndOfInput, ""),
        ]
    );
}

#[test]
fn test_literal_values() {
    assert_eq!(
        all_tokens("#0 #65535 $0 $ffff $00012 %00000000 %10000001"),
        vec![
            Token::new(TokenType::DecLit, Variant::Word(0)),
            Token::new(TokenType::DecLit, Variant::Word(65535)),
            Token::new(TokenType::HexLit, Variant::Word(0)),
            Token::new(TokenType::HexLit, Variant::Word(0xFFFF)),
            Token::new(TokenType::HexLit, Variant::Word(0x12)),
            Token::new(TokenType::BinLit, Variant::Byte(0)),
            Token::new(TokenType::BinLit, Variant::Byte(0x81)),
            text(TokenType::EndOfInput, ""),
        ]
    );
}

#[test]
fn test_unknown_character_is_an_error_with_its_position() {
    let mut lex = AsmLexer::new(ERR_STR);
    assert_eq!(lex.get_next_token().unwrap(), text(TokenType::Instruction, "MOV"));
    assert_eq!(lex.get_next_token().unwrap(), text(TokenType::Register, "V1"));
    assert_eq!(lex.get_next_token().unwrap(), text(TokenType::Comma, ","));
    assert_eq!(lex.get_next_token(), Err(LexerError::new(1, 9, '@')));
    assert_eq!(lex.get_next_token(), Err(LexerError::new(1, 9, '@')));
    assert_eq!(lex.get_line(), 1);
    assert_eq!(lex.get_column(), 9);
}

#[test]
fn test_error_position_counts_lines_and_columns() {
    let mut lex = AsmLexer::new("CLS\n  RET\r\n\tV1 ?");
    assert_eq!((lex.get_line(), lex.get_column()), (1, 1));
    lex.get_next_token().unwrap();
    assert_eq!((lex.get_line(), lex.get_column()), (1, 4));
    lex.get_next_token().unwrap();
    assert_eq!((lex.get_line(), lex.get_column()), (2, 6));
    lex.get_next_token().unwrap();
    assert_eq!((lex.get_line(), lex.get_column()), (4, 4));
    assert_eq!(lex.get_next_token(), Err(LexerError::new(4, 5, '?')));
}

#[test]
fn test_malformed_literals_are_errors() {
    // no digit after the sigil
    assert_eq!(AsmLexer::new("#x").get_next_token(), Err(LexerError::new(1, 2, 'x')));
    assert_eq!(AsmLexer::new("$").get_next_token(), Err(LexerError::new(1, 2, '\0')));
    // the digit that takes the value past 16 bits
    assert_eq!(AsmLexer::new("#65536").get_next_token(), Err(LexerError::new(1, 6, '6')));
    assert_eq!(AsmLexer::new("$10000").get_next_token(), Err(LexerError::new(1, 6, '0')));
    // fewer than eight binary digits
    assert_eq!(AsmLexer::new("%1010 ").get_next_token(), Err(LexerError::new(1, 6, ' ')));
    assert_eq!(AsmLexer::new("%00000002").get_next_token(), Err(LexerError::new(1, 9, '2')));
}

#[test]
fn test_register_needs_a_hex_digit() {
    assert_eq!(AsmLexer::new("VG").get_next_token(), Err(LexerError::new(1, 2, 'G')));
    assert_eq!(AsmLexer::new("V").get_next_token(), Err(LexerError::new(1, 2, '\0')));
    assert_eq!(AsmLexer::new("i").get_next_token().unwrap(), text(TokenType::Register, "I"));
}

#[test]
fn test_non_ascii_is_an_unknown_character() {
    assert_eq!(AsmLexer::new("é").get_next_token(), Err(LexerError::new(1, 1, 'é')));
    assert_eq!(
        all_tokens("CLS ; ça va"),
        vec![text(TokenType::Instruction, "CLS"), text(TokenType::EndOfInput, "")]
    );
}
