use ch8alib::error::LexerError;
use ch8alib::lex::{PrepLexer, Token, TokenType};
use ch8alib::util::constants;
use ch8alib::util::Variant;

//define strings to be lexed
const LEX_STR: &str = "MOV V1, V2 
                    _hex:
                    $FC00
                    _bin:
                    %01011010
                    _dec:
                    #255
                    _start: 
                    CLS 
                    CALL _start 
                    RET"; 
const ERR_STR: &str = "MOV V1, @";

fn text(kind: TokenType, s: &str) -> Token {
    Token::new(kind, Variant::Text(String::from(s)))
}

/// The address after the whole of `src` has been counted.
fn end_address(src: &str) -> u16 {
    let mut lex = PrepLexer::new(src);
    loop {
        let tok = lex.get_next_token().unwrap();
        if tok.get_type() == TokenType::EndOfInput {
            return lex.get_address();
        }
    }
}

//this test checks error generation
#[test]
#[should_panic]
fn prep_lexer_test_err_gen() {
    let mut lex = PrepLexer::new(ERR_STR);
    let _tok = lex.get_next_token().unwrap();
}

//this test checks token and address generation
#[test]
fn prep_lexer_test_token_gen() {
    let mut lex = PrepLexer::new(LEX_STR);
    let mut tok = lex.get_next_token().unwrap();
    assert_eq!(tok.get_type(), TokenType::LblDef);
    assert_eq!(lex.get_address(), constants::MEM_START + 2);
    tok = lex.get_next_token().unwrap();
    let lbl = match tok.get_value() {
        Variant::Text(l) => l,
        _ => panic!("Bad token")
    };
    assert_eq!(tok.get_type(), TokenType::LblDef);
    assert_eq!(lex.get_address(), constants::MEM_START + 4);
    assert_eq!(lbl.as_str(), "_bin");
    tok = lex.get_next_token().unwrap();
    assert_eq!(tok.get_type(), TokenType::LblDef);
    assert_eq!(lex.get_address(), constants::MEM_START + 5);
    tok = lex.get_next_token().unwrap();
    assert_eq!(tok.get_type(), TokenType::LblDef);
    assert_eq!(lex.get_address(), constants::MEM_START + 6);
    tok = lex.get_next_token().unwrap();
    let l2 = match tok.get_value() {
        Variant::Text(l) => l,
        _ => panic!("Bad token")
    };
    assert_eq!(tok.get_type(), TokenType::Label);
    assert_eq!(lex.get_address(), constants::MEM_START + 10);
    assert_eq!(l2, "_start");
    tok = lex.get_next_token().unwrap();
    assert_eq!(tok.get_type(), TokenType::EndOfInput);
    assert_eq!(lex.get_address(), constants::MEM_START + 12);
}

#[test]
fn test_label_addresses_of_data() {
    let mut lex = PrepLexer::new("_hex:\n$FC00\n_bin:\n%11111111\n_dec:\n#212\n_start:");
    assert_eq!(lex.get_address(), 0x0200);
    assert_eq!(lex.get_next_token().unwrap(), text(TokenType::LblDef, "_hex"));
    assert_eq!(lex.get_address(), 0x0200);
    assert_eq!(lex.get_next_token().unwrap(), text(TokenType::LblDef, "_bin"));
    assert_eq!(lex.get_address(), 0x0202);
    assert_eq!(lex.get_next_token().unwrap(), text(TokenType::LblDef, "_dec"));
    assert_eq!(lex.get_address(), 0x0203);
    assert_eq!(lex.get_next_token().unwrap(), text(TokenType::LblDef, "_start"));
    assert_eq!(lex.get_address(), 0x0204);
    assert_eq!(lex.get_next_token().unwrap(), text(TokenType::EndOfInput, ""));
    assert_eq!(lex.get_address(), 0x0204);
}

#[test]
fn test_unknown_character_stops_the_first_pass() {
    let mut lex = PrepLexer::new(ERR_STR);
    assert_eq!(lex.get_next_token(), Err(LexerError::new(1, 9, '@')));
    assert_eq!(lex.get_line(), 1);
    assert_eq!(lex.get_column(), 9);
}

#[test]
fn test_nibbles_of_decimal_literals() {
    // the logarithm to the base 2, rounded up, over 4, rounded up
    let cases: [(&str, u16); 12] = [
        ("#0 #0", 0),
        ("#1 #1", 0),
        ("#2 #2", 1),
        ("#16 #16", 1),
        ("#17", 1),
        ("#255", 1),
        ("#256", 1),
        ("#257 #257", 2),
        ("#4096 #4096", 2),
        ("#4097", 2),
        ("#65535", 2),
        ("#65535 #2", 2),
    ];
    for (src, bytes) in cases {
        assert_eq!(end_address(src), constants::MEM_START + bytes, "{}", src);
    }
}

#[test]
fn test_nibbles_of_other_tokens() {
    // a register is one nibble: two of them make a byte
    assert_eq!(end_address("V1"), 0x0200);
    assert_eq!(end_address("V1 I"), 0x0201);
    // a mnemonic is two nibbles, CLS and RET are four
    assert_eq!(end_address("JMP"), 0x0201);
    assert_eq!(end_address("CLS"), 0x0202);
    assert_eq!(end_address("ret"), 0x0202);
    // a hex literal counts the digits written
    assert_eq!(end_address("$1"), 0x0200);
    assert_eq!(end_address("$01"), 0x0201);
    assert_eq!(end_address("$0001"), 0x0202);
    assert_eq!(end_address("$000001"), 0x0203);
    // a binary literal is one byte, a label reference too
    assert_eq!(end_address("%00000001"), 0x0201);
    assert_eq!(end_address("_there"), 0x0201);
    // punctuation, comments and definitions count nothing
    assert_eq!(end_address(", . ; JMP\n _here:"), 0x0200);
}

#[test]
fn test_pending_nibble_is_carried_and_an_odd_one_dropped() {
    // 1 pending + 2 = 3 nibbles: one byte, nothing left pending
    assert_eq!(end_address("V1 JMP V2"), 0x0201);
    // 1 pending + 1 = 2 nibbles
    assert_eq!(end_address("V1 V2 V3 V4"), 0x0202);
}

#[test]
fn test_condition_after_a_period_counts_nothing() {
    assert_eq!(end_address("SKIP.NE V0, V1"), 0x0202);
    assert_eq!(end_address("SKIP.KEY V0"), 0x0201);
    // standing alone, the word is a mnemonic
    assert_eq!(end_address("KEY V2 V3"), 0x0202);
}

#[test]
fn test_label_definition_reports_address_before_pending_nibble() {
    let mut lex = PrepLexer::new("JMP V1 _a: V2 _b:");
    assert_eq!(lex.get_next_token().unwrap(), text(TokenType::LblDef, "_a"));
    assert_eq!(lex.get_address(), 0x0201);
    assert_eq!(lex.get_next_token().unwrap(), text(TokenType::LblDef, "_b"));
    assert_eq!(lex.get_address(), 0x0202);
}

#[test]
fn test_address_wraps_at_the_end_of_the_address_space() {
    // 0xFE00 bytes take the address from 0x0200 to the top; one more wraps
    let mut src = String::new();
    for _ in 0..0x7F00 {
        src.push_str("CLS ");
    }
    assert_eq!(end_address(&src), 0x0000);
    src.push_str("CLS");
    assert_eq!(end_address(&src), 0x0002);
}
