use ch8alib::lex::{Token, TokenType};
use ch8alib::util::Variant;

//this test checks equality comparisons
#[test]
fn token_test_equality() {
    let t1 = Token::new(TokenType::DecLit, Variant::Word(0xDEAD));
    let t2 = Token::new(TokenType::DecLit, Variant::Word(0xDEAD));
    assert_eq!(t1, t2);
    assert_eq!(t1, t1);
}

//this test checks inequality comparisons
#[test]
fn token_test_inequality() {
    let t1 = Token::new(TokenType::Label, Variant::Word(0xFC00));
    let t2 = Token::new(TokenType::Register, Variant::Byte(0x5));
    assert_ne!(t1, t2);
}

#[test]
fn test_token_getters() {
    let t = Token::new(TokenType::HexLit, Variant::Word(0xFC00));
    assert_eq!(t.get_type(), TokenType::HexLit);
    assert_eq!(t.get_value(), Variant::Word(0xFC00));
    assert_eq!(t.clone(), t);
}

#[test]
fn test_tokens_differ_by_type_or_by_value() {
    let t = Token::new(TokenType::HexLit, Variant::Word(212));
    assert_ne!(t, Token::new(TokenType::DecLit, Variant::Word(212)));
    assert_ne!(t, Token::new(TokenType::HexLit, Variant::Word(213)));
}

#[test]
fn test_token_type_names() {
    assert_eq!(TokenType::Instruction.get_name(), "instruction");
    assert_eq!(TokenType::Label.get_name(), "label");
    assert_eq!(TokenType::LblDef.get_name(), "label definition");
    assert_eq!(TokenType::Register.get_name(), "register");
    assert_eq!(TokenType::DecLit.get_name(), "decimal literal");
    assert_eq!(TokenType::HexLit.get_name(), "hex literal");
    assert_eq!(TokenType::BinLit.get_name(), "binary literal");
    assert_eq!(TokenType::SkipCond.get_name(), "skip condition");
    assert_eq!(TokenType::Comma.get_name(), "comma");
    assert_eq!(TokenType::Period.get_name(), "period");
    assert_eq!(TokenType::EndOfInput.get_name(), "EOF");
}
