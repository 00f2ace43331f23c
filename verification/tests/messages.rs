use ch8alib::codegen::{Assembler, Reg, SkipType};
use ch8alib::error::{
    AddrError, ArgError, AsmError, EncodeError, EncodeErrorType, LexerError, OpcodeError,
    ParseError, SkipError, VariantError,
};
use ch8alib::lex::TokenType;

#[test]
fn test_messages_of_the_errors() {
    assert_eq!(LexerError::new(1, 9, '@').message(), "(1:9): unknown character @");
    assert_eq!(
        ParseError::new(&TokenType::Comma, &TokenType::EndOfInput, 12, 3).message(),
        "(12:3): Expected comma, found EOF"
    );
    assert_eq!(
        ParseError::new(&TokenType::LblDef, &TokenType::BinLit, 1, 1).message(),
        "(1:1): Expected label definition, found binary literal"
    );
    assert_eq!(OpcodeError::new("NOP", 2, 4).message(), "(2:4): unknown instruction NOP");
    assert_eq!(
        ArgError::new(&Reg::I, "SHR", 1, 6).message(),
        "(1:6): bad argument I for SHR instruction"
    );
    assert_eq!(
        ArgError::new(&Reg::VA, "MOV", 10, 100).message(),
        "(10:100): bad argument VA for MOV instruction"
    );
    assert_eq!(SkipError::new(SkipType::KeyDown, 3, 15).message(), "(3:15): Bad skip type KeyDown");
    assert_eq!(SkipError::new(SkipType::NotEquals, 3, 15).message(), "(3:15): Bad skip type NotEquals");
    assert_eq!(
        AddrError::new("_START").message(),
        "Could not get the address of the label _START"
    );
    assert_eq!(
        VariantError::new("byte", "text").message(),
        "Attempted to unwrap a text variant as a byte variant."
    );
    assert_eq!(
        EncodeError::new(EncodeErrorType::FileExists, "a.c8").message(),
        "An error occurred creating the Chip-8 binary: A binary already exists with the given name"
    );
    assert_eq!(
        EncodeError::new(EncodeErrorType::DataError, "a.c8").message(),
        "An error occurred creating the Chip-8 binary: Error writing data into binary"
    );
    assert_eq!(
        EncodeError::new(EncodeErrorType::FileError, "a.c8").message(),
        "An error occurred creating the Chip-8 binary: Error writing binary to disk"
    );
    assert_eq!(EncodeError::new(EncodeErrorType::FileError, "a.c8").get_type(), EncodeErrorType::FileError);
}

#[test]
fn test_messages_give_numbers_in_decimal() {
    assert_eq!(LexerError::new(0, 10, 'x').message(), "(0:10): unknown character x");
    assert_eq!(
        LexerError::new(4294967295, 1000000, '?').message(),
        "(4294967295:1000000): unknown character ?"
    );
}

#[test]
fn test_message_of_an_assembly_error_is_that_of_its_cause() {
    let e = AsmError::Argument(ArgError::new(&Reg::I, "SHR", 1, 6));
    assert_eq!(e.message(), "(1:6): bad argument I for SHR instruction");
    let mut assembler = Assembler::new("CLS\n  JMP _nowhere", "messages.c8").unwrap();
    assert_eq!(
        assembler.assemble().unwrap_err().message(),
        "Could not get the address of the label _NOWHERE"
    );
    let mut assembler = Assembler::new("CLS\n  OR V0, #1", "messages.c8").unwrap();
    assert_eq!(
        assembler.assemble().unwrap_err().message(),
        "(2:12): Expected register, found decimal literal"
    );
    match Assembler::new("CLS\n  OR V0; @", "messages.c8") {
        Ok(_) => {},
        Err(_) => panic!("a comment holds any character"),
    }
    match Assembler::new("CLS\n  OR V0 @", "messages.c8") {
        Ok(_) => panic!("an unknown character"),
        Err(e) => assert_eq!(e.message(), "(2:9): unknown character @"),
    }
}

#[test]
fn test_names_of_registers_and_conditions() {
    assert_eq!(Reg::V0.get_name(), "V0");
    assert_eq!(Reg::VF.get_name(), "VF");
    assert_eq!(Reg::I.get_name(), "I");
    assert_eq!(Reg::general(11), Reg::VB);
    assert_eq!(Reg::general(16), Reg::V0);
    assert_eq!(SkipType::Equals.get_name(), "Equals");
    assert_eq!(SkipType::KeyUp.get_name(), "KeyUp");
}
