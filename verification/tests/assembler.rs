use ch8alib::codegen::Instr as Instruction;
use ch8alib::codegen::{
    assemble_source, assemble_with_binary, AddData, Assembler, DrawData, Instr, Item, MovData, PairData, RandData, Reg, SkipData, SkipType,
};
use ch8alib::error::{
    AddrError, ArgError, AsmError, EncodeError, EncodeErrorType, LexerError, OpcodeError,
    ParseError, SkipError,
};
use ch8alib::lex::TokenType;

//define the program
const CODE: &str = "CLS
                        MOV V0, #0
                        MOV V1, #15
                        KEY V2
                        SCH V2 
                        _loop:
                        DRAW V0, V1, #5
                        ADD V0, #1
                        JMP _loop";

/// The result of parsing `src` as one instruction.
fn parse(src: &str) -> Result<Instr, AsmError> {
    Assembler::new(src, "parse.c8").unwrap().instruction()
}

/// The result of assembling `src`, and the length of the binary.
fn assemble(src: &str) -> (Result<(), AsmError>, u16) {
    let mut assembler = Assembler::new(src, "assemble.c8").unwrap();
    let res = assembler.assemble();
    (res, assembler.binary_len())
}

fn full() -> AsmError {
    AsmError::Binary(EncodeError::new(EncodeErrorType::DataError, "assemble.c8"))
}

fn parse_error(expected: TokenType, actual: TokenType, line: u32, col: u32) -> AsmError {
    AsmError::Parser(ParseError::new(&expected, &actual, line, col))
}

fn arg_error(reg: Reg, instr: &str, line: u32, col: u32) -> AsmError {
    AsmError::Argument(ArgError::new(&reg, instr, line, col))
}

//this test checks code generation
#[test]
fn test_codegen() {
    let mut assembler = Assembler::new(CODE, "test.c8").unwrap();
    let mut i = assembler.instruction().unwrap();
    match i {
        Instruction::CLS => {},
        _ => panic!("Expected CLS")
    };
    i = assembler.instruction().unwrap();
    match i {
        Instruction::MOV(_data) => {},
        _ => panic!("Expected MOV")
    };
    i = assembler.instruction().unwrap();
    match i {
        Instruction::MOV(_data) => {},
        _ => panic!("Expected MOV")
    };
    i = assembler.instruction().unwrap();
    match i {
       Instruction::KEY(_data) => {},
       _ => panic!("Expected KEY")
    };
    i = assembler.instruction().unwrap();
    match i {
        Instruction::SCH(_data) => {},
        _ => panic!("Expected SCH")
    };
    assembler.eat(&TokenType::LblDef).unwrap();
    i = assembler.instruction().unwrap();
    match i {
        Instruction::DRAW(_data) => {},
        _ => panic!("Expected DRAW")
    };
    i = assembler.instruction().unwrap();
    match i {
        Instruction::ADD(_data) => {},
        _ => panic!("Expected ADD")
    };
    i = assembler.instruction().unwrap();
    match i {
        Instruction::JMP(_data) => {},
        _ => panic!("Expected JMP")
    };
}

#[test]
fn test_program_is_parsed_with_its_operands() {
    let mut assembler = Assembler::new(CODE, "operands.c8").unwrap();
    assert_eq!(assembler.item(), Ok(Some(Item::Instruction(Instr::CLS))));
    assert_eq!(
        assembler.item(),
        Ok(Some(Item::Instruction(Instr::MOV(MovData::Constant { dest: Reg::V0, value: 0 }))))
    );
    assert_eq!(
        assembler.item(),
        Ok(Some(Item::Instruction(Instr::MOV(MovData::Constant { dest: Reg::V1, value: 15 }))))
    );
    assert_eq!(assembler.item(), Ok(Some(Item::Instruction(Instr::KEY(Reg::V2)))));
    assert_eq!(assembler.item(), Ok(Some(Item::Instruction(Instr::SCH(Reg::V2)))));
    assert_eq!(assembler.item(), Ok(None));
    assert_eq!(
        assembler.item(),
        Ok(Some(Item::Instruction(Instr::DRAW(DrawData { vx: Reg::V0, vy: Reg::V1, h: 5 }))))
    );
    assert_eq!(
        assembler.item(),
        Ok(Some(Item::Instruction(Instr::ADD(AddData::Constant { first: Reg::V0, value: 1 }))))
    );
    // CLS is 4 nibbles, each MOV 2 + 1 + 1, KEY and SCH 2 + 1 with one
    // nibble dropped and one pending: the label stands 7 bytes in
    assert_eq!(assembler.item(), Ok(Some(Item::Instruction(Instr::JMP(0x0207)))));
}

#[test]
fn test_assemble_fills_the_binary() {
    assert_eq!(assemble(CODE), (Ok(()), 16));
    assert_eq!(assemble(""), (Ok(()), 0));
    assert_eq!(assemble("; nothing\n_only: _labels:"), (Ok(()), 0));
    assert_eq!(assemble("CLS"), (Ok(()), 2));
    assert_eq!(assemble("RET CLS RET"), (Ok(()), 6));
}

#[test]
fn test_both_passes_in_one_call() {
    assert_eq!(assemble_source(CODE, "whole.c8").unwrap().len(), 16);
    assert_eq!(assemble_source("", "whole.c8").unwrap().len(), 0);
    match assemble_source("CLS\nJMP _nowhere", "whole.c8") {
        Err(e) => assert_eq!(e, AsmError::Address(AddrError::new("_NOWHERE"))),
        Ok(_) => panic!("a label without an address"),
    }
    match assemble_source("CLS\nJMP _here @", "whole.c8") {
        Err(e) => assert_eq!(e, AsmError::Lexer(LexerError::new(2, 11, '@'))),
        Ok(_) => panic!("an unknown character"),
    }
}

#[test]
fn test_assembly_into_a_given_binary() {
    let binary = ch8_isa::codegen::Binary::new("given.c8");
    assert_eq!(assemble_with_binary(CODE, "given.c8", binary).unwrap().len(), 16);
    // the binary may hold bytes already
    let mut binary = ch8_isa::codegen::Binary::new("given.c8").unwrap();
    binary.add_byte(7).unwrap();
    assert_eq!(assemble_with_binary("CLS $1234 #1", "given.c8", Ok(binary)).unwrap().len(), 6);
    // an error of the grammar, and no binary
    match assemble_with_binary("CLS\nOR V0", "given.c8", ch8_isa::codegen::Binary::new("given.c8")) {
        Err(e) => assert_eq!(e, parse_error(TokenType::Comma, TokenType::EndOfInput, 2, 6)),
        Ok(_) => panic!("an instruction without its second operand"),
    }
    // no room: the error for a full binary comes before a later error of the grammar
    let mut src = String::new();
    for _ in 0..0x8000 {
        src.push_str("CLS\n");
    }
    src.push_str("OR V0");
    match assemble_with_binary(&src, "given.c8", ch8_isa::codegen::Binary::new("given.c8")) {
        Err(e) => assert_eq!(
            e,
            AsmError::Binary(EncodeError::new(EncodeErrorType::DataError, "given.c8"))
        ),
        Ok(_) => panic!("more bytes than the binary can count"),
    }
    let refused = ch8_isa::error::BinaryError::new(
        ch8_isa::error::BinaryErrorType::FileExists,
        "taken.c8",
    );
    match assemble_with_binary("CLS", "taken.c8", Err(refused)) {
        Err(e) => assert_eq!(
            e,
            AsmError::Binary(EncodeError::new(EncodeErrorType::FileExists, "taken.c8"))
        ),
        Ok(_) => panic!("a binary from nothing"),
    }
}

#[test]
fn test_failed_eat_consumes_nothing() {
    let mut assembler = Assembler::new("OR V1, V2", "eaten.c8").unwrap();
    assert_eq!((assembler.get_line(), assembler.get_column()), (1, 3));
    for _ in 0..3 {
        assert_eq!(
            assembler.eat(&TokenType::Comma),
            Err(parse_error(TokenType::Comma, TokenType::Instruction, 1, 3))
        );
        assert_eq!(
            assembler.register(),
            Err(parse_error(TokenType::Register, TokenType::Instruction, 1, 3))
        );
        assert_eq!(
            assembler.label(),
            Err(parse_error(TokenType::Label, TokenType::Instruction, 1, 3))
        );
        assert_eq!(
            assembler.constant(),
            Err(parse_error(TokenType::BinLit, TokenType::Instruction, 1, 3))
        );
    }
    assert_eq!(
        assembler.instruction(),
        Ok(Instr::OR(PairData { vx: Reg::V1, vy: Reg::V2 }))
    );
    // at a token that is no mnemonic, the instruction rule consumes nothing
    let mut assembler = Assembler::new("V1 CLS", "eaten.c8").unwrap();
    assert_eq!(
        assembler.instruction(),
        Err(parse_error(TokenType::Instruction, TokenType::Register, 1, 3))
    );
    assert_eq!(assembler.register(), Ok(Reg::V1));
    assert_eq!(assembler.instruction(), Ok(Instr::CLS));
}

#[test]
fn test_literals_at_top_level_are_data() {
    // a value above 0xFF is a word, any other a byte
    assert_eq!(assemble("#255"), (Ok(()), 1));
    assert_eq!(assemble("#256"), (Ok(()), 2));
    assert_eq!(assemble("$FF"), (Ok(()), 1));
    assert_eq!(assemble("$0100"), (Ok(()), 2));
    assert_eq!(assemble("$00FF"), (Ok(()), 1));
    assert_eq!(assemble("%11111111"), (Ok(()), 1));
    assert_eq!(assemble("_hex:\n$FC00\n_bin:\n%11111111\n_dec:\n#212\n_start:"), (Ok(()), 4));
    let mut assembler = Assembler::new("$FC00 %10000001 #212 #1000", "data.c8").unwrap();
    assert_eq!(assembler.item(), Ok(Some(Item::Word(0xFC00))));
    assert_eq!(assembler.item(), Ok(Some(Item::Byte(0x81))));
    assert_eq!(assembler.item(), Ok(Some(Item::Byte(212))));
    assert_eq!(assembler.item(), Ok(Some(Item::Word(1000))));
}

#[test]
fn test_every_mnemonic_with_its_operands() {
    let pair = PairData { vx: Reg::VA, vy: Reg::VF };
    let cases: Vec<(&str, Instr)> = vec![
        ("CLS", Instr::CLS),
        ("RET", Instr::RET),
        ("JMP $0ABC", Instr::JMP(0x0ABC)),
        ("CALL #512", Instr::CALL(512)),
        ("JPC %00010000", Instr::JPC(16)),
        ("OR VA, VF", Instr::OR(pair)),
        ("AND VA, VF", Instr::AND(pair)),
        ("XOR VA, VF", Instr::XOR(pair)),
        ("SUB VA, VF", Instr::SUB(pair)),
        ("SUBN VA, VF", Instr::SUBN(pair)),
        ("SHR V3", Instr::SHR(Reg::V3)),
        ("SHL V4", Instr::SHL(Reg::V4)),
        ("GDL V5", Instr::GDL(Reg::V5)),
        ("KEY V6", Instr::KEY(Reg::V6)),
        ("SDL V7", Instr::SDL(Reg::V7)),
        ("SND V8", Instr::SND(Reg::V8)),
        ("SCH V9", Instr::SCH(Reg::V9)),
        ("BCD VB", Instr::BCD(Reg::VB)),
        ("RDP VC", Instr::RDP(Reg::VC)),
        ("RLD VD", Instr::RLD(Reg::VD)),
        ("ADD VE, V0", Instr::ADD(AddData::Register { first: Reg::VE, second: Reg::V0 })),
        ("ADD I, V1", Instr::ADD(AddData::Register { first: Reg::I, second: Reg::V1 })),
        ("ADD V2, #300", Instr::ADD(AddData::Constant { first: Reg::V2, value: 300 })),
        ("MOV V1, V2", Instr::MOV(MovData::Register { dest: Reg::V1, src: Reg::V2 })),
        ("MOV V1, $FC", Instr::MOV(MovData::Constant { dest: Reg::V1, value: 0xFC })),
        ("MOV I, $0FC1", Instr::MOV(MovData::Constant { dest: Reg::I, value: 0x0FC1 })),
        ("RAND V0, $1FF", Instr::RAND(RandData { vx: Reg::V0, nn: 0xFF })),
        ("RAND V0, #7", Instr::RAND(RandData { vx: Reg::V0, nn: 7 })),
        ("DRAW V1, V2, #5", Instr::DRAW(DrawData { vx: Reg::V1, vy: Reg::V2, h: 5 })),
        ("DRAW V1, V2, $25", Instr::DRAW(DrawData { vx: Reg::V1, vy: Reg::V2, h: 5 })),
        (
            "SKIP.EQ V0, V1",
            Instr::SKIP(SkipData::Register { vx: Reg::V0, vy: Reg::V1, kind: SkipType::Equals }),
        ),
        (
            "SKIP.NE V0, V1",
            Instr::SKIP(SkipData::Register { vx: Reg::V0, vy: Reg::V1, kind: SkipType::NotEquals }),
        ),
        (
            "SKIP.EQ V0, #5",
            Instr::SKIP(SkipData::Constant { vx: Reg::V0, nn: 5, kind: SkipType::Equals }),
        ),
        (
            "SKIP.NE V0, $105",
            Instr::SKIP(SkipData::Constant { vx: Reg::V0, nn: 5, kind: SkipType::NotEquals }),
        ),
        ("SKIP.KEY V0", Instr::SKIP(SkipData::Key { vx: Reg::V0, kind: SkipType::KeyDown })),
        ("SKIP.KD V1", Instr::SKIP(SkipData::Key { vx: Reg::V1, kind: SkipType::KeyDown })),
        ("SKIP.KU V2", Instr::SKIP(SkipData::Key { vx: Reg::V2, kind: SkipType::KeyUp })),
        ("SKIP.NOKEY VF", Instr::SKIP(SkipData::Key { vx: Reg::VF, kind: SkipType::KeyUp })),
    ];
    for (src, instr) in cases {
        assert_eq!(parse(src), Ok(instr), "{}", src);
        assert_eq!(assemble(src), (Ok(()), 2), "{}", src);
        let lower = src.to_lowercase();
        assert_eq!(parse(&lower), Ok(instr), "{}", lower);
    }
}

#[test]
fn test_general_register_mnemonics_reject_the_index_register() {
    assert_eq!(parse("SHR I"), Err(arg_error(Reg::I, "SHR", 1, 6)));
    for m in ["SHR", "SHL", "GDL", "KEY", "SDL", "SND", "SCH", "BCD", "RDP", "RLD"] {
        let src = format!("{} I", m);
        let col = src.len() as u32 + 1;
        assert_eq!(parse(&src), Err(arg_error(Reg::I, m, 1, col)));
        let (res, len) = assemble(&src);
        assert_eq!(res, Err(arg_error(Reg::I, m, 1, col)));
        assert_eq!(len, 0);
    }
    for m in ["OR", "AND", "XOR", "SUB", "SUBN"] {
        assert!(matches!(parse(&format!("{} I, V0", m)), Err(AsmError::Argument(_))));
        assert!(matches!(parse(&format!("{} V0, I", m)), Err(AsmError::Argument(_))));
    }
    assert_eq!(parse("RAND I, #1 "), Err(arg_error(Reg::I, "RAND", 1, 8)));
    assert_eq!(parse("DRAW I, V0, #1"), Err(arg_error(Reg::I, "DRAW", 1, 8)));
    assert_eq!(parse("DRAW V0, I, #1"), Err(arg_error(Reg::I, "DRAW", 1, 12)));
    assert_eq!(parse("SKIP.EQ I, V0"), Err(arg_error(Reg::I, "SKIP", 1, 11)));
    assert_eq!(parse("SKIP.EQ V0, I"), Err(arg_error(Reg::I, "SKIP", 1, 14)));
    assert_eq!(parse("SKIP.KEY I"), Err(arg_error(Reg::I, "SKIP", 1, 11)));
    assert_eq!(parse("ADD V0, I"), Err(arg_error(Reg::I, "ADD", 1, 10)));
    assert_eq!(parse("ADD I, #5"), Err(arg_error(Reg::I, "ADD", 1, 10)));
    assert_eq!(parse("MOV V0, I"), Err(arg_error(Reg::I, "MOV", 1, 10)));
    assert_eq!(parse("MOV I, V0"), Err(arg_error(Reg::I, "MOV", 1, 10)));
}

#[test]
fn test_out_of_grammar_operands_are_errors() {
    let cases: [&str; 20] = [
        "JMP V0",
        "JMP",
        "CALL ,",
        "JPC .",
        "OR V0",
        "OR V0 V1",
        "AND V0, #1",
        "XOR #1, V0",
        "SUB V0, _x",
        "SHR #1",
        "SHL",
        "RAND V0",
        "RAND V0, V1",
        "DRAW V0, V1",
        "DRAW V0, V1, V2",
        "ADD #1, V0",
        "MOV V0",
        "MOV V0 #1",
        "SKIP V0",
        "SKIP.V0",
    ];
    for src in cases {
        match parse(src) {
            Err(AsmError::Parser(_)) | Err(AsmError::Argument(_)) | Err(AsmError::Skip(_)) => {},
            other => panic!("{}: {:?}", src, other),
        }
        assert_eq!(assemble(src).1, 0, "{}", src);
    }
    assert_eq!(parse("JMP V0"), Err(parse_error(TokenType::BinLit, TokenType::Register, 1, 7)));
    assert_eq!(parse("OR V0 V1"), Err(parse_error(TokenType::Comma, TokenType::Register, 1, 9)));
    assert_eq!(parse("SHL"), Err(parse_error(TokenType::Register, TokenType::EndOfInput, 1, 4)));
    assert_eq!(parse("SKIP V0"), Err(parse_error(TokenType::Period, TokenType::Register, 1, 8)));
    assert_eq!(
        parse("SKIP.XX V0"),
        Err(parse_error(TokenType::SkipCond, TokenType::Instruction, 1, 8))
    );
}

#[test]
fn test_skip_condition_must_fit_the_operands() {
    // a key condition paired with a second operand
    let key_down = AsmError::Skip(SkipError::new(SkipType::KeyDown, 1, 12));
    assert_eq!(parse("SKIP.KD V0, V1"), Err(key_down));
    let (res, len) = assemble("SKIP.KD V0, V1");
    assert_eq!(res, Err(AsmError::Skip(SkipError::new(SkipType::KeyDown, 1, 12))));
    assert_eq!(len, 0);
    assert_eq!(
        parse("SKIP.KU V0, #5"),
        Err(AsmError::Skip(SkipError::new(SkipType::KeyUp, 1, 12)))
    );
    assert_eq!(
        parse("SKIP.NOKEY V0,"),
        Err(AsmError::Skip(SkipError::new(SkipType::KeyUp, 1, 15)))
    );
    assert_eq!(
        parse("SKIP.KD V0 V1"),
        Err(AsmError::Skip(SkipError::new(SkipType::KeyDown, 1, 14)))
    );
    assert_eq!(
        parse("SKIP.KU V0 $1"),
        Err(AsmError::Skip(SkipError::new(SkipType::KeyUp, 1, 14)))
    );
    let (res, len) = assemble("SKIP.KEY V0, V1");
    assert_eq!(res, Err(AsmError::Skip(SkipError::new(SkipType::KeyDown, 1, 13))));
    assert_eq!(len, 0);
    // a key test alone succeeds, whatever instruction follows
    assert_eq!(assemble("SKIP.KD V0\nSKIP.KEY V1 CLS"), (Ok(()), 6));
    assert_eq!(
        parse("SKIP.KEY V0 V1"),
        Err(AsmError::Skip(SkipError::new(SkipType::KeyDown, 1, 15)))
    );
    assert_eq!(
        parse("SKIP.NOKEY V0 #5"),
        Err(AsmError::Skip(SkipError::new(SkipType::KeyUp, 1, 17)))
    );
    // a comparison without a second operand
    assert_eq!(
        parse("SKIP.EQ V0, CLS"),
        Err(AsmError::Skip(SkipError::new(SkipType::Equals, 1, 16)))
    );
    assert_eq!(
        parse("SKIP.NE V0,"),
        Err(AsmError::Skip(SkipError::new(SkipType::NotEquals, 1, 12)))
    );
    assert_eq!(parse("SKIP.EQ V0"), Err(parse_error(TokenType::Comma, TokenType::EndOfInput, 1, 11)));
    // both comparisons succeed, and differ
    let by_register = parse("SKIP.EQ V0, V1").unwrap();
    let by_constant = parse("SKIP.EQ V0, #5").unwrap();
    assert_ne!(by_register, by_constant);
    assert_eq!(assemble("SKIP.EQ V0, V1\nSKIP.EQ V0, #5"), (Ok(()), 4));
}

#[test]
fn test_label_operand_goes_to_the_index_register_only() {
    assert_eq!(
        parse("MOV I, _start\n_start:"),
        Ok(Instr::MOV(MovData::Constant { dest: Reg::I, value: 0x0202 }))
    );
    assert_eq!(
        parse("_start: MOV I, _start"),
        Err(parse_error(TokenType::Instruction, TokenType::LblDef, 1, 8))
    );
    let mut assembler = Assembler::new("_start: MOV I, _START", "defined.c8").unwrap();
    assert_eq!(assembler.item(), Ok(None));
    assert_eq!(
        assembler.item(),
        Ok(Some(Item::Instruction(Instr::MOV(MovData::Constant { dest: Reg::I, value: 0x0200 }))))
    );
    // not defined
    assert_eq!(parse("MOV I, _start"), Err(AsmError::Address(AddrError::new("_START"))));
    assert_eq!(
        assemble("_begin: MOV I, _start"),
        (Err(AsmError::Address(AddrError::new("_START"))), 0)
    );
    // any other destination, defined or not
    assert_eq!(parse("MOV V0, _start"), Err(arg_error(Reg::V0, "MOV", 1, 15)));
    assert_eq!(parse("MOV V0, _start\n_start:"), Err(arg_error(Reg::V0, "MOV", 1, 15)));
}

#[test]
fn test_labels_resolve_to_the_address_of_their_definition() {
    let src = "JMP _end\n_mid: CALL _mid\nJPC _END\n_end: RET";
    let mut assembler = Assembler::new(src, "labels.c8").unwrap();
    // every jump counts 2 + 2 nibbles
    assert_eq!(assembler.item(), Ok(Some(Item::Instruction(Instr::JMP(0x0206)))));
    assert_eq!(assembler.item(), Ok(None));
    assert_eq!(assembler.item(), Ok(Some(Item::Instruction(Instr::CALL(0x0202)))));
    assert_eq!(assembler.item(), Ok(Some(Item::Instruction(Instr::JPC(0x0206)))));
    assert_eq!(assembler.item(), Ok(None));
    assert_eq!(assembler.item(), Ok(Some(Item::Instruction(Instr::RET))));
    assert_eq!(assemble(src), (Ok(()), 8));
    // the last definition of a label decides
    assert_eq!(parse("JMP _a _a: CLS _a:"), Ok(Instr::JMP(0x0204)));
}

#[test]
fn test_both_passes_know_a_label_by_one_name() {
    // the first pass reads the label as written, the second in upper case
    let src = "CLS\n_LoOp: RET\nJMP _lOOP\nCALL _loop";
    let mut assembler = Assembler::new(src, "names.c8").unwrap();
    assert_eq!(assembler.item(), Ok(Some(Item::Instruction(Instr::CLS))));
    assert_eq!(assembler.item(), Ok(None));
    assert_eq!(assembler.item(), Ok(Some(Item::Instruction(Instr::RET))));
    assert_eq!(assembler.item(), Ok(Some(Item::Instruction(Instr::JMP(0x0202)))));
    assert_eq!(assembler.item(), Ok(Some(Item::Instruction(Instr::CALL(0x0202)))));
    assert_eq!((assembler.get_line(), assembler.get_column()), (4, 11));
}

#[test]
fn test_unknown_mnemonic_is_an_opcode_error() {
    assert_eq!(parse("NOP"), Err(AsmError::Opcode(OpcodeError::new("NOP", 1, 4))));
    assert_eq!(parse("halt V0"), Err(AsmError::Opcode(OpcodeError::new("HALT", 1, 8))));
    assert_eq!(assemble("CLS\nNOP"), (Err(AsmError::Opcode(OpcodeError::new("NOP", 2, 4))), 2));
    // a condition word is no mnemonic, but for KEY
    assert_eq!(parse("EQ V0"), Err(parse_error(TokenType::Instruction, TokenType::SkipCond, 1, 3)));
    assert_eq!(parse("NOKEY V0"), Err(parse_error(TokenType::Instruction, TokenType::SkipCond, 1, 6)));
}

#[test]
fn test_any_other_token_at_top_level_is_a_syntax_error() {
    assert_eq!(assemble(", CLS"), (Err(parse_error(TokenType::Instruction, TokenType::Comma, 1, 2)), 0));
    assert_eq!(assemble("V0"), (Err(parse_error(TokenType::Instruction, TokenType::Register, 1, 3)), 0));
    assert_eq!(assemble("CLS ."), (Err(parse_error(TokenType::Instruction, TokenType::Period, 1, 6)), 2));
    assert_eq!(assemble("_there"), (Err(parse_error(TokenType::Instruction, TokenType::Label, 1, 7)), 0));
}

#[test]
fn test_lexical_error_stops_before_the_second_pass() {
    match Assembler::new("MOV V1, @", "lexical.c8") {
        Err(e) => assert_eq!(e, AsmError::Lexer(LexerError::new(1, 9, '@'))),
        Ok(_) => panic!("the first pass read an unknown character"),
    }
    match Assembler::new("CLS\n  ?", "lexical.c8") {
        Err(e) => assert_eq!(e, AsmError::Lexer(LexerError::new(2, 3, '?'))),
        Ok(_) => panic!("the first pass read an unknown character"),
    }
}

#[test]
fn test_eat_reports_expected_and_actual_type() {
    let mut assembler = Assembler::new("CLS RET", "eat.c8").unwrap();
    assert_eq!(
        assembler.eat(&TokenType::Register),
        Err(parse_error(TokenType::Register, TokenType::Instruction, 1, 4))
    );
    assert_eq!(assembler.eat(&TokenType::Instruction), Ok(()));
    assert_eq!(assembler.eat(&TokenType::Instruction), Ok(()));
    assert_eq!(assembler.eat(&TokenType::EndOfInput), Ok(()));
    assert_eq!(assembler.eat(&TokenType::EndOfInput), Ok(()));
}

#[test]
fn test_operand_rules_one_by_one() {
    let mut assembler = Assembler::new("V3 I vb #9 $A %00000011 _x EQ NE KEY NOKEY _x:", "rules.c8").unwrap();
    assert_eq!(assembler.register(), Ok(Reg::V3));
    assert_eq!(assembler.register(), Ok(Reg::I));
    assert_eq!(assembler.register(), Ok(Reg::VB));
    assert_eq!(assembler.dec_lit(), Ok(9));
    assert_eq!(assembler.hex_lit(), Ok(10));
    assert_eq!(assembler.bin_lit(), Ok(3));
    // the four condition words stand alone here and count as mnemonics
    assert_eq!(assembler.label(), Ok(0x0208));
    assert_eq!(assembler.skiptype(), Ok(SkipType::Equals));
    assert_eq!(assembler.skiptype(), Ok(SkipType::NotEquals));
    assert_eq!(assembler.skiptype(), Ok(SkipType::KeyDown));
    assert_eq!(assembler.skiptype(), Ok(SkipType::KeyUp));
    let mut assembler = Assembler::new("#9 $A %00000011 V0", "constants.c8").unwrap();
    assert_eq!(assembler.constant(), Ok(9));
    assert_eq!(assembler.constant(), Ok(10));
    assert_eq!(assembler.constant(), Ok(3));
    assert_eq!(assembler.constant(), Err(parse_error(TokenType::BinLit, TokenType::Register, 1, 19)));
    assert_eq!(assembler.dec_lit(), Err(parse_error(TokenType::DecLit, TokenType::Register, 1, 19)));
}

#[test]
fn test_code_generator_refusing_the_binary_is_an_error() {
    let refused = ch8_isa::error::BinaryError::new(
        ch8_isa::error::BinaryErrorType::FileExists,
        "taken.c8",
    );
    match Assembler::with_binary("CLS", "taken.c8", Err(refused)) {
        Err(e) => assert_eq!(
            e,
            AsmError::Binary(EncodeError::new(EncodeErrorType::FileExists, "taken.c8"))
        ),
        Ok(_) => panic!("an assembler without a binary"),
    }
    let binary = ch8_isa::codegen::Binary::new("given.c8");
    let mut assembler = Assembler::with_binary("RET", "given.c8", binary).unwrap();
    assert_eq!(assembler.assemble(), Ok(()));
    assert_eq!(assembler.into_binary().len(), 2);
}

#[test]
fn test_binary_without_room_is_an_error() {
    // 0x7FFF instructions fill the binary up to two bytes below its limit
    let mut src = String::new();
    for _ in 0..0x7FFF {
        src.push_str("CLS\n");
    }
    assert_eq!(assemble(&src), (Ok(()), 0xFFFE));
    assert_eq!(assemble(&format!("{}RET", src)), (Err(full()), 0xFFFE));
    assert_eq!(assemble(&format!("{}$1234", src)), (Err(full()), 0xFFFE));
    assert_eq!(assemble(&format!("{}$12", src)), (Ok(()), 0xFFFF));
    assert_eq!(assemble(&format!("{}$12 $34", src)), (Err(full()), 0xFFFF));
}
