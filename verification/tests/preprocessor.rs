use ch8alib::codegen::Preprocessor;
use ch8alib::error::LexerError;

#[test]
fn test_table_of_data_labels() {
    let mut prep = Preprocessor::new("_hex:\n$FC00\n_bin:\n%11111111\n_dec:\n#212\n_start:");
    let table = prep.process().unwrap();
    assert_eq!(table.get_size(), 4);
    assert_eq!(table.get_entry("_HEX"), Ok(0x0200));
    assert_eq!(table.get_entry("_BIN"), Ok(0x0202));
    assert_eq!(table.get_entry("_DEC"), Ok(0x0203));
    assert_eq!(table.get_entry("_START"), Ok(0x0204));
    // labels are entered in upper case only
    assert!(!table.has_entry("_hex"));
}

#[test]
fn test_table_of_a_program() {
    let src = "CLS
               MOV V0, #0
               MOV V1, #15
               KEY V2
               SCH V2
               _loop:
               DRAW V0, V1, #5
               ADD V0, #1
               JMP _loop";
    let table = Preprocessor::new(src).process().unwrap();
    assert_eq!(table.get_size(), 1);
    assert_eq!(table.get_entry("_LOOP"), Ok(0x0207));
}

#[test]
fn test_last_definition_of_a_label_decides() {
    let table = Preprocessor::new("_a: CLS _A: RET _b: CLS _a:").process().unwrap();
    assert_eq!(table.get_size(), 2);
    assert_eq!(table.get_entry("_A"), Ok(0x0206));
    assert_eq!(table.get_entry("_B"), Ok(0x0204));
}

#[test]
fn test_references_define_nothing() {
    let table = Preprocessor::new("JMP _there CALL _there").process().unwrap();
    assert_eq!(table.get_size(), 0);
    assert!(!table.has_entry("_THERE"));
    assert_eq!(Preprocessor::new("").process().unwrap().get_size(), 0);
}

#[test]
fn test_lexical_error_stops_the_pass() {
    match Preprocessor::new("_a: CLS\n_b: #70000").process() {
        Err(e) => assert_eq!(e, LexerError::new(2, 10, '0')),
        Ok(_) => panic!("a literal beyond 16 bits"),
    }
    match Preprocessor::new("_a: V").process() {
        Err(e) => assert_eq!(e, LexerError::new(1, 6, '\0')),
        Ok(_) => panic!("a register without a number"),
    }
}
