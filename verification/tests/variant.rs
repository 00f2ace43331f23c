use ch8alib::error::VariantError;
use ch8alib::util::Variant;

//this test checks equality comparisons
#[test]
fn variant_test_equality() {
    let v1 = Variant::Byte(0xFF);
    let v2 = Variant::Byte(0xFF);
    assert_eq!(v1, v2);
    assert_eq!(v1, v1);
}

//this test checks inequality comparisons
#[test]
fn variant_test_inequality() {
    let v1 = Variant::Word(0xFC00);
    let v2 = Variant::Word(0xDEAD);
    let v3 = Variant::Text(String::from("Hello World!"));
    assert_ne!(v1, v2);
    assert_ne!(v1, v3);
}

//this test checks unwrapping Variants
#[test]
fn test_unwrap() {
    let v1 = Variant::Byte(0xFF);
    assert_eq!(v1.as_byte().unwrap(), 0xFF);
    let v2 = Variant::Word(0xFC00);
    assert_eq!(v2.as_word().unwrap(), 0xFC00);
    let v3 = Variant::Text(String::from("Hello"));
    assert_eq!(v3.as_text().unwrap(), String::from("Hello"));
}

#[test]
fn test_cross_tag_comparisons_are_unequal() {
    assert_ne!(Variant::Byte(5), Variant::Word(5));
    assert_ne!(Variant::Word(0), Variant::Text(String::new()));
    assert_ne!(Variant::Text(String::from("5")), Variant::Byte(5));
    assert_eq!(Variant::Text(String::from("MOV")), Variant::Text(String::from("MOV")));
    assert_ne!(Variant::Text(String::from("MOV")), Variant::Text(String::from("mov")));
}

#[test]
fn test_unwrap_as_wrong_tag_is_an_error() {
    let b = Variant::Byte(1);
    let w = Variant::Word(2);
    let t = Variant::Text(String::from("x"));
    assert_eq!(b.as_word(), Err(VariantError::new("word", "byte")));
    assert_eq!(b.as_text(), Err(VariantError::new("text", "byte")));
    assert_eq!(w.as_byte(), Err(VariantError::new("byte", "word")));
    assert_eq!(w.as_text(), Err(VariantError::new("text", "word")));
    assert_eq!(t.as_byte(), Err(VariantError::new("byte", "text")));
    assert_eq!(t.as_word(), Err(VariantError::new("word", "text")));
}

#[test]
fn test_clone_keeps_the_value() {
    let t = Variant::Text(String::from("label"));
    assert_eq!(t.clone(), t);
    assert_eq!(Variant::Word(0x1234).clone(), Variant::Word(0x1234));
}
