use ch8alib::codegen::AddrTable;
use ch8alib::error::AddrError;

//this test checks that the size field updates
#[test]
fn test_size_updates() {
    let mut t = AddrTable::new();
    assert_eq!(t.get_size(), 0);
    t.add_entry("_label", 0x0FFF);
    assert_eq!(t.get_size(), 1);
}

//this test checks adding and retrieving labels
#[test]
fn test_add_retrieve_labels() {
    let mut t = AddrTable::new();
    t.add_entry("_label", 0x0FFF);
    let addr = t.get_entry("_label").unwrap();
    assert_eq!(addr, 0x0FFF);
}

//this test checks the has_entry method
#[test]
fn test_has_entry() {
    let mut t = AddrTable::new();
    assert_eq!(t.has_entry("_label"), false);
    t.add_entry("_label", 0x0FFF);
    assert_eq!(t.has_entry("_label"), true);
}

#[test]
fn test_missing_label_is_an_error() {
    let mut t = AddrTable::new();
    t.add_entry("_ONE", 0x0200);
    assert_eq!(t.get_entry("_TWO"), Err(AddrError::new("_TWO")));
    assert_eq!(t.get_entry("_one"), Err(AddrError::new("_one")));
}

#[test]
fn test_later_entry_replaces_earlier() {
    let mut t = AddrTable::new();
    t.add_entry("_A", 0x0200);
    t.add_entry("_B", 0x0202);
    t.add_entry("_A", 0x0300);
    assert_eq!(t.get_entry("_A"), Ok(0x0300));
    assert_eq!(t.get_entry("_B"), Ok(0x0202));
    assert_eq!(t.get_size(), 2);
}
