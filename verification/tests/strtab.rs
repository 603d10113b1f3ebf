use elf::strtab::read_string;
use elf::strtab::StringTable;

#[test]
fn string_table_finds_strings_by_their_start() {
    let table = StringTable::build(&[0x00, 0x61, 0x62, 0x00, 0x63, 0x00]);
    assert_eq!(table.lookup(0), Some(""));
    assert_eq!(table.lookup(1), Some("ab"));
    assert_eq!(table.lookup(4), Some("c"));
    assert_eq!(table.lookup(2), None);
    assert_eq!(table.lookup(3), None);
    assert_eq!(table.lookup(5), None);
    assert_eq!(table.lookup(6), None);
    assert_eq!(table.lookup(100), None);
}

#[test]
fn string_table_always_starts_with_the_empty_string() {
    assert_eq!(StringTable::build(&[]).lookup(0), Some(""));
    assert_eq!(StringTable::build(&[0]).lookup(0), Some(""));
    // Even where the first byte is no terminator.
    let table = StringTable::build(b"ab\0cd\0");
    assert_eq!(table.lookup(0), Some(""));
    assert_eq!(table.lookup(3), Some("cd"));
    assert_eq!(table.lookup(1), None);
}

#[test]
fn string_table_leaves_out_a_string_without_terminator() {
    let table = StringTable::build(b"\0one\0two");
    assert_eq!(table.lookup(1), Some("one"));
    assert_eq!(table.lookup(5), None);
    assert_eq!(StringTable::build(b"abc").lookup(0), Some(""));
}

#[test]
fn string_table_holds_empty_strings_between_terminators() {
    let table = StringTable::build(&[0, 0, 0, 0x78, 0]);
    assert_eq!(table.lookup(1), Some(""));
    assert_eq!(table.lookup(2), Some(""));
    assert_eq!(table.lookup(3), Some("x"));
    assert_eq!(table.lookup(4), None);
}

#[test]
fn string_table_replaces_ill_formed_utf8() {
    let table = StringTable::build(&[0, 0x61, 0xff, 0x62, 0, 0xc3, 0xa9, 0]);
    assert_eq!(table.lookup(1), Some("a\u{fffd}b"));
    assert_eq!(table.lookup(5), Some("\u{e9}"));
}

#[test]
fn read_string_finds_strings_by_their_start() {
    let bytes = [0x00, 0x61, 0x62, 0x00, 0x63, 0x00];
    assert_eq!(read_string(&bytes, 0), Some(String::new()));
    assert_eq!(read_string(&bytes, 1), Some(String::from("ab")));
    assert_eq!(read_string(&bytes, 4), Some(String::from("c")));
    // Offset 2 lies inside a string: nothing starts there.
    assert_eq!(read_string(&bytes, 2), None);
    assert_eq!(read_string(&bytes, 3), None);
    assert_eq!(read_string(&bytes, 5), None);
}

#[test]
fn read_string_at_offset_zero_is_empty() {
    assert_eq!(read_string(&[0x61, 0x62, 0x00], 0), Some(String::new()));
    assert_eq!(read_string(&[0x00], 0), Some(String::new()));
    assert_eq!(read_string(&[], 0), Some(String::new()));
    assert_eq!(read_string(b"abc", 0), Some(String::new()));
}

#[test]
fn read_string_outside_the_bytes_is_none() {
    let bytes = [0x00, 0x61, 0x00];
    assert_eq!(read_string(&bytes, 3), None);
    assert_eq!(read_string(&bytes, 4), None);
    assert_eq!(read_string(&bytes, usize::MAX), None);
    assert_eq!(read_string(&[], 1), None);
}

#[test]
fn read_string_stops_at_the_terminator() {
    let bytes = b"\0.text\0.data\0\0";
    assert_eq!(read_string(bytes, 1), Some(String::from(".text")));
    assert_eq!(read_string(bytes, 7), Some(String::from(".data")));
    assert_eq!(read_string(bytes, 13), Some(String::new()));
    assert_eq!(read_string(bytes, 14), None);
}

#[test]
fn read_string_without_terminator_is_none() {
    assert_eq!(read_string(b"\0abc", 1), None);
    assert_eq!(read_string(b"\0abc", 3), None);
    assert_eq!(read_string(b"\0one\0two", 5), None);
}

#[test]
fn read_string_replaces_ill_formed_utf8() {
    assert_eq!(read_string(&[0x00, 0xff, 0x00], 1), Some(String::from("\u{fffd}")));
    assert_eq!(read_string(&[0x00, 0xe2, 0x82, 0xac, 0x00], 1), Some(String::from("\u{20ac}")));
    assert_eq!(read_string(&[0x00, 0x41, 0xc0, 0x00], 1), Some(String::from("A\u{fffd}")));
}

#[test]
fn read_string_has_no_limit_on_where_a_string_starts() {
    let mut bytes = vec![0u8; 4099];
    bytes[4097] = 0x78;
    assert_eq!(read_string(&bytes, 4097), Some(String::from("x")));
    assert_eq!(StringTable::build(&bytes).lookup(4097), Some("x"));
    // Nor on how long a string is.
    let mut long = vec![0x61u8; 10_002];
    long[0] = 0;
    long[10_001] = 0;
    assert_eq!(read_string(&long, 1).map(|s| s.len()), Some(10_000));
}

#[test]
fn read_string_agrees_with_the_table() {
    let bytes = b"ab\0\0cd\0e\xff\0tail";
    let table = StringTable::build(bytes);
    for offset in 0..bytes.len() + 2 {
        assert_eq!(read_string(bytes, offset).as_deref(), table.lookup(offset));
    }
}
