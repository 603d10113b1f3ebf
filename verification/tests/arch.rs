use elf::strtab::read_string;
use elf::strtab::StringTable;

/// The name that `arch` spells up to its terminator, read as the one string
/// of a table that holds nothing else.
fn name_of(arch: &[u8]) -> String {
    let mut table = vec![0u8];
    table.extend_from_slice(arch);
    read_string(&table, 1).unwrap()
}

/// Tells whether the table holds the name at some offset.
fn table_holds(table: &StringTable, table_len: usize, name: &str) -> bool {
    (0..table_len).any(|offset| table.lookup(offset) == Some(name))
}

// Architecture names are handed to the native lookup as null-terminated
// strings. The lookup itself is a call into a native library and is not
// part of this library; what is exercised here is that such names are read
// back whole from null-terminated bytes and found, or not, in a table of
// names.
#[test]
fn test_bfd_scan_arch() {
    let known = b"\0i386\0i386:x86-64\0aarch64\0";
    let table = StringTable::build(known);

    let v = String::from("i386:x86-64\x00").into_bytes();
    assert_eq!(name_of(&v), "i386:x86-64");
    let result = table_holds(&table, known.len(), &name_of(&v));
    assert!(result);

    let status = if result { "was" } else { "was not" };
    println!("Architecture {} found.", status);

    let v = String::from("made-up-arch\x00").into_bytes();
    assert_eq!(name_of(&v), "made-up-arch");
    let result = table_holds(&table, known.len(), &name_of(&v));
    assert!(!result);

    let status = if result { "was" } else { "was not" };
    println!("Architecture {} found.", status);
}
