use elf::error::ParseError;
use elf::header::parse_header;
use elf::header::Elf64Header;
use elf::section::annotate_sections;
use elf::section::classify_section_type;
use elf::section::find_name_table;
use elf::section::read_section_header_entries_64;
use elf::section::read_section_headers_64;
use elf::section::section_header_type_string;
use elf::section::section_headers_fit;
use elf::section::section_name_table_end;
use elf::section::Elf64SectionHeaderEntry;
use elf::section::SectionType;
use elf::strtab::StringTable;

const SHT_PROGBITS: u32 = 1;
const SHT_STRTAB: u32 = 3;

fn section_row(name_offset: u32, kind: u32, offset: u64, size: u64) -> Vec<u8> {
    let mut row = Vec::new();
    row.extend_from_slice(&name_offset.to_le_bytes());
    row.extend_from_slice(&kind.to_le_bytes());
    row.extend_from_slice(&0x11u64.to_le_bytes());
    row.extend_from_slice(&0x22u64.to_le_bytes());
    row.extend_from_slice(&offset.to_le_bytes());
    row.extend_from_slice(&size.to_le_bytes());
    row.extend_from_slice(&0x33u32.to_le_bytes());
    row.extend_from_slice(&0x44u32.to_le_bytes());
    row.extend_from_slice(&0x55u64.to_le_bytes());
    row.extend_from_slice(&0x66u64.to_le_bytes());
    row
}

/// A file of a header, `data` and then the rows of the section header table.
fn file_with_sections(data: &[u8], rows: &[Vec<u8>]) -> Vec<u8> {
    let mut file = vec![0x7f, 0x45, 0x4c, 0x46, 0x02, 0x01, 0x01, 0x00];
    file.extend_from_slice(&[0u8; 8]);
    file.extend_from_slice(&[0x01, 0x00, 0x3e, 0x00, 0x01, 0x00, 0x00, 0x00]);
    file.extend_from_slice(&0u64.to_le_bytes());
    file.extend_from_slice(&0u64.to_le_bytes());
    file.extend_from_slice(&((64 + data.len()) as u64).to_le_bytes());
    file.extend_from_slice(&0u32.to_le_bytes());
    file.extend_from_slice(&64u16.to_le_bytes());
    file.extend_from_slice(&56u16.to_le_bytes());
    file.extend_from_slice(&0u16.to_le_bytes());
    file.extend_from_slice(&64u16.to_le_bytes());
    file.extend_from_slice(&(rows.len() as u16).to_le_bytes());
    file.extend_from_slice(&0u16.to_le_bytes());
    file.extend_from_slice(data);
    for row in rows {
        file.extend_from_slice(row);
    }
    file
}

fn names_of(file: &[u8], header: &Elf64Header) -> Vec<String> {
    read_section_headers_64(file, header).unwrap().into_iter().map(|s| s.name).collect()
}

#[test]
fn section_tags_with_names() {
    let names = [
        (0x00, "SHT_NULL", SectionType::Null),
        (0x01, "SHT_PROGBITS", SectionType::Progbits),
        (0x02, "SHT_SYMTAB", SectionType::Symtab),
        (0x03, "SHT_STRTAB", SectionType::Strtab),
        (0x04, "SHT_RELA", SectionType::Rela),
        (0x05, "SHT_HASH", SectionType::Hash),
        (0x06, "SHT_DYNAMIC", SectionType::Dynamic),
        (0x07, "SHT_NOTE", SectionType::Note),
        (0x08, "SHT_NOBITS", SectionType::Nobits),
        (0x09, "SHT_REL", SectionType::Rel),
        (0x0a, "SHT_SHLIB", SectionType::Shlib),
        (0x0b, "SHT_DYNSYM", SectionType::Dynsym),
        (0x0e, "SHT_INIT_ARRAY", SectionType::InitArray),
        (0x0f, "SHT_FINI_ARRAY", SectionType::FiniArray),
        (0x10, "SHT_PREINIT_ARRAY", SectionType::PreinitArray),
        (0x11, "SHT_GROUP", SectionType::Group),
        (0x12, "SHT_SYMTAB_SHNDX", SectionType::SymtabShndx),
        (0x13, "SHT_NUM", SectionType::Num),
    ];
    for (value, name, kind) in names {
        assert_eq!(section_header_type_string(&[value, 0, 0, 0]), name);
        assert_eq!(classify_section_type(&[value, 0, 0, 0]), kind);
    }
}

#[test]
fn section_tags_of_the_os_range_and_above() {
    for top in [0x60u8, 0x6f, 0x70, 0x7f, 0x80, 0xff] {
        assert_eq!(classify_section_type(&[0xf6, 0xff, 0xff, top]), SectionType::OsSpecific);
        assert_eq!(section_header_type_string(&[0xf6, 0xff, 0xff, top]), "OS_SPECIFIC");
    }
}

#[test]
fn section_tags_without_name() {
    assert_eq!(classify_section_type(&[0x0c, 0, 0, 0]), SectionType::Unrecognized);
    assert_eq!(classify_section_type(&[0x0d, 0, 0, 0]), SectionType::Unrecognized);
    assert_eq!(classify_section_type(&[0x14, 0, 0, 0]), SectionType::Unrecognized);
    assert_eq!(classify_section_type(&[0x03, 0, 1, 0]), SectionType::Unrecognized);
    assert_eq!(classify_section_type(&[0, 0, 0, 0x5f]), SectionType::Unrecognized);
    assert_eq!(
        section_header_type_string(&[0x0c, 0x00, 0x00, 0x00]),
        "UNRECOGNIZED TYPE: [00, 00, 00, 0c]"
    );
    assert_eq!(
        section_header_type_string(&[0x34, 0x12, 0xcd, 0x5f]),
        "UNRECOGNIZED TYPE: [5f, cd, 12, 34]"
    );
}

#[test]
fn section_entry_fields_hold_the_bytes_at_their_offsets() {
    let row = section_row(0x0102_0304, SHT_STRTAB, 0x1000, 0x2000);
    assert_eq!(row.len(), 64);
    let entry = Elf64SectionHeaderEntry::parse_from_bytes(&row);
    assert_eq!(
        entry,
        Elf64SectionHeaderEntry {
            name_offset: 0x0102_0304,
            section_type: [3, 0, 0, 0],
            flags: 0x11,
            addr: 0x22,
            offset: 0x1000,
            size: 0x2000,
            link: 0x33,
            info: 0x44,
            addr_align: 0x55,
            entry_size: 0x66,
        }
    );
    assert!(entry.is_string_table());
    assert_eq!(entry.data_end(), Some(0x3000));
}

#[test]
fn section_data_end_past_the_address_space_is_none() {
    let entry = Elf64SectionHeaderEntry::parse_from_bytes(&section_row(0, 1, u64::MAX, 1));
    assert!(!entry.is_string_table());
    assert_eq!(entry.data_end(), None);
}

#[test]
fn section_entries_come_in_file_order() {
    let rows = [
        section_row(0, 0, 0, 0),
        section_row(1, SHT_PROGBITS, 64, 3),
        section_row(7, SHT_STRTAB, 67, 9),
    ];
    let file = file_with_sections(b"abc\0.text\0.s\0", &rows);
    let header = parse_header(&file).unwrap();
    assert!(section_headers_fit(&header, file.len()));
    assert!(!section_headers_fit(&header, file.len() - 1));
    let entries = read_section_header_entries_64(&file, &header).unwrap();
    assert_eq!(entries.len(), 3);
    assert_eq!(entries[0].section_type, [0, 0, 0, 0]);
    assert_eq!(entries[1].name_offset, 1);
    assert_eq!(entries[1].offset, 64);
    assert_eq!(entries[2].size, 9);
    assert_eq!(find_name_table(&entries), Some(2));
}

#[test]
fn section_entries_of_a_table_past_the_buffer_are_truncated() {
    let rows = [section_row(1, SHT_STRTAB, 64, 4), section_row(1, SHT_PROGBITS, 0, 0)];
    let file = file_with_sections(b"\0ab\0", &rows);
    let header = parse_header(&file).unwrap();
    assert_eq!(
        read_section_header_entries_64(&file[..file.len() - 1], &header),
        Err(ParseError::Truncated)
    );
    assert_eq!(read_section_header_entries_64(&file[..64], &header), Err(ParseError::Truncated));
    assert_eq!(read_section_header_entries_64(&file, &header).map(|e| e.len()), Ok(2));
    let mut narrow = header;
    narrow.section_header_entry_size = 63;
    assert_eq!(read_section_header_entries_64(&file, &narrow), Err(ParseError::Truncated));
    // A table without rows asks for no bytes.
    let mut none = header;
    none.section_header_entry_count = 0;
    assert_eq!(read_section_header_entries_64(&[], &none), Ok(vec![]));
}

#[test]
fn name_table_is_the_last_string_table() {
    let strtab = Elf64SectionHeaderEntry::parse_from_bytes(&section_row(0, SHT_STRTAB, 0, 0));
    let other = Elf64SectionHeaderEntry::parse_from_bytes(&section_row(0, SHT_PROGBITS, 0, 0));
    assert_eq!(find_name_table(&[]), None);
    assert_eq!(find_name_table(&[other, other]), None);
    assert_eq!(find_name_table(&[strtab]), Some(0));
    assert_eq!(find_name_table(&[strtab, other, strtab, other]), Some(2));
    assert_eq!(find_name_table(&[other, strtab, strtab]), Some(2));
}

#[test]
fn sections_take_their_names_from_the_last_string_table() {
    // The first string table holds the empty string only; the names stand
    // in the second.
    let names = b"\0.text\0.strtab\0.shstrtab\0";
    let mut data = vec![0u8];
    data.extend_from_slice(names);
    let rows = [
        section_row(7, SHT_STRTAB, 64, 1),
        section_row(1, SHT_PROGBITS, 0, 0),
        section_row(15, SHT_STRTAB, 65, names.len() as u64),
    ];
    let file = file_with_sections(&data, &rows);
    let header = parse_header(&file).unwrap();
    assert_eq!(header.program_header_entry_count, 0);
    let sections = read_section_headers_64(&file, &header).unwrap();
    assert_eq!(sections.len(), 3);
    assert_eq!(sections[0].name, ".strtab");
    assert_eq!(sections[0].type_string, "SHT_STRTAB");
    assert_eq!(sections[1].name, ".text");
    assert_eq!(sections[1].type_string, "SHT_PROGBITS");
    assert_eq!(sections[2].name, ".shstrtab");
    assert_eq!(sections[2].type_string, "SHT_STRTAB");
    assert_eq!(sections[0].header_data.offset, 64);
    assert_eq!(sections[2].header_data.size, names.len() as u64);
    assert_eq!(section_name_table_end(&file, &header), Ok(65 + names.len()));
}

#[test]
fn section_names_that_start_nowhere_get_the_stand_in() {
    let rows = [
        section_row(2, SHT_PROGBITS, 0, 0),
        section_row(1, SHT_STRTAB, 64, 6),
        section_row(6, SHT_PROGBITS, 0, 0),
        section_row(0, SHT_PROGBITS, 0, 0),
        section_row(4, SHT_PROGBITS, 0, 0),
    ];
    let file = file_with_sections(&[0x00, 0x61, 0x62, 0x00, 0x63, 0x00], &rows);
    let header = parse_header(&file).unwrap();
    assert_eq!(
        names_of(&file, &header),
        vec!["<NAME_NOT_FOUND>", "ab", "<NAME_NOT_FOUND>", "", "c"]
    );
}

#[test]
fn sections_without_string_table_are_missing_string_table() {
    let rows = [section_row(0, 0, 0, 0), section_row(1, SHT_PROGBITS, 64, 4)];
    let file = file_with_sections(b"\0ab\0", &rows);
    let header = parse_header(&file).unwrap();
    assert_eq!(read_section_headers_64(&file, &header), Err(ParseError::MissingStringTable));
    assert_eq!(section_name_table_end(&file, &header), Err(ParseError::MissingStringTable));
    let empty = file_with_sections(b"", &[]);
    let header = parse_header(&empty).unwrap();
    assert_eq!(read_section_headers_64(&empty, &header), Err(ParseError::MissingStringTable));
}

#[test]
fn sections_whose_table_is_cut_short_are_truncated() {
    let rows = [section_row(1, SHT_STRTAB, 64, 4), section_row(1, SHT_PROGBITS, 0, 0)];
    let file = file_with_sections(b"\0ab\0", &rows);
    let header = parse_header(&file).unwrap();
    assert_eq!(read_section_headers_64(&file[..file.len() - 1], &header), Err(ParseError::Truncated));
    assert_eq!(section_name_table_end(&file[..file.len() - 1], &header), Err(ParseError::Truncated));
    assert!(read_section_headers_64(&file, &header).is_ok());
}

#[test]
fn sections_whose_names_lie_past_the_buffer_are_truncated() {
    let rows = [section_row(1, SHT_STRTAB, 5000, 40)];
    let file = file_with_sections(b"", &rows);
    let header = parse_header(&file).unwrap();
    assert_eq!(read_section_headers_64(&file, &header), Err(ParseError::Truncated));
    // The buffer has to grow to the end of the names before they resolve.
    assert_eq!(section_name_table_end(&file, &header), Ok(5040));
    let mut grown = file.clone();
    grown.resize(5040, 0);
    grown[5001] = 0x6e;
    assert_eq!(names_of(&grown, &header), vec!["n"]);
    let rows = [section_row(1, SHT_STRTAB, u64::MAX, 40)];
    let file = file_with_sections(b"", &rows);
    assert_eq!(section_name_table_end(&file, &header), Err(ParseError::Truncated));
}

#[test]
fn sections_in_rows_too_narrow_are_truncated() {
    let rows = [section_row(1, SHT_STRTAB, 64, 4)];
    let file = file_with_sections(b"\0ab\0", &rows);
    let mut header = parse_header(&file).unwrap();
    header.section_header_entry_size = 63;
    assert!(!section_headers_fit(&header, file.len()));
    assert_eq!(read_section_headers_64(&file, &header), Err(ParseError::Truncated));
}

#[test]
fn annotate_keeps_entries_and_order() {
    let table = StringTable::build(b"\0one\0two\0");
    let entries = vec![
        Elf64SectionHeaderEntry::parse_from_bytes(&section_row(5, 8, 1, 2)),
        Elf64SectionHeaderEntry::parse_from_bytes(&section_row(1, 0x6fff_fff6, 3, 4)),
        Elf64SectionHeaderEntry::parse_from_bytes(&section_row(9, 0x0c, 5, 6)),
    ];
    let sections = annotate_sections(entries.clone(), &table);
    assert_eq!(sections.len(), 3);
    for (section, entry) in sections.iter().zip(entries.iter()) {
        assert_eq!(section.header_data, *entry);
    }
    assert_eq!(sections[0].name, "two");
    assert_eq!(sections[0].type_string, "SHT_NOBITS");
    assert_eq!(sections[1].name, "one");
    assert_eq!(sections[1].type_string, "OS_SPECIFIC");
    assert_eq!(sections[2].name, "<NAME_NOT_FOUND>");
    assert_eq!(sections[2].type_string, "UNRECOGNIZED TYPE: [00, 00, 00, 0c]");
}
