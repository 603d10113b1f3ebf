use elf::error::ParseError;
use elf::header::parse_header;
use elf::header::Elf64Header;
use elf::header::ELF64_HEADER_LEN;

/// A well-formed header in which every field holds a value of its own.
fn sample_header() -> Vec<u8> {
    let mut bytes = vec![0x7f, 0x45, 0x4c, 0x46, 0x02, 0x01, 0x01, 0x03];
    bytes.extend_from_slice(&[0x09, 1, 2, 3, 4, 5, 6, 7]);
    bytes.extend_from_slice(&[0x03, 0x00, 0x3e, 0x00]);
    bytes.extend_from_slice(&[0x01, 0x00, 0x00, 0x00]);
    bytes.extend_from_slice(&[0x40, 0x10, 0x00, 0x00, 0x00, 0x00, 0x00, 0x00]);
    bytes.extend_from_slice(&[0x07, 0x00, 0x00, 0x00, 0x00, 0x00, 0x00, 0x00]);
    bytes.extend_from_slice(&[0xef, 0xcd, 0xab, 0x89, 0x67, 0x45, 0x23, 0x01]);
    bytes.extend_from_slice(&[0x78, 0x56, 0x34, 0x12]);
    bytes.extend_from_slice(&[0x40, 0x00]);
    bytes.extend_from_slice(&[0x38, 0x00]);
    bytes.extend_from_slice(&[0x0d, 0x00]);
    bytes.extend_from_slice(&[0x40, 0x00]);
    bytes.extend_from_slice(&[0x1f, 0x00]);
    bytes.extend_from_slice(&[0x1e, 0x01]);
    bytes
}

#[test]
fn header_fields_hold_the_bytes_at_their_offsets() {
    let bytes = sample_header();
    assert_eq!(bytes.len(), ELF64_HEADER_LEN);
    let header = parse_header(&bytes).unwrap();
    assert_eq!(header.magic_bytes, [0x7f, 0x45, 0x4c, 0x46]);
    assert_eq!(header.bitness, 2);
    assert_eq!(header.endianness, 1);
    assert_eq!(header.elf_version, 1);
    assert_eq!(header.abi_os, 3);
    assert_eq!(header.abi_version, 9);
    assert_eq!(header.abi_padding, [1, 2, 3, 4, 5, 6, 7]);
    assert_eq!(header.object_type, [0x03, 0x00]);
    assert_eq!(header.machine, [0x3e, 0x00]);
    assert_eq!(header.version, 1);
    assert_eq!(header.entry_point, 0x1040);
    assert_eq!(header.program_header_offset, 7);
    assert_eq!(header.section_header_offset, 0x0123_4567_89ab_cdef);
    assert_eq!(header.flags, 0x1234_5678);
    assert_eq!(header.header_size, 64);
    assert_eq!(header.program_header_entry_size, 56);
    assert_eq!(header.program_header_entry_count, 13);
    assert_eq!(header.section_header_entry_size, 64);
    assert_eq!(header.section_header_entry_count, 31);
    assert_eq!(header.section_header_names_index, 0x011e);
}

#[test]
fn header_ignores_bytes_past_the_first_sixty_four() {
    let mut bytes = sample_header();
    let short = parse_header(&bytes).unwrap();
    bytes.extend_from_slice(&[0xff; 40]);
    assert_eq!(parse_header(&bytes), Ok(short));
}

#[test]
fn header_of_zero_fields_decodes() {
    let mut bytes = vec![0u8; 64];
    bytes[..4].copy_from_slice(&[0x7f, 0x45, 0x4c, 0x46]);
    bytes[4] = 2;
    bytes[5] = 1;
    let header = parse_header(&bytes).unwrap();
    assert_eq!(header.entry_point, 0);
    assert_eq!(header.section_header_entry_count, 0);
    assert_eq!(header.abi_padding, [0u8; 7]);
}

#[test]
fn header_with_wrong_magic_is_bad_magic() {
    for at in 0..4 {
        let mut bytes = sample_header();
        bytes[at] ^= 0x01;
        assert_eq!(parse_header(&bytes), Err(ParseError::BadMagic));
    }
    // Whatever follows the signature does not matter.
    let mut bytes = vec![0xaau8; 64];
    assert_eq!(parse_header(&bytes), Err(ParseError::BadMagic));
    bytes[4] = 1;
    bytes[5] = 2;
    assert_eq!(parse_header(&bytes), Err(ParseError::BadMagic));
}

#[test]
fn header_of_32_bit_class_is_unsupported_class() {
    let mut bytes = sample_header();
    bytes[4] = 0x01;
    assert_eq!(parse_header(&bytes), Err(ParseError::UnsupportedClass));
    bytes[4] = 0x00;
    assert_eq!(parse_header(&bytes), Err(ParseError::UnsupportedClass));
}

#[test]
fn header_of_big_endian_data_is_unsupported_encoding() {
    let mut bytes = sample_header();
    bytes[5] = 0x02;
    assert_eq!(parse_header(&bytes), Err(ParseError::UnsupportedEncoding));
}

#[test]
fn header_class_is_judged_before_encoding() {
    let mut bytes = sample_header();
    bytes[4] = 0x01;
    bytes[5] = 0x02;
    assert_eq!(parse_header(&bytes), Err(ParseError::UnsupportedClass));
}

#[test]
fn header_in_a_short_buffer_is_truncated() {
    let bytes = sample_header();
    assert_eq!(parse_header(&bytes[..63]), Err(ParseError::Truncated));
    assert_eq!(parse_header(&[]), Err(ParseError::Truncated));
}

#[test]
fn header_parse_from_bytes_takes_any_content() {
    let bytes = vec![0x11u8; 64];
    let header = Elf64Header::parse_from_bytes(&bytes);
    assert_eq!(header.magic_bytes, [0x11; 4]);
    assert_eq!(header.version, 0x1111_1111);
    assert_eq!(header.header_size, 0x1111);
    assert_eq!(header.entry_point, 0x1111_1111_1111_1111);
}

#[test]
fn header_table_ends_add_offset_and_rows() {
    let header = parse_header(&sample_header()).unwrap();
    assert_eq!(header.program_table_end(), Some(7 + 13 * 56));
    let mut wide = header;
    wide.section_header_offset = 100;
    assert_eq!(wide.section_table_end(), Some(100 + 31 * 64));
    wide.section_header_offset = u64::MAX - 10;
    assert_eq!(wide.section_table_end(), None);
    wide.section_header_entry_count = 0;
    assert_eq!(wide.section_table_end(), Some((u64::MAX - 10) as usize));
}

#[test]
fn errors_in_words() {
    assert_eq!(
        ParseError::Truncated.message(),
        "Requested file contains less than requested number of bytes."
    );
    assert_eq!(ParseError::BadMagic.message(), "Parse failed: Bad file format.");
    assert_eq!(
        ParseError::UnsupportedClass.message(),
        "This reader currently only supports 64-bit ELF files."
    );
    assert_eq!(
        ParseError::UnsupportedEncoding.message(),
        "This reader currently only supports little endian ELF files."
    );
    assert_eq!(
        ParseError::MissingStringTable.message(),
        "No string table section to take section names from."
    );
}
