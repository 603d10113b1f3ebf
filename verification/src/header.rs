//! The 64-byte ELF file header.

use crate::codec::field_decodes_at;
use crate::codec::field_offset;
use crate::codec::layout_width;
use crate::codec::le_value;
use crate::codec::lemma_field_offsets;
use crate::codec::read_bytes_2;
use crate::codec::read_bytes_4;
use crate::codec::read_bytes_7;
use crate::codec::read_u16_le;
use crate::codec::read_u32_le;
use crate::codec::read_u64_le;
use crate::codec::read_u8;
use crate::codec::record_decodes;
use crate::codec::FieldKind;
use crate::codec::FieldValue;
use crate::error::ParseError;
use vstd::prelude::*;

verus! {

/// The length of the file header in bytes.
pub const ELF64_HEADER_LEN: usize = 64;

/// The class byte of a 64-bit file.
pub const ELF_CLASS_64: u8 = 2;

/// The data-encoding byte of a little-endian file.
pub const ELF_DATA_LITTLE_ENDIAN: u8 = 1;

/// The signature that opens every ELF file: `7F 45 4C 46`.
pub open spec fn elf_magic() -> Seq<u8> {
    seq![0x7fu8, 0x45u8, 0x4cu8, 0x46u8]
}

/// The file header, field by field as the file stores it.
#[derive(Debug, Clone, Copy, PartialEq, Eq)]
pub struct Elf64Header {
    pub magic_bytes: [u8; 4],
    pub bitness: u8,
    pub endianness: u8,
    pub elf_version: u8,
    pub abi_os: u8,
    pub abi_version: u8,
    pub abi_padding: [u8; 7],
    pub object_type: [u8; 2],
    pub machine: [u8; 2],
    pub version: u32,
    pub entry_point: u64,
    pub program_header_offset: u64,
    pub section_header_offset: u64,
    pub flags: u32,
    pub header_size: u16,
    pub program_header_entry_size: u16,
    pub program_header_entry_count: u16,
    pub section_header_entry_size: u16,
    pub section_header_entry_count: u16,
    pub section_header_names_index: u16,
}

impl Elf64Header {
    /// Whether `self` is the header stored in the first 64 bytes of `bytes`:
    /// every field holds the bytes at its place in the layout, integers read
    /// little-endian and arrays copied as they are.
    pub open spec fn decodes(self, bytes: Seq<u8>) -> bool {
        &&& self.magic_bytes@ == bytes.subrange(0, 4)
        &&& self.bitness == bytes[4]
        &&& self.endianness == bytes[5]
        &&& self.elf_version == bytes[6]
        &&& self.abi_os == bytes[7]
        &&& self.abi_version == bytes[8]
        &&& self.abi_padding@ == bytes.subrange(9, 16)
        &&& self.object_type@ == bytes.subrange(16, 18)
        &&& self.machine@ == bytes.subrange(18, 20)
        &&& self.version == le_value(bytes.subrange(20, 24))
        &&& self.entry_point == le_value(bytes.subrange(24, 32))
        &&& self.program_header_offset == le_value(bytes.subrange(32, 40))
        &&& self.section_header_offset == le_value(bytes.subrange(40, 48))
        &&& self.flags == le_value(bytes.subrange(48, 52))
        &&& self.header_size == le_value(bytes.subrange(52, 54))
        &&& self.program_header_entry_size == le_value(bytes.subrange(54, 56))
        &&& self.program_header_entry_count == le_value(bytes.subrange(56, 58))
        &&& self.section_header_entry_size == le_value(bytes.subrange(58, 60))
        &&& self.section_header_entry_count == le_value(bytes.subrange(60, 62))
        &&& self.section_header_names_index == le_value(bytes.subrange(62, 64))
    }

    /// Decodes the header from the first 64 bytes of `buffer`, without
    /// judging what it holds.
    pub fn parse_from_bytes(buffer: &[u8]) -> (header: Elf64Header)
        requires
            buffer@.len() >= ELF64_HEADER_LEN,
        ensures
            header.decodes(buffer@),
    {
        Elf64Header {
            magic_bytes: read_bytes_4(buffer, 0),
            bitness: read_u8(buffer, 4),
            endianness: read_u8(buffer, 5),
            elf_version: read_u8(buffer, 6),
            abi_os: read_u8(buffer, 7),
            abi_version: read_u8(buffer, 8),
            abi_padding: read_bytes_7(buffer, 9),
            object_type: read_bytes_2(buffer, 16),
            machine: read_bytes_2(buffer, 18),
            version: read_u32_le(buffer, 20),
            entry_point: read_u64_le(buffer, 24),
            program_header_offset: read_u64_le(buffer, 32),
            section_header_offset: read_u64_le(buffer, 40),
            flags: read_u32_le(buffer, 48),
            header_size: read_u16_le(buffer, 52),
            program_header_entry_size: read_u16_le(buffer, 54),
            program_header_entry_count: read_u16_le(buffer, 56),
            section_header_entry_size: read_u16_le(buffer, 58),
            section_header_entry_count: read_u16_le(buffer, 60),
            section_header_names_index: read_u16_le(buffer, 62),
        }
    }

    /// The layout of the header: its twenty fields in file order.
    pub open spec fn spec_layout() -> Seq<FieldKind> {
        seq![
            FieldKind::Bytes(4),
            FieldKind::U8,
            FieldKind::U8,
            FieldKind::U8,
            FieldKind::U8,
            FieldKind::U8,
            FieldKind::Bytes(7),
            FieldKind::Bytes(2),
            FieldKind::Bytes(2),
            FieldKind::U32,
            FieldKind::U64,
            FieldKind::U64,
            FieldKind::U64,
            FieldKind::U32,
            FieldKind::U16,
            FieldKind::U16,
            FieldKind::U16,
            FieldKind::U16,
            FieldKind::U16,
            FieldKind::U16,
        ]
    }

    /// The layout of the header: its twenty fields in file order.
    pub fn layout() -> (fields: Vec<FieldKind>)
        ensures
            fields@ == Self::spec_layout(),
    {
        let fields = vec![
            FieldKind::Bytes(4),
            FieldKind::U8,
            FieldKind::U8,
            FieldKind::U8,
            FieldKind::U8,
            FieldKind::U8,
            FieldKind::Bytes(7),
            FieldKind::Bytes(2),
            FieldKind::Bytes(2),
            FieldKind::U32,
            FieldKind::U64,
            FieldKind::U64,
            FieldKind::U64,
            FieldKind::U32,
            FieldKind::U16,
            FieldKind::U16,
            FieldKind::U16,
            FieldKind::U16,
            FieldKind::U16,
            FieldKind::U16,
        ];
        assert(fields@ =~= Self::spec_layout());
        fields
    }

    /// Whether `values` holds the fields of `self`, one value for each field
    /// in file order.
    pub open spec fn is_record(self, values: Seq<FieldValue>) -> bool {
        &&& values.len() == 20
        &&& values[0] matches FieldValue::Bytes(v) && v@ == self.magic_bytes@
        &&& values[1] == FieldValue::U8(self.bitness)
        &&& values[2] == FieldValue::U8(self.endianness)
        &&& values[3] == FieldValue::U8(self.elf_version)
        &&& values[4] == FieldValue::U8(self.abi_os)
        &&& values[5] == FieldValue::U8(self.abi_version)
        &&& values[6] matches FieldValue::Bytes(v) && v@ == self.abi_padding@
        &&& values[7] matches FieldValue::Bytes(v) && v@ == self.object_type@
        &&& values[8] matches FieldValue::Bytes(v) && v@ == self.machine@
        &&& values[9] == FieldValue::U32(self.version)
        &&& values[10] == FieldValue::U64(self.entry_point)
        &&& values[11] == FieldValue::U64(self.program_header_offset)
        &&& values[12] == FieldValue::U64(self.section_header_offset)
        &&& values[13] == FieldValue::U32(self.flags)
        &&& values[14] == FieldValue::U16(self.header_size)
        &&& values[15] == FieldValue::U16(self.program_header_entry_size)
        &&& values[16] == FieldValue::U16(self.program_header_entry_count)
        &&& values[17] == FieldValue::U16(self.section_header_entry_size)
        &&& values[18] == FieldValue::U16(self.section_header_entry_count)
        &&& values[19] == FieldValue::U16(self.section_header_names_index)
    }

    /// Where the program header table ends in the file: its offset plus one
    /// entry size for each entry.
    pub open spec fn spec_program_table_end(self) -> int {
        self.program_header_offset + self.program_header_entry_count
            * self.program_header_entry_size
    }

    /// Where the section header table ends in the file: its offset plus one
    /// entry size for each entry.
    pub open spec fn spec_section_table_end(self) -> int {
        self.section_header_offset + self.section_header_entry_count
            * self.section_header_entry_size
    }

    /// The number of bytes a buffer must hold to cover the program header
    /// table, or `None` where that number does not fit a `usize`.
    pub fn program_table_end(&self) -> (end: Option<usize>)
        ensures
            end == table_end_in_reach(self.spec_program_table_end()),
    {
        table_end(
            self.program_header_offset,
            self.program_header_entry_count,
            self.program_header_entry_size,
        )
    }

    /// The number of bytes a buffer must hold to cover the section header
    /// table, or `None` where that number does not fit a `usize`.
    pub fn section_table_end(&self) -> (end: Option<usize>)
        ensures
            end == table_end_in_reach(self.spec_section_table_end()),
    {
        table_end(
            self.section_header_offset,
            self.section_header_entry_count,
            self.section_header_entry_size,
        )
    }
}

/// A table end as a buffer length, where it is one.
pub open spec fn table_end_in_reach(end: int) -> Option<usize> {
    if end <= usize::MAX {
        Some(end as usize)
    } else {
        None
    }
}

/// The end of a table of `count` rows of `size` bytes that starts at `offset`.
fn table_end(offset: u64, count: u16, size: u16) -> (end: Option<usize>)
    ensures
        end == table_end_in_reach(offset + count * size),
{
    assert(count * size <= 0xffff * 0xffff) by (nonlinear_arith)
        requires
            count <= 0xffff,
            size <= 0xffff,
    ;
    let rows: u64 = (count as u64) * (size as u64);
    match offset.checked_add(rows) {
        Some(end) => {
            if end <= usize::MAX as u64 {
                Some(end as usize)
            } else {
                None
            }
        },
        None => None,
    }
}

/// Why the first 64 bytes of `bytes` are no header this decoder takes, if
/// they are not. The signature is judged first, then the class, then the
/// data encoding.
pub open spec fn header_rejection(bytes: Seq<u8>) -> Option<ParseError> {
    if bytes.len() < ELF64_HEADER_LEN {
        Some(ParseError::Truncated)
    } else if bytes.subrange(0, 4) != elf_magic() {
        Some(ParseError::BadMagic)
    } else if bytes[4] != ELF_CLASS_64 {
        Some(ParseError::UnsupportedClass)
    } else if bytes[5] != ELF_DATA_LITTLE_ENDIAN {
        Some(ParseError::UnsupportedEncoding)
    } else {
        None
    }
}

/// Validates and decodes the file header at the start of `buffer`.
///
/// A buffer of fewer than 64 bytes is `Truncated`. Otherwise the signature,
/// the class byte and the data-encoding byte are checked in that order, and
/// only then are the fields decoded.
pub fn parse_header(buffer: &[u8]) -> (result: Result<Elf64Header, ParseError>)
    ensures
        match result {
            Ok(header) => header_rejection(buffer@) is None && header.decodes(buffer@),
            Err(e) => header_rejection(buffer@) == Some(e),
        },
{
    if buffer.len() < ELF64_HEADER_LEN {
        return Err(ParseError::Truncated);
    }
    if buffer[0] != 0x7f || buffer[1] != 0x45 || buffer[2] != 0x4c || buffer[3] != 0x46 {
        assert(buffer@.subrange(0, 4) != elf_magic()) by {
            if buffer@.subrange(0, 4) == elf_magic() {
                assert(buffer@.subrange(0, 4)[0] == elf_magic()[0]);
                assert(buffer@.subrange(0, 4)[1] == elf_magic()[1]);
                assert(buffer@.subrange(0, 4)[2] == elf_magic()[2]);
                assert(buffer@.subrange(0, 4)[3] == elf_magic()[3]);
            }
        }
        return Err(ParseError::BadMagic);
    }
    assert(buffer@.subrange(0, 4) =~= elf_magic());
    if buffer[4] != ELF_CLASS_64 {
        return Err(ParseError::UnsupportedClass);
    }
    if buffer[5] != ELF_DATA_LITTLE_ENDIAN {
        return Err(ParseError::UnsupportedEncoding);
    }
    Ok(Elf64Header::parse_from_bytes(buffer))
}

/// The bytes of row `index` of a table of rows of `size` bytes that starts
/// at `offset` in `bytes`.
pub open spec fn table_row(bytes: Seq<u8>, offset: int, size: int, index: int) -> Seq<u8> {
    bytes.subrange(offset + index * size, offset + index * size + size)
}

/// Row bounds inside a table that fits its buffer.
pub proof fn lemma_row_in_table(offset: int, size: int, count: int, index: int)
    requires
        0 <= offset,
        0 <= size,
        0 <= index < count,
    ensures
        0 <= index * size,
        offset + index * size + size <= offset + count * size,
{
    assert(0 <= index * size && index * size + size <= count * size) by (nonlinear_arith)
        requires
            0 <= size,
            0 <= index < count,
    ;
}

/// The fields of the header start at offsets 0, 4, 5, 6, 7, 8, 9, 16, 18,
/// 20, 24, 32, 40, 48, 52, 54, 56, 58, 60 and 62, and together they fill 64
/// bytes.
pub proof fn lemma_header_layout()
    ensures
        Elf64Header::spec_layout().len() == 20,
        layout_width(Elf64Header::spec_layout()) == ELF64_HEADER_LEN,
        field_offset(Elf64Header::spec_layout(), 0) == 0,
        field_offset(Elf64Header::spec_layout(), 1) == 4,
        field_offset(Elf64Header::spec_layout(), 2) == 5,
        field_offset(Elf64Header::spec_layout(), 3) == 6,
        field_offset(Elf64Header::spec_layout(), 4) == 7,
        field_offset(Elf64Header::spec_layout(), 5) == 8,
        field_offset(Elf64Header::spec_layout(), 6) == 9,
        field_offset(Elf64Header::spec_layout(), 7) == 16,
        field_offset(Elf64Header::spec_layout(), 8) == 18,
        field_offset(Elf64Header::spec_layout(), 9) == 20,
        field_offset(Elf64Header::spec_layout(), 10) == 24,
        field_offset(Elf64Header::spec_layout(), 11) == 32,
        field_offset(Elf64Header::spec_layout(), 12) == 40,
        field_offset(Elf64Header::spec_layout(), 13) == 48,
        field_offset(Elf64Header::spec_layout(), 14) == 52,
        field_offset(Elf64Header::spec_layout(), 15) == 54,
        field_offset(Elf64Header::spec_layout(), 16) == 56,
        field_offset(Elf64Header::spec_layout(), 17) == 58,
        field_offset(Elf64Header::spec_layout(), 18) == 60,
        field_offset(Elf64Header::spec_layout(), 19) == 62,
{
    let fields = Elf64Header::spec_layout();
    lemma_field_offsets(fields, 0);
    lemma_field_offsets(fields, 1);
    lemma_field_offsets(fields, 2);
    lemma_field_offsets(fields, 3);
    lemma_field_offsets(fields, 4);
    lemma_field_offsets(fields, 5);
    lemma_field_offsets(fields, 6);
    lemma_field_offsets(fields, 7);
    lemma_field_offsets(fields, 8);
    lemma_field_offsets(fields, 9);
    lemma_field_offsets(fields, 10);
    lemma_field_offsets(fields, 11);
    lemma_field_offsets(fields, 12);
    lemma_field_offsets(fields, 13);
    lemma_field_offsets(fields, 14);
    lemma_field_offsets(fields, 15);
    lemma_field_offsets(fields, 16);
    lemma_field_offsets(fields, 17);
    lemma_field_offsets(fields, 18);
    lemma_field_offsets(fields, 19);
}

/// The header that `parse_from_bytes` gives is the record that the field
/// codec decodes by the header's layout.
pub proof fn lemma_header_is_decoded_record(
    header: Elf64Header,
    values: Seq<FieldValue>,
    bytes: Seq<u8>,
)
    requires
        header.decodes(bytes),
        record_decodes(values, Elf64Header::spec_layout(), bytes),
    ensures
        header.is_record(values),
{
    lemma_header_layout();
    let fields = Elf64Header::spec_layout();
    assert(field_decodes_at(values, fields, bytes, 0));
    assert(field_decodes_at(values, fields, bytes, 1));
    assert(field_decodes_at(values, fields, bytes, 2));
    assert(field_decodes_at(values, fields, bytes, 3));
    assert(field_decodes_at(values, fields, bytes, 4));
    assert(field_decodes_at(values, fields, bytes, 5));
    assert(field_decodes_at(values, fields, bytes, 6));
    assert(field_decodes_at(values, fields, bytes, 7));
    assert(field_decodes_at(values, fields, bytes, 8));
    assert(field_decodes_at(values, fields, bytes, 9));
    assert(field_decodes_at(values, fields, bytes, 10));
    assert(field_decodes_at(values, fields, bytes, 11));
    assert(field_decodes_at(values, fields, bytes, 12));
    assert(field_decodes_at(values, fields, bytes, 13));
    assert(field_decodes_at(values, fields, bytes, 14));
    assert(field_decodes_at(values, fields, bytes, 15));
    assert(field_decodes_at(values, fields, bytes, 16));
    assert(field_decodes_at(values, fields, bytes, 17));
    assert(field_decodes_at(values, fields, bytes, 18));
    assert(field_decodes_at(values, fields, bytes, 19));
}

/// The bytes decide the header: two headers that decode from the same bytes
/// are the same.
pub proof fn lemma_header_unique(first: Elf64Header, second: Elf64Header, bytes: Seq<u8>)
    requires
        first.decodes(bytes),
        second.decodes(bytes),
    ensures
        first == second,
{
    assert(first.magic_bytes =~= second.magic_bytes);
    assert(first.abi_padding =~= second.abi_padding);
    assert(first.object_type =~= second.object_type);
    assert(first.machine =~= second.machine);
}

/// A header of 64 bytes or more with the ELF signature, the 64-bit class and
/// the little-endian encoding is accepted.
pub proof fn lemma_valid_header_accepted(bytes: Seq<u8>)
    requires
        bytes.len() >= ELF64_HEADER_LEN,
        bytes.subrange(0, 4) == elf_magic(),
        bytes[4] == ELF_CLASS_64,
        bytes[5] == ELF_DATA_LITTLE_ENDIAN,
    ensures
        header_rejection(bytes) is None,
{
}

/// A header whose first four bytes are not the ELF signature is `BadMagic`,
/// whatever else it holds.
pub proof fn lemma_wrong_magic_rejected(bytes: Seq<u8>)
    requires
        bytes.len() >= ELF64_HEADER_LEN,
        bytes.subrange(0, 4) != elf_magic(),
    ensures
        header_rejection(bytes) == Some(ParseError::BadMagic),
{
}

/// A header with the ELF signature and another class byte than that of
/// 64-bit files, such as the 1 of 32-bit files, is `UnsupportedClass`.
pub proof fn lemma_wrong_class_rejected(bytes: Seq<u8>)
    requires
        bytes.len() >= ELF64_HEADER_LEN,
        bytes.subrange(0, 4) == elf_magic(),
        bytes[4] != ELF_CLASS_64,
    ensures
        header_rejection(bytes) == Some(ParseError::UnsupportedClass),
{
}

} // verus!
