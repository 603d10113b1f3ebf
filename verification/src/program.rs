//! The program header table: one 56-byte entry for each segment.

use crate::codec::field_decodes_at;
use crate::codec::field_offset;
use crate::codec::layout_width;
use crate::codec::le_value;
use crate::codec::lemma_field_offsets;
use crate::codec::lemma_le_value_digits;
use crate::codec::read_bytes_4;
use crate::codec::read_u32_le;
use crate::codec::read_u64_le;
use crate::codec::record_decodes;
use crate::codec::FieldKind;
use crate::codec::FieldValue;
use crate::header::lemma_row_in_table;
use crate::header::table_row;
use crate::header::Elf64Header;
use crate::tag::render_tag;
use crate::tag::tag_hex_text;
use crate::tag::tag_number;
use crate::tag::tag_value;
use vstd::prelude::*;
use vstd::slice::slice_subrange;
use vstd::string::StringExecFns;

verus! {

/// The length of a program header entry in bytes.
pub const ELF64_PROGRAM_HEADER_LEN: usize = 56;

/// A program header entry, field by field as the file stores it.
#[derive(Debug, Clone, Copy, PartialEq, Eq)]
pub struct Elf64ProgramHeaderEntry {
    pub segment_type: [u8; 4],
    pub flags: u32,
    pub offset: u64,
    pub virtual_address: u64,
    pub physical_address: u64,
    pub file_size: u64,
    pub mem_size: u64,
    pub align: u64,
}

/// A program header entry with the name of its segment type.
#[derive(Debug, Clone, PartialEq, Eq)]
pub struct Elf64ProgramHeaderInfo {
    /// The entry as the file stores it.
    pub header_data: Elf64ProgramHeaderEntry,
    /// The segment type in words.
    pub type_string: String,
}

/// What kind of segment a program header describes.
#[derive(Debug, Clone, Copy, PartialEq, Eq)]
pub enum SegmentType {
    Null,
    Load,
    Dynamic,
    Interp,
    Note,
    Shlib,
    Phdr,
    Tls,
    /// A tag in the range kept for operating systems.
    OsSpecific,
    /// A tag in the range kept for processors.
    ProcessorSpecific,
    /// Any other tag.
    Other,
}

impl Elf64ProgramHeaderEntry {
    /// Whether `self` is the entry stored in the first 56 bytes of `bytes`.
    pub open spec fn decodes(self, bytes: Seq<u8>) -> bool {
        &&& self.segment_type@ == bytes.subrange(0, 4)
        &&& self.flags == le_value(bytes.subrange(4, 8))
        &&& self.offset == le_value(bytes.subrange(8, 16))
        &&& self.virtual_address == le_value(bytes.subrange(16, 24))
        &&& self.physical_address == le_value(bytes.subrange(24, 32))
        &&& self.file_size == le_value(bytes.subrange(32, 40))
        &&& self.mem_size == le_value(bytes.subrange(40, 48))
        &&& self.align == le_value(bytes.subrange(48, 56))
    }

    /// The layout of an entry: its eight fields in file order.
    pub open spec fn spec_layout() -> Seq<FieldKind> {
        seq![
            FieldKind::Bytes(4),
            FieldKind::U32,
            FieldKind::U64,
            FieldKind::U64,
            FieldKind::U64,
            FieldKind::U64,
            FieldKind::U64,
            FieldKind::U64,
        ]
    }

    /// The layout of an entry: its eight fields in file order.
    pub fn layout() -> (fields: Vec<FieldKind>)
        ensures
            fields@ == Self::spec_layout(),
    {
        let fields = vec![
            FieldKind::Bytes(4),
            FieldKind::U32,
            FieldKind::U64,
            FieldKind::U64,
            FieldKind::U64,
            FieldKind::U64,
            FieldKind::U64,
            FieldKind::U64,
        ];
        assert(fields@ =~= Self::spec_layout());
        fields
    }

    /// Whether `values` holds the fields of `self`, one value for each field
    /// in file order.
    pub open spec fn is_record(self, values: Seq<FieldValue>) -> bool {
        &&& values.len() == 8
        &&& values[0] matches FieldValue::Bytes(v) && v@ == self.segment_type@
        &&& values[1] == FieldValue::U32(self.flags)
        &&& values[2] == FieldValue::U64(self.offset)
        &&& values[3] == FieldValue::U64(self.virtual_address)
        &&& values[4] == FieldValue::U64(self.physical_address)
        &&& values[5] == FieldValue::U64(self.file_size)
        &&& values[6] == FieldValue::U64(self.mem_size)
        &&& values[7] == FieldValue::U64(self.align)
    }

    /// Decodes an entry from the first 56 bytes of `buffer`.
    pub fn parse_from_bytes(buffer: &[u8]) -> (entry: Elf64ProgramHeaderEntry)
        requires
            buffer@.len() >= ELF64_PROGRAM_HEADER_LEN,
        ensures
            entry.decodes(buffer@),
    {
        Elf64ProgramHeaderEntry {
            segment_type: read_bytes_4(buffer, 0),
            flags: read_u32_le(buffer, 4),
            offset: read_u64_le(buffer, 8),
            virtual_address: read_u64_le(buffer, 16),
            physical_address: read_u64_le(buffer, 24),
            file_size: read_u64_le(buffer, 32),
            mem_size: read_u64_le(buffer, 40),
            align: read_u64_le(buffer, 48),
        }
    }
}

/// The kind of segment that `tag` names. The eight known numbers come first;
/// of the rest, the top four bits of the most significant byte tell the range
/// kept for operating systems (6) from the one kept for processors (7).
pub open spec fn segment_type_of(tag: Seq<u8>) -> SegmentType {
    let value = tag_value(tag);
    if value == 0 {
        SegmentType::Null
    } else if value == 1 {
        SegmentType::Load
    } else if value == 2 {
        SegmentType::Dynamic
    } else if value == 3 {
        SegmentType::Interp
    } else if value == 4 {
        SegmentType::Note
    } else if value == 5 {
        SegmentType::Shlib
    } else if value == 6 {
        SegmentType::Phdr
    } else if value == 7 {
        SegmentType::Tls
    } else if tag[3] / 16 == 6 {
        SegmentType::OsSpecific
    } else if tag[3] / 16 == 7 {
        SegmentType::ProcessorSpecific
    } else {
        SegmentType::Other
    }
}

/// The words for the segment type that `tag` names. A tag outside the eight
/// known numbers is shown after its range, in hexadecimal.
pub open spec fn segment_type_text(tag: Seq<u8>) -> Seq<char> {
    match segment_type_of(tag) {
        SegmentType::Null => "PT_NULL"@,
        SegmentType::Load => "PT_LOAD"@,
        SegmentType::Dynamic => "PT_DYNAMIC"@,
        SegmentType::Interp => "PT_INTERP"@,
        SegmentType::Note => "PT_NOTE"@,
        SegmentType::Shlib => "PT_SHLIB"@,
        SegmentType::Phdr => "PT_PHDR"@,
        SegmentType::Tls => "PT_TLS"@,
        SegmentType::OsSpecific => "OS_SPECIFIC: "@ + tag_hex_text(tag),
        SegmentType::ProcessorSpecific => "PROCESSOR_SPECIFIC: "@ + tag_hex_text(tag),
        SegmentType::Other => "OTHER: "@ + tag_hex_text(tag),
    }
}

/// Classifies the segment type tag of a program header.
pub fn classify_segment_type(tag: &[u8; 4]) -> (kind: SegmentType)
    ensures
        kind == segment_type_of(tag@),
{
    let value = tag_number(tag);
    if value == 0 {
        SegmentType::Null
    } else if value == 1 {
        SegmentType::Load
    } else if value == 2 {
        SegmentType::Dynamic
    } else if value == 3 {
        SegmentType::Interp
    } else if value == 4 {
        SegmentType::Note
    } else if value == 5 {
        SegmentType::Shlib
    } else if value == 6 {
        SegmentType::Phdr
    } else if value == 7 {
        SegmentType::Tls
    } else if tag[3] / 16 == 6 {
        SegmentType::OsSpecific
    } else if tag[3] / 16 == 7 {
        SegmentType::ProcessorSpecific
    } else {
        SegmentType::Other
    }
}

/// Names the segment type that the tag of a program header stands for.
pub fn program_header_type_string(buffer: &[u8; 4]) -> (text: String)
    ensures
        text@ == segment_type_text(buffer@),
{
    match classify_segment_type(buffer) {
        SegmentType::Null => String::from_str("PT_NULL"),
        SegmentType::Load => String::from_str("PT_LOAD"),
        SegmentType::Dynamic => String::from_str("PT_DYNAMIC"),
        SegmentType::Interp => String::from_str("PT_INTERP"),
        SegmentType::Note => String::from_str("PT_NOTE"),
        SegmentType::Shlib => String::from_str("PT_SHLIB"),
        SegmentType::Phdr => String::from_str("PT_PHDR"),
        SegmentType::Tls => String::from_str("PT_TLS"),
        SegmentType::OsSpecific => String::from_str("OS_SPECIFIC: ").concat(
            render_tag(buffer).as_str(),
        ),
        SegmentType::ProcessorSpecific => String::from_str("PROCESSOR_SPECIFIC: ").concat(
            render_tag(buffer).as_str(),
        ),
        SegmentType::Other => String::from_str("OTHER: ").concat(render_tag(buffer).as_str()),
    }
}

/// Whether a buffer of `buffer_len` bytes holds the whole program header
/// table that `header` announces, in rows long enough to decode. A table
/// without rows asks for nothing.
pub open spec fn program_headers_in_reach(header: Elf64Header, buffer_len: int) -> bool {
    header.program_header_entry_count == 0 || (header.program_header_entry_size
        >= ELF64_PROGRAM_HEADER_LEN && header.spec_program_table_end() <= buffer_len)
}

/// Whether `entries` is the program header table that `header` announces in
/// `bytes`: one entry for each row, in file order, each with the words for
/// its segment type.
pub open spec fn program_headers_decode(
    entries: Seq<Elf64ProgramHeaderInfo>,
    bytes: Seq<u8>,
    header: Elf64Header,
) -> bool {
    &&& entries.len() == header.program_header_entry_count
    &&& forall|i: int|
        0 <= i < entries.len() ==> {
            &&& (#[trigger] entries[i]).header_data.decodes(
                table_row(
                    bytes,
                    header.program_header_offset as int,
                    header.program_header_entry_size as int,
                    i,
                ),
            )
            &&& entries[i].type_string@ == segment_type_text(entries[i].header_data.segment_type@)
        }
}

/// Tells whether `read_program_headers_64` may be called on a buffer of
/// `buffer_len` bytes.
pub fn program_headers_fit(header: &Elf64Header, buffer_len: usize) -> (fit: bool)
    ensures
        fit == program_headers_in_reach(*header, buffer_len as int),
{
    if header.program_header_entry_count == 0 {
        return true;
    }
    if (header.program_header_entry_size as usize) < ELF64_PROGRAM_HEADER_LEN {
        return false;
    }
    match header.program_table_end() {
        Some(end) => end <= buffer_len,
        None => false,
    }
}

/// Decodes the program header table that `elf_header` announces in `buffer`.
///
/// The entries come out in file order, none dropped, each with the words for
/// its segment type.
pub fn read_program_headers_64(buffer: &[u8], elf_header: &Elf64Header) -> (entries: Vec<
    Elf64ProgramHeaderInfo,
>)
    requires
        program_headers_in_reach(*elf_header, buffer@.len() as int),
    ensures
        program_headers_decode(entries@, buffer@, *elf_header),
{
    let mut entries: Vec<Elf64ProgramHeaderInfo> = Vec::new();
    let count = elf_header.program_header_entry_count as usize;
    if count == 0 {
        return entries;
    }
    proof {
        assert(buffer@.len() == buffer.len());
    }
    let ph_offset = elf_header.program_header_offset as usize;
    let ph_size = elf_header.program_header_entry_size as usize;
    let mut i: usize = 0;
    while i < count
        invariant
            i <= count,
            count == elf_header.program_header_entry_count,
            ph_offset == elf_header.program_header_offset,
            ph_size == elf_header.program_header_entry_size,
            ph_size >= ELF64_PROGRAM_HEADER_LEN,
            ph_offset + count * ph_size <= buffer@.len() <= usize::MAX,
            entries@.len() == i,
            forall|j: int|
                0 <= j < i ==> {
                    &&& (#[trigger] entries@[j]).header_data.decodes(
                        table_row(buffer@, ph_offset as int, ph_size as int, j),
                    )
                    &&& entries@[j].type_string@ == segment_type_text(
                        entries@[j].header_data.segment_type@,
                    )
                },
        decreases count - i,
    {
        proof {
            lemma_row_in_table(ph_offset as int, ph_size as int, count as int, i as int);
        }
        let start_offset = ph_offset + i * ph_size;
        let end_offset = start_offset + ph_size;
        let ph = Elf64ProgramHeaderEntry::parse_from_bytes(
            slice_subrange(buffer, start_offset, end_offset),
        );
        proof {
            let row = table_row(buffer@, ph_offset as int, ph_size as int, i as int);
            assert(row =~= buffer@.subrange(start_offset as int, end_offset as int));
        }
        let type_string = program_header_type_string(&ph.segment_type);
        entries.push(Elf64ProgramHeaderInfo { header_data: ph, type_string });
        i = i + 1;
    }
    entries
}

/// The fields of a program header entry start at offsets 0, 4, 8, 16, 24,
/// 32, 40 and 48, and together they fill 56 bytes.
pub proof fn lemma_program_header_layout()
    ensures
        Elf64ProgramHeaderEntry::spec_layout().len() == 8,
        layout_width(Elf64ProgramHeaderEntry::spec_layout()) == ELF64_PROGRAM_HEADER_LEN,
        field_offset(Elf64ProgramHeaderEntry::spec_layout(), 0) == 0,
        field_offset(Elf64ProgramHeaderEntry::spec_layout(), 1) == 4,
        field_offset(Elf64ProgramHeaderEntry::spec_layout(), 2) == 8,
        field_offset(Elf64ProgramHeaderEntry::spec_layout(), 3) == 16,
        field_offset(Elf64ProgramHeaderEntry::spec_layout(), 4) == 24,
        field_offset(Elf64ProgramHeaderEntry::spec_layout(), 5) == 32,
        field_offset(Elf64ProgramHeaderEntry::spec_layout(), 6) == 40,
        field_offset(Elf64ProgramHeaderEntry::spec_layout(), 7) == 48,
{
    let fields = Elf64ProgramHeaderEntry::spec_layout();
    lemma_field_offsets(fields, 0);
    lemma_field_offsets(fields, 1);
    lemma_field_offsets(fields, 2);
    lemma_field_offsets(fields, 3);
    lemma_field_offsets(fields, 4);
    lemma_field_offsets(fields, 5);
    lemma_field_offsets(fields, 6);
    lemma_field_offsets(fields, 7);
}

/// The entry that `parse_from_bytes` gives is the record that the field
/// codec decodes by the entry's layout.
pub proof fn lemma_program_header_is_decoded_record(
    entry: Elf64ProgramHeaderEntry,
    values: Seq<FieldValue>,
    bytes: Seq<u8>,
)
    requires
        entry.decodes(bytes),
        record_decodes(values, Elf64ProgramHeaderEntry::spec_layout(), bytes),
    ensures
        entry.is_record(values),
{
    lemma_program_header_layout();
    let fields = Elf64ProgramHeaderEntry::spec_layout();
    assert(field_decodes_at(values, fields, bytes, 0));
    assert(field_decodes_at(values, fields, bytes, 1));
    assert(field_decodes_at(values, fields, bytes, 2));
    assert(field_decodes_at(values, fields, bytes, 3));
    assert(field_decodes_at(values, fields, bytes, 4));
    assert(field_decodes_at(values, fields, bytes, 5));
    assert(field_decodes_at(values, fields, bytes, 6));
    assert(field_decodes_at(values, fields, bytes, 7));
}

/// The bytes decide the entry: two entries that decode from the same bytes
/// are the same.
pub proof fn lemma_program_header_unique(
    first: Elf64ProgramHeaderEntry,
    second: Elf64ProgramHeaderEntry,
    bytes: Seq<u8>,
)
    requires
        first.decodes(bytes),
        second.decodes(bytes),
    ensures
        first == second,
{
    assert(first.segment_type =~= second.segment_type);
}

/// A tag whose most significant byte lies in 0x60..=0x6f is in the range
/// kept for operating systems, and one whose most significant byte lies in
/// 0x70..=0x7f, such as 0x70 itself, in the range kept for processors.
pub proof fn lemma_reserved_segment_ranges(tag: Seq<u8>)
    requires
        tag.len() == 4,
    ensures
        0x60 <= tag[3] <= 0x6f ==> segment_type_of(tag) == SegmentType::OsSpecific,
        0x70 <= tag[3] <= 0x7f ==> segment_type_of(tag) == SegmentType::ProcessorSpecific,
        tag[3] == 0x70 ==> segment_type_text(tag) == "PROCESSOR_SPECIFIC: "@ + tag_hex_text(tag),
{
    lemma_le_value_digits(tag);
}

} // verus!
