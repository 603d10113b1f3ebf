//! The section header table: one 64-byte entry for each section, and the
//! names that the section-name string table gives them.

use crate::codec::field_decodes_at;
use crate::codec::field_offset;
use crate::codec::layout_width;
use crate::codec::le_value;
use crate::codec::lemma_field_offsets;
use crate::codec::read_bytes_4;
use crate::codec::read_u32_le;
use crate::codec::read_u64_le;
use crate::codec::record_decodes;
use crate::codec::FieldKind;
use crate::codec::FieldValue;
use crate::error::ParseError;
use crate::header::lemma_row_in_table;
use crate::header::table_end_in_reach;
use crate::header::table_row;
use crate::header::Elf64Header;
use crate::strtab::string_table_of;
use crate::strtab::StringTable;
use crate::tag::render_tag;
use crate::tag::tag_hex_text;
use crate::tag::tag_number;
use crate::tag::tag_value;
use vstd::prelude::*;
use vstd::slice::slice_subrange;
use vstd::string::StringExecFns;

verus! {

/// The length of a section header entry in bytes.
pub const ELF64_SECTION_HEADER_LEN: usize = 64;

/// A section header entry, field by field as the file stores it.
#[derive(Debug, Clone, Copy, PartialEq, Eq)]
pub struct Elf64SectionHeaderEntry {
    pub name_offset: u32,
    pub section_type: [u8; 4],
    pub flags: u64,
    pub addr: u64,
    pub offset: u64,
    pub size: u64,
    pub link: u32,
    pub info: u32,
    pub addr_align: u64,
    pub entry_size: u64,
}

/// A section header entry with its name and the name of its type.
#[derive(Debug, Clone, PartialEq, Eq)]
pub struct Elf64SectionHeaderInfo {
    /// The entry as the file stores it.
    pub header_data: Elf64SectionHeaderEntry,
    /// The section's name, from the section-name string table.
    pub name: String,
    /// The section type in words.
    pub type_string: String,
}

/// What kind of section a section header describes.
#[derive(Debug, Clone, Copy, PartialEq, Eq)]
pub enum SectionType {
    Null,
    Progbits,
    Symtab,
    Strtab,
    Rela,
    Hash,
    Dynamic,
    Note,
    Nobits,
    Rel,
    Shlib,
    Dynsym,
    InitArray,
    FiniArray,
    PreinitArray,
    Group,
    SymtabShndx,
    Num,
    /// A tag at or above the range kept for operating systems.
    OsSpecific,
    /// Any other tag.
    Unrecognized,
}

impl Elf64SectionHeaderEntry {
    /// Whether `self` is the entry stored in the first 64 bytes of `bytes`.
    pub open spec fn decodes(self, bytes: Seq<u8>) -> bool {
        &&& self.name_offset == le_value(bytes.subrange(0, 4))
        &&& self.section_type@ == bytes.subrange(4, 8)
        &&& self.flags == le_value(bytes.subrange(8, 16))
        &&& self.addr == le_value(bytes.subrange(16, 24))
        &&& self.offset == le_value(bytes.subrange(24, 32))
        &&& self.size == le_value(bytes.subrange(32, 40))
        &&& self.link == le_value(bytes.subrange(40, 44))
        &&& self.info == le_value(bytes.subrange(44, 48))
        &&& self.addr_align == le_value(bytes.subrange(48, 56))
        &&& self.entry_size == le_value(bytes.subrange(56, 64))
    }

    /// The layout of an entry: its ten fields in file order.
    pub open spec fn spec_layout() -> Seq<FieldKind> {
        seq![
            FieldKind::U32,
            FieldKind::Bytes(4),
            FieldKind::U64,
            FieldKind::U64,
            FieldKind::U64,
            FieldKind::U64,
            FieldKind::U32,
            FieldKind::U32,
            FieldKind::U64,
            FieldKind::U64,
        ]
    }

    /// The layout of an entry: its ten fields in file order.
    pub fn layout() -> (fields: Vec<FieldKind>)
        ensures
            fields@ == Self::spec_layout(),
    {
        let fields = vec![
            FieldKind::U32,
            FieldKind::Bytes(4),
            FieldKind::U64,
            FieldKind::U64,
            FieldKind::U64,
            FieldKind::U64,
            FieldKind::U32,
            FieldKind::U32,
            FieldKind::U64,
            FieldKind::U64,
        ];
        assert(fields@ =~= Self::spec_layout());
        fields
    }

    /// Whether `values` holds the fields of `self`, one value for each field
    /// in file order.
    pub open spec fn is_record(self, values: Seq<FieldValue>) -> bool {
        &&& values.len() == 10
        &&& values[0] == FieldValue::U32(self.name_offset)
        &&& values[1] matches FieldValue::Bytes(v) && v@ == self.section_type@
        &&& values[2] == FieldValue::U64(self.flags)
        &&& values[3] == FieldValue::U64(self.addr)
        &&& values[4] == FieldValue::U64(self.offset)
        &&& values[5] == FieldValue::U64(self.size)
        &&& values[6] == FieldValue::U32(self.link)
        &&& values[7] == FieldValue::U32(self.info)
        &&& values[8] == FieldValue::U64(self.addr_align)
        &&& values[9] == FieldValue::U64(self.entry_size)
    }

    /// Decodes an entry from the first 64 bytes of `buffer`.
    pub fn parse_from_bytes(buffer: &[u8]) -> (entry: Elf64SectionHeaderEntry)
        requires
            buffer@.len() >= ELF64_SECTION_HEADER_LEN,
        ensures
            entry.decodes(buffer@),
    {
        Elf64SectionHeaderEntry {
            name_offset: read_u32_le(buffer, 0),
            section_type: read_bytes_4(buffer, 4),
            flags: read_u64_le(buffer, 8),
            addr: read_u64_le(buffer, 16),
            offset: read_u64_le(buffer, 24),
            size: read_u64_le(buffer, 32),
            link: read_u32_le(buffer, 40),
            info: read_u32_le(buffer, 44),
            addr_align: read_u64_le(buffer, 48),
            entry_size: read_u64_le(buffer, 56),
        }
    }

    /// Where the section's bytes end in the file.
    pub open spec fn spec_data_end(self) -> int {
        self.offset + self.size
    }

    /// The number of bytes a buffer must hold to cover the section's bytes,
    /// or `None` where that number does not fit a `usize`.
    pub fn data_end(&self) -> (end: Option<usize>)
        ensures
            end == table_end_in_reach(self.spec_data_end()),
    {
        match self.offset.checked_add(self.size) {
            Some(end) => {
                if end <= usize::MAX as u64 {
                    Some(end as usize)
                } else {
                    None
                }
            },
            None => None,
        }
    }

    /// Whether the entry is of string-table type.
    pub open spec fn spec_is_string_table(self) -> bool {
        section_type_of(self.section_type@) == SectionType::Strtab
    }

    /// Tells whether the entry is of string-table type.
    pub fn is_string_table(&self) -> (yes: bool)
        ensures
            yes == self.spec_is_string_table(),
    {
        tag_number(&self.section_type) == 3
    }
}

/// The kind of section that `tag` names. The known numbers come first; of
/// the rest, those whose most significant byte is 0x60 or more lie at or
/// above the range kept for operating systems.
pub open spec fn section_type_of(tag: Seq<u8>) -> SectionType {
    let value = tag_value(tag);
    if value == 0x00 {
        SectionType::Null
    } else if value == 0x01 {
        SectionType::Progbits
    } else if value == 0x02 {
        SectionType::Symtab
    } else if value == 0x03 {
        SectionType::Strtab
    } else if value == 0x04 {
        SectionType::Rela
    } else if value == 0x05 {
        SectionType::Hash
    } else if value == 0x06 {
        SectionType::Dynamic
    } else if value == 0x07 {
        SectionType::Note
    } else if value == 0x08 {
        SectionType::Nobits
    } else if value == 0x09 {
        SectionType::Rel
    } else if value == 0x0a {
        SectionType::Shlib
    } else if value == 0x0b {
        SectionType::Dynsym
    } else if value == 0x0e {
        SectionType::InitArray
    } else if value == 0x0f {
        SectionType::FiniArray
    } else if value == 0x10 {
        SectionType::PreinitArray
    } else if value == 0x11 {
        SectionType::Group
    } else if value == 0x12 {
        SectionType::SymtabShndx
    } else if value == 0x13 {
        SectionType::Num
    } else if tag[3] >= 0x60 {
        SectionType::OsSpecific
    } else {
        SectionType::Unrecognized
    }
}

/// The words for the section type that `tag` names. A tag that is not
/// recognised is shown in hexadecimal.
pub open spec fn section_type_text(tag: Seq<u8>) -> Seq<char> {
    match section_type_of(tag) {
        SectionType::Null => "SHT_NULL"@,
        SectionType::Progbits => "SHT_PROGBITS"@,
        SectionType::Symtab => "SHT_SYMTAB"@,
        SectionType::Strtab => "SHT_STRTAB"@,
        SectionType::Rela => "SHT_RELA"@,
        SectionType::Hash => "SHT_HASH"@,
        SectionType::Dynamic => "SHT_DYNAMIC"@,
        SectionType::Note => "SHT_NOTE"@,
        SectionType::Nobits => "SHT_NOBITS"@,
        SectionType::Rel => "SHT_REL"@,
        SectionType::Shlib => "SHT_SHLIB"@,
        SectionType::Dynsym => "SHT_DYNSYM"@,
        SectionType::InitArray => "SHT_INIT_ARRAY"@,
        SectionType::FiniArray => "SHT_FINI_ARRAY"@,
        SectionType::PreinitArray => "SHT_PREINIT_ARRAY"@,
        SectionType::Group => "SHT_GROUP"@,
        SectionType::SymtabShndx => "SHT_SYMTAB_SHNDX"@,
        SectionType::Num => "SHT_NUM"@,
        SectionType::OsSpecific => "OS_SPECIFIC"@,
        SectionType::Unrecognized => "UNRECOGNIZED TYPE: "@ + tag_hex_text(tag),
    }
}

/// Classifies the section type tag of a section header.
pub fn classify_section_type(tag: &[u8; 4]) -> (kind: SectionType)
    ensures
        kind == section_type_of(tag@),
{
    let value = tag_number(tag);
    if value == 0x00 {
        SectionType::Null
    } else if value == 0x01 {
        SectionType::Progbits
    } else if value == 0x02 {
        SectionType::Symtab
    } else if value == 0x03 {
        SectionType::Strtab
    } else if value == 0x04 {
        SectionType::Rela
    } else if value == 0x05 {
        SectionType::Hash
    } else if value == 0x06 {
        SectionType::Dynamic
    } else if value == 0x07 {
        SectionType::Note
    } else if value == 0x08 {
        SectionType::Nobits
    } else if value == 0x09 {
        SectionType::Rel
    } else if value == 0x0a {
        SectionType::Shlib
    } else if value == 0x0b {
        SectionType::Dynsym
    } else if value == 0x0e {
        SectionType::InitArray
    } else if value == 0x0f {
        SectionType::FiniArray
    } else if value == 0x10 {
        SectionType::PreinitArray
    } else if value == 0x11 {
        SectionType::Group
    } else if value == 0x12 {
        SectionType::SymtabShndx
    } else if value == 0x13 {
        SectionType::Num
    } else if tag[3] >= 0x60 {
        SectionType::OsSpecific
    } else {
        SectionType::Unrecognized
    }
}

/// Names the section type that the tag of a section header stands for.
pub fn section_header_type_string(buffer: &[u8; 4]) -> (text: String)
    ensures
        text@ == section_type_text(buffer@),
{
    match classify_section_type(buffer) {
        SectionType::Null => String::from_str("SHT_NULL"),
        SectionType::Progbits => String::from_str("SHT_PROGBITS"),
        SectionType::Symtab => String::from_str("SHT_SYMTAB"),
        SectionType::Strtab => String::from_str("SHT_STRTAB"),
        SectionType::Rela => String::from_str("SHT_RELA"),
        SectionType::Hash => String::from_str("SHT_HASH"),
        SectionType::Dynamic => String::from_str("SHT_DYNAMIC"),
        SectionType::Note => String::from_str("SHT_NOTE"),
        SectionType::Nobits => String::from_str("SHT_NOBITS"),
        SectionType::Rel => String::from_str("SHT_REL"),
        SectionType::Shlib => String::from_str("SHT_SHLIB"),
        SectionType::Dynsym => String::from_str("SHT_DYNSYM"),
        SectionType::InitArray => String::from_str("SHT_INIT_ARRAY"),
        SectionType::FiniArray => String::from_str("SHT_FINI_ARRAY"),
        SectionType::PreinitArray => String::from_str("SHT_PREINIT_ARRAY"),
        SectionType::Group => String::from_str("SHT_GROUP"),
        SectionType::SymtabShndx => String::from_str("SHT_SYMTAB_SHNDX"),
        SectionType::Num => String::from_str("SHT_NUM"),
        SectionType::OsSpecific => String::from_str("OS_SPECIFIC"),
        SectionType::Unrecognized => String::from_str("UNRECOGNIZED TYPE: ").concat(
            render_tag(buffer).as_str(),
        ),
    }
}

/// The bytes of row `index` of the section header table that `header`
/// announces in `bytes`.
pub open spec fn section_row(bytes: Seq<u8>, header: Elf64Header, index: int) -> Seq<u8> {
    table_row(
        bytes,
        header.section_header_offset as int,
        header.section_header_entry_size as int,
        index,
    )
}

/// Whether a buffer of `buffer_len` bytes holds the whole section header
/// table that `header` announces, in rows long enough to decode. A table
/// without rows asks for nothing.
pub open spec fn section_headers_in_reach(header: Elf64Header, buffer_len: int) -> bool {
    header.section_header_entry_count == 0 || (header.section_header_entry_size
        >= ELF64_SECTION_HEADER_LEN && header.spec_section_table_end() <= buffer_len)
}

/// Whether `entries` is the section header table that `header` announces in
/// `bytes`: one entry for each row, in file order.
pub open spec fn section_entries_decode(
    entries: Seq<Elf64SectionHeaderEntry>,
    bytes: Seq<u8>,
    header: Elf64Header,
) -> bool {
    &&& entries.len() == header.section_header_entry_count
    &&& forall|i: int|
        0 <= i < entries.len() ==> (#[trigger] entries[i]).decodes(section_row(bytes, header, i))
}

/// Tells whether a buffer of `buffer_len` bytes holds the whole section
/// header table, in rows long enough to decode.
pub fn section_headers_fit(header: &Elf64Header, buffer_len: usize) -> (fit: bool)
    ensures
        fit == section_headers_in_reach(*header, buffer_len as int),
{
    if header.section_header_entry_count == 0 {
        return true;
    }
    if (header.section_header_entry_size as usize) < ELF64_SECTION_HEADER_LEN {
        return false;
    }
    match header.section_table_end() {
        Some(end) => end <= buffer_len,
        None => false,
    }
}

/// Decodes the section header table that `elf_header` announces in `buffer`.
///
/// The entries come out in file order, none dropped. A table that the
/// buffer does not hold whole, or whose rows are too short to decode, is
/// `Truncated`.
pub fn read_section_header_entries_64(buffer: &[u8], elf_header: &Elf64Header) -> (result: Result<
    Vec<Elf64SectionHeaderEntry>,
    ParseError,
>)
    ensures
        match result {
            Ok(entries) => section_headers_in_reach(*elf_header, buffer@.len() as int)
                && section_entries_decode(entries@, buffer@, *elf_header),
            Err(e) => e == ParseError::Truncated && !section_headers_in_reach(
                *elf_header,
                buffer@.len() as int,
            ),
        },
{
    if !section_headers_fit(elf_header, buffer.len()) {
        return Err(ParseError::Truncated);
    }
    let mut entries: Vec<Elf64SectionHeaderEntry> = Vec::new();
    let count = elf_header.section_header_entry_count as usize;
    if count == 0 {
        return Ok(entries);
    }
    proof {
        assert(buffer@.len() == buffer.len());
    }
    let sh_offset = elf_header.section_header_offset as usize;
    let sh_size = elf_header.section_header_entry_size as usize;
    let mut i: usize = 0;
    while i < count
        invariant
            i <= count,
            count == elf_header.section_header_entry_count,
            sh_offset == elf_header.section_header_offset,
            sh_size == elf_header.section_header_entry_size,
            sh_size >= ELF64_SECTION_HEADER_LEN,
            sh_offset + count * sh_size <= buffer@.len() <= usize::MAX,
            entries@.len() == i,
            forall|j: int|
                0 <= j < i ==> (#[trigger] entries@[j]).decodes(
                    section_row(buffer@, *elf_header, j),
                ),
        decreases count - i,
    {
        proof {
            lemma_row_in_table(sh_offset as int, sh_size as int, count as int, i as int);
        }
        let start_offset = sh_offset + i * sh_size;
        let end_offset = start_offset + sh_size;
        let sh = Elf64SectionHeaderEntry::parse_from_bytes(
            slice_subrange(buffer, start_offset, end_offset),
        );
        proof {
            let row = section_row(buffer@, *elf_header, i as int);
            assert(row =~= buffer@.subrange(start_offset as int, end_offset as int));
        }
        entries.push(sh);
        i = i + 1;
    }
    Ok(entries)
}

/// Whether a row of the section header table is of string-table type.
pub open spec fn row_is_string_table(row: Seq<u8>) -> bool {
    section_type_of(row.subrange(4, 8)) == SectionType::Strtab
}

/// The last row of string-table type among the first `rows` rows of the
/// section header table, if there is one.
pub open spec fn last_string_table_row(bytes: Seq<u8>, header: Elf64Header, rows: int) -> Option<
    int,
>
    decreases rows,
{
    if rows <= 0 {
        None
    } else if row_is_string_table(section_row(bytes, header, rows - 1)) {
        Some(rows - 1)
    } else {
        last_string_table_row(bytes, header, rows - 1)
    }
}

/// Where the section names are stored: the byte range, start and end, that
/// the last section header of string-table type gives as its section's
/// place in the file. The last one in file order is taken whatever the file
/// header's `section_header_names_index` says.
///
/// A section header table that `bytes` does not hold whole is `Truncated`;
/// one without a header of string-table type is `MissingStringTable`.
pub open spec fn section_names_range(bytes: Seq<u8>, header: Elf64Header) -> Result<
    (int, int),
    ParseError,
> {
    if !section_headers_in_reach(header, bytes.len() as int) {
        Err(ParseError::Truncated)
    } else {
        match last_string_table_row(bytes, header, header.section_header_entry_count as int) {
            None => Err(ParseError::MissingStringTable),
            Some(row) => {
                let start = le_value(section_row(bytes, header, row).subrange(24, 32)) as int;
                let size = le_value(section_row(bytes, header, row).subrange(32, 40)) as int;
                Ok((start, start + size))
            },
        }
    }
}

/// The bytes of the section-name string table, where `bytes` holds them
/// whole; `Truncated` where it does not.
pub open spec fn section_names_bytes(bytes: Seq<u8>, header: Elf64Header) -> Result<
    Seq<u8>,
    ParseError,
> {
    match section_names_range(bytes, header) {
        Err(e) => Err(e),
        Ok((start, end)) => if end <= bytes.len() {
            Ok(bytes.subrange(start, end))
        } else {
            Err(ParseError::Truncated)
        },
    }
}

/// The name of a section whose header gives `name_offset`: the string that
/// starts there in `names`, or a stand-in where none does.
pub open spec fn section_name(names: Map<int, Seq<char>>, name_offset: u32) -> Seq<char> {
    if names.contains_key(name_offset as int) {
        names[name_offset as int]
    } else {
        "<NAME_NOT_FOUND>"@
    }
}

/// Whether `info` is `entry` with the words for its type and its name from
/// `names`.
pub open spec fn section_annotated(
    info: Elf64SectionHeaderInfo,
    entry: Elf64SectionHeaderEntry,
    names: Map<int, Seq<char>>,
) -> bool {
    &&& info.header_data == entry
    &&& info.type_string@ == section_type_text(entry.section_type@)
    &&& info.name@ == section_name(names, entry.name_offset)
}

/// Whether `sections` is the section header table that `header` announces
/// in `bytes`, each entry with the words for its type and its name from
/// `names`, in file order.
pub open spec fn section_headers_decode(
    sections: Seq<Elf64SectionHeaderInfo>,
    bytes: Seq<u8>,
    header: Elf64Header,
    names: Map<int, Seq<char>>,
) -> bool {
    &&& sections.len() == header.section_header_entry_count
    &&& forall|i: int|
        0 <= i < sections.len() ==> {
            &&& (#[trigger] sections[i]).header_data.decodes(section_row(bytes, header, i))
            &&& section_annotated(sections[i], sections[i].header_data, names)
        }
}

/// Finds the entry that holds the section names: the last one of
/// string-table type.
pub fn find_name_table(entries: &[Elf64SectionHeaderEntry]) -> (found: Option<usize>)
    ensures
        match found {
            Some(index) => {
                &&& index < entries@.len()
                &&& entries@[index as int].spec_is_string_table()
                &&& forall|j: int| index < j < entries@.len() ==> !entries@[j].spec_is_string_table()
            },
            None => forall|j: int| 0 <= j < entries@.len() ==> !entries@[j].spec_is_string_table(),
        },
{
    let mut i: usize = entries.len();
    while i > 0
        invariant
            i <= entries@.len(),
            forall|j: int| i <= j < entries@.len() ==> !entries@[j].spec_is_string_table(),
        decreases i,
    {
        i = i - 1;
        if entries[i].is_string_table() {
            return Some(i);
        }
    }
    None
}

/// What a search of the decoded entries finds is what the rows say.
proof fn lemma_last_string_table_row(
    entries: Seq<Elf64SectionHeaderEntry>,
    bytes: Seq<u8>,
    header: Elf64Header,
    rows: int,
)
    requires
        section_entries_decode(entries, bytes, header),
        0 <= rows <= entries.len(),
    ensures
        match last_string_table_row(bytes, header, rows) {
            Some(index) => {
                &&& 0 <= index < rows
                &&& entries[index].spec_is_string_table()
                &&& forall|j: int| index < j < rows ==> !entries[j].spec_is_string_table()
            },
            None => forall|j: int| 0 <= j < rows ==> !entries[j].spec_is_string_table(),
        },
    decreases rows,
{
    if rows > 0 {
        assert(entries[rows - 1].decodes(section_row(bytes, header, rows - 1)));
        lemma_last_string_table_row(entries, bytes, header, rows - 1);
    }
}

/// Gives each entry the words for its type and its name from `names`.
pub fn annotate_sections(entries: Vec<Elf64SectionHeaderEntry>, names: &StringTable) -> (sections:
    Vec<Elf64SectionHeaderInfo>)
    ensures
        sections@.len() == entries@.len(),
        forall|i: int|
            0 <= i < sections@.len() ==> section_annotated(
                #[trigger] sections@[i],
                entries@[i],
                names@,
            ),
{
    let mut sections: Vec<Elf64SectionHeaderInfo> = Vec::new();
    let mut i: usize = 0;
    while i < entries.len()
        invariant
            i <= entries@.len(),
            sections@.len() == i,
            forall|j: int|
                0 <= j < i ==> section_annotated(#[trigger] sections@[j], entries@[j], names@),
        decreases entries@.len() - i,
    {
        let entry = entries[i];
        let type_string = section_header_type_string(&entry.section_type);
        let name = match names.lookup(entry.name_offset as usize) {
            Some(text) => String::from_str(text),
            None => String::from_str("<NAME_NOT_FOUND>"),
        };
        sections.push(Elf64SectionHeaderInfo { header_data: entry, name, type_string });
        i = i + 1;
    }
    sections
}

/// Decodes the section header table and finds where the section names are
/// stored: the entries, and the end of the names' byte range. The range
/// starts at the `offset` of the entry that `find_name_table` picks.
fn locate_section_names(buffer: &[u8], elf_header: &Elf64Header) -> (result: Result<
    (Vec<Elf64SectionHeaderEntry>, usize, usize),
    ParseError,
>)
    ensures
        match result {
            Ok((entries, start, end)) => section_entries_decode(entries@, buffer@, *elf_header)
                && section_names_range(buffer@, *elf_header) == Ok::<(int, int), ParseError>(
                (start as int, end as int),
            ),
            Err(e) => match section_names_range(buffer@, *elf_header) {
                Err(reason) => e == reason,
                Ok((start, end)) => e == ParseError::Truncated && end > usize::MAX,
            },
        },
{
    let entries = match read_section_header_entries_64(buffer, elf_header) {
        Ok(entries) => entries,
        Err(e) => {
            return Err(e);
        },
    };
    proof {
        lemma_last_string_table_row(entries@, buffer@, *elf_header, entries@.len() as int);
    }
    let index = match find_name_table(entries.as_slice()) {
        Some(index) => index,
        None => {
            return Err(ParseError::MissingStringTable);
        },
    };
    assert(entries@[index as int].decodes(section_row(buffer@, *elf_header, index as int)));
    let end = match entries[index].data_end() {
        Some(end) => end,
        None => {
            return Err(ParseError::Truncated);
        },
    };
    let start = entries[index].offset as usize;
    Ok((entries, start, end))
}

/// Tells how many bytes the buffer must hold before the section names can
/// be resolved: the end of the section-name string table.
///
/// A range whose end does not fit a `usize` is `Truncated`: no buffer can
/// grow that far.
pub fn section_name_table_end(buffer: &[u8], elf_header: &Elf64Header) -> (result: Result<
    usize,
    ParseError,
>)
    ensures
        match section_names_range(buffer@, *elf_header) {
            Err(e) => result == Err::<usize, ParseError>(e),
            Ok((start, end)) => if end <= usize::MAX {
                result == Ok::<usize, ParseError>(end as usize)
            } else {
                result == Err::<usize, ParseError>(ParseError::Truncated)
            },
        },
{
    match locate_section_names(buffer, elf_header) {
        Ok((_, _, end)) => Ok(end),
        Err(e) => Err(e),
    }
}

/// Decodes the section header table that `elf_header` announces in `buffer`
/// and gives every section its name.
///
/// The names come from the last section of string-table type in file order.
/// A name offset at which no string of that table starts gives
/// `<NAME_NOT_FOUND>`. The buffer must hold the section header table and
/// that string table whole, else the result is `Truncated`; a table without
/// a header of string-table type is `MissingStringTable`.
pub fn read_section_headers_64(buffer: &[u8], elf_header: &Elf64Header) -> (result: Result<
    Vec<Elf64SectionHeaderInfo>,
    ParseError,
>)
    ensures
        match result {
            Ok(sections) => section_names_bytes(buffer@, *elf_header) matches Ok(table)
                && section_headers_decode(
                sections@,
                buffer@,
                *elf_header,
                string_table_of(table),
            ),
            Err(e) => section_names_bytes(buffer@, *elf_header) == Err::<Seq<u8>, ParseError>(e),
        },
{
    proof {
        assert(buffer@.len() == buffer.len());
    }
    let (entries, table_start, table_end) = match locate_section_names(buffer, elf_header) {
        Ok(found) => found,
        Err(e) => {
            return Err(e);
        },
    };
    if table_end > buffer.len() {
        return Err(ParseError::Truncated);
    }
    let names = StringTable::build(slice_subrange(buffer, table_start, table_end));
    let ghost decoded = entries@;
    let sections = annotate_sections(entries, &names);
    proof {
        assert forall|i: int| 0 <= i < sections@.len() implies {
            &&& (#[trigger] sections@[i]).header_data.decodes(
                section_row(buffer@, *elf_header, i),
            )
            &&& section_annotated(sections@[i], sections@[i].header_data, names@)
        } by {
            assert(section_annotated(sections@[i], decoded[i], names@));
            assert(decoded[i].decodes(section_row(buffer@, *elf_header, i)));
        }
    }
    Ok(sections)
}

/// The fields of a section header entry start at offsets 0, 4, 8, 16, 24,
/// 32, 40, 44, 48 and 56, and together they fill 64 bytes.
pub proof fn lemma_section_header_layout()
    ensures
        Elf64SectionHeaderEntry::spec_layout().len() == 10,
        layout_width(Elf64SectionHeaderEntry::spec_layout()) == ELF64_SECTION_HEADER_LEN,
        field_offset(Elf64SectionHeaderEntry::spec_layout(), 0) == 0,
        field_offset(Elf64SectionHeaderEntry::spec_layout(), 1) == 4,
        field_offset(Elf64SectionHeaderEntry::spec_layout(), 2) == 8,
        field_offset(Elf64SectionHeaderEntry::spec_layout(), 3) == 16,
        field_offset(Elf64SectionHeaderEntry::spec_layout(), 4) == 24,
        field_offset(Elf64SectionHeaderEntry::spec_layout(), 5) == 32,
        field_offset(Elf64SectionHeaderEntry::spec_layout(), 6) == 40,
        field_offset(Elf64SectionHeaderEntry::spec_layout(), 7) == 44,
        field_offset(Elf64SectionHeaderEntry::spec_layout(), 8) == 48,
        field_offset(Elf64SectionHeaderEntry::spec_layout(), 9) == 56,
{
    let fields = Elf64SectionHeaderEntry::spec_layout();
    lemma_field_offsets(fields, 0);
    lemma_field_offsets(fields, 1);
    lemma_field_offsets(fields, 2);
    lemma_field_offsets(fields, 3);
    lemma_field_offsets(fields, 4);
    lemma_field_offsets(fields, 5);
    lemma_field_offsets(fields, 6);
    lemma_field_offsets(fields, 7);
    lemma_field_offsets(fields, 8);
    lemma_field_offsets(fields, 9);
}

/// The entry that `parse_from_bytes` gives is the record that the field
/// codec decodes by the entry's layout.
pub proof fn lemma_section_header_is_decoded_record(
    entry: Elf64SectionHeaderEntry,
    values: Seq<FieldValue>,
    bytes: Seq<u8>,
)
    requires
        entry.decodes(bytes),
        record_decodes(values, Elf64SectionHeaderEntry::spec_layout(), bytes),
    ensures
        entry.is_record(values),
{
    lemma_section_header_layout();
    let fields = Elf64SectionHeaderEntry::spec_layout();
    assert(field_decodes_at(values, fields, bytes, 0));
    assert(field_decodes_at(values, fields, bytes, 1));
    assert(field_decodes_at(values, fields, bytes, 2));
    assert(field_decodes_at(values, fields, bytes, 3));
    assert(field_decodes_at(values, fields, bytes, 4));
    assert(field_decodes_at(values, fields, bytes, 5));
    assert(field_decodes_at(values, fields, bytes, 6));
    assert(field_decodes_at(values, fields, bytes, 7));
    assert(field_decodes_at(values, fields, bytes, 8));
    assert(field_decodes_at(values, fields, bytes, 9));
}

/// The bytes decide the entry: two entries that decode from the same bytes
/// are the same.
pub proof fn lemma_section_header_unique(
    first: Elf64SectionHeaderEntry,
    second: Elf64SectionHeaderEntry,
    bytes: Seq<u8>,
)
    requires
        first.decodes(bytes),
        second.decodes(bytes),
    ensures
        first == second,
{
    assert(first.section_type =~= second.section_type);
}

/// The section names come from the last header of string-table type: no
/// header of that type follows the row whose range `section_names_range`
/// gives, and the row itself is of that type.
pub proof fn lemma_names_come_from_last_string_table(
    bytes: Seq<u8>,
    header: Elf64Header,
    rows: int,
)
    requires
        0 <= rows,
    ensures
        match last_string_table_row(bytes, header, rows) {
            Some(row) => {
                &&& 0 <= row < rows
                &&& row_is_string_table(section_row(bytes, header, row))
                &&& forall|later: int|
                    row < later < rows ==> !row_is_string_table(
                        #[trigger] section_row(bytes, header, later),
                    )
            },
            None => forall|any: int|
                0 <= any < rows ==> !row_is_string_table(
                    #[trigger] section_row(bytes, header, any),
                ),
        },
    decreases rows,
{
    if rows > 0 {
        lemma_names_come_from_last_string_table(bytes, header, rows - 1);
    }
}

} // verus!
