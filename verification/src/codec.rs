//! Fixed-layout decoding: little-endian integers and raw byte arrays read
//! from contiguous, non-overlapping ranges of a byte slice.

use crate::error::ParseError;
use vstd::prelude::*;
use vstd::slice::slice_subrange;
use vstd::slice::slice_to_vec;

verus! {

/// The number that `bytes` spells when read as a little-endian integer:
/// the first byte counts once, each later byte 256 times the one before.
pub open spec fn le_value(bytes: Seq<u8>) -> nat
    decreases bytes.len(),
{
    if bytes.len() == 0 {
        0
    } else {
        bytes[0] as nat + 256 * le_value(bytes.drop_first())
    }
}

/// 256 to the power `n`.
pub open spec fn radix_pow(n: nat) -> nat
    decreases n,
{
    if n == 0 {
        1
    } else {
        256 * radix_pow((n - 1) as nat)
    }
}

/// A little-endian number of `n` bytes is below 256 to the `n`.
pub proof fn lemma_le_value_bound(bytes: Seq<u8>)
    ensures
        le_value(bytes) < radix_pow(bytes.len()),
    decreases bytes.len(),
{
    if bytes.len() > 0 {
        lemma_le_value_bound(bytes.drop_first());
    }
}

/// The powers of 256 that fit the integer widths decoded here.
pub proof fn lemma_radix_pow_values()
    ensures
        radix_pow(0) == 1,
        radix_pow(1) == 0x100,
        radix_pow(2) == 0x1_0000,
        radix_pow(3) == 0x100_0000,
        radix_pow(4) == 0x1_0000_0000,
        radix_pow(5) == 0x100_0000_0000,
        radix_pow(6) == 0x1_0000_0000_0000,
        radix_pow(7) == 0x100_0000_0000_0000,
        radix_pow(8) == 0x1_0000_0000_0000_0000,
{
    reveal_with_fuel(radix_pow, 10);
}

/// Reads `width` bytes at `offset` as a little-endian unsigned integer.
pub fn read_le(buffer: &[u8], offset: usize, width: usize) -> (value: u64)
    requires
        width <= 8,
        offset + width <= buffer@.len(),
    ensures
        value == le_value(buffer@.subrange(offset as int, offset + width)),
{
    let mut value: u64 = 0;
    let mut i: usize = width;
    proof {
        assert(buffer@.len() == buffer.len());
    }
    while i > 0
        invariant
            width <= 8,
            i <= width,
            offset + width <= buffer@.len() <= usize::MAX,
            value == le_value(buffer@.subrange(offset + i, offset + width)),
            value < radix_pow((width - i) as nat),
        decreases i,
    {
        i = i - 1;
        let byte: u8 = buffer[offset + i];
        proof {
            let tail = buffer@.subrange(offset + i + 1, offset + width);
            let whole = buffer@.subrange(offset + i, offset + width);
            assert(whole.drop_first() =~= tail);
            assert(whole[0] == byte);
            lemma_radix_pow_values();
            assert(le_value(whole) == byte as nat + 256 * value);
        }
        value = value * 256 + byte as u64;
    }
    value
}

/// What a little-endian number of two, four or eight bytes is, digit by digit.
pub proof fn lemma_le_value_digits(bytes: Seq<u8>)
    ensures
        bytes.len() == 1 ==> le_value(bytes) == bytes[0],
        bytes.len() == 2 ==> le_value(bytes) == bytes[0] + 0x100 * bytes[1],
        bytes.len() == 4 ==> le_value(bytes) == bytes[0] + 0x100 * bytes[1] + 0x1_0000 * bytes[2]
            + 0x100_0000 * bytes[3],
        bytes.len() == 8 ==> le_value(bytes) == bytes[0] + 0x100 * bytes[1] + 0x1_0000 * bytes[2]
            + 0x100_0000 * bytes[3] + 0x1_0000_0000 * bytes[4] + 0x100_0000_0000 * bytes[5]
            + 0x1_0000_0000_0000 * bytes[6] + 0x100_0000_0000_0000 * bytes[7],
{
    reveal_with_fuel(le_value, 9);
    let d1 = bytes.drop_first();
    let d2 = d1.drop_first();
    let d3 = d2.drop_first();
    let d4 = d3.drop_first();
    let d5 = d4.drop_first();
    let d6 = d5.drop_first();
    let d7 = d6.drop_first();
    if bytes.len() >= 2 {
        assert(d1[0] == bytes[1]);
    }
    if bytes.len() >= 4 {
        assert(d2[0] == bytes[2]);
        assert(d3[0] == bytes[3]);
    }
    if bytes.len() >= 8 {
        assert(d4[0] == bytes[4]);
        assert(d5[0] == bytes[5]);
        assert(d6[0] == bytes[6]);
        assert(d7[0] == bytes[7]);
    }
}

/// Reads the byte at `offset`.
pub fn read_u8(buffer: &[u8], offset: usize) -> (value: u8)
    requires
        offset < buffer@.len(),
    ensures
        value == buffer@[offset as int],
{
    buffer[offset]
}

/// Reads two bytes at `offset` as a little-endian `u16`.
pub fn read_u16_le(buffer: &[u8], offset: usize) -> (value: u16)
    requires
        offset + 2 <= buffer@.len(),
    ensures
        value == le_value(buffer@.subrange(offset as int, offset + 2)),
{
    proof {
        lemma_le_value_bound(buffer@.subrange(offset as int, offset + 2));
        lemma_radix_pow_values();
    }
    read_le(buffer, offset, 2) as u16
}

/// Reads four bytes at `offset` as a little-endian `u32`.
pub fn read_u32_le(buffer: &[u8], offset: usize) -> (value: u32)
    requires
        offset + 4 <= buffer@.len(),
    ensures
        value == le_value(buffer@.subrange(offset as int, offset + 4)),
{
    proof {
        lemma_le_value_bound(buffer@.subrange(offset as int, offset + 4));
        lemma_radix_pow_values();
    }
    read_le(buffer, offset, 4) as u32
}

/// Reads eight bytes at `offset` as a little-endian `u64`.
pub fn read_u64_le(buffer: &[u8], offset: usize) -> (value: u64)
    requires
        offset + 8 <= buffer@.len(),
    ensures
        value == le_value(buffer@.subrange(offset as int, offset + 8)),
{
    read_le(buffer, offset, 8)
}

/// Copies the two bytes at `offset`, unchanged and in order.
pub fn read_bytes_2(buffer: &[u8], offset: usize) -> (bytes: [u8; 2])
    requires
        offset + 2 <= buffer@.len(),
    ensures
        bytes@ == buffer@.subrange(offset as int, offset + 2),
{
    let bytes: [u8; 2] = [buffer[offset], buffer[offset + 1]];
    assert(bytes@ =~= buffer@.subrange(offset as int, offset + 2));
    bytes
}

/// Copies the four bytes at `offset`, unchanged and in order.
pub fn read_bytes_4(buffer: &[u8], offset: usize) -> (bytes: [u8; 4])
    requires
        offset + 4 <= buffer@.len(),
    ensures
        bytes@ == buffer@.subrange(offset as int, offset + 4),
{
    let bytes: [u8; 4] = [
        buffer[offset],
        buffer[offset + 1],
        buffer[offset + 2],
        buffer[offset + 3],
    ];
    assert(bytes@ =~= buffer@.subrange(offset as int, offset + 4));
    bytes
}

/// Copies the seven bytes at `offset`, unchanged and in order.
pub fn read_bytes_7(buffer: &[u8], offset: usize) -> (bytes: [u8; 7])
    requires
        offset + 7 <= buffer@.len(),
    ensures
        bytes@ == buffer@.subrange(offset as int, offset + 7),
{
    let bytes: [u8; 7] = [
        buffer[offset],
        buffer[offset + 1],
        buffer[offset + 2],
        buffer[offset + 3],
        buffer[offset + 4],
        buffer[offset + 5],
        buffer[offset + 6],
    ];
    assert(bytes@ =~= buffer@.subrange(offset as int, offset + 7));
    bytes
}

/// One field of a record layout.
#[derive(Debug, Clone, Copy, PartialEq, Eq)]
pub enum FieldKind {
    /// One byte.
    U8,
    /// A little-endian integer of two bytes.
    U16,
    /// A little-endian integer of four bytes.
    U32,
    /// A little-endian integer of eight bytes.
    U64,
    /// A raw byte array of the given length.
    Bytes(usize),
}

impl FieldKind {
    /// The number of bytes the field occupies.
    pub open spec fn spec_width(self) -> nat {
        match self {
            FieldKind::U8 => 1,
            FieldKind::U16 => 2,
            FieldKind::U32 => 4,
            FieldKind::U64 => 8,
            FieldKind::Bytes(n) => n as nat,
        }
    }

    /// The number of bytes the field occupies.
    pub fn width(&self) -> (w: usize)
        ensures
            w == self.spec_width(),
    {
        match self {
            FieldKind::U8 => 1,
            FieldKind::U16 => 2,
            FieldKind::U32 => 4,
            FieldKind::U64 => 8,
            FieldKind::Bytes(n) => *n,
        }
    }
}

/// A decoded field.
#[derive(Debug, Clone, PartialEq, Eq)]
pub enum FieldValue {
    U8(u8),
    U16(u16),
    U32(u32),
    U64(u64),
    Bytes(Vec<u8>),
}

/// The sum of the widths of `fields`: the length of the record they lay out.
pub open spec fn layout_width(fields: Seq<FieldKind>) -> nat
    decreases fields.len(),
{
    if fields.len() == 0 {
        0
    } else {
        layout_width(fields.drop_last()) + fields.last().spec_width()
    }
}

/// Where field `index` starts: after all the fields before it.
pub open spec fn field_offset(fields: Seq<FieldKind>, index: int) -> nat {
    layout_width(fields.take(index))
}

/// Whether `value` is what a field of kind `kind` holds when it starts at
/// `at` in `bytes`: integers little-endian, arrays copied as they are.
pub open spec fn field_decodes(value: FieldValue, kind: FieldKind, bytes: Seq<u8>, at: int) -> bool {
    match kind {
        FieldKind::U8 => value == FieldValue::U8(bytes[at]),
        FieldKind::U16 => value matches FieldValue::U16(v) && v == le_value(
            bytes.subrange(at, at + 2),
        ),
        FieldKind::U32 => value matches FieldValue::U32(v) && v == le_value(
            bytes.subrange(at, at + 4),
        ),
        FieldKind::U64 => value matches FieldValue::U64(v) && v == le_value(
            bytes.subrange(at, at + 8),
        ),
        FieldKind::Bytes(n) => value matches FieldValue::Bytes(v) && v@ == bytes.subrange(
            at,
            at + n,
        ),
    }
}

/// Whether value `index` of `values` is what field `index` of `fields` holds
/// in `bytes`.
pub open spec fn field_decodes_at(
    values: Seq<FieldValue>,
    fields: Seq<FieldKind>,
    bytes: Seq<u8>,
    index: int,
) -> bool {
    field_decodes(values[index], fields[index], bytes, field_offset(fields, index) as int)
}

/// Whether `values` is the record that `fields` lays out over the start of
/// `bytes`: one value per field, each read at its field's offset.
pub open spec fn record_decodes(values: Seq<FieldValue>, fields: Seq<FieldKind>, bytes: Seq<u8>) -> bool {
    &&& values.len() == fields.len()
    &&& forall|i: int| 0 <= i < fields.len() ==> #[trigger] field_decodes_at(values, fields, bytes, i)
}

/// A field ends where the next one starts, and no field ends past the record.
pub proof fn lemma_field_offsets(fields: Seq<FieldKind>, index: int)
    requires
        0 <= index < fields.len(),
    ensures
        field_offset(fields, index + 1) == field_offset(fields, index) + fields[index].spec_width(),
        field_offset(fields, index + 1) <= layout_width(fields),
        field_offset(fields, 0) == 0,
        field_offset(fields, fields.len() as int) == layout_width(fields),
    decreases fields.len() - index,
{
    assert(fields.take(index + 1).drop_last() =~= fields.take(index));
    assert(fields.take(fields.len() as int) =~= fields);
    assert(fields.take(0).len() == 0);
    if index + 1 < fields.len() {
        lemma_field_offsets(fields, index + 1);
    }
}

/// Whether `ranges` gives, for each field of `fields`, the byte range it
/// occupies: from its offset to the offset of the field after it.
pub open spec fn ranges_of_layout(ranges: Seq<(usize, usize)>, fields: Seq<FieldKind>) -> bool {
    &&& ranges.len() == fields.len()
    &&& forall|i: int|
        0 <= i < fields.len() ==> (#[trigger] ranges[i]).0 == field_offset(fields, i)
            && ranges[i].1 == field_offset(fields, i + 1)
}

/// Lays the fields out one behind the other from offset 0 and gives the
/// byte range of each, start and end. There is no layout where the record
/// would be longer than a `usize` can say.
pub fn field_ranges(fields: &[FieldKind]) -> (result: Option<Vec<(usize, usize)>>)
    ensures
        result is Some <==> layout_width(fields@) <= usize::MAX,
        result matches Some(ranges) ==> ranges_of_layout(ranges@, fields@),
{
    let mut ranges: Vec<(usize, usize)> = Vec::new();
    let mut cursor: usize = 0;
    let mut i: usize = 0;
    proof {
        assert(fields@.take(0).len() == 0);
    }
    while i < fields.len()
        invariant
            i <= fields@.len(),
            cursor == field_offset(fields@, i as int),
            ranges@.len() == i,
            forall|j: int|
                0 <= j < i ==> (#[trigger] ranges@[j]).0 == field_offset(fields@, j)
                    && ranges@[j].1 == field_offset(fields@, j + 1),
        decreases fields@.len() - i,
    {
        let width = fields[i].width();
        proof {
            lemma_field_offsets(fields@, i as int);
        }
        if width > usize::MAX - cursor {
            return None;
        }
        ranges.push((cursor, cursor + width));
        cursor = cursor + width;
        i = i + 1;
    }
    proof {
        assert(fields@.take(fields@.len() as int) =~= fields@);
    }
    Some(ranges)
}

/// Decodes the record that `fields` lays out from the start of `buffer`.
///
/// The fields are read in order from offset 0, each where the one before it
/// ended. The buffer may be longer than the record; a shorter one is
/// `Truncated`.
pub fn decode(buffer: &[u8], fields: &[FieldKind]) -> (result: Result<Vec<FieldValue>, ParseError>)
    ensures
        result is Err <==> buffer@.len() < layout_width(fields@),
        result matches Err(e) ==> e == ParseError::Truncated,
        result matches Ok(values) ==> record_decodes(values@, fields@, buffer@),
{
    let mut values: Vec<FieldValue> = Vec::new();
    let mut cursor: usize = 0;
    let mut i: usize = 0;
    proof {
        assert(fields@.take(0).len() == 0);
        assert(buffer@.len() == buffer.len());
    }
    while i < fields.len()
        invariant
            i <= fields@.len(),
            cursor == field_offset(fields@, i as int),
            cursor <= buffer@.len() <= usize::MAX,
            values@.len() == i,
            forall|j: int| 0 <= j < i ==> #[trigger] field_decodes_at(values@, fields@, buffer@, j),
        decreases fields@.len() - i,
    {
        let kind = fields[i];
        let width = kind.width();
        proof {
            lemma_field_offsets(fields@, i as int);
        }
        if width > buffer.len() - cursor {
            return Err(ParseError::Truncated);
        }
        let value = match kind {
            FieldKind::U8 => FieldValue::U8(read_u8(buffer, cursor)),
            FieldKind::U16 => FieldValue::U16(read_u16_le(buffer, cursor)),
            FieldKind::U32 => FieldValue::U32(read_u32_le(buffer, cursor)),
            FieldKind::U64 => FieldValue::U64(read_u64_le(buffer, cursor)),
            FieldKind::Bytes(_) => FieldValue::Bytes(
                slice_to_vec(slice_subrange(buffer, cursor, cursor + width)),
            ),
        };
        let ghost decoded = values@;
        values.push(value);
        proof {
            assert forall|j: int| 0 <= j < i + 1 implies #[trigger] field_decodes_at(
                values@,
                fields@,
                buffer@,
                j,
            ) by {
                if j < i {
                    assert(field_decodes_at(decoded, fields@, buffer@, j));
                }
            }
        }
        cursor = cursor + width;
        i = i + 1;
    }
    proof {
        assert(fields@.take(fields@.len() as int) =~= fields@);
    }
    Ok(values)
}

} // verus!
