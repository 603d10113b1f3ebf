//! Four-byte type tags and how they are shown when no name is known.

use crate::codec::le_value;
use crate::codec::lemma_le_value_digits;
use vstd::prelude::*;
use vstd::string::StrSliceExecFns;
use vstd::string::StringExecFns;

verus! {

/// The text of one hexadecimal digit.
pub open spec fn hex_digit_text(digit: int) -> Seq<char> {
    "0123456789abcdef"@.subrange(digit, digit + 1)
}

/// A byte as two lower-case hexadecimal digits.
pub open spec fn hex_byte_text(byte: u8) -> Seq<char> {
    hex_digit_text(byte as int / 16) + hex_digit_text(byte as int % 16)
}

/// A tag as a diagnostic shows it: the four bytes in hexadecimal, most
/// significant first, as a bracketed list.
pub open spec fn tag_hex_text(tag: Seq<u8>) -> Seq<char> {
    "["@ + hex_byte_text(tag[3]) + ", "@ + hex_byte_text(tag[2]) + ", "@ + hex_byte_text(tag[1])
        + ", "@ + hex_byte_text(tag[0]) + "]"@
}

/// The number a tag stands for, its four bytes read little-endian.
pub open spec fn tag_value(tag: Seq<u8>) -> nat {
    le_value(tag)
}

/// The text of one hexadecimal digit.
fn hex_digit(digit: u8) -> (text: &'static str)
    requires
        digit < 16,
    ensures
        text@ == hex_digit_text(digit as int),
{
    let digits = "0123456789abcdef";
    proof {
        reveal_strlit("0123456789abcdef");
    }
    digits.substring_ascii(digit as usize, digit as usize + 1)
}

/// Appends `byte` to `text` as two hexadecimal digits.
fn push_hex_byte(text: &mut String, byte: u8)
    ensures
        final(text)@ == old(text)@ + hex_byte_text(byte),
{
    text.append(hex_digit(byte / 16));
    text.append(hex_digit(byte % 16));
    assert(text@ =~= old(text)@ + hex_byte_text(byte));
}

/// Renders `tag` as a bracketed list of hexadecimal bytes, most significant
/// first.
pub fn render_tag(tag: &[u8; 4]) -> (text: String)
    ensures
        text@ == tag_hex_text(tag@),
{
    let mut text = String::from_str("[");
    push_hex_byte(&mut text, tag[3]);
    text.append(", ");
    push_hex_byte(&mut text, tag[2]);
    text.append(", ");
    push_hex_byte(&mut text, tag[1]);
    text.append(", ");
    push_hex_byte(&mut text, tag[0]);
    text.append("]");
    assert(text@ =~= tag_hex_text(tag@));
    text
}

/// Reads `tag` as a number.
pub fn tag_number(tag: &[u8; 4]) -> (value: u32)
    ensures
        value == tag_value(tag@),
{
    proof {
        lemma_le_value_digits(tag@);
    }
    tag[0] as u32 + 0x100 * (tag[1] as u32) + 0x1_0000 * (tag[2] as u32) + 0x100_0000 * (
    tag[3] as u32)
}

} // verus!
