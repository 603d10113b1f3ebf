//! The ways in which decoding a file can fail.

use vstd::prelude::*;
use vstd::string::StringExecFns;

verus! {

/// Why a parse stopped. Every kind is final for the file at hand.
#[derive(Debug, Clone, Copy, PartialEq, Eq)]
pub enum ParseError {
    /// Fewer bytes are available than a decoding step needs.
    Truncated,
    /// The first four bytes are not the ELF signature.
    BadMagic,
    /// The class byte does not announce a 64-bit file.
    UnsupportedClass,
    /// The data-encoding byte does not announce little-endian data.
    UnsupportedEncoding,
    /// No section header of string-table type exists to resolve names from.
    MissingStringTable,
}

impl ParseError {
    /// The error in words.
    pub open spec fn spec_message(self) -> Seq<char> {
        match self {
            ParseError::Truncated => "Requested file contains less than requested number of bytes."@,
            ParseError::BadMagic => "Parse failed: Bad file format."@,
            ParseError::UnsupportedClass => "This reader currently only supports 64-bit ELF files."@,
            ParseError::UnsupportedEncoding => "This reader currently only supports little endian ELF files."@,
            ParseError::MissingStringTable => "No string table section to take section names from."@,
        }
    }

    /// The error in words, for a caller to show.
    pub fn message(&self) -> (text: String)
        ensures
            text@ == self.spec_message(),
    {
        match self {
            ParseError::Truncated => String::from_str(
                "Requested file contains less than requested number of bytes.",
            ),
            ParseError::BadMagic => String::from_str("Parse failed: Bad file format."),
            ParseError::UnsupportedClass => String::from_str(
                "This reader currently only supports 64-bit ELF files.",
            ),
            ParseError::UnsupportedEncoding => String::from_str(
                "This reader currently only supports little endian ELF files.",
            ),
            ParseError::MissingStringTable => String::from_str(
                "No string table section to take section names from.",
            ),
        }
    }
}

} // verus!
