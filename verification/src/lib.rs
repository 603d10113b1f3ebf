//! A decoder for 64-bit little-endian ELF object files.
//!
//! The decoder turns the bytes of a file into its file header, its program
//! header table and its section header table, and gives every section the
//! name that the section-name string table holds for it. It only reads:
//! nothing here writes or changes a file.
//!
//! - `file_read`: the buffer of a file that is read chunk by chunk.
//! - `codec`: little-endian integers and byte arrays at fixed offsets.
//! - `header`: the file header and its validation.
//! - `program`: the program header table and the names of segment types.
//! - `section`: the section header table, the names of section types and
//!   the names of the sections.
//! - `strtab`: null-terminated strings and string tables.
//! - `tag`: four-byte type tags.
//! - `error`: why a parse stopped.

pub mod codec;
pub mod error;
pub mod file_read;
pub mod header;
pub mod program;
pub mod section;
pub mod strtab;
pub mod tag;
