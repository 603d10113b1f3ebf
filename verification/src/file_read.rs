//! The buffer of a chunked byte source.
//!
//! A file is read in small chunks, and only as far as parsing asks. The
//! reader here owns the bytes read so far and decides, each time, whether
//! another chunk has to be read; reading it from the stream is the caller's
//! part.

use crate::error::ParseError;
use vstd::prelude::*;

verus! {

/// The size of the chunks in which the underlying stream is read.
pub const BUFFER_SIZE: usize = 64;

/// What the caller of `FileReader::ensure_length` has to do next.
#[derive(Debug, Clone, Copy, PartialEq, Eq)]
pub enum ReadStep {
    /// The buffer holds the bytes asked for.
    Ready,
    /// Read the next chunk from the stream and hand it over.
    ReadMore,
}

/// The bytes read from a file so far, in file order.
pub struct FileReader {
    current_buffer: Vec<u8>,
}

impl View for FileReader {
    type V = Seq<u8>;

    closed spec fn view(&self) -> Seq<u8> {
        self.current_buffer@
    }
}

/// The buffer after a round of `ensure_length`: what was `delivered` stands
/// behind what was there.
pub open spec fn buffer_after(buffer: Seq<u8>, delivered: Option<Seq<u8>>) -> Seq<u8> {
    match delivered {
        Some(chunk) => buffer + chunk,
        None => buffer,
    }
}

/// What a round of `ensure_length` answers for a buffer that is to reach
/// `length` bytes. A chunk without bytes means that the stream has ended:
/// the file is `Truncated`. Otherwise the answer is `Ready` once the buffer
/// is long enough, and `ReadMore` until then.
pub open spec fn read_step(buffer: Seq<u8>, length: int, delivered: Option<Seq<u8>>) -> Result<
    ReadStep,
    ParseError,
> {
    if delivered matches Some(chunk) && chunk.len() == 0 {
        Err(ParseError::Truncated)
    } else if buffer_after(buffer, delivered).len() >= length {
        Ok(ReadStep::Ready)
    } else {
        Ok(ReadStep::ReadMore)
    }
}

impl FileReader {
    /// A reader that has read nothing yet.
    pub fn new() -> (reader: FileReader)
        ensures
            reader@ == Seq::<u8>::empty(),
    {
        FileReader { current_buffer: Vec::new() }
    }

    /// One round of making the buffer hold at least `length` bytes.
    ///
    /// The first round of a request hands over nothing; each later round
    /// hands over the chunk that the round before asked for. The chunk is
    /// put behind the bytes already held, which never change.
    pub fn ensure_length(&mut self, length: usize, delivered: Option<&[u8]>) -> (result: Result<
        ReadStep,
        ParseError,
    >)
        ensures
            final(self)@ == buffer_after(
                old(self)@,
                match delivered {
                    Some(chunk) => Some(chunk@),
                    None => None,
                },
            ),
            result == read_step(
                old(self)@,
                length as int,
                match delivered {
                    Some(chunk) => Some(chunk@),
                    None => None,
                },
            ),
    {
        if let Some(chunk) = delivered {
            let ghost before = self.current_buffer@;
            self.current_buffer.extend_from_slice(chunk);
            assert(self.current_buffer@ =~= before + chunk@);
            if chunk.len() == 0 {
                return Err(ParseError::Truncated);
            }
        }
        if self.current_buffer.len() >= length {
            Ok(ReadStep::Ready)
        } else {
            Ok(ReadStep::ReadMore)
        }
    }

    /// The bytes read so far.
    pub fn buffer(&self) -> (bytes: &[u8])
        ensures
            bytes@ == self@,
    {
        self.current_buffer.as_slice()
    }
}

/// Once a request has ended with `Ready`, asking again for as many bytes or
/// fewer is answered with `Ready` at once: nothing is read and the buffer
/// stays as it is.
pub proof fn lemma_ensure_length_again(
    buffer: Seq<u8>,
    length: int,
    delivered: Option<Seq<u8>>,
    again: int,
)
    requires
        read_step(buffer, length, delivered) == Ok::<ReadStep, ParseError>(ReadStep::Ready),
        again <= length,
    ensures
        read_step(buffer_after(buffer, delivered), again, None) == Ok::<ReadStep, ParseError>(
            ReadStep::Ready,
        ),
        buffer_after(buffer_after(buffer, delivered), None) == buffer_after(buffer, delivered),
{
}

/// The buffer only grows: after any round it is at least as long as
/// before and starts with the bytes it held, and after a round that ended
/// with `Ready` it holds the bytes asked for.
pub proof fn lemma_buffer_only_grows(buffer: Seq<u8>, length: int, delivered: Option<Seq<u8>>)
    ensures
        buffer_after(buffer, delivered).len() >= buffer.len(),
        buffer_after(buffer, delivered).subrange(0, buffer.len() as int) == buffer,
        read_step(buffer, length, delivered) == Ok::<ReadStep, ParseError>(ReadStep::Ready)
            ==> buffer_after(buffer, delivered).len() >= length,
{
    assert(buffer_after(buffer, delivered).subrange(0, buffer.len() as int) =~= buffer);
}

} // verus!
