//! The ASCII decoder.

use crate::error::{EditorError, ErrorView};
use crate::reader::byte_stream::{ByteStream, Fetch, BUFFER_SIZE};
use crate::reader::decoder::{
    char_answer, is_next_esc_in, line_answer, next_is_esc, read_line_from, read_line_in, Decoded,
    Encoding,
};
use crate::text::{hex_text, push_hex};
use vstd::prelude::*;

verus! {

/// The error for a byte above 127.
pub open spec fn invalid_ascii_error(byte: u8) -> ErrorView {
    ErrorView::InvalidEncoding {
        position: 0,
        details: "Byte 0x"@ + hex_text(byte as nat, 2) + " is not valid ASCII (must be <= 127)"@,
        invalid_bytes: seq![byte],
    }
}

/// Decoding one character from the front of `bytes`, the buffered bytes of
/// an input that has or has not `ended`: a byte up to 127 is the character
/// itself, any other an encoding error; either way the byte is consumed.
pub open spec fn ascii_decode(bytes: Seq<u8>, ended: bool) -> Decoded {
    if bytes.len() == 0 {
        Decoded {
            result: if ended {
                Fetch::Ready(Ok(None))
            } else {
                Fetch::NeedInput(BUFFER_SIZE)
            },
            consumed: 0,
        }
    } else if bytes[0] > 127 {
        Decoded { result: Fetch::Ready(Err(invalid_ascii_error(bytes[0]))), consumed: 1 }
    } else {
        Decoded { result: Fetch::Ready(Ok(Some(bytes[0] as char))), consumed: 1 }
    }
}

/// Decodes characters from a stream of ASCII bytes.
pub struct AsciiDecoder {
    byte_stream: ByteStream,
}

impl AsciiDecoder {
    /// The stream the decoder reads from.
    pub closed spec fn stream(&self) -> ByteStream {
        self.byte_stream
    }

    /// A decoder over `byte_stream`.
    pub fn new(byte_stream: ByteStream) -> (d: Self)
        ensures
            d.stream() == byte_stream,
    {
        AsciiDecoder { byte_stream }
    }

    /// Decodes the character at byte `start` of what `stream` has buffered,
    /// consuming nothing: the answer, and the number of bytes that it stands
    /// for.
    pub(crate) fn decode_at(stream: &ByteStream, start: usize) -> (r: (
        Fetch<Result<Option<char>, EditorError>>,
        usize,
    ))
        requires
            start <= stream.bytes().len(),
        ensures
            char_answer(r.0) == ascii_decode(stream.bytes().skip(start as int), stream.ended()).result,
            r.1 == ascii_decode(stream.bytes().skip(start as int), stream.ended()).consumed,
            start + r.1 <= stream.bytes().len(),
    {
        let byte = match stream.peek_byte(start) {
            Some(byte) => byte,
            None => {
                if stream.is_ended() {
                    return (Fetch::Ready(Ok(None)), 0);
                } else {
                    return (Fetch::NeedInput(BUFFER_SIZE), 0);
                }
            },
        };
        assert(stream.bytes().skip(start as int)[0] == byte);
        if byte > 127 {
            let mut details = String::from_str("Byte 0x");
            push_hex(&mut details, byte as u32, 2);
            details.append(" is not valid ASCII (must be <= 127)");
            let mut invalid_bytes: Vec<u8> = Vec::new();
            invalid_bytes.push(byte);
            (Fetch::Ready(Err(EditorError::invalid_encoding(0, details, invalid_bytes))), 1)
        } else {
            (Fetch::Ready(Ok(Some(byte as char))), 1)
        }
    }

    /// Decodes the next character and consumes its byte.
    pub fn decode_char(&mut self) -> (r: Fetch<Result<Option<char>, EditorError>>)
        ensures
            char_answer(r) == ascii_decode(
                old(self).stream().bytes(),
                old(self).stream().ended(),
            ).result,
            final(self).stream().bytes() == old(self).stream().bytes().skip(
                ascii_decode(old(self).stream().bytes(), old(self).stream().ended()).consumed as int,
            ),
            final(self).stream().ended() == old(self).stream().ended(),
    {
        assert(self.byte_stream.bytes().skip(0) =~= self.byte_stream.bytes());
        let (answer, consumed) = Self::decode_at(&self.byte_stream, 0);
        self.byte_stream.discard(consumed);
        answer
    }

    /// Whether the next byte is an escape, without consuming it.
    pub fn is_next_esc(&self) -> (r: Fetch<bool>)
        ensures
            r == next_is_esc(self.stream().bytes(), self.stream().ended()),
    {
        is_next_esc_in(&self.byte_stream)
    }

    /// Reads one line and consumes it with its end.
    pub fn read_line(&mut self) -> (r: Fetch<Result<Option<String>, EditorError>>)
        ensures
            line_answer(r) == read_line_from(
                Encoding::Ascii,
                old(self).stream().bytes(),
                old(self).stream().ended(),
                Seq::empty(),
            ).result,
            final(self).stream().bytes() == old(self).stream().bytes().skip(
                read_line_from(
                    Encoding::Ascii,
                    old(self).stream().bytes(),
                    old(self).stream().ended(),
                    Seq::empty(),
                ).consumed as int,
            ),
            final(self).stream().ended() == old(self).stream().ended(),
    {
        read_line_in(&mut self.byte_stream, Encoding::Ascii)
    }

    /// How many bytes are buffered and not yet decoded.
    pub fn buffered_count(&self) -> (n: usize)
        ensures
            n == self.stream().bytes().len(),
    {
        self.byte_stream.buffered_count()
    }

    /// Takes in what the input yielded; an empty chunk marks its end.
    pub fn fill_buffer(&mut self, chunk: &[u8])
        ensures
            final(self).stream().bytes() == old(self).stream().bytes() + chunk@,
            final(self).stream().ended() == (chunk@.len() == 0),
    {
        self.byte_stream.fill_buffer(chunk);
    }

    /// Gives the stream back, with every byte that was not decoded.
    pub fn take_stream(self) -> (s: ByteStream)
        ensures
            s == self.stream(),
    {
        self.byte_stream
    }
}

} // verus!
