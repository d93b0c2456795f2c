//! Decoding as a strategy: one way to turn the bytes of a stream into
//! characters, which a reader can be given.

pub mod utf8;

use crate::error::EditorError;
use crate::reader::byte_stream::{ByteStream, Fetch, BUFFER_SIZE};
use crate::reader::decoder::{char_answer, Decoded};
use vstd::prelude::*;

pub use utf8::Utf8Strategy;

verus! {

/// A way to decode characters from a byte stream.
pub trait DecodingStrategy {
    /// What decoding one character from the front of `bytes` comes to, for
    /// the buffered bytes of an input that has or has not `ended`.
    spec fn decode(&self, bytes: Seq<u8>, ended: bool) -> Decoded;

    /// The name of the encoding.
    spec fn encoding_name(&self) -> Seq<char>;

    /// Decodes the next character of `reader` and consumes its bytes.
    fn read_char(&self, reader: &mut ByteStream) -> (r: Fetch<Result<Option<char>, EditorError>>)
        ensures
            char_answer(r) == self.decode(old(reader).bytes(), old(reader).ended()).result,
            final(reader).bytes() == old(reader).bytes().skip(
                self.decode(old(reader).bytes(), old(reader).ended()).consumed as int,
            ),
            final(reader).ended() == old(reader).ended(),
    ;

    /// The name of the encoding.
    fn get_encoding_name(&self) -> (name: &'static str)
        ensures
            name@ == self.encoding_name(),
    ;

    /// Consumes the next byte of `reader`: `None` once the input has ended,
    /// and a request for a chunk where nothing is buffered before that.
    fn read_byte(&self, reader: &mut ByteStream) -> (r: Fetch<Option<u8>>)
        ensures
            final(reader).ended() == old(reader).ended(),
            old(reader).bytes().len() > 0 ==> r == Fetch::Ready(Some(old(reader).bytes()[0]))
                && final(reader).bytes() == old(reader).bytes().drop_first(),
            old(reader).bytes().len() == 0 ==> final(reader).bytes() == old(reader).bytes() && r
                == (if old(reader).ended() {
                Fetch::Ready(None::<u8>)
            } else {
                Fetch::NeedInput(BUFFER_SIZE)
            }),
    {
        reader.read_next_byte()
    }
}

} // verus!
