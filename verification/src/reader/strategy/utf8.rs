//! The UTF-8 strategy.

use crate::error::EditorError;
use crate::reader::byte_stream::{ByteStream, Fetch};
use crate::reader::decoder::utf8::{required_bytes, utf8_decode, Utf8Decoder};
use crate::reader::decoder::Decoded;
use crate::reader::strategy::DecodingStrategy;
use vstd::prelude::*;
use vstd::utf8::is_continuation_byte;

verus! {

/// Decoding of UTF-8.
pub struct Utf8Strategy;

impl Utf8Strategy {
    /// The strategy.
    pub fn new() -> Self {
        Utf8Strategy
    }

    /// How many bytes a unit has whose leading byte is `first_byte`; zero
    /// for a byte that cannot lead a unit.
    pub fn required_bytes(&self, first_byte: u8) -> (n: u8)
        ensures
            n == required_bytes(first_byte),
    {
        Utf8Decoder::calculate_byte_count(first_byte)
    }

    /// Whether `byte` has the form `10xxxxxx` of a continuation byte.
    pub fn is_continuation_byte(&self, byte: u8) -> (b: bool)
        ensures
            b == is_continuation_byte(byte),
    {
        Utf8Decoder::is_continuation_byte(byte)
    }
}

impl DecodingStrategy for Utf8Strategy {
    open spec fn decode(&self, bytes: Seq<u8>, ended: bool) -> Decoded {
        utf8_decode(bytes, ended)
    }

    open spec fn encoding_name(&self) -> Seq<char> {
        "UTF-8"@
    }

    fn read_char(&self, reader: &mut ByteStream) -> (r: Fetch<Result<Option<char>, EditorError>>) {
        assert(reader.bytes().skip(0) =~= reader.bytes());
        let (answer, consumed) = Utf8Decoder::decode_at(reader, 0);
        reader.discard(consumed);
        answer
    }

    fn get_encoding_name(&self) -> (name: &'static str) {
        "UTF-8"
    }
}

} // verus!
