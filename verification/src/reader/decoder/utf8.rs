//! The UTF-8 decoder.

use crate::error::{EditorError, ErrorView};
use crate::reader::byte_stream::{ByteStream, Fetch, BUFFER_SIZE};
use crate::reader::decoder::{
    char_answer, is_next_esc_in, line_answer, next_is_esc, read_line_from, read_line_in, Decoded,
    Encoding,
};
use crate::text::{decimal_text, hex_text, is_scalar_value, push_decimal, push_hex};
use vstd::prelude::*;
use vstd::utf8::{
    decode_first_codepoint, is_continuation_byte, is_leading_byte_width_1,
    is_leading_byte_width_2, is_leading_byte_width_3, is_leading_byte_width_4,
};

verus! {

/// How many bytes a unit has whose leading byte is `first_byte`: from the
/// high bits `0xxxxxxx` one, `110xxxxx` two, `1110xxxx` three, `11110xxx`
/// four; zero for a byte that cannot lead.
pub open spec fn required_bytes(first_byte: u8) -> nat {
    if is_leading_byte_width_1(first_byte) {
        1
    } else if is_leading_byte_width_2(first_byte) {
        2
    } else if is_leading_byte_width_3(first_byte) {
        3
    } else if is_leading_byte_width_4(first_byte) {
        4
    } else {
        0
    }
}

/// How many bytes at the front of `bytes` are in order for a unit of
/// `need` bytes: the leading byte, and each continuation byte up to the
/// first that is missing or does not have the form `10xxxxxx`.
pub open spec fn bytes_in_order(bytes: Seq<u8>, need: nat) -> nat {
    if need <= 1 || !(bytes.len() > 1 && is_continuation_byte(bytes[1])) {
        1
    } else if need <= 2 || !(bytes.len() > 2 && is_continuation_byte(bytes[2])) {
        2
    } else if need <= 3 || !(bytes.len() > 3 && is_continuation_byte(bytes[3])) {
        3
    } else {
        4
    }
}

/// The error for a byte that cannot lead a unit.
pub open spec fn invalid_lead_error(byte: u8) -> ErrorView {
    ErrorView::InvalidEncoding {
        position: 0,
        details: "Invalid UTF-8 leading byte 0x"@ + hex_text(byte as nat, 2),
        invalid_bytes: seq![byte],
    }
}

/// The error for the byte at `position` of a unit, which should continue the
/// unit and does not.
pub open spec fn invalid_continuation_error(bytes: Seq<u8>, position: nat) -> ErrorView {
    ErrorView::InvalidEncoding {
        position,
        details: "Expected UTF-8 continuation byte (10xxxxxx), got 0x"@ + hex_text(
            bytes[position as int] as nat,
            2,
        ),
        invalid_bytes: bytes.take(position as int + 1),
    }
}

/// The error for a unit of `len` bytes whose code point is no scalar value.
pub open spec fn invalid_scalar_error(bytes: Seq<u8>, len: nat) -> ErrorView {
    ErrorView::InvalidEncoding {
        position: 0,
        details: "Invalid Unicode code point U+"@ + hex_text(
            decode_first_codepoint(bytes) as nat,
            8,
        ),
        invalid_bytes: bytes.take(len as int),
    }
}

/// The error for an input that ends after `have` bytes of a unit of `need`.
pub open spec fn short_unit_error(have: nat, need: nat) -> ErrorView {
    ErrorView::UnexpectedEof {
        expected: "UTF-8 continuation byte "@ + decimal_text(have) + " of "@ + decimal_text(need),
        actual: have,
    }
}

/// Decoding one character from the front of `bytes`, the buffered bytes of
/// an input that has or has not `ended`.
///
/// The leading byte fixes the length of the unit. The first byte of the unit
/// that does not continue it is an encoding error, which consumes the unit up
/// to and with that byte. A unit that the buffer cuts short waits for input,
/// or is an end-of-input error that consumes it once the input has ended. A
/// complete unit is consumed and gives its code point as a character, or an
/// encoding error where the code point is no scalar value.
pub open spec fn utf8_decode(bytes: Seq<u8>, ended: bool) -> Decoded {
    if bytes.len() == 0 {
        Decoded {
            result: if ended {
                Fetch::Ready(Ok(None))
            } else {
                Fetch::NeedInput(BUFFER_SIZE)
            },
            consumed: 0,
        }
    } else {
        let need = required_bytes(bytes[0]);
        let have = bytes_in_order(bytes, need);
        if need == 0 {
            Decoded { result: Fetch::Ready(Err(invalid_lead_error(bytes[0]))), consumed: 1 }
        } else if have == need {
            Decoded {
                result: Fetch::Ready(
                    if is_scalar_value(decode_first_codepoint(bytes)) {
                        Ok(Some(decode_first_codepoint(bytes) as char))
                    } else {
                        Err(invalid_scalar_error(bytes, need))
                    },
                ),
                consumed: need,
            }
        } else if have < bytes.len() {
            Decoded {
                result: Fetch::Ready(Err(invalid_continuation_error(bytes, have))),
                consumed: have + 1,
            }
        } else if ended {
            Decoded { result: Fetch::Ready(Err(short_unit_error(have, need))), consumed: have }
        } else {
            Decoded { result: Fetch::NeedInput(BUFFER_SIZE), consumed: 0 }
        }
    }
}

/// The code point gathered from the first `count` bytes of a unit of `need`
/// bytes: the data bits of the leading byte, then six more for each
/// continuation byte.
spec fn gathered_bits(bytes: Seq<u8>, need: nat, count: nat) -> u32
    decreases count,
{
    if count <= 1 {
        (bytes[0] & (0xFFu8 >> ((need + 1) as u8))) as u32
    } else {
        (gathered_bits(bytes, need, (count - 1) as nat) << 6) | ((bytes[count - 1] & 0x3Fu8) as u32)
    }
}

/// The bits gathered from a complete unit are its code point.
proof fn lemma_gathered_bits(bytes: Seq<u8>, need: nat)
    requires
        bytes.len() >= need,
        2 <= need <= 4,
        need == required_bytes(bytes[0]),
        bytes_in_order(bytes, need) == need,
    ensures
        gathered_bits(bytes, need, need) == decode_first_codepoint(bytes),
{
    let b0 = bytes[0];
    if need == 2 {
        let b1 = bytes[1];
        reveal_with_fuel(gathered_bits, 2);
        assert((((b0 & (0xFFu8 >> 3u8)) as u32) << 6) | ((b1 & 0x3Fu8) as u32) == (((b0 & 0x1F) as u32)
            << 6) | ((b1 & 0x3f) as u32)) by (bit_vector);
    } else if need == 3 {
        let b1 = bytes[1];
        let b2 = bytes[2];
        reveal_with_fuel(gathered_bits, 3);
        assert((((((b0 & (0xFFu8 >> 4u8)) as u32) << 6) | ((b1 & 0x3Fu8) as u32)) << 6) | ((b2
            & 0x3Fu8) as u32) == (((b0 & 0x0F) as u32) << 12) | (((b1 & 0x3f) as u32) << 6) | ((b2
            & 0x3f) as u32)) by (bit_vector);
    } else {
        let b1 = bytes[1];
        let b2 = bytes[2];
        let b3 = bytes[3];
        reveal_with_fuel(gathered_bits, 4);
        assert((((((((b0 & (0xFFu8 >> 5u8)) as u32) << 6) | ((b1 & 0x3Fu8) as u32)) << 6) | ((b2
            & 0x3Fu8) as u32)) << 6) | ((b3 & 0x3Fu8) as u32) == (((b0 & 0x07) as u32) << 18) | (((b1
            & 0x3f) as u32) << 12) | (((b2 & 0x3f) as u32) << 6) | ((b3 & 0x3f) as u32))
            by (bit_vector);
    }
}

/// Decodes characters from a stream of UTF-8 bytes.
pub struct Utf8Decoder {
    byte_stream: ByteStream,
}

impl Utf8Decoder {
    /// The stream the decoder reads from.
    pub closed spec fn stream(&self) -> ByteStream {
        self.byte_stream
    }

    /// A decoder over `byte_stream`.
    pub fn new(byte_stream: ByteStream) -> (d: Self)
        ensures
            d.stream() == byte_stream,
    {
        Utf8Decoder { byte_stream }
    }

    /// How many bytes a unit has whose leading byte is `first_byte`; zero
    /// for a byte that cannot lead a unit.
    pub fn calculate_byte_count(first_byte: u8) -> (n: u8)
        ensures
            n == required_bytes(first_byte),
    {
        assert((first_byte & 0b1000_0000 == 0) <==> first_byte <= 0x7f) by (bit_vector);
        assert((first_byte & 0b1110_0000 == 0b1100_0000) <==> (0xc0 <= first_byte <= 0xdf))
            by (bit_vector);
        assert((first_byte & 0b1111_0000 == 0b1110_0000) <==> (0xe0 <= first_byte <= 0xef))
            by (bit_vector);
        assert((first_byte & 0b1111_1000 == 0b1111_0000) <==> (0xf0 <= first_byte <= 0xf7))
            by (bit_vector);
        if first_byte & 0b1000_0000 == 0 {
            1
        } else if first_byte & 0b1110_0000 == 0b1100_0000 {
            2
        } else if first_byte & 0b1111_0000 == 0b1110_0000 {
            3
        } else if first_byte & 0b1111_1000 == 0b1111_0000 {
            4
        } else {
            0
        }
    }

    /// Whether `byte` has the form `10xxxxxx` of a continuation byte.
    pub fn is_continuation_byte(byte: u8) -> (b: bool)
        ensures
            b == is_continuation_byte(byte),
    {
        assert((byte & 0b1100_0000 == 0b1000_0000) <==> (0x80 <= byte <= 0xbf)) by (bit_vector);
        byte & 0b1100_0000 == 0b1000_0000
    }

    /// Decodes the character that starts at byte `start` of what `stream`
    /// has buffered, consuming nothing: the answer, and the number of bytes
    /// that it stands for.
    pub(crate) fn decode_at(stream: &ByteStream, start: usize) -> (r: (
        Fetch<Result<Option<char>, EditorError>>,
        usize,
    ))
        requires
            start <= stream.bytes().len(),
        ensures
            char_answer(r.0) == utf8_decode(stream.bytes().skip(start as int), stream.ended()).result,
            r.1 == utf8_decode(stream.bytes().skip(start as int), stream.ended()).consumed,
            start + r.1 <= stream.bytes().len(),
    {
        let ghost bytes = stream.bytes().skip(start as int);
        let ended = stream.is_ended();
        let buffered = stream.buffered_count();
        let leading_byte = match stream.peek_byte(start) {
            Some(byte) => byte,
            None => {
                if ended {
                    return (Fetch::Ready(Ok(None)), 0);
                } else {
                    return (Fetch::NeedInput(BUFFER_SIZE), 0);
                }
            },
        };
        assert(bytes[0] == leading_byte);
        let byte_count = Self::calculate_byte_count(leading_byte);
        if byte_count == 1 {
            assert(leading_byte <= 0x7f ==> (leading_byte & 0x7F) == leading_byte) by (bit_vector);
            (Fetch::Ready(Ok(Some(leading_byte as char))), 1)
        } else if byte_count > 1 {
            let mut unicode_point: u32 = (leading_byte & (0xFFu8 >> (byte_count + 1))) as u32;
            let mut bytes_collected: Vec<u8> = Vec::new();
            bytes_collected.push(leading_byte);
            assert(bytes_collected@ =~= bytes.take(1));
            let mut i: u8 = 1;
            while i < byte_count
                invariant
                    1 <= i <= byte_count <= 4,
                    byte_count == required_bytes(bytes[0]),
                    bytes == stream.bytes().skip(start as int),
                    start <= stream.bytes().len(),
                    buffered == stream.bytes().len(),
                    ended == stream.ended(),
                    i <= bytes.len(),
                    bytes_in_order(bytes, i as nat) == i,
                    bytes_collected@ == bytes.take(i as int),
                    unicode_point == gathered_bits(bytes, byte_count as nat, i as nat),
                decreases byte_count - i,
            {
                if i as usize >= buffered - start {
                    if ended {
                        let mut expected = String::from_str("UTF-8 continuation byte ");
                        push_decimal(&mut expected, i as u128);
                        expected.append(" of ");
                        push_decimal(&mut expected, byte_count as u128);
                        return (
                            Fetch::Ready(Err(EditorError::unexpected_eof(expected, i as usize))),
                            i as usize,
                        );
                    } else {
                        return (Fetch::NeedInput(BUFFER_SIZE), 0);
                    }
                }
                let continuation_byte = match stream.peek_byte(start + i as usize) {
                    Some(byte) => byte,
                    None => 0,
                };
                assert(continuation_byte == bytes[i as int]);
                bytes_collected.push(continuation_byte);
                assert(bytes_collected@ =~= bytes.take(i + 1));
                if !Self::is_continuation_byte(continuation_byte) {
                    let mut details = String::from_str(
                        "Expected UTF-8 continuation byte (10xxxxxx), got 0x",
                    );
                    push_hex(&mut details, continuation_byte as u32, 2);
                    return (
                        Fetch::Ready(
                            Err(EditorError::invalid_encoding(i as usize, details, bytes_collected)),
                        ),
                        i as usize + 1,
                    );
                }
                unicode_point = unicode_point << 6 | (continuation_byte & 0b0011_1111) as u32;
                i += 1;
            }
            proof {
                lemma_gathered_bits(bytes, byte_count as nat);
            }
            match char::from_u32(unicode_point) {
                Some(ch) => (Fetch::Ready(Ok(Some(ch))), byte_count as usize),
                None => {
                    let mut details = String::from_str("Invalid Unicode code point U+");
                    push_hex(&mut details, unicode_point, 8);
                    (
                        Fetch::Ready(Err(EditorError::invalid_encoding(0, details, bytes_collected))),
                        byte_count as usize,
                    )
                },
            }
        } else {
            let mut details = String::from_str("Invalid UTF-8 leading byte 0x");
            push_hex(&mut details, leading_byte as u32, 2);
            let mut invalid_bytes: Vec<u8> = Vec::new();
            invalid_bytes.push(leading_byte);
            (Fetch::Ready(Err(EditorError::invalid_encoding(0, details, invalid_bytes))), 1)
        }
    }

    /// Decodes the next character and consumes its bytes.
    pub fn decode_char(&mut self) -> (r: Fetch<Result<Option<char>, EditorError>>)
        ensures
            char_answer(r) == utf8_decode(old(self).stream().bytes(), old(self).stream().ended()).result,
            final(self).stream().bytes() == old(self).stream().bytes().skip(
                utf8_decode(old(self).stream().bytes(), old(self).stream().ended()).consumed as int,
            ),
            final(self).stream().ended() == old(self).stream().ended(),
    {
        assert(self.byte_stream.bytes().skip(0) =~= self.byte_stream.bytes());
        let (answer, consumed) = Self::decode_at(&self.byte_stream, 0);
        self.byte_stream.discard(consumed);
        answer
    }

    /// Reads one line and consumes it with its end.
    pub fn read_line(&mut self) -> (r: Fetch<Result<Option<String>, EditorError>>)
        ensures
            line_answer(r) == read_line_from(
                Encoding::Utf8,
                old(self).stream().bytes(),
                old(self).stream().ended(),
                Seq::empty(),
            ).result,
            final(self).stream().bytes() == old(self).stream().bytes().skip(
                read_line_from(
                    Encoding::Utf8,
                    old(self).stream().bytes(),
                    old(self).stream().ended(),
                    Seq::empty(),
                ).consumed as int,
            ),
            final(self).stream().ended() == old(self).stream().ended(),
    {
        read_line_in(&mut self.byte_stream, Encoding::Utf8)
    }

    /// How many bytes are buffered and not yet decoded.
    pub fn buffered_count(&self) -> (n: usize)
        ensures
            n == self.stream().bytes().len(),
    {
        self.byte_stream.buffered_count()
    }

    /// Takes in what the input yielded; an empty chunk marks its end.
    pub fn fill_buffer(&mut self, chunk: &[u8])
        ensures
            final(self).stream().bytes() == old(self).stream().bytes() + chunk@,
            final(self).stream().ended() == (chunk@.len() == 0),
    {
        self.byte_stream.fill_buffer(chunk);
    }

    /// Gives the stream back, with every byte that was not decoded.
    pub fn take_stream(self) -> (s: ByteStream)
        ensures
            s == self.stream(),
    {
        self.byte_stream
    }

    /// Whether the next byte is an escape, without consuming it.
    pub fn is_next_esc(&self) -> (r: Fetch<bool>)
        ensures
            r == next_is_esc(self.stream().bytes(), self.stream().ended()),
    {
        is_next_esc_in(&self.byte_stream)
    }
}

} // verus!
