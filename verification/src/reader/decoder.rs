//! Decoding characters from buffered bytes, one decoder per encoding.
//!
//! A decoder keeps nothing between calls but the byte stream. A call that
//! cannot be answered from what is buffered asks for input and consumes
//! nothing.

pub mod ascii;
pub mod utf8;

use crate::error::{EditorError, ErrorView};
use crate::reader::byte_stream::{ByteStream, Fetch};
use crate::reader::decoder::ascii::ascii_decode;
use crate::reader::decoder::utf8::utf8_decode;
use vstd::prelude::*;

pub use ascii::AsciiDecoder;
pub use utf8::Utf8Decoder;

verus! {

/// What decoding one character from the front of a byte sequence comes to.
pub struct Decoded {
    /// The answer: a character, the end of the input, an error, or a request
    /// for more input.
    pub result: Fetch<Result<Option<char>, ErrorView>>,
    /// How many bytes leave the front of the sequence.
    pub consumed: nat,
}

/// The answer of a decoder with its error taken by its content.
pub open spec fn char_answer(r: Fetch<Result<Option<char>, EditorError>>) -> Fetch<
    Result<Option<char>, ErrorView>,
> {
    match r {
        Fetch::Ready(Ok(c)) => Fetch::Ready(Ok(c)),
        Fetch::Ready(Err(e)) => Fetch::Ready(Err(e@)),
        Fetch::NeedInput(n) => Fetch::NeedInput(n),
    }
}

/// Whether the next buffered byte is an escape. With nothing buffered the
/// answer is a request for one byte, and `false` once the input has ended.
pub open spec fn next_is_esc(bytes: Seq<u8>, ended: bool) -> Fetch<bool> {
    if bytes.len() == 0 && !ended {
        Fetch::NeedInput(1)
    } else {
        Fetch::Ready(bytes.len() > 0 && bytes[0] == 0x1B)
    }
}

/// Peeks at one byte of `stream` and compares it to the escape byte.
pub fn is_next_esc_in(stream: &ByteStream) -> (r: Fetch<bool>)
    ensures
        r == next_is_esc(stream.bytes(), stream.ended()),
{
    match stream.peek_ahead(1) {
        Fetch::NeedInput(n) => Fetch::NeedInput(n),
        Fetch::Ready(bytes) => Fetch::Ready(bytes.len() > 0 && bytes[0] == 0x1B),
    }
}

/// `str::to_ascii_lowercase` gives a copy of the string in which each of the
/// letters `A` to `Z` is replaced by its lower-case letter and every other
/// character is kept.
pub assume_specification[ str::to_ascii_lowercase ](s: &str) -> (r: String)
    ensures
        r@ == ascii_lowercase(s@),
;

/// `c` in lower case if it is one of the letters `A` to `Z`, else `c`.
pub open spec fn ascii_lowercase_char(c: char) -> char {
    if 'A' <= c && c <= 'Z' {
        ((c as u32) + 32) as char
    } else {
        c
    }
}

/// `s` with each of the letters `A` to `Z` in lower case.
pub open spec fn ascii_lowercase(s: Seq<char>) -> Seq<char> {
    Seq::new(s.len(), |i: int| ascii_lowercase_char(s[i]))
}

/// An encoding that has a decoder.
#[derive(Debug, Clone, Copy, PartialEq, Eq, Structural)]
pub enum Encoding {
    Utf8,
    Ascii,
}

impl Encoding {
    /// The name of the encoding.
    pub open spec fn name(self) -> Seq<char> {
        match self {
            Encoding::Utf8 => "UTF-8"@,
            Encoding::Ascii => "ASCII"@,
        }
    }

    /// The encoding that `name` asks for, whatever the case of its letters.
    pub open spec fn named(name: Seq<char>) -> Option<Encoding> {
        if ascii_lowercase(name) == "utf-8"@ {
            Some(Encoding::Utf8)
        } else if ascii_lowercase(name) == "ascii"@ {
            Some(Encoding::Ascii)
        } else {
            None
        }
    }

    /// Decoding one character in this encoding from the front of `bytes`.
    pub open spec fn decode(self, bytes: Seq<u8>, ended: bool) -> Decoded {
        match self {
            Encoding::Utf8 => utf8_decode(bytes, ended),
            Encoding::Ascii => ascii_decode(bytes, ended),
        }
    }

    /// A decoded unit covers at least one byte, and no more than there are.
    pub proof fn lemma_decode_consumes(self, bytes: Seq<u8>, ended: bool)
        ensures
            self.decode(bytes, ended).consumed <= bytes.len(),
            self.decode(bytes, ended).result is NeedInput ==> self.decode(bytes, ended).consumed
                == 0,
            self.decode(bytes, ended).result matches Fetch::Ready(Ok(Some(_))) ==> self.decode(
                bytes,
                ended,
            ).consumed >= 1,
            self.decode(bytes, ended).result matches Fetch::Ready(Ok(None)) ==> bytes.len() == 0,
    {
    }

    /// Decodes, in this encoding, the character at byte `start` of what
    /// `stream` has buffered, consuming nothing.
    pub(crate) fn decode_at(self, stream: &ByteStream, start: usize) -> (r: (
        Fetch<Result<Option<char>, EditorError>>,
        usize,
    ))
        requires
            start <= stream.bytes().len(),
        ensures
            char_answer(r.0) == self.decode(stream.bytes().skip(start as int), stream.ended()).result,
            r.1 == self.decode(stream.bytes().skip(start as int), stream.ended()).consumed,
            start + r.1 <= stream.bytes().len(),
    {
        match self {
            Encoding::Utf8 => Utf8Decoder::decode_at(stream, start),
            Encoding::Ascii => AsciiDecoder::decode_at(stream, start),
        }
    }
}

/// The names of the encodings, in lower case, are the names that ask for
/// them, and they differ.
proof fn lemma_names_in_lower_case()
    ensures
        ascii_lowercase(Encoding::Utf8.name()) == "utf-8"@,
        ascii_lowercase(Encoding::Ascii.name()) == "ascii"@,
        "utf-8"@ != "ascii"@,
{
    reveal_strlit("UTF-8");
    reveal_strlit("ASCII");
    reveal_strlit("utf-8");
    reveal_strlit("ascii");
    assert(ascii_lowercase("UTF-8"@) =~= "utf-8"@);
    assert(ascii_lowercase("ASCII"@) =~= "ascii"@);
    assert("utf-8"@[0] != "ascii"@[0]);
}

/// What reading one line from the front of a byte sequence comes to.
pub struct LineRead {
    /// The answer: the line without its end, `None` where the input ended
    /// with nothing left, an error, or a request for more input.
    pub result: Fetch<Result<Option<Seq<char>>, ErrorView>>,
    /// How many bytes leave the front of the sequence.
    pub consumed: nat,
}

/// `rest`, read behind `offset` bytes that belong to the same line.
pub open spec fn line_after(offset: nat, rest: LineRead) -> LineRead {
    LineRead {
        result: rest.result,
        consumed: if rest.result is NeedInput {
            0
        } else {
            offset + rest.consumed
        },
    }
}

/// Reading on in a line of which `line` has been gathered, from the front of
/// `bytes`.
///
/// Characters are decoded one after the other. A line feed ends the line, a
/// carriage return is dropped, any other character joins the line. The end of
/// the input ends the line too, and with an empty line there is none. A
/// decoding error is the answer at once, and consumes all up to its unit's
/// end. Where the buffer runs out before the line ends, the answer is a
/// request for input and nothing is consumed.
pub open spec fn read_line_from(
    encoding: Encoding,
    bytes: Seq<u8>,
    ended: bool,
    line: Seq<char>,
) -> LineRead
    decreases bytes.len(),
{
    let unit = encoding.decode(bytes, ended);
    match unit.result {
        Fetch::NeedInput(n) => LineRead { result: Fetch::NeedInput(n), consumed: 0 },
        Fetch::Ready(Err(e)) => LineRead { result: Fetch::Ready(Err(e)), consumed: unit.consumed },
        Fetch::Ready(Ok(None)) => LineRead {
            result: Fetch::Ready(
                Ok(
                    if line.len() == 0 {
                        None
                    } else {
                        Some(line)
                    },
                ),
            ),
            consumed: 0,
        },
        Fetch::Ready(Ok(Some(c))) => {
            if c == '\n' || !(1 <= unit.consumed <= bytes.len()) {
                LineRead { result: Fetch::Ready(Ok(Some(line))), consumed: unit.consumed }
            } else {
                line_after(
                    unit.consumed,
                    read_line_from(
                        encoding,
                        bytes.skip(unit.consumed as int),
                        ended,
                        if c == '\r' {
                            line
                        } else {
                            line.push(c)
                        },
                    ),
                )
            }
        },
    }
}

/// The answer of a line read with its line and its error taken by their
/// contents.
pub open spec fn line_answer(r: Fetch<Result<Option<String>, EditorError>>) -> Fetch<
    Result<Option<Seq<char>>, ErrorView>,
> {
    match r {
        Fetch::Ready(Ok(Some(line))) => Fetch::Ready(Ok(Some(line@))),
        Fetch::Ready(Ok(None)) => Fetch::Ready(Ok(None)),
        Fetch::Ready(Err(e)) => Fetch::Ready(Err(e@)),
        Fetch::NeedInput(n) => Fetch::NeedInput(n),
    }
}

/// Reads one line in `encoding` from `stream`, and consumes it with its end.
pub fn read_line_in(stream: &mut ByteStream, encoding: Encoding) -> (r: Fetch<
    Result<Option<String>, EditorError>,
>)
    ensures
        line_answer(r) == read_line_from(
            encoding,
            old(stream).bytes(),
            old(stream).ended(),
            Seq::empty(),
        ).result,
        final(stream).bytes() == old(stream).bytes().skip(
            read_line_from(encoding, old(stream).bytes(), old(stream).ended(), Seq::empty()).consumed as int,
        ),
        final(stream).ended() == old(stream).ended(),
{
    let ghost bytes = stream.bytes();
    let ghost ended = stream.ended();
    let ghost whole = read_line_from(encoding, bytes, ended, Seq::empty());
    let mut line = String::new();
    let mut offset: usize = 0;
    let buffered = stream.buffered_count();
    assert(bytes.skip(0) =~= bytes);
    loop
        invariant
            buffered == bytes.len(),
            stream.bytes() == bytes,
            stream.ended() == ended,
            *stream == *old(stream),
            offset <= bytes.len(),
            whole == read_line_from(encoding, bytes, ended, Seq::empty()),
            whole == line_after(
                offset as nat,
                read_line_from(encoding, bytes.skip(offset as int), ended, line@),
            ),
        decreases bytes.len() - offset,
    {
        let ghost rest = bytes.skip(offset as int);
        proof {
            encoding.lemma_decode_consumes(rest, ended);
        }
        let (answer, consumed) = encoding.decode_at(stream, offset);
        match answer {
            Fetch::NeedInput(n) => {
                assert(bytes.skip(0) =~= bytes);
                return Fetch::NeedInput(n);
            },
            Fetch::Ready(Err(e)) => {
                stream.discard(offset + consumed);
                return Fetch::Ready(Err(e));
            },
            Fetch::Ready(Ok(None)) => {
                stream.discard(offset);
                if line.as_str().unicode_len() == 0 {
                    return Fetch::Ready(Ok(None));
                } else {
                    return Fetch::Ready(Ok(Some(line)));
                }
            },
            Fetch::Ready(Ok(Some(c))) => {
                if c == '\n' {
                    stream.discard(offset + consumed);
                    return Fetch::Ready(Ok(Some(line)));
                } else if c == '\r' {
                } else {
                    line.push(c);
                }
                assert(rest.skip(consumed as int) =~= bytes.skip(offset + consumed));
                offset = offset + consumed;
            },
        }
    }
}

/// A character decoder in one of the encodings.
pub enum Decoder {
    Utf8(Utf8Decoder),
    Ascii(AsciiDecoder),
}

impl PartialEq for Decoder {
    /// Two decoders are equal where they read the same encoding.
    fn eq(&self, other: &Decoder) -> (r: bool) {
        match (self, other) {
            (Decoder::Utf8(_), Decoder::Utf8(_)) => true,
            (Decoder::Ascii(_), Decoder::Ascii(_)) => true,
            _ => false,
        }
    }
}

impl vstd::std_specs::cmp::PartialEqSpecImpl for Decoder {
    open spec fn obeys_eq_spec() -> bool {
        true
    }

    open spec fn eq_spec(&self, other: &Decoder) -> bool {
        self.encoding() == other.encoding()
    }
}

impl Eq for Decoder {}

impl Decoder {
    /// The encoding the decoder reads.
    pub open spec fn encoding(&self) -> Encoding {
        match *self {
            Decoder::Utf8(_) => Encoding::Utf8,
            Decoder::Ascii(_) => Encoding::Ascii,
        }
    }

    /// The stream the decoder reads from.
    pub open spec fn stream(&self) -> ByteStream {
        match *self {
            Decoder::Utf8(decoder) => decoder.stream(),
            Decoder::Ascii(decoder) => decoder.stream(),
        }
    }

    /// A decoder for the encoding that `encoding` names, in any case of its
    /// letters, over `byte_stream`; an error for a name that is neither
    /// `utf-8` nor `ascii`.
    pub fn new(encoding: String, byte_stream: ByteStream) -> (r: Result<Self, EditorError>)
        ensures
            match r {
                Ok(decoder) => Encoding::named(encoding@) == Some(decoder.encoding())
                    && decoder.stream() == byte_stream,
                Err(e) => Encoding::named(encoding@) is None && e@ == (
                ErrorView::UnsupportedEncoding {
                    encoding: encoding@,
                    available: seq![Encoding::Utf8.name(), Encoding::Ascii.name()],
                }),
            },
    {
        let lower = encoding.as_str().to_ascii_lowercase();
        if lower == String::from_str("utf-8") {
            Ok(Decoder::Utf8(Utf8Decoder::new(byte_stream)))
        } else if lower == String::from_str("ascii") {
            Ok(Decoder::Ascii(AsciiDecoder::new(byte_stream)))
        } else {
            Err(EditorError::unsupported_encoding(encoding, Self::get_list()))
        }
    }

    /// The name of the decoder's encoding.
    pub fn get_name(&self) -> (name: &'static str)
        ensures
            name@ == self.encoding().name(),
    {
        match self {
            Decoder::Utf8(_) => "UTF-8",
            Decoder::Ascii(_) => "ASCII",
        }
    }

    /// The names of the encodings that have a decoder.
    pub fn get_list() -> (names: Vec<&'static str>)
        ensures
            crate::error::names_view(names@) == seq![Encoding::Utf8.name(), Encoding::Ascii.name()],
    {
        let mut names: Vec<&'static str> = Vec::new();
        names.push("UTF-8");
        names.push("ASCII");
        assert(crate::error::names_view(names@) =~= seq![
            Encoding::Utf8.name(),
            Encoding::Ascii.name(),
        ]);
        names
    }

    /// Gives the stream back, with every byte that was not decoded.
    pub fn take_stream(self) -> (s: ByteStream)
        ensures
            s == self.stream(),
    {
        match self {
            Decoder::Utf8(decoder) => decoder.take_stream(),
            Decoder::Ascii(decoder) => decoder.take_stream(),
        }
    }

    /// A decoder for the encoding that `encoding` names over the same
    /// stream, so that no buffered byte is lost; an error for a name that is
    /// neither `utf-8` nor `ascii`.
    pub fn switch_to_encoding(self, encoding: String) -> (r: Result<Self, EditorError>)
        ensures
            match r {
                Ok(decoder) => Encoding::named(encoding@) == Some(decoder.encoding())
                    && decoder.stream() == self.stream(),
                Err(e) => Encoding::named(encoding@) is None && e@ == (
                ErrorView::UnsupportedEncoding {
                    encoding: encoding@,
                    available: seq![Encoding::Utf8.name(), Encoding::Ascii.name()],
                }),
            },
    {
        let wanted = encoding.as_str().to_ascii_lowercase();
        if wanted == self.get_name().to_ascii_lowercase() {
            proof {
                lemma_names_in_lower_case();
            }
            return Ok(self);
        }
        let byte_stream = self.take_stream();
        Self::new(encoding, byte_stream)
    }

    /// Decodes the next character and consumes its bytes.
    pub fn decode_char(&mut self) -> (r: Fetch<Result<Option<char>, EditorError>>)
        ensures
            char_answer(r) == old(self).encoding().decode(
                old(self).stream().bytes(),
                old(self).stream().ended(),
            ).result,
            final(self).stream().bytes() == old(self).stream().bytes().skip(
                old(self).encoding().decode(
                    old(self).stream().bytes(),
                    old(self).stream().ended(),
                ).consumed as int,
            ),
            final(self).stream().ended() == old(self).stream().ended(),
            final(self).encoding() == old(self).encoding(),
    {
        match self {
            Decoder::Utf8(decoder) => decoder.decode_char(),
            Decoder::Ascii(decoder) => decoder.decode_char(),
        }
    }

    /// Whether the next byte is an escape, without consuming it.
    pub fn is_next_esc(&self) -> (r: Fetch<bool>)
        ensures
            r == next_is_esc(self.stream().bytes(), self.stream().ended()),
    {
        match self {
            Decoder::Utf8(decoder) => decoder.is_next_esc(),
            Decoder::Ascii(decoder) => decoder.is_next_esc(),
        }
    }

    /// How many bytes are buffered and not yet decoded.
    pub fn buffered_count(&self) -> (n: usize)
        ensures
            n == self.stream().bytes().len(),
    {
        match self {
            Decoder::Utf8(decoder) => decoder.buffered_count(),
            Decoder::Ascii(decoder) => decoder.buffered_count(),
        }
    }

    /// Reads one line and consumes it with its end.
    pub fn read_line(&mut self) -> (r: Fetch<Result<Option<String>, EditorError>>)
        ensures
            line_answer(r) == read_line_from(
                old(self).encoding(),
                old(self).stream().bytes(),
                old(self).stream().ended(),
                Seq::empty(),
            ).result,
            final(self).stream().bytes() == old(self).stream().bytes().skip(
                read_line_from(
                    old(self).encoding(),
                    old(self).stream().bytes(),
                    old(self).stream().ended(),
                    Seq::empty(),
                ).consumed as int,
            ),
            final(self).stream().ended() == old(self).stream().ended(),
            final(self).encoding() == old(self).encoding(),
    {
        match self {
            Decoder::Utf8(decoder) => decoder.read_line(),
            Decoder::Ascii(decoder) => decoder.read_line(),
        }
    }

    /// Takes in what the input yielded; an empty chunk marks its end.
    pub fn fill_buffer(&mut self, chunk: &[u8])
        ensures
            final(self).stream().bytes() == old(self).stream().bytes() + chunk@,
            final(self).stream().ended() == (chunk@.len() == 0),
            final(self).encoding() == old(self).encoding(),
    {
        match self {
            Decoder::Utf8(decoder) => decoder.fill_buffer(chunk),
            Decoder::Ascii(decoder) => decoder.fill_buffer(chunk),
        }
    }
}

} // verus!
