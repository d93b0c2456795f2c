//! Resolving decoded characters into key events.
//!
//! A character other than an escape is a key by itself. An escape opens a
//! candidate escape sequence, which is held until it resolves into one key or
//! is abandoned, and then every character of it is a key by itself.

use crate::editor::key::{ControlKey, Direction, Key};
use crate::error::{EditorError, ErrorView};
use crate::reader::byte_stream::Fetch;
use crate::reader::decoder::{next_is_esc, Decoder, Encoding};
use crate::text::push_chars;
use std::collections::VecDeque;
use vstd::prelude::*;

verus! {

/// The escape character, which opens every escape sequence.
pub const ESC: char = '\u{1B}';

/// The length at which a candidate escape sequence is given up.
pub const MAX_ESCAPE_SEQUENCE_LENGTH: usize = 16;

/// How long, in milliseconds, the next byte of a candidate escape sequence is
/// waited for.
pub const ESCAPE_SEQUENCE_TIMEOUT_MS: u64 = 10;

/// The character that, held with Ctrl, gives the control character `c`:
/// `@` for 0, `a` to `z` for 1 to 26, then `[`, `\`, `]`, `^` and `_` for 27
/// to 31; none for a character above 31.
pub open spec fn ctrl_base(c: char) -> Option<char> {
    let n = c as u32;
    if n == 0 {
        Some('@')
    } else if n <= 26 {
        Some((n + 96) as char)
    } else if n == 27 {
        Some('[')
    } else if n == 28 {
        Some('\\')
    } else if n == 29 {
        Some(']')
    } else if n == 30 {
        Some('^')
    } else if n == 31 {
        Some('_')
    } else {
        None
    }
}

/// The key that a character stands for outside an escape sequence.
pub open spec fn literal_key(c: char) -> Key {
    if c == ESC {
        Key::ControlKey(ControlKey::Escape)
    } else if c == '\r' {
        Key::ControlKey(ControlKey::CR)
    } else if c == '\n' {
        Key::ControlKey(ControlKey::LF)
    } else if c == '\t' {
        Key::ControlKey(ControlKey::Tab)
    } else if c == '\u{7F}' {
        Key::ControlKey(ControlKey::Delete)
    } else if c as u32 <= 0x1F {
        Key::ControlKey(ControlKey::Ctrl(ctrl_base(c).unwrap()))
    } else {
        Key::Char(c)
    }
}

/// The keys that the characters of `chars` stand for, one each.
pub open spec fn literal_keys(chars: Seq<char>) -> Seq<Key> {
    Seq::new(chars.len(), |i: int| literal_key(chars[i]))
}

/// How a candidate escape sequence stands against the grammar.
pub enum SequenceMatch {
    /// It may still become a sequence of the grammar.
    Prefix,
    /// It is the sequence of this key.
    Resolved(Key),
    /// No sequence of the grammar starts like it.
    Invalid,
}

/// The key of the code between `ESC [` and `~`: 1 Home, 2 Insert, 3 Delete,
/// 4 End, 5 PageUp, 6 PageDown, 11 to 15 F1 to F5, 17 to 21 F6 to F10, 23 and
/// 24 F11 and F12.
pub open spec fn csi_code_key(code: nat) -> Option<Key> {
    if code == 1 {
        Some(Key::ControlKey(ControlKey::Home))
    } else if code == 2 {
        Some(Key::ControlKey(ControlKey::Insert))
    } else if code == 3 {
        Some(Key::ControlKey(ControlKey::Delete))
    } else if code == 4 {
        Some(Key::ControlKey(ControlKey::End))
    } else if code == 5 {
        Some(Key::ControlKey(ControlKey::PageUp))
    } else if code == 6 {
        Some(Key::ControlKey(ControlKey::PageDown))
    } else if 11 <= code <= 15 {
        Some(Key::FunctionKey((code - 10) as u8))
    } else if 17 <= code <= 21 {
        Some(Key::FunctionKey((code - 11) as u8))
    } else if 23 <= code <= 24 {
        Some(Key::FunctionKey((code - 12) as u8))
    } else {
        None
    }
}

/// Whether `c` is one of the digits `0` to `9`.
pub open spec fn is_digit(c: char) -> bool {
    '0' <= c && c <= '9'
}

/// The code that one digit, or two of which the first is not `0`, write.
pub open spec fn csi_code(digits: Seq<char>) -> Option<nat> {
    if digits.len() == 1 && is_digit(digits[0]) {
        Some((digits[0] as u32 - 48) as nat)
    } else if digits.len() == 2 && is_digit(digits[0]) && digits[0] != '0' && is_digit(digits[1]) {
        Some((10 * (digits[0] as u32 - 48) + (digits[1] as u32 - 48)) as nat)
    } else {
        None
    }
}

/// A sequence `ESC [` and a digit, matched against `ESC [ <code> ~`: it is
/// open until a `~` stands at its end, and then what lies between must write
/// a code of the table.
pub open spec fn match_csi_with_number(sequence: Seq<char>) -> SequenceMatch {
    if sequence.len() < 4 || sequence.last() != '~' {
        SequenceMatch::Prefix
    } else {
        match csi_code(sequence.subrange(2, sequence.len() - 1)) {
            Some(code) => match csi_code_key(code) {
                Some(key) => SequenceMatch::Resolved(key),
                None => SequenceMatch::Invalid,
            },
            None => SequenceMatch::Invalid,
        }
    }
}

/// A sequence `ESC [`, matched by the character that follows: `A`, `B`, `C`,
/// `D` the arrows up, down, right, left; `H` Home; `F` End; a digit opens a
/// code; anything else is invalid.
pub open spec fn match_csi_sequence(sequence: Seq<char>) -> SequenceMatch {
    if sequence.len() < 3 {
        SequenceMatch::Prefix
    } else if sequence[2] == 'A' {
        SequenceMatch::Resolved(Key::ArrowKey(Direction::Up))
    } else if sequence[2] == 'B' {
        SequenceMatch::Resolved(Key::ArrowKey(Direction::Down))
    } else if sequence[2] == 'C' {
        SequenceMatch::Resolved(Key::ArrowKey(Direction::Right))
    } else if sequence[2] == 'D' {
        SequenceMatch::Resolved(Key::ArrowKey(Direction::Left))
    } else if sequence[2] == 'H' {
        SequenceMatch::Resolved(Key::ControlKey(ControlKey::Home))
    } else if sequence[2] == 'F' {
        SequenceMatch::Resolved(Key::ControlKey(ControlKey::End))
    } else if is_digit(sequence[2]) {
        match_csi_with_number(sequence)
    } else {
        SequenceMatch::Invalid
    }
}

/// A sequence `ESC O`, matched by the one character that follows: `P`, `Q`,
/// `R`, `S` the function keys 1 to 4; anything else is invalid.
pub open spec fn match_ss3_key(sequence: Seq<char>) -> SequenceMatch {
    if sequence.len() != 3 {
        SequenceMatch::Prefix
    } else if sequence[2] == 'P' {
        SequenceMatch::Resolved(Key::FunctionKey(1))
    } else if sequence[2] == 'Q' {
        SequenceMatch::Resolved(Key::FunctionKey(2))
    } else if sequence[2] == 'R' {
        SequenceMatch::Resolved(Key::FunctionKey(3))
    } else if sequence[2] == 'S' {
        SequenceMatch::Resolved(Key::FunctionKey(4))
    } else {
        SequenceMatch::Invalid
    }
}

/// A sequence that starts with an escape, matched against the grammar: `[`
/// opens a CSI sequence, `O` an SS3 sequence, and no other character may
/// follow the escape.
pub open spec fn match_escape_sequence(sequence: Seq<char>) -> SequenceMatch {
    if sequence.len() < 2 {
        SequenceMatch::Prefix
    } else if sequence[1] == '[' {
        match_csi_sequence(sequence)
    } else if sequence[1] == 'O' {
        match_ss3_key(sequence)
    } else {
        SequenceMatch::Invalid
    }
}

/// Whether `r` reports the match `m` of `sequence`: no key for a prefix, the
/// key of a resolved sequence, and for an invalid one the error that holds
/// its characters and their number.
pub open spec fn reports_match(
    r: Result<Option<Key>, EditorError>,
    sequence: Seq<char>,
    m: SequenceMatch,
) -> bool {
    match r {
        Ok(None) => m == SequenceMatch::Prefix,
        Ok(Some(key)) => m == SequenceMatch::Resolved(key),
        Err(e) => m == SequenceMatch::Invalid && e@ == (ErrorView::InvalidSequence {
            sequence,
            length: sequence.len(),
        }),
    }
}

/// The error for a sequence that the grammar does not know.
fn invalid_sequence_error(sequence: &[char]) -> (e: EditorError)
    ensures
        e@ == (ErrorView::InvalidSequence { sequence: sequence@, length: sequence@.len() }),
{
    let mut text = String::new();
    push_chars(&mut text, sequence);
    assert(text@ =~= sequence@);
    EditorError::invalid_sequence(text, sequence.len())
}

/// The state of a key stream.
pub struct KeyStreamView {
    /// The encoding of the input.
    pub encoding: Encoding,
    /// The bytes that are buffered and not yet decoded.
    pub bytes: Seq<u8>,
    /// Whether the input has ended.
    pub ended: bool,
    /// Keys that are resolved and not yet handed out, oldest first.
    pub queue: Seq<Key>,
    /// The characters of the candidate escape sequence, the escape first;
    /// empty where no sequence is open.
    pub pending: Seq<char>,
}

/// What a call for the next key answers.
pub enum KeyAnswer {
    /// The next key.
    Key(Key),
    /// The input has ended and nothing is left.
    End,
    /// A character could not be decoded.
    Failed(ErrorView),
    /// More input is needed, up to so many bytes.
    NeedInput(usize),
    /// More input is needed within the escape timeout.
    NeedInputOrTimeout(usize),
}

impl KeyStreamView {
    /// The stream after `count` more bytes were decoded.
    pub open spec fn skip(self, count: nat) -> KeyStreamView {
        KeyStreamView {
            encoding: self.encoding,
            bytes: self.bytes.skip(count as int),
            ended: self.ended,
            queue: self.queue,
            pending: self.pending,
        }
    }

    /// The stream with `pending` as its candidate sequence.
    pub open spec fn with_pending(self, pending: Seq<char>) -> KeyStreamView {
        KeyStreamView {
            encoding: self.encoding,
            bytes: self.bytes,
            ended: self.ended,
            queue: self.queue,
            pending,
        }
    }

    /// The stream with `queue` as its resolved keys.
    pub open spec fn with_queue(self, queue: Seq<Key>) -> KeyStreamView {
        KeyStreamView {
            encoding: self.encoding,
            bytes: self.bytes,
            ended: self.ended,
            queue,
            pending: self.pending,
        }
    }

    /// The stream after its candidate sequence was abandoned: each of its
    /// characters is a key by itself, behind the keys already resolved.
    pub open spec fn flushed(self) -> KeyStreamView {
        self.with_queue(self.queue + literal_keys(self.pending)).with_pending(Seq::empty())
    }

    /// Handing out the oldest resolved key, or the end where there is none.
    pub open spec fn pop(self) -> (KeyAnswer, KeyStreamView) {
        if self.queue.len() > 0 {
            (KeyAnswer::Key(self.queue[0]), self.with_queue(self.queue.drop_first()))
        } else {
            (KeyAnswer::End, self)
        }
    }

    /// Going on with an open candidate sequence.
    ///
    /// A sequence as long as the maximum is abandoned. With nothing buffered
    /// before the input has ended, the next byte is waited for within the
    /// timeout. A following escape abandons the sequence and stays in the
    /// buffer. Else the next character is decoded: a unit that the buffer
    /// cuts short is waited for; an error or the end of the input abandons
    /// the sequence; a character joins it. The longer sequence is abandoned
    /// where it reaches the maximum or the grammar does not know it, gives
    /// its key where it resolves, and is gone on with where it is a prefix.
    /// Abandoning flushes the sequence and hands out its first key.
    pub open spec fn collect(self) -> (KeyAnswer, KeyStreamView)
        decreases MAX_ESCAPE_SEQUENCE_LENGTH - self.pending.len(),
    {
        if self.pending.len() >= MAX_ESCAPE_SEQUENCE_LENGTH {
            self.flushed().pop()
        } else {
            match next_is_esc(self.bytes, self.ended) {
                Fetch::NeedInput(n) => (KeyAnswer::NeedInputOrTimeout(n), self),
                Fetch::Ready(true) => self.flushed().pop(),
                Fetch::Ready(false) => {
                    let unit = self.encoding.decode(self.bytes, self.ended);
                    match unit.result {
                        Fetch::NeedInput(n) => (KeyAnswer::NeedInput(n), self),
                        Fetch::Ready(Ok(Some(c))) => {
                            let longer = self.skip(unit.consumed).with_pending(self.pending.push(c));
                            if longer.pending.len() >= MAX_ESCAPE_SEQUENCE_LENGTH {
                                longer.flushed().pop()
                            } else {
                                match match_escape_sequence(longer.pending) {
                                    SequenceMatch::Invalid => longer.flushed().pop(),
                                    SequenceMatch::Resolved(key) => (
                                        KeyAnswer::Key(key),
                                        longer.with_pending(Seq::empty()),
                                    ),
                                    SequenceMatch::Prefix => longer.collect(),
                                }
                            }
                        },
                        _ => self.skip(unit.consumed).flushed().pop(),
                    }
                },
            }
        }
    }

    /// The next key.
    ///
    /// A resolved key that waits is handed out first. An open candidate
    /// sequence is gone on with. Else one character is decoded: a request
    /// for input, a decoding error and the end of the input are the answer;
    /// an escape opens a candidate sequence; any other character is its
    /// literal key.
    pub open spec fn next_key(self) -> (KeyAnswer, KeyStreamView) {
        if self.queue.len() > 0 {
            self.pop()
        } else if self.pending.len() > 0 {
            self.collect()
        } else {
            let unit = self.encoding.decode(self.bytes, self.ended);
            match unit.result {
                Fetch::NeedInput(n) => (KeyAnswer::NeedInput(n), self),
                Fetch::Ready(Err(e)) => (KeyAnswer::Failed(e), self.skip(unit.consumed)),
                Fetch::Ready(Ok(None)) => (KeyAnswer::End, self),
                Fetch::Ready(Ok(Some(c))) => if c == ESC {
                    self.skip(unit.consumed).with_pending(seq![ESC]).collect()
                } else {
                    (KeyAnswer::Key(literal_key(c)), self.skip(unit.consumed))
                },
            }
        }
    }

    /// The stream after the wait for the next byte of a candidate sequence
    /// has timed out: the sequence is abandoned.
    pub open spec fn escape_timeout(self) -> KeyStreamView {
        self.flushed()
    }
}

/// What a key stream answers to a call for the next key.
#[derive(Debug)]
pub enum KeyFetch {
    /// The call is done: a key, `None` at the end of the input, or the error
    /// of a character that could not be decoded.
    Ready(Result<Option<Key>, EditorError>),
    /// Read up to this many bytes from the input, fill the buffer with them,
    /// and call again.
    NeedInput(usize),
    /// The same, inside a candidate escape sequence: where nothing arrives
    /// within `ESCAPE_SEQUENCE_TIMEOUT_MS`, report the timeout and call again.
    NeedInputOrTimeout(usize),
}

impl KeyFetch {
    /// The answer with its error taken by its content.
    pub open spec fn answer(self) -> KeyAnswer {
        match self {
            KeyFetch::Ready(Ok(Some(key))) => KeyAnswer::Key(key),
            KeyFetch::Ready(Ok(None)) => KeyAnswer::End,
            KeyFetch::Ready(Err(e)) => KeyAnswer::Failed(e@),
            KeyFetch::NeedInput(n) => KeyAnswer::NeedInput(n),
            KeyFetch::NeedInputOrTimeout(n) => KeyAnswer::NeedInputOrTimeout(n),
        }
    }
}

/// A restartable sequence of key events over a decoder.
pub struct KeyStream {
    decoder: Decoder,
    buffer: VecDeque<Key>,
    sequence: Vec<char>,
}

impl View for KeyStream {
    type V = KeyStreamView;

    closed spec fn view(&self) -> KeyStreamView {
        KeyStreamView {
            encoding: self.decoder.encoding(),
            bytes: self.decoder.stream().bytes(),
            ended: self.decoder.stream().ended(),
            queue: self.buffer@,
            pending: self.sequence@,
        }
    }
}

impl KeyStream {
    /// A key stream over `decoder`, with no key resolved and no sequence
    /// open.
    pub fn new(decoder: Decoder) -> (s: Self)
        ensures
            s@ == (KeyStreamView {
                encoding: decoder.encoding(),
                bytes: decoder.stream().bytes(),
                ended: decoder.stream().ended(),
                queue: Seq::empty(),
                pending: Seq::empty(),
            }),
    {
        KeyStream { decoder, buffer: VecDeque::with_capacity(10), sequence: Vec::new() }
    }

    /// Takes in what the input yielded; an empty chunk marks its end.
    pub fn fill_buffer(&mut self, chunk: &[u8])
        ensures
            final(self)@ == (KeyStreamView {
                encoding: old(self)@.encoding,
                bytes: old(self)@.bytes + chunk@,
                ended: chunk@.len() == 0,
                queue: old(self)@.queue,
                pending: old(self)@.pending,
            }),
    {
        self.decoder.fill_buffer(chunk);
    }

    /// How many bytes are buffered and not yet decoded.
    pub fn buffered_count(&self) -> (n: usize)
        ensures
            n == self@.bytes.len(),
    {
        self.decoder.buffered_count()
    }

    /// Abandons the candidate escape sequence, if one is open: the wait for
    /// its next byte has timed out.
    pub fn escape_timeout(&mut self)
        ensures
            final(self)@ == old(self)@.escape_timeout(),
    {
        self.flush_sequence();
    }

    /// Moves the characters of the candidate sequence, each as its literal
    /// key, behind the resolved keys.
    fn flush_sequence(&mut self)
        ensures
            final(self)@ == old(self)@.flushed(),
    {
        let mut i: usize = 0;
        while i < self.sequence.len()
            invariant
                i <= self.sequence@.len(),
                self.sequence@ == old(self).sequence@,
                self.decoder == old(self).decoder,
                self.buffer@ == old(self).buffer@ + literal_keys(self.sequence@.take(i as int)),
            decreases self.sequence@.len() - i,
        {
            self.buffer.push_back(Self::convert_char_to_key(self.sequence[i]));
            i += 1;
            assert(self.buffer@ =~= old(self).buffer@ + literal_keys(self.sequence@.take(i as int)));
        }
        assert(self.sequence@.take(self.sequence@.len() as int) =~= self.sequence@);
        self.sequence.clear();
    }

    /// Hands out the oldest resolved key, or the end where there is none.
    fn pop_key(&mut self) -> (r: KeyFetch)
        ensures
            (r.answer(), final(self)@) == old(self)@.pop(),
    {
        match self.buffer.pop_front() {
            Some(key) => {
                assert(self.buffer@ =~= old(self).buffer@.drop_first());
                KeyFetch::Ready(Ok(Some(key)))
            },
            None => KeyFetch::Ready(Ok(None)),
        }
    }

    /// The next key; see [`KeyStreamView::next_key`].
    pub fn next_key(&mut self) -> (r: KeyFetch)
        ensures
            (r.answer(), final(self)@) == old(self)@.next_key(),
    {
        if self.buffer.len() > 0 {
            return self.pop_key();
        }
        if self.sequence.len() == 0 {
            match self.decoder.decode_char() {
                Fetch::NeedInput(n) => {
                    assert(self@.bytes =~= old(self)@.bytes);
                    return KeyFetch::NeedInput(n);
                },
                Fetch::Ready(Err(e)) => {
                    return KeyFetch::Ready(Err(e));
                },
                Fetch::Ready(Ok(None)) => {
                    assert(self@.bytes =~= old(self)@.bytes);
                    return KeyFetch::Ready(Ok(None));
                },
                Fetch::Ready(Ok(Some(c))) => {
                    if c != ESC {
                        return KeyFetch::Ready(Ok(Some(Self::convert_char_to_key(c))));
                    }
                    self.sequence.push(ESC);
                    assert(self.sequence@ =~= seq![ESC]);
                },
            }
        }
        self.process_escape()
    }

    /// Goes on with the open candidate sequence; see
    /// [`KeyStreamView::collect`].
    fn process_escape(&mut self) -> (r: KeyFetch)
        ensures
            (r.answer(), final(self)@) == old(self)@.collect(),
    {
        loop
            invariant_except_break
                self@.collect() == old(self)@.collect(),
            ensures
                self@.flushed().pop() == old(self)@.collect(),
            decreases MAX_ESCAPE_SEQUENCE_LENGTH - self.sequence@.len(),
        {
            let ghost before = self@;
            proof {
                before.encoding.lemma_decode_consumes(before.bytes, before.ended);
            }
            if self.sequence.len() >= MAX_ESCAPE_SEQUENCE_LENGTH {
                break ;
            }
            match self.decoder.is_next_esc() {
                Fetch::NeedInput(n) => {
                    return KeyFetch::NeedInputOrTimeout(n);
                },
                Fetch::Ready(true) => {
                    break ;
                },
                Fetch::Ready(false) => {},
            }
            match self.decoder.decode_char() {
                Fetch::NeedInput(n) => {
                    assert(self@.bytes =~= before.bytes);
                    return KeyFetch::NeedInput(n);
                },
                Fetch::Ready(Ok(Some(next))) => {
                    self.sequence.push(next);
                },
                _ => {
                    break ;
                },
            }
            assert(self@ == before.skip(
                before.encoding.decode(before.bytes, before.ended).consumed,
            ).with_pending(before.pending.push(self.sequence@.last())));
            if self.sequence.len() >= MAX_ESCAPE_SEQUENCE_LENGTH {
                break ;
            }
            match Self::parse_escape_sequence(self.sequence.as_slice()) {
                Err(_) => {
                    break ;
                },
                Ok(None) => {},
                Ok(Some(key)) => {
                    self.sequence.clear();
                    return KeyFetch::Ready(Ok(Some(key)));
                },
            }
        }
        self.flush_sequence();
        self.pop_key()
    }

    /// The character that, held with Ctrl, gives the control character.
    pub fn ctrl_key_reverse(ctrl_char: char) -> (r: Option<char>)
        ensures
            r == ctrl_base(ctrl_char),
    {
        let n = ctrl_char as u32;
        if n == 0 {
            Some('@')
        } else if n <= 26 {
            Some((n as u8 - 1 + 97) as char)
        } else if n == 27 {
            Some('[')
        } else if n == 28 {
            Some('\\')
        } else if n == 29 {
            Some(']')
        } else if n == 30 {
            Some('^')
        } else if n == 31 {
            Some('_')
        } else {
            None
        }
    }

    /// The key that a character stands for outside an escape sequence.
    pub fn convert_char_to_key(c: char) -> (key: Key)
        ensures
            key == literal_key(c),
    {
        if c == ESC {
            Key::ControlKey(ControlKey::Escape)
        } else if c == '\r' {
            Key::ControlKey(ControlKey::CR)
        } else if c == '\n' {
            Key::ControlKey(ControlKey::LF)
        } else if c == '\t' {
            Key::ControlKey(ControlKey::Tab)
        } else if c == '\u{7F}' {
            Key::ControlKey(ControlKey::Delete)
        } else if c as u32 <= 0x1F {
            match Self::ctrl_key_reverse(c) {
                Some(base) => Key::ControlKey(ControlKey::Ctrl(base)),
                None => Key::Char(c),
            }
        } else {
            Key::Char(c)
        }
    }

    /// Matches a sequence `ESC [` and a digit against `ESC [ <code> ~`.
    pub fn parse_csi_with_number(sequence: &[char]) -> (r: Result<Option<Key>, EditorError>)
        ensures
            reports_match(r, sequence@, match_csi_with_number(sequence@)),
    {
        let len = sequence.len();
        if len < 4 || sequence[len - 1] != '~' {
            return Ok(None);
        }
        let ghost digits = sequence@.subrange(2, len - 1);
        assert(digits.len() == len - 3);
        if len == 4 {
            assert(digits[0] == sequence@[2]);
            match sequence[2] {
                '1' => Ok(Some(Key::ControlKey(ControlKey::Home))),
                '2' => Ok(Some(Key::ControlKey(ControlKey::Insert))),
                '3' => Ok(Some(Key::ControlKey(ControlKey::Delete))),
                '4' => Ok(Some(Key::ControlKey(ControlKey::End))),
                '5' => Ok(Some(Key::ControlKey(ControlKey::PageUp))),
                '6' => Ok(Some(Key::ControlKey(ControlKey::PageDown))),
                _ => Err(invalid_sequence_error(sequence)),
            }
        } else if len == 5 {
            assert(digits[0] == sequence@[2]);
            assert(digits[1] == sequence@[3]);
            match (sequence[2], sequence[3]) {
                ('1', '1') => Ok(Some(Key::FunctionKey(1))),
                ('1', '2') => Ok(Some(Key::FunctionKey(2))),
                ('1', '3') => Ok(Some(Key::FunctionKey(3))),
                ('1', '4') => Ok(Some(Key::FunctionKey(4))),
                ('1', '5') => Ok(Some(Key::FunctionKey(5))),
                ('1', '7') => Ok(Some(Key::FunctionKey(6))),
                ('1', '8') => Ok(Some(Key::FunctionKey(7))),
                ('1', '9') => Ok(Some(Key::FunctionKey(8))),
                ('2', '0') => Ok(Some(Key::FunctionKey(9))),
                ('2', '1') => Ok(Some(Key::FunctionKey(10))),
                ('2', '3') => Ok(Some(Key::FunctionKey(11))),
                ('2', '4') => Ok(Some(Key::FunctionKey(12))),
                _ => Err(invalid_sequence_error(sequence)),
            }
        } else {
            Err(invalid_sequence_error(sequence))
        }
    }

    /// Matches a sequence `ESC [` against the CSI sequences.
    pub fn parse_csi_sequence(sequence: &[char]) -> (r: Result<Option<Key>, EditorError>)
        ensures
            reports_match(r, sequence@, match_csi_sequence(sequence@)),
    {
        if sequence.len() < 3 {
            return Ok(None);
        }
        let c = sequence[2];
        if c == 'A' {
            Ok(Some(Key::ArrowKey(Direction::Up)))
        } else if c == 'B' {
            Ok(Some(Key::ArrowKey(Direction::Down)))
        } else if c == 'C' {
            Ok(Some(Key::ArrowKey(Direction::Right)))
        } else if c == 'D' {
            Ok(Some(Key::ArrowKey(Direction::Left)))
        } else if c == 'H' {
            Ok(Some(Key::ControlKey(ControlKey::Home)))
        } else if c == 'F' {
            Ok(Some(Key::ControlKey(ControlKey::End)))
        } else if '0' <= c && c <= '9' {
            Self::parse_csi_with_number(sequence)
        } else {
            Err(invalid_sequence_error(sequence))
        }
    }

    /// Matches a sequence `ESC O` against the SS3 sequences.
    pub fn parse_ss3_key(sequence: &[char]) -> (r: Result<Option<Key>, EditorError>)
        ensures
            reports_match(r, sequence@, match_ss3_key(sequence@)),
    {
        if sequence.len() != 3 {
            return Ok(None);
        }
        let c = sequence[2];
        if c == 'P' {
            Ok(Some(Key::FunctionKey(1)))
        } else if c == 'Q' {
            Ok(Some(Key::FunctionKey(2)))
        } else if c == 'R' {
            Ok(Some(Key::FunctionKey(3)))
        } else if c == 'S' {
            Ok(Some(Key::FunctionKey(4)))
        } else {
            Err(invalid_sequence_error(sequence))
        }
    }

    /// Matches a sequence that starts with an escape against the grammar.
    pub fn parse_escape_sequence(sequence: &[char]) -> (r: Result<Option<Key>, EditorError>)
        ensures
            reports_match(r, sequence@, match_escape_sequence(sequence@)),
    {
        if sequence.len() < 2 {
            return Ok(None);
        }
        let c = sequence[1];
        if c == '[' {
            Self::parse_csi_sequence(sequence)
        } else if c == 'O' {
            Self::parse_ss3_key(sequence)
        } else {
            Err(invalid_sequence_error(sequence))
        }
    }
}

} // verus!
