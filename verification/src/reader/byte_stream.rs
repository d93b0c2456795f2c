//! A buffer between a sequential byte input and the decoders.
//!
//! The stream does not read by itself. A consuming or peeking call that
//! finds too little in the buffer answers [`Fetch::NeedInput`] and leaves the
//! stream as it was; whoever holds the input then reads from it and hands the
//! bytes to [`ByteStream::fill_buffer`], an empty chunk standing for the end
//! of the input.

use std::collections::VecDeque;
use vstd::prelude::*;

verus! {

/// How many bytes are asked of the input at a time, and the most that a peek
/// looks ahead.
pub const BUFFER_SIZE: usize = 1024;

/// The answer of a call that may need more input than is buffered.
#[derive(Debug)]
pub enum Fetch<T> {
    /// The call is done, with this result.
    Ready(T),
    /// Nothing was done: read up to this many bytes from the input, fill the
    /// buffer with them, and call again.
    NeedInput(usize),
}

/// Buffered bytes of an input, oldest first, and whether the input has ended.
pub struct ByteStream {
    byte_buffer: VecDeque<u8>,
    ended: bool,
}

impl ByteStream {
    /// The bytes that are buffered and not yet consumed, oldest first.
    pub closed spec fn bytes(&self) -> Seq<u8> {
        self.byte_buffer@
    }

    /// Whether the last chunk handed in was empty: the input has ended.
    pub closed spec fn ended(&self) -> bool {
        self.ended
    }

    /// An empty stream over an input that has not ended.
    pub fn new() -> (s: Self)
        ensures
            s.bytes() == Seq::<u8>::empty(),
            !s.ended(),
    {
        ByteStream { byte_buffer: VecDeque::with_capacity(BUFFER_SIZE), ended: false }
    }

    /// Consumes the oldest buffered byte. With an empty buffer the answer is
    /// `None` once the input has ended, and a request for a chunk before.
    pub fn read_next_byte(&mut self) -> (r: Fetch<Option<u8>>)
        ensures
            final(self).ended() == old(self).ended(),
            old(self).bytes().len() > 0 ==> r == Fetch::Ready(Some(old(self).bytes()[0]))
                && final(self).bytes() == old(self).bytes().drop_first(),
            old(self).bytes().len() == 0 ==> final(self).bytes() == old(self).bytes() && r == (
            if old(self).ended() {
                Fetch::Ready(None::<u8>)
            } else {
                Fetch::NeedInput(BUFFER_SIZE)
            }),
    {
        match self.byte_buffer.pop_front() {
            Some(byte) => {
                assert(self.byte_buffer@ =~= old(self).byte_buffer@.drop_first());
                Fetch::Ready(Some(byte))
            },
            None => {
                if self.ended {
                    Fetch::Ready(None)
                } else {
                    Fetch::NeedInput(BUFFER_SIZE)
                }
            },
        }
    }

    /// Takes in what the input yielded: the bytes of `chunk` go behind those
    /// already buffered, and an empty chunk marks the end of the input.
    pub fn fill_buffer(&mut self, chunk: &[u8])
        ensures
            final(self).bytes() == old(self).bytes() + chunk@,
            final(self).ended() == (chunk@.len() == 0),
    {
        let mut i: usize = 0;
        while i < chunk.len()
            invariant
                i <= chunk.len(),
                self.byte_buffer@ == old(self).byte_buffer@ + chunk@.take(i as int),
            decreases chunk.len() - i,
        {
            self.byte_buffer.push_back(chunk[i]);
            i += 1;
            assert(self.byte_buffer@ =~= old(self).byte_buffer@ + chunk@.take(i as int));
        }
        assert(chunk@.take(chunk.len() as int) =~= chunk@);
        self.ended = chunk.len() == 0;
    }

    /// How far a peek at `count` bytes looks: `count`, or `BUFFER_SIZE` if
    /// that is less.
    pub open spec fn peek_limit(count: nat) -> nat {
        if count < BUFFER_SIZE {
            count
        } else {
            BUFFER_SIZE as nat
        }
    }

    /// The first `count` buffered bytes, at most `BUFFER_SIZE` of them,
    /// without consuming any. Fewer come back only once the input has ended;
    /// before that the answer is a request for the bytes that are missing.
    pub fn peek_ahead(&self, count: usize) -> (r: Fetch<Vec<u8>>)
        ensures
            match r {
                Fetch::NeedInput(n) => {
                    &&& !self.ended()
                    &&& self.bytes().len() < Self::peek_limit(count as nat)
                    &&& n == Self::peek_limit(count as nat) - self.bytes().len()
                },
                Fetch::Ready(v) => {
                    &&& self.ended() || self.bytes().len() >= Self::peek_limit(count as nat)
                    &&& v@ == if self.bytes().len() < Self::peek_limit(count as nat) {
                        self.bytes()
                    } else {
                        self.bytes().take(Self::peek_limit(count as nat) as int)
                    }
                },
            },
    {
        let safe_count = if count < BUFFER_SIZE {
            count
        } else {
            BUFFER_SIZE
        };
        let buffered = self.byte_buffer.len();
        if buffered < safe_count && !self.ended {
            return Fetch::NeedInput(safe_count - buffered);
        }
        let available_count = if buffered < safe_count {
            buffered
        } else {
            safe_count
        };
        let mut out: Vec<u8> = Vec::new();
        let mut i: usize = 0;
        while i < available_count
            invariant
                i <= available_count <= self.byte_buffer@.len(),
                out@ == self.byte_buffer@.take(i as int),
            decreases available_count - i,
        {
            out.push(self.byte_buffer[i]);
            i += 1;
            assert(out@ =~= self.byte_buffer@.take(i as int));
        }
        assert(self.byte_buffer@.take(self.byte_buffer@.len() as int) =~= self.byte_buffer@);
        Fetch::Ready(out)
    }

    /// How many bytes are buffered.
    pub fn buffered_count(&self) -> (n: usize)
        ensures
            n == self.bytes().len(),
    {
        self.byte_buffer.len()
    }

    /// Whether the input has ended.
    pub fn is_ended(&self) -> (b: bool)
        ensures
            b == self.ended(),
    {
        self.ended
    }

    /// The buffered byte at `index`, if there is one, without consuming it.
    pub fn peek_byte(&self, index: usize) -> (r: Option<u8>)
        ensures
            r == if index < self.bytes().len() {
                Some(self.bytes()[index as int])
            } else {
                None::<u8>
            },
    {
        if index < self.byte_buffer.len() {
            Some(self.byte_buffer[index])
        } else {
            None
        }
    }

    /// Consumes the `count` oldest buffered bytes, or all of them if there
    /// are fewer.
    pub fn discard(&mut self, count: usize)
        ensures
            final(self).bytes() == if count <= old(self).bytes().len() {
                old(self).bytes().skip(count as int)
            } else {
                Seq::<u8>::empty()
            },
            final(self).ended() == old(self).ended(),
    {
        let buffered = self.byte_buffer.len();
        let n = if count < buffered {
            count
        } else {
            buffered
        };
        let mut i: usize = 0;
        while i < n
            invariant
                i <= n <= old(self).byte_buffer@.len(),
                self.byte_buffer@ == old(self).byte_buffer@.skip(i as int),
                self.ended == old(self).ended,
            decreases n - i,
        {
            let _ = self.byte_buffer.pop_front();
            i += 1;
            assert(self.byte_buffer@ =~= old(self).byte_buffer@.skip(i as int));
        }
        assert(old(self).byte_buffer@.skip(old(self).byte_buffer@.len() as int) =~= Seq::<u8>::empty());
    }
}

} // verus!
