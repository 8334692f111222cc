//! The input: a byte sequence and a position in it.

use vstd::prelude::*;

verus! {

/// A [`ByteStream`] as contracts see it.
pub struct StreamView {
    /// The whole input.
    pub input: Seq<u8>,
    /// The position of the first byte that has not been read.
    pub pos: int,
}

/// A byte sequence that is read front to back, one byte at a time.
#[derive(Debug)]
pub struct ByteStream {
    bytes: Vec<u8>,
    pos: usize,
}

impl View for ByteStream {
    type V = StreamView;

    closed spec fn view(&self) -> StreamView {
        StreamView {
            input: self.bytes@,
            pos: if self.pos <= self.bytes.len() {
                self.pos as int
            } else {
                self.bytes.len() as int
            },
        }
    }
}

impl ByteStream {
    #[verifier::type_invariant]
    spec fn in_bounds(self) -> bool {
        self.pos <= self.bytes.len()
    }

    /// The position of a stream lies within its input.
    pub proof fn lemma_in_bounds(&self)
        ensures
            0 <= self@.pos <= self@.input.len(),
    {
    }

    /// A stream over `bytes` of which nothing has been read.
    pub fn new(bytes: Vec<u8>) -> (stream: ByteStream)
        ensures
            stream@ == (StreamView { input: bytes@, pos: 0 }),
    {
        ByteStream { bytes, pos: 0 }
    }

    /// Reads the next byte, if one is left.
    pub fn read(&mut self) -> (b: Option<u8>)
        ensures
            final(self)@.input == old(self)@.input,
            old(self)@.pos < old(self)@.input.len() ==> b == Some(
                old(self)@.input[old(self)@.pos],
            ) && final(self)@.pos == old(self)@.pos + 1,
            old(self)@.pos >= old(self)@.input.len() ==> b.is_none() && final(self)@.pos == old(
                self,
            )@.pos,
    {
        proof {
            use_type_invariant(&*self);
        }
        if self.pos < self.bytes.len() {
            let b: u8 = self.bytes[self.pos];
            self.pos = self.pos + 1;
            Some(b)
        } else {
            None
        }
    }

    /// The number of bytes that have been read.
    pub fn position(&self) -> (pos: usize)
        ensures
            pos == self@.pos,
    {
        proof {
            use_type_invariant(self);
        }
        self.pos
    }
}

} // verus!
