//! A reader over bytes that are held in memory.

use vstd::prelude::*;

verus! {

/// The line feed, which ends a line.
pub const LF: u8 = 0x0a;

/// The carriage return, which may stand before the line feed.
pub const CR: u8 = 0x0d;

/// The number of bytes up to and including the first `delim` in `bytes`, or
/// the length of `bytes` where `delim` does not occur.
pub open spec fn span(bytes: Seq<u8>, delim: u8) -> nat
    decreases bytes.len(),
{
    if bytes.len() == 0 {
        0
    } else if bytes[0] == delim {
        1
    } else {
        1 + span(bytes.drop_first(), delim)
    }
}

/// A span is no longer than the bytes, and empty only where they are.
pub proof fn lemma_span_bounds(bytes: Seq<u8>, delim: u8)
    ensures
        span(bytes, delim) <= bytes.len(),
        bytes.len() > 0 ==> span(bytes, delim) >= 1,
    decreases bytes.len(),
{
    if bytes.len() > 0 && bytes[0] != delim {
        lemma_span_bounds(bytes.drop_first(), delim);
    }
}

/// A span over bytes without `delim`, followed by more bytes, goes on into
/// those.
proof fn lemma_span_skip(bytes: Seq<u8>, delim: u8, k: int)
    requires
        0 <= k <= bytes.len(),
        forall|i: int| 0 <= i < k ==> bytes[i] != delim,
    ensures
        span(bytes, delim) == k + span(bytes.skip(k), delim),
    decreases k,
{
    if k == 0 {
        assert(bytes.skip(0) == bytes);
    } else {
        let rest = bytes.drop_first();
        assert forall|i: int| 0 <= i < k - 1 implies rest[i] != delim by {
            assert(rest[i] == bytes[i + 1]);
        }
        lemma_span_skip(rest, delim, k - 1);
        assert(rest.skip(k - 1) == bytes.skip(k));
    }
}

/// A reader over a byte vector, with a cursor.
pub struct ByteReader {
    data: Vec<u8>,
    pos: usize,
}

impl ByteReader {
    #[verifier::type_invariant]
    spec fn inv(self) -> bool {
        self.pos <= self.data@.len()
    }

    /// The bytes that have not been read yet.
    pub closed spec fn remaining(&self) -> Seq<u8> {
        self.data@.skip(self.pos as int)
    }

    /// Creates a reader that stands before the first byte of `data`.
    pub fn new(data: Vec<u8>) -> (reader: Self)
        ensures
            reader.remaining() == data@,
    {
        assert(data@.skip(0) == data@);
        ByteReader { data, pos: 0 }
    }

    /// The number of bytes that have not been read yet.
    pub fn len(&self) -> (n: usize)
        ensures
            n == self.remaining().len(),
    {
        proof {
            use_type_invariant(self);
        }
        self.data.len() - self.pos
    }

    /// Whether every byte has been read.
    pub fn is_empty(&self) -> (empty: bool)
        ensures
            empty == (self.remaining().len() == 0),
    {
        proof {
            use_type_invariant(self);
        }
        self.pos == self.data.len()
    }

    /// Reads up to and including the next `delim`, or to the end where none
    /// follows, appends what it read to `buf`, and returns how many bytes
    /// that were.
    pub fn read_until(&mut self, delim: u8, buf: &mut Vec<u8>) -> (n: usize)
        ensures
            n == span(old(self).remaining(), delim),
            n <= old(self).remaining().len(),
            final(buf)@ == old(buf)@ + old(self).remaining().take(n as int),
            final(self).remaining() == old(self).remaining().skip(n as int),
    {
        proof {
            use_type_invariant(&*self);
        }
        let ghost rest = self.remaining();
        let start = self.pos;
        let mut i = self.pos;
        let mut found = false;
        while i < self.data.len() && !found
            invariant
                start == self.pos,
                start <= i <= self.data@.len(),
                rest == self.data@.skip(start as int),
                buf@ == old(buf)@ + rest.take(i - start),
                !found ==> forall|j: int| 0 <= j < i - start ==> rest[j] != delim,
                found ==> i > start && rest[i - start - 1] == delim && forall|j: int|
                    0 <= j < i - start - 1 ==> rest[j] != delim,
            decreases self.data@.len() - i + (if found { 0int } else { 1int }),
        {
            let byte = self.data[i];
            buf.push(byte);
            assert(rest[i - start] == byte);
            assert(rest.take(i - start + 1) == rest.take(i - start).push(byte));
            if byte == delim {
                found = true;
            }
            i += 1;
        }
        proof {
            let k = i - start;
            if found {
                lemma_span_skip(rest, delim, k - 1);
                assert(rest.skip(k - 1)[0] == delim);
            } else {
                lemma_span_skip(rest, delim, k);
                assert(rest.skip(k).len() == 0);
            }
            assert(rest.skip(k) == self.data@.skip(i as int));
        }
        self.pos = i;
        i - start
    }
}

} // verus!
