//! A forward-only byte source over bytes held in memory.

use crate::endian::{le_u32, read_le_u32};
use vstd::prelude::*;
use vstd::slice::{slice_subrange, slice_to_vec};

verus! {

/// Bytes that are read once, front to back. The view is what has not been
/// read yet. A read that asks for more than is left fails and leaves the
/// source drained, as a read on a stream that ended would.
pub struct ByteSource {
    data: Vec<u8>,
    pos: usize,
}

impl View for ByteSource {
    type V = Seq<u8>;

    closed spec fn view(&self) -> Seq<u8> {
        self.data@.skip(self.pos as int)
    }
}

impl ByteSource {
    #[verifier::type_invariant]
    spec fn in_bounds(self) -> bool {
        self.pos <= self.data@.len()
    }

    /// A source that will hand out `data` from its first byte on.
    pub fn new(data: Vec<u8>) -> (source: ByteSource)
        ensures
            source@ == data@,
    {
        ByteSource { data, pos: 0 }
    }

    /// Number of bytes not read yet.
    pub fn remaining(&self) -> (n: usize)
        ensures
            n == self@.len(),
    {
        proof {
            use_type_invariant(self);
        }
        self.data.len() - self.pos
    }

    /// Reads a four-byte tag.
    pub fn read_tag(&mut self) -> (tag: Option<[u8; 4]>)
        ensures
            match tag {
                Some(t) => old(self)@.len() >= 4 && t@ == old(self)@.subrange(0, 4)
                    && final(self)@ == old(self)@.skip(4),
                None => old(self)@.len() < 4 && final(self)@.len() == 0,
            },
    {
        proof {
            use_type_invariant(&*self);
        }
        if self.data.len() - self.pos < 4 {
            self.pos = self.data.len();
            return None;
        }
        let at = self.pos;
        let tag = [self.data[at], self.data[at + 1], self.data[at + 2], self.data[at + 3]];
        self.pos = at + 4;
        proof {
            assert(tag@ =~= old(self)@.subrange(0, 4));
            assert(self@ =~= old(self)@.skip(4));
        }
        Some(tag)
    }

    /// Reads an unsigned 32-bit integer stored least significant byte first.
    pub fn read_u32_le(&mut self) -> (value: Option<u32>)
        ensures
            match value {
                Some(v) => old(self)@.len() >= 4 && v == le_u32(old(self)@.subrange(0, 4))
                    && final(self)@ == old(self)@.skip(4),
                None => old(self)@.len() < 4 && final(self)@.len() == 0,
            },
    {
        proof {
            use_type_invariant(&*self);
        }
        if self.data.len() - self.pos < 4 {
            self.pos = self.data.len();
            return None;
        }
        let at = self.pos;
        let field = slice_subrange(self.data.as_slice(), at, at + 4);
        let value = read_le_u32(field);
        self.pos = at + 4;
        proof {
            assert(field@ =~= old(self)@.subrange(0, 4));
            assert(self@ =~= old(self)@.skip(4));
        }
        Some(value)
    }

    /// Reads exactly `len` bytes.
    pub fn read_bytes(&mut self, len: u32) -> (bytes: Option<Vec<u8>>)
        ensures
            match bytes {
                Some(b) => old(self)@.len() >= len && b@ == old(self)@.take(len as int)
                    && final(self)@ == old(self)@.skip(len as int),
                None => old(self)@.len() < len && final(self)@.len() == 0,
            },
    {
        proof {
            use_type_invariant(&*self);
        }
        let left = self.data.len() - self.pos;
        if (left as u64) < (len as u64) {
            self.pos = self.data.len();
            return None;
        }
        let at = self.pos;
        let count = len as usize;
        let bytes = slice_to_vec(slice_subrange(self.data.as_slice(), at, at + count));
        self.pos = at + count;
        proof {
            assert(bytes@ =~= old(self)@.take(len as int));
            assert(self@ =~= old(self)@.skip(len as int));
        }
        Some(bytes)
    }

    /// Discards `len` bytes without looking at them. Says whether that many
    /// were there to discard.
    pub fn discard(&mut self, len: u64) -> (whole: bool)
        ensures
            whole == (old(self)@.len() >= len),
            whole ==> final(self)@ == old(self)@.skip(len as int),
            !whole ==> final(self)@.len() == 0,
    {
        proof {
            use_type_invariant(&*self);
        }
        let left = self.data.len() - self.pos;
        if (left as u64) < len {
            self.pos = self.data.len();
            return false;
        }
        let at = self.pos;
        self.pos = at + (len as usize);
        proof {
            assert(self@ =~= old(self)@.skip(len as int));
        }
        true
    }
}

} // verus!
