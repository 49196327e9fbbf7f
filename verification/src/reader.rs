//! A one-shot sequential reader over the decoded plane.

use vstd::prelude::*;

verus! {

/// Hands out the bytes of a decoded plane, front to back, once. The view is
/// what has not been read yet.
pub struct WebpReader {
    buf: Vec<u8>,
    pos: usize,
}

impl View for WebpReader {
    type V = Seq<u8>;

    closed spec fn view(&self) -> Seq<u8> {
        self.buf@.skip(self.pos as int)
    }
}

impl WebpReader {
    #[verifier::type_invariant]
    spec fn in_bounds(self) -> bool {
        self.pos <= self.buf@.len()
    }

    /// A reader that will hand out `plane` from its first byte on.
    pub(crate) fn new(plane: Vec<u8>) -> (reader: WebpReader)
        ensures
            reader@ == plane@,
    {
        WebpReader { buf: plane, pos: 0 }
    }

    /// Fills the front of `buf` with the next bytes, as many as are left and
    /// fit, and returns how many that was. The rest of `buf` is untouched.
    pub fn read(&mut self, buf: &mut [u8]) -> (n: usize)
        ensures
            n == old(self)@.len() || n == old(buf)@.len(),
            n <= old(self)@.len(),
            n <= old(buf)@.len(),
            final(buf)@ == old(self)@.take(n as int) + old(buf)@.skip(n as int),
            final(self)@ == old(self)@.skip(n as int),
    {
        proof {
            use_type_invariant(&*self);
        }
        let left = self.buf.len() - self.pos;
        let n = if left < buf.len() {
            left
        } else {
            buf.len()
        };
        let at = self.pos;
        let mut i: usize = 0;
        while i < n
            invariant
                i <= n,
                n <= buf@.len(),
                at + n <= self.buf.len(),
                buf@.len() == old(buf)@.len(),
                *self == *old(self),
                at == self.pos,
                forall|j: int| 0 <= j < i ==> buf@[j] == self.buf@[at + j],
                forall|j: int| i <= j < buf@.len() ==> buf@[j] == old(buf)@[j],
            decreases n - i,
        {
            buf[i] = self.buf[at + i];
            i += 1;
        }
        self.pos = at + n;
        proof {
            assert(buf@ =~= old(self)@.take(n as int) + old(buf)@.skip(n as int));
            assert(self@ =~= old(self)@.skip(n as int));
        }
        n
    }

    /// Appends all bytes that are left to `buf` and returns how many that
    /// was. Asked before anything was read, and with an empty `buf`, the
    /// reader hands over its buffer instead of copying it.
    pub fn read_to_end(&mut self, buf: &mut Vec<u8>) -> (n: usize)
        ensures
            n == old(self)@.len(),
            final(buf)@ == old(buf)@ + old(self)@,
            final(self)@.len() == 0,
    {
        proof {
            use_type_invariant(&*self);
        }
        if self.pos == 0 && buf.is_empty() {
            core::mem::swap(buf, &mut self.buf);
            proof {
                assert(buf@ =~= old(buf)@ + old(self)@);
            }
            buf.len()
        } else {
            let at = self.pos;
            let end = self.buf.len();
            let mut i: usize = at;
            while i < end
                invariant
                    at <= i <= end,
                    end == self.buf@.len(),
                    *self == *old(self),
                    buf@ == old(buf)@ + self.buf@.subrange(at as int, i as int),
                decreases end - i,
            {
                buf.push(self.buf[i]);
                proof {
                    assert(self.buf@.subrange(at as int, i as int).push(self.buf@[i as int])
                        =~= self.buf@.subrange(at as int, i + 1));
                }
                i += 1;
            }
            self.pos = end;
            proof {
                assert(old(self)@ =~= self.buf@.subrange(at as int, end as int));
            }
            end - at
        }
    }
}

} // verus!
