//! A cursor that reads forward over a borrowed byte buffer by tracking its
//! position, as an alternative to shrinking a slice.

use crate::read;
use vstd::prelude::*;
use vstd::slice::slice_index_get;

verus! {

/// A forward-only cursor over an immutable byte buffer. `pos` counts the
/// bytes already handed out; reads past the end fail without a short read.
pub struct Reader<'a> {
    pub buf: &'a [u8],
    pub pos: usize,
}

impl<'a> Reader<'a> {
    /// A cursor at the start of `buf`.
    pub fn new(buf: &'a [u8]) -> (r: Reader<'a>)
        ensures
            r.buf@ == buf@,
            r.pos == 0,
    {
        Reader { buf, pos: 0 }
    }

    /// Read exactly `len` bytes from the current position, advancing past
    /// them, or fail with `Eof` leaving the cursor where it was.
    pub fn read(&mut self, len: usize) -> (r: Result<Vec<u8>, read::Error>)
        requires
            old(self).pos <= old(self).buf@.len(),
        ensures
            final(self).buf == old(self).buf,
            match r {
                Ok(b) => {
                    &&& old(self).pos + len <= old(self).buf@.len()
                    &&& b@ == old(self).buf@.subrange(
                        old(self).pos as int,
                        old(self).pos + len,
                    )
                    &&& final(self).pos == old(self).pos + len
                },
                Err(e) => {
                    &&& e == read::Error::Eof
                    &&& old(self).pos + len > old(self).buf@.len()
                    &&& final(self).pos == old(self).pos
                },
            },
    {
        if len > self.buf.len() - self.pos {
            return Err(read::Error::Eof);
        }
        let mut out: Vec<u8> = Vec::new();
        let mut i: usize = 0;
        while i < len
            invariant
                self == old(self),
                i <= len,
                self.pos + len <= self.buf@.len(),
                self.buf@.len() <= usize::MAX,
                out@ == self.buf@.subrange(self.pos as int, self.pos + i),
            decreases len - i,
        {
            out.push(*slice_index_get(self.buf, self.pos + i));
            i = i + 1;
            proof {
                assert(out@ =~= self.buf@.subrange(self.pos as int, self.pos + i));
            }
        }
        self.pos = self.pos + len;
        Ok(out)
    }

    /// Read exactly `len` bytes into a fresh vector; the same operation as
    /// `read`, under the name decoding call sites use.
    pub fn read_to_vec(&mut self, len: usize) -> (r: Result<Vec<u8>, read::Error>)
        requires
            old(self).pos <= old(self).buf@.len(),
        ensures
            final(self).buf == old(self).buf,
            match r {
                Ok(b) => {
                    &&& old(self).pos + len <= old(self).buf@.len()
                    &&& b@ == old(self).buf@.subrange(
                        old(self).pos as int,
                        old(self).pos + len,
                    )
                    &&& final(self).pos == old(self).pos + len
                },
                Err(e) => {
                    &&& e == read::Error::Eof
                    &&& old(self).pos + len > old(self).buf@.len()
                    &&& final(self).pos == old(self).pos
                },
            },
    {
        self.read(len)
    }
}

} // verus!
