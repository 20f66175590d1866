//! A forward-only cursor over a byte slice with bounds-checked reads; the
//! foundation that all decoding composes on.

use vstd::prelude::*;
use vstd::slice::{slice_index_get, slice_subrange};

verus! {

/// Error returned when a read asks for more bytes than remain.
#[derive(Debug, Clone, Copy, PartialEq, Eq, Structural)]
pub enum Error {
    Eof,
}

/// A forward-only byte source: a successful read hands out exactly the next
/// `len` bytes and removes them from the front; a short read never happens.
pub trait Read where Self: View<V = Seq<u8>> {
    /// Read exactly `len` bytes, or fail with `Eof` leaving the source unchanged.
    fn read(&mut self, len: usize) -> (r: Result<Vec<u8>, Error>)
        ensures
            match r {
                Ok(buf) => {
                    &&& len <= old(self)@.len()
                    &&& buf@ == old(self)@.subrange(0, len as int)
                    &&& final(self)@ == old(self)@.subrange(len as int, old(self)@.len() as int)
                },
                Err(e) => {
                    &&& e == Error::Eof
                    &&& len > old(self)@.len()
                    &&& final(self)@ == old(self)@
                },
            },
    ;

    /// Read exactly `len` bytes into a fresh vector; the same operation as
    /// `read`, under the name decoding call sites traditionally use.
    fn read_to_vec(&mut self, len: usize) -> (r: Result<Vec<u8>, Error>)
        ensures
            match r {
                Ok(buf) => {
                    &&& len <= old(self)@.len()
                    &&& buf@ == old(self)@.subrange(0, len as int)
                    &&& final(self)@ == old(self)@.subrange(len as int, old(self)@.len() as int)
                },
                Err(e) => {
                    &&& e == Error::Eof
                    &&& len > old(self)@.len()
                    &&& final(self)@ == old(self)@
                },
            },
    {
        self.read(len)
    }
}

impl Read for &[u8] {
    fn read(&mut self, len: usize) -> (r: Result<Vec<u8>, Error>) {
        if len > self.len() {
            return Err(Error::Eof);
        }
        let mut buf: Vec<u8> = Vec::new();
        let mut i: usize = 0;
        while i < len
            invariant
                self@ == old(self)@,
                i <= len <= self@.len(),
                buf@ == self@.subrange(0, i as int),
            decreases len - i,
        {
            buf.push(*slice_index_get(*self, i));
            i = i + 1;
            proof {
                assert(buf@ == self@.subrange(0, i as int));
            }
        }
        let s: &[u8] = *self;
        *self = slice_subrange(s, len, s.len());
        Ok(buf)
    }
}

} // verus!
