//! The encoding half of the binary wire codec: every serializable shape
//! appends its exact byte encoding to a growing buffer, and the encoding is
//! pinned down byte for byte by `spec_serialize`.

use crate::values::{Float64, Time};
use vstd::bytes::{spec_u32_to_le_bytes, spec_u64_to_le_bytes, u32_to_le_bytes, u64_to_le_bytes};
use vstd::prelude::*;
use vstd::slice::slice_to_vec;
use vstd::utf8::encode_utf8;

verus! {

// ---------------------------------------------------------------------------
// Two's-complement bit patterns of the signed wire integers.
// ---------------------------------------------------------------------------

/// The unsigned 32-bit pattern that represents `x` in two's complement.
pub open spec fn u32_of_i32(x: i32) -> u32 {
    if x >= 0 {
        x as u32
    } else {
        (x + 0x1_0000_0000) as u32
    }
}

/// The signed value represented by the two's-complement pattern `u`.
pub open spec fn i32_of_u32(u: u32) -> i32 {
    if u < 0x8000_0000 {
        u as i32
    } else {
        (u - 0x1_0000_0000) as i32
    }
}

/// The unsigned 64-bit pattern that represents `x` in two's complement.
pub open spec fn u64_of_i64(x: i64) -> u64 {
    if x >= 0 {
        x as u64
    } else {
        (x + 0x1_0000_0000_0000_0000) as u64
    }
}

/// The signed value represented by the two's-complement pattern `u`.
pub open spec fn i64_of_u64(u: u64) -> i64 {
    if u < 0x8000_0000_0000_0000 {
        u as i64
    } else {
        (u - 0x1_0000_0000_0000_0000) as i64
    }
}

/// Two's-complement pattern of a signed 32-bit integer, executably.
pub fn i32_bits(x: i32) -> (u: u32)
    ensures
        u == u32_of_i32(x),
{
    if x >= 0 {
        x as u32
    } else {
        ((x as i64) + 0x1_0000_0000i64) as u32
    }
}

/// Two's-complement pattern of a signed 64-bit integer, executably.
pub fn i64_bits(x: i64) -> (u: u64)
    ensures
        u == u64_of_i64(x),
{
    if x >= 0 {
        x as u64
    } else {
        ((x as i128) + 0x1_0000_0000_0000_0000i128) as u64
    }
}

// ---------------------------------------------------------------------------
// The dynamic-length prefix.
// ---------------------------------------------------------------------------

/// Wire encoding of a dynamic length: one byte when the length is below 255,
/// otherwise the marker byte 0xFF followed by the length as an 8-byte
/// little-endian integer.
pub open spec fn spec_dyn_len(n: nat) -> Seq<u8> {
    if n < 255 {
        seq![n as u8]
    } else {
        seq![255u8] + spec_u64_to_le_bytes(n as u64)
    }
}

/// Append the dynamic-length encoding of `len` to `dst`.
pub fn serialize_dyn_len(len: usize, dst: &mut Vec<u8>)
    ensures
        final(dst)@ == old(dst)@ + spec_dyn_len(len as nat),
{
    if len < 255 {
        dst.push(len as u8);
        proof {
            assert(dst@ =~= old(dst)@ + spec_dyn_len(len as nat));
        }
    } else {
        dst.push(255);
        let mut tail = u64_to_le_bytes(len as u64);
        dst.append(&mut tail);
        proof {
            assert(dst@ =~= old(dst)@ + spec_dyn_len(len as nat));
        }
    }
}

// ---------------------------------------------------------------------------
// The Serialize contract.
// ---------------------------------------------------------------------------

/// A value with a fixed binary wire encoding. `spec_serialize` is the exact
/// byte sequence; `serialize` appends it to a buffer.
pub trait Serialize {
    /// The exact byte sequence that `serialize` appends for this value.
    spec fn spec_serialize(&self) -> Seq<u8>;

    /// Append the wire encoding of `self` to `dst`.
    fn serialize(&self, dst: &mut Vec<u8>)
        ensures
            final(dst)@ == old(dst)@ + self.spec_serialize(),
    ;

    /// Serialize `self` into a fresh buffer.
    fn to_bytes(&self) -> (r: Vec<u8>)
        ensures
            r@ == self.spec_serialize(),
    {
        let mut buf = Vec::new();
        self.serialize(&mut buf);
        proof {
            assert(buf@ =~= self.spec_serialize());
        }
        buf
    }
}

/// The concatenation of the wire encodings of a sequence of values, in order.
pub open spec fn spec_serialize_elems<T: Serialize>(s: Seq<T>) -> Seq<u8>
    decreases s.len(),
{
    if s.len() == 0 {
        Seq::empty()
    } else {
        s[0].spec_serialize() + spec_serialize_elems(s.skip(1))
    }
}

/// Appending one element to a sequence appends its encoding to the bytes.
pub proof fn lemma_serialize_elems_snoc<T: Serialize>(s: Seq<T>, v: T)
    ensures
        spec_serialize_elems(s.push(v)) == spec_serialize_elems(s) + v.spec_serialize(),
    decreases s.len(),
{
    if s.len() == 0 {
        assert(s.push(v).skip(1) =~= Seq::<T>::empty());
        assert(s.push(v)[0] == v);
        assert(spec_serialize_elems(s.push(v)) == v.spec_serialize() + spec_serialize_elems(
            Seq::<T>::empty(),
        ));
        assert(spec_serialize_elems(Seq::<T>::empty()) == Seq::<u8>::empty());
        assert(spec_serialize_elems(s) == Seq::<u8>::empty());
        assert(v.spec_serialize() + Seq::<u8>::empty() =~= Seq::<u8>::empty()
            + v.spec_serialize());
    } else {
        lemma_serialize_elems_snoc(s.skip(1), v);
        assert(s.push(v).skip(1) =~= s.skip(1).push(v));
        assert(s.push(v)[0] == s[0]);
        assert(spec_serialize_elems(s.push(v)) == s[0].spec_serialize() + spec_serialize_elems(
            s.skip(1).push(v),
        ));
        assert(s[0].spec_serialize() + (spec_serialize_elems(s.skip(1)) + v.spec_serialize()) =~= (
        s[0].spec_serialize() + spec_serialize_elems(s.skip(1))) + v.spec_serialize());
    }
}

/// A sequence of bytes encodes as itself.
pub proof fn lemma_serialize_elems_u8(s: Seq<u8>)
    ensures
        spec_serialize_elems(s) == s,
    decreases s.len(),
{
    if s.len() == 0 {
        assert(spec_serialize_elems(s) =~= s);
    } else {
        lemma_serialize_elems_u8(s.skip(1));
        assert(spec_serialize_elems(s) =~= s);
    }
}

// ---------------------------------------------------------------------------
// Implementations for the wire shapes.
// ---------------------------------------------------------------------------

impl Serialize for u8 {
    open spec fn spec_serialize(&self) -> Seq<u8> {
        seq![*self]
    }

    fn serialize(&self, dst: &mut Vec<u8>) {
        dst.push(*self);
        proof {
            assert(dst@ =~= old(dst)@ + self.spec_serialize());
        }
    }
}

impl Serialize for u32 {
    open spec fn spec_serialize(&self) -> Seq<u8> {
        spec_u32_to_le_bytes(*self)
    }

    fn serialize(&self, dst: &mut Vec<u8>) {
        let mut b = u32_to_le_bytes(*self);
        dst.append(&mut b);
        proof {
            assert(dst@ =~= old(dst)@ + self.spec_serialize());
        }
    }
}

impl Serialize for i32 {
    open spec fn spec_serialize(&self) -> Seq<u8> {
        spec_u32_to_le_bytes(u32_of_i32(*self))
    }

    fn serialize(&self, dst: &mut Vec<u8>) {
        let mut b = u32_to_le_bytes(i32_bits(*self));
        dst.append(&mut b);
    }
}

impl Serialize for i64 {
    open spec fn spec_serialize(&self) -> Seq<u8> {
        spec_u64_to_le_bytes(u64_of_i64(*self))
    }

    fn serialize(&self, dst: &mut Vec<u8>) {
        let mut b = u64_to_le_bytes(i64_bits(*self));
        dst.append(&mut b);
    }
}

impl Serialize for bool {
    open spec fn spec_serialize(&self) -> Seq<u8> {
        seq![if *self { 1u8 } else { 0u8 }]
    }

    fn serialize(&self, dst: &mut Vec<u8>) {
        dst.push(if *self { 1 } else { 0 });
        proof {
            assert(dst@ =~= old(dst)@ + self.spec_serialize());
        }
    }
}

impl Serialize for Float64 {
    open spec fn spec_serialize(&self) -> Seq<u8> {
        spec_u64_to_le_bytes(self.bits)
    }

    fn serialize(&self, dst: &mut Vec<u8>) {
        let mut b = u64_to_le_bytes(self.bits);
        dst.append(&mut b);
    }
}

impl Serialize for Time {
    open spec fn spec_serialize(&self) -> Seq<u8> {
        spec_u64_to_le_bytes(u64_of_i64(self.millis))
    }

    fn serialize(&self, dst: &mut Vec<u8>) {
        let mut b = u64_to_le_bytes(i64_bits(self.millis));
        dst.append(&mut b);
    }
}

impl Serialize for String {
    open spec fn spec_serialize(&self) -> Seq<u8> {
        spec_dyn_len(encode_utf8(self@).len()) + encode_utf8(self@)
    }

    fn serialize(&self, dst: &mut Vec<u8>) {
        let bytes: &[u8] = self.as_str().as_bytes();
        serialize_dyn_len(bytes.len(), dst);
        let mut tail = slice_to_vec(bytes);
        dst.append(&mut tail);
        proof {
            assert(dst@ =~= old(dst)@ + self.spec_serialize());
        }
    }
}

impl<T: Serialize> Serialize for Vec<T> {
    open spec fn spec_serialize(&self) -> Seq<u8> {
        spec_dyn_len(self@.len()) + spec_serialize_elems(self@)
    }

    fn serialize(&self, dst: &mut Vec<u8>) {
        serialize_dyn_len(self.len(), dst);
        let ghost mid = dst@;
        let mut i: usize = 0;
        while i < self.len()
            invariant
                i <= self@.len(),
                mid == old(dst)@ + spec_dyn_len(self@.len()),
                dst@ == mid + spec_serialize_elems(self@.subrange(0, i as int)),
            decreases self@.len() - i,
        {
            proof {
                lemma_serialize_elems_snoc(self@.subrange(0, i as int), self@[i as int]);
                assert(self@.subrange(0, i as int).push(self@[i as int]) =~= self@.subrange(
                    0,
                    i as int + 1,
                ));
            }
            self[i].serialize(dst);
            i = i + 1;
        }
        proof {
            assert(self@.subrange(0, self@.len() as int) =~= self@);
            assert(dst@ =~= old(dst)@ + self.spec_serialize());
        }
    }
}

impl<T: Serialize> Serialize for Option<T> {
    open spec fn spec_serialize(&self) -> Seq<u8> {
        match self {
            Some(v) => seq![1u8] + v.spec_serialize(),
            None => seq![0u8],
        }
    }

    fn serialize(&self, dst: &mut Vec<u8>) {
        match self {
            Some(v) => {
                dst.push(1);
                v.serialize(dst);
                proof {
                    assert(dst@ =~= old(dst)@ + self.spec_serialize());
                }
            },
            None => {
                dst.push(0);
                proof {
                    assert(dst@ =~= old(dst)@ + self.spec_serialize());
                }
            },
        }
    }
}

impl<T: Serialize, E: Serialize> Serialize for Result<T, E> {
    open spec fn spec_serialize(&self) -> Seq<u8> {
        match self {
            Ok(v) => seq![1u8] + v.spec_serialize(),
            Err(e) => seq![0u8] + e.spec_serialize(),
        }
    }

    fn serialize(&self, dst: &mut Vec<u8>) {
        match self {
            Ok(v) => {
                dst.push(1);
                v.serialize(dst);
                proof {
                    assert(dst@ =~= old(dst)@ + self.spec_serialize());
                }
            },
            Err(e) => {
                dst.push(0);
                e.serialize(dst);
                proof {
                    assert(dst@ =~= old(dst)@ + self.spec_serialize());
                }
            },
        }
    }
}

} // verus!
