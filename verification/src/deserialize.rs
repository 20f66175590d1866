//! The decoding half of the binary wire codec. `spec_deserialize` is a total
//! mathematical decoder: for every byte sequence it yields either the decoded
//! value's model together with the bytes left over, or the exact error; the
//! executable `deserialize` is proved to agree with it. Each implementation
//! also proves the round-trip law: decoding an encoding returns the value.

use crate::read::{self, Read};
use crate::serialize::{
    i64_of_u64, i32_of_u32, spec_dyn_len, spec_serialize_elems, u32_of_i32, u64_of_i64,
    lemma_serialize_elems_u8, Serialize,
};
use crate::values::{Float64, Time};
use vstd::bytes::{
    lemma_auto_spec_u32_to_from_le_bytes, lemma_auto_spec_u64_to_from_le_bytes,
    spec_u32_from_le_bytes, spec_u64_from_le_bytes, u32_from_le_bytes, u64_from_le_bytes,
};
use vstd::prelude::*;
use vstd::utf8::{decode_utf8, encode_utf8, encode_utf8_decode_utf8, encode_utf8_valid_utf8,
    valid_utf8};

verus! {

/// Errors from decoding a byte buffer. Corrupted or truncated input cannot be
/// repaired by re-reading, so every error is final for the decode attempt.
#[derive(Debug, Clone, Copy, PartialEq, Eq, Structural)]
pub enum Error {
    /// The input ended before a read completed.
    Read(read::Error),
    /// A string field held bytes that are not valid UTF-8.
    InvalidString,
    /// A tagged union read a definition identity matching none of its variants.
    UnexpectedDefinitionId(u32),
}

/// A value that can be reconstructed from its wire encoding.
///
/// `Model` is the mathematical shape of the decoded value (sequences for
/// vectors and strings, the value itself for plain data), and
/// `spec_deserialize` is a total function from bytes to either a model plus
/// the remaining bytes, or an error. The executable `deserialize` agrees with
/// it exactly, on success and on failure.
pub trait Deserialize: Serialize + Sized {
    /// The mathematical value this type decodes to.
    type Model;

    /// The model of a concrete value.
    spec fn model(&self) -> Self::Model;

    /// The total decode function.
    spec fn spec_deserialize(bytes: Seq<u8>) -> Result<(Self::Model, Seq<u8>), Error>;

    /// Decode one value from the front of `src`, advancing it past the bytes
    /// consumed.
    fn deserialize(src: &mut &[u8]) -> (r: Result<Self, Error>)
        ensures
            match r {
                Ok(v) => Self::spec_deserialize(old(src)@) == Ok::<(Self::Model, Seq<u8>), Error>(
                    (v.model(), final(src)@),
                ),
                Err(e) => Self::spec_deserialize(old(src)@) == Err::<
                    (Self::Model, Seq<u8>),
                    Error,
                >(e),
            },
    ;

    /// Decode one value from the start of `buf`; bytes past it are ignored.
    fn from_bytes(buf: &[u8]) -> (r: Result<Self, Error>)
        ensures
            match r {
                Ok(v) => Self::spec_deserialize(buf@) matches Ok(p) && p.0 == v.model(),
                Err(e) => Self::spec_deserialize(buf@) == Err::<(Self::Model, Seq<u8>), Error>(e),
            },
    {
        let mut src: &[u8] = buf;
        Self::deserialize(&mut src)
    }

    /// Law: decoding an encoding yields the encoded value back and leaves
    /// exactly the trailing bytes, whatever they are. The one proviso is the
    /// type's validity: the encoding fits in memory, which holds of every
    /// encoding an executable serializer can produce.
    proof fn lemma_round_trip(v: Self, rest: Seq<u8>)
        requires
            v.spec_serialize().len() <= usize::MAX,
        ensures
            Self::spec_deserialize(v.spec_serialize() + rest) == Ok::<
                (Self::Model, Seq<u8>),
                Error,
            >((v.model(), rest)),
    ;
}

// ---------------------------------------------------------------------------
// The dynamic-length prefix.
// ---------------------------------------------------------------------------

/// Total decoder for the dynamic-length prefix: one byte below 255, or the
/// 0xFF marker followed by an 8-byte little-endian integer.
pub open spec fn spec_deserialize_dyn_len(bytes: Seq<u8>) -> Result<(u64, Seq<u8>), Error> {
    if bytes.len() < 1 {
        Err(Error::Read(read::Error::Eof))
    } else if bytes[0] < 255 {
        Ok((bytes[0] as u64, bytes.skip(1)))
    } else if bytes.len() < 9 {
        Err(Error::Read(read::Error::Eof))
    } else {
        Ok((spec_u64_from_le_bytes(bytes.subrange(1, 9)), bytes.skip(9)))
    }
}

/// Decode a dynamic length from the front of `src`.
pub fn deserialize_dyn_len(src: &mut &[u8]) -> (r: Result<u64, Error>)
    ensures
        match r {
            Ok(n) => spec_deserialize_dyn_len(old(src)@) == Ok::<(u64, Seq<u8>), Error>(
                (n, final(src)@),
            ),
            Err(e) => spec_deserialize_dyn_len(old(src)@) == Err::<(u64, Seq<u8>), Error>(e),
        },
{
    let first = match src.read(1) {
        Ok(buf) => buf[0],
        Err(_) => {
            return Err(Error::Read(read::Error::Eof));
        },
    };
    proof {
        assert(old(src)@[0] == first);
    }
    if first < 255 {
        proof {
            assert(src@ =~= old(src)@.skip(1));
        }
        Ok(first as u64)
    } else {
        match src.read(8) {
            Ok(buf) => {
                let n = u64_from_le_bytes(buf.as_slice());
                proof {
                    assert(buf@ =~= old(src)@.subrange(1, 9));
                    assert(src@ =~= old(src)@.skip(9));
                }
                Ok(n)
            },
            Err(_) => Err(Error::Read(read::Error::Eof)),
        }
    }
}

/// Law: decoding an encoded dynamic length reproduces the original length.
pub proof fn lemma_dyn_len_round_trip(n: nat, rest: Seq<u8>)
    requires
        n <= u64::MAX,
    ensures
        spec_deserialize_dyn_len(spec_dyn_len(n) + rest) == Ok::<(u64, Seq<u8>), Error>(
            (n as u64, rest),
        ),
{
    let bytes = spec_dyn_len(n) + rest;
    if n < 255 {
        assert(bytes[0] == n as u8);
        assert(bytes.skip(1) =~= rest);
    } else {
        lemma_auto_spec_u64_to_from_le_bytes();
        assert(bytes[0] == 255);
        assert(bytes.subrange(1, 9) =~= vstd::bytes::spec_u64_to_le_bytes(n as u64));
        assert(bytes.skip(9) =~= rest);
    }
}

/// Law: the boundary of the dynamic-length format. Lengths below 255 take a
/// single byte; every other length takes the 0xFF marker plus eight bytes.
pub proof fn lemma_dyn_len_boundary(n: nat)
    ensures
        n < 255 ==> spec_dyn_len(n).len() == 1,
        n >= 255 ==> spec_dyn_len(n).len() == 9 && spec_dyn_len(n)[0] == 255,
{
    if n >= 255 {
        lemma_auto_spec_u64_to_from_le_bytes();
    }
}

// ---------------------------------------------------------------------------
// Element sequences (vectors).
// ---------------------------------------------------------------------------

/// Total decoder for exactly `n` consecutive elements.
pub open spec fn spec_deserialize_elems<T: Deserialize>(bytes: Seq<u8>, n: nat) -> Result<
    (Seq<T::Model>, Seq<u8>),
    Error,
>
    decreases n,
{
    if n == 0 {
        Ok((Seq::empty(), bytes))
    } else {
        match T::spec_deserialize(bytes) {
            Ok((v, rest)) => match spec_deserialize_elems::<T>(rest, (n - 1) as nat) {
                Ok((vs, rest2)) => Ok((seq![v] + vs, rest2)),
                Err(e) => Err(e),
            },
            Err(e) => Err(e),
        }
    }
}

/// Law: decoding the concatenated encodings of `s.len()` elements yields the
/// models of those elements.
pub proof fn lemma_elems_round_trip<T: Deserialize>(s: Seq<T>, rest: Seq<u8>)
    requires
        spec_serialize_elems(s).len() <= usize::MAX,
    ensures
        spec_deserialize_elems::<T>(spec_serialize_elems(s) + rest, s.len()) == Ok::<
            (Seq<T::Model>, Seq<u8>),
            Error,
        >((s.map_values(|x: T| x.model()), rest)),
    decreases s.len(),
{
    if s.len() == 0 {
        assert(spec_serialize_elems(s) + rest =~= rest);
        assert(s.map_values(|x: T| x.model()) =~= Seq::<T::Model>::empty());
    } else {
        let v = s[0];
        let tail = s.skip(1);
        assert(spec_serialize_elems(s) == v.spec_serialize() + spec_serialize_elems(tail));
        assert(spec_serialize_elems(s) + rest =~= v.spec_serialize() + (spec_serialize_elems(tail)
            + rest));
        assert(v.spec_serialize().len() <= usize::MAX);
        assert(spec_serialize_elems(tail).len() <= usize::MAX);
        T::lemma_round_trip(v, spec_serialize_elems(tail) + rest);
        lemma_elems_round_trip::<T>(tail, rest);
        assert(seq![v.model()] + tail.map_values(|x: T| x.model()) =~= s.map_values(
            |x: T| x.model(),
        ));
    }
}

// ---------------------------------------------------------------------------
// Implementations for the wire shapes.
// ---------------------------------------------------------------------------

impl Deserialize for u8 {
    type Model = u8;

    open spec fn model(&self) -> u8 {
        *self
    }

    open spec fn spec_deserialize(bytes: Seq<u8>) -> Result<(u8, Seq<u8>), Error> {
        if bytes.len() < 1 {
            Err(Error::Read(read::Error::Eof))
        } else {
            Ok((bytes[0], bytes.skip(1)))
        }
    }

    fn deserialize(src: &mut &[u8]) -> (r: Result<Self, Error>) {
        let r: Result<u8, Error> = match src.read(1) {
            Ok(buf) => {
                proof {
                    assert(src@ =~= old(src)@.skip(1));
                    assert(buf@[0] == old(src)@[0]);
                }
                Ok(buf[0])
            },
            Err(_) => Err(Error::Read(read::Error::Eof)),
        };
        proof {
            assert(match r {
                Ok(v) => u8::spec_deserialize(old(src)@) == Ok::<(u8, Seq<u8>), Error>(
                    (v.model(), src@),
                ),
                Err(e) => u8::spec_deserialize(old(src)@) == Err::<(u8, Seq<u8>), Error>(e),
            });
        }
        r
    }

    proof fn lemma_round_trip(v: Self, rest: Seq<u8>) {
        assert((v.spec_serialize() + rest)[0] == v);
        assert((v.spec_serialize() + rest).skip(1) =~= rest);
    }
}

impl Deserialize for u32 {
    type Model = u32;

    open spec fn model(&self) -> u32 {
        *self
    }

    open spec fn spec_deserialize(bytes: Seq<u8>) -> Result<(u32, Seq<u8>), Error> {
        if bytes.len() < 4 {
            Err(Error::Read(read::Error::Eof))
        } else {
            Ok((spec_u32_from_le_bytes(bytes.subrange(0, 4)), bytes.skip(4)))
        }
    }

    fn deserialize(src: &mut &[u8]) -> (r: Result<Self, Error>) {
        match src.read(4) {
            Ok(buf) => {
                let n = u32_from_le_bytes(buf.as_slice());
                proof {
                    assert(src@ =~= old(src)@.skip(4));
                }
                Ok(n)
            },
            Err(_) => Err(Error::Read(read::Error::Eof)),
        }
    }

    proof fn lemma_round_trip(v: Self, rest: Seq<u8>) {
        lemma_auto_spec_u32_to_from_le_bytes();
        let bytes = v.spec_serialize() + rest;
        assert(bytes.subrange(0, 4) =~= v.spec_serialize());
        assert(bytes.skip(4) =~= rest);
    }
}

impl Deserialize for i32 {
    type Model = i32;

    open spec fn model(&self) -> i32 {
        *self
    }

    open spec fn spec_deserialize(bytes: Seq<u8>) -> Result<(i32, Seq<u8>), Error> {
        if bytes.len() < 4 {
            Err(Error::Read(read::Error::Eof))
        } else {
            Ok((i32_of_u32(spec_u32_from_le_bytes(bytes.subrange(0, 4))), bytes.skip(4)))
        }
    }

    fn deserialize(src: &mut &[u8]) -> (r: Result<Self, Error>) {
        match src.read(4) {
            Ok(buf) => {
                let n = u32_from_le_bytes(buf.as_slice());
                proof {
                    assert(src@ =~= old(src)@.skip(4));
                }
                Ok(u32_as_i32(n))
            },
            Err(_) => Err(Error::Read(read::Error::Eof)),
        }
    }

    proof fn lemma_round_trip(v: Self, rest: Seq<u8>) {
        lemma_auto_spec_u32_to_from_le_bytes();
        let bytes = v.spec_serialize() + rest;
        assert(bytes.subrange(0, 4) =~= v.spec_serialize());
        assert(bytes.skip(4) =~= rest);
    }
}

impl Deserialize for i64 {
    type Model = i64;

    open spec fn model(&self) -> i64 {
        *self
    }

    open spec fn spec_deserialize(bytes: Seq<u8>) -> Result<(i64, Seq<u8>), Error> {
        if bytes.len() < 8 {
            Err(Error::Read(read::Error::Eof))
        } else {
            Ok((i64_of_u64(spec_u64_from_le_bytes(bytes.subrange(0, 8))), bytes.skip(8)))
        }
    }

    fn deserialize(src: &mut &[u8]) -> (r: Result<Self, Error>) {
        match src.read(8) {
            Ok(buf) => {
                let n = u64_from_le_bytes(buf.as_slice());
                proof {
                    assert(src@ =~= old(src)@.skip(8));
                }
                Ok(u64_as_i64(n))
            },
            Err(_) => Err(Error::Read(read::Error::Eof)),
        }
    }

    proof fn lemma_round_trip(v: Self, rest: Seq<u8>) {
        lemma_auto_spec_u64_to_from_le_bytes();
        let bytes = v.spec_serialize() + rest;
        assert(bytes.subrange(0, 8) =~= v.spec_serialize());
        assert(bytes.skip(8) =~= rest);
    }
}

impl Deserialize for bool {
    type Model = bool;

    open spec fn model(&self) -> bool {
        *self
    }

    /// A boolean decodes by comparing its byte with 1: the byte 0x01 is true
    /// and every other byte is false.
    open spec fn spec_deserialize(bytes: Seq<u8>) -> Result<(bool, Seq<u8>), Error> {
        if bytes.len() < 1 {
            Err(Error::Read(read::Error::Eof))
        } else {
            Ok((bytes[0] == 1, bytes.skip(1)))
        }
    }

    fn deserialize(src: &mut &[u8]) -> (r: Result<Self, Error>) {
        match u8::deserialize(src) {
            Ok(b) => Ok(b == 1),
            Err(e) => Err(e),
        }
    }

    proof fn lemma_round_trip(v: Self, rest: Seq<u8>) {
        assert((v.spec_serialize() + rest)[0] == if v {
            1u8
        } else {
            0u8
        });
        assert((v.spec_serialize() + rest).skip(1) =~= rest);
    }
}

impl Deserialize for Float64 {
    type Model = Float64;

    open spec fn model(&self) -> Float64 {
        *self
    }

    open spec fn spec_deserialize(bytes: Seq<u8>) -> Result<(Float64, Seq<u8>), Error> {
        if bytes.len() < 8 {
            Err(Error::Read(read::Error::Eof))
        } else {
            Ok(
                (
                    Float64 { bits: spec_u64_from_le_bytes(bytes.subrange(0, 8)) },
                    bytes.skip(8),
                ),
            )
        }
    }

    fn deserialize(src: &mut &[u8]) -> (r: Result<Self, Error>) {
        match src.read(8) {
            Ok(buf) => {
                let n = u64_from_le_bytes(buf.as_slice());
                proof {
                    assert(src@ =~= old(src)@.skip(8));
                }
                Ok(Float64 { bits: n })
            },
            Err(_) => Err(Error::Read(read::Error::Eof)),
        }
    }

    proof fn lemma_round_trip(v: Self, rest: Seq<u8>) {
        lemma_auto_spec_u64_to_from_le_bytes();
        let bytes = v.spec_serialize() + rest;
        assert(bytes.subrange(0, 8) =~= v.spec_serialize());
        assert(bytes.skip(8) =~= rest);
    }
}

impl Deserialize for Time {
    type Model = Time;

    open spec fn model(&self) -> Time {
        *self
    }

    open spec fn spec_deserialize(bytes: Seq<u8>) -> Result<(Time, Seq<u8>), Error> {
        if bytes.len() < 8 {
            Err(Error::Read(read::Error::Eof))
        } else {
            Ok(
                (
                    Time { millis: i64_of_u64(spec_u64_from_le_bytes(bytes.subrange(0, 8))) },
                    bytes.skip(8),
                ),
            )
        }
    }

    fn deserialize(src: &mut &[u8]) -> (r: Result<Self, Error>) {
        match src.read(8) {
            Ok(buf) => {
                let n = u64_from_le_bytes(buf.as_slice());
                proof {
                    assert(src@ =~= old(src)@.skip(8));
                }
                Ok(Time { millis: u64_as_i64(n) })
            },
            Err(_) => Err(Error::Read(read::Error::Eof)),
        }
    }

    proof fn lemma_round_trip(v: Self, rest: Seq<u8>) {
        lemma_auto_spec_u64_to_from_le_bytes();
        let bytes = v.spec_serialize() + rest;
        assert(bytes.subrange(0, 8) =~= v.spec_serialize());
        assert(bytes.skip(8) =~= rest);
    }
}

impl Deserialize for String {
    type Model = Seq<char>;

    open spec fn model(&self) -> Seq<char> {
        self@
    }

    open spec fn spec_deserialize(bytes: Seq<u8>) -> Result<(Seq<char>, Seq<u8>), Error> {
        match Vec::<u8>::spec_deserialize(bytes) {
            Ok((bs, rest)) => if valid_utf8(bs) {
                Ok((decode_utf8(bs), rest))
            } else {
                Err(Error::InvalidString)
            },
            Err(e) => Err(e),
        }
    }

    fn deserialize(src: &mut &[u8]) -> (r: Result<Self, Error>) {
        let buf = match Vec::<u8>::deserialize(src) {
            Ok(buf) => buf,
            Err(e) => {
                return Err(e);
            },
        };
        proof {
            assert(buf@.map_values(|x: u8| x.model()) =~= buf@);
        }
        match string_from_utf8(buf) {
            Some(s) => {
                proof {
                    encode_utf8_decode_utf8(s@);
                }
                Ok(s)
            },
            None => Err(Error::InvalidString),
        }
    }

    proof fn lemma_round_trip(v: Self, rest: Seq<u8>) {
        let bs = encode_utf8(v@);
        assert(v.spec_serialize().len() == spec_dyn_len(bs.len()).len() + bs.len());
        lemma_dyn_len_boundary(bs.len());
        assert(bs.len() <= usize::MAX - 9) by {
            if bs.len() < 255 {
            } else {
            }
        }
        lemma_serialize_elems_u8(bs);
        assert(v.spec_serialize() + rest =~= (spec_dyn_len(bs.len()) + spec_serialize_elems(bs))
            + rest);
        lemma_vec_u8_round_trip_helper(bs, rest);
        encode_utf8_valid_utf8(v@);
        encode_utf8_decode_utf8(v@);
    }
}

/// Relies on `String::from_utf8`: it returns the string whose UTF-8 encoding
/// is exactly the given bytes, and fails precisely when those bytes are not
/// valid UTF-8.
#[verifier::external_body]
fn string_from_utf8(buf: Vec<u8>) -> (r: Option<String>)
    ensures
        match r {
            Some(s) => valid_utf8(buf@) && encode_utf8(s@) == buf@,
            None => !valid_utf8(buf@),
        },
{
    String::from_utf8(buf).ok()
}

/// A vector of bytes decodes from its length-prefixed raw encoding.
proof fn lemma_vec_u8_round_trip_helper(bs: Seq<u8>, rest: Seq<u8>)
    requires
        bs.len() <= usize::MAX - 9,
    ensures
        Vec::<u8>::spec_deserialize((spec_dyn_len(bs.len()) + spec_serialize_elems(bs)) + rest)
            == Ok::<(Seq<u8>, Seq<u8>), Error>((bs, rest)),
{
    lemma_dyn_len_round_trip(bs.len(), spec_serialize_elems(bs) + rest);
    assert((spec_dyn_len(bs.len()) + spec_serialize_elems(bs)) + rest =~= spec_dyn_len(bs.len())
        + (spec_serialize_elems(bs) + rest));
    lemma_serialize_elems_u8(bs);
    lemma_elems_round_trip_u8(bs, rest);
}

/// Element-sequence round trip specialised to bytes.
proof fn lemma_elems_round_trip_u8(bs: Seq<u8>, rest: Seq<u8>)
    requires
        bs.len() <= usize::MAX,
    ensures
        spec_deserialize_elems::<u8>(bs + rest, bs.len()) == Ok::<(Seq<u8>, Seq<u8>), Error>(
            (bs, rest),
        ),
{
    lemma_serialize_elems_u8(bs);
    lemma_elems_round_trip::<u8>(bs, rest);
    assert(bs.map_values(|x: u8| x.model()) =~= bs);
}

impl<T: Deserialize> Deserialize for Vec<T> {
    type Model = Seq<T::Model>;

    open spec fn model(&self) -> Seq<T::Model> {
        self@.map_values(|x: T| x.model())
    }

    open spec fn spec_deserialize(bytes: Seq<u8>) -> Result<(Seq<T::Model>, Seq<u8>), Error> {
        match spec_deserialize_dyn_len(bytes) {
            Ok((n, rest)) => spec_deserialize_elems::<T>(rest, n as nat),
            Err(e) => Err(e),
        }
    }

    fn deserialize(src: &mut &[u8]) -> (r: Result<Self, Error>) {
        let len = match deserialize_dyn_len(src) {
            Ok(len) => len,
            Err(e) => {
                return Err(e);
            },
        };
        let ghost start = src@;
        let mut out: Vec<T> = Vec::new();
        let mut i: u64 = 0;
        while i < len
            invariant
                i <= len,
                out@.len() == i,
                spec_deserialize_elems::<T>(start, len as nat) == (match spec_deserialize_elems::<
                    T,
                >(src@, (len - i) as nat) {
                    Ok((vs, rest)) => Ok::<(Seq<T::Model>, Seq<u8>), Error>(
                        (out@.map_values(|x: T| x.model()) + vs, rest),
                    ),
                    Err(e) => Err::<(Seq<T::Model>, Seq<u8>), Error>(e),
                }),
                Self::spec_deserialize(old(src)@) == (match spec_deserialize_elems::<T>(
                    start,
                    len as nat,
                ) {
                    Ok((vs, rest)) => Ok::<(Seq<T::Model>, Seq<u8>), Error>((vs, rest)),
                    Err(e) => Err::<(Seq<T::Model>, Seq<u8>), Error>(e),
                }),
            decreases len - i,
        {
            let ghost before = src@;
            let ghost out_models = out@.map_values(|x: T| x.model());
            let v = match T::deserialize(src) {
                Ok(v) => v,
                Err(e) => {
                    return Err(e);
                },
            };
            proof {
                let (vm, rest) = T::spec_deserialize(before).unwrap();
                assert(vm == v.model());
                let tail_models = out@.push(v).map_values(|x: T| x.model());
                assert(tail_models =~= out_models.push(v.model()));
                match spec_deserialize_elems::<T>(src@, (len - i - 1) as nat) {
                    Ok((vs, r2)) => {
                        assert(out_models + (seq![v.model()] + vs) =~= out_models.push(v.model())
                            + vs);
                    },
                    Err(_) => {},
                }
            }
            out.push(v);
            i = i + 1;
        }
        proof {
            assert(spec_deserialize_elems::<T>(src@, 0) == Ok::<(Seq<T::Model>, Seq<u8>), Error>(
                (Seq::empty(), src@),
            ));
            assert(out@.map_values(|x: T| x.model()) + Seq::<T::Model>::empty()
                =~= out@.map_values(|x: T| x.model()));
        }
        Ok(out)
    }

    proof fn lemma_round_trip(v: Self, rest: Seq<u8>) {
        let s = v@;
        vstd::std_specs::vec::axiom_spec_len(&v);
        assert(s.len() <= u64::MAX);
        assert(v.spec_serialize() + rest =~= spec_dyn_len(s.len()) + (spec_serialize_elems(s)
            + rest));
        lemma_dyn_len_round_trip(s.len(), spec_serialize_elems(s) + rest);
        assert(spec_serialize_elems(s).len() <= usize::MAX);
        lemma_elems_round_trip::<T>(s, rest);
    }
}

impl<T: Deserialize> Deserialize for Option<T> {
    type Model = Option<T::Model>;

    open spec fn model(&self) -> Option<T::Model> {
        match self {
            Some(v) => Some(v.model()),
            None => None,
        }
    }

    open spec fn spec_deserialize(bytes: Seq<u8>) -> Result<(Option<T::Model>, Seq<u8>), Error> {
        match bool::spec_deserialize(bytes) {
            Ok((present, rest)) => if present {
                match T::spec_deserialize(rest) {
                    Ok((v, rest2)) => Ok((Some(v), rest2)),
                    Err(e) => Err(e),
                }
            } else {
                Ok((None, rest))
            },
            Err(e) => Err(e),
        }
    }

    fn deserialize(src: &mut &[u8]) -> (r: Result<Self, Error>) {
        let present = match bool::deserialize(src) {
            Ok(b) => b,
            Err(e) => {
                return Err(e);
            },
        };
        if present {
            match T::deserialize(src) {
                Ok(v) => Ok(Some(v)),
                Err(e) => Err(e),
            }
        } else {
            Ok(None)
        }
    }

    proof fn lemma_round_trip(v: Self, rest: Seq<u8>) {
        match v {
            Some(inner) => {
                assert(v.spec_serialize() + rest =~= seq![1u8] + (inner.spec_serialize() + rest));
                assert((seq![1u8] + (inner.spec_serialize() + rest))[0] == 1u8);
                assert((seq![1u8] + (inner.spec_serialize() + rest)).skip(1)
                    =~= inner.spec_serialize() + rest);
                T::lemma_round_trip(inner, rest);
            },
            None => {
                assert((v.spec_serialize() + rest)[0] == 0u8);
                assert((v.spec_serialize() + rest).skip(1) =~= rest);
            },
        }
    }
}

impl<T: Deserialize, E: Deserialize> Deserialize for Result<T, E> {
    type Model = Result<T::Model, E::Model>;

    open spec fn model(&self) -> Result<T::Model, E::Model> {
        match self {
            Ok(v) => Ok(v.model()),
            Err(e) => Err(e.model()),
        }
    }

    open spec fn spec_deserialize(bytes: Seq<u8>) -> Result<
        (Result<T::Model, E::Model>, Seq<u8>),
        Error,
    > {
        match bool::spec_deserialize(bytes) {
            Ok((is_ok, rest)) => if is_ok {
                match T::spec_deserialize(rest) {
                    Ok((v, rest2)) => Ok((Ok(v), rest2)),
                    Err(e) => Err(e),
                }
            } else {
                match E::spec_deserialize(rest) {
                    Ok((v, rest2)) => Ok((Err(v), rest2)),
                    Err(e) => Err(e),
                }
            },
            Err(e) => Err(e),
        }
    }

    fn deserialize(src: &mut &[u8]) -> (r: Result<Self, Error>) {
        let is_ok = match bool::deserialize(src) {
            Ok(b) => b,
            Err(e) => {
                return Err(e);
            },
        };
        if is_ok {
            match T::deserialize(src) {
                Ok(v) => Ok(Ok(v)),
                Err(e) => Err(e),
            }
        } else {
            match E::deserialize(src) {
                Ok(v) => Ok(Err(v)),
                Err(e) => Err(e),
            }
        }
    }

    proof fn lemma_round_trip(v: Self, rest: Seq<u8>) {
        match v {
            Ok(inner) => {
                assert(v.spec_serialize() + rest =~= seq![1u8] + (inner.spec_serialize() + rest));
                assert((seq![1u8] + (inner.spec_serialize() + rest))[0] == 1u8);
                assert((seq![1u8] + (inner.spec_serialize() + rest)).skip(1)
                    =~= inner.spec_serialize() + rest);
                T::lemma_round_trip(inner, rest);
            },
            Err(inner) => {
                assert(v.spec_serialize() + rest =~= seq![0u8] + (inner.spec_serialize() + rest));
                assert((seq![0u8] + (inner.spec_serialize() + rest))[0] == 0u8);
                assert((seq![0u8] + (inner.spec_serialize() + rest)).skip(1)
                    =~= inner.spec_serialize() + rest);
                E::lemma_round_trip(inner, rest);
            },
        }
    }
}

// ---------------------------------------------------------------------------
// Executable two's-complement reinterpretations (decode direction).
// ---------------------------------------------------------------------------

/// The signed 32-bit value represented by a two's-complement pattern.
pub fn u32_as_i32(u: u32) -> (x: i32)
    ensures
        x == i32_of_u32(u),
{
    if u < 0x8000_0000 {
        u as i32
    } else {
        ((u as i64) - 0x1_0000_0000i64) as i32
    }
}

/// The signed 64-bit value represented by a two's-complement pattern.
pub fn u64_as_i64(u: u64) -> (x: i64)
    ensures
        x == i64_of_u64(u),
{
    if u < 0x8000_0000_0000_0000 {
        u as i64
    } else {
        ((u as i128) - 0x1_0000_0000_0000_0000i128) as i64
    }
}

} // verus!
