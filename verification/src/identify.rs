//! Definition identity: every schema definition gets a stable 32-bit tag
//! derived from a cryptographic digest of its raw line text, so byte-identical
//! declarations always carry the same wire identifier.

use vstd::bytes::{spec_u32_from_le_bytes, u32_from_le_bytes};
use vstd::prelude::*;
use vstd::slice::slice_subrange;
use vstd::utf8::encode_utf8;

verus! {

/// What SHA3-256 returns, as a function of the input bytes alone.
pub uninterp spec fn sha3_256_of(bytes: Seq<u8>) -> Seq<u8>;

/// Relies on `aws_lc_rs::digest::digest` with the SHA3-256 algorithm: a
/// 32-byte digest that is a pure function of the input bytes.
#[verifier::external_body]
pub(crate) fn sha3_256(data: &[u8]) -> (r: Vec<u8>)
    ensures
        r@ == sha3_256_of(data@),
        r@.len() == 32,
{
    aws_lc_rs::digest::digest(&aws_lc_rs::digest::SHA3_256, data).as_ref().to_vec()
}

/// The identity of a definition line: the first four bytes of the SHA3-256
/// digest of the line's UTF-8 text, read as a little-endian 32-bit integer.
pub open spec fn spec_definition_id(line: Seq<char>) -> u32 {
    spec_u32_from_le_bytes(sha3_256_of(encode_utf8(line)).subrange(0, 4))
}

/// Compute the identity of one raw definition line.
pub fn compute_definition_id(def: &str) -> (id: u32)
    ensures
        id == spec_definition_id(def@),
{
    let digest = sha3_256(def.as_bytes());
    let first = slice_subrange(digest.as_slice(), 0, 4);
    u32_from_le_bytes(first)
}

} // verus!
