//! The variant-group unions of the demonstration schema.

use crate::api::user_line;
use crate::deserialize::{Deserialize, Error};
use crate::identify::spec_definition_id;
use crate::serialize::Serialize;
use crate::values::Float64;
use vstd::bytes::spec_u32_to_le_bytes;
use vstd::prelude::*;

verus! {

/// The `User` variant group: one tagged union with one variant per member
/// definition. On the wire a value carries its variant's 4-byte identity
/// followed by the variant's fields in declaration order.
#[derive(Debug, Clone, PartialEq)]
pub enum User {
    User { id: i64, verified: bool, rating: Float64 },
}

impl Serialize for User {
    open spec fn spec_serialize(&self) -> Seq<u8> {
        match self {
            User::User { id, verified, rating } => spec_u32_to_le_bytes(
                spec_definition_id(user_line()),
            ) + id.spec_serialize() + verified.spec_serialize() + rating.spec_serialize(),
        }
    }

    fn serialize(&self, dst: &mut Vec<u8>) {
        match self {
            User::User { id, verified, rating } => {
                crate::api::user_definition_id().serialize(dst);
                id.serialize(dst);
                verified.serialize(dst);
                rating.serialize(dst);
                proof {
                    assert(dst@ =~= old(dst)@ + self.spec_serialize());
                }
            },
        }
    }
}

impl Deserialize for User {
    type Model = User;

    open spec fn model(&self) -> User {
        *self
    }

    open spec fn spec_deserialize(bytes: Seq<u8>) -> Result<(User, Seq<u8>), Error> {
        match u32::spec_deserialize(bytes) {
            Ok((tag, r1)) => if tag == spec_definition_id(user_line()) {
                match i64::spec_deserialize(r1) {
                    Ok((id, r2)) => match bool::spec_deserialize(r2) {
                        Ok((verified, r3)) => match Float64::spec_deserialize(r3) {
                            Ok((rating, r4)) => Ok((User::User { id, verified, rating }, r4)),
                            Err(e) => Err(e),
                        },
                        Err(e) => Err(e),
                    },
                    Err(e) => Err(e),
                }
            } else {
                Err(Error::UnexpectedDefinitionId(tag))
            },
            Err(e) => Err(e),
        }
    }

    fn deserialize(src: &mut &[u8]) -> (r: Result<Self, Error>) {
        let tag = match u32::deserialize(src) {
            Ok(t) => t,
            Err(e) => {
                return Err(e);
            },
        };
        if tag != crate::api::user_definition_id() {
            return Err(Error::UnexpectedDefinitionId(tag));
        }
        let id = match i64::deserialize(src) {
            Ok(v) => v,
            Err(e) => {
                return Err(e);
            },
        };
        let verified = match bool::deserialize(src) {
            Ok(v) => v,
            Err(e) => {
                return Err(e);
            },
        };
        let rating = match Float64::deserialize(src) {
            Ok(v) => v,
            Err(e) => {
                return Err(e);
            },
        };
        Ok(User::User { id, verified, rating })
    }

    proof fn lemma_round_trip(v: Self, rest: Seq<u8>) {
        match v {
            User::User { id, verified, rating } => {
                let tag: u32 = spec_definition_id(user_line());
                let t3 = rating.spec_serialize() + rest;
                let t2 = verified.spec_serialize() + t3;
                let t1 = id.spec_serialize() + t2;
                assert(v.spec_serialize() + rest =~= tag.spec_serialize() + t1);
                u32::lemma_round_trip(tag, t1);
                i64::lemma_round_trip(id, t2);
                bool::lemma_round_trip(verified, t3);
                Float64::lemma_round_trip(rating, rest);
            },
        }
    }
}

} // verus!
