//! A worked schema, realized the way the code generator lays definitions out:
//! a variant-group union, an error union, a function union, and a callable
//! request shape, each carrying the identity derived from its own definition
//! line. The schema reads:
//!
//! ```text
//! type User id:int64 verified:bool rating:float = User
//! error InvalidUserId user_id:int64
//! func get_users user_ids:[int64] = [User]
//! ```

pub mod functions;
pub mod types;

use crate::deserialize::Deserialize;
use crate::identify::{compute_definition_id, spec_definition_id};
use crate::serialize::Serialize;
use vstd::bytes::spec_u32_to_le_bytes;
use vstd::prelude::*;

verus! {

/// The raw definition line of the `User` type.
pub open spec fn user_line() -> Seq<char> {
    "type User id:int64 verified:bool rating:float = User"@
}

/// The raw definition line of the `InvalidUserId` error.
pub open spec fn invalid_user_id_line() -> Seq<char> {
    "error InvalidUserId user_id:int64"@
}

/// The raw definition line of the `get_users` function.
pub open spec fn get_users_line() -> Seq<char> {
    "func get_users user_ids:[int64] = [User]"@
}

/// The wire identity of the `User` definition.
pub fn user_definition_id() -> (r: u32)
    ensures
        r == spec_definition_id(user_line()),
{
    compute_definition_id("type User id:int64 verified:bool rating:float = User")
}

/// The wire identity of the `InvalidUserId` definition.
pub fn invalid_user_id_definition_id() -> (r: u32)
    ensures
        r == spec_definition_id(invalid_user_id_line()),
{
    compute_definition_id("error InvalidUserId user_id:int64")
}

/// The wire identity of the `get_users` definition.
pub fn get_users_definition_id() -> (r: u32)
    ensures
        r == spec_definition_id(get_users_line()),
{
    compute_definition_id("func get_users user_ids:[int64] = [User]")
}

/// The error union of the schema: one variant per declared error definition.
#[derive(Debug, Clone, PartialEq)]
pub enum Error {
    InvalidUserId { user_id: i64 },
}

impl Serialize for Error {
    open spec fn spec_serialize(&self) -> Seq<u8> {
        match self {
            Error::InvalidUserId { user_id } => spec_u32_to_le_bytes(
                spec_definition_id(invalid_user_id_line()),
            ) + user_id.spec_serialize(),
        }
    }

    fn serialize(&self, dst: &mut Vec<u8>) {
        match self {
            Error::InvalidUserId { user_id } => {
                invalid_user_id_definition_id().serialize(dst);
                user_id.serialize(dst);
                proof {
                    assert(dst@ =~= old(dst)@ + self.spec_serialize());
                }
            },
        }
    }
}

impl Deserialize for Error {
    type Model = Error;

    open spec fn model(&self) -> Error {
        *self
    }

    open spec fn spec_deserialize(bytes: Seq<u8>) -> Result<
        (Error, Seq<u8>),
        crate::deserialize::Error,
    > {
        match u32::spec_deserialize(bytes) {
            Ok((tag, r1)) => if tag == spec_definition_id(invalid_user_id_line()) {
                match i64::spec_deserialize(r1) {
                    Ok((user_id, r2)) => Ok((Error::InvalidUserId { user_id }, r2)),
                    Err(e) => Err(e),
                }
            } else {
                Err(crate::deserialize::Error::UnexpectedDefinitionId(tag))
            },
            Err(e) => Err(e),
        }
    }

    fn deserialize(src: &mut &[u8]) -> (r: Result<Self, crate::deserialize::Error>) {
        let tag = match u32::deserialize(src) {
            Ok(t) => t,
            Err(e) => {
                return Err(e);
            },
        };
        if tag != invalid_user_id_definition_id() {
            return Err(crate::deserialize::Error::UnexpectedDefinitionId(tag));
        }
        let user_id = match i64::deserialize(src) {
            Ok(v) => v,
            Err(e) => {
                return Err(e);
            },
        };
        Ok(Error::InvalidUserId { user_id })
    }

    proof fn lemma_round_trip(v: Self, rest: Seq<u8>) {
        match v {
            Error::InvalidUserId { user_id } => {
                let tag: u32 = spec_definition_id(invalid_user_id_line());
                let t1 = user_id.spec_serialize() + rest;
                assert(v.spec_serialize() + rest =~= tag.spec_serialize() + t1);
                u32::lemma_round_trip(tag, t1);
                i64::lemma_round_trip(user_id, rest);
            },
        }
    }
}

/// The function union of the schema: one variant per declared function. A
/// value serializes as its active variant, identity included; deserializing
/// reads the leading identity, dispatches on it, and rejects identities that
/// match no variant.
#[derive(Debug, Clone, PartialEq)]
pub enum Function {
    GetUsers(functions::GetUsers),
}

/// The mathematical shape of a function-union value.
pub enum FunctionV {
    GetUsers(functions::GetUsersV),
}

impl Serialize for Function {
    open spec fn spec_serialize(&self) -> Seq<u8> {
        match self {
            Function::GetUsers(f) => f.spec_serialize(),
        }
    }

    fn serialize(&self, dst: &mut Vec<u8>) {
        match self {
            Function::GetUsers(f) => f.serialize(dst),
        }
    }
}

impl Deserialize for Function {
    type Model = FunctionV;

    open spec fn model(&self) -> FunctionV {
        match self {
            Function::GetUsers(f) => FunctionV::GetUsers(f.model()),
        }
    }

    open spec fn spec_deserialize(bytes: Seq<u8>) -> Result<
        (FunctionV, Seq<u8>),
        crate::deserialize::Error,
    > {
        match functions::GetUsers::spec_deserialize(bytes) {
            Ok((f, rest)) => Ok((FunctionV::GetUsers(f), rest)),
            Err(e) => Err(e),
        }
    }

    fn deserialize(src: &mut &[u8]) -> (r: Result<Self, crate::deserialize::Error>) {
        match functions::GetUsers::deserialize(src) {
            Ok(f) => Ok(Function::GetUsers(f)),
            Err(e) => Err(e),
        }
    }

    proof fn lemma_round_trip(v: Self, rest: Seq<u8>) {
        match v {
            Function::GetUsers(f) => {
                functions::GetUsers::lemma_round_trip(f, rest);
            },
        }
    }
}

/// Law: dispatch by identity is exhaustive. Reading the function union from
/// bytes whose leading identity matches no declared function fails with
/// exactly that identity; a short prefix fails with the read error.
pub proof fn lemma_function_unknown_id(bytes: Seq<u8>)
    ensures
        match u32::spec_deserialize(bytes) {
            Ok(p) => p.0 != spec_definition_id(get_users_line())
                ==> Function::spec_deserialize(bytes) == Err::<
                (FunctionV, Seq<u8>),
                crate::deserialize::Error,
            >(crate::deserialize::Error::UnexpectedDefinitionId(p.0)),
            Err(e) => Function::spec_deserialize(bytes) == Err::<
                (FunctionV, Seq<u8>),
                crate::deserialize::Error,
            >(e),
        },
{
}

} // verus!
