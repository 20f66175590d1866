//! A worked client/server exchange over the demonstration schema: the server
//! handler, the response path that dispatches a serialized request, and the
//! client call path that round-trips a request and its typed response. Each
//! step carries an exact contract, so the whole cycle is verified end to end.

use crate::api::{self, Function, FunctionV};
use crate::api::functions::GetUsers;
use crate::api::types::User;
use crate::call::Call;
use crate::deserialize;
use crate::deserialize::Deserialize;
use crate::serialize::{spec_dyn_len, spec_serialize_elems, Serialize};
use crate::values::Float64;
use vstd::prelude::*;

verus! {

/// The rating every returned user record carries: the IEEE-754 bit pattern
/// of 0.74.
pub const RATING_BITS: u64 = 0x3fe7ae147ae147ae;

/// The user id the handler rejects.
pub const REJECTED_USER_ID: i64 = 666;

/// What the server handler computes: a request naming the rejected user id
/// fails with `InvalidUserId`; any other request echoes one verified record
/// per requested id, carrying the fixed rating.
pub open spec fn spec_get_users(ids: Seq<i64>) -> Result<Seq<User>, api::Error> {
    if ids.contains(REJECTED_USER_ID) {
        Err(api::Error::InvalidUserId { user_id: REJECTED_USER_ID })
    } else {
        Ok(
            ids.map_values(
                |id: i64| User::User { id, verified: true, rating: Float64 { bits: RATING_BITS } },
            ),
        )
    }
}

/// Whether the vector holds the value.
fn contains_i64(v: &Vec<i64>, x: i64) -> (b: bool)
    ensures
        b == v@.contains(x),
{
    let mut i: usize = 0;
    let n = v.len();
    while i < n
        invariant
            i <= n == v@.len(),
            forall|j: int| 0 <= j < i ==> v@[j] != x,
        decreases n - i,
    {
        if v[i] == x {
            return true;
        }
        i = i + 1;
    }
    false
}

/// The server handler for `get_users`.
#[verifier::loop_isolation(false)]
pub fn get_users(func: GetUsers) -> (r: Result<Vec<User>, api::Error>)
    ensures
        match r {
            Ok(users) => spec_get_users(func.user_ids@) == Ok::<Seq<User>, api::Error>(users@),
            Err(e) => spec_get_users(func.user_ids@) == Err::<Seq<User>, api::Error>(e),
        },
{
    if contains_i64(&func.user_ids, REJECTED_USER_ID) {
        return Err(api::Error::InvalidUserId { user_id: REJECTED_USER_ID });
    }
    let ghost target = func.user_ids@.map_values(
        |id: i64| User::User { id, verified: true, rating: Float64 { bits: RATING_BITS } },
    );
    let mut users: Vec<User> = Vec::new();
    let mut i: usize = 0;
    let n = func.user_ids.len();
    proof {
        assert(users@ =~= target.take(0));
    }
    while i < n
        invariant
            i <= n == func.user_ids@.len(),
            users@ == target.take(i as int),
        decreases n - i,
    {
        users.push(
            User::User {
                id: func.user_ids[i],
                verified: true,
                rating: Float64::from_bits(RATING_BITS),
            },
        );
        i = i + 1;
        proof {
            assert(users@ =~= target.take(i as int));
        }
    }
    proof {
        assert(target.take(n as int) =~= target);
    }
    Ok(users)
}

/// What the response path produces for a request: the request decoded
/// through the function union, handled, and the typed result serialized back.
pub open spec fn spec_respond(request: Seq<u8>) -> Result<Seq<u8>, deserialize::Error> {
    match Function::spec_deserialize(request) {
        Ok(p) => match p.0 {
            FunctionV::GetUsers(g) => Ok(
                match spec_get_users(g.user_ids) {
                    Ok(users) => seq![1u8] + (spec_dyn_len(users.len()) + spec_serialize_elems(
                        users,
                    )),
                    Err(e) => seq![0u8] + e.spec_serialize(),
                },
            ),
        },
        Err(e) => Err(e),
    }
}

/// The server's response path: decode the request through the function
/// union, dispatch to the handler, serialize the result.
pub fn respond(request: &[u8]) -> (r: Result<Vec<u8>, deserialize::Error>)
    ensures
        match r {
            Ok(bytes) => spec_respond(request@) == Ok::<Seq<u8>, deserialize::Error>(bytes@),
            Err(e) => spec_respond(request@) == Err::<Seq<u8>, deserialize::Error>(e),
        },
{
    let func = match Function::from_bytes(request) {
        Ok(f) => f,
        Err(e) => {
            return Err(e);
        },
    };
    match func {
        Function::GetUsers(f) => {
            let ghost idsv = f.user_ids@;
            let result = get_users(f);
            let bytes = result.to_bytes();
            proof {
                match result {
                    Ok(users) => {
                        assert(bytes@ =~= seq![1u8] + (spec_dyn_len(users@.len())
                            + spec_serialize_elems(users@)));
                    },
                    Err(e) => {
                        assert(bytes@ =~= seq![0u8] + e.spec_serialize());
                    },
                }
            }
            Ok(bytes)
        },
    }
}

/// The client's call path: serialize the request, hand it to the response
/// path, and decode the typed result the callable's return type dictates.
pub fn call<F: Serialize + Call>(func: &F) -> (r: Result<
    Result<F::Return, api::Error>,
    deserialize::Error,
>)
    ensures
        match spec_respond(func.spec_serialize()) {
            Ok(bytes) => match Result::<F::Return, api::Error>::spec_deserialize(bytes) {
                Ok(p) => r matches Ok(v) && v.model() == p.0,
                Err(e) => r == Err::<Result<F::Return, api::Error>, deserialize::Error>(e),
            },
            Err(e) => r == Err::<Result<F::Return, api::Error>, deserialize::Error>(e),
        },
{
    let request = func.to_bytes();
    let response = match respond(request.as_slice()) {
        Ok(b) => b,
        Err(e) => {
            return Err(e);
        },
    };
    match Result::<F::Return, api::Error>::from_bytes(response.as_slice()) {
        Ok(v) => Ok(v),
        Err(e) => Err(e),
    }
}

} // verus!
