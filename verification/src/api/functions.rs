//! The callable function definitions of the demonstration schema.

use crate::api::get_users_line;
use crate::call::Call;
use crate::deserialize::{spec_deserialize_dyn_len, spec_deserialize_elems, Deserialize, Error};
use crate::identify::spec_definition_id;
use crate::serialize::Serialize;
use vstd::bytes::spec_u32_to_le_bytes;
use vstd::prelude::*;

verus! {

/// The request shape of the `get_users` call: its identity followed by its
/// single field on the wire.
#[derive(Debug, Clone, PartialEq)]
pub struct GetUsers {
    pub user_ids: Vec<i64>,
}

/// The mathematical shape of a `GetUsers` request.
#[verifier::ext_equal]
pub struct GetUsersV {
    pub user_ids: Seq<i64>,
}

impl Serialize for GetUsers {
    open spec fn spec_serialize(&self) -> Seq<u8> {
        spec_u32_to_le_bytes(spec_definition_id(get_users_line()))
            + self.user_ids.spec_serialize()
    }

    fn serialize(&self, dst: &mut Vec<u8>) {
        crate::api::get_users_definition_id().serialize(dst);
        self.user_ids.serialize(dst);
        proof {
            assert(dst@ =~= old(dst)@ + self.spec_serialize());
        }
    }
}

impl Deserialize for GetUsers {
    type Model = GetUsersV;

    open spec fn model(&self) -> GetUsersV {
        GetUsersV { user_ids: self.user_ids@ }
    }

    open spec fn spec_deserialize(bytes: Seq<u8>) -> Result<(GetUsersV, Seq<u8>), Error> {
        match u32::spec_deserialize(bytes) {
            Ok((tag, r1)) => if tag == spec_definition_id(get_users_line()) {
                match Vec::<i64>::spec_deserialize(r1) {
                    Ok((ids, r2)) => Ok((GetUsersV { user_ids: ids }, r2)),
                    Err(e) => Err(e),
                }
            } else {
                Err(Error::UnexpectedDefinitionId(tag))
            },
            Err(e) => Err(e),
        }
    }

    fn deserialize(src: &mut &[u8]) -> (r: Result<Self, Error>) {
        let tag = match u32::deserialize(src) {
            Ok(t) => t,
            Err(e) => {
                return Err(e);
            },
        };
        if tag != crate::api::get_users_definition_id() {
            return Err(Error::UnexpectedDefinitionId(tag));
        }
        let user_ids = match Vec::<i64>::deserialize(src) {
            Ok(v) => v,
            Err(e) => {
                return Err(e);
            },
        };
        proof {
            assert(GetUsersV { user_ids: user_ids@ } =~= GetUsersV {
                user_ids: user_ids@.map_values(|x: i64| x.model()),
            });
        }
        Ok(GetUsers { user_ids })
    }

    proof fn lemma_round_trip(v: Self, rest: Seq<u8>) {
        let tag: u32 = spec_definition_id(get_users_line());
        let t1 = v.user_ids.spec_serialize() + rest;
        assert(v.spec_serialize() + rest =~= tag.spec_serialize() + t1);
        u32::lemma_round_trip(tag, t1);
        Vec::<i64>::lemma_round_trip(v.user_ids, rest);
        assert(GetUsersV { user_ids: v.user_ids@.map_values(|x: i64| x.model()) } =~= v.model());
    }
}

impl Call for GetUsers {
    type Return = Vec<crate::api::types::User>;
}

} // verus!
