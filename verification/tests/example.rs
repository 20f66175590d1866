use tl::api;
use tl::api::functions::GetUsers;
use tl::api::types::User;
use tl::example::call;
use tl::{Deserialize, Float64, Serialize};

#[test]
fn example() -> Result<(), tl::deserialize::Error> {
    assert_eq!(
        call(&GetUsers { user_ids: vec![1] })?,
        Ok(vec![User::User {
            id: 1,
            verified: true,
            rating: Float64::from_bits(0.74_f64.to_bits()),
        }])
    );

    assert_eq!(
        call(&GetUsers { user_ids: vec![666] })?,
        Err(api::Error::InvalidUserId { user_id: 666 })
    );

    Ok(())
}

#[test]
fn main_it_works() -> Result<(), tl::deserialize::Error> {
    assert_eq!(
        call(&GetUsers { user_ids: vec![1] })?,
        Ok(vec![User::User {
            id: 1,
            verified: true,
            rating: Float64::from_bits(0.74_f64.to_bits()),
        }])
    );

    assert_eq!(
        call(&GetUsers { user_ids: vec![666] })?,
        Err(api::Error::InvalidUserId { user_id: 666 })
    );

    Ok(())
}

/// Serializing a Function variant and deserializing it through the Function
/// union reconstructs the same variant.
#[test]
fn function_union_round_trip() -> Result<(), tl::deserialize::Error> {
    let func = GetUsers { user_ids: vec![4, 5, 6] };
    let bytes = func.to_bytes();
    let back = api::Function::from_bytes(&bytes)?;
    assert_eq!(back, api::Function::GetUsers(func));
    Ok(())
}

/// An identity matching no declared variant fails deserialization with
/// exactly that identity.
#[test]
fn unknown_identity_is_rejected() {
    let func = GetUsers { user_ids: vec![1] };
    let mut bytes = func.to_bytes();
    bytes[0] ^= 0xff;
    let wrong_id = u32::from_le_bytes([bytes[0], bytes[1], bytes[2], bytes[3]]);
    let r = api::Function::from_bytes(&bytes);
    assert!(matches!(
        r,
        Err(tl::deserialize::Error::UnexpectedDefinitionId(id)) if id == wrong_id
    ));
}

/// A request value serializes to a deterministic byte sequence: its 4-byte
/// identity, then the dynamic length of the id list, then each id.
#[test]
fn request_bytes_are_deterministic() {
    let func = GetUsers { user_ids: vec![1] };
    let bytes = func.to_bytes();
    let id = api::get_users_definition_id();
    let mut expected = id.to_le_bytes().to_vec();
    expected.push(1);
    expected.extend_from_slice(&1_i64.to_le_bytes());
    assert_eq!(bytes, expected);
    assert_eq!(func.to_bytes(), expected);
}
