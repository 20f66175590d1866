//! The association between a function definition and its return type.

use crate::deserialize::Deserialize;
use crate::serialize::Serialize;
use vstd::prelude::*;

verus! {

/// A function definition's value shape, with its declared return type
/// carried at the type level.
pub trait Function {
    type Return: Serialize + Deserialize;
}

} // verus!
