//! The association between a callable request shape and its response type.

use crate::deserialize::Deserialize;
use crate::serialize::Serialize;
use vstd::prelude::*;

verus! {

/// A callable request shape: its declared return type is carried at the type
/// level, so calling code can thread a request through to its expected
/// response type without runtime type inspection.
pub trait Call {
    type Return: Serialize + Deserialize;
}

} // verus!
