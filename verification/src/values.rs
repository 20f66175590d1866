//! Plain-data carriers for the two wire types whose native representations
//! the codec treats purely as bit patterns: 64-bit floats and timestamps.

use vstd::prelude::*;

verus! {

/// A 64-bit IEEE-754 floating-point value carried as its raw bit pattern.
/// The wire format stores exactly these eight bytes (little-endian), so the
/// codec never needs to interpret the value arithmetically.
#[derive(Debug, Clone, Copy, PartialEq, Eq, Structural)]
pub struct Float64 {
    pub bits: u64,
}

impl Float64 {
    /// Wrap a raw IEEE-754 bit pattern.
    pub fn from_bits(bits: u64) -> (r: Float64)
        ensures
            r.bits == bits,
    {
        Float64 { bits }
    }
}

/// An absolute timestamp with millisecond resolution: the signed number of
/// milliseconds since the Unix epoch, which is exactly what the wire carries.
#[derive(Debug, Clone, Copy, PartialEq, Eq, Structural)]
pub struct Time {
    pub millis: i64,
}

impl Time {
    /// Wrap a count of milliseconds since the Unix epoch.
    pub fn from_millis(millis: i64) -> (r: Time)
        ensures
            r.millis == millis,
    {
        Time { millis }
    }
}

} // verus!
