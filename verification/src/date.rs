//! Points in time, as the records carry them.
use vstd::prelude::*;

verus! {

/// A UTC point in time: seconds since the Unix epoch and the nanoseconds
/// past that second.
#[derive(Debug, Clone, Copy, PartialEq, Eq, Structural, Hash)]
pub struct Datetime {
    pub seconds: i64,
    pub nanoseconds: u32,
}

} // verus!
