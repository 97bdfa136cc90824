//! Records as the store gives them back: an identifier and a value.
use vstd::prelude::*;

verus! {

/// A stored value with its identifier.
#[derive(Debug, Clone)]
pub struct Entity<K, T>(pub K, pub T);

impl<K, T> Entity<K, T> {
    /// The identifier and the value.
    pub fn into_inner(self) -> (r: (K, T))
        ensures
            r == (self.0, self.1),
    {
        (self.0, self.1)
    }

    /// The record of this identifier and value.
    pub fn from_pair(pair: (K, T)) -> (r: Self)
        ensures
            r == Entity(pair.0, pair.1),
    {
        Entity(pair.0, pair.1)
    }
}

/// An identifier the store writes as a string field.
#[derive(Debug, Clone)]
pub struct SqlStringId<K> {
    pub field: K,
}

} // verus!
