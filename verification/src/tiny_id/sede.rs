//! Support for reading identifiers back from serialized data.
use vstd::prelude::*;
use super::bytes::{all_alpha, Error as BytesError};
use super::TinyId;

verus! {

/// The reason a serialized identifier was refused.
pub struct DeError<E> {
    inner: E,
}

impl<E> DeError<E> {
    /// Wraps the parse error.
    pub fn new(inner: E) -> (r: Self)
        ensures
            r.error() == inner,
    {
        DeError { inner }
    }

    /// The wrapped parse error.
    pub closed spec fn error(&self) -> E {
        self.inner
    }

    /// Gives the wrapped parse error back.
    pub fn into_inner(self) -> (e: E)
        ensures
            e == self.error(),
    {
        self.inner
    }
}

/// Why the elements of a serialized sequence are not an identifier.
#[derive(Debug, Clone, Copy, PartialEq, Eq, Structural)]
pub enum SeqError {
    /// The sequence holds this many elements, not as many as the identifier
    InvalidLength(usize),
    /// The elements are not ASCII letters
    Bytes(BytesError),
}

impl<const N: usize> TinyId<N> {
    /// Reads an identifier from the elements of a serialized sequence: there
    /// must be exactly `N` of them, each an ASCII letter.
    pub fn from_elements(elements: &[u8]) -> (r: Result<Self, SeqError>)
        ensures
            elements@.len() != N ==> r == Err::<Self, SeqError>(
                SeqError::InvalidLength(elements@.len() as usize),
            ),
            elements@.len() == N && all_alpha(elements@) <==> r is Ok,
            elements@.len() == N && !all_alpha(elements@) ==> r == Err::<Self, SeqError>(
                SeqError::Bytes(BytesError::NotACII),
            ),
            r matches Ok(id) ==> id@ == elements@,
    {
        if elements.len() != N {
            return Err(SeqError::InvalidLength(elements.len()));
        }
        let mut bytes = [0u8; N];
        let mut i: usize = 0;
        while i < N
            invariant
                0 <= i <= N,
                elements@.len() == N,
                bytes@.len() == N,
                forall|j: int| 0 <= j < i ==> bytes@[j] == elements@[j],
            decreases N - i,
        {
            bytes[i] = elements[i];
            i = i + 1;
        }
        assert(bytes@ =~= elements@);
        match Self::try_from_bytes(bytes) {
            Ok(id) => Ok(id),
            Err(e) => Err(SeqError::Bytes(e)),
        }
    }
}

} // verus!
