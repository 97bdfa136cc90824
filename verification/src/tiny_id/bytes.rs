//! Identifiers taken from a byte array.
use vstd::prelude::*;
use super::{is_alpha_byte, TinyId};

verus! {

/// Why an array of bytes is not an identifier.
#[derive(Debug, Clone, Copy, PartialEq, Eq, Structural)]
pub enum Error {
    NotACII,
}

impl Error {
    /// The message that tells the user what is wrong.
    pub fn message(&self) -> (r: &'static str)
        ensures
            r@ == "not ASCII"@,
    {
        "not ASCII"
    }
}

/// Every byte is an ASCII letter.
pub open spec fn all_alpha(s: Seq<u8>) -> bool {
    forall|i: int| 0 <= i < s.len() ==> is_alpha_byte(#[trigger] s[i])
}

fn is_ascii_alphabetic(b: u8) -> (r: bool)
    ensures
        r == is_alpha_byte(b),
{
    (65 <= b && b <= 90) || (97 <= b && b <= 122)
}

impl<const N: usize> TinyId<N> {
    /// The identifier of exactly these bytes, when each of them is an ASCII
    /// letter.
    pub fn try_from_bytes(value: [u8; N]) -> (r: Result<Self, Error>)
        ensures
            r is Ok <==> all_alpha(value@),
            r matches Ok(id) ==> id@ == value@,
            r matches Err(e) ==> e == Error::NotACII,
    {
        let mut i: usize = 0;
        while i < N
            invariant
                0 <= i <= N,
                value@.len() == N,
                forall|j: int| 0 <= j < i ==> is_alpha_byte(#[trigger] value@[j]),
            decreases N - i,
        {
            if !is_ascii_alphabetic(value[i]) {
                return Err(Error::NotACII);
            }
            i = i + 1;
        }
        Ok(TinyId::from_array(value))
    }
}

} // verus!
