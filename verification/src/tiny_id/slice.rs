//! Identifiers read from raw bytes that hold UTF-8 text.
use vstd::prelude::*;
use vstd::utf8::{decode_utf8, valid_utf8};
use super::string::parse_id;
use super::TinyId;

verus! {

/// Why raw bytes are not an identifier.
#[derive(Debug, Clone, Copy, PartialEq, Eq, Structural)]
pub enum Error {
    /// The bytes are not UTF-8 text
    NotACII,
    /// The text is not an identifier
    StrError(super::string::Error),
}

impl From<super::string::Error> for Error {
    fn from(e: super::string::Error) -> (r: Self) {
        Error::StrError(e)
    }
}

impl vstd::std_specs::convert::FromSpecImpl<super::string::Error> for Error {
    open spec fn obeys_from_spec() -> bool {
        true
    }

    open spec fn from_spec(e: super::string::Error) -> Self {
        Error::StrError(e)
    }
}

impl Error {
    /// The message that tells the user what is wrong.
    pub fn message(&self) -> (r: String)
        ensures
            *self == Error::NotACII ==> r@ == "not ASCII"@,
            self matches Error::StrError(e) ==> (e == super::string::Error::Invalid ==> r@
                == "invalid"@),
            self matches Error::StrError(super::string::Error::InvalidLength(len)) ==> r@
                == "str should be of length "@ + crate::text::decimal_spec(len as nat),
    {
        match self {
            Error::NotACII => crate::text::owned("not ASCII"),
            Error::StrError(e) => e.message(),
        }
    }
}

/// What reading an identifier of `n` bytes from raw bytes gives.
pub open spec fn parse_slice(bytes: Seq<u8>, n: nat) -> Result<Seq<u8>, Error> {
    if !valid_utf8(bytes) {
        Err(Error::NotACII)
    } else {
        match parse_id(decode_utf8(bytes), (bytes.len() as usize) as nat, n) {
            Ok(id) => Ok(id),
            Err(e) => Err(Error::StrError(e)),
        }
    }
}

impl<const N: usize> TinyId<N> {
    /// Reads an identifier from bytes that must be UTF-8 text.
    pub fn from_slice(slice: &[u8]) -> (r: Result<Self, Error>)
        ensures
            match r {
                Ok(id) => parse_slice(slice@, N as nat) == Ok::<Seq<u8>, Error>(id@),
                Err(e) => parse_slice(slice@, N as nat) == Err::<Seq<u8>, Error>(e),
            },
    {
        let text = crate::text::utf8_to_str(slice);
        match text {
            None => Err(Error::NotACII),
            Some(s) => match Self::parse_str(s) {
                Ok(id) => Ok(id),
                Err(e) => Err(Error::StrError(e)),
            },
        }
    }
}

} // verus!
