//! A currency code of exactly three alphabetic characters, kept as given.
use vstd::prelude::*;
use crate::text::{alphabetic_char, is_alphabetic};

verus! {

/// The number of characters of a code.
pub const CODE_LENGTH: usize = 3;

/// A currency code: three alphabetic characters.
#[derive(Debug, Clone, Copy)]
pub struct CurrencyCode {
    chars: [char; 3],
}

impl View for CurrencyCode {
    type V = Seq<char>;

    closed spec fn view(&self) -> Seq<char> {
        self.chars@
    }
}

/// Why a text is not a currency code.
#[derive(Debug, Clone, Copy, PartialEq, Eq, Structural)]
pub enum Error {
    InvalidLength,
    NotAlphabetic,
}

impl Error {
    /// The message that tells the user what is wrong.
    pub fn message(&self) -> (r: &'static str)
        ensures
            *self == Error::InvalidLength ==> r@ == "Currency code must have 3 characters"@,
            *self == Error::NotAlphabetic ==> r@ == "Currency code must be alphabetic"@,
    {
        match self {
            Error::InvalidLength => "Currency code must have 3 characters",
            Error::NotAlphabetic => "Currency code must be alphabetic",
        }
    }
}

/// The characters of the text, when there are exactly three.
pub fn extract_chars(s: &str) -> (r: Option<[char; 3]>)
    ensures
        r is Some <==> s@.len() == 3,
        r matches Some(a) ==> a@ == s@,
{
    let n = s.unicode_len();
    if n != 3 {
        return None;
    }
    let a = [s.get_char(0), s.get_char(1), s.get_char(2)];
    assert(a@ =~= s@);
    Some(a)
}

/// Every character is alphabetic.
pub open spec fn all_alphabetic(cs: Seq<char>) -> bool {
    forall|i: int| 0 <= i < cs.len() ==> alphabetic_char(#[trigger] cs[i])
}

impl CurrencyCode {
    /// Reads a code: refused as `InvalidLength` unless the text has exactly
    /// three characters, as `NotAlphabetic` unless each is alphabetic.
    pub fn parse_str(s: &str) -> (r: Result<Self, Error>)
        ensures
            s@.len() != 3 <==> r == Err::<Self, Error>(Error::InvalidLength),
            s@.len() == 3 && !all_alphabetic(s@) <==> r == Err::<Self, Error>(
                Error::NotAlphabetic,
            ),
            r matches Ok(code) ==> code@ == s@,
    {
        let arr = match extract_chars(s) {
            Some(a) => a,
            None => {
                return Err(Error::InvalidLength);
            },
        };
        let mut i: usize = 0;
        while i < 3
            invariant
                0 <= i <= 3,
                arr@ == s@,
                s@.len() == 3,
                forall|j: int| 0 <= j < i ==> alphabetic_char(#[trigger] s@[j]),
            decreases 3 - i,
        {
            if !is_alphabetic(arr[i]) {
                assert(!alphabetic_char(s@[i as int]));
                return Err(Error::NotAlphabetic);
            }
            i = i + 1;
        }
        Ok(CurrencyCode { chars: arr })
    }

    /// The text of the code.
    pub fn to_string(&self) -> (r: String)
        ensures
            r@ == self@,
    {
        let mut out = String::new();
        let mut i: usize = 0;
        while i < 3
            invariant
                0 <= i <= 3,
                self@.len() == 3,
                out@ =~= self@.subrange(0, i as int),
            decreases 3 - i,
        {
            crate::text::push_char(&mut out, self.chars[i]);
            i = i + 1;
        }
        assert(self@.subrange(0, 3) =~= self@);
        out
    }
}

impl std::str::FromStr for CurrencyCode {
    type Err = Error;

    fn from_str(s: &str) -> (r: Result<Self, Self::Err>)
        ensures
            s@.len() != 3 <==> r == Err::<Self, Error>(Error::InvalidLength),
            s@.len() == 3 && !all_alphabetic(s@) <==> r == Err::<Self, Error>(
                Error::NotAlphabetic,
            ),
            r matches Ok(code) ==> code@ == s@,
    {
        CurrencyCode::parse_str(s)
    }
}

} // verus!
