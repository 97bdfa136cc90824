//! The symbol a currency is written with.
use vstd::prelude::*;
use crate::text::{is_numeric, is_whitespace, numeric_char, whitespace_char};

verus! {

/// A symbol: not empty, without digits or whitespace.
#[derive(Debug, Clone)]
pub struct CurrencySymbol {
    text: String,
}

impl View for CurrencySymbol {
    type V = Seq<char>;

    closed spec fn view(&self) -> Seq<char> {
        self.text@
    }
}

/// Why a text is not a symbol.
#[derive(Debug, Clone, Copy, PartialEq, Eq, Structural)]
pub enum Error {
    InvalidLength,
    InvalidChar,
}

impl Error {
    /// The message that tells the user what is wrong.
    pub fn message(&self) -> (r: &'static str)
        ensures
            *self == Error::InvalidLength ==> r@ == "Currency symbol must have at least one digit"@,
            *self == Error::InvalidChar ==> r@
                == "Currency symbol must not have any whitespace or number"@,
    {
        match self {
            Error::InvalidLength => "Currency symbol must have at least one digit",
            Error::InvalidChar => "Currency symbol must not have any whitespace or number",
        }
    }
}

/// A character a symbol may not hold: a number or whitespace.
pub open spec fn is_forbidden(c: char) -> bool {
    numeric_char(c) || whitespace_char(c)
}

/// Some character of the text is a number or whitespace.
pub open spec fn has_forbidden(cs: Seq<char>) -> bool {
    exists|i: int| 0 <= i < cs.len() && is_forbidden(#[trigger] cs[i])
}

impl CurrencySymbol {
    /// Reads a symbol: refused as `InvalidLength` when the text is empty, as
    /// `InvalidChar` when it holds a number or whitespace.
    pub fn parse_str(s: &str) -> (r: Result<Self, Error>)
        ensures
            s@.len() == 0 <==> r == Err::<Self, Error>(Error::InvalidLength),
            s@.len() > 0 && has_forbidden(s@) <==> r == Err::<Self, Error>(Error::InvalidChar),
            r matches Ok(sym) ==> sym@ == s@,
            (s@.len() > 0 && forall|i: int|
                0 <= i < s@.len() ==> !numeric_char(#[trigger] s@[i]) && !whitespace_char(s@[i]))
                ==> (r matches Ok(sym) && sym@ == s@),
    {
        if s.is_empty() {
            return Err(Error::InvalidLength);
        }
        let n = s.unicode_len();
        let mut i: usize = 0;
        while i < n
            invariant
                0 <= i <= n,
                n == s@.len(),
                forall|j: int| 0 <= j < i ==> !is_forbidden(#[trigger] s@[j]),
            decreases n - i,
        {
            let c = s.get_char(i);
            if is_numeric(c) || is_whitespace(c) {
                assert(is_forbidden(s@[i as int]));
                return Err(Error::InvalidChar);
            }
            i = i + 1;
        }
        Ok(CurrencySymbol { text: crate::text::owned(s) })
    }

    /// The text of the symbol.
    pub fn to_string(&self) -> (r: String)
        ensures
            r@ == self@,
    {
        self.text.clone()
    }
}

impl std::str::FromStr for CurrencySymbol {
    type Err = Error;

    fn from_str(s: &str) -> (r: Result<Self, Self::Err>)
        ensures
            s@.len() == 0 <==> r == Err::<Self, Error>(Error::InvalidLength),
            s@.len() > 0 && has_forbidden(s@) <==> r == Err::<Self, Error>(Error::InvalidChar),
            r matches Ok(sym) ==> sym@ == s@,
            (s@.len() > 0 && forall|i: int|
                0 <= i < s@.len() ==> !numeric_char(#[trigger] s@[i]) && !whitespace_char(s@[i]))
                ==> (r matches Ok(sym) && sym@ == s@),
    {
        CurrencySymbol::parse_str(s)
    }
}

/// A symbol is refused for a character exactly when std counts it as
/// numeric or whitespace: on ASCII the digits `0-9`, the space and `'\t'` to
/// `'\r'`; above `'\x7f'` what `char::is_numeric` and `char::is_whitespace`
/// decide. Every other character, such as `€`, `£` or `$`, may stand in a
/// symbol.
pub proof fn lemma_symbol_forbidden(c: char)
    ensures
        is_forbidden(c) <==> (if (c as u32) < 128 {
            ('0' <= c && c <= '9') || c == ' ' || ('\t' <= c && c <= '\r')
        } else {
            crate::text::char_is_numeric(c) || crate::text::char_is_whitespace(c)
        }),
{
}

/// A non-empty text is refused as a symbol exactly when some character is
/// numeric or whitespace to std; any other non-empty text is a symbol.
pub proof fn lemma_symbol_text(cs: Seq<char>)
    ensures
        has_forbidden(cs) <==> exists|i: int|
            0 <= i < cs.len() && (numeric_char(#[trigger] cs[i]) || whitespace_char(cs[i])),
{
}

} // verus!
