//! Short names made of ASCII letters, digits, `-` and `_`.
use vstd::prelude::*;
use crate::text::{is_ascii_digit, is_ascii_letter};

verus! {

/// A character an alias may hold: an ASCII letter or digit, `-` or `_`.
pub open spec fn is_alias_char(c: char) -> bool {
    is_ascii_letter(c) || is_ascii_digit(c) || c == '-' || c == '_'
}

/// Every character may stand in an alias.
pub open spec fn all_alias_chars(cs: Seq<char>) -> bool {
    forall|i: int| 0 <= i < cs.len() ==> is_alias_char(#[trigger] cs[i])
}

/// Decides whether a character may stand in an alias.
pub fn alias_char(c: char) -> (r: bool)
    ensures
        r == is_alias_char(c),
        r == (('a' <= c && c <= 'z') || ('A' <= c && c <= 'Z') || ('0' <= c && c <= '9') || c == '-' || c == '_'),
{
    ('a' <= c && c <= 'z') || ('A' <= c && c <= 'Z') || ('0' <= c && c <= '9') || c == '-' || c
        == '_'
}

/// A non-empty name of ASCII letters, digits, `-` and `_`.
#[derive(Debug, Clone)]
pub struct Alias {
    text: String,
}

impl View for Alias {
    type V = Seq<char>;

    closed spec fn view(&self) -> Seq<char> {
        self.text@
    }
}

/// Why a text is not an alias.
#[derive(Debug, Clone, Copy, PartialEq, Eq, Structural)]
pub enum Error {
    Empty,
    Invalid,
}

impl Error {
    /// The message that tells the user what is wrong.
    pub fn message(&self) -> (r: &'static str)
        ensures
            *self == Error::Empty ==> r@ == "Alias cannot be emtpy"@,
            *self == Error::Invalid ==> r@
                == "Alias must only contain 'a-z', 'A-Z', '0-9', '-', '_' characters"@,
    {
        match self {
            Error::Empty => "Alias cannot be emtpy",
            Error::Invalid => "Alias must only contain 'a-z', 'A-Z', '0-9', '-', '_' characters",
        }
    }
}

/// `true` when every character of `s` may stand in an alias.
pub fn is_valid_alias_text(s: &str) -> (r: bool)
    ensures
        r == all_alias_chars(s@),
{
    let n = s.unicode_len();
    let mut i: usize = 0;
    while i < n
        invariant
            0 <= i <= n,
            n == s@.len(),
            forall|j: int| 0 <= j < i ==> is_alias_char(#[trigger] s@[j]),
        decreases n - i,
    {
        if !alias_char(s.get_char(i)) {
            return false;
        }
        i = i + 1;
    }
    true
}

impl Alias {
    /// Reads an alias: refused as `Empty` when the text is empty, as
    /// `Invalid` when a character is not an ASCII letter or digit, `-` or
    /// `_`.
    pub fn parse_str(s: &str) -> (r: Result<Self, Error>)
        ensures
            s@.len() == 0 <==> r == Err::<Self, Error>(Error::Empty),
            s@.len() > 0 && !all_alias_chars(s@) <==> r == Err::<Self, Error>(Error::Invalid),
            r matches Ok(a) ==> a@ == s@ && s@.len() > 0 && all_alias_chars(s@),
            (s@.len() > 0 && forall|i: int| 0 <= i < s@.len() ==> (('a' <= #[trigger] s@[i] && s@[i] <= 'z') || ('A' <= s@[i] && s@[i] <= 'Z') || ('0' <= s@[i] && s@[i] <= '9') || s@[i] == '-' || s@[i] == '_')) ==> (r matches Ok(a) && a@ == s@),
    {
        if s.is_empty() {
            return Err(Error::Empty);
        }
        if is_valid_alias_text(s) {
            Ok(Alias { text: crate::text::owned(s) })
        } else {
            Err(Error::Invalid)
        }
    }

    /// The text of the alias.
    pub fn as_str(&self) -> (r: &str)
        ensures
            r@ == self@,
    {
        self.text.as_str()
    }

    /// A copy of the text of the alias.
    pub fn to_string(&self) -> (r: String)
        ensures
            r@ == self@,
    {
        self.text.clone()
    }
}

impl std::str::FromStr for Alias {
    type Err = Error;

    fn from_str(s: &str) -> (r: Result<Self, Self::Err>)
        ensures
            s@.len() == 0 <==> r == Err::<Self, Error>(Error::Empty),
            s@.len() > 0 && !all_alias_chars(s@) <==> r == Err::<Self, Error>(Error::Invalid),
            r matches Ok(a) ==> a@ == s@ && s@.len() > 0 && all_alias_chars(s@),
            (s@.len() > 0 && forall|i: int| 0 <= i < s@.len() ==> (('a' <= #[trigger] s@[i] && s@[i] <= 'z') || ('A' <= s@[i] && s@[i] <= 'Z') || ('0' <= s@[i] && s@[i] <= '9') || s@[i] == '-' || s@[i] == '_')) ==> (r matches Ok(a) && a@ == s@),
    {
        Alias::parse_str(s)
    }
}

/// The characters an alias may hold are exactly `a-z`, `A-Z`, `0-9`, `-`
/// and `_`: upper-case letters as much as lower-case ones.
pub proof fn lemma_alias_char_class(c: char)
    ensures
        is_alias_char(c) <==> (('a' <= c && c <= 'z') || ('A' <= c && c <= 'Z') || ('0' <= c
            && c <= '9') || c == '-' || c == '_'),
{
}

/// A text may stand as an alias (and as an actor alias, an item name or a
/// wallet name) exactly when each of its characters is in `a-z`, `A-Z`,
/// `0-9`, `-` or `_`.
pub proof fn lemma_alias_text(cs: Seq<char>)
    ensures
        all_alias_chars(cs) <==> forall|i: int|
            0 <= i < cs.len() ==> (('a' <= #[trigger] cs[i] && cs[i] <= 'z') || ('A' <= cs[i]
                && cs[i] <= 'Z') || ('0' <= cs[i] && cs[i] <= '9') || cs[i] == '-' || cs[i] == '_'),
{
}

} // verus!
