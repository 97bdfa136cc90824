//! The three-letter code of a currency, kept in upper case.
use vstd::prelude::*;
use crate::text::{alphabetic_char, is_alphabetic, str_eq};
use crate::tiny_id::bytes_as_chars;

verus! {

/// The number of letters of a code.
pub const CODE_LENGTH: usize = 3;

/// A currency code: three bytes.
#[derive(Debug, Clone, Copy)]
pub struct CurrencyCode {
    bytes: [u8; 3],
}

impl View for CurrencyCode {
    type V = Seq<u8>;

    closed spec fn view(&self) -> Seq<u8> {
        self.bytes@
    }
}

/// Why a text is not a currency code.
#[derive(Debug, Clone, Copy, PartialEq, Eq, Structural)]
pub enum Error {
    InvalidLength,
    NotAlphabetic,
}

impl Error {
    /// The message that tells the user what is wrong.
    pub fn message(&self) -> (r: &'static str)
        ensures
            *self == Error::InvalidLength ==> r@ == "Currency code must have 3 characters"@,
            *self == Error::NotAlphabetic ==> r@ == "Currency code must be alphabetic"@,
    {
        match self {
            Error::InvalidLength => "Currency code must have 3 characters",
            Error::NotAlphabetic => "Currency code must be alphabetic",
        }
    }
}

/// The upper-case form of an ASCII letter; any other character is kept, as
/// `char::to_ascii_uppercase` documents.
pub open spec fn ascii_upper(c: char) -> char {
    if 'a' <= c && c <= 'z' {
        (((c as u32) - 32) as u8) as char
    } else {
        c
    }
}

/// Upper-cases an ASCII letter; keeps any other character.
pub fn to_ascii_uppercase(c: char) -> (r: char)
    ensures
        r == ascii_upper(c),
{
    if 'a' <= c && c <= 'z' {
        (((c as u32) - 32) as u8) as char
    } else {
        c
    }
}

/// The character is alphabetic.
pub open spec fn code_char_ok(c: char) -> bool {
    alphabetic_char(c)
}

/// The characters are three bytes of text: three characters, each of one
/// byte (ASCII).
pub open spec fn three_bytes(cs: Seq<char>) -> bool {
    cs.len() == 3 && forall|j: int| 0 <= j < 3 ==> (#[trigger] cs[j] as u32) < 128
}

/// What reading a code gives: the text must be three characters of one
/// byte each (three bytes of text), else `InvalidLength`; each must be
/// alphabetic, else `NotAlphabetic`; the code keeps their upper-case forms,
/// one byte each.
pub open spec fn code_spec(cs: Seq<char>) -> Result<Seq<u8>, Error> {
    if !three_bytes(cs) {
        Err(Error::InvalidLength)
    } else if forall|j: int| 0 <= j < 3 ==> code_char_ok(#[trigger] cs[j]) {
        Ok(Seq::new(3, |j: int| (ascii_upper(cs[j]) as u32) as u8))
    } else {
        Err(Error::NotAlphabetic)
    }
}

impl CurrencyCode {
    /// Reads a code (see `code_spec`).
    pub fn parse_str(s: &str) -> (r: Result<Self, Error>)
        ensures
            match r {
                Ok(code) => code_spec(s@) == Ok::<Seq<u8>, Error>(code@),
                Err(e) => code_spec(s@) == Err::<Seq<u8>, Error>(e),
            },
    {
        if s.unicode_len() != CODE_LENGTH {
            return Err(Error::InvalidLength);
        }
        let mut i: usize = 0;
        while i < 3
            invariant
                0 <= i <= 3,
                s@.len() == 3,
                forall|j: int| 0 <= j < i ==> (#[trigger] s@[j] as u32) < 128,
            decreases 3 - i,
        {
            if (s.get_char(i) as u32) >= 128 {
                return Err(Error::InvalidLength);
            }
            i = i + 1;
        }
        let mut buf: [u8; 3] = [0u8; 3];
        let mut i: usize = 0;
        while i < 3
            invariant
                0 <= i <= 3,
                three_bytes(s@),
                buf@.len() == 3,
                forall|j: int| 0 <= j < i ==> code_char_ok(#[trigger] s@[j]),
                forall|j: int| 0 <= j < i ==> buf@[j] == ((ascii_upper(#[trigger] s@[j]) as u32) as u8),
            decreases 3 - i,
        {
            let c = s.get_char(i);
            if !is_alphabetic(c) {
                assert(!code_char_ok(s@[i as int]));
                return Err(Error::NotAlphabetic);
            }
            assert((s@[i as int] as u32) < 128);
            let upper = to_ascii_uppercase(c) as u32;
            buf[i] = upper as u8;
            i = i + 1;
        }
        let code = CurrencyCode { bytes: buf };
        assert(code@ =~= code_spec(s@)->Ok_0);
        Ok(code)
    }

    /// The text of the code: each byte as the character of that code.
    pub fn to_string(&self) -> (r: String)
        ensures
            r@ == bytes_as_chars(self@),
    {
        let mut out = String::new();
        let mut i: usize = 0;
        while i < 3
            invariant
                0 <= i <= 3,
                self@.len() == 3,
                out@ =~= bytes_as_chars(self@.subrange(0, i as int)),
            decreases 3 - i,
        {
            let c = self.bytes[i] as char;
            crate::text::push_char(&mut out, c);
            i = i + 1;
            assert(bytes_as_chars(self@.subrange(0, i as int)) =~= bytes_as_chars(
                self@.subrange(0, i - 1),
            ).push(c));
        }
        assert(self@.subrange(0, 3) =~= self@);
        out
    }

    /// `true` when the text of the code is `other`.
    pub fn eq_str(&self, other: &str) -> (r: bool)
        ensures
            r == (bytes_as_chars(self@) == other@),
    {
        let text = self.to_string();
        str_eq(text.as_str(), other)
    }
}

impl std::str::FromStr for CurrencyCode {
    type Err = Error;

    fn from_str(s: &str) -> (r: Result<Self, Self::Err>)
        ensures
            match r {
                Ok(code) => code_spec(s@) == Ok::<Seq<u8>, Error>(code@),
                Err(e) => code_spec(s@) == Err::<Seq<u8>, Error>(e),
            },
    {
        CurrencyCode::parse_str(s)
    }
}

/// A code of three ASCII letters is kept in upper case: its text is the
/// given letters upper-cased.
pub proof fn lemma_code_is_upper_case(cs: Seq<char>)
    requires
        cs.len() == 3,
        forall|j: int| 0 <= j < 3 ==> crate::text::is_ascii_letter(#[trigger] cs[j]),
    ensures
        code_spec(cs) is Ok,
        bytes_as_chars(code_spec(cs)->Ok_0) == Seq::new(3, |j: int| ascii_upper(cs[j])),
        forall|j: int| 0 <= j < 3 ==> 'A' <= #[trigger] bytes_as_chars(code_spec(cs)->Ok_0)[j] <= 'Z',
{
    assert forall|j: int| 0 <= j < 3 implies code_char_ok(#[trigger] cs[j]) by {
        assert(crate::text::is_ascii_letter(cs[j]));
    }
    let b = code_spec(cs)->Ok_0;
    assert forall|j: int| 0 <= j < 3 implies #[trigger] bytes_as_chars(b)[j] == ascii_upper(cs[j])
        && 'A' <= bytes_as_chars(b)[j] <= 'Z' by {
        assert(crate::text::is_ascii_letter(cs[j]));
    }
    assert(bytes_as_chars(b) =~= Seq::new(3, |j: int| ascii_upper(cs[j])));
}

/// A code is read from exactly three ASCII letters, each kept in upper
/// case; a text that is not three one-byte characters is `InvalidLength`,
/// and three one-byte characters with one that is no letter are
/// `NotAlphabetic`.
pub proof fn lemma_code_rule(cs: Seq<char>)
    ensures
        code_spec(cs) is Ok <==> cs.len() == 3 && forall|j: int|
            0 <= j < 3 ==> (('a' <= #[trigger] cs[j] && cs[j] <= 'z') || ('A' <= cs[j] && cs[j]
                <= 'Z')),
        code_spec(cs) == Err::<Seq<u8>, Error>(Error::InvalidLength) <==> !(cs.len() == 3
            && forall|j: int| 0 <= j < 3 ==> (#[trigger] cs[j] as u32) < 128),
        code_spec(cs) matches Ok(b) ==> b.len() == 3 && forall|j: int|
            0 <= j < 3 ==> 'A' <= #[trigger] (b[j] as char) <= 'Z' && (b[j] as char == cs[j] || b[j]
                + 32 == cs[j] as u32),
{
    if code_spec(cs) is Ok {
        let b = code_spec(cs)->Ok_0;
        assert forall|j: int| 0 <= j < 3 implies 'A' <= #[trigger] (b[j] as char) <= 'Z' && (b[j]
            as char == cs[j] || b[j] + 32 == cs[j] as u32) by {
            assert(code_char_ok(cs[j]));
        }
    }
    if cs.len() == 3 && forall|j: int| 0 <= j < 3 ==> (('a' <= #[trigger] cs[j] && cs[j] <= 'z')
        || ('A' <= cs[j] && cs[j] <= 'Z')) {
        assert forall|j: int| 0 <= j < 3 implies (#[trigger] cs[j] as u32) < 128 by {
            assert(('a' <= cs[j] && cs[j] <= 'z') || ('A' <= cs[j] && cs[j] <= 'Z'));
        }
        assert forall|j: int| 0 <= j < 3 implies code_char_ok(#[trigger] cs[j]) by {
            assert(('a' <= cs[j] && cs[j] <= 'z') || ('A' <= cs[j] && cs[j] <= 'Z'));
        }
    }
    if code_spec(cs) is Ok {
        assert forall|j: int| 0 <= j < 3 implies (('a' <= #[trigger] cs[j] && cs[j] <= 'z') || ('A'
            <= cs[j] && cs[j] <= 'Z')) by {
            assert(code_char_ok(cs[j]));
            assert((cs[j] as u32) < 128);
        }
    }
}

} // verus!
