//! Identifiers read from text.
use vstd::prelude::*;
use vstd::string::StringSliceAdditionalSpecFns;
use crate::text::alphanumeric_char;
use super::TinyId;

verus! {

/// Why a text is not an identifier.
#[derive(Debug, Clone, Copy, PartialEq, Eq, Structural)]
pub enum Error {
    /// Should be alpha-numeric
    Invalid,
    /// The text is not `N` bytes long; carries `N`
    InvalidLength(usize),
}

impl Error {
    /// The message that tells the user what is wrong.
    pub fn message(&self) -> (r: String)
        ensures
            *self == Error::Invalid ==> r@ == "invalid"@,
            self matches Error::InvalidLength(len) ==> r@ == "str should be of length "@
                + crate::text::decimal_spec(len as nat),
    {
        match self {
            Error::Invalid => crate::text::owned("invalid"),
            Error::InvalidLength(len) => {
                let mut s = crate::text::owned("str should be of length ");
                let digits = crate::text::decimal(*len);
                crate::text::push_str(&mut s, digits.as_str());
                s
            },
        }
    }
}

/// The first `k` characters exist and are alphanumeric.
pub open spec fn alnum_prefix(cs: Seq<char>, k: int) -> bool {
    forall|j: int| 0 <= j < k ==> j < cs.len() && alphanumeric_char(#[trigger] cs[j])
}

/// Position `j` stops the scan: no character there, or one that is not
/// alphanumeric.
pub open spec fn stops_at(cs: Seq<char>, j: int) -> bool {
    !(j < cs.len() && alphanumeric_char(cs[j]))
}

/// What reading an identifier of `n` bytes from a text gives: the text must
/// be `n` bytes long; then its first `n` characters are read one per byte,
/// and the first position without a character fails with `InvalidLength`, the
/// first character that is not alphanumeric with `Invalid`.
pub open spec fn parse_id(cs: Seq<char>, byte_len: nat, n: nat) -> Result<Seq<u8>, Error> {
    if byte_len != n {
        Err(Error::InvalidLength(n as usize))
    } else if alnum_prefix(cs, n as int) {
        Ok(Seq::new(n, |j: int| cs[j] as u8))
    } else {
        let j = choose|j: int| 0 <= j < n && alnum_prefix(cs, j) && stops_at(cs, j);
        if j >= cs.len() {
            Err(Error::InvalidLength(n as usize))
        } else {
            Err(Error::Invalid)
        }
    }
}

/// The identifier that reading `s` gives, as the bytes it holds.
pub open spec fn parse_str_spec(s: &str, n: nat) -> Result<Seq<u8>, Error> {
    parse_id(s@, (s.spec_bytes().len() as usize) as nat, n)
}

/// The first stopping position is unique.
proof fn lemma_first_stop(cs: Seq<char>, n: int, i: int)
    requires
        0 <= i < n,
        alnum_prefix(cs, i),
        stops_at(cs, i),
    ensures
        !alnum_prefix(cs, n),
        (choose|j: int| 0 <= j < n && alnum_prefix(cs, j) && stops_at(cs, j)) == i,
{
    if alnum_prefix(cs, n) {
        assert(alphanumeric_char(cs[i]));
    }
    assert(exists|j: int| 0 <= j < n && alnum_prefix(cs, j) && stops_at(cs, j)) by {
        assert(0 <= i < n && alnum_prefix(cs, i) && stops_at(cs, i));
    }
    let j = choose|j: int| 0 <= j < n && alnum_prefix(cs, j) && stops_at(cs, j);
    if j < i {
        assert(alphanumeric_char(cs[j]));
    } else if j > i {
        assert(alphanumeric_char(cs[i]));
    }
}

impl<const N: usize> TinyId<N> {
    /// Reads an identifier from text (see `parse_id`).
    pub fn parse_str(s: &str) -> (r: Result<Self, Error>)
        ensures
            match r {
                Ok(id) => parse_str_spec(s, N as nat) == Ok::<Seq<u8>, Error>(id@),
                Err(e) => parse_str_spec(s, N as nat) == Err::<Seq<u8>, Error>(e),
            },
    {
        if s.len() != N {
            return Err(Error::InvalidLength(N));
        }
        let n_chars = s.unicode_len();
        let mut bytes = [0u8; N];
        let mut i: usize = 0;
        while i < N
            invariant
                0 <= i <= N,
                bytes@.len() == N,
                n_chars == s@.len(),
                s.spec_bytes().len() as usize == N,
                alnum_prefix(s@, i as int),
                forall|j: int| 0 <= j < i ==> bytes@[j] == #[trigger] s@[j] as u8,
            decreases N - i,
        {
            if i >= n_chars {
                proof {
                    lemma_first_stop(s@, N as int, i as int);
                }
                return Err(Error::InvalidLength(N));
            }
            let c = s.get_char(i);
            if !crate::text::is_alphanumeric(c) {
                proof {
                    lemma_first_stop(s@, N as int, i as int);
                }
                return Err(Error::Invalid);
            }
            bytes[i] = c as u8;
            i = i + 1;
        }
        let id = TinyId::from_array(bytes);
        assert(id@ =~= Seq::new(N as nat, |j: int| s@[j] as u8));
        Ok(id)
    }
}

impl<const N: usize> std::str::FromStr for TinyId<N> {
    type Err = Error;

    fn from_str(s: &str) -> (r: Result<Self, Self::Err>)
        ensures
            match r {
                Ok(id) => parse_str_spec(s, N as nat) == Ok::<Seq<u8>, Error>(id@),
                Err(e) => parse_str_spec(s, N as nat) == Err::<Seq<u8>, Error>(e),
            },
    {
        Self::parse_str(s)
    }
}

/// An identifier of ASCII letters and digits (as `TinyId::new` makes them)
/// written as text (as `TinyId::to_string` writes it) reads back as the same
/// identifier.
pub proof fn lemma_text_roundtrip<const N: usize>(id: TinyId<N>, s: &str)
    requires
        crate::tiny_id::all_alnum(id@),
        s@ == crate::tiny_id::bytes_as_chars(id@),
    ensures
        parse_str_spec(s, N as nat) == Ok::<Seq<u8>, Error>(id@),
{
    id.lemma_len();
    assert forall|i: int| 0 <= i < s@.len() implies '\0' <= #[trigger] s@[i] <= '\u{7f}' by {
        assert(crate::tiny_id::is_alnum_byte(id@[i]));
        assert(s@[i] == id@[i] as char);
    }
    assert(vstd::string::is_ascii(s));
    vstd::string::is_ascii_spec_bytes(s);
    assert(s.spec_bytes().len() == N);
    assert forall|j: int| 0 <= j < N implies alphanumeric_char(#[trigger] s@[j]) by {
        assert(crate::tiny_id::is_alnum_byte(id@[j]));
        assert(s@[j] == id@[j] as char);
    }
    assert(alnum_prefix(s@, N as int));
    assert forall|j: int| 0 <= j < N implies #[trigger] (s@[j] as u8) == id@[j] by {
        assert(crate::tiny_id::is_alnum_byte(id@[j]));
        assert(s@[j] == id@[j] as char);
    }
    assert(Seq::new(N as nat, |j: int| s@[j] as u8) =~= id@);
}

/// UTF-8 spends at least one byte on each character, and more than one on
/// a character above `'\x7f'`.
proof fn lemma_encode_len(cs: Seq<char>)
    ensures
        vstd::utf8::encode_utf8(cs).len() >= cs.len(),
        vstd::utf8::encode_utf8(cs).len() == cs.len() ==> forall|k: int|
            0 <= k < cs.len() ==> (#[trigger] cs[k] as u32) < 128,
    decreases cs.len(),
{
    if cs.len() > 0 {
        let rest = cs.drop_first();
        lemma_encode_len(rest);
        let first = vstd::utf8::encode_scalar(cs[0] as u32);
        assert(vstd::utf8::encode_utf8(cs) == first + vstd::utf8::encode_utf8(rest));
        assert(first.len() >= 1);
        assert((cs[0] as u32) >= 128 ==> first.len() >= 2);
        if vstd::utf8::encode_utf8(cs).len() == cs.len() {
            assert(first.len() == 1);
            assert forall|k: int| 0 <= k < cs.len() implies (#[trigger] cs[k] as u32) < 128 by {
                if k > 0 {
                    assert(cs[k] == rest[k - 1]);
                    assert((rest[k - 1] as u32) < 128);
                }
            }
        }
    }
}

/// Only a text of exactly `n` ASCII letters and digits reads as an
/// identifier of `n` bytes, and the identifier's text is that very text.
/// (`s` is a real text: its bytes fit in memory.)
pub proof fn lemma_parsed_text(s: &str, n: nat)
    requires
        s.spec_bytes().len() <= usize::MAX,
        parse_str_spec(s, n) is Ok,
    ensures
        s@.len() == n,
        crate::tiny_id::all_alnum(parse_str_spec(s, n)->Ok_0),
        crate::tiny_id::bytes_as_chars(parse_str_spec(s, n)->Ok_0) == s@,
{
    let cs = s@;
    lemma_encode_len(cs);
    assert(alnum_prefix(cs, n as int));
    if n > 0 {
        assert(alphanumeric_char(cs[n - 1]));
    }
    assert(cs.len() >= n);
    assert(vstd::utf8::encode_utf8(cs).len() == s.spec_bytes().len());
    let b = parse_str_spec(s, n)->Ok_0;
    assert forall|j: int| 0 <= j < n implies crate::tiny_id::is_alnum_byte(#[trigger] b[j])
        && (b[j] as char) == cs[j] by {
        assert(alphanumeric_char(cs[j]));
        assert((cs[j] as u32) < 128);
        assert(b[j] == cs[j] as u8);
    }
    assert(crate::tiny_id::bytes_as_chars(b) =~= cs);
}

} // verus!
