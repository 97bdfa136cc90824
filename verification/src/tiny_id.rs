//! Short identifiers made of ASCII letters and digits.
use vstd::prelude::*;

pub mod bytes;
pub mod sede;
pub mod slice;
pub mod string;

verus! {

broadcast use vstd::array::group_array_axioms;

/// `true` when the byte is an ASCII letter or an ASCII digit.
pub open spec fn is_alnum_byte(b: u8) -> bool {
    (48 <= b && b <= 57) || (65 <= b && b <= 90) || (97 <= b && b <= 122)
}

/// `true` when the byte is an ASCII letter.
pub open spec fn is_alpha_byte(b: u8) -> bool {
    (65 <= b && b <= 90) || (97 <= b && b <= 122)
}

/// Samples one byte from `rand::distributions::Alphanumeric` with the
/// thread-local generator of `rand::thread_rng`. rand documents the
/// distribution as uniform over `A-Z`, `a-z` and `0-9`; the contract claims
/// only that the byte is one of those, not which one.
#[verifier::external_body]
fn sample_alphanumeric() -> (b: u8)
    ensures
        is_alnum_byte(b),
{
    rand::Rng::sample(&mut rand::thread_rng(), rand::distributions::Alphanumeric)
}

/// An identifier of `N` bytes.
#[derive(Clone, Copy, Debug, Hash)]
pub struct TinyId<const N: usize> {
    bytes: [u8; N],
}

impl<const N: usize> View for TinyId<N> {
    type V = Seq<u8>;

    closed spec fn view(&self) -> Seq<u8> {
        self.bytes@
    }
}

/// Every byte is an ASCII letter or digit.
pub open spec fn all_alnum(s: Seq<u8>) -> bool {
    forall|i: int| 0 <= i < s.len() ==> is_alnum_byte(#[trigger] s[i])
}

/// The characters that the bytes stand for, one character per byte.
pub open spec fn bytes_as_chars(s: Seq<u8>) -> Seq<char> {
    Seq::new(s.len(), |i: int| s[i] as char)
}

impl<const N: usize> TinyId<N> {
    /// The identifier always holds exactly `N` bytes.
    pub proof fn lemma_len(self)
        ensures
            self@.len() == N,
    {
    }

    /// Two identifiers with the same bytes are the same identifier.
    pub proof fn lemma_view_eq(a: Self, b: Self)
        requires
            a@ == b@,
        ensures
            a == b,
    {
        assert(a.bytes@ =~= b.bytes@);
        assert(a.bytes =~= b.bytes);
    }

    /// The identifier made of exactly these bytes.
    pub(crate) fn from_array(bytes: [u8; N]) -> (id: Self)
        ensures
            id@ == bytes@,
    {
        TinyId { bytes }
    }

    /// A fresh identifier of random ASCII letters and digits.
    pub fn new() -> (id: Self)
        ensures
            id@.len() == N,
            all_alnum(id@),
    {
        let mut bytes = [0u8; N];
        let mut i: usize = 0;
        while i < N
            invariant
                0 <= i <= N,
                bytes@.len() == N,
                forall|j: int| 0 <= j < i ==> is_alnum_byte(#[trigger] bytes@[j]),
            decreases N - i,
        {
            bytes[i] = sample_alphanumeric();
            i = i + 1;
        }
        TinyId { bytes }
    }

    /// The byte at position `i`.
    pub fn byte(&self, i: usize) -> (b: u8)
        requires
            i < N,
        ensures
            b == self@[i as int],
    {
        self.bytes[i]
    }

    /// The bytes as a vector.
    pub fn to_vec(&self) -> (v: Vec<u8>)
        ensures
            v@ == self@,
    {
        let mut v: Vec<u8> = Vec::new();
        let mut i: usize = 0;
        while i < N
            invariant
                0 <= i <= N,
                self@.len() == N,
                v@ == self@.subrange(0, i as int),
            decreases N - i,
        {
            v.push(self.bytes[i]);
            i = i + 1;
        }
        assert(self@.subrange(0, N as int) =~= self@);
        v
    }

    /// The text of the identifier: each byte written as the character of
    /// that code.
    pub fn to_string(&self) -> (s: String)
        ensures
            s@ == bytes_as_chars(self@),
    {
        let mut s = String::new();
        let mut i: usize = 0;
        while i < N
            invariant
                0 <= i <= N,
                self@.len() == N,
                s@ =~= bytes_as_chars(self@.subrange(0, i as int)),
            decreases N - i,
        {
            let c = self.bytes[i] as char;
            crate::text::push_char(&mut s, c);
            i = i + 1;
            assert(bytes_as_chars(self@.subrange(0, i as int)) =~= bytes_as_chars(
                self@.subrange(0, i - 1),
            ).push(c));
        }
        assert(self@.subrange(0, N as int) =~= self@);
        s
    }
}

impl<const N: usize> PartialEq for TinyId<N> {
    fn eq(&self, other: &Self) -> (r: bool) {
        let mut i: usize = 0;
        while i < N
            invariant
                0 <= i <= N,
                self.bytes@.len() == N,
                other.bytes@.len() == N,
                forall|j: int| 0 <= j < i ==> self.bytes@[j] == other.bytes@[j],
            decreases N - i,
        {
            if self.bytes[i] != other.bytes[i] {
                return false;
            }
            i = i + 1;
        }
        assert(self.bytes@ =~= other.bytes@);
        true
    }
}

impl<const N: usize> vstd::std_specs::cmp::PartialEqSpecImpl for TinyId<N> {
    open spec fn obeys_eq_spec() -> bool {
        true
    }

    open spec fn eq_spec(&self, other: &Self) -> bool {
        self@ == other@
    }
}

impl<const N: usize> Eq for TinyId<N> {
}

impl<const N: usize> Default for TinyId<N> {
    /// A fresh random identifier, as `new` makes.
    fn default() -> (id: Self)
        ensures
            id@.len() == N,
            all_alnum(id@),
    {
        Self::new()
    }
}

} // verus!
