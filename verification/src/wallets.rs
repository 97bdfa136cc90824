//! Wallets as the catalog describes them: currency, name and description.
use vstd::prelude::*;
use crate::alias::{alias_char, is_alias_char};
use crate::ids::{CurrencyId, WalletId};

verus! {

/// A wallet of the catalog.
#[derive(Debug, Clone)]
pub struct Wallet {
    pub currency_id: CurrencyId,
    pub name: WalletName,
    pub description: String,
}

/// The name of a wallet: ASCII letters, digits, `-` and `_`.
#[derive(Debug, Clone)]
pub struct WalletName {
    text: String,
}

impl View for WalletName {
    type V = Seq<char>;

    closed spec fn view(&self) -> Seq<char> {
        self.text@
    }
}

/// Why a text is not a wallet name.
#[derive(Debug, Clone, Copy, PartialEq, Eq, Structural)]
pub enum Error {
    /// The first character that is not allowed
    InvalidCharacter(char),
}

/// The first character that may not stand in a wallet name, if any.
pub open spec fn first_invalid(cs: Seq<char>) -> Option<char> {
    if exists|i: int| 0 <= i < cs.len() && !is_alias_char(#[trigger] cs[i]) {
        let i = choose|i: int|
            0 <= i < cs.len() && !is_alias_char(cs[i]) && forall|j: int|
                0 <= j < i ==> is_alias_char(#[trigger] cs[j]);
        Some(cs[i])
    } else {
        None
    }
}

proof fn lemma_first_invalid(cs: Seq<char>, i: int)
    requires
        0 <= i < cs.len(),
        !is_alias_char(cs[i]),
        forall|j: int| 0 <= j < i ==> is_alias_char(#[trigger] cs[j]),
    ensures
        first_invalid(cs) == Some(cs[i]),
{
    assert(exists|i: int| 0 <= i < cs.len() && !is_alias_char(#[trigger] cs[i]));
    let k = choose|k: int|
        0 <= k < cs.len() && !is_alias_char(cs[k]) && forall|j: int|
            0 <= j < k ==> is_alias_char(#[trigger] cs[j]);
    assert(0 <= i < cs.len() && !is_alias_char(cs[i]) && forall|j: int|
        0 <= j < i ==> is_alias_char(#[trigger] cs[j]));
    if k < i {
        assert(is_alias_char(cs[k]));
    } else if k > i {
        assert(is_alias_char(cs[i]));
    }
}

impl WalletName {
    /// The wallet name of exactly this text.
    pub closed spec fn named(value: String) -> Self {
        WalletName { text: value }
    }

    /// Takes a text as a wallet name, refused with its first character that
    /// is not an ASCII letter or digit, `-` or `_`. An empty name is
    /// accepted.
    pub fn try_from_string(value: String) -> (r: Result<Self, Error>)
        ensures
            match first_invalid(value@) {
                Some(c) => r == Err::<Self, Error>(Error::InvalidCharacter(c)),
                None => r == Ok::<Self, Error>(WalletName::named(value)),
            },
            r matches Ok(name) ==> name@ == value@,
            (forall|i: int| 0 <= i < value@.len() ==> (('a' <= #[trigger] value@[i] && value@[i] <= 'z') || ('A' <= value@[i] && value@[i] <= 'Z') || ('0' <= value@[i] && value@[i] <= '9') || value@[i] == '-' || value@[i] == '_')) ==> (r matches Ok(name) && name@ == value@),
    {
        proof {
            lemma_wallet_name_chars(value@);
        }
        let n = value.as_str().unicode_len();
        let mut i: usize = 0;
        while i < n
            invariant
                0 <= i <= n,
                n == value@.len(),
                forall|j: int| 0 <= j < i ==> is_alias_char(#[trigger] value@[j]),
            decreases n - i,
        {
            let c = value.as_str().get_char(i);
            if !alias_char(c) {
                proof {
                    lemma_first_invalid(value@, i as int);
                }
                return Err(Error::InvalidCharacter(c));
            }
            i = i + 1;
        }
        Ok(WalletName { text: value })
    }

    /// Reads a wallet name, as `try_from_string` takes one.
    pub fn parse_str(s: &str) -> (r: Result<Self, Error>)
        ensures
            match first_invalid(s@) {
                Some(c) => r == Err::<Self, Error>(Error::InvalidCharacter(c)),
                None => r matches Ok(name) && name@ == s@,
            },
            (forall|i: int| 0 <= i < s@.len() ==> (('a' <= #[trigger] s@[i] && s@[i] <= 'z') || ('A' <= s@[i] && s@[i] <= 'Z') || ('0' <= s@[i] && s@[i] <= '9') || s@[i] == '-' || s@[i] == '_')) ==> (r matches Ok(name) && name@ == s@),
    {
        proof {
            lemma_wallet_name_chars(s@);
        }
        Self::try_from_string(crate::text::owned(s))
    }

    /// The text of the name.
    pub fn to_string(&self) -> (r: String)
        ensures
            r@ == self@,
    {
        self.text.clone()
    }
}

impl TryFrom<String> for WalletName {
    type Error = Error;

    fn try_from(value: String) -> (r: Result<Self, Self::Error>)
        ensures
            match first_invalid(value@) {
                Some(c) => r == Err::<Self, Error>(Error::InvalidCharacter(c)),
                None => r == Ok::<Self, Error>(WalletName::named(value)),
            },
            r matches Ok(name) ==> name@ == value@,
    {
        WalletName::try_from_string(value)
    }
}

impl vstd::std_specs::convert::TryFromSpecImpl<String> for WalletName {
    open spec fn obeys_try_from_spec() -> bool {
        true
    }

    open spec fn try_from_spec(value: String) -> Result<Self, Error> {
        match first_invalid(value@) {
            Some(c) => Err(Error::InvalidCharacter(c)),
            None => Ok(WalletName::named(value)),
        }
    }
}

impl std::str::FromStr for WalletName {
    type Err = Error;

    fn from_str(s: &str) -> (r: Result<Self, Self::Err>)
        ensures
            match first_invalid(s@) {
                Some(c) => r == Err::<Self, Error>(Error::InvalidCharacter(c)),
                None => r matches Ok(name) && name@ == s@,
            },
    {
        WalletName::parse_str(s)
    }
}

/// Announces a wallet newly kept.
#[derive(Debug, Clone, Copy)]
pub struct WalletCreated {
    pub id: WalletId,
    pub currency_id: CurrencyId,
}

impl WalletCreated {
    /// The name the event is published under.
    pub fn name(&self) -> (r: &'static str)
        ensures
            r@ == "backoffice.wallets.created"@,
    {
        "backoffice.wallets.created"
    }

    /// The version of the event.
    pub fn version(&self) -> (r: &'static str)
        ensures
            r@ == "1.0.0"@,
    {
        "1.0.0"
    }
}

/// Why a wallet could not be updated.
#[derive(Debug, Clone)]
pub enum UpdateError {
    NotFound,
    AlreadyExists,
    /// The store failed; carries its message
    Unspecified(String),
}

/// A name is refused exactly when some character is not an ASCII letter or
/// digit, `-` or `_`.
pub proof fn lemma_wallet_name_accepts_alias_chars(cs: Seq<char>)
    ensures
        first_invalid(cs) is None <==> crate::alias::all_alias_chars(cs),
{
    if !crate::alias::all_alias_chars(cs) {
        let i = choose|i: int| 0 <= i < cs.len() && !is_alias_char(#[trigger] cs[i]);
        assert(exists|i: int| 0 <= i < cs.len() && !is_alias_char(#[trigger] cs[i]));
    }
}

/// A wallet name is refused exactly when some character is outside `a-z`,
/// `A-Z`, `0-9`, `-` and `_`, and then with the first such character.
pub proof fn lemma_wallet_name_chars(cs: Seq<char>)
    ensures
        first_invalid(cs) is None <==> forall|i: int| 0 <= i < cs.len() ==> (('a' <= #[trigger] cs[i] && cs[i] <= 'z') || ('A' <= cs[i] && cs[i] <= 'Z') || ('0' <= cs[i] && cs[i] <= '9') || cs[i] == '-' || cs[i] == '_'),
        first_invalid(cs) matches Some(c) ==> exists|i: int|
            0 <= i < cs.len() && cs[i] == c && !(('a' <= c && c <= 'z') || ('A' <= c && c <= 'Z') || ('0' <= c && c <= '9') || c == '-' || c == '_') && forall|j: int|
                0 <= j < i ==> (('a' <= #[trigger] cs[j] && cs[j] <= 'z') || ('A' <= cs[j] && cs[j] <= 'Z') || ('0' <= cs[j] && cs[j] <= '9') || cs[j] == '-' || cs[j] == '_'),
{
    lemma_wallet_name_accepts_alias_chars(cs);
    if first_invalid(cs) is Some {
        assert(exists|j: int| 0 <= j < cs.len() && !is_alias_char(#[trigger] cs[j]));
        let i = first_bad_index(cs, 0);
        lemma_first_invalid(cs, i);
        assert(forall|j: int| 0 <= j < i ==> is_alias_char(#[trigger] cs[j]));
    }
}

/// The first position, from `k` on, of a character that may not stand in a
/// wallet name.
proof fn first_bad_index(cs: Seq<char>, k: int) -> (i: int)
    requires
        0 <= k,
        forall|j: int| 0 <= j < k ==> is_alias_char(#[trigger] cs[j]),
        exists|j: int| k <= j < cs.len() && !is_alias_char(#[trigger] cs[j]),
    ensures
        0 <= i < cs.len(),
        !is_alias_char(cs[i]),
        forall|j: int| 0 <= j < i ==> is_alias_char(#[trigger] cs[j]),
    decreases cs.len() - k,
{
    if !is_alias_char(cs[k]) {
        k
    } else {
        first_bad_index(cs, k + 1)
    }
}

} // verus!
