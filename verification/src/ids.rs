//! Identifiers of the records the bookkeeping refers to.
use vstd::prelude::*;
use crate::tiny_id::string::{parse_str_spec, Error as StrError};
use crate::tiny_id::{all_alnum, bytes_as_chars, TinyId};

verus! {

/// The code of a four-byte identifier: its bytes read as a little-endian
/// 32-bit number. Distinct identifiers have distinct codes.
pub open spec fn code_of(s: Seq<u8>) -> u32 {
    (s[0] as u32) | ((s[1] as u32) << 8u32) | ((s[2] as u32) << 16u32) | ((s[3] as u32) << 24u32)
}

proof fn lemma_code_of_injective(a: Seq<u8>, b: Seq<u8>)
    requires
        a.len() == 4,
        b.len() == 4,
        code_of(a) == code_of(b),
    ensures
        a == b,
{
    let (a0, a1, a2, a3) = (a[0], a[1], a[2], a[3]);
    let (b0, b1, b2, b3) = (b[0], b[1], b[2], b[3]);
    assert(((a0 as u32) | ((a1 as u32) << 8u32) | ((a2 as u32) << 16u32) | ((a3 as u32) << 24u32))
        == ((b0 as u32) | ((b1 as u32) << 8u32) | ((b2 as u32) << 16u32) | ((b3 as u32) << 24u32))
        ==> a0 == b0 && a1 == b1 && a2 == b2 && a3 == b3) by (bit_vector);
    assert(a =~= b);
}

fn code_of_tiny(t: &TinyId<4>) -> (c: u32)
    ensures
        c == code_of(t@),
{
    proof {
        t.lemma_len();
    }
    (t.byte(0) as u32) | ((t.byte(1) as u32) << 8u32) | ((t.byte(2) as u32) << 16u32) | ((
    t.byte(3) as u32) << 24u32)
}

/// Identifiers that a map of this crate can be keyed by: each has a 32-bit
/// code, and distinct identifiers have distinct codes.
pub trait IdKey: Sized + Copy {
    /// The code of the identifier.
    spec fn key_code(&self) -> u32;

    /// Computes the code.
    fn code(&self) -> (c: u32)
        ensures
            c == self.key_code(),
    ;

    /// Equal codes belong to the same identifier.
    proof fn lemma_code_injective(a: Self, b: Self)
        requires
            a.key_code() == b.key_code(),
        ensures
            a == b,
    ;
}

/// Identifies a wallet.
#[derive(Clone, Copy, Debug, Hash)]
pub struct WalletId(TinyId<4>);

impl View for WalletId {
    type V = Seq<u8>;

    closed spec fn view(&self) -> Seq<u8> {
        self.0@
    }
}

impl WalletId {
    /// The identifier holds four bytes.
    pub proof fn lemma_len(self)
        ensures
            self@.len() == 4,
    {
        self.0.lemma_len();
    }

    /// Two identifiers with the same bytes are the same identifier.
    pub proof fn lemma_view_eq(a: Self, b: Self)
        requires
            a@ == b@,
        ensures
            a == b,
    {
        TinyId::<4>::lemma_view_eq(a.0, b.0);
    }

    /// A fresh random identifier of four ASCII letters and digits.
    pub fn new() -> (id: Self)
        ensures
            id@.len() == 4,
            all_alnum(id@),
    {
        WalletId(TinyId::new())
    }

    /// The identifier with these bytes.
    pub fn from_tiny(id: TinyId<4>) -> (r: Self)
        ensures
            r@ == id@,
    {
        WalletId(id)
    }

    /// The bytes of the identifier.
    pub fn tiny(&self) -> (r: TinyId<4>)
        ensures
            r@ == self@,
    {
        self.0
    }

    /// Reads the identifier from text, as `TinyId::parse_str` does.
    pub fn parse_str(s: &str) -> (r: Result<Self, StrError>)
        ensures
            match r {
                Ok(id) => parse_str_spec(s, 4) == Ok::<Seq<u8>, StrError>(id@),
                Err(e) => parse_str_spec(s, 4) == Err::<Seq<u8>, StrError>(e),
            },
    {
        match TinyId::<4>::parse_str(s) {
            Ok(id) => Ok(WalletId(id)),
            Err(e) => Err(e),
        }
    }

    /// The text of the identifier.
    pub fn to_string(&self) -> (s: String)
        ensures
            s@ == bytes_as_chars(self@),
    {
        self.0.to_string()
    }
}

impl PartialEq for WalletId {
    fn eq(&self, other: &Self) -> (r: bool) {
        self.0 == other.0
    }
}

impl vstd::std_specs::cmp::PartialEqSpecImpl for WalletId {
    open spec fn obeys_eq_spec() -> bool {
        true
    }

    open spec fn eq_spec(&self, other: &Self) -> bool {
        self@ == other@
    }
}

impl Eq for WalletId {
}

impl Default for WalletId {
    /// A fresh random identifier.
    fn default() -> (id: Self)
        ensures
            id@.len() == 4,
            all_alnum(id@),
    {
        WalletId::new()
    }
}

impl std::str::FromStr for WalletId {
    type Err = StrError;

    fn from_str(s: &str) -> (r: Result<Self, Self::Err>)
        ensures
            match r {
                Ok(id) => parse_str_spec(s, 4) == Ok::<Seq<u8>, StrError>(id@),
                Err(e) => parse_str_spec(s, 4) == Err::<Seq<u8>, StrError>(e),
            },
    {
        WalletId::parse_str(s)
    }
}

impl IdKey for WalletId {
    open spec fn key_code(&self) -> u32 {
        code_of(self@)
    }

    fn code(&self) -> (c: u32) {
        code_of_tiny(&self.0)
    }

    proof fn lemma_code_injective(a: Self, b: Self) {
        a.lemma_len();
        b.lemma_len();
        lemma_code_of_injective(a@, b@);
        TinyId::<4>::lemma_view_eq(a.0, b.0);
    }
}

/// Identifies a debt or a loan.
#[derive(Clone, Copy, Debug, Hash)]
pub struct DebtId(TinyId<4>);

impl View for DebtId {
    type V = Seq<u8>;

    closed spec fn view(&self) -> Seq<u8> {
        self.0@
    }
}

impl DebtId {
    /// The identifier holds four bytes.
    pub proof fn lemma_len(self)
        ensures
            self@.len() == 4,
    {
        self.0.lemma_len();
    }

    /// Two identifiers with the same bytes are the same identifier.
    pub proof fn lemma_view_eq(a: Self, b: Self)
        requires
            a@ == b@,
        ensures
            a == b,
    {
        TinyId::<4>::lemma_view_eq(a.0, b.0);
    }

    /// A fresh random identifier of four ASCII letters and digits.
    pub fn new() -> (id: Self)
        ensures
            id@.len() == 4,
            all_alnum(id@),
    {
        DebtId(TinyId::new())
    }

    /// The identifier with these bytes.
    pub fn from_tiny(id: TinyId<4>) -> (r: Self)
        ensures
            r@ == id@,
    {
        DebtId(id)
    }

    /// The bytes of the identifier.
    pub fn tiny(&self) -> (r: TinyId<4>)
        ensures
            r@ == self@,
    {
        self.0
    }

    /// Reads the identifier from text, as `TinyId::parse_str` does.
    pub fn parse_str(s: &str) -> (r: Result<Self, StrError>)
        ensures
            match r {
                Ok(id) => parse_str_spec(s, 4) == Ok::<Seq<u8>, StrError>(id@),
                Err(e) => parse_str_spec(s, 4) == Err::<Seq<u8>, StrError>(e),
            },
    {
        match TinyId::<4>::parse_str(s) {
            Ok(id) => Ok(DebtId(id)),
            Err(e) => Err(e),
        }
    }

    /// The text of the identifier.
    pub fn to_string(&self) -> (s: String)
        ensures
            s@ == bytes_as_chars(self@),
    {
        self.0.to_string()
    }
}

impl PartialEq for DebtId {
    fn eq(&self, other: &Self) -> (r: bool) {
        self.0 == other.0
    }
}

impl vstd::std_specs::cmp::PartialEqSpecImpl for DebtId {
    open spec fn obeys_eq_spec() -> bool {
        true
    }

    open spec fn eq_spec(&self, other: &Self) -> bool {
        self@ == other@
    }
}

impl Eq for DebtId {
}

impl Default for DebtId {
    /// A fresh random identifier.
    fn default() -> (id: Self)
        ensures
            id@.len() == 4,
            all_alnum(id@),
    {
        DebtId::new()
    }
}

impl std::str::FromStr for DebtId {
    type Err = StrError;

    fn from_str(s: &str) -> (r: Result<Self, Self::Err>)
        ensures
            match r {
                Ok(id) => parse_str_spec(s, 4) == Ok::<Seq<u8>, StrError>(id@),
                Err(e) => parse_str_spec(s, 4) == Err::<Seq<u8>, StrError>(e),
            },
    {
        DebtId::parse_str(s)
    }
}

impl IdKey for DebtId {
    open spec fn key_code(&self) -> u32 {
        code_of(self@)
    }

    fn code(&self) -> (c: u32) {
        code_of_tiny(&self.0)
    }

    proof fn lemma_code_injective(a: Self, b: Self) {
        a.lemma_len();
        b.lemma_len();
        lemma_code_of_injective(a@, b@);
        TinyId::<4>::lemma_view_eq(a.0, b.0);
    }
}

/// Identifies an item tag.
#[derive(Clone, Copy, Debug, Hash)]
pub struct ItemTagId(TinyId<4>);

impl View for ItemTagId {
    type V = Seq<u8>;

    closed spec fn view(&self) -> Seq<u8> {
        self.0@
    }
}

impl ItemTagId {
    /// The identifier holds four bytes.
    pub proof fn lemma_len(self)
        ensures
            self@.len() == 4,
    {
        self.0.lemma_len();
    }

    /// Two identifiers with the same bytes are the same identifier.
    pub proof fn lemma_view_eq(a: Self, b: Self)
        requires
            a@ == b@,
        ensures
            a == b,
    {
        TinyId::<4>::lemma_view_eq(a.0, b.0);
    }

    /// A fresh random identifier of four ASCII letters and digits.
    pub fn new() -> (id: Self)
        ensures
            id@.len() == 4,
            all_alnum(id@),
    {
        ItemTagId(TinyId::new())
    }

    /// The identifier with these bytes.
    pub fn from_tiny(id: TinyId<4>) -> (r: Self)
        ensures
            r@ == id@,
    {
        ItemTagId(id)
    }

    /// The bytes of the identifier.
    pub fn tiny(&self) -> (r: TinyId<4>)
        ensures
            r@ == self@,
    {
        self.0
    }

    /// Reads the identifier from text, as `TinyId::parse_str` does.
    pub fn parse_str(s: &str) -> (r: Result<Self, StrError>)
        ensures
            match r {
                Ok(id) => parse_str_spec(s, 4) == Ok::<Seq<u8>, StrError>(id@),
                Err(e) => parse_str_spec(s, 4) == Err::<Seq<u8>, StrError>(e),
            },
    {
        match TinyId::<4>::parse_str(s) {
            Ok(id) => Ok(ItemTagId(id)),
            Err(e) => Err(e),
        }
    }

    /// The text of the identifier.
    pub fn to_string(&self) -> (s: String)
        ensures
            s@ == bytes_as_chars(self@),
    {
        self.0.to_string()
    }
}

impl PartialEq for ItemTagId {
    fn eq(&self, other: &Self) -> (r: bool) {
        self.0 == other.0
    }
}

impl vstd::std_specs::cmp::PartialEqSpecImpl for ItemTagId {
    open spec fn obeys_eq_spec() -> bool {
        true
    }

    open spec fn eq_spec(&self, other: &Self) -> bool {
        self@ == other@
    }
}

impl Eq for ItemTagId {
}

impl Default for ItemTagId {
    /// A fresh random identifier.
    fn default() -> (id: Self)
        ensures
            id@.len() == 4,
            all_alnum(id@),
    {
        ItemTagId::new()
    }
}

impl std::str::FromStr for ItemTagId {
    type Err = StrError;

    fn from_str(s: &str) -> (r: Result<Self, Self::Err>)
        ensures
            match r {
                Ok(id) => parse_str_spec(s, 4) == Ok::<Seq<u8>, StrError>(id@),
                Err(e) => parse_str_spec(s, 4) == Err::<Seq<u8>, StrError>(e),
            },
    {
        ItemTagId::parse_str(s)
    }
}

impl IdKey for ItemTagId {
    open spec fn key_code(&self) -> u32 {
        code_of(self@)
    }

    fn code(&self) -> (c: u32) {
        code_of_tiny(&self.0)
    }

    proof fn lemma_code_injective(a: Self, b: Self) {
        a.lemma_len();
        b.lemma_len();
        lemma_code_of_injective(a@, b@);
        TinyId::<4>::lemma_view_eq(a.0, b.0);
    }
}

/// Identifies a currency.
#[derive(Clone, Copy, Debug, Hash)]
pub struct CurrencyId(TinyId<4>);

impl View for CurrencyId {
    type V = Seq<u8>;

    closed spec fn view(&self) -> Seq<u8> {
        self.0@
    }
}

impl CurrencyId {
    /// The identifier holds four bytes.
    pub proof fn lemma_len(self)
        ensures
            self@.len() == 4,
    {
        self.0.lemma_len();
    }

    /// Two identifiers with the same bytes are the same identifier.
    pub proof fn lemma_view_eq(a: Self, b: Self)
        requires
            a@ == b@,
        ensures
            a == b,
    {
        TinyId::<4>::lemma_view_eq(a.0, b.0);
    }

    /// A fresh random identifier of four ASCII letters and digits.
    pub fn new() -> (id: Self)
        ensures
            id@.len() == 4,
            all_alnum(id@),
    {
        CurrencyId(TinyId::new())
    }

    /// The identifier with these bytes.
    pub fn from_tiny(id: TinyId<4>) -> (r: Self)
        ensures
            r@ == id@,
    {
        CurrencyId(id)
    }

    /// The bytes of the identifier.
    pub fn tiny(&self) -> (r: TinyId<4>)
        ensures
            r@ == self@,
    {
        self.0
    }

    /// Reads the identifier from text, as `TinyId::parse_str` does.
    pub fn parse_str(s: &str) -> (r: Result<Self, StrError>)
        ensures
            match r {
                Ok(id) => parse_str_spec(s, 4) == Ok::<Seq<u8>, StrError>(id@),
                Err(e) => parse_str_spec(s, 4) == Err::<Seq<u8>, StrError>(e),
            },
    {
        match TinyId::<4>::parse_str(s) {
            Ok(id) => Ok(CurrencyId(id)),
            Err(e) => Err(e),
        }
    }

    /// The text of the identifier.
    pub fn to_string(&self) -> (s: String)
        ensures
            s@ == bytes_as_chars(self@),
    {
        self.0.to_string()
    }
}

impl PartialEq for CurrencyId {
    fn eq(&self, other: &Self) -> (r: bool) {
        self.0 == other.0
    }
}

impl vstd::std_specs::cmp::PartialEqSpecImpl for CurrencyId {
    open spec fn obeys_eq_spec() -> bool {
        true
    }

    open spec fn eq_spec(&self, other: &Self) -> bool {
        self@ == other@
    }
}

impl Eq for CurrencyId {
}

impl Default for CurrencyId {
    /// A fresh random identifier.
    fn default() -> (id: Self)
        ensures
            id@.len() == 4,
            all_alnum(id@),
    {
        CurrencyId::new()
    }
}

impl std::str::FromStr for CurrencyId {
    type Err = StrError;

    fn from_str(s: &str) -> (r: Result<Self, Self::Err>)
        ensures
            match r {
                Ok(id) => parse_str_spec(s, 4) == Ok::<Seq<u8>, StrError>(id@),
                Err(e) => parse_str_spec(s, 4) == Err::<Seq<u8>, StrError>(e),
            },
    {
        CurrencyId::parse_str(s)
    }
}

impl IdKey for CurrencyId {
    open spec fn key_code(&self) -> u32 {
        code_of(self@)
    }

    fn code(&self) -> (c: u32) {
        code_of_tiny(&self.0)
    }

    proof fn lemma_code_injective(a: Self, b: Self) {
        a.lemma_len();
        b.lemma_len();
        lemma_code_of_injective(a@, b@);
        TinyId::<4>::lemma_view_eq(a.0, b.0);
    }
}

/// Identifies an actor: a person, business or financial entity.
#[derive(Clone, Copy, Debug, Hash)]
pub struct ActorId(TinyId<4>);

impl View for ActorId {
    type V = Seq<u8>;

    closed spec fn view(&self) -> Seq<u8> {
        self.0@
    }
}

impl ActorId {
    /// The identifier holds four bytes.
    pub proof fn lemma_len(self)
        ensures
            self@.len() == 4,
    {
        self.0.lemma_len();
    }

    /// Two identifiers with the same bytes are the same identifier.
    pub proof fn lemma_view_eq(a: Self, b: Self)
        requires
            a@ == b@,
        ensures
            a == b,
    {
        TinyId::<4>::lemma_view_eq(a.0, b.0);
    }

    /// A fresh random identifier of four ASCII letters and digits.
    pub fn new() -> (id: Self)
        ensures
            id@.len() == 4,
            all_alnum(id@),
    {
        ActorId(TinyId::new())
    }

    /// The identifier with these bytes.
    pub fn from_tiny(id: TinyId<4>) -> (r: Self)
        ensures
            r@ == id@,
    {
        ActorId(id)
    }

    /// The bytes of the identifier.
    pub fn tiny(&self) -> (r: TinyId<4>)
        ensures
            r@ == self@,
    {
        self.0
    }

    /// Reads the identifier from text, as `TinyId::parse_str` does.
    pub fn parse_str(s: &str) -> (r: Result<Self, StrError>)
        ensures
            match r {
                Ok(id) => parse_str_spec(s, 4) == Ok::<Seq<u8>, StrError>(id@),
                Err(e) => parse_str_spec(s, 4) == Err::<Seq<u8>, StrError>(e),
            },
    {
        match TinyId::<4>::parse_str(s) {
            Ok(id) => Ok(ActorId(id)),
            Err(e) => Err(e),
        }
    }

    /// The text of the identifier.
    pub fn to_string(&self) -> (s: String)
        ensures
            s@ == bytes_as_chars(self@),
    {
        self.0.to_string()
    }
}

impl PartialEq for ActorId {
    fn eq(&self, other: &Self) -> (r: bool) {
        self.0 == other.0
    }
}

impl vstd::std_specs::cmp::PartialEqSpecImpl for ActorId {
    open spec fn obeys_eq_spec() -> bool {
        true
    }

    open spec fn eq_spec(&self, other: &Self) -> bool {
        self@ == other@
    }
}

impl Eq for ActorId {
}

impl Default for ActorId {
    /// A fresh random identifier.
    fn default() -> (id: Self)
        ensures
            id@.len() == 4,
            all_alnum(id@),
    {
        ActorId::new()
    }
}

impl std::str::FromStr for ActorId {
    type Err = StrError;

    fn from_str(s: &str) -> (r: Result<Self, Self::Err>)
        ensures
            match r {
                Ok(id) => parse_str_spec(s, 4) == Ok::<Seq<u8>, StrError>(id@),
                Err(e) => parse_str_spec(s, 4) == Err::<Seq<u8>, StrError>(e),
            },
    {
        ActorId::parse_str(s)
    }
}

impl IdKey for ActorId {
    open spec fn key_code(&self) -> u32 {
        code_of(self@)
    }

    fn code(&self) -> (c: u32) {
        code_of_tiny(&self.0)
    }

    proof fn lemma_code_injective(a: Self, b: Self) {
        a.lemma_len();
        b.lemma_len();
        lemma_code_of_injective(a@, b@);
        TinyId::<4>::lemma_view_eq(a.0, b.0);
    }
}

/// Identifies a recorded event.
#[derive(Clone, Copy, Debug, Hash)]
pub struct EventId(TinyId<4>);

impl View for EventId {
    type V = Seq<u8>;

    closed spec fn view(&self) -> Seq<u8> {
        self.0@
    }
}

impl EventId {
    /// The identifier holds four bytes.
    pub proof fn lemma_len(self)
        ensures
            self@.len() == 4,
    {
        self.0.lemma_len();
    }

    /// Two identifiers with the same bytes are the same identifier.
    pub proof fn lemma_view_eq(a: Self, b: Self)
        requires
            a@ == b@,
        ensures
            a == b,
    {
        TinyId::<4>::lemma_view_eq(a.0, b.0);
    }

    /// A fresh random identifier of four ASCII letters and digits.
    pub fn new() -> (id: Self)
        ensures
            id@.len() == 4,
            all_alnum(id@),
    {
        EventId(TinyId::new())
    }

    /// The identifier with these bytes.
    pub fn from_tiny(id: TinyId<4>) -> (r: Self)
        ensures
            r@ == id@,
    {
        EventId(id)
    }

    /// The bytes of the identifier.
    pub fn tiny(&self) -> (r: TinyId<4>)
        ensures
            r@ == self@,
    {
        self.0
    }

    /// Reads the identifier from text, as `TinyId::parse_str` does.
    pub fn parse_str(s: &str) -> (r: Result<Self, StrError>)
        ensures
            match r {
                Ok(id) => parse_str_spec(s, 4) == Ok::<Seq<u8>, StrError>(id@),
                Err(e) => parse_str_spec(s, 4) == Err::<Seq<u8>, StrError>(e),
            },
    {
        match TinyId::<4>::parse_str(s) {
            Ok(id) => Ok(EventId(id)),
            Err(e) => Err(e),
        }
    }

    /// The text of the identifier.
    pub fn to_string(&self) -> (s: String)
        ensures
            s@ == bytes_as_chars(self@),
    {
        self.0.to_string()
    }
}

impl PartialEq for EventId {
    fn eq(&self, other: &Self) -> (r: bool) {
        self.0 == other.0
    }
}

impl vstd::std_specs::cmp::PartialEqSpecImpl for EventId {
    open spec fn obeys_eq_spec() -> bool {
        true
    }

    open spec fn eq_spec(&self, other: &Self) -> bool {
        self@ == other@
    }
}

impl Eq for EventId {
}

impl Default for EventId {
    /// A fresh random identifier.
    fn default() -> (id: Self)
        ensures
            id@.len() == 4,
            all_alnum(id@),
    {
        EventId::new()
    }
}

impl std::str::FromStr for EventId {
    type Err = StrError;

    fn from_str(s: &str) -> (r: Result<Self, Self::Err>)
        ensures
            match r {
                Ok(id) => parse_str_spec(s, 4) == Ok::<Seq<u8>, StrError>(id@),
                Err(e) => parse_str_spec(s, 4) == Err::<Seq<u8>, StrError>(e),
            },
    {
        EventId::parse_str(s)
    }
}

impl IdKey for EventId {
    open spec fn key_code(&self) -> u32 {
        code_of(self@)
    }

    fn code(&self) -> (c: u32) {
        code_of_tiny(&self.0)
    }

    proof fn lemma_code_injective(a: Self, b: Self) {
        a.lemma_len();
        b.lemma_len();
        lemma_code_of_injective(a@, b@);
        TinyId::<4>::lemma_view_eq(a.0, b.0);
    }
}

/// Identifies an installation of the application (a node or the host).
#[derive(Clone, Copy, Debug, Hash)]
pub struct AppId(TinyId<4>);

impl View for AppId {
    type V = Seq<u8>;

    closed spec fn view(&self) -> Seq<u8> {
        self.0@
    }
}

impl AppId {
    /// The identifier holds four bytes.
    pub proof fn lemma_len(self)
        ensures
            self@.len() == 4,
    {
        self.0.lemma_len();
    }

    /// Two identifiers with the same bytes are the same identifier.
    pub proof fn lemma_view_eq(a: Self, b: Self)
        requires
            a@ == b@,
        ensures
            a == b,
    {
        TinyId::<4>::lemma_view_eq(a.0, b.0);
    }

    /// A fresh random identifier of four ASCII letters and digits.
    pub fn new() -> (id: Self)
        ensures
            id@.len() == 4,
            all_alnum(id@),
    {
        AppId(TinyId::new())
    }

    /// The identifier with these bytes.
    pub fn from_tiny(id: TinyId<4>) -> (r: Self)
        ensures
            r@ == id@,
    {
        AppId(id)
    }

    /// The bytes of the identifier.
    pub fn tiny(&self) -> (r: TinyId<4>)
        ensures
            r@ == self@,
    {
        self.0
    }

    /// Reads the identifier from text, as `TinyId::parse_str` does.
    pub fn parse_str(s: &str) -> (r: Result<Self, StrError>)
        ensures
            match r {
                Ok(id) => parse_str_spec(s, 4) == Ok::<Seq<u8>, StrError>(id@),
                Err(e) => parse_str_spec(s, 4) == Err::<Seq<u8>, StrError>(e),
            },
    {
        match TinyId::<4>::parse_str(s) {
            Ok(id) => Ok(AppId(id)),
            Err(e) => Err(e),
        }
    }

    /// The text of the identifier.
    pub fn to_string(&self) -> (s: String)
        ensures
            s@ == bytes_as_chars(self@),
    {
        self.0.to_string()
    }
}

impl PartialEq for AppId {
    fn eq(&self, other: &Self) -> (r: bool) {
        self.0 == other.0
    }
}

impl vstd::std_specs::cmp::PartialEqSpecImpl for AppId {
    open spec fn obeys_eq_spec() -> bool {
        true
    }

    open spec fn eq_spec(&self, other: &Self) -> bool {
        self@ == other@
    }
}

impl Eq for AppId {
}

impl Default for AppId {
    /// A fresh random identifier.
    fn default() -> (id: Self)
        ensures
            id@.len() == 4,
            all_alnum(id@),
    {
        AppId::new()
    }
}

impl std::str::FromStr for AppId {
    type Err = StrError;

    fn from_str(s: &str) -> (r: Result<Self, Self::Err>)
        ensures
            match r {
                Ok(id) => parse_str_spec(s, 4) == Ok::<Seq<u8>, StrError>(id@),
                Err(e) => parse_str_spec(s, 4) == Err::<Seq<u8>, StrError>(e),
            },
    {
        AppId::parse_str(s)
    }
}

impl IdKey for AppId {
    open spec fn key_code(&self) -> u32 {
        code_of(self@)
    }

    fn code(&self) -> (c: u32) {
        code_of_tiny(&self.0)
    }

    proof fn lemma_code_injective(a: Self, b: Self) {
        a.lemma_len();
        b.lemma_len();
        lemma_code_of_injective(a@, b@);
        TinyId::<4>::lemma_view_eq(a.0, b.0);
    }
}

/// Identifies a client registered with the host.
#[derive(Clone, Copy, Debug, Hash)]
pub struct ClientId(TinyId<4>);

impl View for ClientId {
    type V = Seq<u8>;

    closed spec fn view(&self) -> Seq<u8> {
        self.0@
    }
}

impl ClientId {
    /// The identifier holds four bytes.
    pub proof fn lemma_len(self)
        ensures
            self@.len() == 4,
    {
        self.0.lemma_len();
    }

    /// Two identifiers with the same bytes are the same identifier.
    pub proof fn lemma_view_eq(a: Self, b: Self)
        requires
            a@ == b@,
        ensures
            a == b,
    {
        TinyId::<4>::lemma_view_eq(a.0, b.0);
    }

    /// A fresh random identifier of four ASCII letters and digits.
    pub fn new() -> (id: Self)
        ensures
            id@.len() == 4,
            all_alnum(id@),
    {
        ClientId(TinyId::new())
    }

    /// The identifier with these bytes.
    pub fn from_tiny(id: TinyId<4>) -> (r: Self)
        ensures
            r@ == id@,
    {
        ClientId(id)
    }

    /// The bytes of the identifier.
    pub fn tiny(&self) -> (r: TinyId<4>)
        ensures
            r@ == self@,
    {
        self.0
    }

    /// Reads the identifier from text, as `TinyId::parse_str` does.
    pub fn parse_str(s: &str) -> (r: Result<Self, StrError>)
        ensures
            match r {
                Ok(id) => parse_str_spec(s, 4) == Ok::<Seq<u8>, StrError>(id@),
                Err(e) => parse_str_spec(s, 4) == Err::<Seq<u8>, StrError>(e),
            },
    {
        match TinyId::<4>::parse_str(s) {
            Ok(id) => Ok(ClientId(id)),
            Err(e) => Err(e),
        }
    }

    /// The text of the identifier.
    pub fn to_string(&self) -> (s: String)
        ensures
            s@ == bytes_as_chars(self@),
    {
        self.0.to_string()
    }
}

impl PartialEq for ClientId {
    fn eq(&self, other: &Self) -> (r: bool) {
        self.0 == other.0
    }
}

impl vstd::std_specs::cmp::PartialEqSpecImpl for ClientId {
    open spec fn obeys_eq_spec() -> bool {
        true
    }

    open spec fn eq_spec(&self, other: &Self) -> bool {
        self@ == other@
    }
}

impl Eq for ClientId {
}

impl Default for ClientId {
    /// A fresh random identifier.
    fn default() -> (id: Self)
        ensures
            id@.len() == 4,
            all_alnum(id@),
    {
        ClientId::new()
    }
}

impl std::str::FromStr for ClientId {
    type Err = StrError;

    fn from_str(s: &str) -> (r: Result<Self, Self::Err>)
        ensures
            match r {
                Ok(id) => parse_str_spec(s, 4) == Ok::<Seq<u8>, StrError>(id@),
                Err(e) => parse_str_spec(s, 4) == Err::<Seq<u8>, StrError>(e),
            },
    {
        ClientId::parse_str(s)
    }
}

impl IdKey for ClientId {
    open spec fn key_code(&self) -> u32 {
        code_of(self@)
    }

    fn code(&self) -> (c: u32) {
        code_of_tiny(&self.0)
    }

    proof fn lemma_code_injective(a: Self, b: Self) {
        a.lemma_len();
        b.lemma_len();
        lemma_code_of_injective(a@, b@);
        TinyId::<4>::lemma_view_eq(a.0, b.0);
    }
}

} // verus!
