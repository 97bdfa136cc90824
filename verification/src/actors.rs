//! Actors: the people, businesses and financial entities money moves with.
use vstd::prelude::*;
use crate::alias::{all_alias_chars, Alias, Error as AliasError};
use crate::text::str_eq;

verus! {

/// An actor.
#[derive(Debug, Clone)]
pub struct Actor {
    pub name: ActorName,
    pub actor_type: ActorType,
    pub alias: Option<ActorAlias>,
}

/// The name of an actor: any text.
#[derive(Debug, Clone)]
pub struct ActorName {
    text: String,
}

impl View for ActorName {
    type V = Seq<char>;

    closed spec fn view(&self) -> Seq<char> {
        self.text@
    }
}

impl ActorName {
    /// The name made of this text.
    pub fn from_string(value: String) -> (r: Self)
        ensures
            r@ == value@,
    {
        ActorName { text: value }
    }

    /// The text of the name.
    pub fn to_string(&self) -> (r: String)
        ensures
            r@ == self@,
    {
        self.text.clone()
    }
}

impl From<String> for ActorName {
    fn from(value: String) -> (r: Self)
        ensures
            r@ == value@,
    {
        ActorName { text: value }
    }
}

impl vstd::std_specs::convert::FromSpecImpl<String> for ActorName {
    open spec fn obeys_from_spec() -> bool {
        true
    }

    closed spec fn from_spec(value: String) -> Self {
        ActorName { text: value }
    }
}

/// The alias of an actor.
#[derive(Debug, Clone)]
pub struct ActorAlias {
    alias: Alias,
}

impl View for ActorAlias {
    type V = Seq<char>;

    closed spec fn view(&self) -> Seq<char> {
        self.alias@
    }
}

impl ActorAlias {
    /// Reads an actor alias, as an `Alias` is read.
    pub fn parse_str(s: &str) -> (r: Result<Self, AliasError>)
        ensures
            s@.len() == 0 <==> r == Err::<Self, AliasError>(AliasError::Empty),
            s@.len() > 0 && !all_alias_chars(s@) <==> r == Err::<Self, AliasError>(
                AliasError::Invalid,
            ),
            r matches Ok(a) ==> a@ == s@,
            (s@.len() > 0 && forall|i: int| 0 <= i < s@.len() ==> (('a' <= #[trigger] s@[i] && s@[i] <= 'z') || ('A' <= s@[i] && s@[i] <= 'Z') || ('0' <= s@[i] && s@[i] <= '9') || s@[i] == '-' || s@[i] == '_')) ==> (r matches Ok(a) && a@ == s@),
    {
        match Alias::parse_str(s) {
            Ok(alias) => Ok(ActorAlias { alias }),
            Err(e) => Err(e),
        }
    }

    /// The text of the alias.
    pub fn to_string(&self) -> (r: String)
        ensures
            r@ == self@,
    {
        self.alias.to_string()
    }
}

impl std::str::FromStr for ActorAlias {
    type Err = AliasError;

    fn from_str(s: &str) -> (r: Result<Self, Self::Err>)
        ensures
            s@.len() == 0 <==> r == Err::<Self, AliasError>(AliasError::Empty),
            s@.len() > 0 && !all_alias_chars(s@) <==> r == Err::<Self, AliasError>(
                AliasError::Invalid,
            ),
            r matches Ok(a) ==> a@ == s@,
            (s@.len() > 0 && forall|i: int| 0 <= i < s@.len() ==> (('a' <= #[trigger] s@[i] && s@[i] <= 'z') || ('A' <= s@[i] && s@[i] <= 'Z') || ('0' <= s@[i] && s@[i] <= '9') || s@[i] == '-' || s@[i] == '_')) ==> (r matches Ok(a) && a@ == s@),
    {
        ActorAlias::parse_str(s)
    }
}

/// The kind of an actor.
#[derive(Debug, Clone, Copy, PartialEq, Eq, Structural)]
pub enum ActorType {
    Natural,
    Business,
    FinancialEntity,
}

/// The text is not the name of an actor type.
#[derive(Debug, Clone, Copy, PartialEq, Eq, Structural)]
pub struct Error {}

impl Error {
    /// The message that tells the user what is wrong.
    pub fn message(&self) -> (r: &'static str)
        ensures
            r@ == "invalid actor type, must be 'natural', 'business', or 'financial_entity'"@,
    {
        "invalid actor type, must be 'natural', 'business', or 'financial_entity'"
    }
}

/// The actor type a text names: `natural` or `n`, `business` or `b`,
/// `financial_entity` or `f`.
pub open spec fn actor_type_spec(s: Seq<char>) -> Option<ActorType> {
    if s == "natural"@ || s == "n"@ {
        Some(ActorType::Natural)
    } else if s == "business"@ || s == "b"@ {
        Some(ActorType::Business)
    } else if s == "financial_entity"@ || s == "f"@ {
        Some(ActorType::FinancialEntity)
    } else {
        None
    }
}

impl ActorType {
    /// Reads an actor type (see `actor_type_spec`).
    pub fn parse_str(s: &str) -> (r: Result<Self, Error>)
        ensures
            match actor_type_spec(s@) {
                Some(t) => r == Ok::<ActorType, Error>(t),
                None => r == Err::<ActorType, Error>(Error {  }),
            },
    {
        if str_eq(s, "natural") || str_eq(s, "n") {
            Ok(ActorType::Natural)
        } else if str_eq(s, "business") || str_eq(s, "b") {
            Ok(ActorType::Business)
        } else if str_eq(s, "financial_entity") || str_eq(s, "f") {
            Ok(ActorType::FinancialEntity)
        } else {
            Err(Error {  })
        }
    }
}

impl std::str::FromStr for ActorType {
    type Err = Error;

    fn from_str(s: &str) -> (r: Result<Self, Self::Err>)
        ensures
            match actor_type_spec(s@) {
                Some(t) => r == Ok::<ActorType, Error>(t),
                None => r == Err::<ActorType, Error>(Error {  }),
            },
    {
        ActorType::parse_str(s)
    }
}

/// An actor type is read from exactly its name or its initial: `natural` or
/// `n`, `business` or `b`, `financial_entity` or `f`; any other text is no
/// actor type.
pub proof fn lemma_actor_type_names(s: Seq<char>)
    ensures
        actor_type_spec(s) == Some(ActorType::Natural) <==> (s == "natural"@ || s == "n"@),
        actor_type_spec(s) == Some(ActorType::Business) <==> (s == "business"@ || s == "b"@),
        actor_type_spec(s) == Some(ActorType::FinancialEntity) <==> (s == "financial_entity"@ || s
            == "f"@),
        actor_type_spec(s) is None <==> !(s == "natural"@ || s == "n"@ || s == "business"@ || s
            == "b"@ || s == "financial_entity"@ || s == "f"@),
{
    reveal_strlit("natural");
    reveal_strlit("n");
    reveal_strlit("business");
    reveal_strlit("b");
    reveal_strlit("financial_entity");
    reveal_strlit("f");
    assert("natural"@.len() == 7 && "business"@.len() == 8 && "financial_entity"@.len() == 16);
    assert("n"@[0] != "b"@[0] && "n"@[0] != "f"@[0] && "b"@[0] != "f"@[0]);
}

} // verus!
