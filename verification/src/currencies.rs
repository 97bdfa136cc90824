//! Currencies: a name, a symbol and a three-letter code.
use vstd::prelude::*;

pub mod currency_code;
pub mod currency_symbol;

use currency_code::CurrencyCode;
use currency_symbol::CurrencySymbol;

verus! {

/// A currency.
#[derive(Debug, Clone)]
pub struct Currency {
    pub name: CurrencyName,
    pub symbol: CurrencySymbol,
    pub code: CurrencyCode,
}

/// The name of a currency: any text.
#[derive(Debug, Clone)]
pub struct CurrencyName {
    text: String,
}

impl View for CurrencyName {
    type V = Seq<char>;

    closed spec fn view(&self) -> Seq<char> {
        self.text@
    }
}

impl CurrencyName {
    /// The name made of this text.
    pub fn from_string(name: String) -> (r: Self)
        ensures
            r@ == name@,
    {
        CurrencyName { text: name }
    }

    /// The text of the name.
    pub fn to_string(&self) -> (r: String)
        ensures
            r@ == self@,
    {
        self.text.clone()
    }
}

impl From<String> for CurrencyName {
    fn from(name: String) -> (r: Self)
        ensures
            r@ == name@,
    {
        CurrencyName { text: name }
    }
}

impl vstd::std_specs::convert::FromSpecImpl<String> for CurrencyName {
    open spec fn obeys_from_spec() -> bool {
        true
    }

    closed spec fn from_spec(name: String) -> Self {
        CurrencyName { text: name }
    }
}

/// Announces a currency newly kept.
#[derive(Debug, Clone, Copy)]
pub struct CurrencyCreated {
    pub id: crate::ids::CurrencyId,
}

impl CurrencyCreated {
    /// The name the event is published under.
    pub fn name(&self) -> (r: &'static str)
        ensures
            r@ == "backoffice.currencies.created"@,
    {
        "backoffice.currencies.created"
    }

    /// The version of the event.
    pub fn version(&self) -> (r: &'static str)
        ensures
            r@ == "1.0.0"@,
    {
        "1.0.0"
    }
}

} // verus!
