//! The back office's own form of currencies: the code kept as the three
//! characters given.
use vstd::prelude::*;

pub mod currency_code;

pub use crate::currencies::currency_symbol::CurrencySymbol;
pub use crate::currencies::CurrencyName;

verus! {

/// A currency with its code kept as given.
#[derive(Debug, Clone)]
pub struct Currency {
    pub name: CurrencyName,
    pub symbol: CurrencySymbol,
    pub code: currency_code::CurrencyCode,
}

} // verus!
