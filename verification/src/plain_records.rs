//! Records kept as plain text: currencies, item tags and wallet metadata as
//! the record books name them.
use vstd::prelude::*;

verus! {

/// A currency named by plain text.
#[derive(Debug, Clone)]
pub struct Currency {
    pub name: String,
    pub symbol: String,
    pub code: String,
}

/// An item tag named by plain text.
#[derive(Debug, Clone)]
pub struct ItemTag {
    pub name: String,
}

/// What is kept about a wallet besides its balance.
#[derive(Debug, Clone)]
pub struct WalletMetadata {
    pub name: Option<String>,
}

} // verus!
