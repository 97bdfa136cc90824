//! What a node knows of its host, and what changed since it last synced.
use vstd::prelude::*;
use crate::ids::{ActorId, AppId, CurrencyId, WalletId};

verus! {

/// Where the host of a node is found.
#[derive(Debug, Clone)]
pub struct HostDir {
    text: String,
}

impl View for HostDir {
    type V = Seq<char>;

    closed spec fn view(&self) -> Seq<char> {
        self.text@
    }
}

impl HostDir {
    /// The place of this text.
    pub fn from_string(value: String) -> (r: Self)
        ensures
            r@ == value@,
    {
        HostDir { text: value }
    }

    /// The text of the place.
    pub fn as_str(&self) -> (r: &str)
        ensures
            r@ == self@,
    {
        self.text.as_str()
    }

    /// A copy of the text of the place.
    pub fn to_string(&self) -> (r: String)
        ensures
            r@ == self@,
    {
        self.text.clone()
    }
}

impl From<String> for HostDir {
    fn from(value: String) -> (r: Self)
        ensures
            r@ == value@,
    {
        HostDir { text: value }
    }
}

impl vstd::std_specs::convert::FromSpecImpl<String> for HostDir {
    open spec fn obeys_from_spec() -> bool {
        true
    }

    closed spec fn from_spec(value: String) -> Self {
        HostDir { text: value }
    }
}

/// The host a node is bound to.
#[derive(Debug, Clone)]
pub struct HostBinding {
    pub dir: HostDir,
    pub node_app_id: AppId,
}

/// The records a node changed since it last synced.
#[derive(Debug, Clone)]
pub struct ChangesRecord {
    pub currencies: Vec<CurrencyId>,
    pub actors: Vec<ActorId>,
    pub wallets: Vec<WalletId>,
}

impl ChangesRecord {
    /// No change.
    pub fn new() -> (r: Self)
        ensures
            r.currencies@.len() == 0,
            r.actors@.len() == 0,
            r.wallets@.len() == 0,
    {
        ChangesRecord { currencies: Vec::new(), actors: Vec::new(), wallets: Vec::new() }
    }
}

impl Default for ChangesRecord {
    /// No change.
    fn default() -> (r: Self)
        ensures
            r.currencies@.len() == 0,
            r.actors@.len() == 0,
            r.wallets@.len() == 0,
    {
        ChangesRecord::new()
    }
}

} // verus!
