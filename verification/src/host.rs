//! Clients registered with the host.
use vstd::prelude::*;
use crate::alias::Alias;

pub use crate::ids::ClientId;

verus! {

/// The name of a client: an alias.
#[derive(Debug, Clone)]
pub struct ClientName(pub Alias);

/// A client of the host.
#[derive(Debug, Clone)]
pub struct Client {
    pub name: Option<ClientName>,
}

} // verus!
