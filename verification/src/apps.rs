//! Installations of the application: their identifiers, names and
//! manifests.
use vstd::prelude::*;
use crate::alias::Alias;

pub use crate::ids::AppId;

verus! {

/// The name of an installation: an alias.
#[derive(Debug, Clone)]
pub struct AppName(pub Alias);

/// What an installation tells about itself.
#[derive(Debug, Clone)]
pub struct AppManifest {
    pub name: Option<AppName>,
}

/// What the host keeps of itself: its identifier, if it has one already.
/// An installation keeps the identifier it has; one without an identifier
/// takes a fresh random one, which must then be saved.
pub fn init_self(existing: Option<AppId>) -> (r: (AppId, bool))
    ensures
        existing matches Some(id) ==> r == (id, false),
        existing is None ==> r.1 && r.0@.len() == 4 && crate::tiny_id::all_alnum(r.0@),
{
    match existing {
        Some(id) => (id, false),
        None => (AppId::new(), true),
    }
}

} // verus!
