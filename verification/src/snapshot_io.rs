//! Reading and keeping the books: the last snapshot, and the books kept up
//! to date when a wallet is created.
use vstd::prelude::*;
use crate::snapshot::{apply_spec, Operation, Snapshot, SnapshotView, WalletOperation};
use crate::wallets::WalletCreated;

verus! {

/// The books last saved, or empty books when none was.
pub fn read_last_or_default(last: Option<Snapshot>) -> (r: Snapshot)
    requires
        last matches Some(s) ==> s.wf(),
    ensures
        r.wf(),
        last matches Some(s) ==> r@ == s@,
        last is None ==> r@.wallets.len() == 0 && r@.debts.len() == 0 && r@.loans.len() == 0,
{
    match last {
        Some(s) => s,
        None => Snapshot::new(),
    }
}

/// The operation that opens the created wallet in the books.
pub open spec fn wallet_created_operation(event: WalletCreated) -> Operation {
    Operation::Wallet(
        WalletOperation::Create { wallet_id: event.id, currency_id: event.currency_id },
    )
}

/// Opens the created wallet in the books; when the books already have it,
/// they stay as they were. Gives `true` when the books changed and must be
/// saved.
pub fn on_wallet_created(snapshot: &mut Snapshot, event: &WalletCreated) -> (save: bool)
    requires
        old(snapshot).wf(),
    ensures
        final(snapshot).wf(),
        save == apply_spec(old(snapshot)@, wallet_created_operation(*event)) is Ok,
        save ==> apply_spec(old(snapshot)@, wallet_created_operation(*event)) == Ok::<
            SnapshotView,
            crate::snapshot::Error,
        >(final(snapshot)@),
        !save ==> final(snapshot)@ == old(snapshot)@,
{
    let result = snapshot.apply(
        Operation::Wallet(
            WalletOperation::Create { wallet_id: event.id, currency_id: event.currency_id },
        ),
    );
    result.is_ok()
}

} // verus!
