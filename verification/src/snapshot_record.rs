//! The books in the form the store keeps them: lists of wallets, debts and
//! loans with their identifiers.
use vstd::prelude::*;
use crate::ids::{DebtId, WalletId};
use crate::keyed_map::{lemma_entries_roundtrip, lists_exactly, map_of_entries};
use crate::snapshot::money::MoneyMap;
use crate::snapshot::{Debt, Snapshot, SnapshotView, Wallet};

verus! {

/// The books as the store keeps them.
pub struct SurrealSnapshot {
    pub wallets: Vec<(WalletId, Wallet)>,
    pub debts: Vec<(DebtId, Debt)>,
    pub loans: Vec<(DebtId, Debt)>,
}

/// The books that stored lists stand for; where an identifier is listed
/// twice, the later entry stays.
pub open spec fn books_of(
    wallets: Seq<(WalletId, Wallet)>,
    debts: Seq<(DebtId, Debt)>,
    loans: Seq<(DebtId, Debt)>,
) -> SnapshotView {
    SnapshotView {
        wallets: map_of_entries(wallets),
        debts: map_of_entries(debts),
        loans: map_of_entries(loans),
    }
}

/// The stored form of the books: each wallet, debt and loan listed once.
pub fn to_stored(snapshot: &Snapshot) -> (r: SurrealSnapshot)
    requires
        snapshot.wf(),
    ensures
        lists_exactly(r.wallets@, snapshot@.wallets),
        lists_exactly(r.debts@, snapshot@.debts),
        lists_exactly(r.loans@, snapshot@.loans),
{
    SurrealSnapshot {
        wallets: snapshot.wallets.iter(),
        debts: snapshot.debts.iter(),
        loans: snapshot.loans.iter(),
    }
}

/// The books that a stored form stands for, taken as stored (see
/// `books_of`).
pub fn from_stored(stored: SurrealSnapshot) -> (r: Snapshot)
    ensures
        r.wf(),
        r@ == books_of(stored.wallets@, stored.debts@, stored.loans@),
{
    Snapshot {
        wallets: MoneyMap::from_iter_unchecked(stored.wallets),
        debts: MoneyMap::from_iter_unchecked(stored.debts),
        loans: MoneyMap::from_iter_unchecked(stored.loans),
    }
}

/// Books saved in their stored form read back as the same books.
pub proof fn lemma_saved_books_read_back(
    s: SnapshotView,
    wallets: Seq<(WalletId, Wallet)>,
    debts: Seq<(DebtId, Debt)>,
    loans: Seq<(DebtId, Debt)>,
)
    requires
        lists_exactly(wallets, s.wallets),
        lists_exactly(debts, s.debts),
        lists_exactly(loans, s.loans),
    ensures
        books_of(wallets, debts, loans) == s,
{
    lemma_entries_roundtrip(wallets, s.wallets);
    lemma_entries_roundtrip(debts, s.debts);
    lemma_entries_roundtrip(loans, s.loans);
}

} // verus!
