//! The books kept as balance records: wallets, debts and loans, and the
//! operations that turn into actions on them.
use vstd::prelude::*;
use crate::amount::Amount;
use crate::ids::{CurrencyId, DebtId, WalletId};
use crate::money_record::{action_fits, action_spec, Action, MoneyRecord, MoneyStorage};

verus! {

/// The books: balances of wallets, of debts I should pay and of loans that
/// should be paid to me.
pub struct Snapshot {
    pub wallets: MoneyRecord<WalletId>,
    /// Debts that I should pay
    pub debts: MoneyRecord<DebtId>,
    /// Debts that should be payed to me
    pub loans: MoneyRecord<DebtId>,
}

/// What the record books hold.
pub struct SnapshotView {
    pub wallets: Map<WalletId, MoneyStorage>,
    pub debts: Map<DebtId, MoneyStorage>,
    pub loans: Map<DebtId, MoneyStorage>,
}

impl View for Snapshot {
    type V = SnapshotView;

    open spec fn view(&self) -> SnapshotView {
        SnapshotView { wallets: self.wallets@, debts: self.debts@, loans: self.loans@ }
    }
}

/// An operation on a wallet balance.
#[derive(Debug, Clone, Copy)]
pub enum WalletOperation {
    Create { wallet_id: WalletId, currency: CurrencyId },
    /// Does not handle transference before deletion
    Delete { wallet_id: WalletId },
    Deposit { wallet_id: WalletId, amount: Amount },
    Deduct { wallet_id: WalletId, amount: Amount },
}

/// An operation on a debt or loan balance.
#[derive(Debug, Clone, Copy)]
pub enum DebtOperation {
    Incur { debt_id: DebtId, currency: CurrencyId },
    /// Does not handle transference before deletion
    Forget { debt_id: DebtId },
    Accumulate { debt_id: DebtId, amount: Amount },
    Amortize { debt_id: DebtId, amount: Amount },
}

/// An operation, with the group it concerns.
#[derive(Debug, Clone, Copy)]
pub enum Operation {
    Wallet(WalletOperation),
    Loan(DebtOperation),
    Debt(DebtOperation),
}

/// Why an operation was refused, with the group it concerned.
#[derive(Debug, Clone, Copy, PartialEq, Eq, Structural)]
pub enum Error {
    Wallet(crate::money_record::Error),
    Debt(crate::money_record::Error),
    Loan(crate::money_record::Error),
}

/// The key and action a wallet operation comes to.
pub open spec fn wallet_action(op: WalletOperation) -> (WalletId, Action) {
    match op {
        WalletOperation::Create { wallet_id, currency } => (wallet_id, Action::Create(currency)),
        WalletOperation::Delete { wallet_id } => (wallet_id, Action::Remove),
        WalletOperation::Deposit { wallet_id, amount } => (wallet_id, Action::Add(amount)),
        WalletOperation::Deduct { wallet_id, amount } => (wallet_id, Action::Sub(amount)),
    }
}

/// The key and action a debt operation comes to.
pub open spec fn debt_action(op: DebtOperation) -> (DebtId, Action) {
    match op {
        DebtOperation::Incur { debt_id, currency } => (debt_id, Action::Create(currency)),
        DebtOperation::Forget { debt_id } => (debt_id, Action::Remove),
        DebtOperation::Accumulate { debt_id, amount } => (debt_id, Action::Add(amount)),
        DebtOperation::Amortize { debt_id, amount } => (debt_id, Action::Sub(amount)),
    }
}

/// The operation adds no more than an amount can hold.
pub open spec fn op_fits(s: SnapshotView, op: Operation) -> bool {
    match op {
        Operation::Wallet(o) => action_fits(s.wallets, wallet_action(o).0, wallet_action(o).1),
        Operation::Debt(o) => action_fits(s.debts, debt_action(o).0, debt_action(o).1),
        Operation::Loan(o) => action_fits(s.loans, debt_action(o).0, debt_action(o).1),
    }
}

/// The books after an operation, or why it is refused.
pub open spec fn apply_spec(s: SnapshotView, op: Operation) -> Result<SnapshotView, Error> {
    match op {
        Operation::Wallet(o) => match action_spec(s.wallets, wallet_action(o).0, wallet_action(o).1) {
            Ok(w) => Ok(SnapshotView { wallets: w, ..s }),
            Err(e) => Err(Error::Wallet(e)),
        },
        Operation::Debt(o) => match action_spec(s.debts, debt_action(o).0, debt_action(o).1) {
            Ok(d) => Ok(SnapshotView { debts: d, ..s }),
            Err(e) => Err(Error::Debt(e)),
        },
        Operation::Loan(o) => match action_spec(s.loans, debt_action(o).0, debt_action(o).1) {
            Ok(l) => Ok(SnapshotView { loans: l, ..s }),
            Err(e) => Err(Error::Loan(e)),
        },
    }
}

/// The key and action a debt operation comes to.
pub fn extract_action(event: DebtOperation) -> (r: (DebtId, Action))
    ensures
        r == debt_action(event),
{
    match event {
        DebtOperation::Incur { debt_id, currency } => (debt_id, Action::Create(currency)),
        DebtOperation::Forget { debt_id } => (debt_id, Action::Remove),
        DebtOperation::Accumulate { debt_id, amount } => (debt_id, Action::Add(amount)),
        DebtOperation::Amortize { debt_id, amount } => (debt_id, Action::Sub(amount)),
    }
}

impl Snapshot {
    /// The three records are well formed.
    pub open spec fn wf(&self) -> bool {
        self.wallets.wf() && self.debts.wf() && self.loans.wf()
    }

    /// Books with no balance.
    pub fn new() -> (r: Self)
        ensures
            r.wf(),
            r@.wallets == Map::<WalletId, MoneyStorage>::empty(),
            r@.debts == Map::<DebtId, MoneyStorage>::empty(),
            r@.loans == Map::<DebtId, MoneyStorage>::empty(),
    {
        Snapshot { wallets: MoneyRecord::new(), debts: MoneyRecord::new(), loans: MoneyRecord::new() }
    }

    /// Applies one operation (see `apply_spec`); a refused operation leaves
    /// the books as they were.
    pub fn apply(&mut self, event: Operation) -> (r: Result<(), Error>)
        requires
            old(self).wf(),
            op_fits(old(self)@, event),
        ensures
            final(self).wf(),
            match r {
                Ok(_) => apply_spec(old(self)@, event) == Ok::<SnapshotView, Error>(final(self)@),
                Err(e) => apply_spec(old(self)@, event) == Err::<SnapshotView, Error>(e)
                    && final(self)@ == old(self)@,
            },
    {
        match event {
            Operation::Wallet(event) => {
                let (wallet_id, action) = match event {
                    WalletOperation::Create { wallet_id, currency } => (
                        wallet_id,
                        Action::Create(currency),
                    ),
                    WalletOperation::Delete { wallet_id } => (wallet_id, Action::Remove),
                    WalletOperation::Deposit { wallet_id, amount } => (
                        wallet_id,
                        Action::Add(amount),
                    ),
                    WalletOperation::Deduct { wallet_id, amount } => (
                        wallet_id,
                        Action::Sub(amount),
                    ),
                };
                match self.wallets.apply(wallet_id, action) {
                    Ok(()) => Ok(()),
                    Err(e) => Err(Error::Wallet(e)),
                }
            },
            Operation::Debt(event) => {
                let (debt_id, action) = extract_action(event);
                match self.debts.apply(debt_id, action) {
                    Ok(()) => Ok(()),
                    Err(e) => Err(Error::Debt(e)),
                }
            },
            Operation::Loan(event) => {
                let (debt_id, action) = extract_action(event);
                match self.loans.apply(debt_id, action) {
                    Ok(()) => Ok(()),
                    Err(e) => Err(Error::Loan(e)),
                }
            },
        }
    }
}

impl Default for Snapshot {
    /// Books with no balance.
    fn default() -> (r: Self)
        ensures
            r.wf(),
            r@.wallets == Map::<WalletId, MoneyStorage>::empty(),
            r@.debts == Map::<DebtId, MoneyStorage>::empty(),
            r@.loans == Map::<DebtId, MoneyStorage>::empty(),
    {
        Snapshot::new()
    }
}

/// The message of a refusal of a debt or loan action.
pub open spec fn debt_error_message(e: crate::money_record::Error) -> Seq<char> {
    match e {
        crate::money_record::Error::NotFound => "debt not found"@,
        crate::money_record::Error::CannotSub => "debt amortize overflow"@,
        crate::money_record::Error::AlreadyExists => "debt already exists"@,
    }
}

/// The message that tells the user why an operation was refused: debts are
/// "in" debts, loans "out" debts.
pub open spec fn error_message(e: Error) -> Seq<char> {
    match e {
        Error::Wallet(crate::money_record::Error::NotFound) => "wallet not found"@,
        Error::Wallet(crate::money_record::Error::CannotSub) => "cannot deduct from wallet"@,
        Error::Wallet(crate::money_record::Error::AlreadyExists) => "wallet already exists"@,
        Error::Debt(d) => "in "@ + debt_error_message(d),
        Error::Loan(d) => "out "@ + debt_error_message(d),
    }
}

fn debt_message(e: crate::money_record::Error) -> (r: &'static str)
    ensures
        r@ == debt_error_message(e),
{
    match e {
        crate::money_record::Error::NotFound => "debt not found",
        crate::money_record::Error::CannotSub => "debt amortize overflow",
        crate::money_record::Error::AlreadyExists => "debt already exists",
    }
}

impl Error {
    /// The message that tells the user why the operation was refused.
    pub fn message(&self) -> (r: String)
        ensures
            r@ == error_message(*self),
    {
        match self {
            Error::Wallet(crate::money_record::Error::NotFound) => crate::text::owned(
                "wallet not found",
            ),
            Error::Wallet(crate::money_record::Error::CannotSub) => crate::text::owned(
                "cannot deduct from wallet",
            ),
            Error::Wallet(crate::money_record::Error::AlreadyExists) => crate::text::owned(
                "wallet already exists",
            ),
            Error::Debt(d) => {
                let mut s = crate::text::owned("in ");
                crate::text::push_str(&mut s, debt_message(*d));
                s
            },
            Error::Loan(d) => {
                let mut s = crate::text::owned("out ");
                crate::text::push_str(&mut s, debt_message(*d));
                s
            },
        }
    }
}

/// What each operation on the wallets does to the record books, written out:
/// `Create` opens a balance of zero in the currency under a key the wallets lack;
/// `Delete` removes the balance under a key they hold, whatever it holds;
/// `Deposit` adds the amount to it; `Deduct` takes the amount away when the
/// balance holds at least that much. A key they lack is `NotFound` for the
/// last three, a key they hold is `AlreadyExists` for the first, taking
/// past the balance is `CannotSub`; only the wallets change.
pub proof fn lemma_wallet_operations(s: SnapshotView, op: WalletOperation)
    requires
        op_fits(s, Operation::Wallet(op)),
    ensures
        ({
            let r = apply_spec(s, Operation::Wallet(op));
            match op {
                WalletOperation::Create { wallet_id: k, currency: c } => if s.wallets.contains_key(k) {
                    r == Err::<SnapshotView, Error>(Error::Wallet(crate::money_record::Error::AlreadyExists))
                } else {
                    r == Ok::<SnapshotView, Error>(SnapshotView { wallets: s.wallets.insert(k, MoneyStorage { balance: Amount { units: 0 }, currency: c }), debts: s.debts, loans: s.loans })
                },
                WalletOperation::Delete { wallet_id: k } => if s.wallets.contains_key(k) {
                    r == Ok::<SnapshotView, Error>(SnapshotView { wallets: s.wallets.remove(k), debts: s.debts, loans: s.loans })
                } else {
                    r == Err::<SnapshotView, Error>(Error::Wallet(crate::money_record::Error::NotFound))
                },
                WalletOperation::Deposit { wallet_id: k, amount: a } => if !s.wallets.contains_key(k) {
                    r == Err::<SnapshotView, Error>(Error::Wallet(crate::money_record::Error::NotFound))
                } else {
                    r == Ok::<SnapshotView, Error>(SnapshotView { wallets: s.wallets.insert(k, MoneyStorage { balance: Amount { units: (s.wallets[k].balance.units + a.units) as u64 }, currency: s.wallets[k].currency }), debts: s.debts, loans: s.loans })
                        && s.wallets[k].balance.units + a.units <= u64::MAX
                },
                WalletOperation::Deduct { wallet_id: k, amount: a } => if !s.wallets.contains_key(k) {
                    r == Err::<SnapshotView, Error>(Error::Wallet(crate::money_record::Error::NotFound))
                } else if a.units > s.wallets[k].balance.units {
                    r == Err::<SnapshotView, Error>(Error::Wallet(crate::money_record::Error::CannotSub))
                } else {
                    r == Ok::<SnapshotView, Error>(SnapshotView { wallets: s.wallets.insert(k, MoneyStorage { balance: Amount { units: (s.wallets[k].balance.units - a.units) as u64 }, currency: s.wallets[k].currency }), debts: s.debts, loans: s.loans })
                },
            }
        }),
{
}

/// What each operation on the debts does to the record books, written out:
/// `Incur` opens a balance of zero in the currency under a key the debts lack;
/// `Forget` removes the balance under a key they hold, whatever it holds;
/// `Accumulate` adds the amount to it; `Amortize` takes the amount away when the
/// balance holds at least that much. A key they lack is `NotFound` for the
/// last three, a key they hold is `AlreadyExists` for the first, taking
/// past the balance is `CannotSub`; only the debts change.
pub proof fn lemma_debt_operations(s: SnapshotView, op: DebtOperation)
    requires
        op_fits(s, Operation::Debt(op)),
    ensures
        ({
            let r = apply_spec(s, Operation::Debt(op));
            match op {
                DebtOperation::Incur { debt_id: k, currency: c } => if s.debts.contains_key(k) {
                    r == Err::<SnapshotView, Error>(Error::Debt(crate::money_record::Error::AlreadyExists))
                } else {
                    r == Ok::<SnapshotView, Error>(SnapshotView { wallets: s.wallets, debts: s.debts.insert(k, MoneyStorage { balance: Amount { units: 0 }, currency: c }), loans: s.loans })
                },
                DebtOperation::Forget { debt_id: k } => if s.debts.contains_key(k) {
                    r == Ok::<SnapshotView, Error>(SnapshotView { wallets: s.wallets, debts: s.debts.remove(k), loans: s.loans })
                } else {
                    r == Err::<SnapshotView, Error>(Error::Debt(crate::money_record::Error::NotFound))
                },
                DebtOperation::Accumulate { debt_id: k, amount: a } => if !s.debts.contains_key(k) {
                    r == Err::<SnapshotView, Error>(Error::Debt(crate::money_record::Error::NotFound))
                } else {
                    r == Ok::<SnapshotView, Error>(SnapshotView { wallets: s.wallets, debts: s.debts.insert(k, MoneyStorage { balance: Amount { units: (s.debts[k].balance.units + a.units) as u64 }, currency: s.debts[k].currency }), loans: s.loans })
                        && s.debts[k].balance.units + a.units <= u64::MAX
                },
                DebtOperation::Amortize { debt_id: k, amount: a } => if !s.debts.contains_key(k) {
                    r == Err::<SnapshotView, Error>(Error::Debt(crate::money_record::Error::NotFound))
                } else if a.units > s.debts[k].balance.units {
                    r == Err::<SnapshotView, Error>(Error::Debt(crate::money_record::Error::CannotSub))
                } else {
                    r == Ok::<SnapshotView, Error>(SnapshotView { wallets: s.wallets, debts: s.debts.insert(k, MoneyStorage { balance: Amount { units: (s.debts[k].balance.units - a.units) as u64 }, currency: s.debts[k].currency }), loans: s.loans })
                },
            }
        }),
{
}

/// What each operation on the loans does to the record books, written out:
/// `Incur` opens a balance of zero in the currency under a key the loans lack;
/// `Forget` removes the balance under a key they hold, whatever it holds;
/// `Accumulate` adds the amount to it; `Amortize` takes the amount away when the
/// balance holds at least that much. A key they lack is `NotFound` for the
/// last three, a key they hold is `AlreadyExists` for the first, taking
/// past the balance is `CannotSub`; only the loans change.
pub proof fn lemma_loan_operations(s: SnapshotView, op: DebtOperation)
    requires
        op_fits(s, Operation::Loan(op)),
    ensures
        ({
            let r = apply_spec(s, Operation::Loan(op));
            match op {
                DebtOperation::Incur { debt_id: k, currency: c } => if s.loans.contains_key(k) {
                    r == Err::<SnapshotView, Error>(Error::Loan(crate::money_record::Error::AlreadyExists))
                } else {
                    r == Ok::<SnapshotView, Error>(SnapshotView { wallets: s.wallets, debts: s.debts, loans: s.loans.insert(k, MoneyStorage { balance: Amount { units: 0 }, currency: c }) })
                },
                DebtOperation::Forget { debt_id: k } => if s.loans.contains_key(k) {
                    r == Ok::<SnapshotView, Error>(SnapshotView { wallets: s.wallets, debts: s.debts, loans: s.loans.remove(k) })
                } else {
                    r == Err::<SnapshotView, Error>(Error::Loan(crate::money_record::Error::NotFound))
                },
                DebtOperation::Accumulate { debt_id: k, amount: a } => if !s.loans.contains_key(k) {
                    r == Err::<SnapshotView, Error>(Error::Loan(crate::money_record::Error::NotFound))
                } else {
                    r == Ok::<SnapshotView, Error>(SnapshotView { wallets: s.wallets, debts: s.debts, loans: s.loans.insert(k, MoneyStorage { balance: Amount { units: (s.loans[k].balance.units + a.units) as u64 }, currency: s.loans[k].currency }) })
                        && s.loans[k].balance.units + a.units <= u64::MAX
                },
                DebtOperation::Amortize { debt_id: k, amount: a } => if !s.loans.contains_key(k) {
                    r == Err::<SnapshotView, Error>(Error::Loan(crate::money_record::Error::NotFound))
                } else if a.units > s.loans[k].balance.units {
                    r == Err::<SnapshotView, Error>(Error::Loan(crate::money_record::Error::CannotSub))
                } else {
                    r == Ok::<SnapshotView, Error>(SnapshotView { wallets: s.wallets, debts: s.debts, loans: s.loans.insert(k, MoneyStorage { balance: Amount { units: (s.loans[k].balance.units - a.units) as u64 }, currency: s.loans[k].currency }) })
                },
            }
        }),
{
}

} // verus!
