//! The state of the books: wallets, debts and loans, and the operations
//! that change them.
use vstd::prelude::*;
use crate::amount::Amount;
use crate::ids::{ActorId, CurrencyId, DebtId, WalletId};

pub mod money;

use money::{
    add_fits, add_spec, create_spec, remove_spec, sub_spec, Money, MoneyError, MoneyHost, MoneyMap,
};

verus! {

/// A wallet: money in one currency.
#[derive(Debug, Clone, Copy)]
pub struct Wallet {
    pub money: Money,
}

impl MoneyHost for Wallet {
    type Key = WalletId;
    type Data = ();

    open spec fn spec_money(&self) -> Money {
        self.money
    }

    open spec fn spec_with_amount(self, amount: Amount) -> Self {
        Wallet { money: Money { amount, currency_id: self.money.currency_id } }
    }

    open spec fn spec_create(money: Money, data: ()) -> Self {
        Wallet { money }
    }

    fn money(&self) -> (m: Money) {
        self.money
    }

    fn with_amount(self, amount: Amount) -> (r: Self) {
        Wallet { money: Money { amount, currency_id: self.money.currency_id } }
    }

    fn create(money: Money, data: ()) -> (r: Self) {
        Wallet { money }
    }

    proof fn lemma_with_amount(self, amount: Amount) {
    }

    proof fn lemma_create(money: Money, data: ()) {
    }
}

/// A debt: money in one currency owed to or by an actor.
#[derive(Debug, Clone, Copy)]
pub struct Debt {
    pub money: Money,
    pub actor_id: ActorId,
}

impl MoneyHost for Debt {
    type Key = DebtId;
    type Data = ActorId;

    open spec fn spec_money(&self) -> Money {
        self.money
    }

    open spec fn spec_with_amount(self, amount: Amount) -> Self {
        Debt { money: Money { amount, currency_id: self.money.currency_id }, actor_id: self.actor_id }
    }

    open spec fn spec_create(money: Money, data: ActorId) -> Self {
        Debt { money, actor_id: data }
    }

    fn money(&self) -> (m: Money) {
        self.money
    }

    fn with_amount(self, amount: Amount) -> (r: Self) {
        Debt { money: Money { amount, currency_id: self.money.currency_id }, actor_id: self.actor_id }
    }

    fn create(money: Money, data: ActorId) -> (r: Self) {
        Debt { money, actor_id: data }
    }

    proof fn lemma_with_amount(self, amount: Amount) {
    }

    proof fn lemma_create(money: Money, data: ActorId) {
    }
}

/// The books: every wallet, the debts I should pay and the loans that
/// should be paid to me.
pub struct Snapshot {
    pub wallets: MoneyMap<Wallet>,
    /// Debts that I should pay
    pub debts: MoneyMap<Debt>,
    /// Debts that should be payed to me
    pub loans: MoneyMap<Debt>,
}

/// What a snapshot holds.
pub struct SnapshotView {
    pub wallets: Map<WalletId, Wallet>,
    pub debts: Map<DebtId, Debt>,
    pub loans: Map<DebtId, Debt>,
}

impl View for Snapshot {
    type V = SnapshotView;

    open spec fn view(&self) -> SnapshotView {
        SnapshotView { wallets: self.wallets@, debts: self.debts@, loans: self.loans@ }
    }
}

/// An operation on the wallets.
#[derive(Debug, Clone, Copy)]
pub enum WalletOperation {
    Create { wallet_id: WalletId, currency_id: CurrencyId },
    /// Does not handle transference before deletion
    Delete { wallet_id: WalletId },
    Deposit { wallet_id: WalletId, amount: Amount },
    Deduct { wallet_id: WalletId, amount: Amount },
}

/// An operation on the debts or on the loans.
#[derive(Debug, Clone, Copy)]
pub enum DebtOperation {
    Incur { debt_id: DebtId, currency_id: CurrencyId, actor_id: ActorId },
    /// Does not handle transference before deletion
    Forget { debt_id: DebtId },
    Accumulate { debt_id: DebtId, amount: Amount },
    Amortize { debt_id: DebtId, amount: Amount },
}

/// An operation on the books, with the group it concerns.
#[derive(Debug, Clone, Copy)]
pub enum Operation {
    Wallet(WalletOperation),
    Loan(DebtOperation),
    Debt(DebtOperation),
}

/// Why an operation was refused, with the group it concerned.
#[derive(Debug, Clone, Copy, PartialEq, Eq, Structural)]
pub enum Error {
    Wallet(MoneyError),
    Debt(MoneyError),
    Loan(MoneyError),
}

/// The wallets after a wallet operation.
pub open spec fn wallet_op_spec(m: Map<WalletId, Wallet>, op: WalletOperation) -> Result<
    Map<WalletId, Wallet>,
    MoneyError,
> {
    match op {
        WalletOperation::Create { wallet_id, currency_id } => create_spec(
            m,
            wallet_id,
            currency_id,
            (),
        ),
        WalletOperation::Delete { wallet_id } => remove_spec(m, wallet_id),
        WalletOperation::Deposit { wallet_id, amount } => add_spec(m, wallet_id, amount),
        WalletOperation::Deduct { wallet_id, amount } => sub_spec(m, wallet_id, amount),
    }
}

/// The debts (or loans) after a debt operation.
pub open spec fn debt_op_spec(m: Map<DebtId, Debt>, op: DebtOperation) -> Result<
    Map<DebtId, Debt>,
    MoneyError,
> {
    match op {
        DebtOperation::Incur { debt_id, currency_id, actor_id } => create_spec(
            m,
            debt_id,
            currency_id,
            actor_id,
        ),
        DebtOperation::Forget { debt_id } => remove_spec(m, debt_id),
        DebtOperation::Accumulate { debt_id, amount } => add_spec(m, debt_id, amount),
        DebtOperation::Amortize { debt_id, amount } => sub_spec(m, debt_id, amount),
    }
}

/// A wallet operation adds no more than an amount can hold.
pub open spec fn wallet_op_fits(m: Map<WalletId, Wallet>, op: WalletOperation) -> bool {
    match op {
        WalletOperation::Deposit { wallet_id, amount } => add_fits(m, wallet_id, amount),
        _ => true,
    }
}

/// A debt operation adds no more than an amount can hold.
pub open spec fn debt_op_fits(m: Map<DebtId, Debt>, op: DebtOperation) -> bool {
    match op {
        DebtOperation::Accumulate { debt_id, amount } => add_fits(m, debt_id, amount),
        _ => true,
    }
}

/// The operation adds no more than an amount can hold.
pub open spec fn op_fits(s: SnapshotView, op: Operation) -> bool {
    match op {
        Operation::Wallet(o) => wallet_op_fits(s.wallets, o),
        Operation::Debt(o) => debt_op_fits(s.debts, o),
        Operation::Loan(o) => debt_op_fits(s.loans, o),
    }
}

/// The books after an operation, or why it is refused.
pub open spec fn apply_spec(s: SnapshotView, op: Operation) -> Result<SnapshotView, Error> {
    match op {
        Operation::Wallet(o) => match wallet_op_spec(s.wallets, o) {
            Ok(w) => Ok(SnapshotView { wallets: w, ..s }),
            Err(e) => Err(Error::Wallet(e)),
        },
        Operation::Debt(o) => match debt_op_spec(s.debts, o) {
            Ok(d) => Ok(SnapshotView { debts: d, ..s }),
            Err(e) => Err(Error::Debt(e)),
        },
        Operation::Loan(o) => match debt_op_spec(s.loans, o) {
            Ok(l) => Ok(SnapshotView { loans: l, ..s }),
            Err(e) => Err(Error::Loan(e)),
        },
    }
}

fn apply_debt_operation(moneys: &mut MoneyMap<Debt>, event: DebtOperation) -> (r: Result<
    (),
    MoneyError,
>)
    requires
        old(moneys).wf(),
        debt_op_fits(old(moneys)@, event),
    ensures
        final(moneys).wf(),
        match r {
            Ok(_) => debt_op_spec(old(moneys)@, event) == Ok::<Map<DebtId, Debt>, MoneyError>(
                final(moneys)@,
            ),
            Err(e) => debt_op_spec(old(moneys)@, event) == Err::<Map<DebtId, Debt>, MoneyError>(e)
                && final(moneys)@ == old(moneys)@,
        },
{
    match event {
        DebtOperation::Incur { debt_id, currency_id, actor_id } => moneys.create(
            debt_id,
            currency_id,
            actor_id,
        ),
        DebtOperation::Forget { debt_id } => moneys.remove(debt_id),
        DebtOperation::Accumulate { debt_id, amount } => moneys.add(debt_id, amount),
        DebtOperation::Amortize { debt_id, amount } => moneys.sub(debt_id, amount),
    }
}

impl Snapshot {
    /// The three maps are well formed.
    pub open spec fn wf(&self) -> bool {
        self.wallets.wf() && self.debts.wf() && self.loans.wf()
    }

    /// Books with no wallet, debt or loan.
    pub fn new() -> (r: Self)
        ensures
            r.wf(),
            r@.wallets == Map::<WalletId, Wallet>::empty(),
            r@.debts == Map::<DebtId, Debt>::empty(),
            r@.loans == Map::<DebtId, Debt>::empty(),
    {
        Snapshot { wallets: MoneyMap::new(), debts: MoneyMap::new(), loans: MoneyMap::new() }
    }

    /// `true` when the operation adds no more than an amount can hold (see
    /// `op_fits`), so that it may be applied.
    pub fn fits(&self, event: Operation) -> (r: bool)
        requires
            self.wf(),
        ensures
            r == op_fits(self@, event),
    {
        match event {
            Operation::Wallet(WalletOperation::Deposit { wallet_id, amount }) => self.wallets.fits_add(
                &wallet_id,
                amount,
            ),
            Operation::Debt(DebtOperation::Accumulate { debt_id, amount }) => self.debts.fits_add(
                &debt_id,
                amount,
            ),
            Operation::Loan(DebtOperation::Accumulate { debt_id, amount }) => self.loans.fits_add(
                &debt_id,
                amount,
            ),
            _ => true,
        }
    }

    /// Applies one operation (see `apply_spec`); a refused operation leaves
    /// the books as they were.
    pub fn apply(&mut self, event: Operation) -> (r: Result<(), Error>)
        requires
            old(self).wf(),
            op_fits(old(self)@, event),
        ensures
            final(self).wf(),
            match r {
                Ok(_) => apply_spec(old(self)@, event) == Ok::<SnapshotView, Error>(final(self)@),
                Err(e) => apply_spec(old(self)@, event) == Err::<SnapshotView, Error>(e)
                    && final(self)@ == old(self)@,
            },
    {
        match event {
            Operation::Wallet(operation) => {
                let result = match operation {
                    WalletOperation::Create { wallet_id, currency_id } => self.wallets.create(
                        wallet_id,
                        currency_id,
                        (),
                    ),
                    WalletOperation::Deposit { wallet_id, amount } => self.wallets.add(
                        wallet_id,
                        amount,
                    ),
                    WalletOperation::Deduct { wallet_id, amount } => self.wallets.sub(
                        wallet_id,
                        amount,
                    ),
                    WalletOperation::Delete { wallet_id } => self.wallets.remove(wallet_id),
                };
                match result {
                    Ok(()) => Ok(()),
                    Err(e) => Err(Error::Wallet(e)),
                }
            },
            Operation::Debt(operation) => match apply_debt_operation(&mut self.debts, operation) {
                Ok(()) => Ok(()),
                Err(e) => Err(Error::Debt(e)),
            },
            Operation::Loan(operation) => match apply_debt_operation(&mut self.loans, operation) {
                Ok(()) => Ok(()),
                Err(e) => Err(Error::Loan(e)),
            },
        }
    }
}

impl Default for Snapshot {
    /// Books with no wallet, debt or loan.
    fn default() -> (r: Self)
        ensures
            r.wf(),
            r@.wallets == Map::<WalletId, Wallet>::empty(),
            r@.debts == Map::<DebtId, Debt>::empty(),
            r@.loans == Map::<DebtId, Debt>::empty(),
    {
        Snapshot::new()
    }
}

/// The operation that undoes `op`, where there is one: deleting a created
/// holder, and taking back (or giving back) an added (or taken) amount. A
/// deletion has none, since it forgets what was held.
pub open spec fn inverse(op: Operation) -> Option<Operation> {
    match op {
        Operation::Wallet(o) => match o {
            WalletOperation::Create { wallet_id, .. } => Some(
                Operation::Wallet(WalletOperation::Delete { wallet_id }),
            ),
            WalletOperation::Deposit { wallet_id, amount } => Some(
                Operation::Wallet(WalletOperation::Deduct { wallet_id, amount }),
            ),
            WalletOperation::Deduct { wallet_id, amount } => Some(
                Operation::Wallet(WalletOperation::Deposit { wallet_id, amount }),
            ),
            WalletOperation::Delete { .. } => None,
        },
        Operation::Debt(o) => match debt_inverse(o) {
            Some(i) => Some(Operation::Debt(i)),
            None => None,
        },
        Operation::Loan(o) => match debt_inverse(o) {
            Some(i) => Some(Operation::Loan(i)),
            None => None,
        },
    }
}

/// The debt operation that undoes `op`, where there is one.
pub open spec fn debt_inverse(op: DebtOperation) -> Option<DebtOperation> {
    match op {
        DebtOperation::Incur { debt_id, .. } => Some(DebtOperation::Forget { debt_id }),
        DebtOperation::Accumulate { debt_id, amount } => Some(
            DebtOperation::Amortize { debt_id, amount },
        ),
        DebtOperation::Amortize { debt_id, amount } => Some(
            DebtOperation::Accumulate { debt_id, amount },
        ),
        DebtOperation::Forget { .. } => None,
    }
}

proof fn lemma_debt_inverse(m: Map<DebtId, Debt>, op: DebtOperation)
    requires
        debt_op_spec(m, op) is Ok,
        debt_op_fits(m, op),
        debt_inverse(op) is Some,
    ensures
        debt_op_fits(debt_op_spec(m, op)->Ok_0, debt_inverse(op)->Some_0),
        debt_op_spec(debt_op_spec(m, op)->Ok_0, debt_inverse(op)->Some_0) == Ok::<
            Map<DebtId, Debt>,
            MoneyError,
        >(m),
{
    match op {
        DebtOperation::Incur { debt_id, currency_id, actor_id } => {
            money::lemma_create_then_remove::<Debt>(m, debt_id, currency_id, actor_id);
        },
        DebtOperation::Accumulate { debt_id, amount } => {
            money::lemma_add_then_sub::<Debt>(m, debt_id, amount);
        },
        DebtOperation::Amortize { debt_id, amount } => {
            money::lemma_sub_then_add::<Debt>(m, debt_id, amount);
        },
        DebtOperation::Forget { .. } => {},
    }
}

/// An accepted operation is undone by its inverse (see `inverse`): applying
/// the inverse next is accepted and gives back the books as they were.
pub proof fn lemma_inverse_undoes(s: SnapshotView, op: Operation)
    requires
        op_fits(s, op),
        apply_spec(s, op) is Ok,
        inverse(op) is Some,
    ensures
        op_fits(apply_spec(s, op)->Ok_0, inverse(op)->Some_0),
        apply_spec(apply_spec(s, op)->Ok_0, inverse(op)->Some_0) == Ok::<SnapshotView, Error>(s),
{
    match op {
        Operation::Wallet(o) => {
            match o {
                WalletOperation::Create { wallet_id, currency_id } => {
                    money::lemma_create_then_remove::<Wallet>(s.wallets, wallet_id, currency_id, ());
                },
                WalletOperation::Deposit { wallet_id, amount } => {
                    money::lemma_add_then_sub::<Wallet>(s.wallets, wallet_id, amount);
                },
                WalletOperation::Deduct { wallet_id, amount } => {
                    money::lemma_sub_then_add::<Wallet>(s.wallets, wallet_id, amount);
                },
                WalletOperation::Delete { .. } => {},
            }
        },
        Operation::Debt(o) => {
            lemma_debt_inverse(s.debts, o);
        },
        Operation::Loan(o) => {
            lemma_debt_inverse(s.loans, o);
        },
    }
}

/// An operation changes only the group it names: a wallet operation leaves
/// the debts and loans alone, a debt operation the wallets and loans, a loan
/// operation the wallets and debts.
pub proof fn lemma_apply_changes_one_group(s: SnapshotView, op: Operation)
    requires
        apply_spec(s, op) is Ok,
    ensures
        op is Wallet ==> apply_spec(s, op)->Ok_0.debts == s.debts && apply_spec(s, op)->Ok_0.loans
            == s.loans,
        op is Debt ==> apply_spec(s, op)->Ok_0.wallets == s.wallets && apply_spec(s, op)->Ok_0.loans
            == s.loans,
        op is Loan ==> apply_spec(s, op)->Ok_0.wallets == s.wallets && apply_spec(s, op)->Ok_0.debts
            == s.debts,
{
}

/// Depositing into or deducting from a wallet keeps its currency, changes
/// its balance by exactly the amount, and touches no other wallet.
pub proof fn lemma_wallet_amount_changes(s: SnapshotView, op: WalletOperation)
    requires
        apply_spec(s, Operation::Wallet(op)) is Ok,
        op_fits(s, Operation::Wallet(op)),
        op is Deposit || op is Deduct,
    ensures
        ({
            let after = apply_spec(s, Operation::Wallet(op))->Ok_0.wallets;
            let (id, amount) = match op {
                WalletOperation::Deposit { wallet_id, amount } => (wallet_id, amount),
                WalletOperation::Deduct { wallet_id, amount } => (wallet_id, amount),
                _ => arbitrary(),
            };
            &&& s.wallets.contains_key(id)
            &&& after.dom() == s.wallets.dom()
            &&& after[id].money.currency_id == s.wallets[id].money.currency_id
            &&& op is Deposit ==> after[id].money.amount.units == s.wallets[id].money.amount.units
                + amount.units
            &&& op is Deduct ==> after[id].money.amount.units == s.wallets[id].money.amount.units
                - amount.units
            &&& forall|k: WalletId| k != id && s.wallets.contains_key(k) ==> #[trigger] after[k]
                == s.wallets[k]
        }),
{
    let after = apply_spec(s, Operation::Wallet(op))->Ok_0.wallets;
    match op {
        WalletOperation::Deposit { wallet_id, amount } => {
            assert(after.dom() =~= s.wallets.dom());
        },
        WalletOperation::Deduct { wallet_id, amount } => {
            assert(after.dom() =~= s.wallets.dom());
        },
        _ => {},
    }
}

/// The message of a refusal of a debt or loan operation.
pub open spec fn debt_error_message(e: MoneyError) -> Seq<char> {
    match e {
        MoneyError::NotFound => "debt not found"@,
        MoneyError::CannotSub => "debt amortize overflow"@,
        MoneyError::AlreadyExists => "debt already exists"@,
    }
}

/// The message that tells the user why an operation was refused: debts are
/// "in" debts, loans "out" debts.
pub open spec fn error_message(e: Error) -> Seq<char> {
    match e {
        Error::Wallet(MoneyError::NotFound) => "wallet not found"@,
        Error::Wallet(MoneyError::CannotSub) => "cannot deduct from wallet"@,
        Error::Wallet(MoneyError::AlreadyExists) => "wallet already exists"@,
        Error::Debt(d) => "in "@ + debt_error_message(d),
        Error::Loan(d) => "out "@ + debt_error_message(d),
    }
}

fn debt_message(e: MoneyError) -> (r: &'static str)
    ensures
        r@ == debt_error_message(e),
{
    match e {
        MoneyError::NotFound => "debt not found",
        MoneyError::CannotSub => "debt amortize overflow",
        MoneyError::AlreadyExists => "debt already exists",
    }
}

impl Error {
    /// The message that tells the user why the operation was refused.
    pub fn message(&self) -> (r: String)
        ensures
            r@ == error_message(*self),
    {
        match self {
            Error::Wallet(MoneyError::NotFound) => crate::text::owned("wallet not found"),
            Error::Wallet(MoneyError::CannotSub) => crate::text::owned("cannot deduct from wallet"),
            Error::Wallet(MoneyError::AlreadyExists) => crate::text::owned("wallet already exists"),
            Error::Debt(d) => {
                let mut s = crate::text::owned("in ");
                crate::text::push_str(&mut s, debt_message(*d));
                s
            },
            Error::Loan(d) => {
                let mut s = crate::text::owned("out ");
                crate::text::push_str(&mut s, debt_message(*d));
                s
            },
        }
    }
}

/// What each wallet operation does to the books, written out: creating a
/// wallet the books lack opens it empty in the currency; deleting a wallet
/// the books hold removes it whatever it holds; depositing adds the amount
/// to the wallet; deducting takes the amount away when the wallet holds at
/// least that much. A wallet the books lack is `NotFound` for the last three,
/// a wallet they hold is `AlreadyExists` for the first, a deduction past the
/// balance is `CannotSub`; debts and loans never change.
pub proof fn lemma_wallet_operations(s: SnapshotView, op: WalletOperation)
    requires
        op_fits(s, Operation::Wallet(op)),
    ensures
        ({
            let r = apply_spec(s, Operation::Wallet(op));
            match op {
                WalletOperation::Create { wallet_id: w, currency_id: c } => if s.wallets.contains_key(
                    w,
                ) {
                    r == Err::<SnapshotView, Error>(Error::Wallet(MoneyError::AlreadyExists))
                } else {
                    r == Ok::<SnapshotView, Error>(
                        SnapshotView {
                            wallets: s.wallets.insert(
                                w,
                                Wallet { money: Money { amount: Amount { units: 0 }, currency_id: c } },
                            ),
                            debts: s.debts,
                            loans: s.loans,
                        },
                    )
                },
                WalletOperation::Delete { wallet_id: w } => if s.wallets.contains_key(w) {
                    r == Ok::<SnapshotView, Error>(
                        SnapshotView { wallets: s.wallets.remove(w), debts: s.debts, loans: s.loans },
                    )
                } else {
                    r == Err::<SnapshotView, Error>(Error::Wallet(MoneyError::NotFound))
                },
                WalletOperation::Deposit { wallet_id: w, amount: a } => if !s.wallets.contains_key(w) {
                    r == Err::<SnapshotView, Error>(Error::Wallet(MoneyError::NotFound))
                } else {
                    r == Ok::<SnapshotView, Error>(
                        SnapshotView {
                            wallets: s.wallets.insert(
                                w,
                                Wallet {
                                    money: Money {
                                        amount: Amount {
                                            units: (s.wallets[w].money.amount.units + a.units) as u64,
                                        },
                                        currency_id: s.wallets[w].money.currency_id,
                                    },
                                },
                            ),
                            debts: s.debts,
                            loans: s.loans,
                        },
                    ) && s.wallets[w].money.amount.units + a.units <= u64::MAX
                },
                WalletOperation::Deduct { wallet_id: w, amount: a } => if !s.wallets.contains_key(w) {
                    r == Err::<SnapshotView, Error>(Error::Wallet(MoneyError::NotFound))
                } else if a.units > s.wallets[w].money.amount.units {
                    r == Err::<SnapshotView, Error>(Error::Wallet(MoneyError::CannotSub))
                } else {
                    r == Ok::<SnapshotView, Error>(
                        SnapshotView {
                            wallets: s.wallets.insert(
                                w,
                                Wallet {
                                    money: Money {
                                        amount: Amount {
                                            units: (s.wallets[w].money.amount.units - a.units) as u64,
                                        },
                                        currency_id: s.wallets[w].money.currency_id,
                                    },
                                },
                            ),
                            debts: s.debts,
                            loans: s.loans,
                        },
                    )
                },
            }
        }),
{
}

/// What each debt (a debt I owe) operation does to the books, written out: incurring a
/// debt the debts lack opens it empty in the currency with the actor;
/// forgetting one they hold removes it whatever it holds; accumulating adds
/// the amount to it; amortizing takes the amount away when it holds at
/// least that much. Only the debts change, and a refusal names the debts.
pub proof fn lemma_debt_operations(s: SnapshotView, op: DebtOperation)
    requires
        op_fits(s, Operation::Debt(op)),
    ensures
        ({
            let r = apply_spec(s, Operation::Debt(op));
            match op {
                DebtOperation::Incur { debt_id: d, currency_id: c, actor_id: x } => if s.debts.contains_key(d) {
                    r == Err::<SnapshotView, Error>(Error::Debt(MoneyError::AlreadyExists))
                } else {
                    r == Ok::<SnapshotView, Error>(SnapshotView { wallets: s.wallets, debts: s.debts.insert(d, Debt { money: Money { amount: Amount { units: 0 }, currency_id: c }, actor_id: x }), loans: s.loans })
                },
                DebtOperation::Forget { debt_id: d } => if s.debts.contains_key(d) {
                    r == Ok::<SnapshotView, Error>(SnapshotView { wallets: s.wallets, debts: s.debts.remove(d), loans: s.loans })
                } else {
                    r == Err::<SnapshotView, Error>(Error::Debt(MoneyError::NotFound))
                },
                DebtOperation::Accumulate { debt_id: d, amount: a } => if !s.debts.contains_key(d) {
                    r == Err::<SnapshotView, Error>(Error::Debt(MoneyError::NotFound))
                } else {
                    r == Ok::<SnapshotView, Error>(SnapshotView { wallets: s.wallets, debts: s.debts.insert(d, Debt { money: Money { amount: Amount { units: (s.debts[d].money.amount.units + a.units) as u64 }, currency_id: s.debts[d].money.currency_id }, actor_id: s.debts[d].actor_id }), loans: s.loans })
                        && s.debts[d].money.amount.units + a.units <= u64::MAX
                },
                DebtOperation::Amortize { debt_id: d, amount: a } => if !s.debts.contains_key(d) {
                    r == Err::<SnapshotView, Error>(Error::Debt(MoneyError::NotFound))
                } else if a.units > s.debts[d].money.amount.units {
                    r == Err::<SnapshotView, Error>(Error::Debt(MoneyError::CannotSub))
                } else {
                    r == Ok::<SnapshotView, Error>(SnapshotView { wallets: s.wallets, debts: s.debts.insert(d, Debt { money: Money { amount: Amount { units: (s.debts[d].money.amount.units - a.units) as u64 }, currency_id: s.debts[d].money.currency_id }, actor_id: s.debts[d].actor_id }), loans: s.loans })
                },
            }
        }),
{
}

/// What each loan (a debt owed to me) operation does to the books, written out: incurring a
/// debt the loans lack opens it empty in the currency with the actor;
/// forgetting one they hold removes it whatever it holds; accumulating adds
/// the amount to it; amortizing takes the amount away when it holds at
/// least that much. Only the loans change, and a refusal names the loans.
pub proof fn lemma_loan_operations(s: SnapshotView, op: DebtOperation)
    requires
        op_fits(s, Operation::Loan(op)),
    ensures
        ({
            let r = apply_spec(s, Operation::Loan(op));
            match op {
                DebtOperation::Incur { debt_id: d, currency_id: c, actor_id: x } => if s.loans.contains_key(d) {
                    r == Err::<SnapshotView, Error>(Error::Loan(MoneyError::AlreadyExists))
                } else {
                    r == Ok::<SnapshotView, Error>(SnapshotView { wallets: s.wallets, debts: s.debts, loans: s.loans.insert(d, Debt { money: Money { amount: Amount { units: 0 }, currency_id: c }, actor_id: x }) })
                },
                DebtOperation::Forget { debt_id: d } => if s.loans.contains_key(d) {
                    r == Ok::<SnapshotView, Error>(SnapshotView { wallets: s.wallets, debts: s.debts, loans: s.loans.remove(d) })
                } else {
                    r == Err::<SnapshotView, Error>(Error::Loan(MoneyError::NotFound))
                },
                DebtOperation::Accumulate { debt_id: d, amount: a } => if !s.loans.contains_key(d) {
                    r == Err::<SnapshotView, Error>(Error::Loan(MoneyError::NotFound))
                } else {
                    r == Ok::<SnapshotView, Error>(SnapshotView { wallets: s.wallets, debts: s.debts, loans: s.loans.insert(d, Debt { money: Money { amount: Amount { units: (s.loans[d].money.amount.units + a.units) as u64 }, currency_id: s.loans[d].money.currency_id }, actor_id: s.loans[d].actor_id }) })
                        && s.loans[d].money.amount.units + a.units <= u64::MAX
                },
                DebtOperation::Amortize { debt_id: d, amount: a } => if !s.loans.contains_key(d) {
                    r == Err::<SnapshotView, Error>(Error::Loan(MoneyError::NotFound))
                } else if a.units > s.loans[d].money.amount.units {
                    r == Err::<SnapshotView, Error>(Error::Loan(MoneyError::CannotSub))
                } else {
                    r == Ok::<SnapshotView, Error>(SnapshotView { wallets: s.wallets, debts: s.debts, loans: s.loans.insert(d, Debt { money: Money { amount: Amount { units: (s.loans[d].money.amount.units - a.units) as u64 }, currency_id: s.loans[d].money.currency_id }, actor_id: s.loans[d].actor_id }) })
                },
            }
        }),
{
}

} // verus!
