//! Events of the books (purchases, transfers, balances, debts, payments)
//! and what each does to a snapshot.
use vstd::prelude::*;
use crate::amount::Amount;
use crate::date::Datetime;
use crate::ids::{ActorId, CurrencyId, DebtId, EventId, ItemTagId, WalletId};
use crate::snapshot::money::add_fits;
use crate::snapshot::{
    apply_spec, op_fits, DebtOperation, Operation, Snapshot, SnapshotView, WalletOperation,
};

verus! {

/// A debt (or loan) taken on: its amount, currency and actor.
#[derive(Debug, Clone, Copy)]
pub struct DebtRegister {
    pub amount: Amount,
    pub currency_id: CurrencyId,
    pub actor_id: ActorId,
    pub payment_promise: Option<Datetime>,
}

/// A purchase of an item, paid from a wallet.
#[derive(Debug, Clone)]
pub struct Buy {
    pub item: ItemTagId,
    pub actors: Vec<ActorId>,
    pub wallet_id: WalletId,
    pub amount: Amount,
}

/// Money moved from one wallet to another.
#[derive(Debug, Clone, Copy)]
pub struct MoveValue {
    pub from: WalletId,
    pub to: WalletId,
    pub amount: Amount,
}

/// Money added to a wallet.
#[derive(Debug, Clone, Copy)]
pub struct RegisterBalance {
    pub wallet_id: WalletId,
    pub amount: Amount,
}

/// A payment from an actor received into a wallet.
#[derive(Debug, Clone, Copy)]
pub struct PaymentReceived {
    pub actor_id: ActorId,
    pub wallet_id: WalletId,
    pub amount: Amount,
}

/// An event of the books.
#[derive(Debug, Clone)]
pub enum Event {
    Buy(Buy),
    MoveValue(MoveValue),
    RegisterBalance(RegisterBalance),
    RegisterDebt(DebtRegister),
    RegisterLoan(DebtRegister),
    PaymentReceived(PaymentReceived),
}

/// Announces that an event was added to the books.
#[derive(Debug, Clone, Copy)]
pub struct EventAdded {
    pub id: EventId,
}

impl EventAdded {
    /// The name the announcement is published under.
    pub fn name(&self) -> (r: &'static str)
        ensures
            r@ == "backoffice.events.added"@,
    {
        "backoffice.events.added"
    }

    /// The version of the announcement.
    pub fn version(&self) -> (r: &'static str)
        ensures
            r@ == "1.0.0"@,
    {
        "1.0.0"
    }
}

/// Why a transfer was refused.
#[derive(Debug, Clone, Copy)]
pub enum MoveValueError {
    CurrenciesNonEqual,
    WalletNotFound(WalletId),
}

/// Why an event was refused.
#[derive(Debug, Clone, Copy)]
pub enum Error {
    MoveValue(MoveValueError),
    Apply(crate::snapshot::Error),
}

/// The two operations that register a debt under `debt_id`: incur it, then
/// accumulate its amount.
pub open spec fn operators_spec(d: DebtRegister, debt_id: DebtId) -> Seq<DebtOperation> {
    seq![
        DebtOperation::Incur {
            currency_id: d.currency_id,
            actor_id: d.actor_id,
            debt_id,
        },
        DebtOperation::Accumulate { debt_id, amount: d.amount },
    ]
}

impl DebtRegister {
    /// The operations that register this debt under `debt_id`.
    pub fn operators_with_id(&self, debt_id: DebtId) -> (r: [DebtOperation; 2])
        ensures
            r@ == operators_spec(*self, debt_id),
    {
        let r = [
            DebtOperation::Incur {
                currency_id: self.currency_id,
                actor_id: self.actor_id,
                debt_id,
            },
            DebtOperation::Accumulate { debt_id, amount: self.amount },
        ];
        assert(r@ =~= operators_spec(*self, debt_id));
        r
    }

    /// The operations that register this debt under a fresh random
    /// identifier.
    pub fn create_operators(&self) -> (r: [DebtOperation; 2])
        ensures
            exists|debt_id: DebtId| r@ == operators_spec(*self, debt_id),
    {
        let debt_id = DebtId::new();
        self.operators_with_id(debt_id)
    }
}

/// The outcome of one operation, as an event error.
pub open spec fn lift(r: Result<SnapshotView, crate::snapshot::Error>) -> Result<
    SnapshotView,
    Error,
> {
    match r {
        Ok(s) => Ok(s),
        Err(e) => Err(Error::Apply(e)),
    }
}

/// Two operations in turn, stopping at the first refusal.
pub open spec fn then_spec(s: SnapshotView, first: Operation, second: Operation) -> Result<
    SnapshotView,
    Error,
> {
    match apply_spec(s, first) {
        Ok(s1) => lift(apply_spec(s1, second)),
        Err(e) => Err(Error::Apply(e)),
    }
}

/// The books after an event, or why it is refused; a registered debt or
/// loan is kept under `debt_id`. A purchase deducts from its wallet; a
/// balance or payment deposits into its wallet; a debt or loan is incurred
/// and then accumulated; a transfer needs both wallets, in one currency, and
/// deducts from the first before depositing into the second.
#[verifier::opaque]
pub open spec fn event_spec(s: SnapshotView, event: Event, debt_id: DebtId) -> Result<
    SnapshotView,
    Error,
> {
    match event {
        Event::Buy(b) => lift(
            apply_spec(
                s,
                Operation::Wallet(
                    WalletOperation::Deduct { wallet_id: b.wallet_id, amount: b.amount },
                ),
            ),
        ),
        Event::RegisterBalance(r) => lift(
            apply_spec(
                s,
                Operation::Wallet(
                    WalletOperation::Deposit { wallet_id: r.wallet_id, amount: r.amount },
                ),
            ),
        ),
        Event::RegisterDebt(d) => then_spec(
            s,
            Operation::Debt(operators_spec(d, debt_id)[0]),
            Operation::Debt(operators_spec(d, debt_id)[1]),
        ),
        Event::RegisterLoan(d) => then_spec(
            s,
            Operation::Loan(operators_spec(d, debt_id)[0]),
            Operation::Loan(operators_spec(d, debt_id)[1]),
        ),
        Event::MoveValue(m) => if !s.wallets.contains_key(m.from) {
            Err(Error::MoveValue(MoveValueError::WalletNotFound(m.from)))
        } else if !s.wallets.contains_key(m.to) {
            Err(Error::MoveValue(MoveValueError::WalletNotFound(m.to)))
        } else if s.wallets[m.from].money.currency_id != s.wallets[m.to].money.currency_id {
            Err(Error::MoveValue(MoveValueError::CurrenciesNonEqual))
        } else {
            then_spec(
                s,
                Operation::Wallet(WalletOperation::Deduct { wallet_id: m.from, amount: m.amount }),
                Operation::Wallet(WalletOperation::Deposit { wallet_id: m.to, amount: m.amount }),
            )
        },
        Event::PaymentReceived(p) => lift(
            apply_spec(
                s,
                Operation::Wallet(
                    WalletOperation::Deposit { wallet_id: p.wallet_id, amount: p.amount },
                ),
            ),
        ),
    }
}

/// A transfer between two different wallets gets as far as its deposit:
/// both wallets exist, in one currency, and the first holds the amount.
pub open spec fn move_reaches_deposit(s: SnapshotView, m: MoveValue) -> bool {
    &&& m.from != m.to
    &&& s.wallets.contains_key(m.from)
    &&& s.wallets.contains_key(m.to)
    &&& s.wallets[m.from].money.currency_id == s.wallets[m.to].money.currency_id
    &&& m.amount.units <= s.wallets[m.from].money.amount.units
}

/// The event adds no more to a balance than an amount can hold.
pub open spec fn event_fits(s: SnapshotView, event: Event) -> bool {
    match event {
        Event::RegisterBalance(r) => add_fits(s.wallets, r.wallet_id, r.amount),
        Event::PaymentReceived(p) => add_fits(s.wallets, p.wallet_id, p.amount),
        Event::MoveValue(m) => move_reaches_deposit(s, m) ==> add_fits(s.wallets, m.to, m.amount),
        _ => true,
    }
}

/// `true` when the event adds no more to a balance than an amount can hold
/// (see `event_fits`), so that it may be applied.
pub fn fits(snapshot: &Snapshot, event: &Event) -> (r: bool)
    requires
        snapshot.wf(),
    ensures
        r == event_fits(snapshot@, *event),
{
    match event {
        Event::RegisterBalance(b) => snapshot.wallets.fits_add(&b.wallet_id, b.amount),
        Event::PaymentReceived(p) => snapshot.wallets.fits_add(&p.wallet_id, p.amount),
        Event::MoveValue(m) => {
            let (from, to) = match (snapshot.wallets.get(&m.from), snapshot.wallets.get(&m.to)) {
                (Some(from), Some(to)) => (from, to),
                _ => {
                    return true;
                },
            };
            let same_wallet = m.from == m.to;
            let same_currency = from.money.currency_id == to.money.currency_id;
            proof {
                if same_wallet {
                    WalletId::lemma_view_eq(m.from, m.to);
                }
                if same_currency {
                    CurrencyId::lemma_view_eq(from.money.currency_id, to.money.currency_id);
                }
            }
            if same_wallet || !same_currency || m.amount.units > from.money.amount.units {
                true
            } else {
                snapshot.wallets.fits_add(&m.to, m.amount)
            }
        },
        _ => true,
    }
}

/// Applies a debt or loan registration under `debt_id`.
fn apply_debt_register(
    snapshot: &mut Snapshot,
    d: &DebtRegister,
    debt_id: DebtId,
    as_loan: bool,
) -> (r: Result<(), Error>)
    requires
        old(snapshot).wf(),
    ensures
        final(snapshot).wf(),
        r is Err ==> final(snapshot)@ == old(snapshot)@,
        match r {
            Ok(_) => event_spec(
                old(snapshot)@,
                if as_loan {
                    Event::RegisterLoan(*d)
                } else {
                    Event::RegisterDebt(*d)
                },
                debt_id,
            ) == Ok::<SnapshotView, Error>(final(snapshot)@),
            Err(e) => event_spec(
                old(snapshot)@,
                if as_loan {
                    Event::RegisterLoan(*d)
                } else {
                    Event::RegisterDebt(*d)
                },
                debt_id,
            ) == Err::<SnapshotView, Error>(e),
        },
{
    reveal(event_spec);
    let ops = d.operators_with_id(debt_id);
    let first = if as_loan {
        Operation::Loan(ops[0])
    } else {
        Operation::Debt(ops[0])
    };
    let second = if as_loan {
        Operation::Loan(ops[1])
    } else {
        Operation::Debt(ops[1])
    };
    if let Err(e) = snapshot.apply(first) {
        return Err(Error::Apply(e));
    }
    proof {
        if as_loan {
            assert(snapshot@.loans.contains_key(debt_id));
            assert(snapshot@.loans[debt_id].money.amount.units == 0);
        } else {
            assert(snapshot@.debts.contains_key(debt_id));
            assert(snapshot@.debts[debt_id].money.amount.units == 0);
        }
        assert(op_fits(snapshot@, second));
    }
    match snapshot.apply(second) {
        Ok(()) => Ok(()),
        Err(e) => Err(Error::Apply(e)),
    }
}

/// Applies an event with a registered debt or loan kept under `debt_id`
/// (see `event_spec`); a refused event leaves the books as they were.
pub fn apply_event_with_id(snapshot: &mut Snapshot, event: &Event, debt_id: DebtId) -> (r: Result<
    (),
    Error,
>)
    requires
        old(snapshot).wf(),
        event_fits(old(snapshot)@, *event),
    ensures
        final(snapshot).wf(),
        r is Err ==> final(snapshot)@ == old(snapshot)@,
        match r {
            Ok(_) => event_spec(old(snapshot)@, *event, debt_id) == Ok::<SnapshotView, Error>(
                final(snapshot)@,
            ),
            Err(e) => event_spec(old(snapshot)@, *event, debt_id) == Err::<SnapshotView, Error>(e),
        },
{
    reveal(event_spec);
    match event {
        Event::Buy(b) => match snapshot.apply(
            Operation::Wallet(WalletOperation::Deduct { wallet_id: b.wallet_id, amount: b.amount }),
        ) {
            Ok(()) => Ok(()),
            Err(e) => Err(Error::Apply(e)),
        },
        Event::RegisterBalance(rb) => match snapshot.apply(
            Operation::Wallet(
                WalletOperation::Deposit { wallet_id: rb.wallet_id, amount: rb.amount },
            ),
        ) {
            Ok(()) => Ok(()),
            Err(e) => Err(Error::Apply(e)),
        },
        Event::RegisterDebt(d) => apply_debt_register(snapshot, d, debt_id, false),
        Event::RegisterLoan(d) => apply_debt_register(snapshot, d, debt_id, true),
        Event::MoveValue(m) => {
            let from_wallet = match snapshot.wallets.get(&m.from) {
                Some(w) => w,
                None => {
                    return Err(Error::MoveValue(MoveValueError::WalletNotFound(m.from)));
                },
            };
            let to_wallet = match snapshot.wallets.get(&m.to) {
                Some(w) => w,
                None => {
                    return Err(Error::MoveValue(MoveValueError::WalletNotFound(m.to)));
                },
            };
            let same_currency = from_wallet.money.currency_id == to_wallet.money.currency_id;
            proof {
                if same_currency {
                    CurrencyId::lemma_view_eq(
                        from_wallet.money.currency_id,
                        to_wallet.money.currency_id,
                    );
                }
            }
            if !same_currency {
                return Err(Error::MoveValue(MoveValueError::CurrenciesNonEqual));
            }
            if let Err(e) = snapshot.apply(
                Operation::Wallet(WalletOperation::Deduct { wallet_id: m.from, amount: m.amount }),
            ) {
                return Err(Error::Apply(e));
            }
            proof {
                assert(snapshot@.wallets.contains_key(m.to));
                if m.from == m.to {
                    assert(snapshot@.wallets[m.to].money.amount.units + m.amount.units
                        == old(snapshot)@.wallets[m.to].money.amount.units);
                }
                assert(add_fits(snapshot@.wallets, m.to, m.amount));
            }
            match snapshot.apply(
                Operation::Wallet(WalletOperation::Deposit { wallet_id: m.to, amount: m.amount }),
            ) {
                Ok(()) => Ok(()),
                Err(e) => Err(Error::Apply(e)),
            }
        },
        Event::PaymentReceived(p) => match snapshot.apply(
            Operation::Wallet(WalletOperation::Deposit { wallet_id: p.wallet_id, amount: p.amount }),
        ) {
            Ok(()) => Ok(()),
            Err(e) => Err(Error::Apply(e)),
        },
    }
}

/// Applies an event; a registered debt or loan is kept under a fresh random
/// identifier. The outcome is that of `event_spec` for some identifier; a
/// refused event leaves the books as they were.
pub fn apply_event(snapshot: &mut Snapshot, event: &Event) -> (r: Result<(), Error>)
    requires
        old(snapshot).wf(),
        event_fits(old(snapshot)@, *event),
    ensures
        final(snapshot).wf(),
        r is Err ==> final(snapshot)@ == old(snapshot)@,
        exists|debt_id: DebtId|
            match r {
                Ok(_) => event_spec(old(snapshot)@, *event, debt_id) == Ok::<SnapshotView, Error>(
                    final(snapshot)@,
                ),
                Err(e) => event_spec(old(snapshot)@, *event, debt_id) == Err::<SnapshotView, Error>(
                    e,
                ),
            },
{
    let debt_id = DebtId::new();
    apply_event_with_id(snapshot, event, debt_id)
}

/// A transfer between two wallets moves exactly its amount: the first
/// wallet loses it, the second gains it, every other wallet, debt and loan
/// stays as it was, and a transfer from a wallet to itself changes nothing.
pub proof fn lemma_move_value_moves(s: SnapshotView, m: MoveValue, debt_id: DebtId)
    requires
        event_spec(s, Event::MoveValue(m), debt_id) is Ok,
        event_fits(s, Event::MoveValue(m)),
    ensures
        ({
            let after = event_spec(s, Event::MoveValue(m), debt_id)->Ok_0;
            &&& after.debts == s.debts
            &&& after.loans == s.loans
            &&& after.wallets.dom() == s.wallets.dom()
            &&& m.from == m.to ==> after == s
            &&& m.from != m.to ==> {
                &&& after.wallets[m.from].money.amount.units == s.wallets[m.from].money.amount.units
                    - m.amount.units
                &&& after.wallets[m.to].money.amount.units == s.wallets[m.to].money.amount.units
                    + m.amount.units
                &&& after.wallets[m.from].money.currency_id == s.wallets[m.from].money.currency_id
                &&& after.wallets[m.to].money.currency_id == s.wallets[m.to].money.currency_id
            }
            &&& forall|k: WalletId|
                k != m.from && k != m.to && s.wallets.contains_key(k) ==> #[trigger] after.wallets[k]
                    == s.wallets[k]
        }),
{
    reveal(event_spec);
    let after = event_spec(s, Event::MoveValue(m), debt_id)->Ok_0;
    let deduct = Operation::Wallet(WalletOperation::Deduct { wallet_id: m.from, amount: m.amount });
    let s1 = apply_spec(s, deduct)->Ok_0;
    assert(after.wallets.dom() =~= s.wallets.dom());
    if m.from == m.to {
        crate::snapshot::money::lemma_sub_then_add::<crate::snapshot::Wallet>(
            s.wallets,
            m.from,
            m.amount,
        );
        assert(after.wallets =~= s.wallets);
    }
}

/// A purchase is a deduction from its wallet, and a balance or a payment a
/// deposit into its wallet: the event gives what that wallet operation
/// gives, its refusal carried over.
pub proof fn lemma_wallet_events_are_operations(s: SnapshotView, event: Event, debt_id: DebtId)
    ensures
        event matches Event::Buy(b) ==> event_spec(s, event, debt_id) == lift(
            apply_spec(
                s,
                Operation::Wallet((WalletOperation::Deduct { wallet_id: b.wallet_id, amount: b.amount })),
            ),
        ),
        event matches Event::RegisterBalance(r) ==> event_spec(s, event, debt_id) == lift(
            apply_spec(
                s,
                Operation::Wallet((WalletOperation::Deposit { wallet_id: r.wallet_id, amount: r.amount })),
            ),
        ),
        event matches Event::PaymentReceived(p) ==> event_spec(s, event, debt_id) == lift(
            apply_spec(
                s,
                Operation::Wallet((WalletOperation::Deposit { wallet_id: p.wallet_id, amount: p.amount })),
            ),
        ),
{
    reveal(event_spec);
}

/// Registering a debt keeps a new debt under `debt_id`, of the registered
/// amount, currency and actor, and is refused exactly when `debt_id` is
/// already taken, in which case the books are unchanged.
pub proof fn lemma_register_debt(s: SnapshotView, d: DebtRegister, debt_id: DebtId)
    ensures
        event_spec(s, Event::RegisterDebt(d), debt_id) is Err <==> s.debts.contains_key(debt_id),
        event_spec(s, Event::RegisterDebt(d), debt_id) matches Ok(after) ==> {
            &&& after.wallets == s.wallets
            &&& after.loans == s.loans
            &&& after.debts.dom() == s.debts.dom().insert(debt_id)
            &&& after.debts[debt_id].money.amount == d.amount
            &&& after.debts[debt_id].money.currency_id == d.currency_id
            &&& after.debts[debt_id].actor_id == d.actor_id
            &&& forall|k: DebtId| k != debt_id && s.debts.contains_key(k) ==> #[trigger] after.debts[k]
                == s.debts[k]
        },
{
    reveal(event_spec);
    if let Ok(after) = event_spec(s, Event::RegisterDebt(d), debt_id) {
        assert(after.debts.dom() =~= s.debts.dom().insert(debt_id));
    }
}

/// Registering a loan keeps a new loan under `debt_id`, of the registered
/// amount, currency and actor, and is refused exactly when `debt_id` is
/// already taken, in which case the books are unchanged.
pub proof fn lemma_register_loan(s: SnapshotView, d: DebtRegister, debt_id: DebtId)
    ensures
        event_spec(s, Event::RegisterLoan(d), debt_id) is Err <==> s.loans.contains_key(debt_id),
        event_spec(s, Event::RegisterLoan(d), debt_id) matches Ok(after) ==> {
            &&& after.wallets == s.wallets
            &&& after.debts == s.debts
            &&& after.loans.dom() == s.loans.dom().insert(debt_id)
            &&& after.loans[debt_id].money.amount == d.amount
            &&& after.loans[debt_id].money.currency_id == d.currency_id
            &&& after.loans[debt_id].actor_id == d.actor_id
            &&& forall|k: DebtId| k != debt_id && s.loans.contains_key(k) ==> #[trigger] after.loans[k]
                == s.loans[k]
        },
{
    reveal(event_spec);
    if let Ok(after) = event_spec(s, Event::RegisterLoan(d), debt_id) {
        assert(after.loans.dom() =~= s.loans.dom().insert(debt_id));
    }
}

/// Events applied in turn, the `i`-th registered debt or loan kept under
/// `ids[i]`; the first refusal stops the run and is the outcome.
pub open spec fn events_spec(s: SnapshotView, events: Seq<Event>, ids: Seq<DebtId>) -> Result<
    SnapshotView,
    Error,
>
    decreases events.len(),
{
    if events.len() == 0 {
        Ok(s)
    } else {
        match event_spec(s, events[0], ids[0]) {
            Ok(s1) => events_spec(s1, events.drop_first(), ids.drop_first()),
            Err(e) => Err(e),
        }
    }
}

/// The books as events applied in turn leave them: after every event when
/// all are accepted, else after those before the first refusal.
pub open spec fn events_reached(s: SnapshotView, events: Seq<Event>, ids: Seq<DebtId>) -> SnapshotView
    decreases events.len(),
{
    if events.len() == 0 {
        s
    } else {
        match event_spec(s, events[0], ids[0]) {
            Ok(s1) => events_reached(s1, events.drop_first(), ids.drop_first()),
            Err(_) => s,
        }
    }
}

/// Each event, applied in turn, adds no more to a balance than an amount can
/// hold.
pub open spec fn events_fit(s: SnapshotView, events: Seq<Event>, ids: Seq<DebtId>) -> bool
    decreases events.len(),
{
    events.len() == 0 || (event_fits(s, events[0]) && match event_spec(s, events[0], ids[0]) {
        Ok(s1) => events_fit(s1, events.drop_first(), ids.drop_first()),
        Err(_) => true,
    })
}

/// Applies events in turn, the `i`-th registered debt or loan kept under
/// `ids[i]`, stopping at the first refusal (see `events_spec`); the books are
/// left as `events_reached` says.
pub fn apply_events_with_ids(snapshot: &mut Snapshot, events: &Vec<Event>, ids: &Vec<DebtId>) -> (r:
    Result<(), Error>)
    requires
        old(snapshot).wf(),
        ids.len() == events.len(),
        events_fit(old(snapshot)@, events@, ids@),
    ensures
        final(snapshot).wf(),
        final(snapshot)@ == events_reached(old(snapshot)@, events@, ids@),
        match r {
            Ok(_) => events_spec(old(snapshot)@, events@, ids@) == Ok::<SnapshotView, Error>(
                final(snapshot)@,
            ),
            Err(e) => events_spec(old(snapshot)@, events@, ids@) == Err::<SnapshotView, Error>(e),
        },
{
    let ghost s0 = snapshot@;
    let mut i: usize = 0;
    assert(events@.skip(0) =~= events@);
    assert(ids@.skip(0) =~= ids@);
    while i < events.len()
        invariant
            0 <= i <= events.len(),
            ids.len() == events.len(),
            snapshot.wf(),
            s0 == old(snapshot)@,
            events_spec(s0, events@, ids@) == events_spec(
                snapshot@,
                events@.skip(i as int),
                ids@.skip(i as int),
            ),
            events_reached(s0, events@, ids@) == events_reached(
                snapshot@,
                events@.skip(i as int),
                ids@.skip(i as int),
            ),
            events_fit(snapshot@, events@.skip(i as int), ids@.skip(i as int)),
        decreases events.len() - i,
    {
        let ghost before = snapshot@;
        proof {
            assert(events@.skip(i as int)[0] == events@[i as int]);
            assert(ids@.skip(i as int)[0] == ids@[i as int]);
            assert(events@.skip(i as int).drop_first() =~= events@.skip(i + 1));
            assert(ids@.skip(i as int).drop_first() =~= ids@.skip(i + 1));
        }
        let outcome = apply_event_with_id(snapshot, &events[i], ids[i]);
        if let Err(e) = outcome {
            assert(event_spec(before, events@[i as int], ids@[i as int]) == Err::<SnapshotView, Error>(e));
            assert(events_spec(before, events@.skip(i as int), ids@.skip(i as int)) == Err::<SnapshotView, Error>(e));
            assert(events_reached(before, events@.skip(i as int), ids@.skip(i as int)) == before);
            assert(snapshot@ == before);
            return Err(e);
        }
        i = i + 1;
    }
    Ok(())
}

/// Applies events in turn, each registered debt or loan kept under a fresh
/// random identifier, stopping at the first refusal. The outcome and the
/// books left are those of `events_spec` and `events_reached` for some
/// identifiers; every choice of identifiers must keep the balances within
/// range.
pub fn apply_events(snapshot: &mut Snapshot, events: &Vec<Event>) -> (r: Result<(), Error>)
    requires
        old(snapshot).wf(),
        forall|ids: Seq<DebtId>|
            ids.len() == events.len() ==> #[trigger] events_fit(old(snapshot)@, events@, ids),
    ensures
        final(snapshot).wf(),
        exists|ids: Seq<DebtId>|
            ids.len() == events.len() && final(snapshot)@ == events_reached(
                old(snapshot)@,
                events@,
                ids,
            ) && match r {
                Ok(_) => events_spec(old(snapshot)@, events@, ids) == Ok::<SnapshotView, Error>(
                    final(snapshot)@,
                ),
                Err(e) => events_spec(old(snapshot)@, events@, ids) == Err::<SnapshotView, Error>(
                    e,
                ),
            },
{
    let mut ids: Vec<DebtId> = Vec::new();
    let mut i: usize = 0;
    while i < events.len()
        invariant
            0 <= i <= events.len(),
            ids.len() == i,
        decreases events.len() - i,
    {
        ids.push(DebtId::new());
        i = i + 1;
    }
    proof {
        assert(events_fit(snapshot@, events@, ids@));
    }
    apply_events_with_ids(snapshot, events, &ids)
}

} // verus!
