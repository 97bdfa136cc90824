use monee::amount::Amount;
use monee::ids::{ActorId, CurrencyId, DebtId, WalletId};
use monee::snapshot::money::MoneyError;
use monee::snapshot::{DebtOperation, Error, Operation, Snapshot, WalletOperation};

#[test]
fn it_creates_debt() {
    let mut snapshot = Snapshot::default();
    let debt_id = DebtId::new();
    let currency_id = CurrencyId::new();

    let action = DebtOperation::Incur {
        debt_id,
        currency_id,
        actor_id: ActorId::new(),
    };

    snapshot.apply(Operation::Debt(action)).unwrap();

    assert_eq!(snapshot.debts.len(), 1);
}

fn wallet_ids() -> (WalletId, WalletId) {
    ("wal1".parse().unwrap(), "wal2".parse().unwrap())
}

fn units(snapshot: &Snapshot, id: &WalletId) -> u64 {
    snapshot.wallets.get(id).unwrap().money.amount.units
}

#[test]
fn wallet_deposit_and_deduct() {
    let (w, _) = wallet_ids();
    let currency_id: CurrencyId = "usd1".parse().unwrap();
    let mut s = Snapshot::new();
    s.apply(Operation::Wallet(WalletOperation::Create { wallet_id: w, currency_id })).unwrap();
    assert_eq!(units(&s, &w), 0);
    s.apply(Operation::Wallet(WalletOperation::Deposit { wallet_id: w, amount: Amount::from_units(150) }))
        .unwrap();
    assert_eq!(units(&s, &w), 150);
    s.apply(Operation::Wallet(WalletOperation::Deduct { wallet_id: w, amount: Amount::from_units(50) }))
        .unwrap();
    assert_eq!(units(&s, &w), 100);
    assert!(s.wallets.get(&w).unwrap().money.currency_id == currency_id);
}

#[test]
fn wallet_errors() {
    let (w, other) = wallet_ids();
    let currency_id = CurrencyId::new();
    let mut s = Snapshot::new();
    let create = Operation::Wallet(WalletOperation::Create { wallet_id: w, currency_id });
    s.apply(create).unwrap();
    assert_eq!(s.apply(create), Err(Error::Wallet(MoneyError::AlreadyExists)));
    assert_eq!(
        s.apply(Operation::Wallet(WalletOperation::Deduct { wallet_id: w, amount: Amount::from_units(1) })),
        Err(Error::Wallet(MoneyError::CannotSub))
    );
    assert_eq!(
        s.apply(Operation::Wallet(WalletOperation::Deposit { wallet_id: other, amount: Amount::from_units(1) })),
        Err(Error::Wallet(MoneyError::NotFound))
    );
    assert_eq!(
        s.apply(Operation::Wallet(WalletOperation::Delete { wallet_id: other })),
        Err(Error::Wallet(MoneyError::NotFound))
    );
    assert_eq!(units(&s, &w), 0);
    s.apply(Operation::Wallet(WalletOperation::Delete { wallet_id: w })).unwrap();
    assert!(s.wallets.is_empty());
}

#[test]
fn debts_and_loans_are_separate() {
    let debt_id = DebtId::new();
    let currency_id = CurrencyId::new();
    let actor_id = ActorId::new();
    let mut s = Snapshot::new();
    s.apply(Operation::Loan(DebtOperation::Incur { debt_id, currency_id, actor_id })).unwrap();
    assert_eq!(s.loans.len(), 1);
    assert_eq!(s.debts.len(), 0);
    s.apply(Operation::Loan(DebtOperation::Accumulate { debt_id, amount: Amount::from_units(30) }))
        .unwrap();
    s.apply(Operation::Loan(DebtOperation::Amortize { debt_id, amount: Amount::from_units(10) }))
        .unwrap();
    assert_eq!(s.loans.get(&debt_id).unwrap().money.amount.units, 20);
    assert!(s.loans.get(&debt_id).unwrap().actor_id == actor_id);
    assert_eq!(
        s.apply(Operation::Debt(DebtOperation::Amortize { debt_id, amount: Amount::from_units(1) })),
        Err(Error::Debt(MoneyError::NotFound))
    );
    assert_eq!(
        s.apply(Operation::Loan(DebtOperation::Amortize { debt_id, amount: Amount::from_units(21) })),
        Err(Error::Loan(MoneyError::CannotSub))
    );
    s.apply(Operation::Loan(DebtOperation::Forget { debt_id })).unwrap();
    assert!(s.loans.is_empty());
}

#[test]
fn snapshot_error_messages() {
    assert_eq!(Error::Wallet(MoneyError::NotFound).message(), "wallet not found");
    assert_eq!(Error::Wallet(MoneyError::CannotSub).message(), "cannot deduct from wallet");
    assert_eq!(Error::Wallet(MoneyError::AlreadyExists).message(), "wallet already exists");
    assert_eq!(Error::Debt(MoneyError::NotFound).message(), "in debt not found");
    assert_eq!(Error::Loan(MoneyError::AlreadyExists).message(), "out debt already exists");
    assert_eq!(Error::Loan(MoneyError::CannotSub).message(), "out debt amortize overflow");
}

#[test]
fn money_map_round_trips_through_entries() {
    let (w, other) = wallet_ids();
    let mut s = Snapshot::new();
    s.apply(Operation::Wallet(WalletOperation::Create { wallet_id: w, currency_id: CurrencyId::new() }))
        .unwrap();
    s.apply(Operation::Wallet(WalletOperation::Create { wallet_id: other, currency_id: CurrencyId::new() }))
        .unwrap();
    s.apply(Operation::Wallet(WalletOperation::Deposit { wallet_id: other, amount: Amount::from_units(7) }))
        .unwrap();
    let entries = s.wallets.iter();
    assert_eq!(entries.len(), 2);
    let rebuilt = monee::snapshot::money::MoneyMap::from_iter_unchecked(entries);
    assert_eq!(rebuilt.len(), 2);
    assert_eq!(rebuilt.get(&other).unwrap().money.amount.units, 7);
    assert_eq!(rebuilt.get(&w).unwrap().money.amount.units, 0);
}
