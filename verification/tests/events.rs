use monee::amount::Amount;
use monee::date::Datetime;
use monee::events::{
    apply_event, apply_event_with_id, apply_events, apply_events_with_ids, Buy, DebtRegister,
    Error, Event, MoveValue, MoveValueError, PaymentReceived, RegisterBalance,
};
use monee::ids::{ActorId, CurrencyId, DebtId, EventId, ItemTagId, WalletId};
use monee::snapshot::money::MoneyError;
use monee::snapshot::{DebtOperation, Error as SnapshotError, Operation, Snapshot, WalletOperation};
use monee::sync::{
    apply_entries, apply_entries_with_ids, sync_step, EventEntry, SyncAction, SyncError,
    SyncEvent, UniqueSaveError,
};

fn wallet(s: &mut Snapshot, name: &str, currency_id: CurrencyId, units: u64) -> WalletId {
    let id: WalletId = name.parse().unwrap();
    s.apply(Operation::Wallet(WalletOperation::Create { wallet_id: id, currency_id })).unwrap();
    if units > 0 {
        s.apply(Operation::Wallet(WalletOperation::Deposit {
            wallet_id: id,
            amount: Amount::from_units(units),
        }))
        .unwrap();
    }
    id
}

fn units(s: &Snapshot, id: &WalletId) -> u64 {
    s.wallets.get(id).unwrap().money.amount.units
}

#[test]
fn move_value_moves_the_amount() {
    let usd: CurrencyId = "usd1".parse().unwrap();
    let mut s = Snapshot::new();
    let a = wallet(&mut s, "aaaa", usd, 100);
    let b = wallet(&mut s, "bbbb", usd, 5);
    let event = Event::MoveValue(MoveValue { from: a, to: b, amount: Amount::from_units(40) });
    apply_event(&mut s, &event).unwrap();
    assert_eq!(units(&s, &a), 60);
    assert_eq!(units(&s, &b), 45);
}

#[test]
fn move_value_to_itself_changes_nothing() {
    let usd: CurrencyId = "usd1".parse().unwrap();
    let mut s = Snapshot::new();
    let a = wallet(&mut s, "aaaa", usd, 100);
    let event = Event::MoveValue(MoveValue { from: a, to: a, amount: Amount::from_units(40) });
    apply_event(&mut s, &event).unwrap();
    assert_eq!(units(&s, &a), 100);
}

#[test]
fn move_value_refusals() {
    let usd: CurrencyId = "usd1".parse().unwrap();
    let pen: CurrencyId = "pen1".parse().unwrap();
    let mut s = Snapshot::new();
    let a = wallet(&mut s, "aaaa", usd, 10);
    let b = wallet(&mut s, "bbbb", pen, 0);
    let c = wallet(&mut s, "cccc", usd, 0);
    let missing: WalletId = "zzzz".parse().unwrap();

    let r = apply_event(&mut s, &Event::MoveValue(MoveValue { from: missing, to: a, amount: Amount::from_units(1) }));
    assert!(matches!(r, Err(Error::MoveValue(MoveValueError::WalletNotFound(w))) if w == missing));
    let r = apply_event(&mut s, &Event::MoveValue(MoveValue { from: a, to: missing, amount: Amount::from_units(1) }));
    assert!(matches!(r, Err(Error::MoveValue(MoveValueError::WalletNotFound(w))) if w == missing));
    let r = apply_event(&mut s, &Event::MoveValue(MoveValue { from: a, to: b, amount: Amount::from_units(1) }));
    assert!(matches!(r, Err(Error::MoveValue(MoveValueError::CurrenciesNonEqual))));
    let r = apply_event(&mut s, &Event::MoveValue(MoveValue { from: a, to: c, amount: Amount::from_units(11) }));
    assert!(matches!(r, Err(Error::Apply(SnapshotError::Wallet(MoneyError::CannotSub)))));
    assert_eq!(units(&s, &a), 10);
    assert_eq!(units(&s, &c), 0);
}

#[test]
fn buy_deducts_and_can_be_refused() {
    let usd = CurrencyId::new();
    let mut s = Snapshot::new();
    let a = wallet(&mut s, "aaaa", usd, 30);
    let buy = |units: u64| {
        Event::Buy(Buy {
            item: ItemTagId::new(),
            actors: vec![ActorId::new()],
            wallet_id: a,
            amount: Amount::from_units(units),
        })
    };
    apply_event(&mut s, &buy(12)).unwrap();
    assert_eq!(units(&s, &a), 18);
    let r = apply_event(&mut s, &buy(19));
    assert!(matches!(r, Err(Error::Apply(SnapshotError::Wallet(MoneyError::CannotSub)))));
    assert_eq!(units(&s, &a), 18);
}

#[test]
fn balance_and_payment_deposit() {
    let usd = CurrencyId::new();
    let mut s = Snapshot::new();
    let a = wallet(&mut s, "aaaa", usd, 0);
    apply_event(&mut s, &Event::RegisterBalance(RegisterBalance { wallet_id: a, amount: Amount::from_units(3) }))
        .unwrap();
    apply_event(
        &mut s,
        &Event::PaymentReceived(PaymentReceived { actor_id: ActorId::new(), wallet_id: a, amount: Amount::from_units(4) }),
    )
    .unwrap();
    assert_eq!(units(&s, &a), 7);
    let missing: WalletId = "zzzz".parse().unwrap();
    let r = apply_event(&mut s, &Event::RegisterBalance(RegisterBalance { wallet_id: missing, amount: Amount::from_units(3) }));
    assert!(matches!(r, Err(Error::Apply(SnapshotError::Wallet(MoneyError::NotFound)))));
}

#[test]
fn register_debt_and_loan_with_id() {
    let debt_id: DebtId = "debt".parse().unwrap();
    let actor_id = ActorId::new();
    let currency_id = CurrencyId::new();
    let register = DebtRegister {
        amount: Amount::from_units(25),
        currency_id,
        actor_id,
        payment_promise: Some(Datetime { seconds: 10, nanoseconds: 0 }),
    };
    let mut s = Snapshot::new();
    apply_event_with_id(&mut s, &Event::RegisterDebt(register), debt_id).unwrap();
    let debt = s.debts.get(&debt_id).unwrap();
    assert_eq!(debt.money.amount.units, 25);
    assert!(debt.money.currency_id == currency_id);
    assert!(debt.actor_id == actor_id);
    assert!(s.loans.is_empty());

    apply_event_with_id(&mut s, &Event::RegisterLoan(register), debt_id).unwrap();
    assert_eq!(s.loans.get(&debt_id).unwrap().money.amount.units, 25);

    let r = apply_event_with_id(&mut s, &Event::RegisterDebt(register), debt_id);
    assert!(matches!(r, Err(Error::Apply(SnapshotError::Debt(MoneyError::AlreadyExists)))));
    assert_eq!(s.debts.len(), 1);
}

#[test]
fn operators_with_id_incur_then_accumulate() {
    let debt_id: DebtId = "debt".parse().unwrap();
    let register = DebtRegister {
        amount: Amount::from_units(9),
        currency_id: CurrencyId::new(),
        actor_id: ActorId::new(),
        payment_promise: None,
    };
    let ops = register.operators_with_id(debt_id);
    assert!(matches!(ops[0], DebtOperation::Incur { debt_id: d, .. } if d == debt_id));
    assert!(matches!(ops[1], DebtOperation::Accumulate { debt_id: d, amount } if d == debt_id && amount.units == 9));
    let random = register.create_operators();
    assert!(matches!((random[0], random[1]),
        (DebtOperation::Incur { debt_id: a, .. }, DebtOperation::Accumulate { debt_id: b, .. }) if a == b));
}

#[test]
fn events_stop_at_the_first_refusal() {
    let usd = CurrencyId::new();
    let mut s = Snapshot::new();
    let a = wallet(&mut s, "aaaa", usd, 10);
    let events = vec![
        Event::RegisterBalance(RegisterBalance { wallet_id: a, amount: Amount::from_units(5) }),
        Event::Buy(Buy { item: ItemTagId::new(), actors: vec![], wallet_id: a, amount: Amount::from_units(100) }),
        Event::RegisterBalance(RegisterBalance { wallet_id: a, amount: Amount::from_units(1) }),
    ];
    let ids = vec![DebtId::new(), DebtId::new(), DebtId::new()];
    let r = apply_events_with_ids(&mut s, &events, &ids);
    assert!(matches!(r, Err(Error::Apply(SnapshotError::Wallet(MoneyError::CannotSub)))));
    assert_eq!(units(&s, &a), 15);

    let ok = vec![
        Event::RegisterBalance(RegisterBalance { wallet_id: a, amount: Amount::from_units(5) }),
        Event::Buy(Buy { item: ItemTagId::new(), actors: vec![], wallet_id: a, amount: Amount::from_units(20) }),
    ];
    apply_events(&mut s, &ok).unwrap();
    assert_eq!(units(&s, &a), 0);
}

#[test]
fn entries_apply_in_order() {
    let usd = CurrencyId::new();
    let mut s = Snapshot::new();
    let a = wallet(&mut s, "aaaa", usd, 0);
    let at = Datetime { seconds: 1, nanoseconds: 0 };
    let entries = vec![
        EventEntry { id: EventId::new(), event: Event::RegisterBalance(RegisterBalance { wallet_id: a, amount: Amount::from_units(8) }), created_at: at },
        EventEntry { id: EventId::new(), event: Event::Buy(Buy { item: ItemTagId::new(), actors: vec![], wallet_id: a, amount: Amount::from_units(3) }), created_at: at },
    ];
    apply_entries(&mut s, &entries).unwrap();
    assert_eq!(units(&s, &a), 5);
    let bad = vec![EventEntry {
        id: EventId::new(),
        event: Event::Buy(Buy { item: ItemTagId::new(), actors: vec![], wallet_id: a, amount: Amount::from_units(6) }),
        created_at: at,
    }];
    let ids = vec![DebtId::new()];
    let r = apply_entries_with_ids(&mut s, &bad, &ids);
    assert!(matches!(r, Err(SyncError::Event(Error::Apply(SnapshotError::Wallet(MoneyError::CannotSub))))));
    assert_eq!(units(&s, &a), 5);
}

#[test]
fn sync_steps() {
    assert!(matches!(sync_step(SyncEvent::EventsApplied(Ok(()))), SyncAction::SaveChanges));
    assert!(matches!(sync_step(SyncEvent::ChangesSaved(Ok(()))), SyncAction::Commit));
    assert!(matches!(
        sync_step(SyncEvent::ChangesSaved(Err(UniqueSaveError::AlreadyExists))),
        SyncAction::Fail(SyncError::Save(UniqueSaveError::AlreadyExists))
    ));
    let e = Error::MoveValue(MoveValueError::CurrenciesNonEqual);
    assert!(matches!(
        sync_step(SyncEvent::EventsApplied(Err(e))),
        SyncAction::Fail(SyncError::Event(Error::MoveValue(MoveValueError::CurrenciesNonEqual)))
    ));
    let from: SyncError = UniqueSaveError::AlreadyExists.into();
    assert!(matches!(from, SyncError::Save(UniqueSaveError::AlreadyExists)));
}

#[test]
fn event_added_announcement() {
    let added = monee::events::EventAdded { id: EventId::new() };
    assert_eq!(added.name(), "backoffice.events.added");
    assert_eq!(added.version(), "1.0.0");
}

#[test]
fn move_value_to_a_full_wallet_gives_its_own_errors() {
    let usd: CurrencyId = "usd1".parse().unwrap();
    let pen: CurrencyId = "pen1".parse().unwrap();
    let mut s = Snapshot::new();
    let a = wallet(&mut s, "aaaa", usd, 5);
    let full_pen = wallet(&mut s, "bbbb", pen, u64::MAX);
    let full_usd = wallet(&mut s, "cccc", usd, u64::MAX);
    let r = apply_event(&mut s, &Event::MoveValue(MoveValue { from: a, to: full_pen, amount: Amount::from_units(1) }));
    assert!(matches!(r, Err(Error::MoveValue(MoveValueError::CurrenciesNonEqual))));
    let r = apply_event(&mut s, &Event::MoveValue(MoveValue { from: a, to: full_usd, amount: Amount::from_units(6) }));
    assert!(matches!(r, Err(Error::Apply(SnapshotError::Wallet(MoneyError::CannotSub)))));
    assert_eq!(units(&s, &a), 5);
    assert_eq!(units(&s, &full_usd), u64::MAX);
}

#[test]
fn fits_checks_the_amount_limit() {
    let usd: CurrencyId = "usd1".parse().unwrap();
    let mut s = Snapshot::new();
    let a = wallet(&mut s, "aaaa", usd, 5);
    let full = wallet(&mut s, "cccc", usd, u64::MAX);
    let pen = wallet(&mut s, "dddd", "pen1".parse().unwrap(), u64::MAX);
    assert!(!monee::events::fits(&s, &Event::RegisterBalance(RegisterBalance { wallet_id: full, amount: Amount::from_units(1) })));
    assert!(monee::events::fits(&s, &Event::RegisterBalance(RegisterBalance { wallet_id: a, amount: Amount::from_units(1) })));
    assert!(!monee::events::fits(&s, &Event::MoveValue(MoveValue { from: a, to: full, amount: Amount::from_units(5) })));
    assert!(monee::events::fits(&s, &Event::MoveValue(MoveValue { from: a, to: full, amount: Amount::from_units(6) })));
    assert!(monee::events::fits(&s, &Event::MoveValue(MoveValue { from: a, to: pen, amount: Amount::from_units(1) })));
    assert!(!s.fits(Operation::Wallet(WalletOperation::Deposit { wallet_id: full, amount: Amount::from_units(1) })));
    assert!(s.fits(Operation::Wallet(WalletOperation::Deduct { wallet_id: full, amount: Amount::from_units(1) })));
}
