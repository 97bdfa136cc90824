use monee::plain_records::WalletMetadata;
use monee::views::{show_snapshot, DebtActors};
use monee::amount::Amount;
use monee::apps::init_self;
use monee::backoffice::currency_code::{extract_chars, CurrencyCode, Error as CodeError};
use monee::database::Entity;
use monee::event_record::{from_record, to_record, SurrealMoneeEvent};
use monee::events::{DebtRegister, Event, MoveValue};
use monee::ids::{ActorId, AppId, CurrencyId, DebtId, ItemTagId, WalletId};
use monee::item_tags::{
    contains_id, first_relation_step, flatten_generation, link_step, next_relation_step,
    LinkAction, LinkEvent, RelationStep, Status, TagsRelation,
};
use monee::money_record::{Action, Error as RecordError, MoneyRecord};
use monee::nodes::{ChangesRecord, HostDir};
use monee::record_snapshot::{
    extract_action, DebtOperation, Error as RecordSnapshotError, Operation, Snapshot,
    WalletOperation,
};
use monee::snapshot::Snapshot as Books;
use monee::snapshot_io::{on_wallet_created, read_last_or_default};
use monee::snapshot_record::{from_stored, to_stored};
use monee::sync::UniqueSaveError;
use monee::text::decimal;
use monee::wallets::WalletCreated;

fn tag(s: &str) -> ItemTagId {
    s.parse().unwrap()
}

#[test]
fn money_record_actions() {
    let key: WalletId = "wal1".parse().unwrap();
    let currency = CurrencyId::new();
    let mut record: MoneyRecord<WalletId> = MoneyRecord::new();
    assert_eq!(record.apply(key, Action::Add(Amount::from_units(1))), Err(RecordError::NotFound));
    record.apply(key, Action::Create(currency)).unwrap();
    assert_eq!(record.apply(key, Action::Create(currency)), Err(RecordError::AlreadyExists));
    record.apply(key, Action::Add(Amount::from_units(10))).unwrap();
    assert_eq!(record.apply(key, Action::Sub(Amount::from_units(11))), Err(RecordError::CannotSub));
    record.apply(key, Action::Sub(Amount::from_units(4))).unwrap();
    let storage = record.get(&key).unwrap();
    assert_eq!(storage.balance.units, 6);
    assert!(storage.currency == currency);
    assert_eq!(record.entries().len(), 1);
    record.apply(key, Action::Remove).unwrap();
    assert!(record.get(&key).is_none());
    assert_eq!(record.apply(key, Action::Remove), Err(RecordError::NotFound));
    assert!(record.into_iter().is_empty());
}

#[test]
fn record_books_apply_and_messages() {
    let debt_id: DebtId = "debt".parse().unwrap();
    let mut s = Snapshot::new();
    s.apply(Operation::Debt(DebtOperation::Incur { debt_id, currency: CurrencyId::new() })).unwrap();
    s.apply(Operation::Debt(DebtOperation::Accumulate { debt_id, amount: Amount::from_units(5) })).unwrap();
    let err = s
        .apply(Operation::Debt(DebtOperation::Amortize { debt_id, amount: Amount::from_units(6) }))
        .unwrap_err();
    assert_eq!(err, RecordSnapshotError::Debt(RecordError::CannotSub));
    assert_eq!(err.message(), "in debt amortize overflow");
    let err = s
        .apply(Operation::Wallet(WalletOperation::Deposit { wallet_id: WalletId::new(), amount: Amount::from_units(1) }))
        .unwrap_err();
    assert_eq!(err.message(), "wallet not found");
    let err = s.apply(Operation::Loan(DebtOperation::Forget { debt_id })).unwrap_err();
    assert_eq!(err.message(), "out debt not found");
    let (id, action) = extract_action(DebtOperation::Amortize { debt_id, amount: Amount::from_units(2) });
    assert!(id == debt_id);
    assert!(matches!(action, Action::Sub(a) if a.units == 2));
}

#[test]
fn events_round_trip_through_records() {
    let event = Event::MoveValue(MoveValue {
        from: "aaaa".parse().unwrap(),
        to: "bbbb".parse().unwrap(),
        amount: Amount::from_units(12),
    });
    let record = to_record(event);
    assert!(matches!(record, SurrealMoneeEvent::MoveValue { amount, .. } if amount.units == 12));
    let back = from_record(record);
    assert!(matches!(back, Event::MoveValue(m) if m.amount.units == 12 && m.from.to_string() == "aaaa"));

    let debt = Event::RegisterDebt(DebtRegister {
        amount: Amount::from_units(3),
        currency_id: CurrencyId::new(),
        actor_id: ActorId::new(),
        payment_promise: Some(monee::date::Datetime { seconds: 5, nanoseconds: 1 }),
    });
    let back = from_record(to_record(debt));
    assert!(matches!(back, Event::RegisterDebt(d) if d.payment_promise.is_none() && d.amount.units == 3));
}

#[test]
fn books_read_back_from_their_stored_form() {
    let mut books = Books::new();
    let w: WalletId = "wal1".parse().unwrap();
    books
        .apply(monee::snapshot::Operation::Wallet(monee::snapshot::WalletOperation::Create {
            wallet_id: w,
            currency_id: CurrencyId::new(),
        }))
        .unwrap();
    let stored = to_stored(&books);
    assert_eq!(stored.wallets.len(), 1);
    assert!(stored.debts.is_empty());
    let back = from_stored(stored);
    assert_eq!(back.wallets.len(), 1);
    assert!(back.wallets.get(&w).is_some());
}

#[test]
fn wallet_created_opens_the_wallet_once() {
    let mut books = read_last_or_default(None);
    assert!(books.wallets.is_empty());
    let event = WalletCreated { id: "wal1".parse().unwrap(), currency_id: CurrencyId::new() };
    assert!(on_wallet_created(&mut books, &event));
    assert!(!on_wallet_created(&mut books, &event));
    assert_eq!(books.wallets.len(), 1);
    let again = read_last_or_default(Some(books));
    assert_eq!(again.wallets.len(), 1);
}

#[test]
fn init_self_keeps_or_creates() {
    let id: AppId = "app1".parse().unwrap();
    let (kept, save) = init_self(Some(id));
    assert!(kept == id);
    assert!(!save);
    let (fresh, save) = init_self(None);
    assert!(save);
    assert_eq!(fresh.to_string().len(), 4);
}

#[test]
fn link_steps() {
    let p = tag("par1");
    let c = tag("chl1");
    assert!(matches!(link_step(p, p, LinkEvent::Start), LinkAction::Finish(Status::CyclicRelation)));
    assert!(matches!(link_step(p, c, LinkEvent::Start), LinkAction::CheckRelation));
    assert!(matches!(
        link_step(p, c, LinkEvent::Relation(TagsRelation::TargetNotFound)),
        LinkAction::Finish(Status::NotFound(id)) if id == p
    ));
    assert!(matches!(
        link_step(p, c, LinkEvent::Relation(TagsRelation::Ancestor)),
        LinkAction::Finish(Status::CyclicRelation)
    ));
    assert!(matches!(link_step(p, c, LinkEvent::Relation(TagsRelation::NotRelated)), LinkAction::Link));
    assert!(matches!(link_step(p, c, LinkEvent::Saved(Ok(()))), LinkAction::Finish(Status::Linked)));
    assert!(matches!(
        link_step(p, c, LinkEvent::Saved(Err(UniqueSaveError::AlreadyExists))),
        LinkAction::Finish(Status::AlreadyContains)
    ));
}

#[test]
fn relation_steps() {
    let a = tag("aaaa");
    let b = tag("bbbb");
    let target = tag("tttt");
    assert!(matches!(first_relation_step(None, a), RelationStep::Finish(TagsRelation::TargetNotFound)));
    assert!(matches!(first_relation_step(Some(vec![]), a), RelationStep::Finish(TagsRelation::NotRelated)));
    assert!(matches!(first_relation_step(Some(vec![b, a]), a), RelationStep::Finish(TagsRelation::Ancestor)));
    assert!(matches!(first_relation_step(Some(vec![b]), a), RelationStep::Continue(v) if v.len() == 1 && v[0] == b));

    let levels = vec![vec![b], vec![], vec![target, b]];
    let flat = flatten_generation(&levels);
    assert_eq!(flat.len(), 3);
    assert!(flat[0] == b && flat[1] == target && flat[2] == b);
    assert!(contains_id(&flat, target));
    assert!(!contains_id(&flat, a));
    assert!(matches!(next_relation_step(&levels, target), RelationStep::Finish(TagsRelation::Ancestor)));
    assert!(matches!(next_relation_step(&vec![vec![], vec![]], target), RelationStep::Finish(TagsRelation::NotRelated)));
    assert!(matches!(next_relation_step(&levels, a), RelationStep::Continue(v) if v.len() == 3));
}

#[test]
fn char_currency_codes() {
    assert_eq!(extract_chars("abc"), Some(['a', 'b', 'c']));
    assert_eq!(extract_chars("ab"), None);
    assert_eq!(extract_chars("abcd"), None);
    assert_eq!(CurrencyCode::parse_str("pen").unwrap().to_string(), "pen");
    assert_eq!(CurrencyCode::parse_str("pe").unwrap_err(), CodeError::InvalidLength);
    assert_eq!(CurrencyCode::parse_str("p3n").unwrap_err(), CodeError::NotAlphabetic);
    assert_eq!(CodeError::InvalidLength.message(), "Currency code must have 3 characters");
    assert_eq!(CodeError::NotAlphabetic.message(), "Currency code must be alphabetic");
}

#[test]
fn small_records() {
    let (k, v) = Entity(1u8, "x").into_inner();
    assert_eq!((k, v), (1u8, "x"));
    let e = Entity::from_pair((2u8, 3u8));
    assert_eq!((e.0, e.1), (2, 3));
    let dir = HostDir::from_string("http://host".to_string());
    assert_eq!(dir.as_str(), "http://host");
    assert_eq!(dir.to_string(), "http://host");
    let changes = ChangesRecord::default();
    assert!(changes.currencies.is_empty() && changes.actors.is_empty() && changes.wallets.is_empty());
    assert_eq!(decimal(0), "0");
    assert_eq!(decimal(9), "9");
    assert_eq!(decimal(1207), "1207");
}

fn actor(name: &str) -> monee::actors::Actor {
    monee::actors::Actor {
        name: monee::actors::ActorName::from_string(name.to_string()),
        actor_type: monee::actors::ActorType::Natural,
        alias: None,
    }
}

fn plain_currency(code: &str) -> monee::plain_records::Currency {
    monee::plain_records::Currency { name: code.to_string(), symbol: "$".to_string(), code: code.to_string() }
}

#[test]
fn snapshot_is_shown_with_its_records() {
    let usd: CurrencyId = "usd1".parse().unwrap();
    let pen: CurrencyId = "pen1".parse().unwrap();
    let w: WalletId = "wal1".parse().unwrap();
    let debt_id: DebtId = "debt".parse().unwrap();
    let loan_id: DebtId = "loan".parse().unwrap();
    let ana: ActorId = "anaa".parse().unwrap();
    let bob: ActorId = "bobb".parse().unwrap();
    let ghost_actor: ActorId = "ghst".parse().unwrap();

    let mut books = Snapshot::new();
    books.apply(Operation::Wallet(WalletOperation::Create { wallet_id: w, currency: usd })).unwrap();
    books.apply(Operation::Wallet(WalletOperation::Deposit { wallet_id: w, amount: Amount::from_units(9) })).unwrap();
    books.apply(Operation::Debt(DebtOperation::Incur { debt_id, currency: pen })).unwrap();
    books.apply(Operation::Loan(DebtOperation::Incur { debt_id: loan_id, currency: "eur1".parse().unwrap() })).unwrap();

    let currencies = vec![Entity(usd, plain_currency("OLD")), Entity(pen, plain_currency("PEN")), Entity(usd, plain_currency("USD"))];
    let actors = vec![Entity(ana, actor("Ana")), Entity(bob, actor("Bob"))];
    let metadatas = vec![
        Entity(w, WalletMetadata { name: Some("cash".to_string()) }),
        Entity(w, WalletMetadata { name: Some("later".to_string()) }),
    ];
    let in_debt_actors = vec![
        DebtActors { debt_id, actors: vec![bob, ghost_actor, ana] },
        DebtActors { debt_id, actors: vec![ana] },
    ];
    let show = show_snapshot(books, currencies, actors, metadatas, in_debt_actors, vec![]);

    assert_eq!(show.wallets.len(), 1);
    let (id, wallet) = &show.wallets[0];
    assert!(*id == w);
    assert_eq!(wallet.money.balance.units, 9);
    assert_eq!(wallet.metadata.name.as_deref(), Some("cash"));
    assert_eq!(wallet.currency.as_ref().unwrap().code, "USD");

    assert_eq!(show.in_debts.len(), 1);
    let debt = &show.in_debts[0].1;
    assert_eq!(debt.currency.as_ref().unwrap().code, "PEN");
    let names: Vec<String> = debt.actor.iter().map(|a| a.name.to_string()).collect();
    assert_eq!(names, vec!["Bob".to_string(), "Ana".to_string()]);

    assert_eq!(show.out_debts.len(), 1);
    assert!(show.out_debts[0].0 == loan_id);
    assert!(show.out_debts[0].1.currency.is_none());
    assert!(show.out_debts[0].1.actor.is_empty());
}

#[test]
fn record_actions_are_undone() {
    let key: DebtId = "debt".parse().unwrap();
    let mut record: MoneyRecord<DebtId> = MoneyRecord::new();
    record.apply(key, Action::Create(CurrencyId::new())).unwrap();
    record.apply(key, Action::Add(Amount::from_units(4))).unwrap();
    record.apply(key, Action::Sub(Amount::from_units(4))).unwrap();
    assert_eq!(record.get(&key).unwrap().balance.units, 0);
    record.apply(key, Action::Remove).unwrap();
    assert!(record.entries().is_empty());
}

#[test]
fn a_link_that_would_close_a_cycle_is_refused() {
    // a is the parent of b, b the parent of c; linking c over a is refused.
    let a = tag("aaaa");
    let b = tag("bbbb");
    let c = tag("cccc");
    let parents = |t: ItemTagId| -> Vec<ItemTagId> {
        if t == c { vec![b] } else if t == b { vec![a] } else { vec![] }
    };
    // linking c under... the parent `c` gets child `a`: is `a` an ancestor of `c`?
    assert!(matches!(link_step(c, a, LinkEvent::Start), LinkAction::CheckRelation));
    let mut step = first_relation_step(Some(parents(c)), a);
    let relation = loop {
        match step {
            RelationStep::Finish(r) => break r,
            RelationStep::Continue(generation) => {
                let levels: Vec<Vec<ItemTagId>> = generation.iter().map(|t| parents(*t)).collect();
                step = next_relation_step(&levels, a);
            }
        }
    };
    assert!(matches!(relation, TagsRelation::Ancestor));
    assert!(matches!(link_step(c, a, LinkEvent::Relation(relation)), LinkAction::Finish(Status::CyclicRelation)));
}
