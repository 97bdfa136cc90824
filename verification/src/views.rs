//! What the books are shown as: wallets, debts, events and item tags with
//! the records they refer to.
use vstd::prelude::*;
use std::rc::Rc;
use crate::actors::Actor;
use crate::amount::Amount;
use crate::database::Entity;
use crate::date::Datetime;
use crate::events::Event;
use crate::ids::{ActorId, CurrencyId, DebtId, IdKey, WalletId};
use crate::keyed_map::lists_exactly;
use crate::money_record::MoneyStorage;
use crate::record_snapshot::Snapshot;
use crate::plain_records::{Currency, WalletMetadata};

verus! {

/// A wallet shown with its metadata and currency.
pub struct WalletShow {
    pub money: MoneyStorage,
    pub metadata: WalletMetadata,
    pub currency: Option<Rc<Currency>>,
}

/// A debt shown with its currency and actors.
pub struct DebtShow {
    pub money: MoneyStorage,
    pub currency: Option<Rc<Currency>>,
    pub actor: Vec<Rc<Actor>>,
}

/// The books shown: wallets, debts I owe and debts owed to me.
pub struct SnapshotShow {
    pub wallets: Vec<(WalletId, WalletShow)>,
    pub in_debts: Vec<(DebtId, DebtShow)>,
    pub out_debts: Vec<(DebtId, DebtShow)>,
}

/// An event with the time it was recorded.
pub struct EventRow {
    pub event: Event,
    pub created_at: Datetime,
}

/// A stored currency with its identifier.
pub type CurrencyRow = Entity<CurrencyId, Currency>;

/// A debt shown with its actors and currency.
pub struct DebtItem {
    pub debt_id: DebtId,
    pub debt: MoneyStorage,
    pub actors: Vec<Actor>,
    pub currency: Option<CurrencyRow>,
}

/// A wallet listed with its name, currency and balance.
pub struct WalletRow {
    pub id: WalletId,
    pub name: Option<String>,
    pub currency: Option<CurrencyRow>,
    pub balance: Amount,
}

/// An item tag listed by name.
pub struct ItemTagMini {
    pub name: String,
}

/// The actors the store relates to a debt.
#[derive(Debug, Clone)]
pub struct DebtActors {
    pub debt_id: DebtId,
    pub actors: Vec<ActorId>,
}

/// The record stored last under `k`: the one a map collected from the
/// records keeps.
pub open spec fn last_record<K, V>(s: Seq<Entity<K, V>>, k: K) -> Option<V>
    decreases s.len(),
{
    if s.len() == 0 {
        None
    } else if s.last().0 == k {
        Some(s.last().1)
    } else {
        last_record(s.drop_last(), k)
    }
}

/// The record stored first under `k`.
pub open spec fn first_record<K, V>(s: Seq<Entity<K, V>>, k: K) -> Option<V>
    decreases s.len(),
{
    if s.len() == 0 {
        None
    } else if s[0].0 == k {
        Some(s[0].1)
    } else {
        first_record(s.drop_first(), k)
    }
}

/// `shared` holds the records, last first, each value behind a shared
/// pointer.
pub open spec fn shares<K, V>(shared: Seq<(K, Rc<V>)>, records: Seq<Entity<K, V>>) -> bool {
    &&& shared.len() == records.len()
    &&& forall|j: int|
        0 <= j < shared.len() ==> (#[trigger] shared[j]).0 == records[records.len() - 1 - j].0
            && *shared[j].1 == records[records.len() - 1 - j].1
}

/// Moves the records behind shared pointers, last first.
fn share_records<K: IdKey, V>(records: Vec<Entity<K, V>>) -> (r: Vec<(K, Rc<V>)>)
    ensures
        shares(r@, records@),
{
    let ghost original = records@;
    let mut rest = records;
    let mut shared: Vec<(K, Rc<V>)> = Vec::new();
    while rest.len() > 0
        invariant
            rest@ == original.take(original.len() - shared.len()),
            shared.len() <= original.len(),
            forall|j: int|
                0 <= j < shared.len() ==> (#[trigger] shared@[j]).0 == original[original.len() - 1
                    - j].0 && *shared@[j].1 == original[original.len() - 1 - j].1,
        decreases rest.len(),
    {
        let Entity(k, v) = rest.pop().unwrap();
        shared.push((k, Rc::new(v)));
        assert(rest@ =~= original.take(original.len() - shared.len()));
    }
    shared
}

/// The value stored last under `k`, found in records shared last first.
fn find_shared<K: IdKey, V>(shared: &Vec<(K, Rc<V>)>, k: K, Ghost(records): Ghost<
    Seq<Entity<K, V>>,
>) -> (r: Option<Rc<V>>)
    requires
        shares(shared@, records),
    ensures
        match r {
            Some(v) => last_record(records, k) == Some(*v),
            None => last_record(records, k) is None,
        },
{
    let n = shared.len();
    let code = k.code();
    let mut j: usize = 0;
    assert(records.take(records.len() as int) =~= records);
    while j < n
        invariant
            n == shared.len(),
            shares(shared@, records),
            code == k.key_code(),
            0 <= j <= n,
            last_record(records, k) == last_record(records.take(n - j), k),
        decreases n - j,
    {
        let ghost prefix = records.take(n - j);
        assert(prefix.last() == records[n - 1 - j]);
        assert(prefix.drop_last() =~= records.take(n - j - 1));
        let entry = &shared[j];
        if entry.0.code() == code {
            proof {
                K::lemma_code_injective(entry.0, k);
            }
            return Some(entry.1.clone());
        }
        j = j + 1;
    }
    None
}

/// The actors listed for the debt `id` by its first listing, if any.
pub open spec fn debt_actor_ids(s: Seq<DebtActors>, id: DebtId) -> Seq<ActorId>
    decreases s.len(),
{
    if s.len() == 0 {
        Seq::empty()
    } else if s[0].debt_id == id {
        s[0].actors@
    } else {
        debt_actor_ids(s.drop_first(), id)
    }
}

/// The known actors among `ids`, in order; an unknown one is left out.
pub open spec fn known_actors(ids: Seq<ActorId>, actors: Seq<Entity<ActorId, Actor>>) -> Seq<Actor>
    decreases ids.len(),
{
    if ids.len() == 0 {
        Seq::empty()
    } else {
        let rest = known_actors(ids.drop_last(), actors);
        match last_record(actors, ids.last()) {
            Some(a) => rest.push(a),
            None => rest,
        }
    }
}

/// The values behind shared pointers.
pub open spec fn unshared<V>(s: Seq<Rc<V>>) -> Seq<V> {
    s.map_values(|v: Rc<V>| *v)
}

/// The currency shown is the one stored last under `id`, if any.
pub open spec fn currency_shown(
    shown: Option<Rc<Currency>>,
    currencies: Seq<Entity<CurrencyId, Currency>>,
    id: CurrencyId,
) -> bool {
    match shown {
        Some(c) => last_record(currencies, id) == Some(*c),
        None => last_record(currencies, id) is None,
    }
}

/// The metadata stored first under a wallet.
fn find_metadata(metadatas: &Vec<Entity<WalletId, WalletMetadata>>, id: WalletId) -> (r: Option<
    WalletMetadata,
>)
    ensures
        r == first_record(metadatas@, id),
{
    let code = id.code();
    let mut i: usize = 0;
    assert(metadatas@.skip(0) =~= metadatas@);
    while i < metadatas.len()
        invariant
            0 <= i <= metadatas.len(),
            code == id.key_code(),
            first_record(metadatas@, id) == first_record(metadatas@.skip(i as int), id),
        decreases metadatas.len() - i,
    {
        assert(metadatas@.skip(i as int)[0] == metadatas@[i as int]);
        assert(metadatas@.skip(i as int).drop_first() =~= metadatas@.skip(i + 1));
        let entry = &metadatas[i];
        if entry.0.code() == code {
            proof {
                WalletId::lemma_code_injective(entry.0, id);
            }
            return Some(copy_metadata(&entry.1));
        }
        i = i + 1;
    }
    None
}

/// A copy of wallet metadata.
fn copy_metadata(m: &WalletMetadata) -> (r: WalletMetadata)
    ensures
        r == *m,
{
    match &m.name {
        Some(name) => WalletMetadata { name: Some(name.clone()) },
        None => WalletMetadata { name: None },
    }
}

/// The actor identifiers listed first for a debt.
fn find_debt_actor_ids(debt_actors: &Vec<DebtActors>, id: DebtId) -> (r: Option<&Vec<ActorId>>)
    ensures
        match r {
            Some(ids) => ids@ == debt_actor_ids(debt_actors@, id),
            None => debt_actor_ids(debt_actors@, id) == Seq::<ActorId>::empty(),
        },
{
    let code = id.code();
    let mut i: usize = 0;
    assert(debt_actors@.skip(0) =~= debt_actors@);
    while i < debt_actors.len()
        invariant
            0 <= i <= debt_actors.len(),
            code == id.key_code(),
            debt_actor_ids(debt_actors@, id) == debt_actor_ids(debt_actors@.skip(i as int), id),
        decreases debt_actors.len() - i,
    {
        assert(debt_actors@.skip(i as int)[0] == debt_actors@[i as int]);
        assert(debt_actors@.skip(i as int).drop_first() =~= debt_actors@.skip(i + 1));
        let entry = &debt_actors[i];
        if entry.debt_id.code() == code {
            proof {
                DebtId::lemma_code_injective(entry.debt_id, id);
            }
            return Some(&entry.actors);
        }
        i = i + 1;
    }
    None
}

/// The known actors among `ids`, shared.
fn collect_actors(ids: &Vec<ActorId>, actors: &Vec<(ActorId, Rc<Actor>)>, Ghost(records): Ghost<
    Seq<Entity<ActorId, Actor>>,
>) -> (r: Vec<Rc<Actor>>)
    requires
        shares(actors@, records),
    ensures
        unshared(r@) == known_actors(ids@, records),
{
    let mut out: Vec<Rc<Actor>> = Vec::new();
    let mut i: usize = 0;
    while i < ids.len()
        invariant
            0 <= i <= ids.len(),
            shares(actors@, records),
            unshared(out@) == known_actors(ids@.take(i as int), records),
        decreases ids.len() - i,
    {
        let ghost before = out@;
        assert(ids@.take(i + 1).drop_last() =~= ids@.take(i as int));
        assert(ids@.take(i + 1).last() == ids@[i as int]);
        match find_shared(actors, ids[i], Ghost(records)) {
            Some(a) => {
                out.push(a);
                assert(unshared(out@) =~= unshared(before).push(*a));
            },
            None => {},
        }
        i = i + 1;
    }
    assert(ids@.take(ids.len() as int) =~= ids@);
    out
}

/// A wallet is shown with its balance, the metadata stored first under it
/// and the currency stored last under its currency.
pub open spec fn wallet_shown(
    id: WalletId,
    shown: WalletShow,
    currencies: Seq<Entity<CurrencyId, Currency>>,
    metadatas: Seq<Entity<WalletId, WalletMetadata>>,
) -> bool {
    &&& first_record(metadatas, id) == Some(shown.metadata)
    &&& currency_shown(shown.currency, currencies, shown.money.currency)
}

/// A debt is shown with its balance, the currency stored last under its
/// currency and the known actors listed first for it.
pub open spec fn debt_shown(
    id: DebtId,
    shown: DebtShow,
    currencies: Seq<Entity<CurrencyId, Currency>>,
    actors: Seq<Entity<ActorId, Actor>>,
    debt_actors: Seq<DebtActors>,
) -> bool {
    &&& currency_shown(shown.currency, currencies, shown.money.currency)
    &&& unshared(shown.actor@) == known_actors(debt_actor_ids(debt_actors, id), actors)
}

/// The balances of shown wallets with their identifiers.
pub open spec fn wallet_balances(s: Seq<(WalletId, WalletShow)>) -> Seq<(WalletId, MoneyStorage)> {
    s.map_values(|p: (WalletId, WalletShow)| (p.0, p.1.money))
}

/// The balances of shown debts with their identifiers.
pub open spec fn debt_balances(s: Seq<(DebtId, DebtShow)>) -> Seq<(DebtId, MoneyStorage)> {
    s.map_values(|p: (DebtId, DebtShow)| (p.0, p.1.money))
}

/// Every wallet of the books has metadata.
pub open spec fn wallets_described(
    wallets: Map<WalletId, MoneyStorage>,
    metadatas: Seq<Entity<WalletId, WalletMetadata>>,
) -> bool {
    forall|id: WalletId| #[trigger] wallets.contains_key(id) ==> first_record(metadatas, id) is Some
}

/// Shows debts with their currencies and actors.
fn show_debts(
    debts: Vec<(DebtId, MoneyStorage)>,
    currencies: &Vec<(CurrencyId, Rc<Currency>)>,
    actors: &Vec<(ActorId, Rc<Actor>)>,
    debt_actors: &Vec<DebtActors>,
    Ghost(currency_records): Ghost<Seq<Entity<CurrencyId, Currency>>>,
    Ghost(actor_records): Ghost<Seq<Entity<ActorId, Actor>>>,
) -> (r: Vec<(DebtId, DebtShow)>)
    requires
        shares(currencies@, currency_records),
        shares(actors@, actor_records),
    ensures
        debt_balances(r@) == debts@,
        forall|i: int|
            0 <= i < r.len() ==> debt_shown(
                (#[trigger] r@[i]).0,
                r@[i].1,
                currency_records,
                actor_records,
                debt_actors@,
            ),
{
    let mut out: Vec<(DebtId, DebtShow)> = Vec::new();
    let mut i: usize = 0;
    while i < debts.len()
        invariant
            0 <= i <= debts.len(),
            shares(currencies@, currency_records),
            shares(actors@, actor_records),
            debt_balances(out@) == debts@.take(i as int),
            forall|j: int|
                0 <= j < out.len() ==> debt_shown(
                    (#[trigger] out@[j]).0,
                    out@[j].1,
                    currency_records,
                    actor_records,
                    debt_actors@,
                ),
        decreases debts.len() - i,
    {
        let (id, money) = debts[i];
        let currency = find_shared(currencies, money.currency, Ghost(currency_records));
        let actor = match find_debt_actor_ids(debt_actors, id) {
            Some(ids) => collect_actors(ids, actors, Ghost(actor_records)),
            None => {
                assert(unshared(Seq::<Rc<Actor>>::empty()) =~= Seq::<Actor>::empty());
                Vec::new()
            },
        };
        let ghost before = out@;
        out.push((id, DebtShow { money, currency, actor }));
        assert(debt_balances(out@) =~= debt_balances(before).push((id, money)));
        assert(debts@.take(i + 1) =~= debts@.take(i as int).push(debts@[i as int]));
        i = i + 1;
    }
    assert(debts@.take(debts.len() as int) =~= debts@);
    out
}

/// Shows wallets with their metadata and currencies.
fn show_wallets(
    wallets: Vec<(WalletId, MoneyStorage)>,
    currencies: &Vec<(CurrencyId, Rc<Currency>)>,
    metadatas: &Vec<Entity<WalletId, WalletMetadata>>,
    Ghost(currency_records): Ghost<Seq<Entity<CurrencyId, Currency>>>,
) -> (r: Vec<(WalletId, WalletShow)>)
    requires
        shares(currencies@, currency_records),
        forall|i: int|
            0 <= i < wallets.len() ==> first_record(metadatas@, (#[trigger] wallets@[i]).0) is Some,
    ensures
        wallet_balances(r@) == wallets@,
        forall|i: int|
            0 <= i < r.len() ==> wallet_shown(
                (#[trigger] r@[i]).0,
                r@[i].1,
                currency_records,
                metadatas@,
            ),
{
    let mut out: Vec<(WalletId, WalletShow)> = Vec::new();
    let mut i: usize = 0;
    while i < wallets.len()
        invariant
            0 <= i <= wallets.len(),
            shares(currencies@, currency_records),
            forall|j: int|
                0 <= j < wallets.len() ==> first_record(metadatas@, (#[trigger] wallets@[j]).0) is Some,
            wallet_balances(out@) == wallets@.take(i as int),
            forall|j: int|
                0 <= j < out.len() ==> wallet_shown(
                    (#[trigger] out@[j]).0,
                    out@[j].1,
                    currency_records,
                    metadatas@,
                ),
        decreases wallets.len() - i,
    {
        let (id, money) = wallets[i];
        assert(first_record(metadatas@, wallets@[i as int].0) is Some);
        let metadata = match find_metadata(metadatas, id) {
            Some(m) => m,
            None => {
                assert(false);
                return out;
            },
        };
        let currency = find_shared(currencies, money.currency, Ghost(currency_records));
        let ghost before = out@;
        out.push((id, WalletShow { money, metadata, currency }));
        assert(wallet_balances(out@) =~= wallet_balances(before).push((id, money)));
        assert(wallets@.take(i + 1) =~= wallets@.take(i as int).push(wallets@[i as int]));
        i = i + 1;
    }
    assert(wallets@.take(wallets.len() as int) =~= wallets@);
    out
}

/// Shows the books: each wallet with the metadata stored first under it
/// and the currency stored last under its currency; each debt I owe and
/// each debt owed to me with its currency and the known actors listed first
/// for it. Each wallet, debt and loan is shown once, in no particular order.
pub fn show_snapshot(
    snapshot: Snapshot,
    currencies: Vec<Entity<CurrencyId, Currency>>,
    actors: Vec<Entity<ActorId, Actor>>,
    metadatas: Vec<Entity<WalletId, WalletMetadata>>,
    in_debt_actors: Vec<DebtActors>,
    out_debt_actors: Vec<DebtActors>,
) -> (r: SnapshotShow)
    requires
        snapshot.wf(),
        wallets_described(snapshot@.wallets, metadatas@),
    ensures
        lists_exactly(wallet_balances(r.wallets@), snapshot@.wallets),
        forall|i: int|
            0 <= i < r.wallets.len() ==> wallet_shown(
                (#[trigger] r.wallets@[i]).0,
                r.wallets@[i].1,
                currencies@,
                metadatas@,
            ),
        lists_exactly(debt_balances(r.in_debts@), snapshot@.debts),
        forall|i: int|
            0 <= i < r.in_debts.len() ==> debt_shown(
                (#[trigger] r.in_debts@[i]).0,
                r.in_debts@[i].1,
                currencies@,
                actors@,
                in_debt_actors@,
            ),
        lists_exactly(debt_balances(r.out_debts@), snapshot@.loans),
        forall|i: int|
            0 <= i < r.out_debts.len() ==> debt_shown(
                (#[trigger] r.out_debts@[i]).0,
                r.out_debts@[i].1,
                currencies@,
                actors@,
                out_debt_actors@,
            ),
{
    let ghost currency_records = currencies@;
    let ghost actor_records = actors@;
    let ghost books = snapshot@;
    let shared_currencies = share_records(currencies);
    let shared_actors = share_records(actors);
    let wallet_entries = snapshot.wallets.into_iter();
    proof {
        assert forall|i: int| 0 <= i < wallet_entries.len() implies first_record(
            metadatas@,
            (#[trigger] wallet_entries@[i]).0,
        ) is Some by {
            assert(books.wallets.contains_key(wallet_entries@[i].0));
        }
    }
    let wallets = show_wallets(
        wallet_entries,
        &shared_currencies,
        &metadatas,
        Ghost(currency_records),
    );
    let in_debts = show_debts(
        snapshot.debts.into_iter(),
        &shared_currencies,
        &shared_actors,
        &in_debt_actors,
        Ghost(currency_records),
        Ghost(actor_records),
    );
    let out_debts = show_debts(
        snapshot.loans.into_iter(),
        &shared_currencies,
        &shared_actors,
        &out_debt_actors,
        Ghost(currency_records),
        Ghost(actor_records),
    );
    SnapshotShow { wallets, in_debts, out_debts }
}

/// The record stored last under `k` is the value of the latest entry with
/// key `k`; there is none exactly when no entry has key `k`.
pub proof fn lemma_last_record<K, V>(s: Seq<Entity<K, V>>, k: K)
    ensures
        last_record(s, k) is None <==> forall|i: int| 0 <= i < s.len() ==> (#[trigger] s[i]).0 != k,
        last_record(s, k) matches Some(v) ==> exists|i: int|
            0 <= i < s.len() && (#[trigger] s[i]).0 == k && s[i].1 == v && forall|j: int|
                i < j < s.len() ==> (#[trigger] s[j]).0 != k,
    decreases s.len(),
{
    if s.len() > 0 {
        let p = s.drop_last();
        lemma_last_record(p, k);
        assert forall|i: int| 0 <= i < p.len() implies p[i] == s[i] by {}
        if s.last().0 == k {
            let n = s.len() - 1;
            assert(s[n].0 == k);
        } else if let Some(v) = last_record(p, k) {
            let i = choose|i: int|
                0 <= i < p.len() && (#[trigger] p[i]).0 == k && p[i].1 == v && forall|j: int|
                    i < j < p.len() ==> (#[trigger] p[j]).0 != k;
            assert(s[i] == p[i]);
            assert forall|j: int| i < j < s.len() implies (#[trigger] s[j]).0 != k by {
                if j < p.len() {
                    assert(s[j] == p[j]);
                }
            }
        } else {
            assert forall|i: int| 0 <= i < s.len() implies (#[trigger] s[i]).0 != k by {
                if i < p.len() {
                    assert(s[i] == p[i]);
                }
            }
        }
    }
}

/// The record stored first under `k` is the value of the earliest entry
/// with key `k`; there is none exactly when no entry has key `k`.
pub proof fn lemma_first_record<K, V>(s: Seq<Entity<K, V>>, k: K)
    ensures
        first_record(s, k) is None <==> forall|i: int| 0 <= i < s.len() ==> (#[trigger] s[i]).0 != k,
        first_record(s, k) matches Some(v) ==> exists|i: int|
            0 <= i < s.len() && (#[trigger] s[i]).0 == k && s[i].1 == v && forall|j: int|
                0 <= j < i ==> (#[trigger] s[j]).0 != k,
    decreases s.len(),
{
    if s.len() > 0 {
        let p = s.drop_first();
        lemma_first_record(p, k);
        assert forall|i: int| 0 <= i < p.len() implies p[i] == s[i + 1] by {}
        if s[0].0 == k {
            assert(s[0].0 == k);
        } else if let Some(v) = first_record(p, k) {
            let i = choose|i: int|
                0 <= i < p.len() && (#[trigger] p[i]).0 == k && p[i].1 == v && forall|j: int|
                    0 <= j < i ==> (#[trigger] p[j]).0 != k;
            assert(s[i + 1] == p[i]);
            assert forall|j: int| 0 <= j < i + 1 implies (#[trigger] s[j]).0 != k by {
                if j > 0 {
                    assert(s[j] == p[j - 1]);
                }
            }
        } else {
            assert forall|i: int| 0 <= i < s.len() implies (#[trigger] s[i]).0 != k by {
                if i > 0 {
                    assert(s[i] == p[i - 1]);
                }
            }
        }
    }
}

} // verus!
