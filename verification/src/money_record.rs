//! Balances by key, changed through actions: the record form of the books.
use vstd::prelude::*;
use crate::amount::Amount;
use crate::ids::{CurrencyId, IdKey};
use crate::keyed_map::{lists_exactly, KeyedMap};

verus! {

/// A balance in a currency.
#[derive(Debug, Clone, Copy)]
pub struct MoneyStorage {
    pub balance: Amount,
    pub currency: CurrencyId,
}

/// Why an action was refused.
#[derive(Debug, Clone, Copy, PartialEq, Eq, Structural)]
pub enum Error {
    NotFound,
    CannotSub,
    AlreadyExists,
}

/// A change to the balance kept under one key.
#[derive(Debug, Clone, Copy)]
pub enum Action {
    Add(Amount),
    Sub(Amount),
    Create(CurrencyId),
    /// Does not handle transference before deletion
    Remove,
}

/// Balances by key.
pub struct MoneyRecord<K: IdKey> {
    storages: KeyedMap<K, MoneyStorage>,
}

/// The action adds no more than an amount can hold.
pub open spec fn action_fits<K>(m: Map<K, MoneyStorage>, key: K, action: Action) -> bool {
    match action {
        Action::Add(amount) => m.contains_key(key) ==> m[key].balance.units + amount.units
            <= u64::MAX,
        _ => true,
    }
}

/// The balances after an action on the one under `key`, or why it is
/// refused: adding and taking need a balance under the key, taking needs
/// enough of it, creating needs the key free and starts at zero, removing
/// needs the balance and forgets it.
pub open spec fn action_spec<K>(m: Map<K, MoneyStorage>, key: K, action: Action) -> Result<
    Map<K, MoneyStorage>,
    Error,
> {
    match action {
        Action::Add(amount) => if m.contains_key(key) {
            Ok(
                m.insert(
                    key,
                    MoneyStorage {
                        balance: Amount { units: (m[key].balance.units + amount.units) as u64 },
                        currency: m[key].currency,
                    },
                ),
            )
        } else {
            Err(Error::NotFound)
        },
        Action::Sub(amount) => if !m.contains_key(key) {
            Err(Error::NotFound)
        } else if amount.units > m[key].balance.units {
            Err(Error::CannotSub)
        } else {
            Ok(
                m.insert(
                    key,
                    MoneyStorage {
                        balance: Amount { units: (m[key].balance.units - amount.units) as u64 },
                        currency: m[key].currency,
                    },
                ),
            )
        },
        Action::Create(currency) => if m.contains_key(key) {
            Err(Error::AlreadyExists)
        } else {
            Ok(m.insert(key, MoneyStorage { balance: Amount { units: 0 }, currency }))
        },
        Action::Remove => if m.contains_key(key) {
            Ok(m.remove(key))
        } else {
            Err(Error::NotFound)
        },
    }
}

impl<K: IdKey> View for MoneyRecord<K> {
    type V = Map<K, MoneyStorage>;

    closed spec fn view(&self) -> Map<K, MoneyStorage> {
        self.storages@
    }
}

impl<K: IdKey> MoneyRecord<K> {
    /// The record is well formed.
    pub closed spec fn wf(&self) -> bool {
        self.storages.wf()
    }

    /// A record of no balance.
    pub fn new() -> (r: Self)
        ensures
            r.wf(),
            r@ == Map::<K, MoneyStorage>::empty(),
    {
        MoneyRecord { storages: KeyedMap::new() }
    }

    /// Applies `action` to the balance under `key` (see `action_spec`); a
    /// refused action leaves the record as it was.
    pub fn apply(&mut self, key: K, action: Action) -> (r: Result<(), Error>)
        requires
            old(self).wf(),
            action_fits(old(self)@, key, action),
        ensures
            final(self).wf(),
            match r {
                Ok(_) => action_spec(old(self)@, key, action) == Ok::<Map<K, MoneyStorage>, Error>(
                    final(self)@,
                ),
                Err(e) => action_spec(old(self)@, key, action) == Err::<Map<K, MoneyStorage>, Error>(
                    e,
                ) && final(self)@ == old(self)@,
            },
    {
        match action {
            Action::Add(amount) => {
                if let Some(storage) = self.storages.get(&key) {
                    let balance = storage.balance.add(amount);
                    self.storages.insert(key, MoneyStorage { balance, currency: storage.currency });
                    Ok(())
                } else {
                    Err(Error::NotFound)
                }
            },
            Action::Sub(amount) => {
                if let Some(storage) = self.storages.get(&key) {
                    match storage.balance.checked_sub(amount) {
                        None => Err(Error::CannotSub),
                        Some(balance) => {
                            self.storages.insert(
                                key,
                                MoneyStorage { balance, currency: storage.currency },
                            );
                            Ok(())
                        },
                    }
                } else {
                    Err(Error::NotFound)
                }
            },
            Action::Create(currency) => {
                if self.storages.contains_key(&key) {
                    Err(Error::AlreadyExists)
                } else {
                    self.storages.insert(
                        key,
                        MoneyStorage { balance: Amount::default(), currency },
                    );
                    Ok(())
                }
            },
            Action::Remove => {
                if self.storages.contains_key(&key) {
                    self.storages.remove(&key);
                    Ok(())
                } else {
                    Err(Error::NotFound)
                }
            },
        }
    }

    /// The balances with their keys, each once, in no particular order.
    pub fn entries(&self) -> (r: Vec<(K, MoneyStorage)>)
        requires
            self.wf(),
        ensures
            lists_exactly(r@, self@),
    {
        self.storages.entries()
    }

    /// The balance under `key`, if any.
    pub fn get(&self, key: &K) -> (r: Option<MoneyStorage>)
        requires
            self.wf(),
        ensures
            r == (if self@.contains_key(*key) {
                Some(self@[*key])
            } else {
                None
            }),
    {
        self.storages.get(key)
    }
    /// The balances with their keys, each once, in no particular order.
    pub fn into_iter(self) -> (r: Vec<(K, MoneyStorage)>)
        requires
            self.wf(),
        ensures
            lists_exactly(r@, self@),
    {
        self.storages.entries()
    }
}

impl<K: IdKey> Default for MoneyRecord<K> {
    /// A record of no balance.
    fn default() -> (r: Self)
        ensures
            r.wf(),
            r@ == Map::<K, MoneyStorage>::empty(),
    {
        MoneyRecord::new()
    }
}

/// The action that takes back `action`: taking away what was added, adding
/// back what was taken, removing what was created.
pub open spec fn undoing(action: Action) -> Action {
    match action {
        Action::Add(amount) => Action::Sub(amount),
        Action::Sub(amount) => Action::Add(amount),
        Action::Create(_) => Action::Remove,
        Action::Remove => Action::Remove,
    }
}

/// An addition, a subtraction or a creation that went through is taken
/// back by its undoing action, which itself goes through and fits.
pub proof fn lemma_undoing_restores<K>(m: Map<K, MoneyStorage>, key: K, action: Action)
    requires
        !(action is Remove),
        action_fits(m, key, action),
        action_spec(m, key, action) is Ok,
    ensures
        action_fits(action_spec(m, key, action)->Ok_0, key, undoing(action)),
        action_spec(action_spec(m, key, action)->Ok_0, key, undoing(action)) == Ok::<
            Map<K, MoneyStorage>,
            Error,
        >(m),
{
    let after = action_spec(m, key, action)->Ok_0;
    let back = action_spec(after, key, undoing(action))->Ok_0;
    match action {
        Action::Create(_) => {
            assert(back =~= m);
        },
        _ => {
            assert(back.dom() =~= m.dom());
            assert(back =~= m);
        },
    }
}

} // verus!
