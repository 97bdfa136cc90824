//! Money held under identifiers: the balances of wallets and debts.
use vstd::prelude::*;
use crate::amount::Amount;
use crate::ids::{CurrencyId, IdKey};
use crate::keyed_map::{lists_exactly, map_of_entries, KeyedMap};

verus! {

/// An amount in a currency.
#[derive(Debug, Clone, Copy)]
pub struct Money {
    pub amount: Amount,
    pub currency_id: CurrencyId,
}

/// Something that holds money and is kept in a `MoneyMap` under a key.
pub trait MoneyHost: Sized + Copy {
    /// The identifier it is kept under.
    type Key: IdKey;
    /// What it holds besides its money.
    type Data;

    /// Its money.
    spec fn spec_money(&self) -> Money;

    /// The same holder with its amount replaced.
    spec fn spec_with_amount(self, amount: Amount) -> Self;

    /// The holder made of this money and data.
    spec fn spec_create(money: Money, data: Self::Data) -> Self;

    /// Gives its money.
    fn money(&self) -> (m: Money)
        ensures
            m == self.spec_money(),
    ;

    /// Replaces its amount.
    fn with_amount(self, amount: Amount) -> (r: Self)
        ensures
            r == self.spec_with_amount(amount),
    ;

    /// Makes a holder of this money and data.
    fn create(money: Money, data: Self::Data) -> (r: Self)
        ensures
            r == Self::spec_create(money, data),
    ;

    /// Replacing the amount changes the amount and nothing else, and a
    /// holder made from money holds that money.
    proof fn lemma_with_amount(self, amount: Amount)
        ensures
            self.spec_with_amount(amount).spec_money() == (Money {
                amount,
                currency_id: self.spec_money().currency_id,
            }),
            self.spec_with_amount(self.spec_money().amount) == self,
            forall|b: Amount| #[trigger]
                self.spec_with_amount(amount).spec_with_amount(b) == self.spec_with_amount(b),
    ;

    /// A holder made from money holds that money.
    proof fn lemma_create(money: Money, data: Self::Data)
        ensures
            Self::spec_create(money, data).spec_money() == money,
    ;
}

/// Why an operation on a `MoneyMap` was refused.
#[derive(Debug, Clone, Copy, PartialEq, Eq, Structural)]
pub enum MoneyError {
    NotFound,
    CannotSub,
    AlreadyExists,
}

/// The amount of `m` after `amount` is added.
pub open spec fn added<M: MoneyHost>(m: M, amount: Amount) -> M {
    m.spec_with_amount(Amount { units: (m.spec_money().amount.units + amount.units) as u64 })
}

/// The amount of `m` after `amount` is taken away.
pub open spec fn subtracted<M: MoneyHost>(m: M, amount: Amount) -> M {
    m.spec_with_amount(Amount { units: (m.spec_money().amount.units - amount.units) as u64 })
}

/// Adding `amount` to the holder under `key` stays within the range of an
/// amount (or there is no such holder).
pub open spec fn add_fits<M: MoneyHost>(m: Map<M::Key, M>, key: M::Key, amount: Amount) -> bool {
    m.contains_key(key) ==> m[key].spec_money().amount.units + amount.units <= u64::MAX
}

/// Creating a holder of no money in `currency_id` under `key`; refused when
/// the key is taken.
pub open spec fn create_spec<M: MoneyHost>(
    m: Map<M::Key, M>,
    key: M::Key,
    currency_id: CurrencyId,
    data: M::Data,
) -> Result<Map<M::Key, M>, MoneyError> {
    if m.contains_key(key) {
        Err(MoneyError::AlreadyExists)
    } else {
        Ok(m.insert(key, M::spec_create(Money { amount: Amount { units: 0 }, currency_id }, data)))
    }
}

/// Adding `amount` to the holder under `key`.
pub open spec fn add_spec<M: MoneyHost>(m: Map<M::Key, M>, key: M::Key, amount: Amount) -> Result<
    Map<M::Key, M>,
    MoneyError,
> {
    if !m.contains_key(key) {
        Err(MoneyError::NotFound)
    } else {
        Ok(m.insert(key, added(m[key], amount)))
    }
}

/// Taking `amount` from the holder under `key`; refused when it holds less.
pub open spec fn sub_spec<M: MoneyHost>(m: Map<M::Key, M>, key: M::Key, amount: Amount) -> Result<
    Map<M::Key, M>,
    MoneyError,
> {
    if !m.contains_key(key) {
        Err(MoneyError::NotFound)
    } else if amount.units > m[key].spec_money().amount.units {
        Err(MoneyError::CannotSub)
    } else {
        Ok(m.insert(key, subtracted(m[key], amount)))
    }
}

/// Removing the holder under `key`, whatever it holds.
pub open spec fn remove_spec<M: MoneyHost>(m: Map<M::Key, M>, key: M::Key) -> Result<
    Map<M::Key, M>,
    MoneyError,
> {
    if !m.contains_key(key) {
        Err(MoneyError::NotFound)
    } else {
        Ok(m.remove(key))
    }
}

/// Money holders by key.
pub struct MoneyMap<M: MoneyHost> {
    holders: KeyedMap<M::Key, M>,
}

impl<M: MoneyHost> View for MoneyMap<M> {
    type V = Map<M::Key, M>;

    closed spec fn view(&self) -> Map<M::Key, M> {
        self.holders@
    }
}

impl<M: MoneyHost> MoneyMap<M> {
    /// The map is well formed.
    pub closed spec fn wf(&self) -> bool {
        self.holders.wf()
    }

    /// An empty map.
    pub fn new() -> (r: Self)
        ensures
            r.wf(),
            r@ == Map::<M::Key, M>::empty(),
    {
        MoneyMap { holders: KeyedMap::new() }
    }

    /// Makes a holder of no money in `currency_id` under `key` (see
    /// `create_spec`).
    pub fn create(&mut self, key: M::Key, currency_id: CurrencyId, data: M::Data) -> (r: Result<
        (),
        MoneyError,
    >)
        requires
            old(self).wf(),
        ensures
            final(self).wf(),
            match r {
                Ok(_) => create_spec(old(self)@, key, currency_id, data) == Ok::<
                    Map<M::Key, M>,
                    MoneyError,
                >(final(self)@),
                Err(e) => create_spec(old(self)@, key, currency_id, data) == Err::<
                    Map<M::Key, M>,
                    MoneyError,
                >(e) && final(self)@ == old(self)@,
            },
    {
        if self.holders.contains_key(&key) {
            return Err(MoneyError::AlreadyExists);
        }
        let holder = M::create(Money { amount: Amount::zero(), currency_id }, data);
        self.holders.insert(key, holder);
        Ok(())
    }

    /// Adds `amount` to the holder under `key` (see `add_spec`); the sum must
    /// fit in an amount.
    pub fn add(&mut self, key: M::Key, amount: Amount) -> (r: Result<(), MoneyError>)
        requires
            old(self).wf(),
            add_fits(old(self)@, key, amount),
        ensures
            final(self).wf(),
            match r {
                Ok(_) => add_spec(old(self)@, key, amount) == Ok::<Map<M::Key, M>, MoneyError>(
                    final(self)@,
                ),
                Err(e) => add_spec(old(self)@, key, amount) == Err::<Map<M::Key, M>, MoneyError>(e)
                    && final(self)@ == old(self)@,
            },
    {
        match self.holders.get(&key) {
            None => Err(MoneyError::NotFound),
            Some(holder) => {
                let money = holder.money();
                self.holders.insert(key, holder.with_amount(money.amount.add(amount)));
                Ok(())
            },
        }
    }

    /// Takes `amount` from the holder under `key` (see `sub_spec`).
    pub fn sub(&mut self, key: M::Key, amount: Amount) -> (r: Result<(), MoneyError>)
        requires
            old(self).wf(),
        ensures
            final(self).wf(),
            match r {
                Ok(_) => sub_spec(old(self)@, key, amount) == Ok::<Map<M::Key, M>, MoneyError>(
                    final(self)@,
                ),
                Err(e) => sub_spec(old(self)@, key, amount) == Err::<Map<M::Key, M>, MoneyError>(e)
                    && final(self)@ == old(self)@,
            },
    {
        match self.holders.get(&key) {
            None => Err(MoneyError::NotFound),
            Some(holder) => {
                let money = holder.money();
                match money.amount.checked_sub(amount) {
                    None => Err(MoneyError::CannotSub),
                    Some(rest) => {
                        self.holders.insert(key, holder.with_amount(rest));
                        Ok(())
                    },
                }
            },
        }
    }

    /// Removes the holder under `key`, whatever it holds (see `remove_spec`).
    pub fn remove(&mut self, key: M::Key) -> (r: Result<(), MoneyError>)
        requires
            old(self).wf(),
        ensures
            final(self).wf(),
            match r {
                Ok(_) => remove_spec(old(self)@, key) == Ok::<Map<M::Key, M>, MoneyError>(
                    final(self)@,
                ),
                Err(e) => remove_spec(old(self)@, key) == Err::<Map<M::Key, M>, MoneyError>(e)
                    && final(self)@ == old(self)@,
            },
    {
        match self.holders.remove(&key) {
            Some(_) => Ok(()),
            None => {
                assert(self@ =~= old(self)@);
                Err(MoneyError::NotFound)
            },
        }
    }

    /// The holder under `key`, if any.
    pub fn get(&self, key: &M::Key) -> (r: Option<M>)
        requires
            self.wf(),
        ensures
            r == (if self@.contains_key(*key) {
                Some(self@[*key])
            } else {
                None
            }),
    {
        self.holders.get(key)
    }

    /// `true` when adding `amount` to the holder under `key`, if any, stays
    /// within what an amount holds (see `add_fits`).
    pub fn fits_add(&self, key: &M::Key, amount: Amount) -> (r: bool)
        requires
            self.wf(),
        ensures
            r == add_fits(self@, *key, amount),
    {
        match self.holders.get(key) {
            None => true,
            Some(holder) => holder.money().amount.checked_add(amount).is_some(),
        }
    }

    /// The number of holders.
    pub fn len(&self) -> (r: usize)
        requires
            self.wf(),
        ensures
            r == self@.len(),
    {
        self.holders.len()
    }

    /// `true` when there is no holder.
    pub fn is_empty(&self) -> (r: bool)
        requires
            self.wf(),
        ensures
            r == (self@.len() == 0),
    {
        self.holders.len() == 0
    }

    /// The holders with their keys, each once, in no particular order.
    pub fn iter(&self) -> (r: Vec<(M::Key, M)>)
        requires
            self.wf(),
        ensures
            lists_exactly(r@, self@),
    {
        self.holders.entries()
    }

    /// The map of the listed holders, taken as they are: no rule of the
    /// books is checked; where a key is listed twice, the later holder stays.
    pub fn from_iter_unchecked(list: Vec<(M::Key, M)>) -> (r: Self)
        ensures
            r.wf(),
            r@ == map_of_entries(list@),
    {
        MoneyMap { holders: KeyedMap::from_entries(list) }
    }
    /// The holders with their keys, each once, in no particular order.
    pub fn into_iter(self) -> (r: Vec<(M::Key, M)>)
        requires
            self.wf(),
        ensures
            lists_exactly(r@, self@),
    {
        self.holders.entries()
    }
}

/// Creating a holder and then removing it gives back the map as it was.
pub proof fn lemma_create_then_remove<M: MoneyHost>(
    m: Map<M::Key, M>,
    key: M::Key,
    currency_id: CurrencyId,
    data: M::Data,
)
    requires
        create_spec(m, key, currency_id, data) is Ok,
    ensures
        remove_spec(create_spec(m, key, currency_id, data)->Ok_0, key) == Ok::<
            Map<M::Key, M>,
            MoneyError,
        >(m),
{
    let v = M::spec_create(Money { amount: Amount { units: 0 }, currency_id }, data);
    assert(m.insert(key, v).remove(key) =~= m);
}

/// Adding an amount and then taking the same amount away gives back the map
/// as it was.
pub proof fn lemma_add_then_sub<M: MoneyHost>(m: Map<M::Key, M>, key: M::Key, amount: Amount)
    requires
        add_spec(m, key, amount) is Ok,
        add_fits(m, key, amount),
    ensures
        sub_spec(add_spec(m, key, amount)->Ok_0, key, amount) == Ok::<Map<M::Key, M>, MoneyError>(
            m,
        ),
{
    let h = m[key];
    let a = Amount { units: (h.spec_money().amount.units + amount.units) as u64 };
    h.lemma_with_amount(a);
    h.lemma_with_amount(h.spec_money().amount);
    let h2 = added(h, amount);
    assert(h2.spec_money().amount == a);
    assert(subtracted(h2, amount) == h2.spec_with_amount(h.spec_money().amount));
    assert(h.spec_with_amount(a).spec_with_amount(h.spec_money().amount) == h.spec_with_amount(
        h.spec_money().amount,
    ));
    assert(m.insert(key, h2).insert(key, subtracted(h2, amount)) =~= m);
}

/// Taking an amount away and then adding it back gives back the map as it
/// was; the addition always fits.
pub proof fn lemma_sub_then_add<M: MoneyHost>(m: Map<M::Key, M>, key: M::Key, amount: Amount)
    requires
        sub_spec(m, key, amount) is Ok,
    ensures
        add_fits(sub_spec(m, key, amount)->Ok_0, key, amount),
        add_spec(sub_spec(m, key, amount)->Ok_0, key, amount) == Ok::<Map<M::Key, M>, MoneyError>(
            m,
        ),
{
    let h = m[key];
    let a = Amount { units: (h.spec_money().amount.units - amount.units) as u64 };
    h.lemma_with_amount(a);
    h.lemma_with_amount(h.spec_money().amount);
    let h2 = subtracted(h, amount);
    assert(h2.spec_money().amount == a);
    assert(added(h2, amount) == h2.spec_with_amount(h.spec_money().amount));
    assert(m.insert(key, h2).insert(key, added(h2, amount)) =~= m);
}

impl<M: MoneyHost> Default for MoneyMap<M> {
    /// An empty map.
    fn default() -> (r: Self)
        ensures
            r.wf(),
            r@ == Map::<M::Key, M>::empty(),
    {
        MoneyMap::new()
    }
}

} // verus!
