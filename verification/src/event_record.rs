//! Events in the form the store keeps them, and the conversions both ways.
use vstd::prelude::*;
use crate::amount::Amount;
use crate::events::{Buy, DebtRegister, Event, MoveValue, PaymentReceived, RegisterBalance};
use crate::ids::{ActorId, CurrencyId, ItemTagId, WalletId};

verus! {

/// An event as the store keeps it; a debt's payment promise is not kept.
#[derive(Debug, Clone)]
pub enum SurrealMoneeEvent {
    Buy { item: ItemTagId, amount: Amount, wallet_id: WalletId, actors: Vec<ActorId> },
    RegisterBalance { wallet_id: WalletId, amount: Amount },
    RegisterDebt { amount: Amount, currency_id: CurrencyId, actor_id: ActorId },
    RegisterLoan { amount: Amount, currency_id: CurrencyId, actor_id: ActorId },
    MoveValue { from: WalletId, to: WalletId, amount: Amount },
    PaymentReceived { actor_id: ActorId, wallet_id: WalletId, amount: Amount },
}

/// The stored form of an event.
pub open spec fn record_of(value: Event) -> SurrealMoneeEvent {
    match value {
        Event::Buy(buy) => SurrealMoneeEvent::Buy {
            item: buy.item,
            amount: buy.amount,
            wallet_id: buy.wallet_id,
            actors: buy.actors,
        },
        Event::RegisterBalance(register) => SurrealMoneeEvent::RegisterBalance {
            wallet_id: register.wallet_id,
            amount: register.amount,
        },
        Event::RegisterDebt(debt) => SurrealMoneeEvent::RegisterDebt {
            amount: debt.amount,
            currency_id: debt.currency_id,
            actor_id: debt.actor_id,
        },
        Event::RegisterLoan(loan) => SurrealMoneeEvent::RegisterLoan {
            amount: loan.amount,
            currency_id: loan.currency_id,
            actor_id: loan.actor_id,
        },
        Event::MoveValue(move_value) => SurrealMoneeEvent::MoveValue {
            from: move_value.from,
            to: move_value.to,
            amount: move_value.amount,
        },
        Event::PaymentReceived(payment) => SurrealMoneeEvent::PaymentReceived {
            actor_id: payment.actor_id,
            wallet_id: payment.wallet_id,
            amount: payment.amount,
        },
    }
}

/// The event a stored form stands for; a debt comes back without a payment
/// promise.
pub open spec fn event_of(value: SurrealMoneeEvent) -> Event {
    match value {
        SurrealMoneeEvent::Buy { item, amount, wallet_id, actors } => Event::Buy(
            Buy { item, actors, wallet_id, amount },
        ),
        SurrealMoneeEvent::RegisterBalance { wallet_id, amount } => Event::RegisterBalance(
            RegisterBalance { wallet_id, amount },
        ),
        SurrealMoneeEvent::RegisterDebt { amount, currency_id, actor_id } => Event::RegisterDebt(
            DebtRegister { amount, currency_id, actor_id, payment_promise: None },
        ),
        SurrealMoneeEvent::RegisterLoan { amount, currency_id, actor_id } => Event::RegisterLoan(
            DebtRegister { amount, currency_id, actor_id, payment_promise: None },
        ),
        SurrealMoneeEvent::MoveValue { from, to, amount } => Event::MoveValue(
            MoveValue { from, to, amount },
        ),
        SurrealMoneeEvent::PaymentReceived { actor_id, wallet_id, amount } => Event::PaymentReceived(
            PaymentReceived { actor_id, wallet_id, amount },
        ),
    }
}

/// The event with the payment promise of a debt or loan dropped.
pub open spec fn without_promise(value: Event) -> Event {
    match value {
        Event::RegisterDebt(d) => Event::RegisterDebt(DebtRegister { payment_promise: None, ..d }),
        Event::RegisterLoan(d) => Event::RegisterLoan(DebtRegister { payment_promise: None, ..d }),
        _ => value,
    }
}

/// The stored form of an event.
pub fn to_record(value: Event) -> (r: SurrealMoneeEvent)
    ensures
        r == record_of(value),
{
    match value {
        Event::Buy(buy) => SurrealMoneeEvent::Buy {
            item: buy.item,
            amount: buy.amount,
            wallet_id: buy.wallet_id,
            actors: buy.actors,
        },
        Event::RegisterBalance(register) => SurrealMoneeEvent::RegisterBalance {
            wallet_id: register.wallet_id,
            amount: register.amount,
        },
        Event::RegisterDebt(debt) => SurrealMoneeEvent::RegisterDebt {
            amount: debt.amount,
            currency_id: debt.currency_id,
            actor_id: debt.actor_id,
        },
        Event::RegisterLoan(loan) => SurrealMoneeEvent::RegisterLoan {
            amount: loan.amount,
            currency_id: loan.currency_id,
            actor_id: loan.actor_id,
        },
        Event::MoveValue(move_value) => SurrealMoneeEvent::MoveValue {
            from: move_value.from,
            to: move_value.to,
            amount: move_value.amount,
        },
        Event::PaymentReceived(payment) => SurrealMoneeEvent::PaymentReceived {
            actor_id: payment.actor_id,
            wallet_id: payment.wallet_id,
            amount: payment.amount,
        },
    }
}

/// The event a stored form stands for.
pub fn from_record(value: SurrealMoneeEvent) -> (r: Event)
    ensures
        r == event_of(value),
{
    match value {
        SurrealMoneeEvent::Buy { item, amount, wallet_id, actors } => Event::Buy(
            Buy { item, actors, wallet_id, amount },
        ),
        SurrealMoneeEvent::RegisterBalance { wallet_id, amount } => Event::RegisterBalance(
            RegisterBalance { wallet_id, amount },
        ),
        SurrealMoneeEvent::RegisterDebt { amount, currency_id, actor_id } => Event::RegisterDebt(
            DebtRegister { amount, currency_id, actor_id, payment_promise: None },
        ),
        SurrealMoneeEvent::RegisterLoan { amount, currency_id, actor_id } => Event::RegisterLoan(
            DebtRegister { amount, currency_id, actor_id, payment_promise: None },
        ),
        SurrealMoneeEvent::MoveValue { from, to, amount } => Event::MoveValue(
            MoveValue { from, to, amount },
        ),
        SurrealMoneeEvent::PaymentReceived { actor_id, wallet_id, amount } => Event::PaymentReceived(
            PaymentReceived { actor_id, wallet_id, amount },
        ),
    }
}

/// Storing an event and reading it back gives the event, less the payment
/// promise of a debt or loan.
pub proof fn lemma_record_roundtrip(value: Event)
    ensures
        event_of(record_of(value)) == without_promise(value),
{
}

/// Reading a stored event and storing it again gives the same stored form.
pub proof fn lemma_event_roundtrip(value: SurrealMoneeEvent)
    ensures
        record_of(event_of(value)) == value,
{
}

/// The stored form keeps each field of the event in its own place: the
/// same kind of event, its purchase item, wallet, amount and actors in order,
/// a transfer's source as the source and its destination as the
/// destination, a debt's or loan's amount, currency and actor, a payment's
/// actor, wallet and amount.
pub proof fn lemma_stored_fields(value: Event)
    ensures
        match value {
            Event::Buy(b) => record_of(value) matches SurrealMoneeEvent::Buy {
                item,
                amount,
                wallet_id,
                actors,
            } && item == b.item && amount == b.amount && wallet_id == b.wallet_id && actors@
                == b.actors@,
            Event::RegisterBalance(rb) => record_of(value) matches SurrealMoneeEvent::RegisterBalance {
                wallet_id,
                amount,
            } && wallet_id == rb.wallet_id && amount == rb.amount,
            Event::RegisterDebt(d) => record_of(value) matches SurrealMoneeEvent::RegisterDebt {
                amount,
                currency_id,
                actor_id,
            } && amount == d.amount && currency_id == d.currency_id && actor_id == d.actor_id,
            Event::RegisterLoan(d) => record_of(value) matches SurrealMoneeEvent::RegisterLoan {
                amount,
                currency_id,
                actor_id,
            } && amount == d.amount && currency_id == d.currency_id && actor_id == d.actor_id,
            Event::MoveValue(m) => record_of(value) matches SurrealMoneeEvent::MoveValue {
                from,
                to,
                amount,
            } && from == m.from && to == m.to && amount == m.amount,
            Event::PaymentReceived(p) => record_of(value) matches SurrealMoneeEvent::PaymentReceived {
                actor_id,
                wallet_id,
                amount,
            } && actor_id == p.actor_id && wallet_id == p.wallet_id && amount == p.amount,
        },
{
}

/// Reading a stored event keeps each field in its own place, the other way
/// round: a stored transfer's source is the event's source and its
/// destination the event's destination; a debt or loan comes back without a
/// payment promise.
pub proof fn lemma_read_fields(value: SurrealMoneeEvent)
    ensures
        match value {
            SurrealMoneeEvent::Buy { item, amount, wallet_id, actors } => event_of(value) matches Event::Buy(
                b,
            ) && b.item == item && b.amount == amount && b.wallet_id == wallet_id && b.actors@
                == actors@,
            SurrealMoneeEvent::RegisterBalance { wallet_id, amount } => event_of(value) matches Event::RegisterBalance(
                rb,
            ) && rb.wallet_id == wallet_id && rb.amount == amount,
            SurrealMoneeEvent::RegisterDebt { amount, currency_id, actor_id } => event_of(value) matches Event::RegisterDebt(
                d,
            ) && d.amount == amount && d.currency_id == currency_id && d.actor_id == actor_id
                && d.payment_promise is None,
            SurrealMoneeEvent::RegisterLoan { amount, currency_id, actor_id } => event_of(value) matches Event::RegisterLoan(
                d,
            ) && d.amount == amount && d.currency_id == currency_id && d.actor_id == actor_id
                && d.payment_promise is None,
            SurrealMoneeEvent::MoveValue { from, to, amount } => event_of(value) matches Event::MoveValue(
                m,
            ) && m.from == from && m.to == to && m.amount == amount,
            SurrealMoneeEvent::PaymentReceived { actor_id, wallet_id, amount } => event_of(value) matches Event::PaymentReceived(
                p,
            ) && p.actor_id == actor_id && p.wallet_id == wallet_id && p.amount == amount,
        },
{
}

} // verus!
