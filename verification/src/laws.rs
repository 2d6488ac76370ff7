//! What holds of every account, whatever the events.
//!
//! Each lemma here is stated over [`AccountState`], the model that
//! `Client::publish_transaction` is specified against, so it holds of the
//! running code as well.

use crate::amount::Amount;
use crate::model::{
    held_at, lemma_fresh_wf, lemma_step_wf, AccountState, Outcome, TransactionError,
};
use crate::transaction::{IncomingTransaction, TransactionType};
use vstd::prelude::*;

verus! {

/// What an event pays into the account: the amount of a deposit that was
/// carried out, and nothing otherwise.
pub open spec fn deposited(s: AccountState, e: IncomingTransaction) -> int {
    match e.amount {
        Some(a) => if e.ty == TransactionType::Deposit && s.apply(e).result == Ok::<
            Outcome,
            TransactionError,
        >(Outcome::Applied) {
            a@
        } else {
            0
        },
        None => 0,
    }
}

/// What an event takes out of the account: the amount of a withdrawal that
/// was carried out, and nothing otherwise.
pub open spec fn withdrawn(s: AccountState, e: IncomingTransaction) -> int {
    match e.amount {
        Some(a) => if e.ty == TransactionType::Withdrawal && s.apply(e).result == Ok::<
            Outcome,
            TransactionError,
        >(Outcome::Applied) {
            a@
        } else {
            0
        },
        None => 0,
    }
}

/// What an event charges back: the disputed amount, where the event is a
/// chargeback that froze the account, and nothing otherwise.
pub open spec fn charged_back(s: AccountState, e: IncomingTransaction) -> int {
    if e.ty == TransactionType::Chargeback && !s.locked() && s.apply(e).state.locked() {
        held_at(s.log, e.tx)
    } else {
        0
    }
}

/// The deposits carried out while `events` ran from `s`, summed.
pub open spec fn deposits(s: AccountState, events: Seq<IncomingTransaction>) -> int
    decreases events.len(),
{
    if events.len() == 0 {
        0
    } else {
        deposits(s, events.drop_last()) + deposited(s.run(events.drop_last()), events.last())
    }
}

/// The withdrawals carried out while `events` ran from `s`, summed.
pub open spec fn withdrawals(s: AccountState, events: Seq<IncomingTransaction>) -> int
    decreases events.len(),
{
    if events.len() == 0 {
        0
    } else {
        withdrawals(s, events.drop_last()) + withdrawn(s.run(events.drop_last()), events.last())
    }
}

/// The amounts charged back while `events` ran from `s`, summed.
pub open spec fn chargebacks(s: AccountState, events: Seq<IncomingTransaction>) -> int
    decreases events.len(),
{
    if events.len() == 0 {
        0
    } else {
        chargebacks(s, events.drop_last()) + charged_back(
            s.run(events.drop_last()),
            events.last(),
        )
    }
}

/// An event changes the total by what it pays in, less what it takes out and
/// what it charges back. Disputes and resolves move funds between available
/// and held and leave the total alone.
pub proof fn lemma_step_conserves(s: AccountState, e: IncomingTransaction)
    ensures
        s.apply(e).state.total() == s.total() + deposited(s, e) - withdrawn(s, e) - charged_back(
            s,
            e,
        ),
{
}

/// Conservation: after any sequence of events, the total is what it was at
/// the start, plus the deposits that were carried out, less the withdrawals
/// that were carried out and the amounts charged back. Events that were
/// ignored add nothing.
pub proof fn lemma_conservation(s: AccountState, events: Seq<IncomingTransaction>)
    ensures
        s.run(events).total() == s.total() + deposits(s, events) - withdrawals(s, events)
            - chargebacks(s, events),
    decreases events.len(),
{
    if events.len() > 0 {
        lemma_conservation(s, events.drop_last());
        lemma_step_conserves(s.run(events.drop_last()), events.last());
    }
}

/// Conservation for an account that starts empty: its total is the deposits
/// less the withdrawals and the chargebacks.
pub proof fn lemma_conservation_from_fresh(id: u16, events: Seq<IncomingTransaction>)
    ensures
        AccountState::fresh(id).run(events).total() == deposits(AccountState::fresh(id), events)
            - withdrawals(AccountState::fresh(id), events) - chargebacks(
            AccountState::fresh(id),
            events,
        ),
{
    lemma_conservation(AccountState::fresh(id), events);
}

/// A withdrawal that was carried out leaves the available funds at zero or
/// above.
pub proof fn lemma_withdrawal_leaves_available_nonnegative(
    s: AccountState,
    tx: u32,
    amount: Option<Amount>,
)
    requires
        s.step(tx, TransactionType::Withdrawal, amount).result == Ok::<Outcome, TransactionError>(
            Outcome::Applied,
        ),
    ensures
        s.step(tx, TransactionType::Withdrawal, amount).state.available >= 0,
{
}

/// Events take a well-formed account to a well-formed account, so its held
/// funds are never negative.
pub proof fn lemma_run_wf(s: AccountState, events: Seq<IncomingTransaction>)
    requires
        s.wf(),
    ensures
        s.run(events).wf(),
        s.run(events).held >= 0,
    decreases events.len(),
{
    if events.len() > 0 {
        lemma_run_wf(s, events.drop_last());
        let e = events.last();
        lemma_step_wf(s.run(events.drop_last()), e.tx, e.ty, e.amount);
    }
}

/// Whatever events an account has seen since it was opened, its held funds
/// are not negative.
pub proof fn lemma_held_never_negative(id: u16, events: Seq<IncomingTransaction>)
    ensures
        AccountState::fresh(id).run(events).held >= 0,
{
    lemma_fresh_wf(id);
    lemma_run_wf(AccountState::fresh(id), events);
}

/// A frozen account refuses every event and stays exactly as it is.
pub proof fn lemma_frozen_refuses(s: AccountState, tx: u32, ty: TransactionType, amount: Option<Amount>)
    requires
        s.locked(),
    ensures
        s.step(tx, ty, amount).state == s,
        s.step(tx, ty, amount).result == Err::<Outcome, TransactionError>(
            TransactionError::FrozenAccount,
        ),
{
}

/// Once an account is frozen no sequence of events changes any of its
/// fields.
pub proof fn lemma_frozen_is_terminal(s: AccountState, events: Seq<IncomingTransaction>)
    requires
        s.locked(),
    ensures
        s.run(events) == s,
    decreases events.len(),
{
    if events.len() > 0 {
        lemma_frozen_is_terminal(s, events.drop_last());
    }
}

/// Freezing is for good: an account that is frozen at some point of a run is
/// frozen at its end.
pub proof fn lemma_locked_stays_locked(s: AccountState, events: Seq<IncomingTransaction>, n: int)
    requires
        0 <= n <= events.len(),
        s.run(events.take(n)).locked(),
    ensures
        s.run(events) == s.run(events.take(n)),
    decreases events.len() - n,
{
    if n < events.len() {
        assert(events.drop_last().take(n) == events.take(n));
        lemma_locked_stays_locked(s, events.drop_last(), n);
    } else {
        assert(events.take(n) == events);
    }
}

/// An event that is ignored, for whatever reason, leaves the account exactly
/// as it was.
pub proof fn lemma_ignored_event_changes_nothing(
    s: AccountState,
    tx: u32,
    ty: TransactionType,
    amount: Option<Amount>,
)
    requires
        s.step(tx, ty, amount).result matches Ok(Outcome::Ignored(_)),
    ensures
        s.step(tx, ty, amount).state == s,
{
}

/// An event that is ignored is ignored again, for the same reason, however
/// often it is repeated.
pub proof fn lemma_ignored_event_is_idempotent(
    s: AccountState,
    tx: u32,
    ty: TransactionType,
    amount: Option<Amount>,
)
    requires
        s.step(tx, ty, amount).result matches Ok(Outcome::Ignored(_)),
    ensures
        s.step(tx, ty, amount).state.step(tx, ty, amount) == s.step(tx, ty, amount),
{
}

/// An event that overflows leaves the account exactly as it was.
pub proof fn lemma_overflow_changes_nothing(
    s: AccountState,
    tx: u32,
    ty: TransactionType,
    amount: Option<Amount>,
)
    requires
        s.step(tx, ty, amount).result == Err::<Outcome, TransactionError>(
            TransactionError::Overflow,
        ),
    ensures
        s.step(tx, ty, amount).state == s,
{
}

} // verus!
