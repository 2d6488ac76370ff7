//! A ledger as mathematics: every client's account, and what a stream of
//! events does to them.

use crate::model::{AccountState, Outcome, TransactionError};
use crate::transaction::IncomingTransaction;
use vstd::prelude::*;

verus! {

/// The accounts of a ledger by client. A client is in the ledger from the
/// first event that names it, whatever became of that event.
pub type Ledger = Map<u16, AccountState>;

/// The account a client has in the ledger: the one on record, or a fresh one.
pub open spec fn account_of(ledger: Ledger, client: u16) -> AccountState {
    if ledger.contains_key(client) {
        ledger[client]
    } else {
        AccountState::fresh(client)
    }
}

/// The ledger after one event: the event's client has the account that the
/// event leaves it with, and every other client is untouched.
pub open spec fn ledger_step(ledger: Ledger, event: IncomingTransaction) -> Ledger {
    ledger.insert(event.client, account_of(ledger, event.client).apply(event).state)
}

/// Whether the event would take a balance out of range.
pub open spec fn overflows(ledger: Ledger, event: IncomingTransaction) -> bool {
    account_of(ledger, event.client).apply(event).result == Err::<Outcome, TransactionError>(
        TransactionError::Overflow,
    )
}

/// The ledger after a sequence of events, first to last.
pub open spec fn ledger_run(ledger: Ledger, events: Seq<IncomingTransaction>) -> Ledger
    decreases events.len(),
{
    if events.len() == 0 {
        ledger
    } else {
        ledger_step(ledger_run(ledger, events.drop_last()), events.last())
    }
}

/// Whether every account is well formed and filed under its own id.
pub open spec fn ledger_wf(ledger: Ledger) -> bool {
    forall|c: u16| #[trigger]
        ledger.contains_key(c) ==> ledger[c].wf() && ledger[c].id == c
}

/// The events of a stream that are for one client, in their order.
pub open spec fn events_of(events: Seq<IncomingTransaction>, client: u16) -> Seq<
    IncomingTransaction,
>
    decreases events.len(),
{
    if events.len() == 0 {
        Seq::empty()
    } else if events.last().client == client {
        events_of(events.drop_last(), client).push(events.last())
    } else {
        events_of(events.drop_last(), client)
    }
}

/// The events of a stream that go to one of `workers` shards, in their
/// order. A client's shard is its id modulo the number of shards.
pub open spec fn events_for_shard(
    events: Seq<IncomingTransaction>,
    workers: nat,
    shard: nat,
) -> Seq<IncomingTransaction>
    decreases events.len(),
{
    if events.len() == 0 {
        Seq::empty()
    } else if events.last().client as nat % workers == shard {
        events_for_shard(events.drop_last(), workers, shard).push(events.last())
    } else {
        events_for_shard(events.drop_last(), workers, shard)
    }
}

} // verus!
