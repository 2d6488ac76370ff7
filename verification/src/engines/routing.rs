//! Why the flavours agree: an account depends on the events of its own
//! client, in their order, and on nothing else.
//!
//! The single-threaded engine applies the whole stream to one ledger. The
//! sharded engine hands each event to the shard of its client and lets every
//! shard run a ledger of its own. The per-client engine gives every client a
//! mailbox and lets every account run through its own mail. All three keep
//! the events of one client in their order, so all three end with the same
//! accounts.

use crate::ledger::{account_of, events_for_shard, events_of, ledger_run, Ledger};
use crate::model::AccountState;
use crate::transaction::IncomingTransaction;
use vstd::prelude::*;

verus! {

/// The shard that the events of a client go to.
pub open spec fn shard_of(client: u16, workers: nat) -> nat {
    client as nat % workers
}

/// After a stream of events, a client's account is what its own events make
/// of the account it had before, and a client is in the ledger if it was
/// there before or the stream holds an event for it.
pub proof fn lemma_run_is_per_client(ledger: Ledger, events: Seq<IncomingTransaction>, client: u16)
    ensures
        account_of(ledger_run(ledger, events), client) == account_of(ledger, client).run(
            events_of(events, client),
        ),
        ledger_run(ledger, events).contains_key(client) <==> ledger.contains_key(client)
            || events_of(events, client).len() > 0,
    decreases events.len(),
{
    if events.len() > 0 {
        lemma_run_is_per_client(ledger, events.drop_last(), client);
        let own = events_of(events, client);
        if events.last().client == client {
            assert(own.drop_last() == events_of(events.drop_last(), client));
            assert(own.last() == events.last());
        }
    }
}

/// The events that reach a client's shard hold the client's own events, all
/// of them and in their order.
pub proof fn lemma_shard_keeps_client_events(
    events: Seq<IncomingTransaction>,
    workers: nat,
    client: u16,
)
    requires
        workers > 0,
    ensures
        events_of(events_for_shard(events, workers, shard_of(client, workers)), client)
            == events_of(events, client),
    decreases events.len(),
{
    if events.len() > 0 {
        lemma_shard_keeps_client_events(events.drop_last(), workers, client);
        let shard = shard_of(client, workers);
        let routed = events_for_shard(events, workers, shard);
        if events.last().client as nat % workers == shard {
            assert(routed.drop_last() == events_for_shard(events.drop_last(), workers, shard));
            assert(routed.last() == events.last());
        }
    }
}

/// No event for a client reaches a shard other than the client's own.
pub proof fn lemma_other_shards_see_nothing(
    events: Seq<IncomingTransaction>,
    workers: nat,
    shard: nat,
    client: u16,
)
    requires
        workers > 0,
        shard != shard_of(client, workers),
    ensures
        events_of(events_for_shard(events, workers, shard), client).len() == 0,
    decreases events.len(),
{
    if events.len() > 0 {
        lemma_other_shards_see_nothing(events.drop_last(), workers, shard, client);
        let routed = events_for_shard(events, workers, shard);
        if events.last().client as nat % workers == shard {
            assert(routed.drop_last() == events_for_shard(events.drop_last(), workers, shard));
            assert(routed.last() == events.last());
            assert(routed.last().client != client);
        }
    }
}

/// The flavours agree. For any stream of events, any number of shards and
/// any client, three accounts are the same: the one the single-threaded
/// engine ends with, the one the client's shard ends with, and the one the
/// client's own events make of a fresh account. The client is known to the
/// single-threaded engine exactly if it is known to its shard, which is
/// exactly if the stream holds an event for it; no other shard knows it.
pub proof fn lemma_flavours_agree(events: Seq<IncomingTransaction>, workers: nat, client: u16)
    requires
        workers > 0,
    ensures
        ({
            let empty = Map::<u16, AccountState>::empty();
            let basic = ledger_run(empty, events);
            let shard = ledger_run(
                empty,
                events_for_shard(events, workers, shard_of(client, workers)),
            );
            let alone = AccountState::fresh(client).run(events_of(events, client));
            &&& account_of(basic, client) == alone
            &&& account_of(shard, client) == alone
            &&& basic.contains_key(client) <==> events_of(events, client).len() > 0
            &&& shard.contains_key(client) <==> events_of(events, client).len() > 0
            &&& forall|other: nat|
                other != shard_of(client, workers) ==> !(#[trigger] ledger_run(
                    empty,
                    events_for_shard(events, workers, other),
                )).contains_key(client)
        }),
{
    let empty = Map::<u16, AccountState>::empty();
    lemma_run_is_per_client(empty, events, client);
    lemma_run_is_per_client(
        empty,
        events_for_shard(events, workers, shard_of(client, workers)),
        client,
    );
    lemma_shard_keeps_client_events(events, workers, client);
    assert forall|other: nat| other != shard_of(client, workers) implies !(#[trigger] ledger_run(
        empty,
        events_for_shard(events, workers, other),
    )).contains_key(client) by {
        lemma_other_shards_see_nothing(events, workers, other, client);
        lemma_run_is_per_client(empty, events_for_shard(events, workers, other), client);
    }
}

} // verus!
