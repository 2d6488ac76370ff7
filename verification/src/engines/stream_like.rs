//! The sharded engine: a fixed number of shards, each a single-threaded
//! engine of its own, and a routing rule that sends every client to one of
//! them.
//!
//! The shards share nothing. A host may run each on a thread of its own and
//! feed it through a queue: [`StreamLikeEngine::bucket`] is the routing rule
//! for that, and what comes out is what this engine computes in one thread.

use crate::amount::in_range;
use crate::client::{Client, Summary};
use crate::engines::basic::{
    events_upto, reports, stops_at, BasicEngine, EngineError, ParseError,
};
use crate::ledger::{ledger_run, ledger_step, ledger_wf, overflows, Ledger};
use crate::model::AccountState;
use crate::transaction::IncomingTransaction;
use vstd::prelude::*;

verus! {

/// A sharded engine. The events of a client always reach the same shard, so
/// they stay in their order; between clients no order is kept or needed.
pub struct StreamLikeEngine {
    shards: Vec<BasicEngine>,
}

impl View for StreamLikeEngine {
    type V = Ledger;

    /// The accounts of all shards together.
    closed spec fn view(&self) -> Ledger {
        Map::new(
            |c: u16| self.shards@[c as int % self.shards@.len() as int]@.contains_key(c),
            |c: u16| self.shards@[c as int % self.shards@.len() as int]@[c],
        )
    }
}

impl StreamLikeEngine {
    /// The number of shards.
    pub closed spec fn workers(&self) -> nat {
        self.shards@.len()
    }

    /// What shard `i` holds.
    pub closed spec fn shard(&self, i: int) -> Ledger {
        self.shards@[i]@
    }

    /// Whether there is a shard at all, every shard is well formed, and no
    /// shard holds a client that is not routed to it.
    pub closed spec fn wf(&self) -> bool {
        &&& self.shards@.len() > 0
        &&& forall|i: int| 0 <= i < self.shards@.len() ==> (#[trigger] self.shards@[i]).wf()
        &&& forall|i: int, c: u16|
            0 <= i < self.shards@.len() && #[trigger] self.shards@[i]@.contains_key(c) ==> c as int
                % self.shards@.len() as int == i
    }

    /// In a well-formed engine every account is well formed and filed under
    /// its own id, and is the one its shard holds.
    pub proof fn lemma_wf(&self)
        requires
            self.wf(),
        ensures
            ledger_wf(self@),
            self.workers() > 0,
            forall|c: u16|
                self@.contains_key(c) <==> #[trigger] self.shard(
                    c as int % self.workers() as int,
                ).contains_key(c),
            forall|c: u16| #[trigger]
                self@.contains_key(c) ==> self@[c] == self.shard(
                    c as int % self.workers() as int,
                )[c],
    {
        assert forall|c: u16| #[trigger] self@.contains_key(c) implies self@[c].wf() && self@[c].id
            == c by {
            let i = c as int % self.shards@.len() as int;
            assert(self.shards@[i].wf());
            assert(self.shards@[i]@.contains_key(c));
        }
    }

    /// An engine of `workers` shards that has seen no client yet, or `None`
    /// where `workers` is zero.
    pub fn new(workers: usize) -> (r: Option<StreamLikeEngine>)
        ensures
            r is Some <==> workers > 0,
            r matches Some(e) ==> e.wf() && e.workers() == workers && e@ == Map::<
                u16,
                AccountState,
            >::empty(),
    {
        if workers == 0 {
            return None;
        }
        let mut shards: Vec<BasicEngine> = Vec::new();
        while shards.len() < workers
            invariant
                shards@.len() <= workers,
                forall|i: int|
                    0 <= i < shards@.len() ==> (#[trigger] shards@[i]).wf() && shards@[i]@
                        == Map::<u16, AccountState>::empty(),
            decreases workers - shards@.len(),
        {
            shards.push(BasicEngine::new());
        }
        let engine = StreamLikeEngine { shards };
        assert(engine@ =~= Map::<u16, AccountState>::empty());
        Some(engine)
    }

    /// The shard that the events of a client go to: the client's id modulo
    /// the number of shards.
    pub fn bucket(&self, client_id: u16) -> (r: usize)
        requires
            self.wf(),
        ensures
            r == client_id as nat % self.workers(),
            r < self.workers(),
    {
        client_id as usize % self.shards.len()
    }

    /// Routes one event to the shard of its client, where it is applied.
    pub fn publish_transaction(&mut self, transaction: IncomingTransaction) -> (r: Result<
        (),
        EngineError,
    >)
        requires
            old(self).wf(),
        ensures
            final(self).wf(),
            final(self).workers() == old(self).workers(),
            final(self)@ == ledger_step(old(self)@, transaction),
            match r {
                Ok(_) => !overflows(old(self)@, transaction),
                Err(e) => e == EngineError::Overflow && overflows(old(self)@, transaction),
            },
    {
        let bucket = self.bucket(transaction.client);
        let ghost before = *self;
        proof {
            before.lemma_wf();
        }
        let mut shard = self.shards.remove(bucket);
        let r = shard.publish_transaction(transaction);
        self.shards.insert(bucket, shard);
        proof {
            assert(self.shards@.len() == before.shards@.len());
            assert forall|i: int| 0 <= i < self.shards@.len() implies (
            #[trigger] self.shards@[i]).wf() && (i != bucket ==> self.shards@[i]
                == before.shards@[i]) by {
                if i < bucket {
                } else if i > bucket {
                }
            }
            assert(self.shards@[bucket as int]@ == ledger_step(
                before.shards@[bucket as int]@,
                transaction,
            ));
            assert(self@ =~= ledger_step(before@, transaction));
        }
        r
    }

    /// Processes a stream of records in order. The run ends at the first
    /// record that could not be read, and at the first event that overflows;
    /// what came before has been applied.
    pub fn process(&mut self, records: &Vec<Result<IncomingTransaction, ParseError>>) -> (r: Result<
        (),
        EngineError,
    >)
        requires
            old(self).wf(),
        ensures
            final(self).wf(),
            final(self).workers() == old(self).workers(),
            match r {
                Ok(_) => {
                    &&& final(self)@ == ledger_run(
                        old(self)@,
                        events_upto(records@, records@.len() as int),
                    )
                    &&& forall|i: int|
                        0 <= i < records@.len() ==> !stops_at(old(self)@, records@, i)
                },
                Err(e) => exists|i: int|
                    {
                        &&& 0 <= i < records@.len()
                        &&& #[trigger] stops_at(old(self)@, records@, i)
                        &&& forall|j: int| 0 <= j < i ==> !stops_at(old(self)@, records@, j)
                        &&& match records@[i] {
                            Ok(_) => e == EngineError::Overflow && final(self)@ == ledger_run(
                                old(self)@,
                                events_upto(records@, i + 1),
                            ),
                            Err(p) => e == EngineError::Parse(p) && final(self)@ == ledger_run(
                                old(self)@,
                                events_upto(records@, i),
                            ),
                        }
                    },
            },
    {
        let ghost start = self@;
        let mut i: usize = 0;
        assert(events_upto(records@, 0) =~= Seq::<IncomingTransaction>::empty());
        while i < records.len()
            invariant
                0 <= i <= records@.len(),
                self.wf(),
                self.workers() == old(self).workers(),
                start == old(self)@,
                self@ == ledger_run(start, events_upto(records@, i as int)),
                forall|j: int| 0 <= j < i ==> !stops_at(start, records@, j),
            decreases records@.len() - i,
        {
            proof {
                if records@[i as int] is Ok {
                    let next = events_upto(records@, i + 1);
                    assert(next.drop_last() =~= events_upto(records@, i as int));
                    assert(next.last() == records@[i as int]->Ok_0);
                }
            }
            match records[i] {
                Ok(transaction) => {
                    match self.publish_transaction(transaction) {
                        Ok(_) => {},
                        Err(e) => {
                            assert(stops_at(start, records@, i as int));
                            assert(self@ == ledger_run(start, events_upto(records@, i + 1)));
                            return Err(e);
                        },
                    }
                },
                Err(p) => {
                    assert(stops_at(start, records@, i as int));
                    return Err(EngineError::Parse(p));
                },
            }
            i = i + 1;
        }
        Ok(())
    }

    /// The account of a client, if the engine has seen the client.
    pub fn client(&self, client_id: u16) -> (r: Option<&Client>)
        requires
            self.wf(),
        ensures
            match r {
                Some(c) => self@.contains_key(client_id) && c@ == self@[client_id],
                None => !self@.contains_key(client_id),
            },
    {
        let bucket = self.bucket(client_id);
        self.shards[bucket].client(client_id)
    }

    /// The summary of every account of every shard, one row for each client
    /// the engine has seen, in ascending order of client. Fails where the
    /// total of an account is more than an amount holds.
    pub fn output(&self) -> (r: Result<Vec<Summary>, EngineError>)
        requires
            self.wf(),
        ensures
            match r {
                Ok(rows) => reports(rows@, self@),
                Err(e) => e == EngineError::Overflow && exists|c: u16|
                    #[trigger] self@.contains_key(c) && !in_range(self@[c].total()),
            },
    {
        let mut rows: Vec<Summary> = Vec::new();
        let mut next: u32 = 0;
        while next <= 0xffff
            invariant
                0 <= next <= 0x1_0000,
                self.wf(),
                forall|k: int|
                    0 <= k < rows@.len() ==> self@.contains_key(#[trigger] rows@[k].client)
                        && crate::engines::basic::describes(rows@[k], self@[rows@[k].client])
                        && rows@[k].client < next,
                forall|c: u16|
                    c < next && #[trigger] self@.contains_key(c) ==> exists|k: int|
                        0 <= k < rows@.len() && rows@[k].client == c,
                forall|a: int, b: int|
                    0 <= a < b < rows@.len() ==> (#[trigger] rows@[a]).client < (
                    #[trigger] rows@[b]).client,
            decreases 0x1_0000 - next,
        {
            let id: u16 = next as u16;
            match self.client(id) {
                Some(client) => {
                    match client.summary() {
                        Ok(row) => {
                            let ghost before = rows@;
                            rows.push(row);
                            assert(forall|k: int|
                                0 <= k < before.len() ==> rows@[k] == before[k]);
                            assert(rows@[before.len() as int] == row);
                            assert forall|c: u16|
                                c < next + 1 && #[trigger] self@.contains_key(c) implies exists|
                                k: int,
                            | 0 <= k < rows@.len() && rows@[k].client == c by {
                                if c == id {
                                    assert(rows@[before.len() as int].client == c);
                                } else {
                                    let k = choose|k: int|
                                        0 <= k < before.len() && before[k].client == c;
                                    assert(rows@[k].client == c);
                                }
                            }
                        },
                        Err(_) => {
                            return Err(EngineError::Overflow);
                        },
                    }
                },
                None => {},
            }
            next = next + 1;
        }
        Ok(rows)
    }
}

} // verus!
