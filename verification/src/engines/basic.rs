//! The single-threaded engine: every event is applied as it arrives.

use crate::amount::in_range;
use crate::client::{Client, Summary};
use crate::fnv_map;
use crate::ledger::{account_of, ledger_run, ledger_step, ledger_wf, overflows, Ledger};
use crate::model::{lemma_fresh_wf, lemma_step_wf, AccountState, TransactionError};
use crate::transaction::IncomingTransaction;
use fnv::FnvHashMap;
use vstd::prelude::*;

verus! {

broadcast use vstd::std_specs::hash::group_hash_axioms;

/// A record of the input that could not be read.
#[derive(Clone, Copy, Debug, PartialEq, Eq, Structural)]
pub struct ParseError {
    /// The line of the input the record stands on.
    pub line: u64,
}

/// Why an engine stopped.
#[derive(Clone, Copy, Debug, PartialEq, Eq, Structural)]
pub enum EngineError {
    /// The stream held a record that could not be read.
    Parse(ParseError),
    /// A balance would leave the range of an amount.
    Overflow,
}

/// The events that a stream of records holds up to `n`, where all of them
/// could be read.
pub open spec fn events_upto(
    records: Seq<Result<IncomingTransaction, ParseError>>,
    n: int,
) -> Seq<IncomingTransaction> {
    Seq::new(n as nat, |k: int| records[k]->Ok_0)
}

/// Whether processing stops at record `i`: it cannot be read, or it is an
/// event that would take a balance out of range.
pub open spec fn stops_at(
    ledger: Ledger,
    records: Seq<Result<IncomingTransaction, ParseError>>,
    i: int,
) -> bool {
    match records[i] {
        Ok(event) => overflows(ledger_run(ledger, events_upto(records, i)), event),
        Err(_) => true,
    }
}

/// Whether a row reports the account: its client, its funds, their sum and
/// whether it is frozen.
pub open spec fn describes(row: Summary, account: AccountState) -> bool {
    &&& row.client == account.id
    &&& row.available@ == account.available
    &&& row.held@ == account.held
    &&& row.total@ == account.total()
    &&& row.locked == account.locked()
}

/// Whether `rows` reports the ledger: one row for every client, each
/// describing that client's account, in ascending order of client.
pub open spec fn reports(rows: Seq<Summary>, ledger: Ledger) -> bool {
    &&& forall|k: int|
        0 <= k < rows.len() ==> ledger.contains_key(#[trigger] rows[k].client) && describes(
            rows[k],
            ledger[rows[k].client],
        )
    &&& forall|c: u16| #[trigger]
        ledger.contains_key(c) ==> exists|k: int| 0 <= k < rows.len() && rows[k].client == c
    &&& forall|a: int, b: int|
        0 <= a < b < rows.len() ==> (#[trigger] rows[a]).client < (#[trigger] rows[b]).client
}

/// A single threaded engine. Each event is processed in order, and the next
/// is not looked at before the one at hand is done.
pub struct BasicEngine {
    clients: FnvHashMap<u16, Client>,
}

impl View for BasicEngine {
    type V = Ledger;

    closed spec fn view(&self) -> Ledger {
        Map::new(|c: u16| self.clients@.contains_key(c), |c: u16| self.clients@[c]@)
    }
}

impl BasicEngine {
    /// Whether every account is one that events can have led to, filed under
    /// its own id.
    pub open spec fn wf(&self) -> bool {
        ledger_wf(self@)
    }

    /// An engine that has seen no client yet.
    pub fn new() -> (r: BasicEngine)
        ensures
            r@ == Map::<u16, AccountState>::empty(),
            r.wf(),
    {
        let r = BasicEngine { clients: FnvHashMap::default() };
        assert(r@ =~= Map::<u16, AccountState>::empty());
        r
    }

    /// Routes one event to the account of its client, which is opened if the
    /// client is new. What the event does to the account is the account's
    /// business; only an overflow is passed on, as the whole run ends on it.
    pub fn publish_transaction(&mut self, transaction: IncomingTransaction) -> (r: Result<
        (),
        EngineError,
    >)
        requires
            old(self).wf(),
        ensures
            final(self).wf(),
            final(self)@ == ledger_step(old(self)@, transaction),
            match r {
                Ok(_) => !overflows(old(self)@, transaction),
                Err(e) => e == EngineError::Overflow && overflows(old(self)@, transaction),
            },
    {
        let id = transaction.client;
        let ghost before = self@;
        let mut client = match fnv_map::remove(&mut self.clients, &id) {
            Some(c) => c,
            None => {
                proof {
                    lemma_fresh_wf(id);
                }
                Client::new(id)
            },
        };
        assert(client@ == account_of(before, id));
        assert(client.wf());
        let mut result: Result<(), EngineError> = Ok(());
        if !client.is_locked() {
            match client.publish_transaction(transaction.tx, transaction.ty, transaction.amount) {
                Err(TransactionError::Overflow) => {
                    result = Err(EngineError::Overflow);
                },
                _ => {},
            }
        }
        proof {
            lemma_step_wf(
                account_of(before, id),
                transaction.tx,
                transaction.ty,
                transaction.amount,
            );
        }
        fnv_map::insert(&mut self.clients, id, client);
        assert(self@ =~= ledger_step(before, transaction));
        result
    }

    /// Processes a stream of records in order. The run ends at the first
    /// record that could not be read, and at the first event that overflows;
    /// what came before has been applied.
    pub fn process(&mut self, records: &Vec<Result<IncomingTransaction, ParseError>>) -> (r: Result<
        (),
        EngineError,
    >)
        requires
            old(self).wf(),
        ensures
            final(self).wf(),
            match r {
                Ok(_) => {
                    &&& final(self)@ == ledger_run(
                        old(self)@,
                        events_upto(records@, records@.len() as int),
                    )
                    &&& forall|i: int|
                        0 <= i < records@.len() ==> !stops_at(old(self)@, records@, i)
                },
                Err(e) => exists|i: int|
                    {
                        &&& 0 <= i < records@.len()
                        &&& #[trigger] stops_at(old(self)@, records@, i)
                        &&& forall|j: int| 0 <= j < i ==> !stops_at(old(self)@, records@, j)
                        &&& match records@[i] {
                            Ok(_) => e == EngineError::Overflow && final(self)@ == ledger_run(
                                old(self)@,
                                events_upto(records@, i + 1),
                            ),
                            Err(p) => e == EngineError::Parse(p) && final(self)@ == ledger_run(
                                old(self)@,
                                events_upto(records@, i),
                            ),
                        }
                    },
            },
    {
        let ghost start = self@;
        let mut i: usize = 0;
        assert(events_upto(records@, 0) =~= Seq::<IncomingTransaction>::empty());
        while i < records.len()
            invariant
                0 <= i <= records@.len(),
                self.wf(),
                start == old(self)@,
                self@ == ledger_run(start, events_upto(records@, i as int)),
                forall|j: int| 0 <= j < i ==> !stops_at(start, records@, j),
            decreases records@.len() - i,
        {
            proof {
                if records@[i as int] is Ok {
                    let next = events_upto(records@, i + 1);
                    assert(next.drop_last() =~= events_upto(records@, i as int));
                    assert(next.last() == records@[i as int]->Ok_0);
                }
            }
            match records[i] {
                Ok(transaction) => {
                    match self.publish_transaction(transaction) {
                        Ok(_) => {},
                        Err(e) => {
                            assert(stops_at(start, records@, i as int));
                            assert(self@ == ledger_run(start, events_upto(records@, i + 1)));
                            return Err(e);
                        },
                    }
                },
                Err(p) => {
                    assert(stops_at(start, records@, i as int));
                    return Err(EngineError::Parse(p));
                },
            }
            i = i + 1;
        }
        Ok(())
    }

    /// The summary of every account, one row for each client the engine has
    /// seen, whatever became of its events, in ascending order of client.
    /// Fails where the total of an account is more than an amount holds.
    pub fn output(&self) -> (r: Result<Vec<Summary>, EngineError>)
        requires
            self.wf(),
        ensures
            match r {
                Ok(rows) => reports(rows@, self@),
                Err(e) => e == EngineError::Overflow && exists|c: u16|
                    #[trigger] self@.contains_key(c) && !in_range(self@[c].total()),
            },
    {
        let mut rows: Vec<Summary> = Vec::new();
        let mut next: u32 = 0;
        while next <= 0xffff
            invariant
                0 <= next <= 0x1_0000,
                self.wf(),
                forall|k: int|
                    0 <= k < rows@.len() ==> self@.contains_key(#[trigger] rows@[k].client)
                        && describes(rows@[k], self@[rows@[k].client]) && rows@[k].client < next,
                forall|c: u16|
                    c < next && #[trigger] self@.contains_key(c) ==> exists|k: int|
                        0 <= k < rows@.len() && rows@[k].client == c,
                forall|a: int, b: int|
                    0 <= a < b < rows@.len() ==> (#[trigger] rows@[a]).client < (
                    #[trigger] rows@[b]).client,
            decreases 0x1_0000 - next,
        {
            let id: u16 = next as u16;
            match self.client(id) {
                Some(client) => {
                    match client.summary() {
                        Ok(row) => {
                            let ghost before = rows@;
                            rows.push(row);
                            assert(forall|k: int|
                                0 <= k < before.len() ==> rows@[k] == before[k]);
                            assert(rows@[before.len() as int] == row);
                            assert forall|c: u16|
                                c < next + 1 && #[trigger] self@.contains_key(c) implies exists|
                                k: int,
                            | 0 <= k < rows@.len() && rows@[k].client == c by {
                                if c == id {
                                    assert(rows@[before.len() as int].client == c);
                                } else {
                                    let k = choose|k: int|
                                        0 <= k < before.len() && before[k].client == c;
                                    assert(rows@[k].client == c);
                                }
                            }
                        },
                        Err(_) => {
                            return Err(EngineError::Overflow);
                        },
                    }
                },
                None => {},
            }
            next = next + 1;
        }
        Ok(rows)
    }

    /// The account of a client, if the engine has seen the client.
    pub fn client(&self, client_id: u16) -> (r: Option<&Client>)
        ensures
            match r {
                Some(c) => self@.contains_key(client_id) && c@ == self@[client_id],
                None => !self@.contains_key(client_id),
            },
    {
        fnv_map::get(&self.clients, &client_id)
    }

    /// How many clients the engine has seen.
    pub fn len(&self) -> (r: usize)
        ensures
            r == self@.dom().len(),
    {
        assert(self@.dom() =~= self.clients@.dom());
        fnv_map::len(&self.clients)
    }
}

} // verus!
