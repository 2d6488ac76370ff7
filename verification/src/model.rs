//! The account state machine as mathematics.
//!
//! An [`AccountState`] is what an account is once the machine is taken away:
//! two integers, a flag and a map. [`AccountState::step`] says what one event
//! does to it, and every executable function of the crate is specified
//! against it.

use crate::amount::{in_range, Amount};
use crate::transaction::{IncomingTransaction, Transaction, TransactionType};
use vstd::prelude::*;

verus! {

/// Whether an account still takes events.
#[derive(Clone, Copy, Debug, PartialEq, Eq, Structural)]
pub enum AccountStatus {
    Active,
    /// Terminal: a frozen account refuses every event.
    Frozen,
}

/// Why an event left the account as it was.
#[derive(Clone, Copy, Debug, PartialEq, Eq, Structural)]
pub enum IgnoreReason {
    /// A deposit or withdrawal with no usable amount: none was given, or a
    /// negative one.
    MissingAmount,
    /// A withdrawal of more than is available.
    InsufficientFunds,
    /// A dispute, resolve or chargeback that names a transaction the account
    /// has never seen.
    UnknownTxReference,
    /// An event on a transaction that has already run its course.
    DuplicateTxId,
    /// An event that the recorded transaction cannot follow.
    IllegalTransition,
}

/// What an event did to an account that took it.
#[derive(Clone, Copy, Debug, PartialEq, Eq, Structural)]
pub enum Outcome {
    /// The event was carried out.
    Applied,
    /// The event was dropped and the account is as before.
    Ignored(IgnoreReason),
}

/// Why an account stopped short.
#[derive(Clone, Copy, Debug, PartialEq, Eq, Structural)]
pub enum TransactionError {
    /// The account is frozen, by this event or by an earlier one.
    FrozenAccount,
    /// A balance would leave the range of an amount; the account is as before.
    Overflow,
}

/// An account as plain mathematics.
pub struct AccountState {
    pub id: u16,
    pub status: AccountStatus,
    /// Available funds in ten-thousandths.
    pub available: int,
    /// Held funds in ten-thousandths.
    pub held: int,
    /// The transactions seen so far. A key with `None` is a transaction that
    /// has run its course: a withdrawal, or a resolved dispute.
    pub log: Map<u32, Option<Transaction>>,
}

/// An account after an event, and what the event did.
pub struct Step {
    pub state: AccountState,
    pub result: Result<Outcome, TransactionError>,
}

/// What a log slot adds to the held funds: the amount of a deposit under
/// dispute, and nothing otherwise.
pub open spec fn held_by(slot: Option<Transaction>) -> int {
    match slot {
        Some(Transaction::Dispute { amount }) => amount@,
        _ => 0,
    }
}

/// What the transaction `tx` adds to the held funds.
pub open spec fn held_at(log: Map<u32, Option<Transaction>>, tx: u32) -> int {
    if log.contains_key(tx) {
        held_by(log[tx])
    } else {
        0
    }
}

/// The amounts under dispute among the transactions below `n`, summed.
pub open spec fn disputed_below(log: Map<u32, Option<Transaction>>, n: nat) -> int
    decreases n,
{
    if n == 0 {
        0
    } else {
        disputed_below(log, (n - 1) as nat) + held_at(log, (n - 1) as u32)
    }
}

/// The amounts under dispute in a log, summed.
pub open spec fn disputed(log: Map<u32, Option<Transaction>>) -> int {
    disputed_below(log, 0x1_0000_0000)
}

/// Whether every recorded transaction carries an amount of at least zero.
pub open spec fn amounts_nonnegative(log: Map<u32, Option<Transaction>>) -> bool {
    forall|tx: u32| #[trigger]
        log.contains_key(tx) ==> (log[tx] matches Some(t) ==> t.amount()@ >= 0)
}

impl AccountState {
    /// The account of a client of whom nothing has been seen yet.
    pub open spec fn fresh(id: u16) -> AccountState {
        AccountState {
            id,
            status: AccountStatus::Active,
            available: 0,
            held: 0,
            log: Map::empty(),
        }
    }

    /// Available and held funds together.
    pub open spec fn total(self) -> int {
        self.available + self.held
    }

    pub open spec fn locked(self) -> bool {
        self.status == AccountStatus::Frozen
    }

    /// What holds of every account that events have led to: held funds are
    /// never negative, no recorded amount is negative, and while the account
    /// is active its held funds are exactly the amounts under dispute.
    pub open spec fn wf(self) -> bool {
        &&& self.held >= 0
        &&& amounts_nonnegative(self.log)
        &&& self.status == AccountStatus::Active ==> self.held == disputed(self.log)
    }

    /// The account left as it is, with the given report.
    pub open spec fn stay(self, result: Result<Outcome, TransactionError>) -> Step {
        Step { state: self, result }
    }

    pub open spec fn ignore(self, reason: IgnoreReason) -> Step {
        self.stay(Ok(Outcome::Ignored(reason)))
    }

    /// A deposit under a transaction id that is new to the account. A
    /// negative amount is no amount.
    pub open spec fn deposit(self, tx: u32, amount: Amount) -> Step {
        if amount@ < 0 {
            self.ignore(IgnoreReason::MissingAmount)
        } else if !in_range(self.available + amount@) {
            self.stay(Err(TransactionError::Overflow))
        } else {
            Step {
                state: AccountState {
                    available: self.available + amount@,
                    log: self.log.insert(tx, Some(Transaction::Deposit { amount })),
                    ..self
                },
                result: Ok(Outcome::Applied),
            }
        }
    }

    /// A withdrawal under a transaction id that is new to the account. One
    /// that asks for more than is available is dropped and its id is not
    /// recorded. A negative amount is no amount.
    pub open spec fn withdraw(self, tx: u32, amount: Amount) -> Step {
        if amount@ < 0 {
            self.ignore(IgnoreReason::MissingAmount)
        } else if self.available < amount@ {
            self.ignore(IgnoreReason::InsufficientFunds)
        } else if !in_range(self.available - amount@) {
            self.stay(Err(TransactionError::Overflow))
        } else {
            Step {
                state: AccountState {
                    available: self.available - amount@,
                    log: self.log.insert(tx, None),
                    ..self
                },
                result: Ok(Outcome::Applied),
            }
        }
    }

    /// An event on a transaction id that is new to the account.
    pub open spec fn open(self, tx: u32, ty: TransactionType, amount: Option<Amount>) -> Step {
        match (ty, amount) {
            (TransactionType::Deposit, Some(a)) => self.deposit(tx, a),
            (TransactionType::Withdrawal, Some(a)) => self.withdraw(tx, a),
            (TransactionType::Deposit, None) => self.ignore(IgnoreReason::MissingAmount),
            (TransactionType::Withdrawal, None) => self.ignore(IgnoreReason::MissingAmount),
            _ => self.ignore(IgnoreReason::UnknownTxReference),
        }
    }

    /// A recorded deposit goes under dispute: its amount moves from available
    /// to held.
    pub open spec fn dispute(self, tx: u32, amount: Amount) -> Step {
        if !in_range(self.available - amount@) || !in_range(self.held + amount@) {
            self.stay(Err(TransactionError::Overflow))
        } else {
            Step {
                state: AccountState {
                    available: self.available - amount@,
                    held: self.held + amount@,
                    log: self.log.insert(tx, Some(Transaction::Dispute { amount })),
                    ..self
                },
                result: Ok(Outcome::Applied),
            }
        }
    }

    /// A dispute ends for the depositor: its amount moves back from held to
    /// available and the transaction has run its course.
    pub open spec fn resolve(self, tx: u32, amount: Amount) -> Step {
        if !in_range(self.held - amount@) || !in_range(self.available + amount@) {
            self.stay(Err(TransactionError::Overflow))
        } else {
            Step {
                state: AccountState {
                    available: self.available + amount@,
                    held: self.held - amount@,
                    log: self.log.insert(tx, None),
                    ..self
                },
                result: Ok(Outcome::Applied),
            }
        }
    }

    /// A dispute ends against the depositor: its amount leaves the held
    /// funds, the account is frozen and its log is emptied.
    pub open spec fn chargeback(self, amount: Amount) -> Step {
        if !in_range(self.held - amount@) {
            self.stay(Err(TransactionError::Overflow))
        } else {
            Step {
                state: AccountState {
                    held: self.held - amount@,
                    status: AccountStatus::Frozen,
                    log: Map::empty(),
                    ..self
                },
                result: Err(TransactionError::FrozenAccount),
            }
        }
    }

    /// An event on a transaction the account holds a record of.
    pub open spec fn follow(self, tx: u32, record: Transaction, ty: TransactionType) -> Step {
        match record.next(ty) {
            Some(Transaction::Dispute { amount }) => self.dispute(tx, amount),
            Some(Transaction::Resolve { amount }) => self.resolve(tx, amount),
            Some(Transaction::Chargeback { amount }) => self.chargeback(amount),
            _ => self.ignore(IgnoreReason::IllegalTransition),
        }
    }

    /// What one event does to the account.
    pub open spec fn step(self, tx: u32, ty: TransactionType, amount: Option<Amount>) -> Step {
        if self.status == AccountStatus::Frozen {
            self.stay(Err(TransactionError::FrozenAccount))
        } else if !self.log.contains_key(tx) {
            self.open(tx, ty, amount)
        } else {
            match self.log[tx] {
                Some(record) => self.follow(tx, record, ty),
                None => self.ignore(IgnoreReason::DuplicateTxId),
            }
        }
    }

    /// What an incoming event does to the account. The event's client is not
    /// looked at: routing is the engine's business.
    pub open spec fn apply(self, event: IncomingTransaction) -> Step {
        self.step(event.tx, event.ty, event.amount)
    }

    /// The account after a sequence of events, first to last.
    pub open spec fn run(self, events: Seq<IncomingTransaction>) -> AccountState
        decreases events.len(),
    {
        if events.len() == 0 {
            self
        } else {
            self.run(events.drop_last()).apply(events.last()).state
        }
    }
}

/// Nothing is under dispute in an empty log.
pub proof fn lemma_disputed_empty(n: nat)
    ensures
        disputed_below(Map::<u32, Option<Transaction>>::empty(), n) == 0,
    decreases n,
{
    if n > 0 {
        lemma_disputed_empty((n - 1) as nat);
    }
}

/// Writing one slot changes the sum by what that slot held before and holds
/// after.
pub proof fn lemma_disputed_insert(
    log: Map<u32, Option<Transaction>>,
    tx: u32,
    slot: Option<Transaction>,
    n: nat,
)
    requires
        n <= 0x1_0000_0000,
    ensures
        disputed_below(log.insert(tx, slot), n) == disputed_below(log, n) + (if tx < n {
            held_by(slot) - held_at(log, tx)
        } else {
            0
        }),
    decreases n,
{
    if n > 0 {
        lemma_disputed_insert(log, tx, slot, (n - 1) as nat);
        let k = (n - 1) as u32;
        if k != tx {
            assert(held_at(log.insert(tx, slot), k) == held_at(log, k));
        }
    }
}

/// Where no amount is negative, the sum is at least what any one slot holds.
pub proof fn lemma_disputed_bounds(log: Map<u32, Option<Transaction>>, tx: u32, n: nat)
    requires
        amounts_nonnegative(log),
        n <= 0x1_0000_0000,
    ensures
        disputed_below(log, n) >= 0,
        tx < n ==> disputed_below(log, n) >= held_at(log, tx),
    decreases n,
{
    if n > 0 {
        lemma_disputed_bounds(log, tx, (n - 1) as nat);
        let k = (n - 1) as u32;
        assert(held_at(log, k) >= 0) by {
            if log.contains_key(k) {
                assert(log[k] matches Some(t) ==> t.amount()@ >= 0);
            }
        }
    }
}

/// A fresh account is well formed.
pub proof fn lemma_fresh_wf(id: u16)
    ensures
        AccountState::fresh(id).wf(),
{
    lemma_disputed_empty(0x1_0000_0000);
}

/// An event takes a well-formed account to a well-formed account.
pub proof fn lemma_step_wf(s: AccountState, tx: u32, ty: TransactionType, amount: Option<Amount>)
    requires
        s.wf(),
    ensures
        s.step(tx, ty, amount).state.wf(),
{
    let next = s.step(tx, ty, amount).state;
    if next != s {
        assert(s.status == AccountStatus::Active);
        lemma_disputed_bounds(s.log, tx, 0x1_0000_0000);
        if next.status == AccountStatus::Frozen {
            lemma_disputed_empty(0x1_0000_0000);
            assert(amounts_nonnegative(next.log));
        } else {
            assert(next.log == s.log.insert(tx, next.log[tx]));
            lemma_disputed_insert(s.log, tx, next.log[tx], 0x1_0000_0000);
            assert(amounts_nonnegative(next.log)) by {
                assert forall|k: u32| #[trigger] next.log.contains_key(k) implies (next.log[k] matches Some(
                    t,
                ) ==> t.amount()@ >= 0) by {
                    if k != tx {
                        assert(s.log.contains_key(k));
                    } else if s.log.contains_key(tx) {
                        assert(s.log[tx] matches Some(t) ==> t.amount()@ >= 0);
                    }
                }
            }
        }
    }
}

} // verus!
