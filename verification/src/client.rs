//! One client's account: the state machine that events drive.

use crate::amount::Amount;
use crate::fnv_map;
use crate::model::{
    lemma_disputed_empty, lemma_fresh_wf, lemma_step_wf, AccountState, AccountStatus, IgnoreReason, Outcome,
    TransactionError,
};
use crate::transaction::{Transaction, TransactionType};
use fnv::FnvHashMap;
use vstd::prelude::*;

verus! {

broadcast use vstd::std_specs::hash::group_hash_axioms;

/// What an account reports of itself once the events are through.
#[derive(Clone, Copy)]
pub struct Summary {
    pub client: u16,
    pub available: Amount,
    pub held: Amount,
    /// Available and held funds together.
    pub total: Amount,
    pub locked: bool,
}

/// All that is kept of one client.
///
/// The fields are private and change only through
/// [`Client::publish_transaction`], which keeps the account well formed.
#[derive(Clone)]
pub struct Client {
    id: u16,
    status: AccountStatus,
    transaction_log: FnvHashMap<u32, Option<Transaction>>,
    held: Amount,
    available: Amount,
}

impl View for Client {
    type V = AccountState;

    closed spec fn view(&self) -> AccountState {
        AccountState {
            id: self.id,
            status: self.status,
            available: self.available@,
            held: self.held@,
            log: self.transaction_log@,
        }
    }
}

impl Client {
    /// Whether the account is one that events can have led to.
    pub open spec fn wf(&self) -> bool {
        self@.wf()
    }

    /// The account of a client of whom nothing has been seen yet.
    pub fn new(client_id: u16) -> (r: Client)
        ensures
            r@ == AccountState::fresh(client_id),
            r.wf(),
    {
        proof {
            lemma_fresh_wf(client_id);
        }
        Client {
            id: client_id,
            status: AccountStatus::Active,
            transaction_log: FnvHashMap::default(),
            available: Amount::zero(),
            held: Amount::zero(),
        }
    }

    /// An account with given balances and an empty log, or `None` where no
    /// events could have led to such an account: held funds are negative, or
    /// the account is active and holds funds though nothing is under dispute.
    pub fn from_balances(
        client_id: u16,
        status: AccountStatus,
        available: Amount,
        held: Amount,
    ) -> (r: Option<Client>)
        ensures
            r is Some <==> held@ >= 0 && (held@ == 0 || status == AccountStatus::Frozen),
            r matches Some(c) ==> c.wf() && c@ == (AccountState {
                id: client_id,
                status,
                available: available@,
                held: held@,
                log: Map::empty(),
            }),
    {
        if held.is_negative() {
            return None;
        }
        if status == AccountStatus::Active && held.mantissa() != 0 {
            return None;
        }
        proof {
            lemma_disputed_empty(0x1_0000_0000);
        }
        Some(
            Client {
                id: client_id,
                status,
                transaction_log: FnvHashMap::default(),
                available,
                held,
            },
        )
    }

    pub fn id(&self) -> (r: u16)
        ensures
            r == self@.id,
    {
        self.id
    }

    pub fn status(&self) -> (r: AccountStatus)
        ensures
            r == self@.status,
    {
        self.status
    }

    /// Whether the account is frozen.
    pub fn is_locked(&self) -> (r: bool)
        ensures
            r == self@.locked(),
    {
        self.status == AccountStatus::Frozen
    }

    pub fn available_funds(&self) -> (r: Amount)
        ensures
            r@ == self@.available,
    {
        self.available
    }

    pub fn held_funds(&self) -> (r: Amount)
        ensures
            r@ == self@.held,
    {
        self.held
    }

    /// Available and held funds together, unless the sum is more than an
    /// amount holds.
    pub fn total_funds(&self) -> (r: Result<Amount, TransactionError>)
        ensures
            match r {
                Ok(t) => t@ == self@.total(),
                Err(e) => e == TransactionError::Overflow && !crate::amount::in_range(
                    self@.total(),
                ),
            },
    {
        match self.available.checked_add(self.held) {
            Some(t) => Ok(t),
            None => Err(TransactionError::Overflow),
        }
    }

    /// The row the account contributes to the output.
    pub fn summary(&self) -> (r: Result<Summary, TransactionError>)
        ensures
            match r {
                Ok(s) => {
                    &&& s.client == self@.id
                    &&& s.available@ == self@.available
                    &&& s.held@ == self@.held
                    &&& s.total@ == self@.total()
                    &&& s.locked == self@.locked()
                },
                Err(e) => e == TransactionError::Overflow && !crate::amount::in_range(
                    self@.total(),
                ),
            },
    {
        match self.total_funds() {
            Ok(total) => Ok(
                Summary {
                    client: self.id,
                    available: self.available,
                    held: self.held,
                    total,
                    locked: self.is_locked(),
                },
            ),
            Err(e) => Err(e),
        }
    }

    /// How many transactions the log holds.
    pub fn log_len(&self) -> (r: usize)
        ensures
            r == self@.log.len(),
    {
        fnv_map::len(&self.transaction_log)
    }

    /// What the log holds of a transaction: `None` where it has never been
    /// seen, `Some(None)` where it has run its course, and its record
    /// otherwise.
    pub fn log_entry(&self, transaction_id: u32) -> (r: Option<Option<Transaction>>)
        ensures
            match r {
                Some(slot) => self@.log.contains_key(transaction_id) && slot
                    == self@.log[transaction_id],
                None => !self@.log.contains_key(transaction_id),
            },
    {
        match fnv_map::get(&self.transaction_log, &transaction_id) {
            Some(slot) => Some(*slot),
            None => None,
        }
    }

    /// Applies one event to the account.
    ///
    /// A frozen account refuses the event. Otherwise an event on a new
    /// transaction id opens it (deposit, withdrawal) or is dropped; an event
    /// on a recorded transaction moves it along (dispute, resolve,
    /// chargeback) or is dropped. A chargeback freezes the account and is
    /// reported as `FrozenAccount`, like every event after it. Where a
    /// balance would leave the range of an amount the account stays as it
    /// was and `Overflow` is reported.
    pub fn publish_transaction(
        &mut self,
        transaction_id: u32,
        transaction_type: TransactionType,
        amount: Option<Amount>,
    ) -> (r: Result<Outcome, TransactionError>)
        requires
            old(self).wf(),
        ensures
            final(self).wf(),
            final(self)@ == old(self)@.step(transaction_id, transaction_type, amount).state,
            r == old(self)@.step(transaction_id, transaction_type, amount).result,
    {
        proof {
            lemma_step_wf(self@, transaction_id, transaction_type, amount);
        }
        if self.status == AccountStatus::Frozen {
            return Err(TransactionError::FrozenAccount);
        }
        match self.log_entry(transaction_id) {
            Some(Some(trx)) => match trx.transition(transaction_type) {
                Ok(Transaction::Dispute { amount }) => self.dispute(transaction_id, amount),
                Ok(Transaction::Resolve { amount }) => self.resolve(transaction_id, amount),
                Ok(Transaction::Chargeback { amount }) => self.chargeback(amount),
                _ => Ok(Outcome::Ignored(IgnoreReason::IllegalTransition)),
            },
            Some(None) => Ok(Outcome::Ignored(IgnoreReason::DuplicateTxId)),
            None => match (transaction_type, amount) {
                (TransactionType::Deposit, Some(a)) => self.deposit(transaction_id, a),
                (TransactionType::Withdrawal, Some(a)) => self.withdraw(transaction_id, a),
                (TransactionType::Deposit, None) => Ok(
                    Outcome::Ignored(IgnoreReason::MissingAmount),
                ),
                (TransactionType::Withdrawal, None) => Ok(
                    Outcome::Ignored(IgnoreReason::MissingAmount),
                ),
                _ => Ok(Outcome::Ignored(IgnoreReason::UnknownTxReference)),
            },
        }
    }

    fn deposit(&mut self, transaction_id: u32, amount: Amount) -> (r: Result<
        Outcome,
        TransactionError,
    >)
        ensures
            final(self)@ == old(self)@.deposit(transaction_id, amount).state,
            r == old(self)@.deposit(transaction_id, amount).result,
    {
        if amount.is_negative() {
            return Ok(Outcome::Ignored(IgnoreReason::MissingAmount));
        }
        match self.available.checked_add(amount) {
            Some(available) => {
                fnv_map::insert(
                    &mut self.transaction_log,
                    transaction_id,
                    Some(Transaction::Deposit { amount }),
                );
                self.available = available;
                Ok(Outcome::Applied)
            },
            None => Err(TransactionError::Overflow),
        }
    }

    fn withdraw(&mut self, transaction_id: u32, amount: Amount) -> (r: Result<
        Outcome,
        TransactionError,
    >)
        ensures
            final(self)@ == old(self)@.withdraw(transaction_id, amount).state,
            r == old(self)@.withdraw(transaction_id, amount).result,
    {
        if amount.is_negative() {
            return Ok(Outcome::Ignored(IgnoreReason::MissingAmount));
        }
        if self.available >= amount {
            match self.available.checked_sub(amount) {
                Some(available) => {
                    self.available = available;
                    fnv_map::insert(&mut self.transaction_log, transaction_id, None);
                    Ok(Outcome::Applied)
                },
                None => Err(TransactionError::Overflow),
            }
        } else {
            Ok(Outcome::Ignored(IgnoreReason::InsufficientFunds))
        }
    }

    fn dispute(&mut self, transaction_id: u32, amount: Amount) -> (r: Result<
        Outcome,
        TransactionError,
    >)
        ensures
            final(self)@ == old(self)@.dispute(transaction_id, amount).state,
            r == old(self)@.dispute(transaction_id, amount).result,
    {
        match (self.available.checked_sub(amount), self.held.checked_add(amount)) {
            (Some(available), Some(held)) => {
                self.available = available;
                self.held = held;
                fnv_map::insert(
                    &mut self.transaction_log,
                    transaction_id,
                    Some(Transaction::Dispute { amount }),
                );
                Ok(Outcome::Applied)
            },
            _ => Err(TransactionError::Overflow),
        }
    }

    fn resolve(&mut self, transaction_id: u32, amount: Amount) -> (r: Result<
        Outcome,
        TransactionError,
    >)
        ensures
            final(self)@ == old(self)@.resolve(transaction_id, amount).state,
            r == old(self)@.resolve(transaction_id, amount).result,
    {
        match (self.held.checked_sub(amount), self.available.checked_add(amount)) {
            (Some(held), Some(available)) => {
                self.held = held;
                self.available = available;
                // The transaction can no longer change: its data is dropped
                // and only its id is kept.
                fnv_map::insert(&mut self.transaction_log, transaction_id, None);
                Ok(Outcome::Applied)
            },
            _ => Err(TransactionError::Overflow),
        }
    }

    fn chargeback(&mut self, amount: Amount) -> (r: Result<Outcome, TransactionError>)
        ensures
            final(self)@ == old(self)@.chargeback(amount).state,
            r == old(self)@.chargeback(amount).result,
    {
        match self.held.checked_sub(amount) {
            Some(held) => {
                self.held = held;
                self.status = AccountStatus::Frozen;
                // A frozen account takes no further event, so no transaction
                // id needs to be told from an unseen one any more.
                self.transaction_log.clear();
                Err(TransactionError::FrozenAccount)
            },
            None => Err(TransactionError::Overflow),
        }
    }
}

} // verus!
