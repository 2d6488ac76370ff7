//! Incoming events, and the state a recorded transaction is in.

use crate::amount::Amount;
use vstd::prelude::*;

verus! {

/// The kinds of event that can reach an account.
#[derive(Clone, Copy, Debug, PartialEq, Eq, Structural)]
pub enum TransactionType {
    Deposit,
    Withdrawal,
    Dispute,
    Resolve,
    Chargeback,
}

/// One event of the input stream. The amount is there for deposits and
/// withdrawals and absent otherwise.
#[derive(Clone, Copy)]
pub struct IncomingTransaction {
    pub ty: TransactionType,
    pub client: u16,
    pub tx: u32,
    pub amount: Option<Amount>,
}

/// The state of a transaction, with the amount it moved.
///
/// An account's log keeps `Deposit` and `Dispute`; `Resolve` and `Chargeback`
/// only come out of [`Transaction::transition`], to tell the account how a
/// dispute ended.
#[derive(Clone, Copy, PartialEq, Structural)]
pub enum Transaction {
    Deposit { amount: Amount },
    Withdrawal { amount: Amount },
    Dispute { amount: Amount },
    Resolve { amount: Amount },
    Chargeback { amount: Amount },
}

/// The signal that a transaction cannot go where an event wants it.
#[derive(Clone, Copy, Debug, PartialEq, Eq, Structural)]
pub struct IllegalTransition {
    /// The kind of event that was refused.
    pub target: TransactionType,
}

impl Transaction {
    /// The amount the transaction carries.
    pub open spec fn amount(self) -> Amount {
        match self {
            Transaction::Deposit { amount } => amount,
            Transaction::Withdrawal { amount } => amount,
            Transaction::Dispute { amount } => amount,
            Transaction::Resolve { amount } => amount,
            Transaction::Chargeback { amount } => amount,
        }
    }

    /// Where an event of kind `target` takes the transaction, if anywhere: a
    /// deposit can be disputed, a dispute can be resolved or charged back, and
    /// nothing else is legal.
    pub open spec fn next(self, target: TransactionType) -> Option<Transaction> {
        match (self, target) {
            (Transaction::Deposit { amount }, TransactionType::Dispute) => Some(
                Transaction::Dispute { amount },
            ),
            (Transaction::Dispute { amount }, TransactionType::Resolve) => Some(
                Transaction::Resolve { amount },
            ),
            (Transaction::Dispute { amount }, TransactionType::Chargeback) => Some(
                Transaction::Chargeback { amount },
            ),
            _ => None,
        }
    }

    /// Drives the transaction to its next state, or reports that the move is
    /// illegal. The amount is carried over unchanged.
    pub fn transition(self, target: TransactionType) -> (r: Result<Transaction, IllegalTransition>)
        ensures
            match self.next(target) {
                Some(t) => r == Ok::<Transaction, IllegalTransition>(t),
                None => r == Err::<Transaction, IllegalTransition>(IllegalTransition { target }),
            },
    {
        match (self, target) {
            (Transaction::Deposit { amount }, TransactionType::Dispute) => Ok(
                Transaction::Dispute { amount },
            ),
            (Transaction::Dispute { amount }, TransactionType::Resolve) => Ok(
                Transaction::Resolve { amount },
            ),
            (Transaction::Dispute { amount }, TransactionType::Chargeback) => Ok(
                Transaction::Chargeback { amount },
            ),
            _ => Err(IllegalTransition { target }),
        }
    }

    /// Whether the transaction is a deposit that is not under dispute.
    pub fn is_deposit(&self) -> (r: bool)
        ensures
            r == (*self is Deposit),
    {
        match self {
            Transaction::Deposit { .. } => true,
            _ => false,
        }
    }

    /// Whether the transaction is a deposit under dispute.
    pub fn is_dispute(&self) -> (r: bool)
        ensures
            r == (*self is Dispute),
    {
        match self {
            Transaction::Dispute { .. } => true,
            _ => false,
        }
    }
}

} // verus!
