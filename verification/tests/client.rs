use trx::{
    AccountStatus, Amount, Client, IgnoreReason, Outcome, Transaction, TransactionError,
    TransactionType,
};

fn amount(text: &str) -> Amount {
    Amount::parse(text).unwrap()
}

fn funded(available: &str) -> Client {
    Client::from_balances(1, AccountStatus::Active, amount(available), Amount::zero()).unwrap()
}

#[test]
fn can_be_serialized() {
    let mut client = Client::new(1);
    client.publish_transaction(1, TransactionType::Deposit, Some(amount("22.2"))).unwrap();
    client.publish_transaction(2, TransactionType::Deposit, Some(amount("3.32"))).unwrap();
    client.publish_transaction(2, TransactionType::Dispute, None).unwrap();
    let row = client.summary().unwrap();
    assert_eq!(row.client, client.id());
    assert!(row.available == client.available_funds());
    assert!(row.held == client.held_funds());
    assert!(Ok(row.total) == client.total_funds());
    assert_eq!(row.locked, client.is_locked());
    assert!(row.available == amount("22.2"));
    assert!(row.held == amount("3.32"));
    assert!(row.total == amount("25.52"));
    assert!(!row.locked);
}

#[test]
fn errors_if_the_account_is_frozen() {
    let mut client =
        Client::from_balances(1, AccountStatus::Frozen, amount("20"), Amount::zero()).unwrap();
    let tx_id = 1;
    for tx in &[
        TransactionType::Deposit,
        TransactionType::Withdrawal,
        TransactionType::Dispute,
        TransactionType::Resolve,
        TransactionType::Chargeback,
    ] {
        let res = client.publish_transaction(tx_id, *tx, None);
        assert!(res.is_err(), "if the account is frozen we should always error");
        assert_eq!(res, Err(TransactionError::FrozenAccount));
    }
}

#[test]
fn handles_deposit_with_a_new_transaction_id() {
    let mut client = Client::new(1);
    let tx_id = 1;
    let tx_amt = amount("1.23");
    client.publish_transaction(tx_id, TransactionType::Deposit, Some(tx_amt)).unwrap();
    assert_eq!(client.log_len(), 1, "transaction log has a size of 1");
    assert!(client.available_funds() == tx_amt);
    assert!(client.held_funds() == Amount::zero());
    let log_data = client.log_entry(tx_id);
    assert!(log_data.is_some(), "the transaction id should be present in the log");
    assert!(log_data.unwrap().is_some(), "the nested transaction id should be some");
    let is_deposit_type = matches!(log_data.unwrap().unwrap(), Transaction::Deposit { .. });
    assert!(is_deposit_type, "the transaction should be of type deposit");
}

#[test]
fn handles_a_deposit_with_a_duplicate_transaction_id() {
    let mut client = Client::new(1);
    let tx_id = 1;
    let tx_amt = amount("1.23");
    client.publish_transaction(tx_id, TransactionType::Deposit, Some(tx_amt)).unwrap();
    assert_eq!(client.log_len(), 1, "transaction log has a size of 1");
    let prev_available_funds = client.available_funds();
    assert!(prev_available_funds == tx_amt);

    // duplicate
    let result = client.publish_transaction(tx_id, TransactionType::Deposit, Some(tx_amt));
    assert_eq!(
        result,
        Ok(Outcome::Ignored(IgnoreReason::IllegalTransition)),
        "duplicate transaction should be ignored"
    );

    let log_data = client.log_entry(tx_id);
    assert!(log_data.is_some(), "the existing transaction should still be there");
    assert!(
        log_data.unwrap().is_some(),
        "the existing nested transaction id should still be there"
    );
    let is_deposit_type = matches!(log_data.unwrap().unwrap(), Transaction::Deposit { .. });
    assert!(is_deposit_type, "the existing deposit type should still be there");
    assert!(
        prev_available_funds == client.available_funds(),
        "available funds shouldn't increase"
    );
}

#[test]
fn handles_a_withdrawal_with_a_new_transaction_id() {
    let mut client = funded("20");
    let tx_id = 1;
    let tx_amt = amount("1.23");
    client.publish_transaction(tx_id, TransactionType::Withdrawal, Some(tx_amt)).unwrap();
    assert_eq!(client.log_len(), 1, "transaction log has a size of 1");
    assert!(client.available_funds() == amount("20") - tx_amt);
    assert!(client.available_funds() == amount("18.77"));
    assert!(client.held_funds() == Amount::zero());
    let log_data = client.log_entry(tx_id);
    assert!(log_data.is_some(), "the transaction id should be present in the log");
    assert!(
        log_data.unwrap().is_none(),
        "we don't need to store any data for withdrawals other than the transaction id"
    );
}

#[test]
fn handles_a_duplicate_withdrawal_request() {
    let mut client = funded("20");
    let tx_id = 1;
    let tx_amt = amount("1.23");
    client.publish_transaction(tx_id, TransactionType::Withdrawal, Some(tx_amt)).unwrap();
    assert_eq!(client.log_len(), 1, "transaction log has a size of 1");
    let expected_available_funds = amount("20") - tx_amt;
    let prev_available_funds = client.available_funds();
    assert!(prev_available_funds == expected_available_funds);

    // duplicate
    let result = client.publish_transaction(tx_id, TransactionType::Withdrawal, Some(tx_amt));
    assert_eq!(
        result,
        Ok(Outcome::Ignored(IgnoreReason::DuplicateTxId)),
        "duplicate transaction should be ignored"
    );

    let log_data = client.log_entry(tx_id);
    assert!(log_data.is_some(), "the existing transaction should still be there");
    assert!(
        log_data.unwrap().is_none(),
        "we don't need to store any data for withdrawals other than the transaction id"
    );
    assert!(
        prev_available_funds == client.available_funds(),
        "available funds shouldn't decrease"
    );
}

#[test]
fn handles_a_dispute_on_a_deposit() {
    let mut client = Client::new(1);
    let tx_id = 1;
    let tx_amt = amount("1.23");
    client.publish_transaction(tx_id, TransactionType::Deposit, Some(tx_amt)).unwrap();
    assert_eq!(client.log_len(), 1, "transaction log has a size of 1");
    let previous_available_balance = client.available_funds();
    client.publish_transaction(tx_id, TransactionType::Dispute, None).unwrap();
    assert!(
        client.available_funds() == Amount::zero(),
        "available funds should be reduced to zero"
    );
    assert!(
        client.held_funds() == previous_available_balance,
        "all funds should now be held"
    );

    let log_data = client.log_entry(tx_id);
    assert!(log_data.is_some(), "the transaction id should be present in the log");
    assert!(log_data.unwrap().is_some(), "the nested transaction id should be some");
    let tx_type = matches!(log_data.unwrap().unwrap(), Transaction::Dispute { .. });
    assert!(tx_type, "the transaction should be of type dispute");
}

#[test]
fn should_ignore_duplicate_dispute_requests() {
    let mut client = Client::new(1);
    let tx_id = 1;
    let tx_amt = amount("1.23");
    client.publish_transaction(tx_id, TransactionType::Deposit, Some(tx_amt)).unwrap();
    assert_eq!(client.log_len(), 1, "transaction log has a size of 1");
    let previous_available_balance = client.available_funds();
    client.publish_transaction(tx_id, TransactionType::Dispute, None).unwrap();
    let res = client.publish_transaction(tx_id, TransactionType::Dispute, None);
    assert_eq!(res, Ok(Outcome::Ignored(IgnoreReason::IllegalTransition)));
    assert!(
        client.available_funds() == Amount::zero(),
        "available funds should be reduced to zero"
    );
    assert!(
        client.held_funds() == previous_available_balance,
        "all funds should now be held"
    );

    let log_data = client.log_entry(tx_id);
    assert!(log_data.is_some(), "the transaction id should be present in the log");
    assert!(log_data.unwrap().is_some(), "the nested transaction id should be some");
    let tx_type = matches!(log_data.unwrap().unwrap(), Transaction::Dispute { .. });
    assert!(tx_type, "the transaction should be of type dispute");
}

#[test]
fn handles_a_resolve_on_a_dispute() {
    let mut client = Client::new(1);
    let tx_id = 1;
    let tx_amt = amount("1.23");
    client.publish_transaction(tx_id, TransactionType::Deposit, Some(tx_amt)).unwrap();
    assert_eq!(client.log_len(), 1, "transaction log has a size of 1");
    client.publish_transaction(tx_id, TransactionType::Dispute, None).unwrap();
    client.publish_transaction(tx_id, TransactionType::Resolve, None).unwrap();
    assert!(
        client.available_funds() == tx_amt,
        "available funds should be back to the full amount"
    );
    assert!(client.held_funds() == Amount::zero(), "held funds should be back to 0");

    let log_data = client.log_entry(tx_id);
    assert!(log_data.is_some(), "the transaction id should be present in the log");
    assert!(log_data.unwrap().is_none(), "we no longer need to hold transaction data");
}

#[test]
fn should_ignore_duplicate_resolve_requests() {
    let mut client = Client::new(1);
    let tx_id = 1;
    let tx_amt = amount("1.23");
    client.publish_transaction(tx_id, TransactionType::Deposit, Some(tx_amt)).unwrap();
    assert_eq!(client.log_len(), 1, "transaction log has a size of 1");
    client.publish_transaction(tx_id, TransactionType::Dispute, None).unwrap();
    client.publish_transaction(tx_id, TransactionType::Resolve, None).unwrap();
    let res = client.publish_transaction(tx_id, TransactionType::Resolve, None);
    assert_eq!(res, Ok(Outcome::Ignored(IgnoreReason::DuplicateTxId)));
    assert!(
        client.available_funds() == tx_amt,
        "available funds should be back to the full amount"
    );
    assert!(client.held_funds() == Amount::zero(), "held funds should be back to 0");

    let log_data = client.log_entry(tx_id);
    assert!(log_data.is_some(), "the transaction id should be present in the log");
    assert!(log_data.unwrap().is_none(), "we no longer need to hold transaction data");
}

#[test]
fn handles_a_chargeback_on_a_dispute() {
    let mut client = Client::new(1);
    let tx_id = 1;
    let tx_amt = amount("1.23");
    client.publish_transaction(tx_id, TransactionType::Deposit, Some(tx_amt)).unwrap();
    assert_eq!(client.log_len(), 1, "transaction log has a size of 1");
    client.publish_transaction(tx_id, TransactionType::Dispute, None).unwrap();
    let res = client.publish_transaction(tx_id, TransactionType::Chargeback, None);
    assert_eq!(res, Err(TransactionError::FrozenAccount));
    assert!(
        client.available_funds() == Amount::zero(),
        "available funds should be 0 if a chargeback occurs"
    );
    assert!(
        client.held_funds() == Amount::zero(),
        "held funds should be 0 if a chargeback occurs"
    );
    assert_eq!(client.status(), AccountStatus::Frozen, "the account should be frozen");
    assert_eq!(client.log_len(), 0, "the transaction log should have been emptied");
}

#[test]
fn handles_illegal_transitions_from_deposit() {
    let mut client = Client::new(1);
    let tx_id = 1;
    let tx_amt = amount("1.23");
    client.publish_transaction(tx_id, TransactionType::Deposit, Some(tx_amt)).unwrap();

    for transition in &[
        TransactionType::Withdrawal,
        TransactionType::Resolve,
        TransactionType::Chargeback,
    ] {
        let mut cli = client.clone();
        let prev_funds = cli.available_funds();
        let prev_total_funds = cli.total_funds().unwrap();
        let result = cli.publish_transaction(tx_id, *transition, Some(tx_amt));
        assert_eq!(result, Ok(Outcome::Ignored(IgnoreReason::IllegalTransition)));
        assert!(prev_funds == cli.available_funds());
        assert!(Ok(prev_total_funds) == cli.total_funds());
    }
}

#[test]
fn handles_illegal_transitions_from_withdrawal() {
    let mut client = funded("20");
    let tx_id = 1;
    let tx_amt = amount("1.23");
    client.publish_transaction(tx_id, TransactionType::Withdrawal, Some(tx_amt)).unwrap();

    for transition in &[
        TransactionType::Deposit,
        TransactionType::Dispute,
        TransactionType::Resolve,
        TransactionType::Chargeback,
    ] {
        let mut cli = client.clone();
        let prev_funds = cli.available_funds();
        let prev_total_funds = cli.total_funds().unwrap();
        let result = cli.publish_transaction(tx_id, *transition, Some(tx_amt));
        assert_eq!(result, Ok(Outcome::Ignored(IgnoreReason::DuplicateTxId)));
        assert!(prev_funds == cli.available_funds());
        assert!(Ok(prev_total_funds) == cli.total_funds());
    }
}

#[test]
fn handles_illegal_transitions_from_dispute() {
    let mut client = Client::new(1);
    let tx_id = 1;
    let tx_amt = amount("1.23");
    client.publish_transaction(tx_id, TransactionType::Deposit, Some(tx_amt)).unwrap();
    client.publish_transaction(tx_id, TransactionType::Dispute, None).unwrap();

    for transition in &[TransactionType::Deposit, TransactionType::Withdrawal] {
        let mut cli = client.clone();
        let prev_funds = cli.available_funds();
        let prev_total_funds = cli.total_funds().unwrap();
        let result = cli.publish_transaction(tx_id, *transition, Some(tx_amt));
        assert_eq!(result, Ok(Outcome::Ignored(IgnoreReason::IllegalTransition)));
        assert!(prev_funds == cli.available_funds());
        assert!(Ok(prev_total_funds) == cli.total_funds());
    }
}

#[test]
fn handles_illegal_transitions_from_resolve() {
    let mut client = Client::new(1);
    let tx_id = 1;
    let tx_amt = amount("1.23");
    client.publish_transaction(tx_id, TransactionType::Deposit, Some(tx_amt)).unwrap();
    client.publish_transaction(tx_id, TransactionType::Dispute, None).unwrap();
    client.publish_transaction(tx_id, TransactionType::Resolve, None).unwrap();

    for transition in &[
        TransactionType::Deposit,
        TransactionType::Withdrawal,
        TransactionType::Dispute,
        TransactionType::Chargeback,
    ] {
        let mut cli = client.clone();
        let prev_funds = cli.available_funds();
        let prev_total_funds = cli.total_funds().unwrap();
        let result = cli.publish_transaction(tx_id, *transition, Some(tx_amt));
        assert_eq!(result, Ok(Outcome::Ignored(IgnoreReason::DuplicateTxId)));
        assert!(prev_funds == cli.available_funds());
        assert!(Ok(prev_total_funds) == cli.total_funds());
    }
}

#[test]
fn every_reason_to_ignore_an_event() {
    let mut client = Client::new(7);
    let five = amount("5");
    assert_eq!(
        client.publish_transaction(1, TransactionType::Deposit, None),
        Ok(Outcome::Ignored(IgnoreReason::MissingAmount))
    );
    assert_eq!(
        client.publish_transaction(1, TransactionType::Withdrawal, None),
        Ok(Outcome::Ignored(IgnoreReason::MissingAmount))
    );
    let negative = Amount::zero() - five;
    assert_eq!(
        client.publish_transaction(1, TransactionType::Deposit, Some(negative)),
        Ok(Outcome::Ignored(IgnoreReason::MissingAmount))
    );
    assert_eq!(
        client.publish_transaction(1, TransactionType::Withdrawal, Some(five)),
        Ok(Outcome::Ignored(IgnoreReason::InsufficientFunds))
    );
    for ty in [TransactionType::Dispute, TransactionType::Resolve, TransactionType::Chargeback] {
        assert_eq!(
            client.publish_transaction(1, ty, None),
            Ok(Outcome::Ignored(IgnoreReason::UnknownTxReference))
        );
    }
    assert_eq!(client.log_len(), 0);
    assert!(client.available_funds() == Amount::zero());
    assert_eq!(client.publish_transaction(1, TransactionType::Deposit, Some(five)), Ok(Outcome::Applied));
    assert_eq!(
        client.publish_transaction(1, TransactionType::Resolve, None),
        Ok(Outcome::Ignored(IgnoreReason::IllegalTransition))
    );
    assert_eq!(client.publish_transaction(2, TransactionType::Withdrawal, Some(five)), Ok(Outcome::Applied));
    assert_eq!(
        client.publish_transaction(2, TransactionType::Dispute, None),
        Ok(Outcome::Ignored(IgnoreReason::DuplicateTxId))
    );
    assert!(client.available_funds() == Amount::zero());
    assert!(client.held_funds() == Amount::zero());
}

#[test]
fn a_refused_withdrawal_leaves_its_id_free() {
    let mut client = Client::new(1);
    assert_eq!(
        client.publish_transaction(2, TransactionType::Withdrawal, Some(amount("5"))),
        Ok(Outcome::Ignored(IgnoreReason::InsufficientFunds))
    );
    assert!(client.log_entry(2).is_none());
    client.publish_transaction(1, TransactionType::Deposit, Some(amount("6"))).unwrap();
    assert_eq!(
        client.publish_transaction(2, TransactionType::Withdrawal, Some(amount("5"))),
        Ok(Outcome::Applied)
    );
    assert!(client.available_funds() == amount("1"));
}

#[test]
fn a_dispute_can_take_available_funds_below_zero() {
    let mut client = Client::new(1);
    client.publish_transaction(1, TransactionType::Deposit, Some(amount("10"))).unwrap();
    client.publish_transaction(2, TransactionType::Withdrawal, Some(amount("5"))).unwrap();
    assert_eq!(client.publish_transaction(1, TransactionType::Dispute, None), Ok(Outcome::Applied));
    assert_eq!(client.available_funds().mantissa(), -50000);
    assert!(client.held_funds() == amount("10"));
    assert!(client.total_funds() == Ok(amount("5")));
    assert_eq!(
        client.publish_transaction(3, TransactionType::Withdrawal, Some(Amount::zero())),
        Ok(Outcome::Ignored(IgnoreReason::InsufficientFunds))
    );
    client.publish_transaction(1, TransactionType::Resolve, None).unwrap();
    assert!(client.available_funds() == amount("5"));
    assert!(client.held_funds() == Amount::zero());
}

#[test]
fn an_overflow_leaves_the_account_as_it_was() {
    let max = amount("7922816251426433759354395.0335");
    let mut client = Client::new(1);
    client.publish_transaction(1, TransactionType::Deposit, Some(max)).unwrap();
    assert_eq!(
        client.publish_transaction(2, TransactionType::Deposit, Some(amount("0.0001"))),
        Err(TransactionError::Overflow)
    );
    assert!(client.available_funds() == max);
    assert_eq!(client.log_len(), 1);
    assert!(client.log_entry(2).is_none());
    assert!(!client.is_locked());
    client.publish_transaction(1, TransactionType::Dispute, None).unwrap();
    client.publish_transaction(3, TransactionType::Deposit, Some(max)).unwrap();
    assert!(client.total_funds() == Err(TransactionError::Overflow));
    assert!(client.summary().is_err());
}
