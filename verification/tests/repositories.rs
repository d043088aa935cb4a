use rails::{
    Account, AccountRepository, Amount, InMemAccountRepository, InMemTransactionRepository,
    Operation, RepositoryError, Transaction, TransactionDispute, TransactionRepository,
    TransactionStatus,
};

#[test]
fn account_created_on_get() {
    let mut repo = InMemAccountRepository::default();
    let client_id: u64 = 1;
    let result = repo.get_account(&client_id);
    assert_eq!(result.client_id(), 1);
}

#[test]
fn get_returns_the_stored_account_again() {
    let mut repo = InMemAccountRepository::default();
    let first = repo.get_account(&3);
    let again = repo.get_account(&3);
    assert_eq!(first.client_id(), again.client_id());
    assert_eq!(first.available(), again.available());
    assert_eq!(repo.account_visitor().len(), 1);
}

#[test]
fn update_account_is_compare_and_set() {
    let mut repo = InMemAccountRepository::default();
    let stored = repo.get_account(&1);
    let mut next = stored;
    next.available = Amount { units: 77 };
    assert!(repo.update_account(&stored, &next).is_ok());

    // The old snapshot no longer matches: the update is refused.
    let result = repo.update_account(&stored, &next);
    assert!(matches!(result, Err(RepositoryError::InconsistencyDetected(1))));

    // An account never stored cannot be updated.
    let absent = Account {
        client_id: 9,
        available: Amount { units: 0 },
        held: Amount { units: 0 },
        locked: false,
        last_tx_applied: None,
    };
    let result = repo.update_account(&absent, &absent);
    assert!(matches!(result, Err(RepositoryError::EntityNotFound(9))));
}

#[test]
fn visitor_walks_every_account_once() {
    let mut repo = InMemAccountRepository::default();
    repo.get_account(&1);
    repo.get_account(&2);
    repo.get_account(&3);
    repo.get_account(&2);
    let rows = repo.account_visitor();
    let mut ids: Vec<u64> = rows.iter().map(|a| a.client_id()).collect();
    ids.sort();
    assert_eq!(ids, vec![1, 2, 3]);
}

#[test]
fn post_transaction_rejects_duplicate_ids() {
    let mut repo = InMemTransactionRepository::default();
    let t = Transaction {
        operation: Operation::Deposit,
        client_id: 1,
        transaction_id: 5,
        amount: Some(Amount { units: 10000 }),
        status: TransactionStatus::Pending,
        dispute: TransactionDispute::No,
    };
    assert!(repo.post_transaction(&t).is_ok());
    let result = repo.post_transaction(&t);
    assert!(matches!(result, Err(RepositoryError::EntityAlreadyExists(5))));
}

#[test]
fn stored_transactions_can_be_updated_and_found() {
    let mut repo = InMemTransactionRepository::default();
    let t = Transaction {
        operation: Operation::Withdrawal,
        client_id: 2,
        transaction_id: 8,
        amount: Some(Amount { units: 42 }),
        status: TransactionStatus::Pending,
        dispute: TransactionDispute::No,
    };
    repo.post_transaction(&t).unwrap();
    repo.update_transaction_status(&8, &TransactionStatus::Applied).unwrap();
    repo.update_transaction_dispute(&8, &TransactionDispute::Disputed).unwrap();

    let found = repo.find_transaction_by_id(&8).unwrap();
    assert_eq!(found.transaction_id(), 8);
    assert_eq!(found.amount().unwrap().units, 42);
    assert!(matches!(found.status, TransactionStatus::Applied));
    assert!(matches!(found.dispute, TransactionDispute::Disputed));

    assert!(repo.find_transaction_by_id(&9).is_none());
    let result = repo.update_transaction_status(&9, &TransactionStatus::Applied);
    assert!(matches!(result, Err(RepositoryError::EntityNotFound(9))));
    let result = repo.update_transaction_dispute(&9, &TransactionDispute::Resolved);
    assert!(matches!(result, Err(RepositoryError::EntityNotFound(9))));
}
