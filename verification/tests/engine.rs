use rails::{
    Amount, Decimal, InMemAccountRepository, InMemTransactionRepository, Operation,
    RepositoryError, ServiceError, TransactionRequest, TransactionService,
};

fn amt(s: &str) -> Amount {
    Amount::from_decimal(&Decimal::parse(s).unwrap()).unwrap()
}

fn service() -> TransactionService<InMemAccountRepository, InMemTransactionRepository> {
    let acc_repo = InMemAccountRepository::default();
    let tx_repo = InMemTransactionRepository::default();
    TransactionService::new(acc_repo, tx_repo)
}

fn deposit(client: u64, tx: u64, amount: &str) -> TransactionRequest {
    TransactionRequest {
        transaction_type: Some(Operation::Deposit),
        client_id: Some(client),
        transaction_id: Some(tx),
        amount: Some(Decimal::parse(amount).unwrap()),
    }
}

fn withdrawal(client: u64, tx: u64, amount: &str) -> TransactionRequest {
    TransactionRequest {
        transaction_type: Some(Operation::Withdrawal),
        client_id: Some(client),
        transaction_id: Some(tx),
        amount: Some(Decimal::parse(amount).unwrap()),
    }
}

fn refer(op: Operation, client: u64, tx: u64) -> TransactionRequest {
    TransactionRequest {
        transaction_type: Some(op),
        client_id: Some(client),
        transaction_id: Some(tx),
        amount: None,
    }
}

#[test]
fn reject_duplicated_transaction() {
    let mut transaction_service = service();
    let result = transaction_service.process_transaction(TransactionRequest {
        transaction_type: Some(Operation::Deposit),
        client_id: Some(1),
        transaction_id: Some(1),
        amount: Some(Decimal::parse("1.2345").unwrap()),
    });
    assert!(result.is_ok());
    let result = transaction_service.process_transaction(TransactionRequest {
        transaction_type: Some(Operation::Deposit),
        client_id: Some(1),
        transaction_id: Some(1),
        amount: Some(Decimal::parse("1.2345").unwrap()),
    });
    assert!(result.is_err());
    let err = result.map_err(|e| match e {
        ServiceError::DataError(e) => match e {
            RepositoryError::EntityAlreadyExists(_) => true,
            _ => false,
        },
        _ => false,
    });
    assert!(err.err().unwrap());

    let result = transaction_service.process_transaction(TransactionRequest {
        transaction_type: Some(Operation::Deposit),
        client_id: Some(1),
        transaction_id: Some(2),
        amount: Some(Decimal::parse("1.2345").unwrap()),
    });
    assert!(result.is_ok());
}

#[test]
fn reject_invalid_transaction_request_variations() {
    let mut transaction_service = service();

    // No transaction id.
    let result = transaction_service.process_transaction(TransactionRequest {
        transaction_type: Some(Operation::Deposit),
        client_id: Some(1),
        transaction_id: None,
        amount: Some(Decimal::parse("1.2345").unwrap()),
    });
    assert!(result.is_err());

    // Invalid number of decimal positions.
    let result = transaction_service.process_transaction(TransactionRequest {
        transaction_type: Some(Operation::Deposit),
        client_id: Some(1),
        transaction_id: Some(1),
        amount: Some(Decimal::parse("1.23456").unwrap()),
    });
    assert!(result.is_err());
}

#[test]
fn test_accept_valid_transactions() {
    let mut transaction_service = service();
    let valid_transactions = vec![
        deposit(1, 1, "1.1234"),
        deposit(1, 2, "1.1234"),
        withdrawal(1, 3, "1.1234"),
        refer(Operation::Dispute, 1, 2),
        refer(Operation::Resolve, 1, 2),
    ];
    let result = transaction_service.process_transactions(valid_transactions);
    assert!(result.is_ok());

    let client_id: u64 = 1;
    let account = transaction_service.get_account_status(&client_id).unwrap();
    assert_eq!(amt("1.1234"), account.available());
    assert_eq!(amt("0.0000"), account.held());
    assert_eq!(amt("1.1234"), account.total());
}

#[test]
fn test_chargeback() {
    let mut transaction_service = service();
    let valid_transactions = vec![
        deposit(1, 1, "1.1234"),
        refer(Operation::Dispute, 1, 1),
        refer(Operation::Chargeback, 1, 1),
    ];
    transaction_service.process_transactions(valid_transactions).unwrap();

    let client_id: u64 = 1;
    let account = transaction_service.get_account_status(&client_id).unwrap();
    assert_eq!(amt("0.0000"), account.available());
    assert_eq!(amt("0.0000"), account.held());
    assert_eq!(amt("0.0000"), account.total());
    assert!(account.is_locked());
}

#[test]
fn test_locked() {
    let mut transaction_service = service();
    let valid_transactions = vec![
        deposit(1, 1, "1.1234"),
        refer(Operation::Dispute, 1, 1),
        refer(Operation::Chargeback, 1, 1),
    ];
    transaction_service.process_transactions(valid_transactions).unwrap();

    let result = transaction_service.process_transaction(deposit(1, 2, "1.1234"));

    assert!(result.is_err());

    let client_id: u64 = 1;
    let account = transaction_service.get_account_status(&client_id).unwrap();
    assert_eq!(amt("0.0000"), account.available());
    assert_eq!(amt("0.0000"), account.held());
    assert_eq!(amt("0.0000"), account.total());
    assert!(account.is_locked());
}

#[test]
fn test_report() {
    let mut transaction_service = service();
    let valid_transactions = vec![
        deposit(1, 1, "1.1234"),
        deposit(1, 2, "1.1234"),
        withdrawal(1, 3, "1.1234"),
        refer(Operation::Dispute, 1, 2),
        refer(Operation::Resolve, 1, 2),
    ];
    transaction_service.process_transactions(valid_transactions).unwrap();
    transaction_service.report_account_statuses();
}

#[test]
fn deposit_then_withdraw_round_trip() {
    let mut transaction_service = service();
    transaction_service.process_transaction(deposit(7, 1, "3.5000")).unwrap();
    let before = transaction_service.get_account_status(&7).unwrap().available();
    transaction_service.process_transaction(deposit(7, 2, "5.0000")).unwrap();
    transaction_service.process_transaction(withdrawal(7, 3, "5.0000")).unwrap();
    let after = transaction_service.get_account_status(&7).unwrap().available();
    assert_eq!(before, after);
    assert_eq!(amt("3.5000"), after);
}

#[test]
fn oversized_withdrawal_is_soft_rejection() {
    let mut transaction_service = service();
    transaction_service.process_transaction(deposit(1, 1, "1.0000")).unwrap();
    // Accepted into the system, but not applied: no hard failure.
    let result = transaction_service.process_transaction(withdrawal(1, 2, "2.0000"));
    assert!(result.is_ok());
    let account = transaction_service.get_account_status(&1).unwrap();
    assert_eq!(amt("1.0000"), account.available());
}

#[test]
fn redispute_after_resolve_allowed() {
    let mut transaction_service = service();
    transaction_service.process_transaction(deposit(1, 1, "2.0000")).unwrap();
    transaction_service.process_transaction(refer(Operation::Dispute, 1, 1)).unwrap();
    // Already disputed: a second dispute fails.
    let second = transaction_service.process_transaction(refer(Operation::Dispute, 1, 1));
    assert!(matches!(second, Err(ServiceError::AlreadyDisputed(1))));
    transaction_service.process_transaction(refer(Operation::Resolve, 1, 1)).unwrap();
    // Resolved: a re-dispute succeeds.
    let redispute = transaction_service.process_transaction(refer(Operation::Dispute, 1, 1));
    assert!(redispute.is_ok());
    let account = transaction_service.get_account_status(&1).unwrap();
    assert_eq!(amt("0.0000"), account.available());
    assert_eq!(amt("2.0000"), account.held());
}

#[test]
fn dispute_after_chargeback_rejected() {
    let mut transaction_service = service();
    transaction_service.process_transaction(deposit(1, 1, "2.0000")).unwrap();
    transaction_service.process_transaction(deposit(2, 2, "2.0000")).unwrap();
    transaction_service.process_transaction(refer(Operation::Dispute, 1, 1)).unwrap();
    transaction_service.process_transaction(refer(Operation::Chargeback, 1, 1)).unwrap();
    // The account of client 2 is not locked, but the transaction of client 1
    // has been charged back: disputing it again is rejected.
    let result = transaction_service.process_transaction(refer(Operation::Dispute, 2, 1));
    assert!(matches!(result, Err(ServiceError::AlreadyDisputed(1))));
}

#[test]
fn dispute_unknown_transaction_rejected() {
    let mut transaction_service = service();
    let result = transaction_service.process_transaction(refer(Operation::Dispute, 1, 99));
    assert!(matches!(result, Err(ServiceError::TransactionNotFound(99))));
}

#[test]
fn resolve_undisputed_transaction_rejected() {
    let mut transaction_service = service();
    transaction_service.process_transaction(deposit(1, 1, "2.0000")).unwrap();
    let result = transaction_service.process_transaction(refer(Operation::Resolve, 1, 1));
    assert!(matches!(result, Err(ServiceError::NotDisputed(1))));
    let result = transaction_service.process_transaction(refer(Operation::Chargeback, 1, 1));
    assert!(matches!(result, Err(ServiceError::NotDisputed(1))));
}

#[test]
fn deposit_without_amount_rejected() {
    let mut transaction_service = service();
    let result = transaction_service.process_transaction(refer(Operation::Deposit, 1, 1));
    assert!(matches!(result, Err(ServiceError::MissingAmount(1))));
}

#[test]
fn negative_deposit_rejected() {
    let mut transaction_service = service();
    let result = transaction_service.process_transaction(deposit(1, 1, "-1.0000"));
    assert!(matches!(result, Err(ServiceError::NegativeAmount(1))));
    let result = transaction_service.process_transaction(withdrawal(1, 2, "-1.0000"));
    assert!(matches!(result, Err(ServiceError::NegativeAmount(2))));
}

#[test]
fn overlong_amount_rejected_before_any_handler() {
    let mut transaction_service = service();
    let result = transaction_service.process_transaction(deposit(1, 1, "1.23456"));
    assert!(matches!(result, Err(ServiceError::InvalidAmount)));
    // The rejected request reached no handler: no account was touched.
    let account = transaction_service.get_account_status(&1).unwrap();
    assert_eq!(amt("0.0000"), account.total());
}

#[test]
fn missing_operation_kind_rejected() {
    let mut transaction_service = service();
    let result = transaction_service.process_transaction(TransactionRequest {
        transaction_type: None,
        client_id: Some(1),
        transaction_id: Some(1),
        amount: Some(Decimal::parse("1.0000").unwrap()),
    });
    assert!(matches!(result, Err(ServiceError::InvalidRequest)));
}

#[test]
fn deposit_beyond_word_size_rejected() {
    let mut transaction_service = service();
    transaction_service.process_transaction(deposit(1, 1, "900000000000000")).unwrap();
    let result = transaction_service.process_transaction(deposit(1, 2, "900000000000000"));
    assert!(matches!(result, Err(ServiceError::BalanceOverflow(2))));
    let account = transaction_service.get_account_status(&1).unwrap();
    assert_eq!(amt("900000000000000"), account.available());
}

#[test]
fn locked_account_rejects_every_operation() {
    let mut transaction_service = service();
    transaction_service.process_transaction(deposit(1, 1, "1.0000")).unwrap();
    transaction_service.process_transaction(deposit(1, 2, "1.0000")).unwrap();
    transaction_service.process_transaction(refer(Operation::Dispute, 1, 1)).unwrap();
    transaction_service.process_transaction(refer(Operation::Chargeback, 1, 1)).unwrap();

    let r = transaction_service.process_transaction(deposit(1, 3, "1.0000"));
    assert!(matches!(r, Err(ServiceError::AccountLocked(3))));
    let r = transaction_service.process_transaction(withdrawal(1, 4, "1.0000"));
    assert!(matches!(r, Err(ServiceError::AccountLocked(4))));
    let r = transaction_service.process_transaction(refer(Operation::Dispute, 1, 2));
    assert!(matches!(r, Err(ServiceError::AccountLocked(2))));
    let r = transaction_service.process_transaction(refer(Operation::Resolve, 1, 2));
    assert!(matches!(r, Err(ServiceError::AccountLocked(2))));
    let r = transaction_service.process_transaction(refer(Operation::Chargeback, 1, 2));
    assert!(matches!(r, Err(ServiceError::AccountLocked(2))));

    let account = transaction_service.get_account_status(&1).unwrap();
    assert_eq!(amt("1.0000"), account.available());
    assert_eq!(amt("0.0000"), account.held());
}

#[test]
fn run_replays_a_batch_and_reports_every_account() {
    let rows = rails::run(vec![
        deposit(1, 1, "1.1234"),
        deposit(2, 2, "2.0000"),
        withdrawal(2, 3, "0.5000"),
        refer(Operation::Dispute, 1, 1),
    ]);
    assert_eq!(rows.len(), 2);
    for account in rows {
        match account.client_id() {
            1 => {
                assert_eq!(amt("0.0000"), account.available());
                assert_eq!(amt("1.1234"), account.held());
            }
            2 => {
                assert_eq!(amt("1.5000"), account.available());
                assert_eq!(amt("0.0000"), account.held());
            }
            other => panic!("unexpected client id {}", other),
        }
    }
}
