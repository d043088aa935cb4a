use rails::{
    Decimal, Operation, ServiceError, TransactionDispute, TransactionRequest, TransactionStatus,
};

#[test]
fn validation_produces_pending_undisputed_transaction() {
    let request = TransactionRequest {
        transaction_type: Some(Operation::Deposit),
        client_id: Some(1),
        transaction_id: Some(9),
        amount: Some(Decimal::parse("1.5").unwrap()),
    };
    let transaction = request.valid_transaction().unwrap();
    assert_eq!(transaction.transaction_id(), 9);
    assert_eq!(transaction.amount().unwrap().units, 15000);
    assert!(matches!(transaction.status, TransactionStatus::Pending));
    assert!(matches!(transaction.dispute, TransactionDispute::No));
}

#[test]
fn validation_checks_the_amount_before_the_request_shape() {
    // Both the amount and the transaction id are bad; the amount rule fires
    // first.
    let request = TransactionRequest {
        transaction_type: Some(Operation::Deposit),
        client_id: Some(1),
        transaction_id: None,
        amount: Some(Decimal::parse("1.23456").unwrap()),
    };
    assert!(matches!(request.valid_transaction(), Err(ServiceError::InvalidAmount)));
}

#[test]
fn validation_accepts_a_dispute_without_amount() {
    let request = TransactionRequest {
        transaction_type: Some(Operation::Dispute),
        client_id: Some(1),
        transaction_id: Some(4),
        amount: None,
    };
    let transaction = request.valid_transaction().unwrap();
    assert!(transaction.amount().is_none());
}
