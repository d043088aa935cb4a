//! The validated transaction and account data model.
//!
//! A `TransactionRequest` is untrusted input; `valid_transaction` turns it
//! into a `Transaction` owned by the engine. An `Account` keeps the per-client
//! balances; its well-formedness predicate `Account::wf` is the balance
//! invariant every engine operation preserves: `available` and `held` are
//! non-negative and their sum (the total) fits the machine word.

use vstd::prelude::*;
use crate::amount::{Amount, Decimal, decimal_representable, decimal_units};

verus! {

pub type ClientId = u64;

pub type TransactionId = u64;

/// The set of operations the engine processes.
#[derive(Clone, Copy, Debug, PartialEq, Eq, Structural)]
pub enum Operation {
    Deposit,
    Withdrawal,
    Dispute,
    Resolve,
    Chargeback,
}

/// Request describing an attempt to execute a transaction; every field is
/// untrusted until `valid_transaction` has accepted the request.
#[derive(Clone, Copy, Debug)]
pub struct TransactionRequest {
    pub transaction_type: Option<Operation>,
    pub client_id: Option<ClientId>,
    pub transaction_id: Option<TransactionId>,
    pub amount: Option<Decimal>,
}

#[derive(Clone, Copy, Debug, PartialEq, Eq, Structural)]
pub enum TransactionStatus {
    /// A received transaction stays pending until the engine resolves it.
    Pending,
    /// Successfully applied to the account.
    Applied,
    /// A business-rule rejection (for example an oversized withdrawal): the
    /// transaction is kept, but marked as not applied. Streams may deliver
    /// dispute operations out of order, so this is a normal terminal
    /// outcome, not a system fault.
    Error,
}

/// The dispute lifecycle of a posted deposit or withdrawal.
#[derive(Clone, Copy, Debug, PartialEq, Eq, Structural)]
pub enum TransactionDispute {
    No,
    Disputed,
    Resolved,
    Chargeback,
}

/// A validated transaction, owned by the engine once accepted.
#[derive(Clone, Copy, Debug)]
pub struct Transaction {
    pub operation: Operation,
    pub client_id: ClientId,
    pub transaction_id: TransactionId,
    pub amount: Option<Amount>,
    pub status: TransactionStatus,
    pub dispute: TransactionDispute,
}

/// Hard failures: they reject the single offending request and carry the
/// offending transaction id where one exists.
#[derive(Clone, Copy, Debug, PartialEq, Eq, Structural)]
pub enum ServiceError {
    /// An amount was supplied with more than four fractional digits, or one
    /// too large for the fixed-point representation.
    InvalidAmount,
    /// Operation kind or transaction id missing from the request.
    InvalidRequest,
    /// A deposit or withdrawal without an amount, or a dispute operation
    /// whose referenced transaction stores no amount.
    MissingAmount(TransactionId),
    /// A negative amount where a non-negative one is required.
    NegativeAmount(TransactionId),
    /// The account is locked by a chargeback and rejects all mutation.
    AccountLocked(TransactionId),
    /// A dispute operation referenced a transaction id never posted.
    TransactionNotFound(TransactionId),
    /// Resolve or chargeback on a transaction that is not under dispute.
    NotDisputed(TransactionId),
    /// Dispute on a transaction already disputed or charged back.
    AlreadyDisputed(TransactionId),
    /// Applying the operation would push the account total beyond the
    /// machine word.
    BalanceOverflow(TransactionId),
    /// A repository rejection.
    DataError(RepositoryError),
}

#[derive(Clone, Copy, Debug, PartialEq, Eq, Structural)]
pub enum RepositoryError {
    /// An entity with this id is already stored.
    EntityAlreadyExists(u64),
    /// No entity with this id is stored.
    EntityNotFound(u64),
    /// A compare-and-set update found the stored entity differing from the
    /// caller's snapshot.
    InconsistencyDetected(u64),
}

impl Transaction {
    pub fn transaction_id(&self) -> (r: TransactionId)
        ensures
            r == self.transaction_id,
    {
        self.transaction_id
    }

    pub fn amount(&self) -> (r: Option<Amount>)
        ensures
            r == self.amount,
    {
        self.amount
    }

    pub fn set_status(&mut self, status: TransactionStatus)
        ensures
            *final(self) == (Transaction { status, ..*old(self) }),
    {
        self.status = status;
    }

    pub fn set_dispute(&mut self, dispute: TransactionDispute)
        ensures
            *final(self) == (Transaction { dispute, ..*old(self) }),
    {
        self.dispute = dispute;
    }

    /// The transaction a fully populated request describes: pending, not
    /// disputed, with its amount normalized to ten-thousandths.
    pub fn from(request: TransactionRequest) -> (r: Transaction)
        requires
            request.transaction_type is Some,
            request.client_id is Some,
            request.transaction_id is Some,
            request.amount is Some ==> decimal_representable(request.amount->0),
        ensures
            r == spec_request_transaction(request),
    {
        Transaction {
            operation: match request.transaction_type {
                Some(op) => op,
                None => Operation::Deposit,
            },
            client_id: match request.client_id {
                Some(c) => c,
                None => 0,
            },
            transaction_id: match request.transaction_id {
                Some(t) => t,
                None => 0,
            },
            amount: match request.amount {
                None => None,
                Some(d) => match Amount::from_decimal(&d) {
                    Some(a) => Some(a),
                    None => None,
                },
            },
            status: TransactionStatus::Pending,
            dispute: TransactionDispute::No,
        }
    }
}

/// The transaction a fully populated, representable request maps to.
pub open spec fn spec_request_transaction(request: TransactionRequest) -> Transaction {
    Transaction {
        operation: request.transaction_type->0,
        client_id: request.client_id->0,
        transaction_id: request.transaction_id->0,
        amount: match request.amount {
            None => None,
            Some(d) => Some(Amount { units: decimal_units(d) as i64 }),
        },
        status: TransactionStatus::Pending,
        dispute: TransactionDispute::No,
    }
}

/// Validation of a request, rules in order: a supplied amount must be
/// representable with four fractional digits; operation kind and transaction
/// id must both be present.
pub open spec fn spec_validated(request: TransactionRequest) -> Result<Transaction, ServiceError> {
    if request.amount is Some && !decimal_representable(request.amount->0) {
        Err(ServiceError::InvalidAmount)
    } else if request.transaction_type is Some && request.transaction_id is Some {
        Ok(spec_request_transaction(request))
    } else {
        Err(ServiceError::InvalidRequest)
    }
}

impl TransactionRequest {
    /// Validates the request and produces the engine's transaction.
    ///
    /// A client id is required for every request; its absence is an
    /// unrecoverable request defect, so callers establish presence first.
    pub fn valid_transaction(&self) -> (r: Result<Transaction, ServiceError>)
        requires
            self.client_id is Some,
        ensures
            r == spec_validated(*self),
    {
        if let Some(d) = self.amount {
            if Amount::from_decimal(&d).is_none() {
                return Err(ServiceError::InvalidAmount);
            }
        }
        match (self.transaction_type, self.transaction_id) {
            (Some(_), Some(_)) => Ok(Transaction::from(*self)),
            _ => Err(ServiceError::InvalidRequest),
        }
    }
}

/// One ledger account per client.
#[derive(Clone, Copy, Debug)]
pub struct Account {
    pub client_id: ClientId,
    pub available: Amount,
    pub held: Amount,
    pub locked: bool,
    pub last_tx_applied: Option<TransactionId>,
}

impl Account {
    /// A fresh zero-balance account.
    pub open spec fn initial(client_id: ClientId) -> Account {
        Account {
            client_id,
            available: Amount { units: 0 },
            held: Amount { units: 0 },
            locked: false,
            last_tx_applied: None,
        }
    }

    /// The balance invariant: both components non-negative, and the total
    /// representable.
    pub open spec fn wf(self) -> bool {
        &&& 0 <= self.available@
        &&& 0 <= self.held@
        &&& self.available@ + self.held@ <= i64::MAX as int
    }

    pub fn new(client_id: ClientId) -> (r: Account)
        ensures
            r == Account::initial(client_id),
            r.wf(),
    {
        Account {
            client_id,
            available: Amount::zero(),
            held: Amount::zero(),
            locked: false,
            last_tx_applied: None,
        }
    }

    pub fn client_id(&self) -> (r: ClientId)
        ensures
            r == self.client_id,
    {
        self.client_id
    }

    /// The funds available for withdrawal.
    pub fn available(&self) -> (r: Amount)
        ensures
            r == self.available,
    {
        self.available
    }

    /// The funds held for dispute.
    pub fn held(&self) -> (r: Amount)
        ensures
            r == self.held,
    {
        self.held
    }

    /// The total funds: the sum of the available and held funds.
    pub fn total(&self) -> (r: Amount)
        requires
            self.wf(),
        ensures
            r@ == self.available@ + self.held@,
    {
        Amount { units: self.available.units + self.held.units }
    }

    pub fn is_locked(&self) -> (r: bool)
        ensures
            r == self.locked,
    {
        self.locked
    }
}

impl PartialEq for Account {
    /// Exact structural comparison, as the compare-and-set account update
    /// needs it.
    fn eq(&self, other: &Account) -> (r: bool) {
        let last_match = match (self.last_tx_applied, other.last_tx_applied) {
            (None, None) => true,
            (Some(x), Some(y)) => x == y,
            _ => false,
        };
        self.client_id == other.client_id && self.available.units == other.available.units
            && self.held.units == other.held.units && self.locked == other.locked && last_match
    }
}

impl vstd::std_specs::cmp::PartialEqSpecImpl for Account {
    open spec fn obeys_eq_spec() -> bool {
        true
    }

    open spec fn eq_spec(&self, other: &Account) -> bool {
        *self == *other
    }
}

/// Checks the preconditions on the amount of a deposit or withdrawal, or of
/// a transaction referenced by a dispute operation: the amount must be
/// present and non-negative.
pub open spec fn spec_sanitized_amount(transaction: Transaction) -> Result<Amount, ServiceError> {
    match transaction.amount {
        None => Err(ServiceError::MissingAmount(transaction.transaction_id)),
        Some(amount) => {
            if amount@ < 0 {
                Err(ServiceError::NegativeAmount(transaction.transaction_id))
            } else {
                Ok(amount)
            }
        },
    }
}

pub(crate) fn sanitize_transaction_amount(transaction: &Transaction) -> (r: Result<
    Amount,
    ServiceError,
>)
    ensures
        r == spec_sanitized_amount(*transaction),
{
    match transaction.amount {
        None => Err(ServiceError::MissingAmount(transaction.transaction_id)),
        Some(amount) => {
            if amount.is_negative() {
                Err(ServiceError::NegativeAmount(transaction.transaction_id))
            } else {
                Ok(amount)
            }
        },
    }
}

} // verus!
