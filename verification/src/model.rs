//! The mathematical model of the engine.
//!
//! A `Ledger` is the whole engine state: the account per client and the
//! posted transaction per transaction id. `step` is the transition one
//! request causes, and `run_all` folds a batch of requests. The executable
//! service proves that it implements `step` exactly, so every property of
//! the engine can be stated and proved over these functions.

use vstd::prelude::*;
use crate::amount::Amount;
use crate::domain::{
    Account, ClientId, Operation, RepositoryError, ServiceError, Transaction, TransactionDispute,
    TransactionId, TransactionRequest, TransactionStatus, spec_sanitized_amount, spec_validated,
};

verus! {

/// The whole engine state.
pub struct Ledger {
    pub accounts: Map<ClientId, Account>,
    pub transactions: Map<TransactionId, Transaction>,
}

impl Ledger {
    /// The state before any request was processed.
    pub open spec fn initial() -> Ledger {
        Ledger { accounts: Map::empty(), transactions: Map::empty() }
    }

    /// Every stored account satisfies the balance invariant and sits under
    /// its own client id; every stored transaction sits under its own
    /// transaction id and is a deposit or a withdrawal, since dispute
    /// operations are never posted as rows of their own.
    pub open spec fn wf(self) -> bool {
        &&& forall|c: ClientId|
            self.accounts.contains_key(c) ==> (#[trigger] self.accounts[c]).wf()
                && self.accounts[c].client_id == c
        &&& forall|t: TransactionId|
            self.transactions.contains_key(t) ==> (#[trigger] self.transactions[t]).transaction_id
                == t && (self.transactions[t].operation is Deposit
                || self.transactions[t].operation is Withdrawal)
    }
}

/// The account a handler works on: the stored one, or a fresh zero-balance
/// account created on first reference.
pub open spec fn fetched_account(accounts: Map<ClientId, Account>, client_id: ClientId) -> Account {
    if accounts.contains_key(client_id) {
        accounts[client_id]
    } else {
        Account::initial(client_id)
    }
}

/// Handler outcome: the new state, and the resulting transaction status or
/// a hard failure.
pub type HandlerOutcome = (Ledger, Result<TransactionStatus, ServiceError>);

/// Deposit: amount must be present and non-negative, the account unlocked,
/// and the new total representable; on success `available` grows.
pub open spec fn apply_deposit(led: Ledger, t: Transaction) -> HandlerOutcome {
    match spec_sanitized_amount(t) {
        Err(e) => (led, Err(e)),
        Ok(amount) => {
            let account = fetched_account(led.accounts, t.client_id);
            let led1 = Ledger { accounts: led.accounts.insert(t.client_id, account), ..led };
            if account.locked {
                (led1, Err(ServiceError::AccountLocked(t.transaction_id)))
            } else if account.available@ + account.held@ + amount@ > i64::MAX as int {
                (led1, Err(ServiceError::BalanceOverflow(t.transaction_id)))
            } else {
                let updated = Account {
                    available: Amount { units: (account.available@ + amount@) as i64 },
                    last_tx_applied: Some(t.transaction_id),
                    ..account
                };
                (
                    Ledger { accounts: led1.accounts.insert(t.client_id, updated), ..led1 },
                    Ok(TransactionStatus::Applied),
                )
            }
        },
    }
}

/// Withdrawal: amount must be present and non-negative and the account
/// unlocked; an amount beyond the available funds is a soft rejection; on
/// success `available` shrinks.
pub open spec fn apply_withdrawal(led: Ledger, t: Transaction) -> HandlerOutcome {
    match spec_sanitized_amount(t) {
        Err(e) => (led, Err(e)),
        Ok(amount) => {
            let account = fetched_account(led.accounts, t.client_id);
            let led1 = Ledger { accounts: led.accounts.insert(t.client_id, account), ..led };
            if account.locked {
                (led1, Err(ServiceError::AccountLocked(t.transaction_id)))
            } else if amount@ > account.available@ {
                (led1, Ok(TransactionStatus::Error))
            } else {
                let updated = Account {
                    available: Amount { units: (account.available@ - amount@) as i64 },
                    last_tx_applied: Some(t.transaction_id),
                    ..account
                };
                (
                    Ledger { accounts: led1.accounts.insert(t.client_id, updated), ..led1 },
                    Ok(TransactionStatus::Applied),
                )
            }
        },
    }
}

/// Dispute: the referenced transaction must exist, hold a non-negative
/// amount, and be in `No` or `Resolved` dispute state; an amount beyond the
/// available funds is a soft rejection; on success the amount moves from
/// `available` to `held` and the referenced transaction becomes `Disputed`.
pub open spec fn apply_dispute(led: Ledger, t: Transaction) -> HandlerOutcome {
    let account = fetched_account(led.accounts, t.client_id);
    let led1 = Ledger { accounts: led.accounts.insert(t.client_id, account), ..led };
    if account.locked {
        (led1, Err(ServiceError::AccountLocked(t.transaction_id)))
    } else if !led.transactions.contains_key(t.transaction_id) {
        (led1, Err(ServiceError::TransactionNotFound(t.transaction_id)))
    } else {
        let reference = led.transactions[t.transaction_id];
        if reference.dispute is Disputed || reference.dispute is Chargeback {
            (led1, Err(ServiceError::AlreadyDisputed(t.transaction_id)))
        } else {
            match spec_sanitized_amount(reference) {
                Err(e) => (led1, Err(e)),
                Ok(amount) => {
                    if amount@ > account.available@ {
                        (led1, Ok(TransactionStatus::Error))
                    } else {
                        let updated = Account {
                            available: Amount { units: (account.available@ - amount@) as i64 },
                            held: Amount { units: (account.held@ + amount@) as i64 },
                            last_tx_applied: Some(t.transaction_id),
                            ..account
                        };
                        let disputed = Transaction {
                            dispute: TransactionDispute::Disputed,
                            ..reference
                        };
                        (
                            Ledger {
                                accounts: led1.accounts.insert(t.client_id, updated),
                                transactions: led1.transactions.insert(
                                    reference.transaction_id,
                                    disputed,
                                ),
                            },
                            Ok(TransactionStatus::Applied),
                        )
                    }
                },
            }
        }
    }
}

/// Resolve: the referenced transaction must exist, hold a non-negative
/// amount, and be `Disputed`; an amount beyond the held funds is a soft
/// rejection; on success the amount moves back from `held` to `available`
/// and the referenced transaction becomes `Resolved`.
pub open spec fn apply_resolve(led: Ledger, t: Transaction) -> HandlerOutcome {
    let account = fetched_account(led.accounts, t.client_id);
    let led1 = Ledger { accounts: led.accounts.insert(t.client_id, account), ..led };
    if account.locked {
        (led1, Err(ServiceError::AccountLocked(t.transaction_id)))
    } else if !led.transactions.contains_key(t.transaction_id) {
        (led1, Err(ServiceError::TransactionNotFound(t.transaction_id)))
    } else {
        let reference = led.transactions[t.transaction_id];
        if !(reference.dispute is Disputed) {
            (led1, Err(ServiceError::NotDisputed(t.transaction_id)))
        } else {
            match spec_sanitized_amount(reference) {
                Err(e) => (led1, Err(e)),
                Ok(amount) => {
                    if amount@ > account.held@ {
                        (led1, Ok(TransactionStatus::Error))
                    } else {
                        let updated = Account {
                            available: Amount { units: (account.available@ + amount@) as i64 },
                            held: Amount { units: (account.held@ - amount@) as i64 },
                            last_tx_applied: Some(t.transaction_id),
                            ..account
                        };
                        let resolved = Transaction {
                            dispute: TransactionDispute::Resolved,
                            ..reference
                        };
                        (
                            Ledger {
                                accounts: led1.accounts.insert(t.client_id, updated),
                                transactions: led1.transactions.insert(
                                    reference.transaction_id,
                                    resolved,
                                ),
                            },
                            Ok(TransactionStatus::Applied),
                        )
                    }
                },
            }
        }
    }
}

/// Chargeback: the referenced transaction must exist, hold a non-negative
/// amount, and be `Disputed`; an amount beyond the held funds is a soft
/// rejection; on success the amount leaves `held`, the account locks, and
/// the referenced transaction becomes `Chargeback`.
pub open spec fn apply_chargeback(led: Ledger, t: Transaction) -> HandlerOutcome {
    let account = fetched_account(led.accounts, t.client_id);
    let led1 = Ledger { accounts: led.accounts.insert(t.client_id, account), ..led };
    if account.locked {
        (led1, Err(ServiceError::AccountLocked(t.transaction_id)))
    } else if !led.transactions.contains_key(t.transaction_id) {
        (led1, Err(ServiceError::TransactionNotFound(t.transaction_id)))
    } else {
        let reference = led.transactions[t.transaction_id];
        if !(reference.dispute is Disputed) {
            (led1, Err(ServiceError::NotDisputed(t.transaction_id)))
        } else {
            match spec_sanitized_amount(reference) {
                Err(e) => (led1, Err(e)),
                Ok(amount) => {
                    if amount@ > account.held@ {
                        (led1, Ok(TransactionStatus::Error))
                    } else {
                        let updated = Account {
                            held: Amount { units: (account.held@ - amount@) as i64 },
                            locked: true,
                            last_tx_applied: Some(t.transaction_id),
                            ..account
                        };
                        let charged = Transaction {
                            dispute: TransactionDispute::Chargeback,
                            ..reference
                        };
                        (
                            Ledger {
                                accounts: led1.accounts.insert(t.client_id, updated),
                                transactions: led1.transactions.insert(
                                    reference.transaction_id,
                                    charged,
                                ),
                            },
                            Ok(TransactionStatus::Applied),
                        )
                    }
                },
            }
        }
    }
}

/// Dispatch to the handler of the operation kind.
pub open spec fn apply_operation(led: Ledger, t: Transaction) -> HandlerOutcome {
    match t.operation {
        Operation::Deposit => apply_deposit(led, t),
        Operation::Withdrawal => apply_withdrawal(led, t),
        Operation::Dispute => apply_dispute(led, t),
        Operation::Resolve => apply_resolve(led, t),
        Operation::Chargeback => apply_chargeback(led, t),
    }
}

/// The transition one request causes: validate; post a deposit or
/// withdrawal as a new row, rejecting a duplicate transaction id; run the
/// handler; record the resulting status on the transaction row.
pub open spec fn step(led: Ledger, request: TransactionRequest) -> (Ledger, Result<
    (),
    ServiceError,
>) {
    match spec_validated(request) {
        Err(e) => (led, Err(e)),
        Ok(t) => {
            let posts = t.operation is Deposit || t.operation is Withdrawal;
            if posts && led.transactions.contains_key(t.transaction_id) {
                (
                    led,
                    Err(
                        ServiceError::DataError(
                            RepositoryError::EntityAlreadyExists(t.transaction_id),
                        ),
                    ),
                )
            } else {
                let led0 = if posts {
                    Ledger { transactions: led.transactions.insert(t.transaction_id, t), ..led }
                } else {
                    led
                };
                let outcome = apply_operation(led0, t);
                let led1 = outcome.0;
                match outcome.1 {
                    Err(e) => (led1, Err(e)),
                    Ok(status) => {
                        if led1.transactions.contains_key(t.transaction_id) {
                            let marked = Transaction {
                                status,
                                ..led1.transactions[t.transaction_id]
                            };
                            (
                                Ledger {
                                    transactions: led1.transactions.insert(
                                        t.transaction_id,
                                        marked,
                                    ),
                                    ..led1
                                },
                                Ok(()),
                            )
                        } else {
                            (
                                led1,
                                Err(
                                    ServiceError::DataError(
                                        RepositoryError::EntityNotFound(t.transaction_id),
                                    ),
                                ),
                            )
                        }
                    },
                }
            }
        },
    }
}

/// The state after a whole batch, each request applied in arrival order and
/// failures isolated to their own request.
pub open spec fn run_all(led: Ledger, requests: Seq<TransactionRequest>) -> Ledger
    decreases requests.len(),
{
    if requests.len() == 0 {
        led
    } else {
        run_all(step(led, requests[0]).0, requests.skip(1))
    }
}

} // verus!
