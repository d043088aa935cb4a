//! The transaction service: the orchestrator of the engine.
//!
//! It validates requests, dispatches by operation kind, applies the dispute
//! state machine, enforces locking, and commits updates through the
//! repository capabilities. Its central contract: `process_transaction`
//! implements the model transition `step` exactly, and `process_transactions`
//! folds a whole batch through `run_all`, isolating failures to their own
//! request.

use vstd::prelude::*;
use crate::amount::Amount;
use crate::domain::{
    Account, ClientId, Operation, ServiceError, Transaction, TransactionDispute,
    TransactionRequest, TransactionStatus,
};
use crate::laws::lemma_step_preserves_wf;
use crate::model::{
    Ledger, apply_chargeback, apply_deposit, apply_dispute, apply_resolve, apply_withdrawal,
    fetched_account, run_all, step,
};
use crate::repository::{
    AccountRepository, InMemAccountRepository, InMemTransactionRepository, TransactionRepository,
    report_rows,
};
use crate::domain::sanitize_transaction_amount;

verus! {

pub struct TransactionService<AccRep, TxRep> where
    AccRep: AccountRepository,
    TxRep: TransactionRepository,
 {
    account_repository: AccRep,
    transaction_repository: TxRep,
}

impl<AccRep, TxRep> TransactionService<AccRep, TxRep> where
    AccRep: AccountRepository,
    TxRep: TransactionRepository,
 {
    /// The engine state the two repositories hold.
    pub closed spec fn ledger(&self) -> Ledger {
        Ledger {
            accounts: self.account_repository.accounts(),
            transactions: self.transaction_repository.transactions(),
        }
    }

    /// The repositories' own invariants.
    pub closed spec fn repos_inv(&self) -> bool {
        &&& self.account_repository.inv()
        &&& self.transaction_repository.inv()
    }

    /// Repositories healthy and the ledger well-formed.
    pub open spec fn wf(&self) -> bool {
        &&& self.repos_inv()
        &&& self.ledger().wf()
    }

    pub fn new(account_repository: AccRep, transaction_repository: TxRep) -> (r: Self)
        requires
            account_repository.inv(),
            transaction_repository.inv(),
        ensures
            r.repos_inv(),
            r.ledger() == (Ledger {
                accounts: account_repository.accounts(),
                transactions: transaction_repository.transactions(),
            }),
    {
        TransactionService { account_repository, transaction_repository }
    }

    /// Applies one request: validation, duplicate guard, the handler of the
    /// operation kind, and the write-back of the resulting status — exactly
    /// the model transition `step`.
    pub fn process_transaction(&mut self, request: TransactionRequest) -> (r: Result<
        (),
        ServiceError,
    >)
        requires
            old(self).wf(),
            request.client_id is Some,
        ensures
            final(self).wf(),
            ({
                let s = step(old(self).ledger(), request);
                final(self).ledger() == s.0 && r == s.1
            }),
    {
        proof {
            lemma_step_preserves_wf(old(self).ledger(), request);
        }
        let transaction = match request.valid_transaction() {
            Ok(t) => t,
            Err(e) => {
                return Err(e);
            },
        };

        match transaction.operation {
            Operation::Deposit | Operation::Withdrawal => {
                // The idempotency guard: a transaction id can be posted once.
                match self.transaction_repository.post_transaction(&transaction) {
                    Ok(()) => {},
                    Err(e) => {
                        return Err(ServiceError::DataError(e));
                    },
                }
            },
            Operation::Dispute | Operation::Resolve | Operation::Chargeback => {
                // These reference an already posted transaction and are not
                // stored as rows of their own.
            },
        }

        let transaction_status = match &transaction.operation {
            Operation::Deposit => self.process_deposit(&transaction),
            Operation::Withdrawal => self.process_withdrawal(&transaction),
            Operation::Dispute => self.process_dispute(&transaction),
            Operation::Resolve => self.process_resolve(&transaction),
            Operation::Chargeback => self.process_chargeback(&transaction),
        };
        let transaction_status = match transaction_status {
            Ok(status) => status,
            Err(e) => {
                return Err(e);
            },
        };

        // Mark the transaction resolution status, from pending to the target
        // status.
        match self.transaction_repository.update_transaction_status(
            &transaction.transaction_id,
            &transaction_status,
        ) {
            Ok(()) => Ok(()),
            Err(e) => Err(ServiceError::DataError(e)),
        }
    }

    fn process_deposit(&mut self, transaction: &Transaction) -> (r: Result<
        TransactionStatus,
        ServiceError,
    >)
        requires
            old(self).wf(),
        ensures
            final(self).repos_inv(),
            ({
                let o = apply_deposit(old(self).ledger(), *transaction);
                final(self).ledger() == o.0 && r == o.1
            }),
    {
        let amount = match sanitize_transaction_amount(transaction) {
            Ok(a) => a,
            Err(e) => {
                return Err(e);
            },
        };
        let account = self.account_repository.get_account(&transaction.client_id);

        if account.locked {
            return Err(ServiceError::AccountLocked(transaction.transaction_id));
        }

        // The new total must stay representable.
        let headroom: i64 = i64::MAX - account.held.units - account.available.units;
        if amount.units > headroom {
            return Err(ServiceError::BalanceOverflow(transaction.transaction_id));
        }

        let mut update = account;
        update.available = Amount { units: account.available.units + amount.units };
        update.last_tx_applied = Some(transaction.transaction_id);
        match self.account_repository.update_account(&account, &update) {
            Ok(()) => Ok(TransactionStatus::Applied),
            Err(e) => {
                proof {
                    assert(false);
                }
                Err(ServiceError::DataError(e))
            },
        }
    }

    fn process_withdrawal(&mut self, transaction: &Transaction) -> (r: Result<
        TransactionStatus,
        ServiceError,
    >)
        requires
            old(self).wf(),
        ensures
            final(self).repos_inv(),
            ({
                let o = apply_withdrawal(old(self).ledger(), *transaction);
                final(self).ledger() == o.0 && r == o.1
            }),
    {
        let amount = match sanitize_transaction_amount(transaction) {
            Ok(a) => a,
            Err(e) => {
                return Err(e);
            },
        };
        let account = self.account_repository.get_account(&transaction.client_id);

        if account.locked {
            return Err(ServiceError::AccountLocked(transaction.transaction_id));
        }

        // Beyond the available funds: not applicable to this view of the
        // balance, a soft rejection.
        if amount.gt(&account.available) {
            return Ok(TransactionStatus::Error);
        }

        let mut update = account;
        update.available = Amount { units: account.available.units - amount.units };
        update.last_tx_applied = Some(transaction.transaction_id);
        match self.account_repository.update_account(&account, &update) {
            Ok(()) => Ok(TransactionStatus::Applied),
            Err(e) => {
                proof {
                    assert(false);
                }
                Err(ServiceError::DataError(e))
            },
        }
    }

    fn process_dispute(&mut self, transaction: &Transaction) -> (r: Result<
        TransactionStatus,
        ServiceError,
    >)
        requires
            old(self).wf(),
        ensures
            final(self).repos_inv(),
            ({
                let o = apply_dispute(old(self).ledger(), *transaction);
                final(self).ledger() == o.0 && r == o.1
            }),
    {
        let account = self.account_repository.get_account(&transaction.client_id);

        if account.locked {
            return Err(ServiceError::AccountLocked(transaction.transaction_id));
        }

        // The referenced transaction must exist and must not already be
        // disputed or charged back; after a resolve it may be disputed anew.
        let reference = match self.transaction_repository.find_transaction_by_id(
            &transaction.transaction_id,
        ) {
            None => {
                return Err(ServiceError::TransactionNotFound(transaction.transaction_id));
            },
            Some(reference) => reference,
        };
        match reference.dispute {
            TransactionDispute::Disputed | TransactionDispute::Chargeback => {
                return Err(ServiceError::AlreadyDisputed(transaction.transaction_id));
            },
            _ => {},
        }

        let amount = match sanitize_transaction_amount(&reference) {
            Ok(a) => a,
            Err(e) => {
                return Err(e);
            },
        };

        if amount.gt(&account.available) {
            return Ok(TransactionStatus::Error);
        }

        let mut update = account;
        update.available = Amount { units: account.available.units - amount.units };
        update.held = Amount { units: account.held.units + amount.units };
        update.last_tx_applied = Some(transaction.transaction_id);
        match self.account_repository.update_account(&account, &update) {
            Ok(()) => {},
            Err(_) => {
                proof {
                    assert(false);
                }
            },
        }

        match self.transaction_repository.update_transaction_dispute(
            &reference.transaction_id,
            &TransactionDispute::Disputed,
        ) {
            Ok(()) => Ok(TransactionStatus::Applied),
            Err(e) => {
                proof {
                    assert(false);
                }
                Err(ServiceError::DataError(e))
            },
        }
    }

    fn process_resolve(&mut self, transaction: &Transaction) -> (r: Result<
        TransactionStatus,
        ServiceError,
    >)
        requires
            old(self).wf(),
        ensures
            final(self).repos_inv(),
            ({
                let o = apply_resolve(old(self).ledger(), *transaction);
                final(self).ledger() == o.0 && r == o.1
            }),
    {
        let account = self.account_repository.get_account(&transaction.client_id);

        if account.locked {
            return Err(ServiceError::AccountLocked(transaction.transaction_id));
        }

        let reference = match self.transaction_repository.find_transaction_by_id(
            &transaction.transaction_id,
        ) {
            None => {
                return Err(ServiceError::TransactionNotFound(transaction.transaction_id));
            },
            Some(reference) => reference,
        };
        match reference.dispute {
            TransactionDispute::Disputed => {},
            _ => {
                return Err(ServiceError::NotDisputed(transaction.transaction_id));
            },
        }

        let amount = match sanitize_transaction_amount(&reference) {
            Ok(a) => a,
            Err(e) => {
                return Err(e);
            },
        };

        if amount.gt(&account.held) {
            return Ok(TransactionStatus::Error);
        }

        let mut update = account;
        update.available = Amount { units: account.available.units + amount.units };
        update.held = Amount { units: account.held.units - amount.units };
        update.last_tx_applied = Some(transaction.transaction_id);
        match self.account_repository.update_account(&account, &update) {
            Ok(()) => {},
            Err(_) => {
                proof {
                    assert(false);
                }
            },
        }

        match self.transaction_repository.update_transaction_dispute(
            &reference.transaction_id,
            &TransactionDispute::Resolved,
        ) {
            Ok(()) => Ok(TransactionStatus::Applied),
            Err(e) => {
                proof {
                    assert(false);
                }
                Err(ServiceError::DataError(e))
            },
        }
    }

    fn process_chargeback(&mut self, transaction: &Transaction) -> (r: Result<
        TransactionStatus,
        ServiceError,
    >)
        requires
            old(self).wf(),
        ensures
            final(self).repos_inv(),
            ({
                let o = apply_chargeback(old(self).ledger(), *transaction);
                final(self).ledger() == o.0 && r == o.1
            }),
    {
        let account = self.account_repository.get_account(&transaction.client_id);

        if account.locked {
            return Err(ServiceError::AccountLocked(transaction.transaction_id));
        }

        let reference = match self.transaction_repository.find_transaction_by_id(
            &transaction.transaction_id,
        ) {
            None => {
                return Err(ServiceError::TransactionNotFound(transaction.transaction_id));
            },
            Some(reference) => reference,
        };
        match reference.dispute {
            TransactionDispute::Disputed => {},
            _ => {
                return Err(ServiceError::NotDisputed(transaction.transaction_id));
            },
        }

        let amount = match sanitize_transaction_amount(&reference) {
            Ok(a) => a,
            Err(e) => {
                return Err(e);
            },
        };

        if amount.gt(&account.held) {
            return Ok(TransactionStatus::Error);
        }

        let mut update = account;
        update.held = Amount { units: account.held.units - amount.units };
        update.last_tx_applied = Some(transaction.transaction_id);
        update.locked = true;
        match self.account_repository.update_account(&account, &update) {
            Ok(()) => {},
            Err(_) => {
                proof {
                    assert(false);
                }
            },
        }

        match self.transaction_repository.update_transaction_dispute(
            &reference.transaction_id,
            &TransactionDispute::Chargeback,
        ) {
            Ok(()) => Ok(TransactionStatus::Applied),
            Err(e) => {
                proof {
                    assert(false);
                }
                Err(ServiceError::DataError(e))
            },
        }
    }

    /// Applies a whole batch in arrival order; a rejected request is logged
    /// by the caller's collaborator and never halts the stream.
    pub fn process_transactions(&mut self, transaction_requests: Vec<TransactionRequest>) -> (r:
        Result<(), ServiceError>)
        requires
            old(self).wf(),
            forall|i: int|
                0 <= i < transaction_requests@.len() ==> (
                #[trigger] transaction_requests@[i]).client_id is Some,
        ensures
            final(self).wf(),
            final(self).ledger() == run_all(old(self).ledger(), transaction_requests@),
            r is Ok,
    {
        let ghost requests = transaction_requests@;
        proof {
            assert(requests.skip(0) =~= requests);
        }
        let mut i: usize = 0;
        while i < transaction_requests.len()
            invariant
                self.wf(),
                i <= transaction_requests.len(),
                requests == transaction_requests@,
                forall|j: int|
                    0 <= j < requests.len() ==> (#[trigger] requests[j]).client_id is Some,
                run_all(old(self).ledger(), requests) == run_all(
                    self.ledger(),
                    requests.skip(i as int),
                ),
            decreases transaction_requests@.len() - i,
        {
            let ghost before = self.ledger();
            match self.process_transaction(transaction_requests[i]) {
                Ok(()) => {},
                Err(_) => {
                    // A failure aborts only this request; the stream goes on.
                },
            }
            proof {
                assert(requests.skip(i as int)[0] == requests[i as int]);
                assert(requests.skip(i as int).skip(1) =~= requests.skip(i as int + 1));
                assert(run_all(before, requests.skip(i as int)) == run_all(
                    self.ledger(),
                    requests.skip(i as int + 1),
                ));
            }
            i += 1;
        }
        proof {
            assert(requests.skip(i as int) =~= Seq::<TransactionRequest>::empty());
        }
        Ok(())
    }

    /// The stored account of this client, the account map gaining a fresh
    /// zero-balance account where none was stored yet.
    pub fn get_account_status(&mut self, client_id: &ClientId) -> (r: Result<
        Account,
        ServiceError,
    >)
        requires
            old(self).wf(),
        ensures
            final(self).wf(),
            r == Ok::<Account, ServiceError>(
                fetched_account(old(self).ledger().accounts, *client_id),
            ),
            final(self).ledger().accounts == old(self).ledger().accounts.insert(
                *client_id,
                fetched_account(old(self).ledger().accounts, *client_id),
            ),
            final(self).ledger().transactions == old(self).ledger().transactions,
    {
        Ok(self.account_repository.get_account(client_id))
    }

    /// One report row per account, in no promised order.
    pub fn report_account_statuses(&self) -> (r: Vec<Account>)
        requires
            self.wf(),
        ensures
            exists|keys: Seq<ClientId>| report_rows(keys, r@, self.ledger().accounts),
    {
        self.account_repository.account_visitor()
    }
}

/// Builds the engine over in-memory stores, replays a whole batch of
/// requests against an initially empty ledger, and returns the final
/// snapshot of every account: one row per account, in no promised order.
pub fn run(requests: Vec<TransactionRequest>) -> (r: Vec<Account>)
    requires
        forall|i: int| 0 <= i < requests@.len() ==> (#[trigger] requests@[i]).client_id is Some,
    ensures
        exists|keys: Seq<ClientId>|
            report_rows(keys, r@, run_all(Ledger::initial(), requests@).accounts),
{
    let account_repository = InMemAccountRepository::default();
    let transaction_repository = InMemTransactionRepository::default();
    let mut transaction_service = TransactionService::new(
        account_repository,
        transaction_repository,
    );
    proof {
        assert(transaction_service.ledger() == Ledger::initial());
    }
    match transaction_service.process_transactions(requests) {
        Ok(()) => {},
        Err(_) => {},
    }
    transaction_service.report_account_statuses()
}

} // verus!
