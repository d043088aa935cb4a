//! Storage capabilities consumed by the engine.
//!
//! The two traits are the repository contracts of the engine: account
//! storage with get-or-create, compare-and-set update and iteration, and
//! transaction storage keyed by globally unique transaction id. The
//! in-memory implementations back both with a hash map; alternative stores
//! can be substituted without touching the engine, as long as they meet the
//! same contracts.

use vstd::prelude::*;
use std::collections::HashMap;
use crate::domain::{Account, ClientId, RepositoryError, Transaction, TransactionDispute,
    TransactionId, TransactionStatus};
use crate::model::fetched_account;

verus! {

broadcast use vstd::std_specs::hash::group_hash_axioms;

/// How a sequence of report rows covers a map of accounts: each row is a
/// stored account, no client appears twice, and every stored account
/// appears. The order of the keys is left open.
pub open spec fn report_rows(
    keys: Seq<ClientId>,
    rows: Seq<Account>,
    accounts: Map<ClientId, Account>,
) -> bool {
    &&& keys.no_duplicates()
    &&& keys.len() == rows.len()
    &&& forall|j: int|
        0 <= j < keys.len() ==> accounts.contains_key(#[trigger] keys[j]) && rows[j]
            == accounts[keys[j]]
    &&& forall|c: ClientId| #[trigger] accounts.contains_key(c) ==> keys.contains(c)
}

/// Account storage, as the engine consumes it.
pub trait AccountRepository: Sized {
    /// The stored account per client id.
    spec fn accounts(&self) -> Map<ClientId, Account>;

    /// The implementation's internal invariant.
    spec fn inv(&self) -> bool;

    /// Always returns an account: absence creates a zero-balance account,
    /// which is stored at once.
    fn get_account(&mut self, client_id: &ClientId) -> (r: Account)
        requires
            old(self).inv(),
        ensures
            final(self).inv(),
            r == fetched_account(old(self).accounts(), *client_id),
            final(self).accounts() == old(self).accounts().insert(*client_id, r),
    ;

    /// Compare-and-set update: the new account is stored only if the stored
    /// account still matches the caller's snapshot; a mismatch is an
    /// inconsistency, an absent account cannot be updated.
    fn update_account(&mut self, account: &Account, update: &Account) -> (r: Result<
        (),
        RepositoryError,
    >)
        requires
            old(self).inv(),
        ensures
            final(self).inv(),
            match r {
                Ok(()) => old(self).accounts().contains_key(account.client_id) && old(self).accounts()[account.client_id] == *account && final(self).accounts() == old(self).accounts().insert(account.client_id, *update),
                Err(RepositoryError::InconsistencyDetected(id)) => id == account.client_id && old(self).accounts().contains_key(account.client_id) && old(self).accounts()[account.client_id] != *account && final(self).accounts() == old(self).accounts(),
                Err(RepositoryError::EntityNotFound(id)) => id == account.client_id && !old(self).accounts().contains_key(account.client_id) && final(self).accounts() == old(self).accounts(),
                Err(_) => false,
            },
    ;

    /// One row per stored account, in no promised order.
    fn account_visitor(&self) -> (r: Vec<Account>)
        requires
            self.inv(),
        ensures
            exists|keys: Seq<ClientId>| report_rows(keys, r@, self.accounts()),
    ;
}

/// Transaction storage, as the engine consumes it.
pub trait TransactionRepository: Sized {
    /// The stored transaction per transaction id.
    spec fn transactions(&self) -> Map<TransactionId, Transaction>;

    /// The implementation's internal invariant.
    spec fn inv(&self) -> bool;

    /// Posts a new transaction row; a transaction id already present is
    /// rejected, which is the idempotency guard against replays.
    fn post_transaction(&mut self, transaction: &Transaction) -> (r: Result<(), RepositoryError>)
        requires
            old(self).inv(),
        ensures
            final(self).inv(),
            match r {
                Ok(()) => !old(self).transactions().contains_key(transaction.transaction_id)
                    && final(self).transactions() == old(self).transactions().insert(
                    transaction.transaction_id,
                    *transaction,
                ),
                Err(RepositoryError::EntityAlreadyExists(id)) => id == transaction.transaction_id
                    && old(self).transactions().contains_key(transaction.transaction_id) && final(self).transactions() == old(self).transactions(),
                Err(_) => false,
            },
    ;

    /// Overwrites the status of the stored transaction with this id.
    fn update_transaction_status(
        &mut self,
        transaction_id: &TransactionId,
        status: &TransactionStatus,
    ) -> (r: Result<(), RepositoryError>)
        requires
            old(self).inv(),
        ensures
            final(self).inv(),
            match r {
                Ok(()) => old(self).transactions().contains_key(*transaction_id) && final(self).transactions() == old(self).transactions().insert(
                    *transaction_id,
                    Transaction {
                        status: *status,
                        ..old(self).transactions()[*transaction_id]
                    },
                ),
                Err(RepositoryError::EntityNotFound(id)) => id == *transaction_id && !old(self).transactions().contains_key(*transaction_id) && final(self).transactions() == old(self).transactions(),
                Err(_) => false,
            },
    ;

    /// Overwrites the dispute state of the stored transaction with this id.
    fn update_transaction_dispute(
        &mut self,
        transaction_id: &TransactionId,
        dispute: &TransactionDispute,
    ) -> (r: Result<(), RepositoryError>)
        requires
            old(self).inv(),
        ensures
            final(self).inv(),
            match r {
                Ok(()) => old(self).transactions().contains_key(*transaction_id) && final(self).transactions() == old(self).transactions().insert(
                    *transaction_id,
                    Transaction {
                        dispute: *dispute,
                        ..old(self).transactions()[*transaction_id]
                    },
                ),
                Err(RepositoryError::EntityNotFound(id)) => id == *transaction_id && !old(self).transactions().contains_key(*transaction_id) && final(self).transactions() == old(self).transactions(),
                Err(_) => false,
            },
    ;

    /// Optionally finds a transaction by id.
    fn find_transaction_by_id(&self, transaction_id: &TransactionId) -> (r: Option<Transaction>)
        requires
            self.inv(),
        ensures
            r == if self.transactions().contains_key(*transaction_id) {
                Some(self.transactions()[*transaction_id])
            } else {
                None::<Transaction>
            },
    ;
}

/// In-memory transaction store.
pub struct InMemTransactionRepository {
    transactions_by_id: HashMap<TransactionId, Transaction>,
}

impl InMemTransactionRepository {
    /// An empty store.
    pub fn new() -> (r: InMemTransactionRepository)
        ensures
            r.inv(),
            r.transactions() == Map::<TransactionId, Transaction>::empty(),
    {
        InMemTransactionRepository { transactions_by_id: HashMap::new() }
    }
}

impl Default for InMemTransactionRepository {
    fn default() -> (r: Self)
        ensures
            r.inv(),
            r.transactions() == Map::<TransactionId, Transaction>::empty(),
    {
        InMemTransactionRepository::new()
    }
}

impl TransactionRepository for InMemTransactionRepository {
    closed spec fn transactions(&self) -> Map<TransactionId, Transaction> {
        self.transactions_by_id@
    }

    closed spec fn inv(&self) -> bool {
        true
    }

    fn post_transaction(&mut self, transaction: &Transaction) -> (r: Result<(), RepositoryError>) {
        if self.transactions_by_id.contains_key(&transaction.transaction_id) {
            Err(RepositoryError::EntityAlreadyExists(transaction.transaction_id))
        } else {
            self.transactions_by_id.insert(transaction.transaction_id, *transaction);
            Ok(())
        }
    }

    fn update_transaction_status(
        &mut self,
        transaction_id: &TransactionId,
        status: &TransactionStatus,
    ) -> (r: Result<(), RepositoryError>) {
        let stored = match self.transactions_by_id.get(transaction_id) {
            None => {
                return Err(RepositoryError::EntityNotFound(*transaction_id));
            },
            Some(t) => *t,
        };
        let mut updated = stored;
        updated.set_status(*status);
        self.transactions_by_id.insert(*transaction_id, updated);
        Ok(())
    }

    fn update_transaction_dispute(
        &mut self,
        transaction_id: &TransactionId,
        dispute: &TransactionDispute,
    ) -> (r: Result<(), RepositoryError>) {
        let stored = match self.transactions_by_id.get(transaction_id) {
            None => {
                return Err(RepositoryError::EntityNotFound(*transaction_id));
            },
            Some(t) => *t,
        };
        let mut updated = stored;
        updated.set_dispute(*dispute);
        self.transactions_by_id.insert(*transaction_id, updated);
        Ok(())
    }

    fn find_transaction_by_id(&self, transaction_id: &TransactionId) -> (r: Option<Transaction>) {
        match self.transactions_by_id.get(transaction_id) {
            None => None,
            Some(t) => Some(*t),
        }
    }
}

/// In-memory account store. Beside the map it keeps the client ids in
/// insertion order, so that iteration has a definite order to reason about.
pub struct InMemAccountRepository {
    accounts_by_client_id: HashMap<ClientId, Account>,
    client_ids: Vec<ClientId>,
}

impl InMemAccountRepository {
    /// An empty store.
    pub fn new() -> (r: InMemAccountRepository)
        ensures
            r.inv(),
            r.accounts() == Map::<ClientId, Account>::empty(),
    {
        InMemAccountRepository { accounts_by_client_id: HashMap::new(), client_ids: Vec::new() }
    }
}

impl Default for InMemAccountRepository {
    fn default() -> (r: Self)
        ensures
            r.inv(),
            r.accounts() == Map::<ClientId, Account>::empty(),
    {
        InMemAccountRepository::new()
    }
}

impl AccountRepository for InMemAccountRepository {
    closed spec fn accounts(&self) -> Map<ClientId, Account> {
        self.accounts_by_client_id@
    }

    closed spec fn inv(&self) -> bool {
        &&& self.client_ids@.no_duplicates()
        &&& forall|c: ClientId|
            #![trigger self.accounts_by_client_id@.contains_key(c)]
            #![trigger self.client_ids@.contains(c)]
            self.accounts_by_client_id@.contains_key(c) <==> self.client_ids@.contains(c)
    }

    fn get_account(&mut self, client_id: &ClientId) -> (r: Account) {
        if self.accounts_by_client_id.contains_key(client_id) {
            match self.accounts_by_client_id.get(client_id) {
                Some(account) => {
                    proof {
                        assert(self.accounts_by_client_id@ =~= self.accounts_by_client_id@.insert(
                            *client_id,
                            self.accounts_by_client_id@[*client_id],
                        ));
                    }
                    *account
                },
                None => {
                    proof {
                        assert(false);
                    }
                    Account::new(*client_id)
                },
            }
        } else {
            let account = Account::new(*client_id);
            self.accounts_by_client_id.insert(*client_id, account);
            self.client_ids.push(*client_id);
            proof {
                let prev = old(self).client_ids@;
                let cur = self.client_ids@;
                assert(cur == prev.push(*client_id));
                assert(cur[prev.len() as int] == *client_id);
                assert(cur.contains(*client_id));
                assert forall|c: ClientId| #[trigger]
                    cur.contains(c) implies self.accounts_by_client_id@.contains_key(c) by {
                    let i: int = choose|i: int| 0 <= i < cur.len() && cur[i] == c;
                    if i < prev.len() {
                        assert(prev[i] == c);
                        assert(prev.contains(c));
                    }
                }
                assert forall|c: ClientId| #[trigger]
                    self.accounts_by_client_id@.contains_key(c) implies cur.contains(c) by {
                    if c != *client_id {
                        assert(old(self).accounts_by_client_id@.contains_key(c));
                        assert(prev.contains(c));
                        let i: int = choose|i: int| 0 <= i < prev.len() && prev[i] == c;
                        assert(cur[i] == c);
                    }
                }
                assert forall|i: int, j: int|
                    0 <= i < cur.len() && 0 <= j < cur.len() && i != j implies cur[i] != cur[j] by {
                    if i < prev.len() && j < prev.len() {
                        assert(prev[i] != prev[j]);
                    } else if j == prev.len() as int {
                        assert(cur[i] == prev[i]);
                        if prev[i] == *client_id {
                            assert(prev.contains(*client_id));
                        }
                    } else {
                        assert(cur[j] == prev[j]);
                        if prev[j] == *client_id {
                            assert(prev.contains(*client_id));
                        }
                    }
                }
                assert(cur.no_duplicates());
            }
            account
        }
    }

    fn update_account(&mut self, account: &Account, update: &Account) -> (r: Result<
        (),
        RepositoryError,
    >) {
        match self.accounts_by_client_id.get(&account.client_id) {
            None => {
                return Err(RepositoryError::EntityNotFound(account.client_id));
            },
            Some(stored) => {
                if !(stored == account) {
                    return Err(RepositoryError::InconsistencyDetected(account.client_id));
                }
            },
        }
        self.accounts_by_client_id.insert(account.client_id, *update);
        Ok(())
    }

    fn account_visitor(&self) -> (r: Vec<Account>) {
        let mut rows: Vec<Account> = Vec::new();
        let mut i: usize = 0;
        while i < self.client_ids.len()
            invariant
                self.inv(),
                i <= self.client_ids.len(),
                rows@.len() == i,
                forall|j: int|
                    0 <= j < i as int ==> self.accounts_by_client_id@.contains_key(
                        #[trigger] self.client_ids@[j],
                    ) && rows@[j] == self.accounts_by_client_id@[self.client_ids@[j]],
            decreases self.client_ids@.len() - i,
        {
            let client_id: ClientId = self.client_ids[i];
            proof {
                assert(self.client_ids@.contains(self.client_ids@[i as int]));
            }
            match self.accounts_by_client_id.get(&client_id) {
                Some(account) => {
                    rows.push(*account);
                },
                None => {
                    proof {
                        assert(false);
                    }
                },
            }
            i += 1;
        }
        proof {
            assert(report_rows(self.client_ids@, rows@, self.accounts()));
        }
        rows
    }
}

} // verus!
