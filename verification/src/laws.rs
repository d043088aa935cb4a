//! The engine's laws, stated and proved over the transition model.
//!
//! Every lemma here speaks about `step` (or a handler of one operation
//! kind), so together with the service's postcondition — the service
//! implements `step` exactly — each law holds of the running engine.

use vstd::prelude::*;
use crate::domain::{
    ClientId, Operation, RepositoryError, ServiceError, Transaction, TransactionRequest,
    spec_validated,
};
use crate::model::{
    Ledger, apply_chargeback, apply_deposit, apply_dispute, apply_resolve, apply_withdrawal,
    fetched_account, run_all, step,
};

verus! {

/// Fetching an account preserves well-formedness of the account map: the
/// fetched account is stored well-formed or fresh.
proof fn lemma_fetch_wf(led: Ledger, client_id: u64)
    requires
        led.wf(),
    ensures
        fetched_account(led.accounts, client_id).wf(),
        fetched_account(led.accounts, client_id).client_id == client_id,
        (Ledger {
            accounts: led.accounts.insert(client_id, fetched_account(led.accounts, client_id)),
            ..led
        }).wf(),
{
}

proof fn lemma_apply_deposit_wf(led: Ledger, t: Transaction)
    requires
        led.wf(),
    ensures
        apply_deposit(led, t).0.wf(),
{
    lemma_fetch_wf(led, t.client_id);
}

proof fn lemma_apply_withdrawal_wf(led: Ledger, t: Transaction)
    requires
        led.wf(),
    ensures
        apply_withdrawal(led, t).0.wf(),
{
    lemma_fetch_wf(led, t.client_id);
}

proof fn lemma_apply_dispute_wf(led: Ledger, t: Transaction)
    requires
        led.wf(),
    ensures
        apply_dispute(led, t).0.wf(),
{
    lemma_fetch_wf(led, t.client_id);
}

proof fn lemma_apply_resolve_wf(led: Ledger, t: Transaction)
    requires
        led.wf(),
    ensures
        apply_resolve(led, t).0.wf(),
{
    lemma_fetch_wf(led, t.client_id);
}

proof fn lemma_apply_chargeback_wf(led: Ledger, t: Transaction)
    requires
        led.wf(),
    ensures
        apply_chargeback(led, t).0.wf(),
{
    lemma_fetch_wf(led, t.client_id);
}

/// The balance invariant holds in every state the engine can reach: one
/// step from a well-formed ledger leaves every account well-formed, that
/// is, `available` and `held` stay non-negative and their sum — the total —
/// representable.
pub proof fn lemma_step_preserves_wf(led: Ledger, request: TransactionRequest)
    requires
        led.wf(),
    ensures
        step(led, request).0.wf(),
{
    match spec_validated(request) {
        Err(_) => {},
        Ok(t) => {
            let posts = t.operation is Deposit || t.operation is Withdrawal;
            if posts && led.transactions.contains_key(t.transaction_id) {
            } else {
                let led0 = if posts {
                    Ledger { transactions: led.transactions.insert(t.transaction_id, t), ..led }
                } else {
                    led
                };
                assert(led0.wf());
                match t.operation {
                    Operation::Deposit => lemma_apply_deposit_wf(led0, t),
                    Operation::Withdrawal => lemma_apply_withdrawal_wf(led0, t),
                    Operation::Dispute => lemma_apply_dispute_wf(led0, t),
                    Operation::Resolve => lemma_apply_resolve_wf(led0, t),
                    Operation::Chargeback => lemma_apply_chargeback_wf(led0, t),
                }
            }
        },
    }
}

/// The balance invariant holds after any whole batch.
pub proof fn lemma_run_all_preserves_wf(led: Ledger, requests: Seq<TransactionRequest>)
    requires
        led.wf(),
    ensures
        run_all(led, requests).wf(),
    decreases requests.len(),
{
    if requests.len() > 0 {
        lemma_step_preserves_wf(led, requests[0]);
        lemma_run_all_preserves_wf(step(led, requests[0]).0, requests.skip(1));
    }
}

/// Depositing and then withdrawing the same amount returns `available` to
/// its prior value: a round trip. Both steps succeed, given two fresh
/// distinct transaction ids, an unlocked account, and room for the deposit.
pub proof fn lemma_deposit_withdraw_round_trip(
    led: Ledger,
    deposit: TransactionRequest,
    withdrawal: TransactionRequest,
)
    requires
        led.wf(),
        deposit.transaction_type == Some(Operation::Deposit),
        withdrawal.transaction_type == Some(Operation::Withdrawal),
        deposit.client_id is Some,
        withdrawal.client_id == deposit.client_id,
        deposit.transaction_id is Some,
        withdrawal.transaction_id is Some,
        withdrawal.transaction_id != deposit.transaction_id,
        !led.transactions.contains_key(deposit.transaction_id->0),
        !led.transactions.contains_key(withdrawal.transaction_id->0),
        deposit.amount is Some,
        withdrawal.amount == deposit.amount,
        crate::amount::decimal_representable(deposit.amount->0),
        crate::amount::decimal_units(deposit.amount->0) >= 0,
        !fetched_account(led.accounts, deposit.client_id->0).locked,
        fetched_account(led.accounts, deposit.client_id->0).available@ + fetched_account(
            led.accounts,
            deposit.client_id->0,
        ).held@ + crate::amount::decimal_units(deposit.amount->0) <= i64::MAX as int,
    ensures
        step(led, deposit).1 is Ok,
        step(step(led, deposit).0, withdrawal).1 is Ok,
        fetched_account(
            step(step(led, deposit).0, withdrawal).0.accounts,
            deposit.client_id->0,
        ).available == fetched_account(led.accounts, deposit.client_id->0).available,
{
    let client: ClientId = deposit.client_id->0;
    let before = fetched_account(led.accounts, client);
    let led1 = step(led, deposit).0;
    assert(fetched_account(led1.accounts, client).available@ == before.available@
        + crate::amount::decimal_units(deposit.amount->0));
    assert(fetched_account(led1.accounts, client).locked == before.locked);
    let led2 = step(led1, withdrawal).0;
    assert(fetched_account(led2.accounts, client).available@ == before.available@);
}

/// Posting the same transaction id twice: the second attempt fails with a
/// duplicate error and changes nothing.
pub proof fn lemma_duplicate_transaction_rejected(
    led: Ledger,
    request: TransactionRequest,
    t: Transaction,
)
    requires
        spec_validated(request) == Ok::<Transaction, ServiceError>(t),
        t.operation is Deposit || t.operation is Withdrawal,
        led.transactions.contains_key(t.transaction_id),
    ensures
        step(led, request).1 == Err::<(), ServiceError>(
            ServiceError::DataError(RepositoryError::EntityAlreadyExists(t.transaction_id)),
        ),
        step(led, request).0 == led,
{
}

/// Once an account is locked, every operation for that client fails with a
/// locked-account rejection and leaves every balance unchanged. (For a
/// deposit or a withdrawal the request must get as far as the locked check:
/// a fresh transaction id and a present, non-negative amount.)
pub proof fn lemma_locked_account_rejects(
    led: Ledger,
    request: TransactionRequest,
    t: Transaction,
)
    requires
        led.wf(),
        spec_validated(request) == Ok::<Transaction, ServiceError>(t),
        led.accounts.contains_key(t.client_id),
        led.accounts[t.client_id].locked,
        t.operation is Deposit || t.operation is Withdrawal ==> !led.transactions.contains_key(
            t.transaction_id,
        ) && t.amount is Some && t.amount->0@ >= 0,
    ensures
        step(led, request).1 == Err::<(), ServiceError>(
            ServiceError::AccountLocked(t.transaction_id),
        ),
        step(led, request).0.accounts == led.accounts,
{
    assert(led.accounts.insert(t.client_id, led.accounts[t.client_id]) =~= led.accounts);
}

/// The dispute half of the lifecycle: disputing a transaction already
/// `Disputed` or `Chargeback` fails; disputing one in `No` or `Resolved`
/// state succeeds (so a re-dispute after a resolve is allowed), moves the
/// amount from `available` to `held`, and marks the transaction `Disputed`.
pub proof fn lemma_dispute_state_machine(led: Ledger, request: TransactionRequest, t: Transaction)
    requires
        led.wf(),
        spec_validated(request) == Ok::<Transaction, ServiceError>(t),
        t.operation is Dispute,
        !fetched_account(led.accounts, t.client_id).locked,
        led.transactions.contains_key(t.transaction_id),
    ensures
        ({
            let reference = led.transactions[t.transaction_id];
            (reference.dispute is Disputed || reference.dispute is Chargeback) ==> step(
                led,
                request,
            ).1 == Err::<(), ServiceError>(ServiceError::AlreadyDisputed(t.transaction_id))
        }),
        ({
            let reference = led.transactions[t.transaction_id];
            let account = fetched_account(led.accounts, t.client_id);
            ((reference.dispute is No || reference.dispute is Resolved) && reference.amount is Some
                && reference.amount->0@ >= 0 && reference.amount->0@ <= account.available@) ==> {
                &&& step(led, request).1 is Ok
                &&& step(led, request).0.transactions[t.transaction_id].dispute is Disputed
                &&& fetched_account(step(led, request).0.accounts, t.client_id).available@
                    == account.available@ - reference.amount->0@
                &&& fetched_account(step(led, request).0.accounts, t.client_id).held@
                    == account.held@ + reference.amount->0@
            }
        }),
{
}

/// A dispute followed by a resolve restores `available` and zeroes the
/// delta from `held`; the transaction ends `Resolved`.
pub proof fn lemma_dispute_then_resolve(
    led: Ledger,
    dispute: TransactionRequest,
    resolve: TransactionRequest,
)
    requires
        led.wf(),
        dispute.transaction_type == Some(Operation::Dispute),
        resolve.transaction_type == Some(Operation::Resolve),
        dispute.client_id is Some,
        resolve.client_id == dispute.client_id,
        dispute.transaction_id is Some,
        resolve.transaction_id == dispute.transaction_id,
        dispute.amount is None,
        resolve.amount is None,
        !fetched_account(led.accounts, dispute.client_id->0).locked,
        led.transactions.contains_key(dispute.transaction_id->0),
        ({
            let reference = led.transactions[dispute.transaction_id->0];
            &&& reference.dispute is No || reference.dispute is Resolved
            &&& reference.amount is Some
            &&& reference.amount->0@ >= 0
            &&& reference.amount->0@ <= fetched_account(
                led.accounts,
                dispute.client_id->0,
            ).available@
        }),
    ensures
        step(led, dispute).1 is Ok,
        step(step(led, dispute).0, resolve).1 is Ok,
        ({
            let client: ClientId = dispute.client_id->0;
            let after = step(step(led, dispute).0, resolve).0;
            &&& fetched_account(after.accounts, client).available == fetched_account(
                led.accounts,
                client,
            ).available
            &&& fetched_account(after.accounts, client).held == fetched_account(
                led.accounts,
                client,
            ).held
            &&& after.transactions[dispute.transaction_id->0].dispute is Resolved
        }),
{
    let client: ClientId = dispute.client_id->0;
    let amount = led.transactions[dispute.transaction_id->0].amount->0;
    let before = fetched_account(led.accounts, client);
    let led1 = step(led, dispute).0;
    assert(fetched_account(led1.accounts, client).available@ == before.available@ - amount@);
    assert(fetched_account(led1.accounts, client).held@ == before.held@ + amount@);
    let led2 = step(led1, resolve).0;
    assert(fetched_account(led2.accounts, client).available@ == before.available@);
    assert(fetched_account(led2.accounts, client).held@ == before.held@);
}

/// A dispute followed by a chargeback removes the disputed funds from
/// `held`, locks the account, and the transaction ends `Chargeback`.
pub proof fn lemma_dispute_then_chargeback(
    led: Ledger,
    dispute: TransactionRequest,
    chargeback: TransactionRequest,
)
    requires
        led.wf(),
        dispute.transaction_type == Some(Operation::Dispute),
        chargeback.transaction_type == Some(Operation::Chargeback),
        dispute.client_id is Some,
        chargeback.client_id == dispute.client_id,
        dispute.transaction_id is Some,
        chargeback.transaction_id == dispute.transaction_id,
        dispute.amount is None,
        chargeback.amount is None,
        !fetched_account(led.accounts, dispute.client_id->0).locked,
        led.transactions.contains_key(dispute.transaction_id->0),
        ({
            let reference = led.transactions[dispute.transaction_id->0];
            &&& reference.dispute is No || reference.dispute is Resolved
            &&& reference.amount is Some
            &&& reference.amount->0@ >= 0
            &&& reference.amount->0@ <= fetched_account(
                led.accounts,
                dispute.client_id->0,
            ).available@
        }),
    ensures
        step(led, dispute).1 is Ok,
        step(step(led, dispute).0, chargeback).1 is Ok,
        ({
            let client: ClientId = dispute.client_id->0;
            let amount = led.transactions[dispute.transaction_id->0].amount->0;
            let after = step(step(led, dispute).0, chargeback).0;
            &&& fetched_account(after.accounts, client).held == fetched_account(
                led.accounts,
                client,
            ).held
            &&& fetched_account(after.accounts, client).available@ == fetched_account(
                led.accounts,
                client,
            ).available@ - amount@
            &&& fetched_account(after.accounts, client).locked
            &&& after.transactions[dispute.transaction_id->0].dispute is Chargeback
        }),
{
    let client: ClientId = dispute.client_id->0;
    let amount = led.transactions[dispute.transaction_id->0].amount->0;
    let before = fetched_account(led.accounts, client);
    let led1 = step(led, dispute).0;
    assert(fetched_account(led1.accounts, client).available@ == before.available@ - amount@);
    assert(fetched_account(led1.accounts, client).held@ == before.held@ + amount@);
    let led2 = step(led1, chargeback).0;
    assert(fetched_account(led2.accounts, client).held@ == before.held@);
}

/// An amount supplied with more than four fractional digits is rejected at
/// validation, before any handler can run: the state does not change.
pub proof fn lemma_overlong_amount_rejected(led: Ledger, request: TransactionRequest)
    requires
        request.amount is Some,
        request.amount->0.scale > 4,
    ensures
        step(led, request) == (led, Err::<(), ServiceError>(ServiceError::InvalidAmount)),
{
}

} // verus!
