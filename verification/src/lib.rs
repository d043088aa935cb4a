//! A replayer for a sequential log of client payment instructions
//! (deposit, withdrawal, dispute, resolve, chargeback).
//!
//! The engine keeps one ledger account per client, enforces the
//! `total == available + held` balance invariant, drives the per-transaction
//! dispute lifecycle, and produces a final snapshot of every account.

pub mod amount;
pub mod domain;
pub mod model;
pub mod repository;
pub mod laws;
pub mod service;

pub use amount::Amount;
pub use amount::Decimal;
pub use domain::Account;
pub use domain::Operation;
pub use domain::RepositoryError;
pub use domain::ServiceError;
pub use domain::Transaction;
pub use domain::TransactionDispute;
pub use domain::TransactionRequest;
pub use domain::TransactionStatus;
pub use repository::AccountRepository;
pub use repository::InMemAccountRepository;
pub use repository::InMemTransactionRepository;
pub use repository::TransactionRepository;
pub use service::TransactionService;
pub use service::run;
