//! A transaction query access layer.
//!
//! The layer lets callers retrieve transactions, their execution receipts,
//! their status, and the transactions associated with a given owner address,
//! without knowing how the underlying ledger data is stored.  A backend
//! exposes four primitive keyed reads through [`ports::DatabasePort`]; any
//! such backend gains the richer capabilities
//! [`query::SimpleTransactionData`] and [`query::TransactionQueryData`]
//! through blanket implementations.  [`order`] holds the mathematical model
//! of cursor-resumed enumeration, and [`store::MemStore`] is a verified
//! in-memory backend.

pub mod order;
pub mod ports;
pub mod query;
pub mod store;
pub mod types;
