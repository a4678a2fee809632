//! A ledger transaction: its canonical bytes, its two digests and the check
//! of its signature.

pub mod digest;
pub mod envelope;
pub mod error;
pub mod natural;
pub mod signature;
pub mod transaction;

pub use crate::error::DecodeError;
pub use crate::error::Field;
pub use crate::natural::Natural;
pub use crate::transaction::Transaction;
pub use crate::transaction::TransactionView;
