//! Balance resolution for a wallet of unspent ledger outputs.
//!
//! Given the outputs a wallet owns and the current ledger time, the library
//! partitions their value into what is spendable now, what is reserved by
//! pending operations and what may still become locked, and states each of
//! these as a mathematical function of the snapshot it was given.

pub mod account;
pub mod address;
pub mod amount;
pub mod balance;
pub mod error;
pub mod key;
pub mod native_token;
pub mod output;
pub mod random;
pub mod slot;
pub mod time;
pub mod timelock;
pub mod unlock_condition;
pub mod vec_map;
