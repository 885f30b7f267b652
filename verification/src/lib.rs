//! A minimal ledger: blocks of transactions that are chained by their
//! hashes, and the accounts and contracts that the transactions have made.
//!
//! A block is appended with all of its transactions or not at all.  The
//! contracts of the functions say what each of them does; the module `laws`
//! holds what follows for the ledger as a whole, and the module `reading`
//! that what is hashed tells what was hashed.
pub mod account;
pub mod block;
pub mod blockchain;
pub mod digest;
pub mod error;
pub mod laws;
pub mod protocol;
pub mod reading;
pub mod smart_contract;
pub mod string_map;
pub mod text;
pub mod transaction;
pub mod vm;
pub mod wallet;
