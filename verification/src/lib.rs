//! An account-based blockchain whose blocks are sealed by BLAKE2s-256 digests.
//!
//! A [`Blockchain`] accepts a [`Block`] only when the block's stored hash
//! matches its contents, when it points at the hash of the last block, and
//! when all of its transactions execute; a failing transaction rolls the
//! accounts back. [`Blockchain::check_validity`] re-checks the whole chain.
pub mod account;
pub mod block;
pub mod chain;
pub mod clock;
pub mod digest;
pub mod laws;
pub mod text;
pub mod transaction;
pub mod world;

pub use account::{Account, AccountTable, AccountType, AccountView};
pub use block::{Block, BlockView};
pub use chain::{Blockchain, BlockchainView};
pub use clock::Timestamp;
pub use transaction::{Transaction, TransactionData, TransactionView};
pub use world::WorldState;
