//! Relay of compact blocks, block transactions, proposals and transaction
//! hashes between peers.

pub mod error;
pub mod compact_block;
pub mod compact_block_verifier;
pub mod block_transactions_verifier;
pub mod pending;
pub mod state;
pub mod block_proposal_process;
pub mod get_block_proposal_process;
pub mod transaction_hash_process;
pub mod reconstruct;
pub mod compact_block_process;
pub mod block_transactions_process;
