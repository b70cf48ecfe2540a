//! Synchronisation of headers and blocks with peers.

pub mod get_headers_process;
pub mod block_process;
pub mod inflight;
pub mod eviction;
pub mod orphan_block_pool;
pub mod headers_sync;
pub mod headers_process;
pub mod block_fetcher;
