//! Consensus-critical core of a proof-of-work, cell-model blockchain node:
//! contextual block verification, DAO accounting, header and block
//! synchronisation decisions, and compact-block relay.
//!
//! The library decides; it performs no input or output. Handlers take the
//! decoded message and the state they act on, and return what is to be
//! sent or done.

use vstd::prelude::*;

pub mod primitives;
pub mod generic;
pub mod lru;
pub mod types;
pub mod dao_utils;
pub mod consensus;
pub mod store;
pub mod error;
pub mod sorting;
pub mod since;
pub mod median_time;
pub mod tx_verifier;
pub mod cell;
pub mod chain;
pub mod contextual_block_verifier;
pub mod dao;
pub mod dao_verifier;
pub mod dao_tx;
pub mod header_verifier;
pub mod status;
pub mod wire;
pub mod laws;
pub mod merkle;
pub mod block_verifier;
pub mod building;
pub mod locator;
pub mod sync_types;
pub mod synchronizer;
pub mod uint32;
pub mod init;
pub mod specs;
pub mod peers;
pub mod relayer;

verus! {

/// The most headers that one reply carries; a longer reply is ignored.
pub const MAX_HEADERS_LEN: usize = 2_000;

/// A node whose tip is older than this, 24 hours in milliseconds, is in
/// initial block download.
pub const MAX_TIP_AGE: u64 = 86_400_000;

/// The number of blocks requested from a peer at one time, to begin with.
pub const INIT_BLOCKS_IN_TRANSIT_PER_PEER: usize = 16;

/// The most blocks requested from a peer at one time.
pub const MAX_BLOCKS_IN_TRANSIT_PER_PEER: usize = 128;

/// The scheduler adjusts the number of requests once per this many blocks.
pub const CHECK_POINT_WINDOW: u64 = 512;

/// The number of samples in the rolling trace of response times.
pub const TIME_TRACE_SIZE: usize = 512;

/// The sample below which a response counts as fast: one third of the
/// trace.
pub const FAST_INDEX: usize = 170;

/// The sample below which a response counts as normal: four fifths of the
/// trace.
pub const NORMAL_INDEX: usize = 409;

/// The sample above which a response counts as slow: nine tenths of the
/// trace.
pub const LOW_INDEX: usize = 460;

/// Header download is inspected every two minutes.
pub const HEADERS_DOWNLOAD_INSPECT_WINDOW: u64 = 120_000;

/// The expected speed of header download: 300 KiB per second.
pub const HEADERS_DOWNLOAD_HEADERS_PER_SECOND: u64 = 1600;

/// The lowest speed tolerated in one sample is the expected speed divided
/// by this: 75 KiB per second.
pub const HEADERS_DOWNLOAD_TOLERABLE_BIAS_FOR_SINGLE_SAMPLE: u64 = 4;

/// The expected interval between blocks, in seconds.
pub const POW_INTERVAL: u64 = 10;

/// At least this many outbound peers are protected from eviction for a
/// header chain that lags behind.
pub const MAX_OUTBOUND_PEERS_TO_PROTECT_FROM_DISCONNECT: usize = 4;

/// A peer whose chain lags behind has twelve minutes to catch up.
pub const CHAIN_SYNC_TIMEOUT: u64 = 720_000;

/// How long synchronisation with a peer is suspended, in milliseconds.
pub const SUSPEND_SYNC_TIME: u64 = 300_000;

/// A peer asked for headers before eviction has two minutes to reply.
pub const EVICTION_HEADERS_RESPONSE_TIME: u64 = 120_000;

/// The most entries in a locator.
pub const MAX_LOCATOR_SIZE: usize = 101;

/// A block request times out after thirty seconds.
pub const BLOCK_DOWNLOAD_TIMEOUT: u64 = 30_000;

/// How far beyond the tip blocks are requested.
pub const BLOCK_DOWNLOAD_WINDOW: u64 = 8_192;

/// Each repeated request for a transaction waits thirty seconds longer, in
/// milliseconds.
pub const RETRY_ASK_TX_TIMEOUT_INCREASE: u64 = 30_000;

/// A malformed message bans the peer for five minutes, in milliseconds.
pub const BAD_MESSAGE_BAN_TIME: u64 = 300_000;

/// A peer without a common ancestor is banned for ten minutes, in
/// milliseconds.
pub const SYNC_USELESS_BAN_TIME: u64 = 600_000;

} // verus!
