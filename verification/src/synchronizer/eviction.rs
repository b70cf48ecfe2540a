//! The watch on outbound peers whose chain lags behind: a deadline, a last
//! request for headers, and eviction.

use vstd::prelude::*;
use crate::sync_types::ChainSyncState;
use crate::sync_types::PeerFlags;
use crate::types::Header;

verus! {

/// What is to be done about a peer.
#[derive(Clone, Copy, Debug, PartialEq, Eq, Structural)]
pub enum ChainSyncAction {
    Nothing,
    /// Headers are to be asked of the peer once more.
    SendGetHeaders,
    /// The peer is to be disconnected.
    Evict,
}

/// The watch on a peer and what is to be done, at `now`, given the total
/// difficulty `best_known` of the best header known of the peer and the
/// total difficulty `tip_total` of the local tip `tip`.
///
/// Only outbound peers are watched. A peer that has caught up is
/// released. A peer without deadline, or one that has reached the chain
/// it was measured against, gets a deadline of twelve minutes from now. A
/// peer whose deadline has passed is asked for headers once and given two
/// minutes more; when those have passed too it is evicted, unless it is
/// protected or whitelisted.
pub open spec fn chain_sync_step(
    watch: ChainSyncState,
    flags: PeerFlags,
    best_known: Option<u128>,
    tip: Header,
    tip_total: u128,
    now: u64,
) -> (ChainSyncState, ChainSyncAction) {
    if !flags.is_outbound {
        (watch, ChainSyncAction::Nothing)
    } else if best_known.is_some() && best_known.unwrap() >= tip_total {
        (
            ChainSyncState {
                timeout: 0,
                work_header: None,
                total_difficulty: None,
                sent_getheaders: false,
            },
            ChainSyncAction::Nothing,
        )
    } else if watch.timeout == 0 || (best_known.is_some() && watch.total_difficulty.is_some()
        && best_known.unwrap() >= watch.total_difficulty.unwrap()) {
        (
            ChainSyncState {
                timeout: if now + crate::CHAIN_SYNC_TIMEOUT > u64::MAX {
                    u64::MAX
                } else {
                    (now + crate::CHAIN_SYNC_TIMEOUT) as u64
                },
                work_header: Some(tip),
                total_difficulty: Some(tip_total),
                sent_getheaders: false,
            },
            ChainSyncAction::Nothing,
        )
    } else if now > watch.timeout {
        if watch.sent_getheaders {
            if flags.is_protect || flags.is_whitelist {
                (watch, ChainSyncAction::Nothing)
            } else {
                (watch, ChainSyncAction::Evict)
            }
        } else {
            (
                ChainSyncState {
                    timeout: if now + crate::EVICTION_HEADERS_RESPONSE_TIME > u64::MAX {
                        u64::MAX
                    } else {
                        (now + crate::EVICTION_HEADERS_RESPONSE_TIME) as u64
                    },
                    work_header: watch.work_header,
                    total_difficulty: watch.total_difficulty,
                    sent_getheaders: true,
                },
                ChainSyncAction::SendGetHeaders,
            )
        }
    } else {
        (watch, ChainSyncAction::Nothing)
    }
}

/// Advances the watch on a peer.
pub fn eviction_step(
    watch: ChainSyncState,
    flags: PeerFlags,
    best_known: Option<u128>,
    tip: Header,
    tip_total: u128,
    now: u64,
) -> (r: (ChainSyncState, ChainSyncAction))
    ensures
        r == chain_sync_step(watch, flags, best_known, tip, tip_total, now),
{
    if !flags.is_outbound {
        return (watch, ChainSyncAction::Nothing);
    }
    let caught_up = match best_known {
        Some(b) => b >= tip_total,
        None => false,
    };
    if caught_up {
        return (
            ChainSyncState {
                timeout: 0,
                work_header: None,
                total_difficulty: None,
                sent_getheaders: false,
            },
            ChainSyncAction::Nothing,
        );
    }
    let reached = match (best_known, watch.total_difficulty) {
        (Some(b), Some(t)) => b >= t,
        _ => false,
    };
    if watch.timeout == 0 || reached {
        return (
            ChainSyncState {
                timeout: now.saturating_add(crate::CHAIN_SYNC_TIMEOUT),
                work_header: Some(tip),
                total_difficulty: Some(tip_total),
                sent_getheaders: false,
            },
            ChainSyncAction::Nothing,
        );
    }
    if now > watch.timeout {
        if watch.sent_getheaders {
            if flags.is_protect || flags.is_whitelist {
                (watch, ChainSyncAction::Nothing)
            } else {
                (watch, ChainSyncAction::Evict)
            }
        } else {
            (
                ChainSyncState {
                    timeout: now.saturating_add(crate::EVICTION_HEADERS_RESPONSE_TIME),
                    work_header: watch.work_header,
                    total_difficulty: watch.total_difficulty,
                    sent_getheaders: true,
                },
                ChainSyncAction::SendGetHeaders,
            )
        }
    } else {
        (watch, ChainSyncAction::Nothing)
    }
}

} // verus!
