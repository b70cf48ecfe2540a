//! The speed at which a peer sends headers, held against what is expected:
//! 1 600 headers a second on the whole, a quarter of that in any one
//! sample.

use vstd::prelude::*;

verus! {

/// The progress of header download from a peer. Times are in
/// milliseconds; a tip time is the timestamp of the best header.
#[derive(Clone, Copy, Debug, PartialEq, Eq, Structural)]
pub struct HeadersSyncController {
    /// When download started.
    pub started_ts: u64,
    /// The tip time when download started.
    pub started_tip_ts: u64,
    /// When progress was last measured.
    pub last_updated_ts: u64,
    /// The tip time when progress was last measured.
    pub last_updated_tip_ts: u64,
    /// Whether the tip had almost reached the clock.
    pub is_close_to_the_end: bool,
}

/// The span of chain time, in milliseconds, that headers are expected to
/// cover in `spent` milliseconds: 1 600 headers a second, each ten seconds
/// of chain time.
pub open spec fn expected_progress(spent: u64) -> int {
    crate::HEADERS_DOWNLOAD_HEADERS_PER_SECOND * spent * crate::POW_INTERVAL
}

/// The difference `a - b`, or zero where `b` is the larger.
pub open spec fn gap(a: u64, b: u64) -> u64 {
    if a >= b {
        (a - b) as u64
    } else {
        0
    }
}

/// The controller as it starts anew at `now` with the tip time
/// `now_tip_ts`.
pub open spec fn restarted(now_tip_ts: u64, now: u64) -> HeadersSyncController {
    HeadersSyncController {
        started_ts: now,
        started_tip_ts: now_tip_ts,
        last_updated_ts: now,
        last_updated_tip_ts: now_tip_ts,
        is_close_to_the_end: false,
    }
}

/// The controller after an inspection at `now` with the tip time
/// `now_tip_ts`, and what the inspection finds: `Some(true)` for a peer
/// that is too slow, `Some(false)` for one that is not, `None` where
/// download starts anew because the tip has fallen far behind the clock
/// again.
///
/// A tip within one inspection window of the clock is close to the end,
/// and never too slow. A sample of less than one window is no sample. A
/// sample in which the peer covers less than a quarter of what is
/// expected is too slow. A sample in which it covers less than expected
/// is too slow if the average since the start is below what is expected.
pub open spec fn inspected(c: HeadersSyncController, now_tip_ts: u64, now: u64) -> (
    HeadersSyncController,
    Option<bool>,
) {
    let behind = gap(now, now_tip_ts);
    if c.is_close_to_the_end {
        if behind > expected_progress(crate::HEADERS_DOWNLOAD_INSPECT_WINDOW) {
            (restarted(now_tip_ts, now), None)
        } else {
            (c, Some(false))
        }
    } else if behind < crate::HEADERS_DOWNLOAD_INSPECT_WINDOW {
        (
            HeadersSyncController {
                started_ts: c.started_ts,
                started_tip_ts: c.started_tip_ts,
                last_updated_ts: c.last_updated_ts,
                last_updated_tip_ts: c.last_updated_tip_ts,
                is_close_to_the_end: true,
            },
            Some(false),
        )
    } else {
        let spent = gap(now, c.last_updated_ts);
        if spent < crate::HEADERS_DOWNLOAD_INSPECT_WINDOW {
            (c, Some(false))
        } else {
            let synced = gap(now_tip_ts, c.last_updated_tip_ts);
            let expected = expected_progress(spent);
            if synced < expected / (crate::HEADERS_DOWNLOAD_TOLERABLE_BIAS_FOR_SINGLE_SAMPLE as int) {
                (c, Some(true))
            } else {
                let updated = HeadersSyncController {
                    started_ts: c.started_ts,
                    started_tip_ts: c.started_tip_ts,
                    last_updated_ts: now,
                    last_updated_tip_ts: now_tip_ts,
                    is_close_to_the_end: false,
                };
                if synced > expected {
                    (updated, Some(false))
                } else {
                    (
                        updated,
                        Some(
                            gap(now_tip_ts, c.started_tip_ts) < expected_progress(
                                gap(now, c.started_ts),
                            ),
                        ),
                    )
                }
            }
        }
    }
}

fn progress_of(spent: u64) -> (r: u128)
    ensures
        r == expected_progress(spent),
{
    assert(crate::HEADERS_DOWNLOAD_HEADERS_PER_SECOND == 1600 && crate::POW_INTERVAL == 10);
    let wide: u128 = 1600u128 * (spent as u128);
    wide * 10u128
}

impl HeadersSyncController {
    /// A controller for a download that starts at `now` with the tip time
    /// `tip_ts`.
    pub fn new(tip_ts: u64, now: u64) -> (r: Self)
        ensures
            r == restarted(tip_ts, now),
    {
        HeadersSyncController {
            started_ts: now,
            started_tip_ts: tip_ts,
            last_updated_ts: now,
            last_updated_tip_ts: tip_ts,
            is_close_to_the_end: false,
        }
    }

    /// Inspects the download at `now`, the tip time being `now_tip_ts`.
    pub fn is_timeout(&mut self, now_tip_ts: u64, now: u64) -> (r: Option<bool>)
        ensures
            (*final(self), r) == inspected(*old(self), now_tip_ts, now),
    {
        let inspect_window = crate::HEADERS_DOWNLOAD_INSPECT_WINDOW;
        let behind = now.saturating_sub(now_tip_ts);
        if self.is_close_to_the_end {
            if behind as u128 > progress_of(inspect_window) {
                self.started_ts = now;
                self.started_tip_ts = now_tip_ts;
                self.last_updated_ts = now;
                self.last_updated_tip_ts = now_tip_ts;
                self.is_close_to_the_end = false;
                None
            } else {
                Some(false)
            }
        } else if behind < inspect_window {
            self.is_close_to_the_end = true;
            Some(false)
        } else {
            let spent = now.saturating_sub(self.last_updated_ts);
            if spent < inspect_window {
                return Some(false);
            }
            let synced = now_tip_ts.saturating_sub(self.last_updated_tip_ts);
            let expected = progress_of(spent);
            assert(crate::HEADERS_DOWNLOAD_TOLERABLE_BIAS_FOR_SINGLE_SAMPLE == 4);
            if (synced as u128) < expected / 4 {
                return Some(true);
            }
            let since_start = now.saturating_sub(self.started_ts);
            let synced_since_start = now_tip_ts.saturating_sub(self.started_tip_ts);
            self.last_updated_ts = now;
            self.last_updated_tip_ts = now_tip_ts;
            if synced as u128 > expected {
                Some(false)
            } else {
                Some((synced_since_start as u128) < progress_of(since_start))
            }
        }
    }
}

} // verus!
