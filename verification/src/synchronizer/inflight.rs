//! The blocks asked of peers and not received yet, and how many blocks
//! each peer is asked for at a time.

use vstd::prelude::*;
use crate::peers::PeerIndex;
use crate::primitives::Byte32;
use crate::primitives::lemma_position_is;
use crate::primitives::lemma_position_none;
use crate::primitives::position;
use crate::sorting::ascending;
use crate::sorting::sorted_copy;

verus! {

/// How a response time compares with the thresholds.
#[derive(Clone, Copy, Debug, PartialEq, Eq, Structural)]
pub enum TimeQuantile {
    MinToFast,
    FastToNormal,
    NormalToUpper,
    UpperToMax,
}

/// A rolling trace of response times with three thresholds drawn from it.
#[derive(Debug)]
pub struct TimeAnalyzer {
    pub trace: Vec<u64>,
    pub fast_time: u64,
    pub normal_time: u64,
    pub low_time: u64,
}

/// The mean of a threshold and a sample, rounded down; the sum is capped at
/// 64 bits.
pub open spec fn blend(threshold: u64, sample: u64) -> u64 {
    if threshold + sample > u64::MAX {
        (u64::MAX / 2) as u64
    } else {
        ((threshold + sample) / 2) as u64
    }
}

/// How `time` compares with the thresholds.
pub open spec fn quantile(fast: u64, normal: u64, low: u64, time: u64) -> TimeQuantile {
    if time <= fast {
        TimeQuantile::MinToFast
    } else if time <= normal {
        TimeQuantile::FastToNormal
    } else if time > low {
        TimeQuantile::UpperToMax
    } else {
        TimeQuantile::NormalToUpper
    }
}

impl TimeAnalyzer {
    /// The trace holds at most its full size.
    pub open spec fn wf(&self) -> bool {
        self.trace@.len() <= crate::TIME_TRACE_SIZE
    }

    /// An empty trace with thresholds of 1 000, 1 250 and 1 500
    /// milliseconds.
    pub fn new() -> (r: Self)
        ensures
            r.wf(),
            r.trace@.len() == 0,
            r.fast_time == 1000,
            r.normal_time == 1250,
            r.low_time == 1500,
    {
        TimeAnalyzer { trace: Vec::new(), fast_time: 1000, normal_time: 1250, low_time: 1500 }
    }

    /// Records a response time and tells how it compares.
    ///
    /// A full trace is sorted first: each threshold becomes the mean of
    /// itself and the sample at its mark, a third, four fifths and nine
    /// tenths of the way through the sorted trace, and the trace starts
    /// anew with this sample.
    pub fn push_time(&mut self, time: u64) -> (r: TimeQuantile)
        requires
            old(self).wf(),
        ensures
            final(self).wf(),
            old(self).trace@.len() < crate::TIME_TRACE_SIZE ==> final(self).trace@ == old(self).trace@.push(time) && final(self).fast_time == old(self).fast_time && final(self).normal_time == old(self).normal_time && final(self).low_time == old(self).low_time,
            old(self).trace@.len() == crate::TIME_TRACE_SIZE ==> final(self).trace@ == seq![time]
                && final(self).fast_time == blend(
                old(self).fast_time,
                ascending(old(self).trace@)[crate::FAST_INDEX as int],
            ) && final(self).normal_time == blend(
                old(self).normal_time,
                ascending(old(self).trace@)[crate::NORMAL_INDEX as int],
            ) && final(self).low_time == blend(
                old(self).low_time,
                ascending(old(self).trace@)[crate::LOW_INDEX as int],
            ),
            r == quantile(final(self).fast_time, final(self).normal_time, final(self).low_time, time),
    {
        if self.trace.len() < crate::TIME_TRACE_SIZE {
            self.trace.push(time);
        } else {
            let sorted = sorted_copy(&self.trace);
            self.fast_time = self.fast_time.saturating_add(sorted[crate::FAST_INDEX]) / 2;
            self.normal_time = self.normal_time.saturating_add(sorted[crate::NORMAL_INDEX]) / 2;
            self.low_time = self.low_time.saturating_add(sorted[crate::LOW_INDEX]) / 2;
            let mut fresh: Vec<u64> = Vec::new();
            fresh.push(time);
            assert(fresh@ =~= seq![time]);
            self.trace = fresh;
        }
        if time <= self.fast_time {
            TimeQuantile::MinToFast
        } else if time <= self.normal_time {
            TimeQuantile::FastToNormal
        } else if time > self.low_time {
            TimeQuantile::UpperToMax
        } else {
            TimeQuantile::NormalToUpper
        }
    }
}

/// The number of blocks asked of a peer at a time after a response of the
/// given kind: two more for a fast one, one more for a normal one, one
/// less for a slow one, two less for the slowest; never fewer than 16 nor
/// more than 128.
pub open spec fn adjusted(task_count: usize, kind: TimeQuantile) -> int {
    let moved = match kind {
        TimeQuantile::MinToFast => task_count + 2,
        TimeQuantile::FastToNormal => task_count + 1,
        TimeQuantile::NormalToUpper => task_count - 1,
        TimeQuantile::UpperToMax => task_count - 2,
    };
    if moved < crate::INIT_BLOCKS_IN_TRANSIT_PER_PEER {
        crate::INIT_BLOCKS_IN_TRANSIT_PER_PEER as int
    } else if moved > crate::MAX_BLOCKS_IN_TRANSIT_PER_PEER {
        crate::MAX_BLOCKS_IN_TRANSIT_PER_PEER as int
    } else {
        moved
    }
}

/// How many blocks a peer is asked for at a time.
#[derive(Clone, Copy, Debug, PartialEq, Eq, Structural)]
pub struct DownloadScheduler {
    pub peer: PeerIndex,
    pub task_count: usize,
}

impl DownloadScheduler {
    /// The number of blocks lies between 16 and 128.
    pub open spec fn wf(&self) -> bool {
        crate::INIT_BLOCKS_IN_TRANSIT_PER_PEER <= self.task_count
            <= crate::MAX_BLOCKS_IN_TRANSIT_PER_PEER
    }

    /// A peer begins with 16 blocks at a time.
    pub fn new(peer: PeerIndex) -> (r: Self)
        ensures
            r.wf(),
            r.peer == peer,
            r.task_count == crate::INIT_BLOCKS_IN_TRANSIT_PER_PEER,
    {
        DownloadScheduler { peer, task_count: crate::INIT_BLOCKS_IN_TRANSIT_PER_PEER }
    }

    /// Adjusts the number of blocks after a response of the given kind.
    pub fn adjust(&mut self, kind: TimeQuantile)
        requires
            old(self).wf(),
        ensures
            final(self).wf(),
            final(self).peer == old(self).peer,
            final(self).task_count == adjusted(old(self).task_count, kind),
    {
        let moved: usize = match kind {
            TimeQuantile::MinToFast => self.task_count + 2,
            TimeQuantile::FastToNormal => self.task_count + 1,
            TimeQuantile::NormalToUpper => self.task_count - 1,
            TimeQuantile::UpperToMax => self.task_count - 2,
        };
        self.task_count = if moved < crate::INIT_BLOCKS_IN_TRANSIT_PER_PEER {
            crate::INIT_BLOCKS_IN_TRANSIT_PER_PEER
        } else if moved > crate::MAX_BLOCKS_IN_TRANSIT_PER_PEER {
            crate::MAX_BLOCKS_IN_TRANSIT_PER_PEER
        } else {
            moved
        };
    }
}

/// A block asked of a peer.
#[derive(Clone, Copy, Debug, PartialEq, Eq)]
pub struct InflightEntry {
    pub hash: Byte32,
    pub peer: PeerIndex,
    /// When the block was asked for, in milliseconds.
    pub timestamp: u64,
}

/// The hashes of the blocks in flight.
pub open spec fn inflight_keys(entries: Seq<InflightEntry>) -> Seq<Seq<u8>> {
    Seq::new(entries.len(), |i: int| entries[i].hash@)
}

/// The number of blocks among the first `n` in flight that were asked of
/// `peer`.
pub open spec fn peer_load(entries: Seq<InflightEntry>, peer: PeerIndex, n: int) -> int
    decreases n,
{
    if n <= 0 {
        0
    } else {
        peer_load(entries, peer, n - 1) + (if entries[n - 1].peer == peer {
            1int
        } else {
            0int
        })
    }
}

/// Whether a request made at `timestamp` has timed out at `now`: more than
/// thirty seconds have passed.
pub open spec fn timed_out(timestamp: u64, now: u64) -> bool {
    now - timestamp > crate::BLOCK_DOWNLOAD_TIMEOUT
}

/// The entries among the first `n` that have not timed out, in order.
pub open spec fn alive(entries: Seq<InflightEntry>, now: u64, n: int) -> Seq<InflightEntry>
    decreases n,
{
    if n <= 0 {
        Seq::<InflightEntry>::empty()
    } else if timed_out(entries[n - 1].timestamp, now) {
        alive(entries, now, n - 1)
    } else {
        alive(entries, now, n - 1).push(entries[n - 1])
    }
}

/// The entries among the first `n` that have timed out, in order.
pub open spec fn expired(entries: Seq<InflightEntry>, now: u64, n: int) -> Seq<InflightEntry>
    decreases n,
{
    if n <= 0 {
        Seq::<InflightEntry>::empty()
    } else if timed_out(entries[n - 1].timestamp, now) {
        expired(entries, now, n - 1).push(entries[n - 1])
    } else {
        expired(entries, now, n - 1)
    }
}

/// The blocks in flight.
#[derive(Debug)]
pub struct InflightBlocks {
    pub entries: Vec<InflightEntry>,
}

impl InflightBlocks {
    /// A record with no block in flight.
    pub fn new() -> (r: Self)
        ensures
            r.entries@.len() == 0,
    {
        InflightBlocks { entries: Vec::new() }
    }

    /// The place of the block with hash `hash`.
    pub fn find(&self, hash: &Byte32) -> (r: Option<usize>)
        ensures
            r.is_none() <==> position(inflight_keys(self.entries@), hash@) == -1,
            r.is_some() ==> r.unwrap() as int == position(inflight_keys(self.entries@), hash@)
                && r.unwrap() < self.entries@.len(),
    {
        let mut i: usize = 0;
        while i < self.entries.len()
            invariant
                0 <= i <= self.entries.len(),
                forall|j: int| 0 <= j < i ==> inflight_keys(self.entries@)[j] != hash@,
            decreases self.entries.len() - i,
        {
            if self.entries[i].hash.same(hash) {
                proof {
                    lemma_position_is(inflight_keys(self.entries@), hash@, i as int);
                }
                return Some(i);
            }
            i += 1;
        }
        proof {
            lemma_position_none(inflight_keys(self.entries@), hash@);
        }
        None
    }

    /// The number of blocks asked of `peer`.
    pub fn peer_inflight_count(&self, peer: PeerIndex) -> (r: usize)
        ensures
            r == peer_load(self.entries@, peer, self.entries@.len() as int),
    {
        let mut count: usize = 0;
        let mut i: usize = 0;
        while i < self.entries.len()
            invariant
                0 <= i <= self.entries.len(),
                count == peer_load(self.entries@, peer, i as int),
                count <= i,
            decreases self.entries.len() - i,
        {
            if self.entries[i].peer == peer {
                count += 1;
            }
            i += 1;
        }
        count
    }

    /// Whether a block may be asked of a peer: it is not in flight
    /// already, fewer blocks are in flight than the download window holds,
    /// and the peer has fewer than its number of blocks in flight.
    pub open spec fn spec_can_insert(&self, scheduler: DownloadScheduler, hash: Seq<u8>) -> bool {
        &&& position(inflight_keys(self.entries@), hash) < 0
        &&& self.entries@.len() < crate::BLOCK_DOWNLOAD_WINDOW
        &&& peer_load(self.entries@, scheduler.peer, self.entries@.len() as int)
            < scheduler.task_count
    }

    /// Registers that the block with hash `hash` is asked of the peer of
    /// `scheduler` at `now`; tells whether it was registered.
    pub fn insert(&mut self, scheduler: &DownloadScheduler, hash: Byte32, now: u64) -> (r: bool)
        ensures
            r == old(self).spec_can_insert(*scheduler, hash@),
            r ==> final(self).entries@ == old(self).entries@.push(
                InflightEntry { hash, peer: scheduler.peer, timestamp: now },
            ),
            !r ==> final(self).entries@ == old(self).entries@,
    {
        if self.find(&hash).is_some() {
            return false;
        }
        if self.entries.len() as u64 >= crate::BLOCK_DOWNLOAD_WINDOW {
            return false;
        }
        if self.peer_inflight_count(scheduler.peer) >= scheduler.task_count {
            return false;
        }
        self.entries.push(InflightEntry { hash, peer: scheduler.peer, timestamp: now });
        true
    }

    /// Takes the block with hash `hash` out on its arrival, and returns
    /// the peer that was asked and how long the block took.
    pub fn remove_by_block(&mut self, hash: &Byte32, now: u64) -> (r: Option<(PeerIndex, u64)>)
        ensures
            position(inflight_keys(old(self).entries@), hash@) < 0 ==> r.is_none() && final(self).entries@ == old(self).entries@,
            position(inflight_keys(old(self).entries@), hash@) >= 0 ==> {
                let p = position(inflight_keys(old(self).entries@), hash@);
                let entry = old(self).entries@[p];
                &&& final(self).entries@ == old(self).entries@.remove(p)
                &&& r == Some(
                    (
                        entry.peer,
                        if now >= entry.timestamp {
                            (now - entry.timestamp) as u64
                        } else {
                            0u64
                        },
                    ),
                )
            },
    {
        match self.find(hash) {
            Some(p) => {
                let entry = self.entries.remove(p);
                Some((entry.peer, now.saturating_sub(entry.timestamp)))
            },
            None => None,
        }
    }

    /// Takes out the requests that have timed out at `now` and returns
    /// them: their blocks may be asked for again, and their peers are to
    /// be scored.
    pub fn prune(&mut self, now: u64) -> (r: Vec<InflightEntry>)
        ensures
            final(self).entries@ == alive(old(self).entries@, now, old(self).entries@.len() as int),
            r@ == expired(old(self).entries@, now, old(self).entries@.len() as int),
    {
        let mut kept: Vec<InflightEntry> = Vec::new();
        let mut gone: Vec<InflightEntry> = Vec::new();
        let mut i: usize = 0;
        while i < self.entries.len()
            invariant
                0 <= i <= self.entries.len(),
                self.entries@ == old(self).entries@,
                kept@ == alive(self.entries@, now, i as int),
                gone@ == expired(self.entries@, now, i as int),
            decreases self.entries.len() - i,
        {
            let entry = self.entries[i];
            if now >= entry.timestamp && now - entry.timestamp > crate::BLOCK_DOWNLOAD_TIMEOUT {
                gone.push(entry);
            } else {
                kept.push(entry);
            }
            i += 1;
        }
        self.entries = kept;
        gone
    }
}

} // verus!
