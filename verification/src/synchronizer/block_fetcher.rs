//! The choice of the blocks to ask of a peer: those on the chain of the
//! best header known of the peer, above the local tip and within the
//! download window.

use vstd::prelude::*;
use crate::median_time::find_any_header;
use crate::median_time::lookup_header;
use crate::primitives::Byte32;
use crate::primitives::position;
use crate::store::ChainStore;
use crate::synchronizer::inflight::DownloadScheduler;
use crate::synchronizer::inflight::InflightBlocks;
use crate::synchronizer::inflight::inflight_keys;
use crate::synchronizer::inflight::peer_load;
use crate::types::BlockNumber;
use crate::types::Header;

verus! {

/// The headers from the one with hash `hash` back to, not including,
/// height `floor`, the lowest first; `None` where a header on the way is
/// not to be found or the numbers do not descend one by one.
pub open spec fn chain_above(
    headers: Seq<Header>,
    store: ChainStore,
    hash: Seq<u8>,
    number: BlockNumber,
    floor: BlockNumber,
) -> Option<Seq<Header>>
    decreases number,
{
    if number <= floor {
        Some(Seq::<Header>::empty())
    } else {
        match lookup_header(headers, store, hash) {
            None => None,
            Some(h) => if h.number != number {
                None
            } else {
                match chain_above(headers, store, h.parent_hash@, (number - 1) as u64, floor) {
                    None => None,
                    Some(below) => Some(below.push(h)),
                }
            },
        }
    }
}

/// The highest block that may be asked for when the tip is at `tip`: the
/// best block known of the peer, or the end of the download window where
/// that comes first.
pub open spec fn fetch_end(tip: BlockNumber, best_known: BlockNumber) -> BlockNumber {
    if best_known - tip > crate::BLOCK_DOWNLOAD_WINDOW {
        (tip + crate::BLOCK_DOWNLOAD_WINDOW) as u64
    } else {
        best_known
    }
}

/// Whether a block is to be asked for: it is neither stored nor in
/// flight.
pub open spec fn wanted(store: ChainStore, inflight: Seq<Seq<u8>>, header: Header) -> bool {
    store.spec_block(header.hash@).is_none() && position(inflight, header.hash@) < 0
}

/// The hashes of the first `limit` wanted blocks among the first `n` of
/// `chain`, in the order of the chain.
pub open spec fn chosen(
    store: ChainStore,
    inflight: Seq<Seq<u8>>,
    chain: Seq<Header>,
    limit: int,
    n: int,
) -> Seq<Byte32>
    decreases n,
{
    if n <= 0 {
        Seq::<Byte32>::empty()
    } else {
        let before = chosen(store, inflight, chain, limit, n - 1);
        if before.len() < limit && wanted(store, inflight, chain[n - 1]) {
            before.push(chain[n - 1].hash)
        } else {
            before
        }
    }
}

/// Whether `run` is a run of headers that are found under their hashes,
/// each the child of the one before, the first with the number `floor + 1`.
pub open spec fn is_run(headers: Seq<Header>, store: ChainStore, run: Seq<Header>, floor: int) -> bool {
    &&& forall|i: int|
        0 <= i < run.len() ==> lookup_header(headers, store, (#[trigger] run[i]).hash@) == Some(
            run[i],
        )
    &&& forall|i: int| 0 <= i < run.len() ==> (#[trigger] run[i]).number == floor + 1 + i
    &&& forall|i: int| 0 < i < run.len() ==> (#[trigger] run[i]).parent_hash@ == run[i - 1].hash@
}

/// The chain above `floor` that ends in the last header of a run is the
/// run.
pub proof fn lemma_chain_of_run(
    headers: Seq<Header>,
    store: ChainStore,
    run: Seq<Header>,
    floor: BlockNumber,
)
    requires
        run.len() > 0,
        is_run(headers, store, run, floor as int),
    ensures
        chain_above(headers, store, run.last().hash@, run.last().number, floor) == Some(run),
    decreases run.len(),
{
    let last = run.last();
    assert(lookup_header(headers, store, last.hash@) == Some(last));
    assert(last.number == floor + run.len());
    if run.len() == 1 {
        assert(chain_above(headers, store, last.parent_hash@, floor, floor) == Some(
            Seq::<Header>::empty(),
        ));
        assert(Seq::<Header>::empty().push(last) =~= run);
    } else {
        let below = run.drop_last();
        assert forall|i: int| 0 <= i < below.len() implies #[trigger] below[i] == run[i] by {}
        assert(is_run(headers, store, below, floor as int)) by {
            assert forall|i: int| 0 < i < below.len() implies (#[trigger] below[i]).parent_hash@
                == below[i - 1].hash@ by {
                assert(below[i] == run[i]);
                assert(below[i - 1] == run[i - 1]);
            }
        }
        lemma_chain_of_run(headers, store, below, floor);
        assert(last.parent_hash@ == run[run.len() - 2].hash@);
        assert(below.last() == run[run.len() - 2]);
        assert(below.push(last) =~= run);
    }
}

/// Where something may be chosen and the first header of a chain is
/// wanted, that header is the first that is chosen.
pub proof fn lemma_chosen_begins(
    store: ChainStore,
    inflight: Seq<Seq<u8>>,
    chain: Seq<Header>,
    limit: int,
    n: int,
)
    requires
        1 <= n <= chain.len(),
        limit > 0,
        wanted(store, inflight, chain[0]),
    ensures
        chosen(store, inflight, chain, limit, n).len() > 0,
        chosen(store, inflight, chain, limit, n)[0] == chain[0].hash,
    decreases n,
{
    if n > 1 {
        lemma_chosen_begins(store, inflight, chain, limit, n - 1);
    } else {
        assert(chosen(store, inflight, chain, limit, 0).len() == 0);
    }
}

/// Chooses the blocks to ask of a peer.
pub struct BlockFetcher<'a> {
    /// The headers accepted from peers that the store does not hold yet.
    pub headers: &'a Vec<Header>,
    pub store: &'a ChainStore,
    pub inflight: &'a InflightBlocks,
    pub scheduler: &'a DownloadScheduler,
    /// The best header known of the peer.
    pub best_known: Header,
}

impl<'a> BlockFetcher<'a> {
    /// The number of the local tip; zero for an empty chain.
    pub open spec fn spec_tip(&self) -> BlockNumber {
        if self.store.main_chain@.len() > 0 && self.store.main_chain@.len() <= u64::MAX {
            (self.store.main_chain@.len() - 1) as u64
        } else {
            0
        }
    }

    /// How many more blocks the peer may be asked for.
    pub open spec fn spec_can_fetch(&self) -> int {
        let load = peer_load(
            self.inflight.entries@,
            self.scheduler.peer,
            self.inflight.entries@.len() as int,
        );
        let room = if self.scheduler.task_count > load {
            self.scheduler.task_count - load
        } else {
            0
        };
        let window = if crate::BLOCK_DOWNLOAD_WINDOW > self.inflight.entries@.len() {
            crate::BLOCK_DOWNLOAD_WINDOW - self.inflight.entries@.len()
        } else {
            0
        };
        if room < window {
            room
        } else {
            window
        }
    }

    /// The chain of the peer above the local tip, as far as blocks may be
    /// asked for.
    pub open spec fn spec_chain(&self) -> Option<Seq<Header>> {
        if self.best_known.number <= self.spec_tip() {
            Some(Seq::<Header>::empty())
        } else {
            match chain_above(
                self.headers@,
                *self.store,
                self.best_known.hash@,
                self.best_known.number,
                fetch_end(self.spec_tip(), self.best_known.number),
            ) {
                None => None,
                Some(beyond) => chain_above(
                    self.headers@,
                    *self.store,
                    if beyond.len() > 0 {
                        beyond[0].parent_hash@
                    } else {
                        self.best_known.hash@
                    },
                    fetch_end(self.spec_tip(), self.best_known.number),
                    self.spec_tip(),
                ),
            }
        }
    }

    /// Chooses the blocks to ask for: the lowest blocks on the chain of
    /// the peer that lie above the local tip and within the download
    /// window and are neither stored nor in flight, as many as the peer
    /// may still be asked for. Nothing where the chain of the peer cannot
    /// be followed down to the tip.
    pub fn fetch(&self) -> (r: Vec<Byte32>)
        requires
            self.store.main_chain@.len() <= u64::MAX,
        ensures
            match self.spec_chain() {
                None => r@.len() == 0,
                Some(chain) => r@ == chosen(
                    *self.store,
                    inflight_keys(self.inflight.entries@),
                    chain,
                    self.spec_can_fetch(),
                    chain.len() as int,
                ),
            },
            r@.len() <= self.spec_can_fetch(),
    {
        let tip: u64 = if self.store.main_chain.len() > 0 {
            (self.store.main_chain.len() - 1) as u64
        } else {
            0
        };
        let load = self.inflight.peer_inflight_count(self.scheduler.peer);
        let room: usize = if self.scheduler.task_count > load {
            self.scheduler.task_count - load
        } else {
            0
        };
        let window: usize = if (self.inflight.entries.len() as u64) < crate::BLOCK_DOWNLOAD_WINDOW {
            (crate::BLOCK_DOWNLOAD_WINDOW - self.inflight.entries.len() as u64) as usize
        } else {
            0
        };
        let can_fetch: usize = if room < window {
            room
        } else {
            window
        };
        let mut out: Vec<Byte32> = Vec::new();
        if self.best_known.number <= tip {
            return out;
        }
        let end: u64 = if self.best_known.number - tip > crate::BLOCK_DOWNLOAD_WINDOW {
            tip + crate::BLOCK_DOWNLOAD_WINDOW
        } else {
            self.best_known.number
        };
        // Walk down from the best header to the end of the window.
        let mut hash = self.best_known.hash;
        let mut number = self.best_known.number;
        let ghost mut beyond = Seq::<Header>::empty();
        while number > end
            invariant
                end <= number <= self.best_known.number,
                out@.len() == 0,
                tip == self.spec_tip(),
                self.best_known.number > tip,
                end == fetch_end(tip, self.best_known.number),
                chain_above(
                    self.headers@,
                    *self.store,
                    self.best_known.hash@,
                    self.best_known.number,
                    end,
                ) == (match chain_above(self.headers@, *self.store, hash@, number, end) {
                    None => None::<Seq<Header>>,
                    Some(below) => Some(below + beyond),
                }),
                beyond.len() == self.best_known.number - number,
                beyond.len() > 0 ==> beyond[0].parent_hash@ == hash@,
                beyond.len() == 0 ==> hash@ == self.best_known.hash@,
            decreases number,
        {
            match find_any_header(self.headers, self.store, &hash) {
                None => {
                    return out;
                },
                Some(h) => {
                    if h.number != number {
                        return out;
                    }
                    proof {
                        let below = chain_above(
                            self.headers@,
                            *self.store,
                            h.parent_hash@,
                            (number - 1) as u64,
                            end,
                        );
                        if below.is_some() {
                            assert(below.unwrap().push(h) + beyond =~= below.unwrap() + (seq![h]
                                + beyond));
                        }
                        beyond = seq![h] + beyond;
                    }
                    hash = h.parent_hash;
                    number = number - 1;
                },
            }
        }
        proof {
            assert(Seq::<Header>::empty() + beyond =~= beyond);
        }
        // Collect the headers from the end of the window down to the tip.
        let mut reversed: Vec<Header> = Vec::new();
        let ghost start_hash = hash@;
        let ghost mut upper = Seq::<Header>::empty();
        while number > tip
            invariant
                tip <= number <= end,
                out@.len() == 0,
                tip == self.spec_tip(),
                self.best_known.number > tip,
                end == fetch_end(tip, self.best_known.number),
                chain_above(
                    self.headers@,
                    *self.store,
                    self.best_known.hash@,
                    self.best_known.number,
                    end,
                ) == Some(beyond),
                start_hash == (if beyond.len() > 0 {
                    beyond[0].parent_hash@
                } else {
                    self.best_known.hash@
                }),
                chain_above(self.headers@, *self.store, start_hash, end, tip) == (match chain_above(
                    self.headers@,
                    *self.store,
                    hash@,
                    number,
                    tip,
                ) {
                    None => None::<Seq<Header>>,
                    Some(below) => Some(below + upper),
                }),
                upper.len() == end - number,
                reversed@.len() == upper.len(),
                forall|k: int|
                    0 <= k < upper.len() ==> #[trigger] reversed@[k] == upper[upper.len() - 1 - k],
            decreases number,
        {
            match find_any_header(self.headers, self.store, &hash) {
                None => {
                    return out;
                },
                Some(h) => {
                    if h.number != number {
                        return out;
                    }
                    let ghost old_upper = upper;
                    proof {
                        let below = chain_above(
                            self.headers@,
                            *self.store,
                            h.parent_hash@,
                            (number - 1) as u64,
                            tip,
                        );
                        if below.is_some() {
                            assert(below.unwrap().push(h) + upper =~= below.unwrap() + (seq![h]
                                + upper));
                        }
                        upper = seq![h] + upper;
                    }
                    reversed.push(h);
                    proof {
                        assert forall|k: int| 0 <= k < upper.len() implies #[trigger] reversed@[k]
                            == upper[upper.len() - 1 - k] by {
                            if k < old_upper.len() {
                                assert(upper[upper.len() - 1 - k] == old_upper[old_upper.len() - 1
                                    - k]);
                            }
                        }
                    }
                    hash = h.parent_hash;
                    number = number - 1;
                },
            }
        }
        proof {
            assert(Seq::<Header>::empty() + upper =~= upper);
            assert(self.spec_chain() == Some(upper));
        }
        // Choose from the lowest block up.
        let n = reversed.len();
        let mut i: usize = 0;
        while i < n
            invariant
                0 <= i <= n,
                n == reversed@.len(),
                n == upper.len(),
                can_fetch == self.spec_can_fetch(),
                forall|k: int|
                    0 <= k < upper.len() ==> #[trigger] reversed@[k] == upper[upper.len() - 1 - k],
                out@ == chosen(
                    *self.store,
                    inflight_keys(self.inflight.entries@),
                    upper,
                    can_fetch as int,
                    i as int,
                ),
                out@.len() <= can_fetch,
                out@.len() <= i,
            decreases n - i,
        {
            let h = reversed[n - 1 - i];
            assert(h == upper[i as int]);
            if out.len() < can_fetch && self.store.get_block(&h.hash).is_none()
                && self.inflight.find(&h.hash).is_none() {
                out.push(h.hash);
            }
            i += 1;
        }
        out
    }
}

/// A peer that sent a run of headers on top of the local tip is asked for
/// the blocks from the first of them on.
///
/// Let `run` be headers that are found under their hashes, each the child
/// of the one before, the first with the number after the tip and the
/// last the best header known of the peer, no more of them than the
/// download window holds. If the block of the first is neither stored nor
/// in flight and the peer may be asked for a block, then the chain of the
/// peer above the tip is the run, and the first block asked for is the
/// block of the first header.
pub proof fn lemma_fetch_begins_with_the_lowest(fetcher: BlockFetcher, run: Seq<Header>)
    requires
        fetcher.store.main_chain@.len() <= u64::MAX,
        0 < run.len() <= crate::BLOCK_DOWNLOAD_WINDOW,
        is_run(fetcher.headers@, *fetcher.store, run, fetcher.spec_tip() as int),
        run.last() == fetcher.best_known,
        wanted(*fetcher.store, inflight_keys(fetcher.inflight.entries@), run[0]),
        fetcher.spec_can_fetch() > 0,
    ensures
        fetcher.spec_chain() == Some(run),
        chosen(
            *fetcher.store,
            inflight_keys(fetcher.inflight.entries@),
            run,
            fetcher.spec_can_fetch(),
            run.len() as int,
        ).len() > 0,
        chosen(
            *fetcher.store,
            inflight_keys(fetcher.inflight.entries@),
            run,
            fetcher.spec_can_fetch(),
            run.len() as int,
        )[0] == run[0].hash,
{
    let tip = fetcher.spec_tip();
    let best = fetcher.best_known;
    assert(best.number == tip + run.len());
    assert(fetch_end(tip, best.number) == best.number);
    assert(chain_above(
        fetcher.headers@,
        *fetcher.store,
        best.hash@,
        best.number,
        best.number,
    ) == Some(Seq::<Header>::empty()));
    lemma_chain_of_run(fetcher.headers@, *fetcher.store, run, tip);
    lemma_chosen_begins(
        *fetcher.store,
        inflight_keys(fetcher.inflight.entries@),
        run,
        fetcher.spec_can_fetch(),
        run.len() as int,
    );
}

} // verus!
