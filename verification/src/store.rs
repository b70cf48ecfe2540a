//! The chain store as verification reads it: the blocks held, the main
//! chain by number, and the index of uncles.

use vstd::prelude::*;
use crate::consensus::EpochExt;
use crate::primitives::Byte32;
use crate::primitives::Capacity;
use crate::primitives::ProposalShortId;
use crate::primitives::find_hash;
use crate::primitives::hash_keys;
use crate::primitives::lemma_position_is;
use crate::primitives::lemma_position_none;
use crate::primitives::position;
use crate::types::BlockNumber;
use crate::types::Header;
use crate::types::Script;
use crate::types::UncleBlock;

verus! {

/// What the store records of a block beside the block itself.
#[derive(Clone, Debug, PartialEq, Eq)]
pub struct BlockExt {
    pub total_difficulty: u128,
    pub total_uncles_count: u64,
    pub txs_fees: Vec<Capacity>,
}

/// A block as the store holds it.
#[derive(Clone, Debug, PartialEq, Eq)]
pub struct StoredBlock {
    pub header: Header,
    pub uncles: Vec<UncleBlock>,
    pub proposals: Vec<ProposalShortId>,
    pub epoch: Option<EpochExt>,
    /// The epoch that begins with the next block, where this block is the
    /// last of its epoch, as the schedule of the chain gives it.
    pub next_epoch: Option<EpochExt>,
    pub ext: Option<BlockExt>,
    /// The lock to which the reward that this block earns is paid.
    pub miner_lock: Script,
}

/// A snapshot of the chain store.
#[derive(Debug)]
pub struct ChainStore {
    /// Every block held, on the main chain or not.
    pub blocks: Vec<StoredBlock>,
    /// The hash of the main-chain block at each number, from genesis on.
    pub main_chain: Vec<Byte32>,
    /// The headers of the uncles that main-chain blocks include.
    pub uncle_headers: Vec<Header>,
}

/// The hashes of stored blocks, in the order in which the store holds them.
pub open spec fn block_keys(blocks: Seq<StoredBlock>) -> Seq<Seq<u8>> {
    Seq::new(blocks.len(), |i: int| blocks[i].header.hash@)
}

/// The hashes of a list of headers.
pub open spec fn header_keys(headers: Seq<Header>) -> Seq<Seq<u8>> {
    Seq::new(headers.len(), |i: int| headers[i].hash@)
}

/// The first header with hash `key` among `headers`.
pub fn find_header(headers: &Vec<Header>, key: &Byte32) -> (r: Option<usize>)
    ensures
        r.is_none() <==> position(header_keys(headers@), key@) == -1,
        r.is_some() ==> r.unwrap() as int == position(header_keys(headers@), key@) && r.unwrap() < headers@.len(),
{
    let mut i: usize = 0;
    while i < headers.len()
        invariant
            0 <= i <= headers.len(),
            forall|j: int| 0 <= j < i ==> header_keys(headers@)[j] != key@,
        decreases headers.len() - i,
    {
        if headers[i].hash.same(key) {
            proof {
                lemma_position_is(header_keys(headers@), key@, i as int);
            }
            return Some(i);
        }
        i += 1;
    }
    proof {
        lemma_position_none(header_keys(headers@), key@);
    }
    None
}

impl ChainStore {
    /// A store that holds nothing.
    pub fn new() -> (r: ChainStore)
        ensures
            r.blocks@.len() == 0,
            r.main_chain@.len() == 0,
            r.uncle_headers@.len() == 0,
    {
        ChainStore { blocks: Vec::new(), main_chain: Vec::new(), uncle_headers: Vec::new() }
    }

    /// The main chain is a chain: the store holds the header of each of
    /// its blocks, with the block's number and the hash of the block below.
    pub open spec fn wf(&self) -> bool {
        &&& self.main_chain@.len() <= u64::MAX
        &&& forall|n: int|
            0 <= n < self.main_chain@.len() ==> self.spec_linked(
                n,
                (#[trigger] self.main_chain@[n])@,
            )
    }

    /// The block with hash `hash` is stored as block `n` on top of the
    /// main-chain block below it.
    pub open spec fn spec_linked(&self, n: int, hash: Seq<u8>) -> bool {
        let h = self.spec_header(hash);
        h.is_some() && h.unwrap().number == n && (n > 0 ==> h.unwrap().parent_hash@
            == self.main_chain@[n - 1]@)
    }

    /// The place of the block with hash `hash` among the stored blocks, or
    /// -1.
    pub open spec fn spec_block_index(&self, hash: Seq<u8>) -> int {
        position(block_keys(self.blocks@), hash)
    }

    /// Where the block with this hash stands among the stored blocks.
    pub fn block_index(&self, hash: &Byte32) -> (r: Option<usize>)
        ensures
            r.is_none() <==> self.spec_block_index(hash@) == -1,
            r.is_some() ==> r.unwrap() as int == self.spec_block_index(hash@) && r.unwrap()
                < self.blocks@.len(),
    {
        let mut i: usize = 0;
        while i < self.blocks.len()
            invariant
                0 <= i <= self.blocks.len(),
                forall|j: int| 0 <= j < i ==> block_keys(self.blocks@)[j] != hash@,
            decreases self.blocks.len() - i,
        {
            if self.blocks[i].header.hash.same(hash) {
                proof {
                    lemma_position_is(block_keys(self.blocks@), hash@, i as int);
                }
                return Some(i);
            }
            i += 1;
        }
        proof {
            lemma_position_none(block_keys(self.blocks@), hash@);
        }
        None
    }

    /// The stored block with hash `hash`.
    pub open spec fn spec_block(&self, hash: Seq<u8>) -> Option<StoredBlock> {
        let i = self.spec_block_index(hash);
        if 0 <= i < self.blocks@.len() {
            Some(self.blocks@[i])
        } else {
            None
        }
    }

    /// The stored block with this hash.
    pub fn get_block(&self, hash: &Byte32) -> (r: Option<&StoredBlock>)
        ensures
            r.is_some() == self.spec_block(hash@).is_some(),
            r.is_some() ==> *r.unwrap() == self.spec_block(hash@).unwrap(),
    {
        match self.block_index(hash) {
            Some(i) => Some(&self.blocks[i]),
            None => None,
        }
    }

    /// The header of the block with hash `hash`.
    pub open spec fn spec_header(&self, hash: Seq<u8>) -> Option<Header> {
        match self.spec_block(hash) {
            Some(b) => Some(b.header),
            None => None,
        }
    }

    /// The header of the stored block with this hash.
    pub fn get_block_header(&self, hash: &Byte32) -> (r: Option<Header>)
        ensures
            r == self.spec_header(hash@),
            r.is_some() ==> r.unwrap().hash@ == hash@,
    {
        proof {
            crate::primitives::lemma_position(block_keys(self.blocks@), hash@);
        }
        match self.get_block(hash) {
            Some(b) => Some(b.header),
            None => None,
        }
    }

    /// The hash of the main-chain block at `number`.
    pub open spec fn spec_hash_at(&self, number: BlockNumber) -> Option<Byte32> {
        if number < self.main_chain@.len() {
            Some(self.main_chain@[number as int])
        } else {
            None
        }
    }

    /// The hash of the main chain's block numbered `number`.
    pub fn get_block_hash(&self, number: BlockNumber) -> (r: Option<Byte32>)
        ensures
            r == self.spec_hash_at(number),
    {
        if number < self.main_chain.len() as u64 {
            Some(self.main_chain[number as usize])
        } else {
            None
        }
    }

    /// The number at which the main chain holds `hash`, if it does.
    pub open spec fn spec_number_of(&self, hash: Seq<u8>) -> Option<BlockNumber> {
        let i = position(hash_keys(self.main_chain@), hash);
        if 0 <= i <= u64::MAX {
            Some(i as u64)
        } else {
            None
        }
    }

    /// Whether the main chain holds `hash`.
    pub open spec fn spec_in_main_chain(&self, hash: Seq<u8>) -> bool {
        position(hash_keys(self.main_chain@), hash) >= 0
    }

    /// The number of the stored block with this hash.
    pub fn get_block_number(&self, hash: &Byte32) -> (r: Option<BlockNumber>)
        ensures
            r == self.spec_number_of(hash@),
            r.is_some() == self.spec_in_main_chain(hash@),
    {
        match find_hash(&self.main_chain, hash) {
            Some(i) => Some(i as u64),
            None => None,
        }
    }

    /// The header under which the uncle index holds `hash`.
    pub open spec fn spec_uncle_header(&self, hash: Seq<u8>) -> Option<Header> {
        let i = position(header_keys(self.uncle_headers@), hash);
        if 0 <= i < self.uncle_headers@.len() {
            Some(self.uncle_headers@[i])
        } else {
            None
        }
    }

    /// The header of the uncle with this hash.
    pub fn get_uncle_header(&self, hash: &Byte32) -> (r: Option<Header>)
        ensures
            r == self.spec_uncle_header(hash@),
    {
        match find_header(&self.uncle_headers, hash) {
            Some(i) => Some(self.uncle_headers[i]),
            None => None,
        }
    }

    /// Whether some main-chain block includes `hash` as an uncle.
    pub open spec fn spec_is_uncle(&self, hash: Seq<u8>) -> bool {
        self.spec_uncle_header(hash).is_some()
    }

    /// Whether a block of the store holds an uncle with this hash.
    pub fn is_uncle(&self, hash: &Byte32) -> (r: bool)
        ensures
            r == self.spec_is_uncle(hash@),
    {
        self.get_uncle_header(hash).is_some()
    }

    /// The epoch recorded for the block with hash `hash`.
    pub open spec fn spec_epoch(&self, hash: Seq<u8>) -> Option<EpochExt> {
        match self.spec_block(hash) {
            Some(b) => b.epoch,
            None => None,
        }
    }

    /// The epoch of the stored block with this hash.
    pub fn get_block_epoch(&self, hash: &Byte32) -> (r: Option<EpochExt>)
        ensures
            r == self.spec_epoch(hash@),
    {
        match self.get_block(hash) {
            Some(b) => b.epoch,
            None => None,
        }
    }

    /// The epoch recorded as beginning after the block with hash `hash`.
    pub open spec fn spec_next_epoch(&self, hash: Seq<u8>) -> Option<EpochExt> {
        match self.spec_block(hash) {
            Some(b) => b.next_epoch,
            None => None,
        }
    }

    /// The epoch that begins after the stored block with this hash, where
    /// the block is the last of its epoch.
    pub fn get_next_epoch(&self, hash: &Byte32) -> (r: Option<EpochExt>)
        ensures
            r == self.spec_next_epoch(hash@),
    {
        match self.get_block(hash) {
            Some(b) => b.next_epoch,
            None => None,
        }
    }

    /// The total difficulty recorded for the block with hash `hash`.
    pub open spec fn spec_total_difficulty(&self, hash: Seq<u8>) -> Option<u128> {
        match self.spec_block(hash) {
            Some(b) => match b.ext {
                Some(e) => Some(e.total_difficulty),
                None => None,
            },
            None => None,
        }
    }

    /// The total difficulty of the chain that ends in the block with this hash.
    pub fn get_total_difficulty(&self, hash: &Byte32) -> (r: Option<u128>)
        ensures
            r == self.spec_total_difficulty(hash@),
    {
        match self.get_block(hash) {
            Some(b) => match &b.ext {
                Some(e) => Some(e.total_difficulty),
                None => None,
            },
            None => None,
        }
    }

    /// The header at the tip of the main chain.
    pub open spec fn spec_tip_header(&self) -> Option<Header> {
        if self.main_chain@.len() > 0 {
            self.spec_header(self.main_chain@[self.main_chain@.len() - 1]@)
        } else {
            None
        }
    }

    /// The header of the main chain's last block.
    pub fn tip_header(&self) -> (r: Option<Header>)
        ensures
            r == self.spec_tip_header(),
    {
        if self.main_chain.len() > 0 {
            self.get_block_header(&self.main_chain[self.main_chain.len() - 1])
        } else {
            None
        }
    }
}

} // verus!
