//! The scenarios by which a network of nodes is tried: what each is
//! called, how many nodes it takes and how they are set up.
//!
//! A scenario here is its description. Driving the nodes is left to the
//! program that runs it.

use vstd::prelude::*;
use crate::building::HASH_TYPE_DATA;
use crate::consensus::DEFAULT_TX_PROPOSAL_WINDOW;
use crate::primitives::Byte32;
use crate::primitives::Capacity;
use crate::since::since_from_absolute_block_number;
use crate::since::since_from_relative_block_number;
use crate::types::BlockNumber;
use crate::types::Script;

verus! {

/// The number of the synchronisation protocol.
pub const PROTOCOL_SYNC: u64 = 100;

/// The number of the relay protocol.
pub const PROTOCOL_RELAY: u64 = 101;

/// A protocol that the driver of a scenario speaks with the nodes.
#[derive(Debug)]
pub struct TestProtocol {
    pub id: u64,
    pub protocol_name: String,
    pub supported_versions: Vec<String>,
}

impl TestProtocol {
    /// The synchronisation protocol, in version 1.
    pub fn sync() -> (r: Self)
        ensures
            r.id == PROTOCOL_SYNC,
            r.protocol_name@ == "syn"@,
            r.supported_versions@.len() == 1,
            r.supported_versions@[0]@ == "1"@,
    {
        let mut versions: Vec<String> = Vec::new();
        versions.push("1".to_string());
        TestProtocol { id: PROTOCOL_SYNC, protocol_name: "syn".to_string(), supported_versions: versions }
    }

    /// The relay protocol, in version 1.
    pub fn relay() -> (r: Self)
        ensures
            r.id == PROTOCOL_RELAY,
            r.protocol_name@ == "rel"@,
            r.supported_versions@.len() == 1,
            r.supported_versions@[0]@ == "1"@,
    {
        let mut versions: Vec<String> = Vec::new();
        versions.push("1".to_string());
        TestProtocol { id: PROTOCOL_RELAY, protocol_name: "rel".to_string(), supported_versions: versions }
    }
}

/// How the nodes of a scenario are set up.
#[derive(Debug)]
pub struct Setup {
    pub num_nodes: usize,
    /// Whether the nodes are connected in a line before the scenario runs.
    pub connect_all: bool,
    pub protocols: Vec<TestProtocol>,
}

impl Default for Setup {
    fn default() -> (r: Self)
        ensures
            r.num_nodes == 1,
            r.connect_all,
            r.protocols@.len() == 0,
    {
        Setup { num_nodes: 1, connect_all: true, protocols: Vec::new() }
    }
}

/// The limits of a transaction pool that a scenario sets.
#[derive(Clone, Copy, Debug, PartialEq, Eq, Structural)]
pub struct PoolLimits {
    pub max_mem_size: u64,
    pub max_cycles: u64,
}

/// The ports of node `n` of a scenario that starts at `start_port`: the
/// port for calls and the port for peers.
pub fn node_ports(start_port: u16, n: u16) -> (r: Option<(u16, u16)>)
    ensures
        start_port + 2 * n + 2 <= u16::MAX ==> r == Some(
            ((start_port + 2 * n + 1) as u16, (start_port + 2 * n + 2) as u16),
        ),
        start_port + 2 * n + 2 > u16::MAX ==> r.is_none(),
{
    let wide: u32 = start_port as u32 + 2 * (n as u32) + 2;
    if wide > u16::MAX as u32 {
        None
    } else {
        Some(((wide - 1) as u16, wide as u16))
    }
}

/// Two nodes index the cells and transactions of a lock hash alike, through a reorganisation too.
#[derive(Clone, Copy, Debug, Default)]
pub struct IndexerBasic;

impl IndexerBasic {
    /// The scenario's name.
    pub fn name(&self) -> (r: &'static str)
        ensures
            r@ == "indexer_basic"@,
    {
        "indexer_basic"
    }

    /// The nodes and protocols the scenario runs with.
    pub fn setup(&self) -> (r: Setup)
        ensures
            r.num_nodes == 2,
            r.connect_all == false,
            r.protocols@.len() == 0,
    {
        Setup { num_nodes: 2, connect_all: false, protocols: Vec::new() }
    }
}

/// The cellbases of the first blocks pay the bootstrap lock, the later ones the miner.
#[derive(Clone, Copy, Debug, Default)]
pub struct BootstrapCellbase;

impl BootstrapCellbase {
    /// The scenario's name.
    pub fn name(&self) -> (r: &'static str)
        ensures
            r@ == "bootstrap_cellbase"@,
    {
        "bootstrap_cellbase"
    }

    /// The nodes and protocols the scenario runs with.
    pub fn setup(&self) -> (r: Setup)
        ensures
            r.num_nodes == 1,
            r.connect_all == true,
            r.protocols@.len() == 0,
    {
        Setup { num_nodes: 1, connect_all: true, protocols: Vec::new() }
    }
}

/// A block template keeps to the size limit asked for.
#[derive(Clone, Copy, Debug, Default)]
pub struct TemplateSizeLimit;

impl TemplateSizeLimit {
    /// The scenario's name.
    pub fn name(&self) -> (r: &'static str)
        ensures
            r@ == "template_size_limit"@,
    {
        "template_size_limit"
    }

    /// The nodes and protocols the scenario runs with.
    pub fn setup(&self) -> (r: Setup)
        ensures
            r.num_nodes == 1,
            r.connect_all == true,
            r.protocols@.len() == 0,
    {
        Setup { num_nodes: 1, connect_all: true, protocols: Vec::new() }
    }
}

/// A node that goes away leaves the peers of the other node.
#[derive(Clone, Copy, Debug, Default)]
pub struct Disconnect;

impl Disconnect {
    /// The scenario's name.
    pub fn name(&self) -> (r: &'static str)
        ensures
            r@ == "disconnect"@,
    {
        "disconnect"
    }

    /// The nodes and protocols the scenario runs with.
    pub fn setup(&self) -> (r: Setup)
        ensures
            r.num_nodes == 2,
            r.connect_all == true,
            r.protocols@.len() == 0,
    {
        Setup { num_nodes: 2, connect_all: true, protocols: Vec::new() }
    }
}

/// Two messages that cannot be decoded get the sender disconnected and banned.
#[derive(Clone, Copy, Debug, Default)]
pub struct MalformedMessage;

impl MalformedMessage {
    /// The scenario's name.
    pub fn name(&self) -> (r: &'static str)
        ensures
            r@ == "malformed_message"@,
    {
        "malformed_message"
    }

    /// The nodes and protocols the scenario runs with.
    pub fn setup(&self) -> (r: Setup)
        ensures
            r.num_nodes == 1,
            r.connect_all == true,
            r.protocols@.len() == 1,
            r.protocols@[0].id == PROTOCOL_SYNC,
    {
        let mut protocols: Vec<TestProtocol> = Vec::new();
        protocols.push(TestProtocol::sync());
        Setup { num_nodes: 1, connect_all: true, protocols }
    }

    /// The two messages sent: four bytes each, neither a message of the
    /// protocol.
    pub fn messages(&self) -> (r: (Vec<u8>, Vec<u8>))
        ensures
            r.0@ == seq![0u8, 0u8, 0u8, 0u8],
            r.1@ == seq![0u8, 1u8, 2u8, 3u8],
    {
        let mut a: Vec<u8> = Vec::new();
        a.push(0);
        a.push(0);
        a.push(0);
        a.push(0);
        let mut b: Vec<u8> = Vec::new();
        b.push(0);
        b.push(1);
        b.push(2);
        b.push(3);
        assert(a@ =~= seq![0u8, 0u8, 0u8, 0u8]);
        assert(b@ =~= seq![0u8, 1u8, 2u8, 3u8]);
        (a, b)
    }
}

/// A block mined by one node reaches the two others.
#[derive(Clone, Copy, Debug, Default)]
pub struct BlockRelayBasic;

impl BlockRelayBasic {
    /// The scenario's name.
    pub fn name(&self) -> (r: &'static str)
        ensures
            r@ == "block_relay_basic"@,
    {
        "block_relay_basic"
    }

    /// The nodes and protocols the scenario runs with.
    pub fn setup(&self) -> (r: Setup)
        ensures
            r.num_nodes == 3,
            r.connect_all == true,
            r.protocols@.len() == 0,
    {
        Setup { num_nodes: 3, connect_all: true, protocols: Vec::new() }
    }
}

/// A node at genesis catches up with a node three blocks ahead.
#[derive(Clone, Copy, Debug, Default)]
pub struct BlockSyncFromOne;

impl BlockSyncFromOne {
    /// The scenario's name.
    pub fn name(&self) -> (r: &'static str)
        ensures
            r@ == "block_sync_from_one"@,
    {
        "block_sync_from_one"
    }

    /// The nodes and protocols the scenario runs with.
    pub fn setup(&self) -> (r: Setup)
        ensures
            r.num_nodes == 2,
            r.connect_all == false,
            r.protocols@.len() == 1,
            r.protocols@[0].id == PROTOCOL_SYNC,
    {
        let mut protocols: Vec<TestProtocol> = Vec::new();
        protocols.push(TestProtocol::sync());
        Setup { num_nodes: 2, connect_all: false, protocols }
    }

    /// The number of blocks that the first node is ahead by.
    pub fn blocks_ahead(&self) -> (r: u64)
        ensures
            r == 3,
    {
        3
    }
}

/// Two nodes on forks of equal length settle on one chain.
#[derive(Clone, Copy, Debug, Default)]
pub struct BlockSyncForks;

impl BlockSyncForks {
    /// The scenario's name.
    pub fn name(&self) -> (r: &'static str)
        ensures
            r@ == "block_sync_forks"@,
    {
        "block_sync_forks"
    }

    /// The nodes and protocols the scenario runs with.
    pub fn setup(&self) -> (r: Setup)
        ensures
            r.num_nodes == 2,
            r.connect_all == false,
            r.protocols@.len() == 1,
            r.protocols@[0].id == PROTOCOL_SYNC,
    {
        let mut protocols: Vec<TestProtocol> = Vec::new();
        protocols.push(TestProtocol::sync());
        Setup { num_nodes: 2, connect_all: false, protocols }
    }

    /// The offsets added to the timestamps of the nine blocks that each
    /// node builds: the forks differ in their first block only.
    pub fn timestamp_offsets(&self, node: usize) -> (r: Vec<u64>)
        requires
            node < 2,
        ensures
            r@.len() == 9,
            r@[0] == (if node == 0 {
                2u64
            } else {
                1u64
            }),
            forall|i: int| 1 <= i < 9 ==> r@[i] == 0,
    {
        let mut offsets: Vec<u64> = Vec::new();
        offsets.push(if node == 0 {
            2
        } else {
            1
        });
        let mut i: usize = 1;
        while i < 9
            invariant
                1 <= i <= 9,
                offsets@.len() == i,
                offsets@[0] == (if node == 0 {
                    2u64
                } else {
                    1u64
                }),
                forall|j: int| 1 <= j < i ==> offsets@[j] == 0,
            decreases 9 - i,
        {
            offsets.push(0);
            i += 1;
        }
        offsets
    }
}

/// A header sent twice is asked for once; after a reconnect it is asked for again.
#[derive(Clone, Copy, Debug, Default)]
pub struct BlockSyncDuplicatedAndReconnect;

impl BlockSyncDuplicatedAndReconnect {
    /// The scenario's name.
    pub fn name(&self) -> (r: &'static str)
        ensures
            r@ == "block_sync_duplicated_and_reconnect"@,
    {
        "block_sync_duplicated_and_reconnect"
    }

    /// The nodes and protocols the scenario runs with.
    pub fn setup(&self) -> (r: Setup)
        ensures
            r.num_nodes == 1,
            r.connect_all == true,
            r.protocols@.len() == 1,
            r.protocols@[0].id == PROTOCOL_SYNC,
    {
        let mut protocols: Vec<TestProtocol> = Vec::new();
        protocols.push(TestProtocol::sync());
        Setup { num_nodes: 1, connect_all: true, protocols }
    }
}

/// Blocks whose parent is missing wait until the parent arrives.
#[derive(Clone, Copy, Debug, Default)]
pub struct BlockSyncOrphanBlocks;

impl BlockSyncOrphanBlocks {
    /// The scenario's name.
    pub fn name(&self) -> (r: &'static str)
        ensures
            r@ == "block_sync_orphan_blocks"@,
    {
        "block_sync_orphan_blocks"
    }

    /// The nodes and protocols the scenario runs with.
    pub fn setup(&self) -> (r: Setup)
        ensures
            r.num_nodes == 2,
            r.connect_all == false,
            r.protocols@.len() == 1,
            r.protocols@[0].id == PROTOCOL_SYNC,
    {
        let mut protocols: Vec<TestProtocol> = Vec::new();
        protocols.push(TestProtocol::sync());
        Setup { num_nodes: 2, connect_all: false, protocols }
    }

    /// The number of blocks whose headers are sent; the body of the first
    /// is held back.
    pub fn blocks(&self) -> (r: usize)
        ensures
            r == 5,
    {
        5
    }
}

/// A node in initial block download keeps to the peers it needs.
#[derive(Clone, Copy, Debug, Default)]
pub struct IBDProcess;

impl IBDProcess {
    /// The scenario's name.
    pub fn name(&self) -> (r: &'static str)
        ensures
            r@ == "ibd_process"@,
    {
        "ibd_process"
    }

    /// The nodes and protocols the scenario runs with.
    pub fn setup(&self) -> (r: Setup)
        ensures
            r.num_nodes == 7,
            r.connect_all == false,
            r.protocols@.len() == 0,
    {
        Setup { num_nodes: 7, connect_all: false, protocols: Vec::new() }
    }

    /// The number of peers that the node ends with.
    pub fn expected_peers(&self) -> (r: usize)
        ensures
            r == 4,
    {
        4
    }
}

/// A locator with more entries than allowed gets the sender disconnected and banned.
#[derive(Clone, Copy, Debug, Default)]
pub struct InvalidLocatorSize;

impl InvalidLocatorSize {
    /// The scenario's name.
    pub fn name(&self) -> (r: &'static str)
        ensures
            r@ == "invalid_locator_size"@,
    {
        "invalid_locator_size"
    }

    /// The nodes and protocols the scenario runs with.
    pub fn setup(&self) -> (r: Setup)
        ensures
            r.num_nodes == 1,
            r.connect_all == true,
            r.protocols@.len() == 1,
            r.protocols@[0].id == PROTOCOL_SYNC,
    {
        let mut protocols: Vec<TestProtocol> = Vec::new();
        protocols.push(TestProtocol::sync());
        Setup { num_nodes: 1, connect_all: true, protocols }
    }

    /// The number of entries in the locator sent: one more than allowed.
    pub fn locator_size(&self) -> (r: usize)
        ensures
            r == crate::MAX_LOCATOR_SIZE + 1,
    {
        crate::MAX_LOCATOR_SIZE + 1
    }
}

/// Nodes that lag behind catch up after they reconnect.
#[derive(Clone, Copy, Debug, Default)]
pub struct SyncTimeout;

impl SyncTimeout {
    /// The scenario's name.
    pub fn name(&self) -> (r: &'static str)
        ensures
            r@ == "sync_timeout"@,
    {
        "sync_timeout"
    }

    /// The nodes and protocols the scenario runs with.
    pub fn setup(&self) -> (r: Setup)
        ensures
            r.num_nodes == 5,
            r.connect_all == false,
            r.protocols@.len() == 0,
    {
        Setup { num_nodes: 5, connect_all: false, protocols: Vec::new() }
    }

    /// The height that all nodes reach: two blocks, then two hundred on
    /// each of two nodes.
    pub fn expected_tip(&self) -> (r: u64)
        ensures
            r == 402,
    {
        2 + 200 + 200
    }
}

/// A cellbase output cannot be spent before it is mature.
#[derive(Clone, Copy, Debug, Default)]
pub struct CellbaseMaturity;

impl CellbaseMaturity {
    /// The scenario's name.
    pub fn name(&self) -> (r: &'static str)
        ensures
            r@ == "cellbase_maturity"@,
    {
        "cellbase_maturity"
    }

    /// The nodes and protocols the scenario runs with.
    pub fn setup(&self) -> (r: Setup)
        ensures
            r.num_nodes == 1,
            r.connect_all == true,
            r.protocols@.len() == 0,
    {
        Setup { num_nodes: 1, connect_all: true, protocols: Vec::new() }
    }

    /// The maturity that the scenario sets for the chain.
    pub fn maturity(&self) -> (r: BlockNumber)
        ensures
            r == 5,
    {
        5
    }

    /// The number of blocks during which the transaction is refused as
    /// immature: the maturity less the near end of the proposal window.
    pub fn immature_blocks(&self) -> (r: BlockNumber)
        ensures
            r == 5 - DEFAULT_TX_PROPOSAL_WINDOW.0,
    {
        5 - DEFAULT_TX_PROPOSAL_WINDOW.0
    }
}

/// Of two transactions that spend the same cell, one is committed.
#[derive(Clone, Copy, Debug, Default)]
pub struct DifferentTxsWithSameInput;

impl DifferentTxsWithSameInput {
    /// The scenario's name.
    pub fn name(&self) -> (r: &'static str)
        ensures
            r@ == "different_txs_with_same_input"@,
    {
        "different_txs_with_same_input"
    }

    /// The nodes and protocols the scenario runs with.
    pub fn setup(&self) -> (r: Setup)
        ensures
            r.num_nodes == 1,
            r.connect_all == true,
            r.protocols@.len() == 0,
    {
        Setup { num_nodes: 1, connect_all: true, protocols: Vec::new() }
    }
}

/// The pool refuses a transaction beyond its size limit.
#[derive(Clone, Copy, Debug, Default)]
pub struct SizeLimit;

impl SizeLimit {
    /// The scenario's name.
    pub fn name(&self) -> (r: &'static str)
        ensures
            r@ == "size_limit"@,
    {
        "size_limit"
    }

    /// The nodes and protocols the scenario runs with.
    pub fn setup(&self) -> (r: Setup)
        ensures
            r.num_nodes == 1,
            r.connect_all == true,
            r.protocols@.len() == 0,
    {
        Setup { num_nodes: 1, connect_all: true, protocols: Vec::new() }
    }

    /// The limits that the scenario sets for the pool.
    pub fn pool_limits(&self) -> (r: PoolLimits)
        ensures
            r.max_mem_size == 930,
            r.max_cycles == 200_000_000_000,
    {
        PoolLimits { max_mem_size: 930, max_cycles: 200_000_000_000 }
    }
}

/// The pool refuses a transaction beyond its cycles limit.
#[derive(Clone, Copy, Debug, Default)]
pub struct CyclesLimit;

impl CyclesLimit {
    /// The scenario's name.
    pub fn name(&self) -> (r: &'static str)
        ensures
            r@ == "cycles_limit"@,
    {
        "cycles_limit"
    }

    /// The nodes and protocols the scenario runs with.
    pub fn setup(&self) -> (r: Setup)
        ensures
            r.num_nodes == 1,
            r.connect_all == true,
            r.protocols@.len() == 0,
    {
        Setup { num_nodes: 1, connect_all: true, protocols: Vec::new() }
    }

    /// The limits that the scenario sets for the pool.
    pub fn pool_limits(&self) -> (r: PoolLimits)
        ensures
            r.max_mem_size == 20_000_000,
            r.max_cycles == 60,
    {
        PoolLimits { max_mem_size: 20_000_000, max_cycles: 60 }
    }
}

/// After a reorganisation the pool drops what the new chain conflicts with.
#[derive(Clone, Copy, Debug, Default)]
pub struct PoolReconcile;

impl PoolReconcile {
    /// The scenario's name.
    pub fn name(&self) -> (r: &'static str)
        ensures
            r@ == "pool_reconcile"@,
    {
        "pool_reconcile"
    }

    /// The nodes and protocols the scenario runs with.
    pub fn setup(&self) -> (r: Setup)
        ensures
            r.num_nodes == 2,
            r.connect_all == false,
            r.protocols@.len() == 0,
    {
        Setup { num_nodes: 2, connect_all: false, protocols: Vec::new() }
    }
}

/// After a reorganisation the pool takes back what the old chain had committed.
#[derive(Clone, Copy, Debug, Default)]
pub struct PoolResurrect;

impl PoolResurrect {
    /// The scenario's name.
    pub fn name(&self) -> (r: &'static str)
        ensures
            r@ == "pool_resurrect"@,
    {
        "pool_resurrect"
    }

    /// The nodes and protocols the scenario runs with.
    pub fn setup(&self) -> (r: Setup)
        ensures
            r.num_nodes == 2,
            r.connect_all == false,
            r.protocols@.len() == 0,
    {
        Setup { num_nodes: 2, connect_all: false, protocols: Vec::new() }
    }
}

/// A transaction is refused until the `since` of its input is satisfied.
#[derive(Clone, Copy, Debug, Default)]
pub struct ValidSince;

impl ValidSince {
    /// The scenario's name.
    pub fn name(&self) -> (r: &'static str)
        ensures
            r@ == "valid_since"@,
    {
        "valid_since"
    }

    /// The nodes and protocols the scenario runs with.
    pub fn setup(&self) -> (r: Setup)
        ensures
            r.num_nodes == 1,
            r.connect_all == true,
            r.protocols@.len() == 0,
    {
        Setup { num_nodes: 1, connect_all: true, protocols: Vec::new() }
    }

    /// The maturity that the scenario sets for the chain: two blocks more
    /// than the near end of the proposal window.
    pub fn cellbase_maturity(&self) -> (r: u64)
        ensures
            r == DEFAULT_TX_PROPOSAL_WINDOW.0 + 2,
    {
        DEFAULT_TX_PROPOSAL_WINDOW.0 + 2
    }

    /// The relative `since` of the first case: five blocks beyond
    /// maturity.
    pub fn relative_since(&self) -> (r: u64)
        ensures
            r == 0x8000_0000_0000_0000 | ((DEFAULT_TX_PROPOSAL_WINDOW.0 + 7) as u64),
    {
        since_from_relative_block_number(self.cellbase_maturity() + 5)
    }

    /// The absolute `since` of the second case, for a chain whose tip is
    /// at `tip_number`: five blocks beyond maturity.
    pub fn absolute_since(&self, tip_number: BlockNumber) -> (r: u64)
        requires
            tip_number <= u64::MAX - DEFAULT_TX_PROPOSAL_WINDOW.0 - 7,
        ensures
            r == tip_number + DEFAULT_TX_PROPOSAL_WINDOW.0 + 7,
    {
        since_from_absolute_block_number(tip_number + self.cellbase_maturity() + 5)
    }
}

/// The least capacity of an output that a reward is split into.
pub const MIN_CAPACITY: u64 = 6_000_000_000;

/// Whether the hash `a` is smaller than the hash `b`, read as numbers with
/// the first byte as the most significant, from byte `i` on.
pub open spec fn precedes(a: Seq<u8>, b: Seq<u8>, i: int) -> bool
    decreases 32 - i,
{
    if i < 0 || i >= 32 {
        false
    } else if a[i] != b[i] {
        a[i] < b[i]
    } else {
        precedes(a, b, i + 1)
    }
}

/// The parameters of a chain with epochs short enough for a scenario to
/// live through 180 of them.
#[derive(Clone, Copy, Debug, PartialEq, Eq, Structural)]
pub struct ShortEpochs {
    /// The length of the first epoch, in blocks.
    pub genesis_epoch_length: u64,
    /// The time that an epoch is meant to take, in seconds.
    pub epoch_duration_target: u64,
    /// Whether the difficulty stays as it is from epoch to epoch.
    pub permanent_difficulty_in_dummy: bool,
}

/// A deposit into the DAO is withdrawn once it is unlocked.
#[derive(Clone, Copy, Debug, Default)]
pub struct WithdrawDAO;

impl WithdrawDAO {
    /// The scenario's name.
    pub fn name(&self) -> (r: &'static str)
        ensures
            r@ == "withdraw_dao"@,
    {
        "withdraw_dao"
    }

    /// The nodes and protocols the scenario runs with.
    pub fn setup(&self) -> (r: Setup)
        ensures
            r.num_nodes == 1,
            r.connect_all == true,
            r.protocols@.len() == 0,
    {
        Setup { num_nodes: 1, connect_all: true, protocols: Vec::new() }
    }

    /// The chain that the scenario runs on: epochs of two blocks and two
    /// seconds, at a difficulty that stays.
    pub fn chain(&self) -> (r: ShortEpochs)
        ensures
            r.genesis_epoch_length == 2,
            r.epoch_duration_target == 2,
            r.permanent_difficulty_in_dummy,
    {
        ShortEpochs {
            genesis_epoch_length: 2,
            epoch_duration_target: 2,
            permanent_difficulty_in_dummy: true,
        }
    }

    /// The number of blocks mined before the deposit: two more than the
    /// far end of the proposal window.
    pub fn warm_up_blocks(&self) -> (r: u64)
        ensures
            r == DEFAULT_TX_PROPOSAL_WINDOW.1 + 2,
    {
        DEFAULT_TX_PROPOSAL_WINDOW.1 + 2
    }
}

/// A withdrawal one epoch before the deposit is unlocked is refused.
#[derive(Clone, Copy, Debug, Default)]
pub struct WithdrawImmatureDAO;

impl WithdrawImmatureDAO {
    /// The scenario's name.
    pub fn name(&self) -> (r: &'static str)
        ensures
            r@ == "withdraw_immature_dao"@,
    {
        "withdraw_immature_dao"
    }

    /// The nodes and protocols the scenario runs with.
    pub fn setup(&self) -> (r: Setup)
        ensures
            r.num_nodes == 1,
            r.connect_all == true,
            r.protocols@.len() == 0,
    {
        Setup { num_nodes: 1, connect_all: true, protocols: Vec::new() }
    }

    /// The chain that the scenario runs on: epochs of two blocks and two
    /// seconds, at a difficulty that stays.
    pub fn chain(&self) -> (r: ShortEpochs)
        ensures
            r.genesis_epoch_length == 2,
            r.epoch_duration_target == 2,
            r.permanent_difficulty_in_dummy,
    {
        ShortEpochs {
            genesis_epoch_length: 2,
            epoch_duration_target: 2,
            permanent_difficulty_in_dummy: true,
        }
    }

    /// The number of blocks mined before the deposit: two more than the
    /// far end of the proposal window.
    pub fn warm_up_blocks(&self) -> (r: u64)
        ensures
            r == DEFAULT_TX_PROPOSAL_WINDOW.1 + 2,
    {
        DEFAULT_TX_PROPOSAL_WINDOW.1 + 2
    }

    /// The words by which the node refuses the withdrawal.
    pub fn refusal(&self) -> (r: &'static str)
        ensures
            r@ == "ValidationFailure(-17)"@,
    {
        "ValidationFailure(-17)"
    }
}

/// What a withdrawal pays is deposited again by the same transaction, and withdrawn later.
#[derive(Clone, Copy, Debug, Default)]
pub struct WithdrawAndDepositDAOWithinSameTx;

impl WithdrawAndDepositDAOWithinSameTx {
    /// The scenario's name.
    pub fn name(&self) -> (r: &'static str)
        ensures
            r@ == "withdraw_and_deposit_dao_within_same_tx"@,
    {
        "withdraw_and_deposit_dao_within_same_tx"
    }

    /// The nodes and protocols the scenario runs with.
    pub fn setup(&self) -> (r: Setup)
        ensures
            r.num_nodes == 1,
            r.connect_all == true,
            r.protocols@.len() == 0,
    {
        Setup { num_nodes: 1, connect_all: true, protocols: Vec::new() }
    }

    /// The chain that the scenario runs on: epochs of two blocks and two
    /// seconds, at a difficulty that stays.
    pub fn chain(&self) -> (r: ShortEpochs)
        ensures
            r.genesis_epoch_length == 2,
            r.epoch_duration_target == 2,
            r.permanent_difficulty_in_dummy,
    {
        ShortEpochs {
            genesis_epoch_length: 2,
            epoch_duration_target: 2,
            permanent_difficulty_in_dummy: true,
        }
    }

    /// The number of blocks mined before the deposit: two more than the
    /// far end of the proposal window.
    pub fn warm_up_blocks(&self) -> (r: u64)
        ensures
            r == DEFAULT_TX_PROPOSAL_WINDOW.1 + 2,
    {
        DEFAULT_TX_PROPOSAL_WINDOW.1 + 2
    }
}

/// A withdrawal that pays out one shannon more than the deposit has earned is refused.
#[derive(Clone, Copy, Debug, Default)]
pub struct WithdrawDAOWithOverflowCapacity;

impl WithdrawDAOWithOverflowCapacity {
    /// The scenario's name.
    pub fn name(&self) -> (r: &'static str)
        ensures
            r@ == "withdraw_dao_with_overflow_capacity"@,
    {
        "withdraw_dao_with_overflow_capacity"
    }

    /// The nodes and protocols the scenario runs with.
    pub fn setup(&self) -> (r: Setup)
        ensures
            r.num_nodes == 1,
            r.connect_all == true,
            r.protocols@.len() == 0,
    {
        Setup { num_nodes: 1, connect_all: true, protocols: Vec::new() }
    }

    /// The chain that the scenario runs on: epochs of two blocks and two
    /// seconds, at a difficulty that stays.
    pub fn chain(&self) -> (r: ShortEpochs)
        ensures
            r.genesis_epoch_length == 2,
            r.epoch_duration_target == 2,
            r.permanent_difficulty_in_dummy,
    {
        ShortEpochs {
            genesis_epoch_length: 2,
            epoch_duration_target: 2,
            permanent_difficulty_in_dummy: true,
        }
    }

    /// The number of blocks mined before the deposit: two more than the
    /// far end of the proposal window.
    pub fn warm_up_blocks(&self) -> (r: u64)
        ensures
            r == DEFAULT_TX_PROPOSAL_WINDOW.1 + 2,
    {
        DEFAULT_TX_PROPOSAL_WINDOW.1 + 2
    }

    /// The words by which the node refuses the withdrawal.
    pub fn refusal(&self) -> (r: &'static str)
        ensures
            r@ == "CapacityOverflow"@,
    {
        "CapacityOverflow"
    }
}

/// The indexer reports the cell that the genesis block issues to a lock.
#[derive(Clone, Copy, Debug, Default)]
pub struct GenesisIssuedCells;

impl GenesisIssuedCells {
    /// The scenario's name.
    pub fn name(&self) -> (r: &'static str)
        ensures
            r@ == "genesis_issued_cells"@,
    {
        "genesis_issued_cells"
    }

    /// The nodes and protocols the scenario runs with.
    pub fn setup(&self) -> (r: Setup)
        ensures
            r.num_nodes == 1,
            r.connect_all == true,
            r.protocols@.len() == 0,
    {
        Setup { num_nodes: 1, connect_all: true, protocols: Vec::new() }
    }

    /// The capacity of the issued cell: that of 5 000 bytes.
    pub fn issued_capacity(&self) -> (r: Capacity)
        ensures
            r.shannons == 500_000_000_000,
    {
        Capacity { shannons: 500_000_000_000 }
    }

    /// The lock of the issued cell: the code with hash `0xa1`, named by the
    /// hash of the code, with the arguments 1 and 2.
    pub fn issued_lock(&self) -> (r: Script)
        ensures
            r.code_hash@ == Seq::new(32, |i: int| if i == 31 { 0xa1u8 } else { 0u8 }),
            r.hash_type == HASH_TYPE_DATA,
            r.args@ == seq![1u8, 2u8],
    {
        let mut bytes = [0u8; 32];
        bytes[31] = 0xa1;
        let code_hash = Byte32::new(bytes);
        assert(code_hash@ =~= Seq::new(32, |i: int| if i == 31 { 0xa1u8 } else { 0u8 }));
        let mut args: Vec<u8> = Vec::new();
        args.push(1);
        args.push(2);
        assert(args@ =~= seq![1u8, 2u8]);
        Script { code_hash, hash_type: HASH_TYPE_DATA, args }
    }

    /// Whether the indexer reports what it should: one live cell and one
    /// transaction.
    pub fn indexed(&self, live_cells: usize, cell_transactions: usize) -> (r: bool)
        ensures
            r == (live_cells == 1 && cell_transactions == 1),
    {
        live_cells == 1 && cell_transactions == 1
    }
}

/// A transaction is proposed by the next block and committed two blocks later; the block template is kept until the tip changes.
#[derive(Clone, Copy, Debug, Default)]
pub struct MiningBasic;

impl MiningBasic {
    /// The scenario's name.
    pub fn name(&self) -> (r: &'static str)
        ensures
            r@ == "mining_basic"@,
    {
        "mining_basic"
    }

    /// The nodes and protocols the scenario runs with.
    pub fn setup(&self) -> (r: Setup)
        ensures
            r.num_nodes == 1,
            r.connect_all == true,
            r.protocols@.len() == 0,
    {
        Setup { num_nodes: 1, connect_all: true, protocols: Vec::new() }
    }

    /// The seconds after which a block template is made anew.
    pub fn block_template_timeout(&self) -> (r: u64)
        ensures
            r == 3,
    {
        3
    }

    /// Whether the block with hash `first` is to be submitted before the
    /// block with hash `second`: the one with the larger hash goes first,
    /// so that the other replaces it as the tip.
    pub fn submits_first(&self, first: &Byte32, second: &Byte32) -> (r: bool)
        ensures
            r == !precedes(first@, second@, 0),
    {
        let mut i: usize = 0;
        while i < 32
            invariant
                0 <= i <= 32,
                first@.len() == 32,
                second@.len() == 32,
                precedes(first@, second@, 0) == precedes(first@, second@, i as int),
            decreases 32 - i,
        {
            if first.bytes[i] != second.bytes[i] {
                return !(first.bytes[i] < second.bytes[i]);
            }
            i += 1;
        }
        true
    }
}

/// A transaction sent to one node reaches the two others.
#[derive(Clone, Copy, Debug, Default)]
pub struct TransactionRelayBasic;

impl TransactionRelayBasic {
    /// The scenario's name.
    pub fn name(&self) -> (r: &'static str)
        ensures
            r@ == "transaction_relay_basic"@,
    {
        "transaction_relay_basic"
    }

    /// The nodes and protocols the scenario runs with.
    pub fn setup(&self) -> (r: Setup)
        ensures
            r.num_nodes == 3,
            r.connect_all == true,
            r.protocols@.len() == 0,
    {
        Setup { num_nodes: 3, connect_all: true, protocols: Vec::new() }
    }
}

/// The outputs of one transaction are spent by as many transactions, and all of them are relayed and mined.
#[derive(Clone, Copy, Debug, Default)]
pub struct TransactionRelayMultiple;

impl TransactionRelayMultiple {
    /// The scenario's name.
    pub fn name(&self) -> (r: &'static str)
        ensures
            r@ == "transaction_relay_multiple"@,
    {
        "transaction_relay_multiple"
    }

    /// The nodes and protocols the scenario runs with.
    pub fn setup(&self) -> (r: Setup)
        ensures
            r.num_nodes == 5,
            r.connect_all == true,
            r.protocols@.len() == 0,
    {
        Setup { num_nodes: 5, connect_all: true, protocols: Vec::new() }
    }

    /// The number of transactions that a cellbase reward is split into:
    /// one for each `MIN_CAPACITY` that it holds.
    pub fn txs_num(&self, reward: Capacity) -> (r: u64)
        ensures
            r == reward.shannons / MIN_CAPACITY,
    {
        reward.shannons / MIN_CAPACITY
    }

    /// The capacity of each output of the split: an equal share of the
    /// reward. `None` where the reward is too small to be split.
    pub fn share(&self, reward: Capacity) -> (r: Option<Capacity>)
        ensures
            reward.shannons < MIN_CAPACITY ==> r.is_none(),
            reward.shannons >= MIN_CAPACITY ==> r == Some(
                Capacity { shannons: reward.shannons / (reward.shannons / MIN_CAPACITY) },
            ),
    {
        let n = self.txs_num(reward);
        if n == 0 {
            None
        } else {
            Some(Capacity { shannons: reward.shannons / n })
        }
    }

    /// The number of transactions that the tip block holds in the end:
    /// those of the split and the cellbase.
    pub fn tip_transactions(&self, reward: Capacity) -> (r: u64)
        ensures
            r == reward.shannons / MIN_CAPACITY + 1,
    {
        self.txs_num(reward) + 1
    }
}

/// An alert reaches every node, is cancelled by a later alert, and stays cancelled.
#[derive(Clone, Copy, Debug, Default)]
pub struct AlertPropagation;

impl AlertPropagation {
    /// The scenario's name.
    pub fn name(&self) -> (r: &'static str)
        ensures
            r@ == "alert_propagation"@,
    {
        "alert_propagation"
    }

    /// The nodes and protocols the scenario runs with.
    pub fn setup(&self) -> (r: Setup)
        ensures
            r.num_nodes == 3,
            r.connect_all == true,
            r.protocols@.len() == 0,
    {
        Setup { num_nodes: 3, connect_all: true, protocols: Vec::new() }
    }

    /// The number of signatures that an alert needs.
    pub fn signatures_threshold(&self) -> (r: usize)
        ensures
            r == 2,
    {
        2
    }

    /// The number of keys that may sign an alert.
    pub fn keys(&self) -> (r: usize)
        ensures
            r == 3,
    {
        3
    }

    /// The identifier of the first alert.
    pub fn alert_id(&self) -> (r: u32)
        ensures
            r == 42,
    {
        42
    }

    /// The identifier of the alert that cancels the first.
    pub fn cancel_id(&self) -> (r: u32)
        ensures
            r == 2,
    {
        2
    }

    /// Until when the alerts are shown, for an alert sent at `now`: 100
    /// seconds later, in milliseconds.
    pub fn notice_until(&self, now: u64) -> (r: u64)
        ensures
            r == if now + 100_000 <= u64::MAX {
                (now + 100_000) as u64
            } else {
                u64::MAX
            },
    {
        now.saturating_add(100_000)
    }

    /// The words of the first alert.
    pub fn warning(&self) -> (r: &'static str)
        ensures
            r@ == "pretend we are in dangerous status"@,
    {
        "pretend we are in dangerous status"
    }

    /// The words of the alert that cancels the first.
    pub fn cancellation(&self) -> (r: &'static str)
        ensures
            r@ == "alert is canceled"@,
    {
        "alert is canceled"
    }
}

} // verus!
