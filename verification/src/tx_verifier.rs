//! Checks of one transaction against the chain it is to enter: maturity of
//! spent cellbase outputs, the `since` of every input, and the header
//! dependencies.

use vstd::prelude::*;
use crate::consensus::Consensus;
use crate::consensus::EpochNumberWithFraction;
use crate::error::TransactionError;
use crate::median_time::block_median_time;
use crate::median_time::find_any_header;
use crate::median_time::lookup_header;
use crate::median_time::spec_median_time;
use crate::primitives::Byte32;
use crate::primitives::position;
use crate::since::Since;
use crate::since::SinceMetric;
use crate::store::ChainStore;
use crate::store::find_header;
use crate::store::header_keys;
use crate::types::BlockNumber;
use crate::types::CellOutput;
use crate::types::Cycle;
use crate::types::Header;
use crate::types::OutPoint;
use crate::types::Transaction;

verus! {

/// Where on the chain a cell was created.
#[derive(Clone, Copy, Debug, PartialEq, Eq)]
pub struct TransactionInfo {
    pub block_hash: Byte32,
    pub block_number: BlockNumber,
    /// The packed epoch of the block.
    pub block_epoch: u64,
    /// The place of the creating transaction in its block.
    pub index: u32,
}

/// A live cell as an input finds it.
#[derive(Clone, Debug, PartialEq, Eq)]
pub struct CellMeta {
    pub cell_output: CellOutput,
    pub out_point: OutPoint,
    pub transaction_info: Option<TransactionInfo>,
    pub data_bytes: u64,
}

impl CellMeta {
    /// A cell is cellbase-derived when the first transaction of a block
    /// created it.
    pub open spec fn spec_is_cellbase(&self) -> bool {
        match self.transaction_info {
            Some(info) => info.index == 0,
            None => false,
        }
    }

    /// Whether the cell is an output of a cellbase.
    #[verifier::when_used_as_spec(spec_is_cellbase)]
    pub fn is_cellbase(&self) -> (r: bool)
        ensures
            r == self.spec_is_cellbase(),
    {
        match self.transaction_info {
            Some(info) => info.index == 0,
            None => false,
        }
    }
}

/// A transaction with the cell that each input spends.
#[derive(Debug)]
pub struct ResolvedTransaction<'a> {
    pub transaction: &'a Transaction,
    pub resolved_inputs: Vec<CellMeta>,
}

impl<'a> ResolvedTransaction<'a> {
    /// Every input has its cell.
    pub open spec fn wf(&self) -> bool {
        self.resolved_inputs@.len() == self.transaction.inputs@.len()
    }
}

/// Whether a cellbase-derived cell among the first `n` is spent too early:
/// before the chain has grown `maturity` blocks beyond the cell's block.
pub open spec fn immature_cellbase(
    cells: Seq<CellMeta>,
    tip_number: BlockNumber,
    maturity: BlockNumber,
    n: int,
) -> bool {
    exists|i: int|
        0 <= i < n && (#[trigger] cells[i]).spec_is_cellbase() && tip_number
            - cells[i].transaction_info.unwrap().block_number < maturity
}

/// The packed epoch `current` has reached the packed epoch `target`.
pub open spec fn epoch_reached(current: u64, target: u64) -> bool {
    EpochNumberWithFraction::spec_from_full_value(current).spec_reached(
        &EpochNumberWithFraction::spec_from_full_value(target),
    )
}

/// What is wrong with one `since`, if anything.
///
/// A zero `since` asks for nothing. An absolute constraint compares the
/// value with the enclosing block: its number, its epoch, or the median time
/// at its parent in seconds. A relative constraint asks the same of the
/// distance from the block that created the spent cell.
pub open spec fn since_fault(
    since: u64,
    info: Option<TransactionInfo>,
    block_number: BlockNumber,
    epoch: u64,
    median_now: Option<u64>,
    median_cell: Option<u64>,
) -> Option<TransactionError> {
    if since == 0 {
        None
    } else {
        match Since(since).spec_metric() {
            None => Some(TransactionError::InvalidSince),
            Some(metric) => {
                let satisfied = if Since(since).spec_is_absolute() {
                    match metric {
                        SinceMetric::BlockNumber(n) => block_number >= n,
                        SinceMetric::EpochNumber(v) => epoch_reached(epoch, v),
                        SinceMetric::Timestamp(t) => median_now.is_some() && median_now.unwrap()
                            >= t * 1000,
                    }
                } else {
                    match info {
                        None => false,
                        Some(i) => match metric {
                            SinceMetric::BlockNumber(n) => block_number - i.block_number >= n,
                            SinceMetric::EpochNumber(v) => (
                            EpochNumberWithFraction::spec_from_full_value(epoch).number
                                - EpochNumberWithFraction::spec_from_full_value(
                                i.block_epoch,
                            ).number >= EpochNumberWithFraction::spec_from_full_value(v).number),
                            SinceMetric::Timestamp(t) => median_now.is_some()
                                && median_cell.is_some() && median_now.unwrap()
                                - median_cell.unwrap() >= t * 1000,
                        },
                    }
                };
                if satisfied {
                    None
                } else {
                    Some(TransactionError::Immature)
                }
            },
        }
    }
}

/// Where the checks of one transaction look: the headers known beside the
/// store, the store, and the block that the transaction is to enter.
pub struct ContextualTransactionVerifier<'a> {
    pub rtx: &'a ResolvedTransaction<'a>,
    pub pending: &'a Vec<Header>,
    pub store: &'a ChainStore,
    pub block_number: BlockNumber,
    pub epoch: u64,
    pub parent_hash: Byte32,
    pub consensus: &'a Consensus,
}

impl<'a> ContextualTransactionVerifier<'a> {
    /// A verifier of `transaction` for a block numbered `block_number` in the
    /// epoch `epoch_number`.
    pub fn new(
        rtx: &'a ResolvedTransaction<'a>,
        pending: &'a Vec<Header>,
        store: &'a ChainStore,
        block_number: BlockNumber,
        epoch: u64,
        parent_hash: Byte32,
        consensus: &'a Consensus,
    ) -> (r: Self)
        ensures
            r.rtx == rtx,
            r.pending == pending,
            r.store == store,
            r.block_number == block_number,
            r.epoch == epoch,
            r.parent_hash == parent_hash,
            r.consensus == consensus,
    {
        ContextualTransactionVerifier {
            rtx,
            pending,
            store,
            block_number,
            epoch,
            parent_hash,
            consensus,
        }
    }

    /// The median time at the parent of the enclosing block.
    pub open spec fn spec_median_now(&self) -> Option<u64> {
        spec_median_time(
            self.pending@,
            *self.store,
            self.parent_hash@,
            self.consensus.median_time_block_count as nat,
        )
    }

    /// The median time at the parent of the block that created a cell.
    pub open spec fn spec_median_cell(&self, info: Option<TransactionInfo>) -> Option<u64> {
        match info {
            None => None,
            Some(i) => match lookup_header(self.pending@, *self.store, i.block_hash@) {
                None => None,
                Some(h) => spec_median_time(
                    self.pending@,
                    *self.store,
                    h.parent_hash@,
                    self.consensus.median_time_block_count as nat,
                ),
            },
        }
    }

    /// What is wrong with the `since` of input `i`, if anything.
    pub open spec fn spec_input_fault(&self, i: int) -> Option<TransactionError> {
        since_fault(
            self.rtx.transaction.inputs@[i].since,
            self.rtx.resolved_inputs@[i].transaction_info,
            self.block_number,
            self.epoch,
            self.spec_median_now(),
            self.spec_median_cell(self.rtx.resolved_inputs@[i].transaction_info),
        )
    }

    /// The fault of the first of the first `n` inputs that has one.
    pub open spec fn spec_since_fault(&self, n: int) -> Option<TransactionError>
        decreases n,
    {
        if n <= 0 {
            None
        } else {
            match self.spec_since_fault(n - 1) {
                Some(e) => Some(e),
                None => self.spec_input_fault(n - 1),
            }
        }
    }

    /// Whether every header dependency is on the main chain or among the
    /// pending headers.
    pub open spec fn spec_header_deps_known(&self) -> bool {
        forall|i: int|
            0 <= i < self.rtx.transaction.header_deps@.len() ==> self.spec_header_known(
                (#[trigger] self.rtx.transaction.header_deps@[i])@,
            )
    }

    /// Whether the chain holds a header with this hash.
    pub open spec fn spec_header_known(&self, hash: Seq<u8>) -> bool {
        self.store.spec_in_main_chain(hash) || position(header_keys(self.pending@), hash) >= 0
    }

    /// What is wrong with the transaction, if anything: an immature
    /// cellbase input first, then the first unsatisfied `since`, then an
    /// unknown header dependency.
    pub open spec fn spec_fault(&self) -> Option<TransactionError> {
        if immature_cellbase(
            self.rtx.resolved_inputs@,
            self.block_number,
            self.consensus.cellbase_maturity,
            self.rtx.resolved_inputs@.len() as int,
        ) {
            Some(TransactionError::CellbaseImmaturity)
        } else if self.spec_since_fault(self.rtx.transaction.inputs@.len() as int).is_some() {
            self.spec_since_fault(self.rtx.transaction.inputs@.len() as int)
        } else if !self.spec_header_deps_known() {
            Some(TransactionError::InvalidHeaderDep)
        } else {
            None
        }
    }

    fn verify_maturity(&self) -> (r: bool)
        ensures
            r == !immature_cellbase(
                self.rtx.resolved_inputs@,
                self.block_number,
                self.consensus.cellbase_maturity,
                self.rtx.resolved_inputs@.len() as int,
            ),
    {
        let cells = &self.rtx.resolved_inputs;
        let mut i: usize = 0;
        while i < cells.len()
            invariant
                0 <= i <= cells.len(),
                cells == &self.rtx.resolved_inputs,
                !immature_cellbase(
                    cells@,
                    self.block_number,
                    self.consensus.cellbase_maturity,
                    i as int,
                ),
            decreases cells.len() - i,
        {
            match cells[i].transaction_info {
                Some(info) => {
                    if info.index == 0 {
                        let mature = self.block_number >= info.block_number && self.block_number
                            - info.block_number >= self.consensus.cellbase_maturity;
                        if !mature {
                            assert(cells@[i as int].spec_is_cellbase());
                            return false;
                        }
                    }
                },
                None => {},
            }
            i += 1;
        }
        true
    }

    fn median_cell(&self, info: Option<TransactionInfo>) -> (r: Option<u64>)
        ensures
            r == self.spec_median_cell(info),
    {
        match info {
            None => None,
            Some(i) => match find_any_header(self.pending, self.store, &i.block_hash) {
                None => None,
                Some(h) => block_median_time(
                    self.pending,
                    self.store,
                    &h.parent_hash,
                    self.consensus.median_time_block_count,
                ),
            },
        }
    }

    fn verify_input(&self, i: usize) -> (r: Option<TransactionError>)
        requires
            self.rtx.wf(),
            i < self.rtx.transaction.inputs@.len(),
        ensures
            r == self.spec_input_fault(i as int),
    {
        let since = self.rtx.transaction.inputs[i].since;
        let info = self.rtx.resolved_inputs[i].transaction_info;
        if since == 0 {
            return None;
        }
        let s = Since(since);
        let metric = match s.extract_metric() {
            None => {
                return Some(TransactionError::InvalidSince);
            },
            Some(m) => m,
        };
        let satisfied = if s.is_absolute() {
            match metric {
                SinceMetric::BlockNumber(n) => self.block_number >= n,
                SinceMetric::EpochNumber(v) => {
                    let current = EpochNumberWithFraction::from_full_value(self.epoch);
                    let target = EpochNumberWithFraction::from_full_value(v);
                    current.reached(&target)
                },
                SinceMetric::Timestamp(t) => {
                    match block_median_time(
                        self.pending,
                        self.store,
                        &self.parent_hash,
                        self.consensus.median_time_block_count,
                    ) {
                        None => false,
                        Some(now) => (now as u128) >= (t as u128) * 1000,
                    }
                },
            }
        } else {
            match info {
                None => false,
                Some(ti) => match metric {
                    SinceMetric::BlockNumber(n) => self.block_number >= ti.block_number
                        && self.block_number - ti.block_number >= n,
                    SinceMetric::EpochNumber(v) => {
                        let current = EpochNumberWithFraction::from_full_value(self.epoch);
                        let origin = EpochNumberWithFraction::from_full_value(ti.block_epoch);
                        let distance = EpochNumberWithFraction::from_full_value(v);
                        current.number >= origin.number && current.number - origin.number
                            >= distance.number
                    },
                    SinceMetric::Timestamp(t) => {
                        let now = block_median_time(
                            self.pending,
                            self.store,
                            &self.parent_hash,
                            self.consensus.median_time_block_count,
                        );
                        let then = self.median_cell(info);
                        match (now, then) {
                            (Some(a), Some(b)) => a >= b && ((a - b) as u128) >= (t as u128)
                                * 1000,
                            _ => false,
                        }
                    },
                },
            }
        };
        if satisfied {
            None
        } else {
            Some(TransactionError::Immature)
        }
    }

    fn verify_since(&self) -> (r: Option<TransactionError>)
        requires
            self.rtx.wf(),
        ensures
            r == self.spec_since_fault(self.rtx.transaction.inputs@.len() as int),
    {
        let n = self.rtx.transaction.inputs.len();
        let mut i: usize = 0;
        while i < n
            invariant
                0 <= i <= n,
                n == self.rtx.transaction.inputs@.len(),
                self.rtx.wf(),
                self.spec_since_fault(i as int).is_none(),
            decreases n - i,
        {
            match self.verify_input(i) {
                Some(e) => {
                    proof {
                        self.lemma_since_fault_stays(i as int + 1, n as int);
                    }
                    return Some(e);
                },
                None => {},
            }
            i += 1;
        }
        None
    }

    proof fn lemma_since_fault_stays(&self, i: int, n: int)
        requires
            0 <= i <= n,
            self.spec_since_fault(i).is_some(),
        ensures
            self.spec_since_fault(n) == self.spec_since_fault(i),
        decreases n - i,
    {
        if i < n {
            self.lemma_since_fault_stays(i, n - 1);
        }
    }

    fn header_known(&self, hash: &Byte32) -> (r: bool)
        ensures
            r == self.spec_header_known(hash@),
    {
        self.store.get_block_number(hash).is_some() || find_header(self.pending, hash).is_some()
    }

    fn verify_header_deps(&self) -> (r: bool)
        ensures
            r == self.spec_header_deps_known(),
    {
        let deps = &self.rtx.transaction.header_deps;
        let mut i: usize = 0;
        while i < deps.len()
            invariant
                0 <= i <= deps.len(),
                deps == &self.rtx.transaction.header_deps,
                forall|j: int| 0 <= j < i ==> self.spec_header_known((#[trigger] deps@[j])@),
            decreases deps.len() - i,
        {
            if !self.header_known(&deps[i]) {
                return false;
            }
            i += 1;
        }
        true
    }

    /// Runs the checks. Succeeds exactly when nothing is wrong, and
    /// otherwise names the first fault.
    pub fn verify(&self) -> (r: Result<(), TransactionError>)
        requires
            self.rtx.wf(),
        ensures
            r.is_ok() <==> self.spec_fault().is_none(),
            r.is_err() ==> Some(r.unwrap_err()) == self.spec_fault(),
    {
        if !self.verify_maturity() {
            return Err(TransactionError::CellbaseImmaturity);
        }
        match self.verify_since() {
            Some(e) => {
                return Err(e);
            },
            None => {},
        }
        if !self.verify_header_deps() {
            return Err(TransactionError::InvalidHeaderDep);
        }
        Ok(())
    }
}

/// What running the scripts of a transaction gave: the cycles they took,
/// or why they failed.
pub type ScriptOutcome = Result<Cycle, TransactionError>;

} // verus!
