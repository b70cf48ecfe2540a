//! DAO accounting: the DAO field of a block from that of its parent, and
//! the fee of a transaction with the interest of DAO withdrawals.
//!
//! For block `i` with primary issuance `p` and secondary issuance `s`:
//! `ar(i) = ar(i-1) + ar(i-1) * s / C(i-1)`, `C(i) = C(i-1) + p + s` and
//! `U(i) = U(i-1) + occupied by outputs - occupied by spent cells`.
//! Divisions round down and products are taken in 128 bits.

use vstd::prelude::*;
use vstd::bytes::spec_u64_from_le_bytes;
use crate::consensus::Consensus;
use crate::consensus::EpochExt;
use crate::dao_utils::DAO_VERSION;
use crate::dao_utils::dao_ar;
use crate::dao_utils::dao_bytes;
use crate::dao_utils::dao_c;
use crate::dao_utils::dao_u;
use crate::dao_utils::extract_dao_data;
use crate::dao_utils::pack_dao_data;
use crate::dao_utils::read_u64_le;
use crate::error::Error;
use crate::primitives::Byte32;
use crate::primitives::Capacity;
use crate::primitives::CapacityError;
use crate::primitives::mul_div;
use crate::primitives::mul_div_u64;
use crate::primitives::position;
use crate::store::ChainStore;
use crate::tx_verifier::CellMeta;
use crate::tx_verifier::ResolvedTransaction;
use crate::types::Header;
use crate::types::Transaction;

verus! {

/// The capacity occupied by the first `n` outputs of a transaction, each
/// with its data.
pub open spec fn outputs_occupied(tx: Transaction, n: int) -> int
    decreases n,
{
    if n <= 0 {
        0
    } else {
        outputs_occupied(tx, n - 1) + tx.outputs@[n - 1].spec_occupied(
            tx.outputs_data@[n - 1]@.len() as int,
        )
    }
}

/// The number of outputs of a transaction that come with their data.
pub open spec fn paired(tx: Transaction) -> int {
    if tx.outputs@.len() <= tx.outputs_data@.len() {
        tx.outputs@.len() as int
    } else {
        tx.outputs_data@.len() as int
    }
}

/// The capacity occupied by the first `n` cells.
pub open spec fn cells_occupied(cells: Seq<CellMeta>, n: int) -> int
    decreases n,
{
    if n <= 0 {
        0
    } else {
        cells_occupied(cells, n - 1) + cells[n - 1].cell_output.spec_occupied(
            cells[n - 1].data_bytes as int,
        )
    }
}

/// The capacity occupied by the outputs of the first `m` transactions.
pub open spec fn block_added(rtxs: Seq<ResolvedTransaction>, m: int) -> int
    decreases m,
{
    if m <= 0 {
        0
    } else {
        block_added(rtxs, m - 1) + outputs_occupied(
            *rtxs[m - 1].transaction,
            paired(*rtxs[m - 1].transaction),
        )
    }
}

/// The capacity occupied by the cells that the first `m` transactions
/// spend.
pub open spec fn block_freed(rtxs: Seq<ResolvedTransaction>, m: int) -> int
    decreases m,
{
    if m <= 0 {
        0
    } else {
        block_freed(rtxs, m - 1) + cells_occupied(
            rtxs[m - 1].resolved_inputs@,
            rtxs[m - 1].resolved_inputs@.len() as int,
        )
    }
}

proof fn lemma_outputs_occupied_monotone(tx: Transaction, i: int, n: int)
    requires
        0 <= i <= n,
    ensures
        0 <= outputs_occupied(tx, i) <= outputs_occupied(tx, n),
    decreases n,
{
    if n > 0 {
        let o = tx.outputs@[n - 1];
        let d = tx.outputs_data@[n - 1]@.len() as int;
        assert(o.spec_occupied(d) >= 0) by (nonlinear_arith)
            requires
                o.spec_occupied_bytes(d) >= 0,
                o.spec_occupied(d) == o.spec_occupied_bytes(d) * 100_000_000,
        ;
        if i < n {
            lemma_outputs_occupied_monotone(tx, i, n - 1);
        } else {
            lemma_outputs_occupied_monotone(tx, i - 1, n - 1);
        }
    }
}

proof fn lemma_cells_occupied_monotone(cells: Seq<CellMeta>, i: int, n: int)
    requires
        0 <= i <= n,
    ensures
        0 <= cells_occupied(cells, i) <= cells_occupied(cells, n),
    decreases n,
{
    if n > 0 {
        let o = cells[n - 1].cell_output;
        let d = cells[n - 1].data_bytes as int;
        assert(o.spec_occupied(d) >= 0) by (nonlinear_arith)
            requires
                o.spec_occupied_bytes(d) >= 0,
                o.spec_occupied(d) == o.spec_occupied_bytes(d) * 100_000_000,
        ;
        if i < n {
            lemma_cells_occupied_monotone(cells, i, n - 1);
        } else {
            lemma_cells_occupied_monotone(cells, i - 1, n - 1);
        }
    }
}

proof fn lemma_block_sums_monotone(rtxs: Seq<ResolvedTransaction>, i: int, m: int)
    requires
        0 <= i <= m,
    ensures
        0 <= block_added(rtxs, i) <= block_added(rtxs, m),
        0 <= block_freed(rtxs, i) <= block_freed(rtxs, m),
    decreases m,
{
    if m > 0 {
        lemma_outputs_occupied_monotone(
            *rtxs[m - 1].transaction,
            0,
            paired(*rtxs[m - 1].transaction),
        );
        lemma_cells_occupied_monotone(
            rtxs[m - 1].resolved_inputs@,
            0,
            rtxs[m - 1].resolved_inputs@.len() as int,
        );
        if i < m {
            lemma_block_sums_monotone(rtxs, i, m - 1);
        } else {
            lemma_block_sums_monotone(rtxs, i - 1, m - 1);
        }
    }
}

/// The capacity occupied by all outputs of a transaction; `None` where it
/// exceeds 64 bits.
fn tx_added(tx: &Transaction) -> (r: Option<u64>)
    ensures
        outputs_occupied(*tx, paired(*tx)) <= u64::MAX ==> r == Some(
            outputs_occupied(*tx, paired(*tx)) as u64,
        ),
        outputs_occupied(*tx, paired(*tx)) > u64::MAX ==> r.is_none(),
{
    let n: usize = if tx.outputs.len() <= tx.outputs_data.len() {
        tx.outputs.len()
    } else {
        tx.outputs_data.len()
    };
    let mut total: u64 = 0;
    let mut i: usize = 0;
    while i < n
        invariant
            0 <= i <= n,
            n as int == paired(*tx),
            total == outputs_occupied(*tx, i as int),
        decreases n - i,
    {
        proof {
            lemma_outputs_occupied_monotone(*tx, i as int + 1, n as int);
            lemma_outputs_occupied_monotone(*tx, 0, i as int);
        }
        match tx.outputs[i].occupied_capacity(tx.outputs_data[i].len()) {
            Err(_) => {
                return None;
            },
            Ok(c) => {
                if total > u64::MAX - c.shannons {
                    return None;
                }
                total = total + c.shannons;
            },
        }
        i += 1;
    }
    Some(total)
}

/// The capacity occupied by all `cells`; `None` where it exceeds 64 bits.
fn cells_freed(cells: &Vec<CellMeta>) -> (r: Option<u64>)
    ensures
        cells_occupied(cells@, cells@.len() as int) <= u64::MAX ==> r == Some(
            cells_occupied(cells@, cells@.len() as int) as u64,
        ),
        cells_occupied(cells@, cells@.len() as int) > u64::MAX ==> r.is_none(),
{
    let mut total: u64 = 0;
    let mut i: usize = 0;
    while i < cells.len()
        invariant
            0 <= i <= cells.len(),
            total == cells_occupied(cells@, i as int),
        decreases cells.len() - i,
    {
        proof {
            lemma_cells_occupied_monotone(cells@, i as int + 1, cells@.len() as int);
            lemma_cells_occupied_monotone(cells@, 0, i as int);
        }
        match cells[i].cell_output.occupied_with(cells[i].data_bytes) {
            Err(_) => {
                return None;
            },
            Ok(c) => {
                if total > u64::MAX - c.shannons {
                    return None;
                }
                total = total + c.shannons;
            },
        }
        i += 1;
    }
    Some(total)
}

/// The numbers of a DAO field.
#[derive(Clone, Copy, Debug, PartialEq, Eq, Structural)]
pub struct DaoNumbers {
    pub ar: u64,
    pub c: u64,
    pub u: u64,
}

/// The numbers of a block from those of its parent, from the issuances
/// `p` and `s` of the block and from the capacity that its transactions
/// occupy and free; `None` where the parent's issuance is zero or a
/// number does not fit in 64 bits.
pub open spec fn dao_step(
    parent: DaoNumbers,
    p: u64,
    s: u64,
    added: int,
    freed: int,
) -> Option<DaoNumbers> {
    if parent.c == 0 {
        None
    } else {
        let ar = parent.ar + mul_div(parent.ar, s, parent.c);
        let c = parent.c + p + s;
        let u = parent.u + added - freed;
        if ar <= u64::MAX && c <= u64::MAX && parent.u + added <= u64::MAX && u >= 0 {
            Some(DaoNumbers { ar: ar as u64, c: c as u64, u: u as u64 })
        } else {
            None
        }
    }
}

/// Computes DAO fields and fees from the store and the chain's constants.
pub struct DaoCalculator<'a> {
    pub consensus: &'a Consensus,
    pub store: &'a ChainStore,
}

/// The epoch of the block after `parent`: the epoch that the store
/// records as beginning after `parent`, or the epoch of `parent` where it
/// records none.
pub open spec fn epoch_after(store: ChainStore, parent: Header) -> Option<EpochExt> {
    match store.spec_epoch(parent.hash@) {
        None => None,
        Some(e) => match store.spec_next_epoch(parent.hash@) {
            Some(next) => Some(next),
            None => Some(e),
        },
    }
}

/// The accumulated rate in the DAO field of the stored block with hash
/// `hash`.
pub open spec fn spec_header_ar(store: ChainStore, hash: Seq<u8>) -> Result<u64, Error> {
    match store.spec_header(hash) {
        None => Err(Error::Dao(crate::dao_utils::Error::InvalidHeader)),
        Some(h) => if h.dao@[0] != DAO_VERSION {
            Err(Error::Dao(crate::dao_utils::Error::Format))
        } else {
            Ok(dao_ar(h.dao@))
        },
    }
}

/// The header at which input `i` withdraws: the header dependency whose
/// index the first eight bytes of witness `i` give, little-endian.
pub open spec fn spec_withdraw_hash(tx: Transaction, i: int) -> Option<Byte32> {
    if 0 <= i < tx.witnesses@.len() && tx.witnesses@[i]@.len() >= 8 && spec_u64_from_le_bytes(
        tx.witnesses@[i]@.subrange(0, 8),
    ) < tx.header_deps@.len() {
        Some(tx.header_deps@[spec_u64_from_le_bytes(tx.witnesses@[i]@.subrange(0, 8)) as int])
    } else {
        None
    }
}

impl<'a> DaoCalculator<'a> {
    /// A calculator over `store` under `consensus`.
    pub fn new(consensus: &'a Consensus, store: &'a ChainStore) -> (r: Self)
        ensures
            r.consensus == consensus,
            r.store == store,
    {
        DaoCalculator { consensus, store }
    }

    /// The DAO field of the block that holds `rtxs` on top of `parent`.
    ///
    /// `UnknownParent` where the store has no epoch for the parent;
    /// `Dao(Format)` where the parent's field has another version;
    /// `Dao(InvalidHeader)` where the block lies outside its epoch or the
    /// parent's issuance is zero; `Capacity(Overflow)` where a number does
    /// not fit.
    pub open spec fn spec_dao_field(&self, rtxs: Seq<ResolvedTransaction>, parent: Header) -> Result<
        Seq<u8>,
        Error,
    > {
        if parent.dao@[0] != DAO_VERSION {
            Err(Error::Dao(crate::dao_utils::Error::Format))
        } else {
            match epoch_after(*self.store, parent) {
                None => Err(Error::UnknownParent { parent_hash: parent.hash }),
                Some(epoch) => {
                    if !epoch.wf() || parent.number == u64::MAX || !epoch.spec_contains(
                        (parent.number + 1) as u64,
                    ) || dao_c(parent.dao@) == 0 {
                        Err(Error::Dao(crate::dao_utils::Error::InvalidHeader))
                    } else {
                        match dao_step(
                            DaoNumbers {
                                ar: dao_ar(parent.dao@),
                                c: dao_c(parent.dao@),
                                u: dao_u(parent.dao@),
                            },
                            epoch.spec_primary((parent.number + 1) as u64) as u64,
                            epoch.spec_secondary((parent.number + 1) as u64) as u64,
                            block_added(rtxs, rtxs.len() as int),
                            block_freed(rtxs, rtxs.len() as int),
                        ) {
                            None => Err(Error::Capacity(CapacityError::Overflow)),
                            Some(n) => Ok(dao_bytes(n.ar, n.c, n.u)),
                        }
                    }
                },
            }
        }
    }

    /// The DAO field of the block that holds `rtxs` on top of `parent`.
    pub fn dao_field(&self, rtxs: &Vec<ResolvedTransaction>, parent: &Header) -> (r: Result<
        Byte32,
        Error,
    >)
        ensures
            match r {
                Ok(field) => self.spec_dao_field(rtxs@, *parent) == Ok::<Seq<u8>, Error>(field@),
                Err(e) => self.spec_dao_field(rtxs@, *parent) == Err::<Seq<u8>, Error>(e),
            },
    {
        let (parent_ar, parent_c, parent_u) = match extract_dao_data(parent.dao) {
            Ok(v) => v,
            Err(_) => {
                return Err(Error::Dao(crate::dao_utils::Error::Format));
            },
        };
        let parent_epoch = match self.store.get_block_epoch(&parent.hash) {
            Some(e) => e,
            None => {
                return Err(Error::UnknownParent { parent_hash: parent.hash });
            },
        };
        let epoch = match self.store.get_next_epoch(&parent.hash) {
            Some(next) => next,
            None => parent_epoch,
        };
        if epoch.length == 0 || epoch.start_number > u64::MAX - epoch.length || parent.number
            == u64::MAX {
            return Err(Error::Dao(crate::dao_utils::Error::InvalidHeader));
        }
        let number: u64 = parent.number + 1;
        if !epoch.contains(number) || parent_c.shannons == 0 {
            return Err(Error::Dao(crate::dao_utils::Error::InvalidHeader));
        }
        let p = epoch.block_reward(number).shannons;
        let s = epoch.secondary_block_issuance(number).shannons;

        let mut added: u64 = 0;
        let mut freed: u64 = 0;
        let mut fits = true;
        let mut i: usize = 0;
        while fits && i < rtxs.len()
            invariant
                0 <= i <= rtxs.len(),
                fits ==> added == block_added(rtxs@, i as int),
                fits ==> freed == block_freed(rtxs@, i as int),
                !fits ==> block_added(rtxs@, rtxs@.len() as int) > u64::MAX || block_freed(
                    rtxs@,
                    rtxs@.len() as int,
                ) > u64::MAX,
            decreases
                    (if fits {
                        rtxs.len() - i + 1
                    } else {
                        0
                    }),
        {
            proof {
                lemma_block_sums_monotone(rtxs@, i as int + 1, rtxs@.len() as int);
                lemma_block_sums_monotone(rtxs@, 0, i as int);
                lemma_outputs_occupied_monotone(
                    *rtxs@[i as int].transaction,
                    0,
                    paired(*rtxs@[i as int].transaction),
                );
                lemma_cells_occupied_monotone(
                    rtxs@[i as int].resolved_inputs@,
                    0,
                    rtxs@[i as int].resolved_inputs@.len() as int,
                );
            }
            let a = tx_added(rtxs[i].transaction);
            let f = cells_freed(&rtxs[i].resolved_inputs);
            match (a, f) {
                (Some(av), Some(fv)) => {
                    if added > u64::MAX - av || freed > u64::MAX - fv {
                        fits = false;
                    } else {
                        added = added + av;
                        freed = freed + fv;
                        i += 1;
                    }
                },
                _ => {
                    fits = false;
                },
            }
        }
        proof {
            lemma_block_sums_monotone(rtxs@, 0, rtxs@.len() as int);
        }
        if !fits {
            return Err(Error::Capacity(CapacityError::Overflow));
        }
        let interest = match mul_div_u64(parent_ar, s, parent_c.shannons) {
            Some(v) => v,
            None => {
                return Err(Error::Capacity(CapacityError::Overflow));
            },
        };
        if parent_ar > u64::MAX - interest {
            return Err(Error::Capacity(CapacityError::Overflow));
        }
        let ar: u64 = parent_ar + interest;
        if parent_c.shannons > u64::MAX - p {
            return Err(Error::Capacity(CapacityError::Overflow));
        }
        let c1: u64 = parent_c.shannons + p;
        if c1 > u64::MAX - s {
            return Err(Error::Capacity(CapacityError::Overflow));
        }
        let c: u64 = c1 + s;
        if parent_u.shannons > u64::MAX - added {
            return Err(Error::Capacity(CapacityError::Overflow));
        }
        let u1: u64 = parent_u.shannons + added;
        if u1 < freed {
            return Err(Error::Capacity(CapacityError::Overflow));
        }
        let u: u64 = u1 - freed;
        Ok(pack_dao_data(ar, Capacity { shannons: c }, Capacity { shannons: u }))
    }
}

/// A deposit is locked for this many epochs.
pub const LOCK_PERIOD_EPOCHES: u64 = 180;

/// The earliest point at which a deposit made at the packed epoch
/// `deposit_epoch` can be withdrawn: the same place in the epoch that lies
/// 180 epochs later.
pub fn minimal_unlock_point(deposit_epoch: u64) -> (r: crate::consensus::EpochNumberWithFraction)
    ensures
        r.number == crate::consensus::EpochNumberWithFraction::spec_from_full_value(
            deposit_epoch,
        ).number + LOCK_PERIOD_EPOCHES,
        r.index == crate::consensus::EpochNumberWithFraction::spec_from_full_value(
            deposit_epoch,
        ).index,
        r.length == crate::consensus::EpochNumberWithFraction::spec_from_full_value(
            deposit_epoch,
        ).length,
{
    let deposit_point = crate::consensus::EpochNumberWithFraction::from_full_value(deposit_epoch);
    crate::consensus::EpochNumberWithFraction::new(
        deposit_point.number + LOCK_PERIOD_EPOCHES,
        deposit_point.index,
        deposit_point.length,
    )
}

/// The witness of a withdrawal: the place of the withdrawal header among
/// the header dependencies, in eight bytes, little-endian; `None` where
/// the header is not among them.
pub fn withdraw_witness(header_deps: &Vec<Byte32>, withdraw_header_hash: &Byte32) -> (r: Option<
    Vec<u8>,
>)
    ensures
        r.is_some() == (position(crate::primitives::hash_keys(header_deps@), withdraw_header_hash@)
            >= 0),
        r.is_some() ==> r.unwrap()@ == vstd::bytes::spec_u64_to_le_bytes(
            position(crate::primitives::hash_keys(header_deps@), withdraw_header_hash@) as u64,
        ),
{
    match crate::primitives::find_hash(header_deps, withdraw_header_hash) {
        None => None,
        Some(index) => {
            let bytes = crate::dao_utils::write_u64_le(index as u64);
            let mut out: Vec<u8> = Vec::new();
            let mut i: usize = 0;
            while i < 8
                invariant
                    0 <= i <= 8,
                    out@ == bytes@.subrange(0, i as int),
                decreases 8 - i,
            {
                out.push(bytes[i]);
                assert(out@ =~= bytes@.subrange(0, i as int + 1));
                i += 1;
            }
            assert(bytes@.subrange(0, 8) =~= bytes@);
            Some(out)
        },
    }
}

impl<'a> DaoCalculator<'a> {
    /// Whether a cell is a DAO deposit: its type script is the DAO's.
    pub open spec fn spec_is_dao_cell(&self, cell: CellMeta) -> bool {
        match self.consensus.dao_type_hash {
            Some(h) => cell.cell_output.spec_has_type(h@),
            None => false,
        }
    }

    /// What the withdrawal of the deposit behind input `i` pays: the
    /// deposit times the accumulated rate at the withdrawal header, divided
    /// by the rate at the deposit header.
    pub open spec fn spec_maximum_withdraw(&self, rtx: ResolvedTransaction, i: int) -> Result<
        u64,
        Error,
    > {
        let cell = rtx.resolved_inputs@[i];
        match cell.transaction_info {
            None => Err(Error::Dao(crate::dao_utils::Error::InvalidOutPoint)),
            Some(info) => match spec_withdraw_hash(*rtx.transaction, i) {
                None => Err(Error::Dao(crate::dao_utils::Error::InvalidOutPoint)),
                Some(wh) => match spec_header_ar(*self.store, info.block_hash@) {
                    Err(e) => Err(e),
                    Ok(deposit_ar) => match spec_header_ar(*self.store, wh@) {
                        Err(e) => Err(e),
                        Ok(withdraw_ar) => if deposit_ar == 0 {
                            Err(Error::Dao(crate::dao_utils::Error::InvalidHeader))
                        } else if mul_div(
                            cell.cell_output.capacity.shannons,
                            withdraw_ar,
                            deposit_ar,
                        ) > u64::MAX {
                            Err(Error::Capacity(CapacityError::Overflow))
                        } else {
                            Ok(
                                mul_div(
                                    cell.cell_output.capacity.shannons,
                                    withdraw_ar,
                                    deposit_ar,
                                ) as u64,
                            )
                        },
                    },
                },
            },
        }
    }

    /// What input `i` brings: the capacity of the spent cell, or what the
    /// withdrawal pays where the cell is a DAO deposit.
    pub open spec fn spec_input_value(&self, rtx: ResolvedTransaction, i: int) -> Result<
        u64,
        Error,
    > {
        if self.spec_is_dao_cell(rtx.resolved_inputs@[i]) {
            self.spec_maximum_withdraw(rtx, i)
        } else {
            Ok(rtx.resolved_inputs@[i].cell_output.capacity.shannons)
        }
    }

    /// What the first `n` inputs bring together; the first failure among
    /// them otherwise.
    pub open spec fn spec_inputs_value(&self, rtx: ResolvedTransaction, n: int) -> Result<
        u64,
        Error,
    >
        decreases n,
    {
        if n <= 0 {
            Ok(0)
        } else {
            match self.spec_inputs_value(rtx, n - 1) {
                Err(e) => Err(e),
                Ok(total) => match self.spec_input_value(rtx, n - 1) {
                    Err(e) => Err(e),
                    Ok(v) => if total + v > u64::MAX {
                        Err(Error::Capacity(CapacityError::Overflow))
                    } else {
                        Ok((total + v) as u64)
                    },
                },
            }
        }
    }

    /// The fee of a transaction: what its inputs bring, less the capacity
    /// of its outputs; `Capacity(Overflow)` where the outputs exceed the
    /// inputs.
    pub open spec fn spec_transaction_fee(&self, rtx: ResolvedTransaction) -> Result<
        Capacity,
        Error,
    > {
        match self.spec_inputs_value(rtx, rtx.resolved_inputs@.len() as int) {
            Err(e) => Err(e),
            Ok(total) => if rtx.transaction.spec_outputs_capacity() > total {
                Err(Error::Capacity(CapacityError::Overflow))
            } else {
                Ok(Capacity { shannons: (total - rtx.transaction.spec_outputs_capacity()) as u64 })
            },
        }
    }

    fn header_ar(&self, hash: &Byte32) -> (r: Result<u64, Error>)
        ensures
            r == spec_header_ar(*self.store, hash@),
    {
        match self.store.get_block_header(hash) {
            None => Err(Error::Dao(crate::dao_utils::Error::InvalidHeader)),
            Some(h) => match extract_dao_data(h.dao) {
                Err(_) => Err(Error::Dao(crate::dao_utils::Error::Format)),
                Ok((ar, c, u)) => Ok(ar),
            },
        }
    }

    fn withdraw_hash(tx: &Transaction, i: usize) -> (r: Option<Byte32>)
        ensures
            r == spec_withdraw_hash(*tx, i as int),
    {
        if i >= tx.witnesses.len() {
            return None;
        }
        let witness = &tx.witnesses[i];
        if witness.len() < 8 {
            return None;
        }
        let index = read_u64_le(witness.as_slice());
        if index >= tx.header_deps.len() as u64 {
            return None;
        }
        Some(tx.header_deps[index as usize])
    }

    /// What the withdrawal of the deposit behind input `i` pays.
    pub fn maximum_withdraw(&self, rtx: &ResolvedTransaction, i: usize) -> (r: Result<u64, Error>)
        requires
            i < rtx.resolved_inputs@.len(),
        ensures
            r == self.spec_maximum_withdraw(*rtx, i as int),
    {
        let cell = &rtx.resolved_inputs[i];
        let info = match cell.transaction_info {
            None => {
                return Err(Error::Dao(crate::dao_utils::Error::InvalidOutPoint));
            },
            Some(info) => info,
        };
        let wh = match Self::withdraw_hash(rtx.transaction, i) {
            None => {
                return Err(Error::Dao(crate::dao_utils::Error::InvalidOutPoint));
            },
            Some(h) => h,
        };
        let deposit_ar = match self.header_ar(&info.block_hash) {
            Err(e) => {
                return Err(e);
            },
            Ok(v) => v,
        };
        let withdraw_ar = match self.header_ar(&wh) {
            Err(e) => {
                return Err(e);
            },
            Ok(v) => v,
        };
        if deposit_ar == 0 {
            return Err(Error::Dao(crate::dao_utils::Error::InvalidHeader));
        }
        match mul_div_u64(cell.cell_output.capacity.shannons, withdraw_ar, deposit_ar) {
            None => Err(Error::Capacity(CapacityError::Overflow)),
            Some(v) => Ok(v),
        }
    }

    fn is_dao_cell(&self, cell: &CellMeta) -> (r: bool)
        ensures
            r == self.spec_is_dao_cell(*cell),
    {
        match &self.consensus.dao_type_hash {
            Some(h) => cell.cell_output.has_type(h),
            None => false,
        }
    }

    /// The fee of a transaction.
    pub fn transaction_fee(&self, rtx: &ResolvedTransaction) -> (r: Result<Capacity, Error>)
        ensures
            r == self.spec_transaction_fee(*rtx),
    {
        let n = rtx.resolved_inputs.len();
        let mut total: u64 = 0;
        let mut i: usize = 0;
        while i < n
            invariant
                0 <= i <= n,
                n == rtx.resolved_inputs@.len(),
                self.spec_inputs_value(*rtx, i as int) == Ok::<u64, Error>(total),
            decreases n - i,
        {
            let value = if self.is_dao_cell(&rtx.resolved_inputs[i]) {
                self.maximum_withdraw(rtx, i)
            } else {
                Ok(rtx.resolved_inputs[i].cell_output.capacity.shannons)
            };
            match value {
                Err(e) => {
                    proof {
                        self.lemma_inputs_value_fails(*rtx, i as int + 1, n as int);
                    }
                    return Err(e);
                },
                Ok(v) => {
                    if total > u64::MAX - v {
                        proof {
                            self.lemma_inputs_value_fails(*rtx, i as int + 1, n as int);
                        }
                        return Err(Error::Capacity(CapacityError::Overflow));
                    }
                    total = total + v;
                },
            }
            i += 1;
        }
        proof {
            crate::types::lemma_capacity_sum_monotone(
                rtx.transaction.outputs@,
                0,
                rtx.transaction.outputs@.len() as int,
            );
        }
        match rtx.transaction.outputs_capacity() {
            Err(_) => Err(Error::Capacity(CapacityError::Overflow)),
            Ok(outputs) => {
                if outputs.shannons > total {
                    Err(Error::Capacity(CapacityError::Overflow))
                } else {
                    Ok(Capacity { shannons: total - outputs.shannons })
                }
            },
        }
    }

    proof fn lemma_inputs_value_fails(&self, rtx: ResolvedTransaction, i: int, n: int)
        requires
            0 <= i <= n,
            self.spec_inputs_value(rtx, i).is_err(),
        ensures
            self.spec_inputs_value(rtx, n) == self.spec_inputs_value(rtx, i),
        decreases n - i,
    {
        if i < n {
            self.lemma_inputs_value_fails(rtx, i, n - 1);
        }
    }
}

} // verus!
