//! Recomputation of the DAO numbers of a chain from its genesis block, by
//! which the DAO fields of the headers are checked.

use vstd::prelude::*;
use crate::consensus::EpochExt;
use crate::dao::DaoNumbers;
use crate::dao::dao_step;
use crate::dao_utils::DEFAULT_ACCUMULATED_RATE;
use crate::dao_utils::dao_ar;
use crate::dao_utils::dao_bytes;
use crate::dao_utils::dao_c;
use crate::dao_utils::dao_u;
use crate::dao_utils::lemma_pack_then_extract;
use crate::dao_utils::pack_dao_data;
use crate::primitives::Byte32;
use crate::primitives::Capacity;
use crate::primitives::Ratio;
use crate::primitives::mul_div;
use crate::primitives::mul_div_u64;
use crate::tx_verifier::CellMeta;
use crate::tx_verifier::ResolvedTransaction;
use crate::types::BlockNumber;
use crate::types::Transaction;

verus! {

/// What the recomputation reads of a block.
#[derive(Clone, Copy, Debug, PartialEq, Eq)]
pub struct BlockSummary {
    /// The DAO field of the header.
    pub dao: Byte32,
    /// The capacity of the cells that the block creates.
    pub capacity_out: u64,
    /// The capacity of the cells that the block spends.
    pub capacity_in: u64,
    /// The capacity occupied by the cells that the block creates.
    pub occupied_out: u64,
    /// The capacity occupied by the cells that the block spends.
    pub occupied_in: u64,
    /// The interest that the withdrawals of the block pay.
    pub interest: u64,
}

/// The capacity that the output at `index` of a transaction occupies: the
/// share that the chain sets of the capacity of an output whose lock
/// arguments are the Satoshi key hash; the size of the cell otherwise.
pub open spec fn output_occupied(
    tx: Transaction,
    index: int,
    satoshi_pubkey_hash: Seq<u8>,
    ratio: Ratio,
) -> int {
    if tx.outputs@[index].lock.args@ == satoshi_pubkey_hash {
        mul_div(tx.outputs@[index].capacity.shannons, ratio.numer, ratio.denom)
    } else {
        tx.outputs@[index].spec_occupied(tx.outputs_data@[index]@.len() as int)
    }
}

/// The capacity that the output at `index` of a transaction occupies;
/// `None` where it exceeds 64 bits.
pub fn get_output_occupied_capacity(
    tx: &Transaction,
    index: usize,
    satoshi_pubkey_hash: &Vec<u8>,
    ratio: Ratio,
) -> (r: Option<u64>)
    requires
        index < tx.outputs@.len(),
        index < tx.outputs_data@.len(),
        ratio.denom > 0,
    ensures
        output_occupied(*tx, index as int, satoshi_pubkey_hash@, ratio) <= u64::MAX ==> r == Some(
            output_occupied(*tx, index as int, satoshi_pubkey_hash@, ratio) as u64,
        ),
        output_occupied(*tx, index as int, satoshi_pubkey_hash@, ratio) > u64::MAX ==> r.is_none(),
        output_occupied(*tx, index as int, satoshi_pubkey_hash@, ratio) >= 0,
{
    let output = &tx.outputs[index];
    proof {
        let d = tx.outputs_data@[index as int]@.len() as int;
        assert(output.spec_occupied(d) >= 0) by (nonlinear_arith)
            requires
                output.spec_occupied_bytes(d) >= 0,
                output.spec_occupied(d) == output.spec_occupied_bytes(d) * 100_000_000,
        ;
    }
    if crate::primitives::bytes_same(&output.lock.args, satoshi_pubkey_hash) {
        mul_div_u64(output.capacity.shannons, ratio.numer, ratio.denom)
    } else {
        match output.occupied_capacity(tx.outputs_data[index].len()) {
            Ok(c) => Some(c.shannons),
            Err(_) => None,
        }
    }
}

/// The interest that the withdrawal of a deposit pays: the deposit times
/// the rate at withdrawal over the rate at deposit, less the deposit.
pub open spec fn spec_interest(deposit: u64, deposit_ar: u64, withdraw_ar: u64) -> int {
    mul_div(deposit, withdraw_ar, deposit_ar) - deposit
}

/// The interest that the withdrawal of a deposit pays; `None` where it is
/// negative or exceeds 64 bits.
pub fn interest(deposit: u64, deposit_ar: u64, withdraw_ar: u64) -> (r: Option<u64>)
    requires
        deposit_ar > 0,
    ensures
        0 <= spec_interest(deposit, deposit_ar, withdraw_ar) && mul_div(
            deposit,
            withdraw_ar,
            deposit_ar,
        ) <= u64::MAX ==> r == Some(spec_interest(deposit, deposit_ar, withdraw_ar) as u64),
        spec_interest(deposit, deposit_ar, withdraw_ar) < 0 || mul_div(
            deposit,
            withdraw_ar,
            deposit_ar,
        ) > u64::MAX ==> r.is_none(),
{
    match mul_div_u64(deposit, withdraw_ar, deposit_ar) {
        Some(paid) => if paid >= deposit {
            Some(paid - deposit)
        } else {
            None
        },
        None => None,
    }
}

/// The sum of two amounts; `None` where one of them is `None` or the sum
/// exceeds 64 bits.
pub open spec fn opt_add(a: Option<u64>, b: Option<u64>) -> Option<u64> {
    match (a, b) {
        (Some(x), Some(y)) => if x + y > u64::MAX {
            None
        } else {
            Some((x + y) as u64)
        },
        _ => None,
    }
}

fn add_opt(a: Option<u64>, b: Option<u64>) -> (r: Option<u64>)
    ensures
        r == opt_add(a, b),
{
    match (a, b) {
        (Some(x), Some(y)) => if x > u64::MAX - y {
            None
        } else {
            Some(x + y)
        },
        _ => None,
    }
}

/// The capacity that the first `n` outputs of a transaction hold.
pub open spec fn tx_capacity_out(tx: Transaction, n: int) -> Option<u64>
    decreases n,
{
    if n <= 0 {
        Some(0)
    } else {
        opt_add(tx_capacity_out(tx, n - 1), Some(tx.outputs@[n - 1].capacity.shannons))
    }
}

/// The capacity that the outputs of the first `m` transactions hold.
pub open spec fn spec_c_out(rtxs: Seq<ResolvedTransaction>, m: int) -> Option<u64>
    decreases m,
{
    if m <= 0 {
        Some(0)
    } else {
        opt_add(
            spec_c_out(rtxs, m - 1),
            tx_capacity_out(
                *rtxs[m - 1].transaction,
                rtxs[m - 1].transaction.outputs@.len() as int,
            ),
        )
    }
}

/// The capacity that the first `n` cells hold.
pub open spec fn cells_capacity(cells: Seq<CellMeta>, n: int) -> Option<u64>
    decreases n,
{
    if n <= 0 {
        Some(0)
    } else {
        opt_add(cells_capacity(cells, n - 1), Some(cells[n - 1].cell_output.capacity.shannons))
    }
}

/// The capacity that the cells hold which the first `m` transactions
/// spend.
pub open spec fn spec_c_in(rtxs: Seq<ResolvedTransaction>, m: int) -> Option<u64>
    decreases m,
{
    if m <= 0 {
        Some(0)
    } else {
        opt_add(
            spec_c_in(rtxs, m - 1),
            cells_capacity(rtxs[m - 1].resolved_inputs@, rtxs[m - 1].resolved_inputs@.len() as int),
        )
    }
}

/// The number of outputs of a transaction that come with their data.
pub open spec fn with_data(tx: Transaction) -> int {
    if tx.outputs@.len() <= tx.outputs_data@.len() {
        tx.outputs@.len() as int
    } else {
        tx.outputs_data@.len() as int
    }
}

/// The occupied capacity of an output as an amount of 64 bits.
pub open spec fn output_occupied_amount(
    tx: Transaction,
    index: int,
    satoshi_pubkey_hash: Seq<u8>,
    ratio: Ratio,
) -> Option<u64> {
    if output_occupied(tx, index, satoshi_pubkey_hash, ratio) <= u64::MAX {
        Some(output_occupied(tx, index, satoshi_pubkey_hash, ratio) as u64)
    } else {
        None
    }
}

/// The capacity that the first `n` outputs of a transaction occupy.
pub open spec fn tx_occupied_out(
    tx: Transaction,
    satoshi_pubkey_hash: Seq<u8>,
    ratio: Ratio,
    n: int,
) -> Option<u64>
    decreases n,
{
    if n <= 0 {
        Some(0)
    } else {
        opt_add(
            tx_occupied_out(tx, satoshi_pubkey_hash, ratio, n - 1),
            output_occupied_amount(tx, n - 1, satoshi_pubkey_hash, ratio),
        )
    }
}

/// The capacity that the outputs of the first `m` transactions occupy.
pub open spec fn spec_u_out(
    rtxs: Seq<ResolvedTransaction>,
    satoshi_pubkey_hash: Seq<u8>,
    ratio: Ratio,
    m: int,
) -> Option<u64>
    decreases m,
{
    if m <= 0 {
        Some(0)
    } else {
        opt_add(
            spec_u_out(rtxs, satoshi_pubkey_hash, ratio, m - 1),
            tx_occupied_out(
                *rtxs[m - 1].transaction,
                satoshi_pubkey_hash,
                ratio,
                with_data(*rtxs[m - 1].transaction),
            ),
        )
    }
}

/// The capacity that a spent cell occupied, by the rule for outputs.
pub open spec fn cell_occupied(cell: CellMeta, satoshi_pubkey_hash: Seq<u8>, ratio: Ratio) -> Option<
    u64,
> {
    let amount = if cell.cell_output.lock.args@ == satoshi_pubkey_hash {
        mul_div(cell.cell_output.capacity.shannons, ratio.numer, ratio.denom)
    } else {
        cell.cell_output.spec_occupied(cell.data_bytes as int)
    };
    if amount <= u64::MAX {
        Some(amount as u64)
    } else {
        None
    }
}

/// The capacity that the first `n` cells occupied.
pub open spec fn cells_occupied_in(
    cells: Seq<CellMeta>,
    satoshi_pubkey_hash: Seq<u8>,
    ratio: Ratio,
    n: int,
) -> Option<u64>
    decreases n,
{
    if n <= 0 {
        Some(0)
    } else {
        opt_add(
            cells_occupied_in(cells, satoshi_pubkey_hash, ratio, n - 1),
            cell_occupied(cells[n - 1], satoshi_pubkey_hash, ratio),
        )
    }
}

/// The capacity that the cells occupied which the first `m` transactions
/// spend.
pub open spec fn spec_u_in(
    rtxs: Seq<ResolvedTransaction>,
    satoshi_pubkey_hash: Seq<u8>,
    ratio: Ratio,
    m: int,
) -> Option<u64>
    decreases m,
{
    if m <= 0 {
        Some(0)
    } else {
        opt_add(
            spec_u_in(rtxs, satoshi_pubkey_hash, ratio, m - 1),
            cells_occupied_in(
                rtxs[m - 1].resolved_inputs@,
                satoshi_pubkey_hash,
                ratio,
                rtxs[m - 1].resolved_inputs@.len() as int,
            ),
        )
    }
}

/// The capacity that the outputs of a block hold; `None` where it exceeds
/// 64 bits.
#[allow(non_snake_case)]
pub fn C_out(rtxs: &Vec<ResolvedTransaction>) -> (r: Option<u64>)
    ensures
        r == spec_c_out(rtxs@, rtxs@.len() as int),
{
    let mut sum: Option<u64> = Some(0);
    let mut t: usize = 0;
    while t < rtxs.len()
        invariant
            0 <= t <= rtxs.len(),
            sum == spec_c_out(rtxs@, t as int),
        decreases rtxs.len() - t,
    {
        let tx = rtxs[t].transaction;
        let mut part: Option<u64> = Some(0);
        let mut k: usize = 0;
        while k < tx.outputs.len()
            invariant
                0 <= k <= tx.outputs.len(),
                part == tx_capacity_out(*tx, k as int),
            decreases tx.outputs.len() - k,
        {
            part = add_opt(part, Some(tx.outputs[k].capacity.shannons));
            k += 1;
        }
        sum = add_opt(sum, part);
        t += 1;
    }
    sum
}

/// The capacity that the cells hold which a block spends; `None` where it
/// exceeds 64 bits.
#[allow(non_snake_case)]
pub fn C_in(rtxs: &Vec<ResolvedTransaction>) -> (r: Option<u64>)
    ensures
        r == spec_c_in(rtxs@, rtxs@.len() as int),
{
    let mut sum: Option<u64> = Some(0);
    let mut t: usize = 0;
    while t < rtxs.len()
        invariant
            0 <= t <= rtxs.len(),
            sum == spec_c_in(rtxs@, t as int),
        decreases rtxs.len() - t,
    {
        let cells = &rtxs[t].resolved_inputs;
        let mut part: Option<u64> = Some(0);
        let mut k: usize = 0;
        while k < cells.len()
            invariant
                0 <= k <= cells.len(),
                part == cells_capacity(cells@, k as int),
            decreases cells.len() - k,
        {
            part = add_opt(part, Some(cells[k].cell_output.capacity.shannons));
            k += 1;
        }
        sum = add_opt(sum, part);
        t += 1;
    }
    sum
}

/// The capacity that the outputs of a block occupy; `None` where it
/// exceeds 64 bits.
#[allow(non_snake_case)]
pub fn U_out(rtxs: &Vec<ResolvedTransaction>, satoshi_pubkey_hash: &Vec<u8>, ratio: Ratio) -> (r:
    Option<u64>)
    requires
        ratio.denom > 0,
    ensures
        r == spec_u_out(rtxs@, satoshi_pubkey_hash@, ratio, rtxs@.len() as int),
{
    let mut sum: Option<u64> = Some(0);
    let mut t: usize = 0;
    while t < rtxs.len()
        invariant
            0 <= t <= rtxs.len(),
            ratio.denom > 0,
            sum == spec_u_out(rtxs@, satoshi_pubkey_hash@, ratio, t as int),
        decreases rtxs.len() - t,
    {
        let tx = rtxs[t].transaction;
        let n: usize = if tx.outputs.len() <= tx.outputs_data.len() {
            tx.outputs.len()
        } else {
            tx.outputs_data.len()
        };
        let mut part: Option<u64> = Some(0);
        let mut k: usize = 0;
        while k < n
            invariant
                0 <= k <= n,
                n == with_data(*tx),
                ratio.denom > 0,
                part == tx_occupied_out(*tx, satoshi_pubkey_hash@, ratio, k as int),
            decreases n - k,
        {
            part = add_opt(part, get_output_occupied_capacity(tx, k, satoshi_pubkey_hash, ratio));
            k += 1;
        }
        sum = add_opt(sum, part);
        t += 1;
    }
    sum
}

/// The capacity that the cells occupied which a block spends; `None`
/// where it exceeds 64 bits.
#[allow(non_snake_case)]
pub fn U_in(rtxs: &Vec<ResolvedTransaction>, satoshi_pubkey_hash: &Vec<u8>, ratio: Ratio) -> (r:
    Option<u64>)
    requires
        ratio.denom > 0,
    ensures
        r == spec_u_in(rtxs@, satoshi_pubkey_hash@, ratio, rtxs@.len() as int),
{
    let mut sum: Option<u64> = Some(0);
    let mut t: usize = 0;
    while t < rtxs.len()
        invariant
            0 <= t <= rtxs.len(),
            ratio.denom > 0,
            sum == spec_u_in(rtxs@, satoshi_pubkey_hash@, ratio, t as int),
        decreases rtxs.len() - t,
    {
        let cells = &rtxs[t].resolved_inputs;
        let mut part: Option<u64> = Some(0);
        let mut k: usize = 0;
        while k < cells.len()
            invariant
                0 <= k <= cells.len(),
                ratio.denom > 0,
                part == cells_occupied_in(cells@, satoshi_pubkey_hash@, ratio, k as int),
            decreases cells.len() - k,
        {
            let cell = &cells[k];
            let one = if crate::primitives::bytes_same(
                &cell.cell_output.lock.args,
                satoshi_pubkey_hash,
            ) {
                mul_div_u64(cell.cell_output.capacity.shannons, ratio.numer, ratio.denom)
            } else {
                match cell.cell_output.occupied_with(cell.data_bytes) {
                    Ok(c) => Some(c.shannons),
                    Err(_) => None,
                }
            };
            part = add_opt(part, one);
            k += 1;
        }
        sum = add_opt(sum, part);
        t += 1;
    }
    sum
}

/// The numbers of a block: those that its DAO field carries, and the
/// secondary issuance still to be paid.
#[derive(Clone, Copy, Debug, PartialEq, Eq, Structural)]
pub struct DaoState {
    pub ar: u64,
    pub c: u64,
    pub s: u64,
    pub u: u64,
}

/// The first of the first `n` epochs that holds block `i`.
pub open spec fn epoch_of(epochs: Seq<EpochExt>, i: BlockNumber, n: int) -> Option<EpochExt>
    decreases n,
{
    if n <= 0 {
        None
    } else {
        match epoch_of(epochs, i, n - 1) {
            Some(e) => Some(e),
            None => if epochs[n - 1].wf() && epochs[n - 1].spec_contains(i) {
                Some(epochs[n - 1])
            } else {
                None
            },
        }
    }
}

/// The primary issuance of block `i`.
pub open spec fn spec_p(epochs: Seq<EpochExt>, i: BlockNumber) -> Option<u64> {
    match epoch_of(epochs, i, epochs.len() as int) {
        Some(e) => Some(e.spec_primary(i) as u64),
        None => None,
    }
}

/// The secondary issuance of block `i`.
pub open spec fn spec_s(epochs: Seq<EpochExt>, i: BlockNumber) -> Option<u64> {
    match epoch_of(epochs, i, epochs.len() as int) {
        Some(e) => Some(e.spec_secondary(i) as u64),
        None => None,
    }
}

/// The numbers of the genesis block: the accumulated rate of 10^16; as
/// issuance the created less the spent capacity and both issuances of the
/// block; the secondary issuance; the occupied capacity created less that
/// spent. `None` where a number is negative or exceeds 64 bits.
pub open spec fn genesis_state(block: BlockSummary, p: u64, s: u64) -> Option<DaoState> {
    let c = block.capacity_out - block.capacity_in + p + s;
    let u = block.occupied_out - block.occupied_in;
    if block.capacity_out >= block.capacity_in && c <= u64::MAX && u >= 0 {
        Some(DaoState { ar: DEFAULT_ACCUMULATED_RATE, c: c as u64, s: s, u: u as u64 })
    } else {
        None
    }
}

/// The numbers of a block from those of its parent. The numbers of the
/// DAO field follow the rule of the DAO; the secondary issuance to be paid
/// loses the interest paid and gains the issuance of the block, less the
/// share of the issuance that falls to the occupied capacity. `None` where
/// a number is negative or exceeds 64 bits.
pub open spec fn next_state(prev: DaoState, block: BlockSummary, p: u64, s: u64) -> Option<
    DaoState,
> {
    match dao_step(
        DaoNumbers { ar: prev.ar, c: prev.c, u: prev.u },
        p,
        s,
        block.occupied_out as int,
        block.occupied_in as int,
    ) {
        None => None,
        Some(n) => {
            let paid = prev.s - block.interest + s - mul_div(s, prev.u, prev.c);
            if prev.s >= block.interest && prev.s - block.interest + s <= u64::MAX && paid >= 0 {
                Some(DaoState { ar: n.ar, c: n.c, s: paid as u64, u: n.u })
            } else {
                None
            }
        },
    }
}

/// The numbers of block `i`, recomputed from genesis.
pub open spec fn state_at(epochs: Seq<EpochExt>, blocks: Seq<BlockSummary>, i: nat) -> Option<
    DaoState,
>
    decreases i,
{
    if i >= blocks.len() || i > u64::MAX {
        None
    } else {
        match (spec_p(epochs, i as u64), spec_s(epochs, i as u64)) {
            (Some(p), Some(s)) => if i == 0 {
                genesis_state(blocks[0], p, s)
            } else {
                match state_at(epochs, blocks, (i - 1) as nat) {
                    None => None,
                    Some(prev) => next_state(prev, blocks[i as int], p, s),
                }
            },
            _ => None,
        }
    }
}

/// The numbers that the DAO field of block `i` carries, recomputed from
/// genesis. They do not depend on the interest paid.
pub open spec fn numbers_at(epochs: Seq<EpochExt>, blocks: Seq<BlockSummary>, i: nat) -> Option<
    DaoNumbers,
>
    decreases i,
{
    if i >= blocks.len() || i > u64::MAX {
        None
    } else {
        match (spec_p(epochs, i as u64), spec_s(epochs, i as u64)) {
            (Some(p), Some(s)) => if i == 0 {
                match genesis_state(blocks[0], p, s) {
                    Some(st) => Some(DaoNumbers { ar: st.ar, c: st.c, u: st.u }),
                    None => None,
                }
            } else {
                match numbers_at(epochs, blocks, (i - 1) as nat) {
                    None => None,
                    Some(prev) => dao_step(
                        prev,
                        p,
                        s,
                        blocks[i as int].occupied_out as int,
                        blocks[i as int].occupied_in as int,
                    ),
                }
            },
            _ => None,
        }
    }
}

/// Where all numbers of a block can be recomputed, those of its DAO field
/// are the numbers recomputed without regard to interest.
pub proof fn lemma_state_numbers(epochs: Seq<EpochExt>, blocks: Seq<BlockSummary>, i: nat)
    requires
        state_at(epochs, blocks, i).is_some(),
    ensures
        numbers_at(epochs, blocks, i) == Some(
            DaoNumbers {
                ar: state_at(epochs, blocks, i).unwrap().ar,
                c: state_at(epochs, blocks, i).unwrap().c,
                u: state_at(epochs, blocks, i).unwrap().u,
            },
        ),
    decreases i,
{
    if i > 0 {
        lemma_state_numbers(epochs, blocks, (i - 1) as nat);
    }
}

/// The interest that the withdrawal of `cell` pays in block `i`, where the
/// cell is a deposit: the rates are those recomputed for the block of the
/// deposit and for block `i`. Nothing for any other cell. `None` where a
/// rate cannot be recomputed or the interest does not fit.
pub open spec fn cell_interest(
    epochs: Seq<EpochExt>,
    blocks: Seq<BlockSummary>,
    i: nat,
    cell: CellMeta,
    dao_type_hash: Seq<u8>,
) -> Option<u64> {
    if !cell.cell_output.spec_has_type(dao_type_hash) {
        Some(0)
    } else {
        match (cell.transaction_info, numbers_at(epochs, blocks, i)) {
            (Some(info), Some(now)) => match numbers_at(epochs, blocks, info.block_number as nat) {
                Some(then) => {
                    let deposit = cell.cell_output.capacity.shannons;
                    if then.ar == 0 || spec_interest(deposit, then.ar, now.ar) < 0 || mul_div(
                        deposit,
                        now.ar,
                        then.ar,
                    ) > u64::MAX {
                        None
                    } else {
                        Some(spec_interest(deposit, then.ar, now.ar) as u64)
                    }
                },
                None => None,
            },
            _ => None,
        }
    }
}

/// The interest that the first `n` cells pay together.
pub open spec fn cells_interest(
    epochs: Seq<EpochExt>,
    blocks: Seq<BlockSummary>,
    i: nat,
    cells: Seq<CellMeta>,
    dao_type_hash: Seq<u8>,
    n: int,
) -> Option<u64>
    decreases n,
{
    if n <= 0 {
        Some(0)
    } else {
        match (
            cells_interest(epochs, blocks, i, cells, dao_type_hash, n - 1),
            cell_interest(epochs, blocks, i, cells[n - 1], dao_type_hash),
        ) {
            (Some(total), Some(one)) => if total + one > u64::MAX {
                None
            } else {
                Some((total + one) as u64)
            },
            _ => None,
        }
    }
}

/// The interest that the first `m` transactions of block `i` pay together.
pub open spec fn block_interest(
    epochs: Seq<EpochExt>,
    blocks: Seq<BlockSummary>,
    i: nat,
    rtxs: Seq<ResolvedTransaction>,
    dao_type_hash: Seq<u8>,
    m: int,
) -> Option<u64>
    decreases m,
{
    if m <= 0 {
        Some(0)
    } else {
        match (
            block_interest(epochs, blocks, i, rtxs, dao_type_hash, m - 1),
            cells_interest(
                epochs,
                blocks,
                i,
                rtxs[m - 1].resolved_inputs@,
                dao_type_hash,
                rtxs[m - 1].resolved_inputs@.len() as int,
            ),
        ) {
            (Some(total), Some(one)) => if total + one > u64::MAX {
                None
            } else {
                Some((total + one) as u64)
            },
            _ => None,
        }
    }
}

proof fn lemma_cells_interest_fails(
    epochs: Seq<EpochExt>,
    blocks: Seq<BlockSummary>,
    i: nat,
    cells: Seq<CellMeta>,
    dao_type_hash: Seq<u8>,
    k: int,
    n: int,
)
    requires
        0 <= k <= n,
        cells_interest(epochs, blocks, i, cells, dao_type_hash, k).is_none(),
    ensures
        cells_interest(epochs, blocks, i, cells, dao_type_hash, n).is_none(),
    decreases n - k,
{
    if k < n {
        lemma_cells_interest_fails(epochs, blocks, i, cells, dao_type_hash, k, n - 1);
    }
}

proof fn lemma_block_interest_fails(
    epochs: Seq<EpochExt>,
    blocks: Seq<BlockSummary>,
    i: nat,
    rtxs: Seq<ResolvedTransaction>,
    dao_type_hash: Seq<u8>,
    k: int,
    m: int,
)
    requires
        0 <= k <= m,
        block_interest(epochs, blocks, i, rtxs, dao_type_hash, k).is_none(),
    ensures
        block_interest(epochs, blocks, i, rtxs, dao_type_hash, m).is_none(),
    decreases m - k,
{
    if k < m {
        lemma_block_interest_fails(epochs, blocks, i, rtxs, dao_type_hash, k, m - 1);
    }
}

/// Whether the DAO field of block `i` is, byte for byte, the field of the
/// numbers recomputed from genesis.
pub open spec fn field_matches(epochs: Seq<EpochExt>, blocks: Seq<BlockSummary>, i: nat) -> bool {
    match state_at(epochs, blocks, i) {
        Some(st) => blocks[i as int].dao@ == dao_bytes(st.ar, st.c, st.u),
        None => false,
    }
}

/// The summary of the block that follows the chain `blocks`, `dao` being
/// the DAO field of its header and `rtxs` its transactions with the cells
/// they spend: what its outputs hold and occupy, what the spent cells held
/// and occupied, and the interest that its withdrawals pay at the rates
/// recomputed. `None` where one of these does not fit in 64 bits, where a
/// rate cannot be recomputed, or where the chain has no number left for
/// the block.
pub open spec fn summed_up(
    epochs: Seq<EpochExt>,
    blocks: Seq<BlockSummary>,
    dao: Byte32,
    rtxs: Seq<ResolvedTransaction>,
    satoshi_pubkey_hash: Seq<u8>,
    ratio: Ratio,
    dao_type_hash: Seq<u8>,
) -> Option<BlockSummary> {
    match (
        spec_c_out(rtxs, rtxs.len() as int),
        spec_c_in(rtxs, rtxs.len() as int),
        spec_u_out(rtxs, satoshi_pubkey_hash, ratio, rtxs.len() as int),
        spec_u_in(rtxs, satoshi_pubkey_hash, ratio, rtxs.len() as int),
    ) {
        (Some(capacity_out), Some(capacity_in), Some(occupied_out), Some(occupied_in)) => {
            let unpaid = BlockSummary {
                dao: dao,
                capacity_out: capacity_out,
                capacity_in: capacity_in,
                occupied_out: occupied_out,
                occupied_in: occupied_in,
                interest: 0,
            };
            if blocks.len() > u64::MAX {
                None
            } else {
                match block_interest(
                    epochs,
                    blocks.push(unpaid),
                    blocks.len(),
                    rtxs,
                    dao_type_hash,
                    rtxs.len() as int,
                ) {
                    Some(paid) => Some(
                        BlockSummary {
                            dao: dao,
                            capacity_out: capacity_out,
                            capacity_in: capacity_in,
                            occupied_out: occupied_out,
                            occupied_in: occupied_in,
                            interest: paid,
                        },
                    ),
                    None => None,
                }
            }
        },
        _ => None,
    }
}

/// A chain with its epochs, for recomputation.
#[allow(non_snake_case)]
#[derive(Debug)]
pub struct DAOVerifier {
    pub epochs: Vec<EpochExt>,
    pub blocks: Vec<BlockSummary>,
}

impl DAOVerifier {
    /// A verifier of the chain whose blocks are `blocks`, genesis first, with
    /// the epochs `epochs`.
    pub fn new(epochs: Vec<EpochExt>, blocks: Vec<BlockSummary>) -> (r: Self)
        ensures
            r.epochs == epochs,
            r.blocks == blocks,
    {
        DAOVerifier { epochs, blocks }
    }

    /// The accumulated rate of the genesis block.
    pub fn ar0(&self) -> (r: u64)
        ensures
            r == DEFAULT_ACCUMULATED_RATE,
    {
        DEFAULT_ACCUMULATED_RATE
    }

    fn find_epoch(&self, i: BlockNumber) -> (r: Option<EpochExt>)
        ensures
            r == epoch_of(self.epochs@, i, self.epochs@.len() as int),
            r.is_some() ==> r.unwrap().wf() && r.unwrap().spec_contains(i),
    {
        let mut k: usize = 0;
        while k < self.epochs.len()
            invariant
                0 <= k <= self.epochs.len(),
                epoch_of(self.epochs@, i, k as int).is_none(),
            decreases self.epochs.len() - k,
        {
            let e = self.epochs[k];
            if e.length > 0 && e.start_number <= u64::MAX - e.length && e.contains(i) {
                proof {
                    lemma_epoch_found(self.epochs@, i, k as int + 1, self.epochs@.len() as int);
                }
                return Some(e);
            }
            k += 1;
        }
        None
    }

    /// The primary issuance of block `i`; `None` where no epoch holds the
    /// block.
    pub fn p(&self, i: BlockNumber) -> (r: Option<u64>)
        ensures
            r == spec_p(self.epochs@, i),
    {
        match self.find_epoch(i) {
            Some(e) => Some(e.block_reward(i).shannons),
            None => None,
        }
    }

    /// The secondary issuance of block `i`; `None` where no epoch holds
    /// the block.
    pub fn s(&self, i: BlockNumber) -> (r: Option<u64>)
        ensures
            r == spec_s(self.epochs@, i),
    {
        match self.find_epoch(i) {
            Some(e) => Some(e.secondary_block_issuance(i).shannons),
            None => None,
        }
    }

    fn genesis(&self) -> (r: Option<DaoState>)
        ensures
            r == state_at(self.epochs@, self.blocks@, 0),
    {
        if self.blocks.len() == 0 {
            return None;
        }
        let block = self.blocks[0];
        let (p, s) = match (self.p(0), self.s(0)) {
            (Some(p), Some(s)) => (p, s),
            _ => {
                return None;
            },
        };
        if block.capacity_out < block.capacity_in || block.occupied_out < block.occupied_in {
            return None;
        }
        let wide: u128 = (block.capacity_out - block.capacity_in) as u128 + p as u128 + s as u128;
        if wide > u64::MAX as u128 {
            return None;
        }
        Some(
            DaoState {
                ar: DEFAULT_ACCUMULATED_RATE,
                c: wide as u64,
                s,
                u: block.occupied_out - block.occupied_in,
            },
        )
    }

    fn step(prev: DaoState, block: BlockSummary, p: u64, s: u64) -> (r: Option<DaoState>)
        ensures
            r == next_state(prev, block, p, s),
    {
        if prev.c == 0 {
            return None;
        }
        let growth = match mul_div_u64(prev.ar, s, prev.c) {
            Some(v) => v,
            None => {
                return None;
            },
        };
        let share = mul_div_u64(s, prev.u, prev.c);
        if prev.ar > u64::MAX - growth {
            return None;
        }
        let c_wide: u128 = prev.c as u128 + p as u128 + s as u128;
        if c_wide > u64::MAX as u128 {
            return None;
        }
        if prev.u > u64::MAX - block.occupied_out {
            return None;
        }
        let u_gross: u64 = prev.u + block.occupied_out;
        if u_gross < block.occupied_in {
            return None;
        }
        if prev.s < block.interest {
            return None;
        }
        let s_left: u64 = prev.s - block.interest;
        if s_left > u64::MAX - s {
            return None;
        }
        let s_gross: u64 = s_left + s;
        let paid: u64 = match share {
            Some(v) => {
                if s_gross < v {
                    return None;
                }
                s_gross - v
            },
            None => {
                return None;
            },
        };
        Some(
            DaoState {
                ar: prev.ar + growth,
                c: c_wide as u64,
                s: paid,
                u: u_gross - block.occupied_in,
            },
        )
    }

    /// The numbers of block `i`, recomputed from genesis; `None` where the
    /// chain does not reach the block or a number does not fit.
    pub fn state(&self, i: BlockNumber) -> (r: Option<DaoState>)
        ensures
            r == state_at(self.epochs@, self.blocks@, i as nat),
    {
        if i as u128 >= self.blocks.len() as u128 {
            return None;
        }
        let mut current = match self.genesis() {
            Some(st) => st,
            None => {
                proof {
                    lemma_state_fails(self.epochs@, self.blocks@, 0, i as nat);
                }
                return None;
            },
        };
        let target: usize = i as usize;
        let mut k: usize = 0;
        while k < target
            invariant
                0 <= k <= target,
                target == i,
                target < self.blocks@.len(),
                state_at(self.epochs@, self.blocks@, k as nat) == Some(current),
            decreases target - k,
        {
            let n: usize = k + 1;
            let next = match (self.p(n as u64), self.s(n as u64)) {
                (Some(p), Some(s)) => Self::step(current, self.blocks[n], p, s),
                _ => None,
            };
            assert(state_at(self.epochs@, self.blocks@, (n - 1) as nat) == Some(current));
            assert(next == state_at(self.epochs@, self.blocks@, n as nat));
            match next {
                Some(st) => {
                    current = st;
                },
                None => {
                    proof {
                        lemma_state_fails(self.epochs@, self.blocks@, n as nat, i as nat);
                    }
                    return None;
                },
            }
            k = n;
        }
        Some(current)
    }

    /// The numbers that the DAO field of block `i` carries, recomputed
    /// from genesis without regard to interest.
    pub fn numbers(&self, i: BlockNumber) -> (r: Option<DaoNumbers>)
        ensures
            r == numbers_at(self.epochs@, self.blocks@, i as nat),
    {
        if i as u128 >= self.blocks.len() as u128 {
            return None;
        }
        let mut current = match self.genesis() {
            Some(st) => DaoNumbers { ar: st.ar, c: st.c, u: st.u },
            None => {
                proof {
                    lemma_numbers_fail(self.epochs@, self.blocks@, 0, i as nat);
                }
                return None;
            },
        };
        let target: usize = i as usize;
        let mut k: usize = 0;
        while k < target
            invariant
                0 <= k <= target,
                target == i,
                target < self.blocks@.len(),
                numbers_at(self.epochs@, self.blocks@, k as nat) == Some(current),
            decreases target - k,
        {
            let n: usize = k + 1;
            let next = match (self.p(n as u64), self.s(n as u64)) {
                (Some(p), Some(s)) => Self::numbers_step(current, self.blocks[n], p, s),
                _ => None,
            };
            assert(numbers_at(self.epochs@, self.blocks@, (n - 1) as nat) == Some(current));
            assert(next == numbers_at(self.epochs@, self.blocks@, n as nat));
            match next {
                Some(st) => {
                    current = st;
                },
                None => {
                    proof {
                        lemma_numbers_fail(self.epochs@, self.blocks@, n as nat, i as nat);
                    }
                    return None;
                },
            }
            k = n;
        }
        Some(current)
    }

    fn numbers_step(prev: DaoNumbers, block: BlockSummary, p: u64, s: u64) -> (r: Option<DaoNumbers>)
        ensures
            r == dao_step(prev, p, s, block.occupied_out as int, block.occupied_in as int),
    {
        if prev.c == 0 {
            return None;
        }
        let growth = match mul_div_u64(prev.ar, s, prev.c) {
            Some(v) => v,
            None => {
                return None;
            },
        };
        if prev.ar > u64::MAX - growth {
            return None;
        }
        let c_wide: u128 = prev.c as u128 + p as u128 + s as u128;
        if c_wide > u64::MAX as u128 {
            return None;
        }
        if prev.u > u64::MAX - block.occupied_out {
            return None;
        }
        let u_gross: u64 = prev.u + block.occupied_out;
        if u_gross < block.occupied_in {
            return None;
        }
        Some(DaoNumbers { ar: prev.ar + growth, c: c_wide as u64, u: u_gross - block.occupied_in })
    }

    /// The interest that the withdrawals of block `i` pay, `rtxs` being
    /// the transactions of the block with the cells they spend.
    #[allow(non_snake_case)]
    pub fn I(&self, i: BlockNumber, rtxs: &Vec<ResolvedTransaction>, dao_type_hash: &Byte32) -> (r:
        Option<u64>)
        ensures
            r == block_interest(
                self.epochs@,
                self.blocks@,
                i as nat,
                rtxs@,
                dao_type_hash@,
                rtxs@.len() as int,
            ),
    {
        let now = self.numbers(i);
        let mut sum: u64 = 0;
        let mut t: usize = 0;
        while t < rtxs.len()
            invariant
                0 <= t <= rtxs.len(),
                now == numbers_at(self.epochs@, self.blocks@, i as nat),
                block_interest(self.epochs@, self.blocks@, i as nat, rtxs@, dao_type_hash@, t as int)
                    == Some(sum),
            decreases rtxs.len() - t,
        {
            let cells = &rtxs[t].resolved_inputs;
            let mut part: u64 = 0;
            let mut k: usize = 0;
            while k < cells.len()
                invariant
                    0 <= k <= cells.len(),
                    t < rtxs.len(),
                    cells == &rtxs@[t as int].resolved_inputs,
                    now == numbers_at(self.epochs@, self.blocks@, i as nat),
                    cells_interest(
                        self.epochs@,
                        self.blocks@,
                        i as nat,
                        cells@,
                        dao_type_hash@,
                        k as int,
                    ) == Some(part),
                decreases cells.len() - k,
            {
                let cell = &cells[k];
                let one: Option<u64> = if !cell.cell_output.has_type(dao_type_hash) {
                    Some(0)
                } else {
                    match (cell.transaction_info, now) {
                        (Some(info), Some(current)) => match self.numbers(info.block_number) {
                            Some(then) => if then.ar == 0 {
                                None
                            } else {
                                interest(cell.cell_output.capacity.shannons, then.ar, current.ar)
                            },
                            None => None,
                        },
                        _ => None,
                    }
                };
                assert(one == cell_interest(
                    self.epochs@,
                    self.blocks@,
                    i as nat,
                    cells@[k as int],
                    dao_type_hash@,
                ));
                let added = match one {
                    Some(v) => if part > u64::MAX - v {
                        None
                    } else {
                        Some(part + v)
                    },
                    None => None,
                };
                match added {
                    Some(v) => {
                        part = v;
                    },
                    None => {
                        proof {
                            lemma_cells_interest_fails(
                                self.epochs@,
                                self.blocks@,
                                i as nat,
                                cells@,
                                dao_type_hash@,
                                k as int + 1,
                                cells@.len() as int,
                            );
                            lemma_block_interest_fails(
                                self.epochs@,
                                self.blocks@,
                                i as nat,
                                rtxs@,
                                dao_type_hash@,
                                t as int + 1,
                                rtxs@.len() as int,
                            );
                        }
                        return None;
                    },
                }
                k += 1;
            }
            if sum > u64::MAX - part {
                proof {
                    lemma_block_interest_fails(
                        self.epochs@,
                        self.blocks@,
                        i as nat,
                        rtxs@,
                        dao_type_hash@,
                        t as int + 1,
                        rtxs@.len() as int,
                    );
                }
                return None;
            }
            sum = sum + part;
            t += 1;
        }
        Some(sum)
    }

    /// Adds the next block of the chain: `dao` is the DAO field of its
    /// header, `rtxs` are its transactions with the cells they spend.
    ///
    /// The block is summed up as `summed_up` says, and its summary is put
    /// at the end of the chain; `true` is returned. Nothing is added, and
    /// `false` returned, where the block cannot be summed up.
    pub fn push_block(
        &mut self,
        dao: Byte32,
        rtxs: &Vec<ResolvedTransaction>,
        satoshi_pubkey_hash: &Vec<u8>,
        ratio: Ratio,
        dao_type_hash: &Byte32,
    ) -> (r: bool)
        requires
            ratio.denom > 0,
        ensures
            final(self).epochs == old(self).epochs,
            r == summed_up(
                old(self).epochs@,
                old(self).blocks@,
                dao,
                rtxs@,
                satoshi_pubkey_hash@,
                ratio,
                dao_type_hash@,
            ).is_some(),
            !r ==> final(self).blocks@ == old(self).blocks@,
            r ==> final(self).blocks@ == old(self).blocks@.push(
                summed_up(
                    old(self).epochs@,
                    old(self).blocks@,
                    dao,
                    rtxs@,
                    satoshi_pubkey_hash@,
                    ratio,
                    dao_type_hash@,
                ).unwrap(),
            ),
    {
        let sums = (
            C_out(rtxs),
            C_in(rtxs),
            U_out(rtxs, satoshi_pubkey_hash, ratio),
            U_in(rtxs, satoshi_pubkey_hash, ratio),
        );
        let mut summary = match sums {
            (Some(capacity_out), Some(capacity_in), Some(occupied_out), Some(occupied_in)) => {
                BlockSummary {
                    dao,
                    capacity_out,
                    capacity_in,
                    occupied_out,
                    occupied_in,
                    interest: 0,
                }
            },
            _ => {
                return false;
            },
        };
        let at = self.blocks.len();
        if at as u128 > u64::MAX as u128 {
            return false;
        }
        let ghost before = self.blocks@;
        self.blocks.push(summary);
        match self.I(at as u64, rtxs, dao_type_hash) {
            Some(paid) => {
                summary.interest = paid;
                self.blocks[at] = summary;
                assert(self.blocks@ =~= before.push(summary));
                true
            },
            None => {
                self.blocks.pop();
                assert(self.blocks@ =~= before);
                false
            },
        }
    }

    /// The accumulated rate of block `i`.
    pub fn ar(&self, i: BlockNumber) -> (r: Option<u64>)
        ensures
            r == (match state_at(self.epochs@, self.blocks@, i as nat) {
                Some(st) => Some(st.ar),
                None => None,
            }),
    {
        match self.state(i) {
            Some(st) => Some(st.ar),
            None => None,
        }
    }

    /// The total issuance at block `i`.
    #[allow(non_snake_case)]
    pub fn C(&self, i: BlockNumber) -> (r: Option<u64>)
        ensures
            r == (match state_at(self.epochs@, self.blocks@, i as nat) {
                Some(st) => Some(st.c),
                None => None,
            }),
    {
        match self.state(i) {
            Some(st) => Some(st.c),
            None => None,
        }
    }

    /// The secondary issuance still to be paid at block `i`.
    #[allow(non_snake_case)]
    pub fn S(&self, i: BlockNumber) -> (r: Option<u64>)
        ensures
            r == (match state_at(self.epochs@, self.blocks@, i as nat) {
                Some(st) => Some(st.s),
                None => None,
            }),
    {
        match self.state(i) {
            Some(st) => Some(st.s),
            None => None,
        }
    }

    /// The occupied capacity at block `i`.
    #[allow(non_snake_case)]
    pub fn U(&self, i: BlockNumber) -> (r: Option<u64>)
        ensures
            r == (match state_at(self.epochs@, self.blocks@, i as nat) {
                Some(st) => Some(st.u),
                None => None,
            }),
    {
        match self.state(i) {
            Some(st) => Some(st.u),
            None => None,
        }
    }

    /// The total issuance at the genesis block.
    #[allow(non_snake_case)]
    pub fn C0(&self) -> (r: Option<u64>)
        ensures
            r == (match state_at(self.epochs@, self.blocks@, 0) {
                Some(st) => Some(st.c),
                None => None,
            }),
    {
        self.C(0)
    }

    /// The occupied capacity at the genesis block.
    #[allow(non_snake_case)]
    pub fn U0(&self) -> (r: Option<u64>)
        ensures
            r == (match state_at(self.epochs@, self.blocks@, 0) {
                Some(st) => Some(st.u),
                None => None,
            }),
    {
        self.U(0)
    }

    /// The secondary issuance still to be paid at the genesis block: the
    /// secondary issuance of that block.
    #[allow(non_snake_case)]
    pub fn S0(&self) -> (r: Option<u64>)
        ensures
            r == (match state_at(self.epochs@, self.blocks@, 0) {
                Some(st) => Some(st.s),
                None => None,
            }),
            r.is_some() ==> r == spec_s(self.epochs@, 0),
    {
        self.S(0)
    }

    /// The DAO field that block `i` ought to carry.
    pub fn expected_dao_field(&self, i: BlockNumber) -> (r: Option<Byte32>)
        ensures
            match state_at(self.epochs@, self.blocks@, i as nat) {
                Some(st) => r.is_some() && r.unwrap()@ == dao_bytes(st.ar, st.c, st.u),
                None => r.is_none(),
            },
    {
        match self.state(i) {
            Some(st) => Some(
                pack_dao_data(st.ar, Capacity { shannons: st.c }, Capacity { shannons: st.u }),
            ),
            None => None,
        }
    }

    /// Whether every block of the chain carries, byte for byte, the DAO
    /// field of the numbers recomputed from genesis.
    pub fn verify(&self) -> (r: bool)
        requires
            self.blocks@.len() <= u64::MAX,
        ensures
            r == (forall|i: nat|
                i < self.blocks@.len() ==> #[trigger] field_matches(self.epochs@, self.blocks@, i)),
    {
        if self.blocks.len() == 0 {
            return true;
        }
        let mut current = match self.genesis() {
            Some(st) => st,
            None => {
                assert(!field_matches(self.epochs@, self.blocks@, 0));
                return false;
            },
        };
        let mut k: usize = 0;
        loop
            invariant_except_break
                0 <= k < self.blocks.len(),
                self.blocks@.len() <= u64::MAX,
                state_at(self.epochs@, self.blocks@, k as nat) == Some(current),
                forall|j: nat| j < k ==> #[trigger] field_matches(self.epochs@, self.blocks@, j),
            ensures
                forall|j: nat|
                    j < self.blocks@.len() ==> #[trigger] field_matches(
                        self.epochs@,
                        self.blocks@,
                        j,
                    ),
            decreases self.blocks.len() - k,
        {
            let expected = pack_dao_data(
                current.ar,
                Capacity { shannons: current.c },
                Capacity { shannons: current.u },
            );
            if !expected.same(&self.blocks[k].dao) {
                assert(!field_matches(self.epochs@, self.blocks@, k as nat));
                return false;
            }
            assert(field_matches(self.epochs@, self.blocks@, k as nat));
            if k + 1 == self.blocks.len() {
                break ;
            }
            let n: usize = k + 1;
            let next = match (self.p(n as u64), self.s(n as u64)) {
                (Some(p), Some(s)) => Self::step(current, self.blocks[n], p, s),
                _ => None,
            };
            assert(state_at(self.epochs@, self.blocks@, (n - 1) as nat) == Some(current));
            assert(next == state_at(self.epochs@, self.blocks@, n as nat));
            match next {
                Some(st) => {
                    current = st;
                },
                None => {
                    assert(!field_matches(self.epochs@, self.blocks@, n as nat));
                    return false;
                },
            }
            k = n;
        }
        true
    }
}

proof fn lemma_epoch_found(epochs: Seq<EpochExt>, i: BlockNumber, k: int, n: int)
    requires
        0 <= k <= n,
        epoch_of(epochs, i, k).is_some(),
    ensures
        epoch_of(epochs, i, n) == epoch_of(epochs, i, k),
    decreases n - k,
{
    if k < n {
        lemma_epoch_found(epochs, i, k, n - 1);
    }
}

proof fn lemma_numbers_fail(epochs: Seq<EpochExt>, blocks: Seq<BlockSummary>, k: nat, i: nat)
    requires
        k <= i,
        numbers_at(epochs, blocks, k).is_none(),
    ensures
        numbers_at(epochs, blocks, i).is_none(),
    decreases i - k,
{
    if k < i {
        lemma_numbers_fail(epochs, blocks, k, (i - 1) as nat);
    }
}

proof fn lemma_state_fails(epochs: Seq<EpochExt>, blocks: Seq<BlockSummary>, k: nat, i: nat)
    requires
        k <= i,
        state_at(epochs, blocks, k).is_none(),
    ensures
        state_at(epochs, blocks, i).is_none(),
    decreases i - k,
{
    if k < i {
        lemma_state_fails(epochs, blocks, k, (i - 1) as nat);
    }
}

/// The DAO fields of a chain are determined by its genesis block.
///
/// Let the genesis block carry the field of the genesis numbers, and let
/// every later block carry the field that the rule of the DAO gives from
/// the field of its parent, as verification of the header demands. Then
/// every block carries, byte for byte, the field of the numbers recomputed
/// from genesis, as far as the recomputation goes.
pub proof fn lemma_dao_determinism(epochs: Seq<EpochExt>, blocks: Seq<BlockSummary>, i: nat)
    requires
        i < blocks.len(),
        state_at(epochs, blocks, i).is_some(),
        blocks[0].dao@ == dao_bytes(
            state_at(epochs, blocks, 0).unwrap().ar,
            state_at(epochs, blocks, 0).unwrap().c,
            state_at(epochs, blocks, 0).unwrap().u,
        ),
        forall|k: int|
            1 <= k <= i ==> #[trigger] follows_parent(epochs, blocks[k - 1], blocks[k], k),
    ensures
        field_matches(epochs, blocks, i),
    decreases i,
{
    if i > 0 {
        assert(state_at(epochs, blocks, (i - 1) as nat).is_some());
        lemma_dao_determinism(epochs, blocks, (i - 1) as nat);
        let prev = state_at(epochs, blocks, (i - 1) as nat).unwrap();
        lemma_pack_then_extract(prev.ar, prev.c, prev.u);
        assert(follows_parent(epochs, blocks[i - 1], blocks[i as int], i as int));
    }
}

/// Whether the DAO field of block `k` is the field that the rule of the
/// DAO gives from the field of its parent.
pub open spec fn follows_parent(
    epochs: Seq<EpochExt>,
    parent: BlockSummary,
    block: BlockSummary,
    k: int,
) -> bool {
    match (spec_p(epochs, k as u64), spec_s(epochs, k as u64)) {
        (Some(p), Some(s)) => match dao_step(
            DaoNumbers { ar: dao_ar(parent.dao@), c: dao_c(parent.dao@), u: dao_u(parent.dao@) },
            p,
            s,
            block.occupied_out as int,
            block.occupied_in as int,
        ) {
            Some(n) => block.dao@ == dao_bytes(n.ar, n.c, n.u),
            None => false,
        },
        _ => false,
    }
}

} // verus!
