//! Deposits into the DAO and withdrawals from it, as transactions.
//!
//! A deposit spends a cell into an output that carries the type script of
//! the DAO. A withdrawal spends the deposit once it is unlocked, names the
//! headers of the deposit and of the withdrawal, and tells in its witness
//! which of the two is the withdrawal's.

use vstd::prelude::*;
use crate::building::HASH_TYPE_TYPE;
use crate::building::TransactionDraft;
use crate::consensus::EpochNumberWithFraction;
use crate::dao::LOCK_PERIOD_EPOCHES;
use crate::dao::minimal_unlock_point;
use crate::dao_utils::write_u64_le;
use crate::primitives::Byte32;
use crate::primitives::Capacity;
use crate::primitives::CapacityError;
use crate::primitives::hash_keys;
use crate::primitives::lemma_position_is;
use crate::primitives::position;
use crate::since::since_from_absolute_epoch_number;
use crate::types::CellInput;
use crate::types::CellOutput;
use crate::types::OutPoint;
use crate::types::Script;

verus! {

/// The type script of a deposit: the code of the DAO, named by the hash of
/// its type, without arguments.
pub open spec fn spec_deposit_type_script(script: Script, dao_type_hash: Byte32) -> bool {
    script.code_hash == dao_type_hash && script.hash_type == HASH_TYPE_TYPE && script.args@.len()
        == 0
}

/// The type script of a deposit.
pub fn deposit_type_script(dao_type_hash: Byte32) -> (r: Script)
    ensures
        spec_deposit_type_script(r, dao_type_hash),
{
    Script { code_hash: dao_type_hash, hash_type: HASH_TYPE_TYPE, args: Vec::new() }
}

/// The cells that the scripts of a deposit need: the cell of the lock, and
/// the cell of the DAO, which is output `dao_output_index` of the cellbase
/// of the genesis block.
pub fn deposit_cell_deps(
    always_success: OutPoint,
    genesis_cellbase_hash: Byte32,
    dao_output_index: u32,
) -> (r: Vec<OutPoint>)
    ensures
        r@ == seq![
            always_success,
            (OutPoint { tx_hash: genesis_cellbase_hash, index: dao_output_index }),
        ],
{
    let mut deps: Vec<OutPoint> = Vec::new();
    deps.push(always_success);
    deps.push(OutPoint::new(genesis_cellbase_hash, dao_output_index));
    assert(deps@ =~= seq![
        always_success,
        (OutPoint { tx_hash: genesis_cellbase_hash, index: dao_output_index }),
    ]);
    deps
}

/// The cells that the scripts of a withdrawal need: those of a deposit.
pub fn withdraw_cell_deps(
    always_success: OutPoint,
    genesis_cellbase_hash: Byte32,
    dao_output_index: u32,
) -> (r: Vec<OutPoint>)
    ensures
        r@ == seq![
            always_success,
            (OutPoint { tx_hash: genesis_cellbase_hash, index: dao_output_index }),
        ],
{
    deposit_cell_deps(always_success, genesis_cellbase_hash, dao_output_index)
}

/// The input of a deposit: the cell at `out_point`, spent with no
/// condition on when.
pub fn deposit_input(out_point: OutPoint) -> (r: CellInput)
    ensures
        r.previous_output == out_point,
        r.since == 0,
{
    CellInput::new(out_point, 0)
}

/// The output of a deposit: the whole capacity of the spent cell, under
/// `lock`, with the type script of the DAO.
pub fn deposit_output(capacity: Capacity, lock: Script, dao_type_hash: Byte32) -> (r: CellOutput)
    ensures
        r.capacity == capacity,
        r.lock == lock,
        r.type_.is_some(),
        spec_deposit_type_script(r.type_.unwrap(), dao_type_hash),
{
    CellOutput { capacity, lock, type_: Some(deposit_type_script(dao_type_hash)) }
}

/// The deposit of the cell at `unspent`, which holds `capacity`: one
/// input, one output without data, one empty witness, no header named.
pub fn deposit_transaction(
    unspent: OutPoint,
    capacity: Capacity,
    lock: Script,
    dao_type_hash: Byte32,
) -> (r: TransactionDraft)
    ensures
        r.inputs@ == seq![(CellInput { previous_output: unspent, since: 0 })],
        r.outputs@.len() == 1,
        r.outputs@[0].capacity == capacity,
        r.outputs@[0].lock == lock,
        r.outputs@[0].type_.is_some(),
        spec_deposit_type_script(r.outputs@[0].type_.unwrap(), dao_type_hash),
        r.outputs_data@.len() == 1,
        r.outputs_data@[0]@.len() == 0,
        r.witnesses@.len() == 1,
        r.witnesses@[0]@.len() == 0,
        r.header_deps@.len() == 0,
{
    let input = deposit_input(unspent);
    let output = deposit_output(capacity, lock, dao_type_hash);
    let mut inputs: Vec<CellInput> = Vec::new();
    inputs.push(input);
    let mut outputs: Vec<CellOutput> = Vec::new();
    outputs.push(output);
    let mut outputs_data: Vec<Vec<u8>> = Vec::new();
    outputs_data.push(Vec::new());
    let mut witnesses: Vec<Vec<u8>> = Vec::new();
    witnesses.push(Vec::new());
    assert(inputs@ =~= seq![(CellInput { previous_output: unspent, since: 0 })]);
    TransactionDraft { inputs, outputs, outputs_data, header_deps: Vec::new(), witnesses }
}

/// The headers that a withdrawal names: that of the deposit, then that of
/// the withdrawal.
pub fn withdraw_header_deps(deposit_header_hash: Byte32, withdraw_header_hash: Byte32) -> (r: Vec<
    Byte32,
>)
    ensures
        r@ == seq![deposit_header_hash, withdraw_header_hash],
{
    let mut deps: Vec<Byte32> = Vec::new();
    deps.push(deposit_header_hash);
    deps.push(withdraw_header_hash);
    assert(deps@ =~= seq![deposit_header_hash, withdraw_header_hash]);
    deps
}

/// The `since` of a withdrawal of a deposit made at the packed epoch
/// `deposit_epoch`: the absolute epoch that lies 180 epochs later, at the
/// same place in the epoch.
pub open spec fn unlock_since(deposit_epoch: u64) -> u64 {
    0x2000_0000_0000_0000 | (EpochNumberWithFraction {
        number: (EpochNumberWithFraction::spec_from_full_value(deposit_epoch).number
            + LOCK_PERIOD_EPOCHES) as u64,
        index: EpochNumberWithFraction::spec_from_full_value(deposit_epoch).index,
        length: EpochNumberWithFraction::spec_from_full_value(deposit_epoch).length,
    }).spec_full_value()
}

/// The input of a withdrawal: the deposit, spent no sooner than it is
/// unlocked.
pub fn withdraw_input(deposit_out_point: OutPoint, deposit_epoch: u64) -> (r: CellInput)
    ensures
        r.previous_output == deposit_out_point,
        r.since == unlock_since(deposit_epoch),
{
    let unlock = minimal_unlock_point(deposit_epoch);
    let since = since_from_absolute_epoch_number(unlock.full_value());
    CellInput::new(deposit_out_point, since)
}

/// The output of a withdrawal: the deposit with its interest, under
/// `lock`, without a type script.
pub fn withdraw_output(capacity: Capacity, lock: Script) -> (r: CellOutput)
    ensures
        r.capacity == capacity,
        r.lock == lock,
        r.type_.is_none(),
{
    CellOutput { capacity, lock, type_: None }
}

/// The place of the header of the withdrawal among the two headers that a
/// withdrawal names: the second, unless both are the same header.
pub open spec fn withdraw_header_index(deposit_header_hash: Byte32, withdraw_header_hash: Byte32)
    -> u64 {
    if deposit_header_hash@ == withdraw_header_hash@ {
        0
    } else {
        1
    }
}

/// The place that `withdraw_header_index` gives is the first place of the
/// header of the withdrawal among the headers named.
pub proof fn lemma_withdraw_header_index(deposit_header_hash: Byte32, withdraw_header_hash: Byte32)
    ensures
        position(
            hash_keys(seq![deposit_header_hash, withdraw_header_hash]),
            withdraw_header_hash@,
        ) == withdraw_header_index(deposit_header_hash, withdraw_header_hash),
{
    let keys = hash_keys(seq![deposit_header_hash, withdraw_header_hash]);
    assert(keys[0] == deposit_header_hash@);
    assert(keys[1] == withdraw_header_hash@);
    lemma_position_is(
        keys,
        withdraw_header_hash@,
        withdraw_header_index(deposit_header_hash, withdraw_header_hash) as int,
    );
}

/// The withdrawal of the deposit at `deposit_out_point`, which was made at
/// the packed epoch `deposit_epoch` in the block with hash
/// `deposit_header_hash`, as of the block with hash `withdraw_header_hash`,
/// where it pays `maximum_withdraw`.
///
/// The witness is the place of the header of the withdrawal among the
/// headers named, in eight bytes, little-endian.
pub fn withdraw_transaction(
    deposit_out_point: OutPoint,
    deposit_epoch: u64,
    deposit_header_hash: Byte32,
    withdraw_header_hash: Byte32,
    maximum_withdraw: Capacity,
    lock: Script,
) -> (r: TransactionDraft)
    ensures
        r.inputs@ == seq![
            (CellInput { previous_output: deposit_out_point, since: unlock_since(deposit_epoch) }),
        ],
        r.outputs@ == seq![
            (CellOutput { capacity: maximum_withdraw, lock: lock, type_: None }),
        ],
        r.outputs_data@.len() == 1,
        r.outputs_data@[0]@.len() == 0,
        r.header_deps@ == seq![deposit_header_hash, withdraw_header_hash],
        r.witnesses@.len() == 1,
        r.witnesses@[0]@ == vstd::bytes::spec_u64_to_le_bytes(
            withdraw_header_index(deposit_header_hash, withdraw_header_hash),
        ),
{
    let input = withdraw_input(deposit_out_point, deposit_epoch);
    let output = withdraw_output(maximum_withdraw, lock);
    let header_deps = withdraw_header_deps(deposit_header_hash, withdraw_header_hash);
    proof {
        lemma_withdraw_header_index(deposit_header_hash, withdraw_header_hash);
    }
    let witness = match crate::dao::withdraw_witness(&header_deps, &withdraw_header_hash) {
        Some(w) => w,
        None => Vec::new(),
    };
    let mut inputs: Vec<CellInput> = Vec::new();
    inputs.push(input);
    let mut outputs: Vec<CellOutput> = Vec::new();
    outputs.push(output);
    let mut outputs_data: Vec<Vec<u8>> = Vec::new();
    outputs_data.push(Vec::new());
    let mut witnesses: Vec<Vec<u8>> = Vec::new();
    witnesses.push(witness);
    assert(inputs@ =~= seq![
        (CellInput { previous_output: deposit_out_point, since: unlock_since(deposit_epoch) }),
    ]);
    assert(outputs@ =~= seq![(CellOutput { capacity: maximum_withdraw, lock: lock, type_: None })]);
    TransactionDraft { inputs, outputs, outputs_data, header_deps, witnesses }
}

/// The number of blocks after which a transaction that was sent is
/// committed: the near end of the proposal window and two more.
pub fn commit_elapsed(closest: u64) -> (r: Option<u64>)
    ensures
        closest + 2 <= u64::MAX ==> r == Some((closest + 2) as u64),
        closest + 2 > u64::MAX ==> r.is_none(),
{
    closest.checked_add(2)
}

/// Whether a chain whose tip is at the packed epoch `tip_epoch` has come
/// to the point `target`, so that no further block is needed.
pub fn target_reached(tip_epoch: u64, target: &EpochNumberWithFraction) -> (r: bool)
    requires
        target.wf(),
    ensures
        r == EpochNumberWithFraction::spec_from_full_value(tip_epoch).spec_reached(target),
{
    let tip_point = EpochNumberWithFraction::from_full_value(tip_epoch);
    tip_point.reached(target)
}

/// The point one epoch before the earliest withdrawal of a deposit made at
/// the packed epoch `deposit_epoch`: a withdrawal with this point as its
/// `since` comes one epoch too early.
pub fn immature_unlock_point(deposit_epoch: u64) -> (r: EpochNumberWithFraction)
    ensures
        r.number == EpochNumberWithFraction::spec_from_full_value(deposit_epoch).number
            + LOCK_PERIOD_EPOCHES - 1,
        r.index == EpochNumberWithFraction::spec_from_full_value(deposit_epoch).index,
        r.length == EpochNumberWithFraction::spec_from_full_value(deposit_epoch).length,
{
    let unlock = minimal_unlock_point(deposit_epoch);
    assert(LOCK_PERIOD_EPOCHES == 180);
    EpochNumberWithFraction::new(unlock.number() - 1, unlock.index(), unlock.length())
}

/// `draft` with the `since` of its first input replaced.
pub fn with_since(draft: TransactionDraft, since: u64) -> (r: TransactionDraft)
    requires
        draft.inputs@.len() > 0,
    ensures
        r.inputs@ == draft.inputs@.update(
            0,
            CellInput { previous_output: draft.inputs@[0].previous_output, since: since },
        ),
        r.outputs == draft.outputs,
        r.outputs_data == draft.outputs_data,
        r.header_deps == draft.header_deps,
        r.witnesses == draft.witnesses,
{
    let mut draft = draft;
    let previous_output = draft.inputs[0].previous_output;
    draft.inputs.set(0, CellInput { previous_output, since });
    draft
}

/// `draft` with the type script of the DAO on each output: what was to be
/// withdrawn is deposited again.
pub fn redeposited(draft: TransactionDraft, dao_type_hash: Byte32) -> (r: TransactionDraft)
    ensures
        r.inputs == draft.inputs,
        r.outputs_data == draft.outputs_data,
        r.header_deps == draft.header_deps,
        r.witnesses == draft.witnesses,
        r.outputs@.len() == draft.outputs@.len(),
        forall|i: int|
            0 <= i < r.outputs@.len() ==> {
                &&& (#[trigger] r.outputs@[i]).capacity == draft.outputs@[i].capacity
                &&& r.outputs@[i].lock == draft.outputs@[i].lock
                &&& r.outputs@[i].type_.is_some()
                &&& spec_deposit_type_script(r.outputs@[i].type_.unwrap(), dao_type_hash)
            },
{
    let TransactionDraft { inputs, outputs, outputs_data, header_deps, witnesses } = draft;
    let ghost before = outputs@;
    let mut rest = outputs;
    let mut out: Vec<CellOutput> = Vec::new();
    let n = rest.len();
    let mut i: usize = 0;
    while i < n
        invariant
            0 <= i <= n,
            n == before.len(),
            out@.len() == i,
            rest@.len() == n - i,
            forall|j: int| 0 <= j < rest@.len() ==> #[trigger] rest@[j] == before[i + j],
            forall|j: int|
                0 <= j < i ==> {
                    &&& (#[trigger] out@[j]).capacity == before[j].capacity
                    &&& out@[j].lock == before[j].lock
                    &&& out@[j].type_.is_some()
                    &&& spec_deposit_type_script(out@[j].type_.unwrap(), dao_type_hash)
                },
        decreases n - i,
    {
        let cell = rest.remove(0);
        assert(cell == before[i as int]);
        out.push(deposit_output(cell.capacity, cell.lock, dao_type_hash));
        i += 1;
    }
    TransactionDraft { inputs, outputs: out, outputs_data, header_deps, witnesses }
}

/// `draft` with one shannon more on each output, so that it pays out more
/// than it takes in; `Overflow` where a capacity does not fit in 64 bits.
pub fn overpaid(draft: TransactionDraft) -> (r: Result<TransactionDraft, CapacityError>)
    ensures
        match r {
            Ok(d) => {
                &&& d.inputs == draft.inputs
                &&& d.outputs_data == draft.outputs_data
                &&& d.header_deps == draft.header_deps
                &&& d.witnesses == draft.witnesses
                &&& d.outputs@.len() == draft.outputs@.len()
                &&& forall|i: int|
                    0 <= i < d.outputs@.len() ==> {
                        &&& (#[trigger] d.outputs@[i]).capacity.shannons
                            == draft.outputs@[i].capacity.shannons + 1
                        &&& d.outputs@[i].lock == draft.outputs@[i].lock
                        &&& d.outputs@[i].type_ == draft.outputs@[i].type_
                    }
            },
            Err(e) => e == CapacityError::Overflow && exists|i: int|
                0 <= i < draft.outputs@.len() && (#[trigger] draft.outputs@[i]).capacity.shannons
                    == u64::MAX,
        },
        (forall|i: int|
            0 <= i < draft.outputs@.len() ==> (#[trigger] draft.outputs@[i]).capacity.shannons
                < u64::MAX) ==> r.is_ok(),
{
    let TransactionDraft { inputs, outputs, outputs_data, header_deps, witnesses } = draft;
    let ghost before = outputs@;
    let mut rest = outputs;
    let mut out: Vec<CellOutput> = Vec::new();
    let n = rest.len();
    let mut i: usize = 0;
    while i < n
        invariant
            0 <= i <= n,
            n == before.len(),
            out@.len() == i,
            rest@.len() == n - i,
            forall|j: int| 0 <= j < rest@.len() ==> #[trigger] rest@[j] == before[i + j],
            before == draft.outputs@,
            forall|j: int|
                0 <= j < i ==> {
                    &&& (#[trigger] out@[j]).capacity.shannons == before[j].capacity.shannons + 1
                    &&& out@[j].lock == before[j].lock
                    &&& out@[j].type_ == before[j].type_
                },
        decreases n - i,
    {
        let cell = rest.remove(0);
        assert(cell == before[i as int]);
        match cell.capacity.safe_add(Capacity::one()) {
            Ok(capacity) => {
                out.push(CellOutput { capacity, lock: cell.lock, type_: cell.type_ });
            },
            Err(_) => {
                assert(before[i as int].capacity.shannons == u64::MAX);
                return Err(CapacityError::Overflow);
            },
        }
        i += 1;
    }
    Ok(TransactionDraft { inputs, outputs: out, outputs_data, header_deps, witnesses })
}

} // verus!
