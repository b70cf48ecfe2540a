//! Resolution of the inputs of a transaction: each input finds the live
//! cell that it spends.

use vstd::prelude::*;
use crate::error::TransactionError;
use crate::store::ChainStore;
use crate::tx_verifier::CellMeta;
use crate::tx_verifier::ResolvedTransaction;
use crate::types::CellInput;
use crate::types::OutPoint;
use crate::types::Transaction;

verus! {

/// The live cells. A cell that is spent leaves its slot empty.
#[derive(Debug)]
pub struct LiveCells {
    pub slots: Vec<Option<CellMeta>>,
}

/// Whether a slot holds the cell that `out_point` names.
pub open spec fn holds(slot: Option<CellMeta>, out_point: OutPoint) -> bool {
    match slot {
        Some(cell) => cell.out_point.spec_same(&out_point),
        None => false,
    }
}

/// The first slot at or after `from` that holds the cell of `out_point`,
/// or -1.
pub open spec fn cell_index_from(slots: Seq<Option<CellMeta>>, out_point: OutPoint, from: int) -> int
    decreases slots.len() - from,
{
    if from < 0 || from >= slots.len() {
        -1
    } else if holds(slots[from], out_point) {
        from
    } else {
        cell_index_from(slots, out_point, from + 1)
    }
}

/// The first slot that holds the cell of `out_point`, or -1.
pub open spec fn cell_index(slots: Seq<Option<CellMeta>>, out_point: OutPoint) -> int {
    cell_index_from(slots, out_point, 0)
}

proof fn lemma_cell_index_from(slots: Seq<Option<CellMeta>>, out_point: OutPoint, from: int)
    requires
        0 <= from,
    ensures
        cell_index_from(slots, out_point, from) == -1 || from <= cell_index_from(
            slots,
            out_point,
            from,
        ) < slots.len(),
        cell_index_from(slots, out_point, from) >= 0 ==> holds(
            slots[cell_index_from(slots, out_point, from)],
            out_point,
        ),
        forall|j: int|
            from <= j < slots.len() && (cell_index_from(slots, out_point, from) == -1 || j
                < cell_index_from(slots, out_point, from)) ==> !holds(#[trigger] slots[j], out_point),
    decreases slots.len() - from,
{
    if from < slots.len() && !holds(slots[from], out_point) {
        lemma_cell_index_from(slots, out_point, from + 1);
    }
}

/// Whether `out_point` is among `seen`.
pub open spec fn was_seen(seen: Seq<OutPoint>, out_point: OutPoint) -> bool {
    exists|k: int| 0 <= k < seen.len() && (#[trigger] seen[k]).spec_same(&out_point)
}

/// Whether one of the first `i` inputs spends `out_point`.
pub open spec fn spent_before(inputs: Seq<CellInput>, i: int, out_point: OutPoint) -> bool {
    exists|k: int|
        0 <= k < i && k < inputs.len() && (#[trigger] inputs[k]).previous_output.spec_same(
            &out_point,
        )
}

/// What is wrong with input `i`, if anything: it spends what an earlier
/// input or an earlier transaction of the block spends, or a cell that is
/// not live.
pub open spec fn input_fault(
    seen: Seq<OutPoint>,
    inputs: Seq<CellInput>,
    slots: Seq<Option<CellMeta>>,
    i: int,
) -> Option<TransactionError> {
    let out_point = inputs[i].previous_output;
    if was_seen(seen, out_point) || spent_before(inputs, i, out_point) {
        Some(TransactionError::DoubleSpend)
    } else if cell_index(slots, out_point) < 0 {
        Some(TransactionError::DeadOrUnknownCell)
    } else {
        None
    }
}

/// The fault of the first of the first `n` inputs that has one.
pub open spec fn inputs_fault(
    seen: Seq<OutPoint>,
    inputs: Seq<CellInput>,
    slots: Seq<Option<CellMeta>>,
    n: int,
) -> Option<TransactionError>
    decreases n,
{
    if n <= 0 {
        None
    } else {
        match inputs_fault(seen, inputs, slots, n - 1) {
            Some(e) => Some(e),
            None => input_fault(seen, inputs, slots, n - 1),
        }
    }
}

proof fn lemma_inputs_fault_stays(
    seen: Seq<OutPoint>,
    inputs: Seq<CellInput>,
    slots: Seq<Option<CellMeta>>,
    i: int,
    n: int,
)
    requires
        0 <= i <= n,
        inputs_fault(seen, inputs, slots, i).is_some(),
    ensures
        inputs_fault(seen, inputs, slots, n) == inputs_fault(seen, inputs, slots, i),
    decreases n - i,
{
    if i < n {
        lemma_inputs_fault_stays(seen, inputs, slots, i, n - 1);
    }
}

/// Whether every header dependency of a transaction is on the main chain.
pub open spec fn header_deps_valid(store: ChainStore, transaction: Transaction) -> bool {
    forall|i: int|
        0 <= i < transaction.header_deps@.len() ==> store.spec_in_main_chain(
            (#[trigger] transaction.header_deps@[i])@,
        )
}

/// What is wrong with a transaction that is to be resolved, if anything:
/// the first fault of an input, the cellbase apart, or else a header
/// dependency that the main chain does not hold.
pub open spec fn resolve_fault(
    transaction: Transaction,
    seen: Seq<OutPoint>,
    slots: Seq<Option<CellMeta>>,
    store: ChainStore,
) -> Option<TransactionError> {
    if !transaction.spec_is_cellbase() && inputs_fault(
        seen,
        transaction.inputs@,
        slots,
        transaction.inputs@.len() as int,
    ).is_some() {
        inputs_fault(seen, transaction.inputs@, slots, transaction.inputs@.len() as int)
    } else if !header_deps_valid(store, transaction) {
        Some(TransactionError::InvalidHeaderDep)
    } else {
        None
    }
}

impl LiveCells {
    /// A set with no live cell.
    pub fn new() -> (r: Self)
        ensures
            r.slots@.len() == 0,
    {
        LiveCells { slots: Vec::new() }
    }

    /// Adds a cell to the live cells.
    pub fn insert(&mut self, cell: CellMeta)
        ensures
            final(self).slots@ == old(self).slots@.push(Some(cell)),
    {
        self.slots.push(Some(cell));
    }

    /// The slot of the cell that `out_point` names.
    pub fn find(&self, out_point: &OutPoint) -> (r: Option<usize>)
        ensures
            r.is_none() <==> cell_index(self.slots@, *out_point) == -1,
            r.is_some() ==> r.unwrap() as int == cell_index(self.slots@, *out_point)
                && r.unwrap() < self.slots@.len() && holds(
                self.slots@[r.unwrap() as int],
                *out_point,
            ),
    {
        proof {
            lemma_cell_index_from(self.slots@, *out_point, 0);
        }
        let mut i: usize = 0;
        while i < self.slots.len()
            invariant
                0 <= i <= self.slots.len(),
                forall|j: int| 0 <= j < i ==> !holds(#[trigger] self.slots@[j], *out_point),
                cell_index(self.slots@, *out_point) == -1 || 0 <= cell_index(
                    self.slots@,
                    *out_point,
                ) < self.slots@.len(),
                cell_index(self.slots@, *out_point) >= 0 ==> holds(
                    self.slots@[cell_index(self.slots@, *out_point)],
                    *out_point,
                ),
                forall|j: int|
                    0 <= j < self.slots@.len() && (cell_index(self.slots@, *out_point) == -1 || j
                        < cell_index(self.slots@, *out_point)) ==> !holds(
                        #[trigger] self.slots@[j],
                        *out_point,
                    ),
            decreases self.slots.len() - i,
        {
            let here = match &self.slots[i] {
                Some(cell) => cell.out_point.same(out_point),
                None => false,
            };
            if here {
                return Some(i);
            }
            i += 1;
        }
        None
    }
}

/// Whether `out_point` is among `seen`.
pub fn out_point_seen(seen: &Vec<OutPoint>, out_point: &OutPoint) -> (r: bool)
    ensures
        r == was_seen(seen@, *out_point),
{
    let mut k: usize = 0;
    while k < seen.len()
        invariant
            0 <= k <= seen.len(),
            forall|j: int| 0 <= j < k ==> !(#[trigger] seen@[j]).spec_same(out_point),
        decreases seen.len() - k,
    {
        if seen[k].same(out_point) {
            return true;
        }
        k += 1;
    }
    false
}

/// Resolves the inputs of a transaction against the live cells.
///
/// `seen_inputs` holds what earlier transactions of the block spend. On
/// success each input has its cell, in the order of the inputs; the cells
/// leave the live cells, and the inputs join `seen_inputs`. The cellbase
/// resolves to no cells. On failure nothing changes.
pub fn resolve_transaction<'a>(
    transaction: &'a Transaction,
    seen_inputs: &mut Vec<OutPoint>,
    live: &mut LiveCells,
    store: &ChainStore,
) -> (r: Result<ResolvedTransaction<'a>, TransactionError>)
    ensures
        match r {
            Err(e) => resolve_fault(*transaction, old(seen_inputs)@, old(live).slots@, *store)
                == Some(e) && *final(live) == *old(live) && *final(seen_inputs) == *old(seen_inputs),
            Ok(rtx) => {
                &&& resolve_fault(
                    *transaction,
                    old(seen_inputs)@,
                    old(live).slots@,
                    *store,
                ).is_none()
                &&& rtx.transaction == transaction
                &&& final(live).slots@.len() == old(live).slots@.len()
                &&& transaction.spec_is_cellbase() ==> rtx.resolved_inputs@.len() == 0 && final(live).slots@ == old(live).slots@ && final(seen_inputs)@ == old(seen_inputs)@
                &&& !transaction.spec_is_cellbase() ==> rtx.wf() && final(seen_inputs)@.len() == old(seen_inputs)@.len() + transaction.inputs@.len()
            },
        },
        r.is_ok() && !transaction.spec_is_cellbase() ==> forall|i: int|
            0 <= i < transaction.inputs@.len() ==> Some(
                (#[trigger] r.unwrap().resolved_inputs@[i]),
            ) == old(live).slots@[cell_index(
                old(live).slots@,
                transaction.inputs@[i].previous_output,
            )],
        r.is_ok() && !transaction.spec_is_cellbase() ==> forall|i: int|
            0 <= i < transaction.inputs@.len() ==> (#[trigger] final(seen_inputs)@[old(seen_inputs)@.len() + i]) == transaction.inputs@[i].previous_output,
        r.is_ok() && !transaction.spec_is_cellbase() ==> forall|j: int|
            0 <= j < old(live).slots@.len() ==> #[trigger] final(live).slots@[j] == (
            if spent_slot(old(live).slots@, transaction.inputs@, j) {
                None::<CellMeta>
            } else {
                old(live).slots@[j]
            }),
{
    let ghost slots0 = live.slots@;
    let ghost seen0 = seen_inputs@;
    let inputs = &transaction.inputs;
    let cellbase = transaction.is_cellbase();
    let mut indexes: Vec<usize> = Vec::new();
    if !cellbase {
        let mut i: usize = 0;
        while i < inputs.len()
            invariant
                0 <= i <= inputs.len(),
                inputs == &transaction.inputs,
                !transaction.spec_is_cellbase(),
                *live == *old(live),
                *seen_inputs == *old(seen_inputs),
                slots0 == old(live).slots@,
                seen0 == old(seen_inputs)@,
                inputs_fault(seen0, inputs@, slots0, i as int).is_none(),
                indexes@.len() == i,
                forall|k: int|
                    0 <= k < i ==> (#[trigger] indexes@[k]) as int == cell_index(
                        slots0,
                        inputs@[k].previous_output,
                    ) && indexes@[k] < slots0.len() && holds(
                        slots0[indexes@[k] as int],
                        inputs@[k].previous_output,
                    ),
            decreases inputs.len() - i,
        {
            let out_point = inputs[i].previous_output;
            let mut repeated = out_point_seen(seen_inputs, &out_point);
            let mut k: usize = 0;
            while !repeated && k < i
                invariant
                    0 <= k <= i < inputs.len(),
                    inputs == &transaction.inputs,
                    out_point == inputs@[i as int].previous_output,
                    seen_inputs@ == seen0,
                    !repeated ==> !was_seen(seen_inputs@, out_point),
                    !repeated ==> forall|j: int|
                        0 <= j < k ==> !(#[trigger] inputs@[j]).previous_output.spec_same(&out_point),
                    repeated ==> was_seen(seen_inputs@, out_point) || spent_before(
                        inputs@,
                        i as int,
                        out_point,
                    ),
                decreases
                        (if repeated {
                            0
                        } else {
                            i - k + 1
                        }),
            {
                if inputs[k].previous_output.same(&out_point) {
                    assert(spent_before(inputs@, i as int, out_point));
                    repeated = true;
                } else {
                    k += 1;
                }
            }
            if repeated {
                proof {
                    assert(input_fault(seen0, inputs@, slots0, i as int) == Some(
                        TransactionError::DoubleSpend,
                    ));
                    lemma_inputs_fault_stays(
                        seen0,
                        inputs@,
                        slots0,
                        i as int + 1,
                        inputs@.len() as int,
                    );
                }
                return Err(TransactionError::DoubleSpend);
            }
            match live.find(&out_point) {
                Some(index) => {
                    assert(!spent_before(inputs@, i as int, out_point));
                    indexes.push(index);
                },
                None => {
                    proof {
                        assert(!spent_before(inputs@, i as int, out_point));
                        assert(input_fault(seen0, inputs@, slots0, i as int) == Some(
                            TransactionError::DeadOrUnknownCell,
                        ));
                        lemma_inputs_fault_stays(
                            seen0,
                            inputs@,
                            slots0,
                            i as int + 1,
                            inputs@.len() as int,
                        );
                    }
                    return Err(TransactionError::DeadOrUnknownCell);
                },
            }
            i += 1;
        }
    }
    let deps = &transaction.header_deps;
    let mut d: usize = 0;
    while d < deps.len()
        invariant
            0 <= d <= deps.len(),
            deps == &transaction.header_deps,
            *live == *old(live),
            *seen_inputs == *old(seen_inputs),
            slots0 == old(live).slots@,
            seen0 == old(seen_inputs)@,
            cellbase == transaction.spec_is_cellbase(),
            cellbase || inputs_fault(
                seen0,
                transaction.inputs@,
                slots0,
                transaction.inputs@.len() as int,
            ).is_none(),
            forall|j: int| 0 <= j < d ==> store.spec_in_main_chain((#[trigger] deps@[j])@),
        decreases deps.len() - d,
    {
        if store.get_block_number(&deps[d]).is_none() {
            return Err(TransactionError::InvalidHeaderDep);
        }
        d += 1;
    }
    let mut resolved_inputs: Vec<CellMeta> = Vec::new();
    if !cellbase {
        let mut i: usize = 0;
        while i < inputs.len()
            invariant
                0 <= i <= inputs.len(),
                inputs == &transaction.inputs,
                slots0 == old(live).slots@,
                seen0 == old(seen_inputs)@,
                !transaction.spec_is_cellbase(),
                inputs_fault(seen0, inputs@, slots0, inputs@.len() as int).is_none(),
                indexes@.len() == inputs@.len(),
                forall|k: int|
                    0 <= k < inputs@.len() ==> (#[trigger] indexes@[k]) as int == cell_index(
                        slots0,
                        inputs@[k].previous_output,
                    ) && indexes@[k] < slots0.len() && holds(
                        slots0[indexes@[k] as int],
                        inputs@[k].previous_output,
                    ),
                live.slots@.len() == slots0.len(),
                resolved_inputs@.len() == i,
                seen_inputs@.len() == seen0.len() + i,
                forall|k: int|
                    0 <= k < i ==> Some(#[trigger] resolved_inputs@[k]) == slots0[indexes@[k] as int],
                forall|k: int|
                    0 <= k < i ==> (#[trigger] seen_inputs@[seen0.len() + k])
                        == inputs@[k].previous_output,
                forall|k: int| 0 <= k < seen0.len() ==> (#[trigger] seen_inputs@[k]) == seen0[k],
                forall|j: int|
                    0 <= j < slots0.len() ==> #[trigger] live.slots@[j] == (if spent_slot(
                        slots0,
                        inputs@.subrange(0, i as int),
                        j,
                    ) {
                        None::<CellMeta>
                    } else {
                        slots0[j]
                    }),
            decreases inputs.len() - i,
        {
            let index = indexes[i];
            proof {
                lemma_not_spent_yet(seen0, inputs@, slots0, i as int);
            }
            let taken = live.slots[index].take();
            let ghost longer = inputs@.subrange(0, i as int + 1);
            proof {
                assert forall|j: int| 0 <= j < slots0.len() implies #[trigger] live.slots@[j] == (
                if spent_slot(slots0, longer, j) {
                    None::<CellMeta>
                } else {
                    slots0[j]
                }) by {
                    lemma_spent_slot_step(slots0, inputs@, i as int, j);
                }
            }
            match taken {
                Some(cell) => {
                    resolved_inputs.push(cell);
                },
                None => {},
            }
            seen_inputs.push(inputs[i].previous_output);
            i += 1;
        }
        assert(inputs@.subrange(0, inputs@.len() as int) =~= inputs@);
    }
    Ok(ResolvedTransaction { transaction, resolved_inputs })
}

/// Whether one of `inputs` spends the cell in slot `j`: the slot is the
/// first that holds the cell of the input.
pub open spec fn spent_slot(slots: Seq<Option<CellMeta>>, inputs: Seq<CellInput>, j: int) -> bool {
    exists|k: int|
        0 <= k < inputs.len() && cell_index(slots, (#[trigger] inputs[k]).previous_output) == j
}

proof fn lemma_not_spent_yet(
    seen: Seq<OutPoint>,
    inputs: Seq<CellInput>,
    slots: Seq<Option<CellMeta>>,
    i: int,
)
    requires
        0 <= i < inputs.len(),
        inputs_fault(seen, inputs, slots, inputs.len() as int).is_none(),
    ensures
        !spent_slot(slots, inputs.subrange(0, i), cell_index(slots, inputs[i].previous_output)),
        cell_index(slots, inputs[i].previous_output) >= 0,
{
    lemma_no_fault_at(seen, inputs, slots, i, inputs.len() as int);
    let out_point = inputs[i].previous_output;
    let idx = cell_index(slots, out_point);
    lemma_cell_index_from(slots, out_point, 0);
    let prefix = inputs.subrange(0, i);
    if spent_slot(slots, prefix, idx) {
        let k = choose|k: int|
            0 <= k < prefix.len() && cell_index(slots, (#[trigger] prefix[k]).previous_output)
                == idx;
        assert(prefix[k] == inputs[k]);
        lemma_cell_index_from(slots, inputs[k].previous_output, 0);
        assert(holds(slots[idx], inputs[k].previous_output));
        assert(holds(slots[idx], out_point));
        assert(inputs[k].previous_output.spec_same(&out_point));
        assert(spent_before(inputs, i, out_point));
    }
}

proof fn lemma_no_fault_at(
    seen: Seq<OutPoint>,
    inputs: Seq<CellInput>,
    slots: Seq<Option<CellMeta>>,
    i: int,
    n: int,
)
    requires
        0 <= i < n,
        inputs_fault(seen, inputs, slots, n).is_none(),
    ensures
        input_fault(seen, inputs, slots, i).is_none(),
    decreases n - i,
{
    if i < n - 1 {
        lemma_no_fault_at(seen, inputs, slots, i, n - 1);
    }
}

proof fn lemma_spent_slot_step(slots: Seq<Option<CellMeta>>, inputs: Seq<CellInput>, i: int, j: int)
    requires
        0 <= i < inputs.len(),
    ensures
        spent_slot(slots, inputs.subrange(0, i + 1), j) == (spent_slot(
            slots,
            inputs.subrange(0, i),
            j,
        ) || cell_index(slots, inputs[i].previous_output) == j),
{
    let shorter = inputs.subrange(0, i);
    let longer = inputs.subrange(0, i + 1);
    if spent_slot(slots, shorter, j) {
        let k = choose|k: int|
            0 <= k < shorter.len() && cell_index(slots, (#[trigger] shorter[k]).previous_output)
                == j;
        assert(longer[k] == shorter[k]);
    }
    if cell_index(slots, inputs[i].previous_output) == j {
        assert(longer[i] == inputs[i]);
    }
    if spent_slot(slots, longer, j) {
        let k = choose|k: int|
            0 <= k < longer.len() && cell_index(slots, (#[trigger] longer[k]).previous_output)
                == j;
        if k < i {
            assert(shorter[k] == longer[k]);
        } else {
            assert(longer[k] == inputs[i]);
        }
    }
}

} // verus!
