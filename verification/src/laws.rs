//! What holds of every block that verification accepts, and of every
//! message that the handlers judge.

use vstd::prelude::*;
use crate::contextual_block_verifier::ContextualBlockVerifier;
use crate::contextual_block_verifier::DaoHeaderVerifier;
use crate::contextual_block_verifier::RewardVerifier;
use crate::contextual_block_verifier::commit_fault;
use crate::contextual_block_verifier::commits_proposed;
use crate::contextual_block_verifier::lemma_walk_is_window;
use crate::contextual_block_verifier::proposed_within;
use crate::contextual_block_verifier::spec_block_reward;
use crate::contextual_block_verifier::walk_fault;
use crate::contextual_block_verifier::walk_proposes;
use crate::contextual_block_verifier::window_end;
use crate::contextual_block_verifier::window_start;
use crate::contextual_block_verifier::window_steps;
use crate::dao::DaoCalculator;
use crate::error::TransactionError;
use crate::since::Since;
use crate::since::lemma_since_round_trip;
use crate::status::Status;
use crate::status::StatusCode;
use crate::synchronizer::get_headers_process::GetHeadersProcess;
use crate::tx_verifier::ContextualTransactionVerifier;
use crate::tx_verifier::ResolvedTransaction;
use crate::tx_verifier::TransactionInfo;
use crate::tx_verifier::immature_cellbase;
use crate::tx_verifier::since_fault;
use crate::types::Block;
use crate::types::Transaction;

verus! {

/// Every transaction but the cellbase of a block that passes the checks
/// before its transactions, the genesis block apart, is proposed by a block
/// on the way down the proposal window of the block, or by an uncle of
/// such a block; and the store holds every block on that way.
pub proof fn lemma_commit_closure<'a>(
    verifier: ContextualBlockVerifier<'a>,
    resolved: &'a Vec<ResolvedTransaction<'a>>,
    block: &'a Block,
    j: int,
)
    requires
        verifier.spec_fault(resolved, block).is_none(),
        !block.spec_is_genesis(),
        1 <= j < block.transactions@.len(),
    ensures
        window_end(*verifier.context.consensus, block.header.number)
            < verifier.context.store.main_chain@.len(),
        !walk_fault(
            *verifier.context.store,
            verifier.context.store.main_chain@[window_end(
                *verifier.context.consensus,
                block.header.number,
            )]@,
            window_steps(*verifier.context.consensus, block.header.number),
        ),
        walk_proposes(
            *verifier.context.store,
            verifier.context.store.main_chain@[window_end(
                *verifier.context.consensus,
                block.header.number,
            )]@,
            window_steps(*verifier.context.consensus, block.header.number),
            block.transactions@[j].spec_short_id(),
        ),
{
    assert(commit_fault(*verifier.context.store, *verifier.context.consensus, *block).is_none());
    assert(commits_proposed(*verifier.context.store, *verifier.context.consensus, *block));
}

/// On a store whose main chain is a chain, every transaction but the
/// cellbase of such a block is proposed by a main-chain block with a
/// number within the proposal window of the block, or by an uncle of such
/// a block.
pub proof fn lemma_commit_closure_on_main_chain<'a>(
    verifier: ContextualBlockVerifier<'a>,
    resolved: &'a Vec<ResolvedTransaction<'a>>,
    block: &'a Block,
    j: int,
)
    requires
        verifier.context.store.wf(),
        verifier.spec_fault(resolved, block).is_none(),
        !block.spec_is_genesis(),
        1 <= j < block.transactions@.len(),
    ensures
        proposed_within(
            *verifier.context.store,
            window_start(*verifier.context.consensus, block.header.number),
            window_end(*verifier.context.consensus, block.header.number),
            block.transactions@[j].spec_short_id(),
        ),
{
    lemma_commit_closure(verifier, resolved, block, j);
    lemma_walk_is_window(
        *verifier.context.store,
        window_end(*verifier.context.consensus, block.header.number),
        window_steps(*verifier.context.consensus, block.header.number),
        block.transactions@[j].spec_short_id(),
    );
}

/// The cellbase of a block that passes the checks
/// before its transactions pays out exactly the primary issuance of the
/// parent, its secondary issuance and the fees that it collected.
pub proof fn lemma_reward_conservation<'a>(
    verifier: ContextualBlockVerifier<'a>,
    resolved: &'a Vec<ResolvedTransaction<'a>>,
    block: &'a Block,
)
    requires
        verifier.spec_fault(resolved, block).is_none(),
    ensures
        verifier.context.store.spec_header(block.header.parent_hash@).is_some(),
        spec_block_reward(
            *verifier.context.store,
            verifier.context.store.spec_header(block.header.parent_hash@).unwrap(),
        ).is_ok(),
        resolved@.len() > 0,
        resolved@[0].transaction.spec_outputs_capacity() == spec_block_reward(
            *verifier.context.store,
            verifier.context.store.spec_header(block.header.parent_hash@).unwrap(),
        ).unwrap().primary.shannons + spec_block_reward(
            *verifier.context.store,
            verifier.context.store.spec_header(block.header.parent_hash@).unwrap(),
        ).unwrap().secondary.shannons + spec_block_reward(
            *verifier.context.store,
            verifier.context.store.spec_header(block.header.parent_hash@).unwrap(),
        ).unwrap().committed.shannons,
{
    let parent = verifier.context.store.spec_header(block.header.parent_hash@).unwrap();
    let reward = RewardVerifier { resolved: resolved, parent: &parent, context: verifier.context };
    assert(reward.spec_fault().is_none());
    let b = verifier.context.store.spec_block(parent.hash@).unwrap();
    crate::primitives::lemma_amounts_sum_monotone(
        b.ext.unwrap().txs_fees@,
        0,
        b.ext.unwrap().txs_fees@.len() as int,
    );
}

/// A block that passes the checks
/// before its transactions carries, byte for byte, the DAO field that the
/// calculator gives from its parent and its transactions.
pub proof fn lemma_accepted_dao_field<'a>(
    verifier: ContextualBlockVerifier<'a>,
    resolved: &'a Vec<ResolvedTransaction<'a>>,
    block: &'a Block,
)
    requires
        verifier.spec_fault(resolved, block).is_none(),
    ensures
        verifier.context.store.spec_header(block.header.parent_hash@).is_some(),
        (DaoCalculator {
            consensus: verifier.context.consensus,
            store: verifier.context.store,
        }).spec_dao_field(
            resolved@,
            verifier.context.store.spec_header(block.header.parent_hash@).unwrap(),
        ) == Ok::<Seq<u8>, crate::error::Error>(block.header.dao@),
{
    let parent = verifier.context.store.spec_header(block.header.parent_hash@).unwrap();
    let dao = DaoHeaderVerifier {
        context: verifier.context,
        resolved: resolved,
        parent: &parent,
        header: &block.header,
    };
    assert(dao.spec_fault().is_none());
}

/// A request for headers whose locator has more than 101
/// entries ends as malformed, and a malformed message bans its sender.
pub proof fn lemma_locator_bound(process: GetHeadersProcess)
    requires
        process.message.block_locator_hashes@.len() > crate::MAX_LOCATOR_SIZE,
    ensures
        process.spec_code() == StatusCode::ProtocolMessageIsMalformed,
        (Status { code: process.spec_code() }).spec_should_ban() == Some(
            crate::BAD_MESSAGE_BAN_TIME,
        ),
{
}

/// The short identifier of a transaction is the first
/// ten bytes of its hash.
pub proof fn lemma_short_id(tx: Transaction)
    ensures
        tx.spec_short_id() == tx.hash@.subrange(0, 10),
        tx.spec_short_id().len() == 10,
{
    assert(tx.hash@.len() == 32);
}

/// An input whose `since` is the absolute block
/// number `n` has no fault only in a block of number `n` or more.
pub proof fn lemma_since_absolute_block(
    n: u64,
    info: Option<TransactionInfo>,
    block_number: u64,
    epoch: u64,
    median_now: Option<u64>,
    median_cell: Option<u64>,
)
    requires
        n <= crate::since::SINCE_VALUE_MASK,
    ensures
        since_fault(n, info, block_number, epoch, median_now, median_cell).is_none() <==> block_number
            >= n,
        block_number < n ==> since_fault(n, info, block_number, epoch, median_now, median_cell)
            == Some(TransactionError::Immature),
{
    lemma_since_round_trip(n);
}

/// An input whose `since` is the relative block
/// number `n` has no fault only in a block that lies `n` or more above the
/// block that created the spent cell.
pub proof fn lemma_since_relative_block(
    n: u64,
    info: TransactionInfo,
    block_number: u64,
    epoch: u64,
    median_now: Option<u64>,
    median_cell: Option<u64>,
)
    requires
        n <= crate::since::SINCE_VALUE_MASK,
    ensures
        since_fault(
            0x8000_0000_0000_0000 | n,
            Some(info),
            block_number,
            epoch,
            median_now,
            median_cell,
        ).is_none() <==> block_number - info.block_number >= n,
        block_number - info.block_number < n ==> since_fault(
            0x8000_0000_0000_0000 | n,
            Some(info),
            block_number,
            epoch,
            median_now,
            median_cell,
        ) == Some(TransactionError::Immature),
{
    lemma_since_round_trip(n);
    assert(0x8000_0000_0000_0000u64 | n != 0) by (bit_vector);
}

/// A transaction without fault has no input whose `since` is at fault.
pub proof fn lemma_accepted_inputs(verifier: ContextualTransactionVerifier, i: int)
    requires
        verifier.spec_fault().is_none(),
        0 <= i < verifier.rtx.transaction.inputs@.len(),
    ensures
        verifier.spec_input_fault(i).is_none(),
{
    lemma_no_since_fault(verifier, i, verifier.rtx.transaction.inputs@.len() as int);
}

proof fn lemma_no_since_fault(verifier: ContextualTransactionVerifier, i: int, n: int)
    requires
        0 <= i < n,
        verifier.spec_since_fault(n).is_none(),
    ensures
        verifier.spec_input_fault(i).is_none(),
    decreases n - i,
{
    if i < n - 1 {
        lemma_no_since_fault(verifier, i, n - 1);
    }
}

/// A transaction with an input whose `since` is the
/// absolute block number `n` is without fault only in a block of number
/// `n` or more; with an input whose `since` is the relative block number
/// `n`, only in a block that lies `n` or more above the block that created
/// the spent cell.
pub proof fn lemma_since_matures(verifier: ContextualTransactionVerifier, i: int, n: u64)
    requires
        verifier.rtx.wf(),
        verifier.spec_fault().is_none(),
        0 <= i < verifier.rtx.transaction.inputs@.len(),
        n <= crate::since::SINCE_VALUE_MASK,
    ensures
        verifier.rtx.transaction.inputs@[i].since == n ==> verifier.block_number >= n,
        verifier.rtx.transaction.inputs@[i].since == (0x8000_0000_0000_0000u64 | n)
            ==> verifier.rtx.resolved_inputs@[i].transaction_info.is_some()
            && verifier.block_number
            - verifier.rtx.resolved_inputs@[i].transaction_info.unwrap().block_number >= n,
{
    lemma_accepted_inputs(verifier, i);
    lemma_since_round_trip(n);
    assert(0x8000_0000_0000_0000u64 | n != 0) by (bit_vector);
}

/// A transaction that spends a cellbase output from
/// height `h` is rejected as immature in a block of number `t` while
/// `t - h` is less than the maturity of the chain.
pub proof fn lemma_cellbase_maturity(verifier: ContextualTransactionVerifier, i: int)
    requires
        0 <= i < verifier.rtx.resolved_inputs@.len(),
        verifier.rtx.resolved_inputs@[i].spec_is_cellbase(),
        verifier.block_number - verifier.rtx.resolved_inputs@[i].transaction_info.unwrap().block_number
            < verifier.consensus.cellbase_maturity,
    ensures
        verifier.spec_fault() == Some(TransactionError::CellbaseImmaturity),
{
    assert(immature_cellbase(
        verifier.rtx.resolved_inputs@,
        verifier.block_number,
        verifier.consensus.cellbase_maturity,
        verifier.rtx.resolved_inputs@.len() as int,
    ));
}

} // verus!
