//! The 32-byte DAO field of a header: its layout, and the field of the
//! genesis block.
//!
//! Byte 0 holds the version, bytes 1 to 7 are zero, and three little-endian
//! 64-bit numbers follow: the accumulated rate, the total issuance and the
//! total occupied capacity.

use vstd::prelude::*;
use vstd::bytes::lemma_auto_spec_u64_to_from_le_bytes;
use vstd::bytes::spec_u64_from_le_bytes;
use vstd::bytes::spec_u64_to_le_bytes;
use vstd::slice::slice_subrange;
use byteorder::ByteOrder;
use byteorder::LittleEndian;
use crate::primitives::Byte32;
use crate::primitives::Capacity;
use crate::primitives::CapacityError;
use crate::primitives::Ratio;
use crate::primitives::amounts_sum;
use crate::primitives::bytes_same;
use crate::primitives::lemma_amounts_sum_monotone;
use crate::primitives::mul_div;
use crate::primitives::sum_capacities;
use crate::types::CellOutput;
use crate::types::Transaction;
use crate::types::lemma_capacity_sum_monotone;

verus! {

/// The accumulated rate of the genesis block: 10^16, so that rates keep
/// sixteen decimal digits of precision.
pub const DEFAULT_ACCUMULATED_RATE: u64 = 10_000_000_000_000_000;

/// The version of the Nervos DAO rules.
pub const DAO_VERSION: u8 = 1;

/// The length of a DAO field in bytes.
pub const DAO_SIZE: usize = 32;

/// What can go wrong with DAO data.
#[derive(Clone, Copy, Debug, PartialEq, Eq, Structural)]
pub enum Error {
    Unknown,
    InvalidHeader,
    InvalidOutPoint,
    /// The field does not carry the supported version.
    Format,
}

/// `LittleEndian::read_u64` of `byteorder`: the number whose little-endian
/// encoding is the first eight bytes of `buf`. The call panics on a shorter
/// buffer, which the precondition rules out.
#[verifier::external_body]
pub(crate) fn read_u64_le(buf: &[u8]) -> (r: u64)
    requires
        buf@.len() >= 8,
    ensures
        r == spec_u64_from_le_bytes(buf@.subrange(0, 8)),
{
    LittleEndian::read_u64(buf)
}

/// `LittleEndian::write_u64` of `byteorder`, on a fresh buffer of eight
/// bytes: the little-endian encoding of `n`.
#[verifier::external_body]
pub(crate) fn write_u64_le(n: u64) -> (r: [u8; 8])
    ensures
        r@ == spec_u64_to_le_bytes(n),
{
    let mut buf = [0u8; 8];
    LittleEndian::write_u64(&mut buf, n);
    buf
}

/// The bytes of the DAO field that carries `ar`, `c` and `u`.
pub open spec fn dao_bytes(ar: u64, c: u64, u: u64) -> Seq<u8> {
    seq![DAO_VERSION, 0u8, 0u8, 0u8, 0u8, 0u8, 0u8, 0u8] + spec_u64_to_le_bytes(ar)
        + spec_u64_to_le_bytes(c) + spec_u64_to_le_bytes(u)
}

/// The accumulated rate that a field of 32 bytes carries.
pub open spec fn dao_ar(dao: Seq<u8>) -> u64 {
    spec_u64_from_le_bytes(dao.subrange(8, 16))
}

/// The total issuance that a field of 32 bytes carries.
pub open spec fn dao_c(dao: Seq<u8>) -> u64 {
    spec_u64_from_le_bytes(dao.subrange(16, 24))
}

/// The total occupied capacity that a field of 32 bytes carries.
pub open spec fn dao_u(dao: Seq<u8>) -> u64 {
    spec_u64_from_le_bytes(dao.subrange(24, 32))
}

/// A field is well formed when it has the supported version and its
/// reserved bytes are zero.
pub open spec fn dao_well_formed(dao: Seq<u8>) -> bool {
    &&& dao.len() == 32
    &&& dao[0] == DAO_VERSION
    &&& forall|i: int| 1 <= i < 8 ==> dao[i] == 0u8
}

/// Packs the three numbers into a DAO field.
pub fn pack_dao_data(ar: u64, c: Capacity, u: Capacity) -> (r: Byte32)
    ensures
        r@ == dao_bytes(ar, c.shannons, u.shannons),
{
    let a = write_u64_le(ar);
    let cb = write_u64_le(c.shannons);
    let ub = write_u64_le(u.shannons);
    let mut buf = [0u8; 32];
    buf[0] = DAO_VERSION;
    let mut i: usize = 0;
    while i < 8
        invariant
            0 <= i <= 8,
            buf@[0] == DAO_VERSION,
            forall|j: int| 1 <= j < 8 ==> buf@[j] == 0u8,
            forall|j: int|
                0 <= j < i ==> buf@[8 + j] == a@[j] && buf@[16 + j] == cb@[j] && buf@[24 + j]
                    == ub@[j],
        decreases 8 - i,
    {
        buf[8 + i] = a[i];
        buf[16 + i] = cb[i];
        buf[24 + i] = ub[i];
        i += 1;
    }
    let r = Byte32 { bytes: buf };
    assert(r@ =~= dao_bytes(ar, c.shannons, u.shannons));
    r
}

/// Reads the three numbers out of a DAO field. Fails with `Format` exactly
/// when the version byte is not the supported one.
pub fn extract_dao_data(dao: Byte32) -> (r: Result<(u64, Capacity, Capacity), Error>)
    ensures
        dao@[0] != DAO_VERSION ==> r == Err::<(u64, Capacity, Capacity), Error>(Error::Format),
        dao@[0] == DAO_VERSION ==> r == Ok::<(u64, Capacity, Capacity), Error>(
            (dao_ar(dao@), Capacity { shannons: dao_c(dao@) }, Capacity { shannons: dao_u(dao@) }),
        ),
{
    if dao.bytes[0] != DAO_VERSION {
        return Err(Error::Format);
    }
    let data = dao.bytes.as_slice();
    let s1 = slice_subrange(data, 8, 16);
    let s2 = slice_subrange(data, 16, 24);
    let s3 = slice_subrange(data, 24, 32);
    assert(s1@.subrange(0, 8) =~= dao@.subrange(8, 16));
    assert(s2@.subrange(0, 8) =~= dao@.subrange(16, 24));
    assert(s3@.subrange(0, 8) =~= dao@.subrange(24, 32));
    let ar = read_u64_le(s1);
    let c = read_u64_le(s2);
    let u = read_u64_le(s3);
    Ok((ar, Capacity { shannons: c }, Capacity { shannons: u }))
}

/// What the genesis DAO field needs beside the genesis transactions.
#[derive(Clone, Debug, PartialEq, Eq)]
pub struct GenesisSettings {
    /// The primary issuance of the genesis block.
    pub primary_issuance: Capacity,
    /// The secondary issuance of the genesis block.
    pub secondary_issuance: Capacity,
    /// Lock arguments that mark a cell as part of the Satoshi gift.
    pub satoshi_pubkey_hash: Vec<u8>,
    /// The share of such a cell's capacity that counts as occupied.
    pub satoshi_cell_occupied_ratio: Ratio,
}

/// The occupied capacity of a genesis cell: a share of its capacity where
/// the lock arguments are the Satoshi key hash, its size in bytes otherwise.
pub open spec fn genesis_cell_occupied(
    output: CellOutput,
    data_len: int,
    settings: GenesisSettings,
) -> int {
    if output.lock.args@ == settings.satoshi_pubkey_hash@ {
        mul_div(
            output.capacity.shannons,
            settings.satoshi_cell_occupied_ratio.numer,
            settings.satoshi_cell_occupied_ratio.denom,
        )
    } else {
        output.spec_occupied(data_len)
    }
}

/// The number of outputs of a transaction that come with their data.
pub open spec fn paired_outputs(tx: Transaction) -> int {
    if tx.outputs@.len() <= tx.outputs_data@.len() {
        tx.outputs@.len() as int
    } else {
        tx.outputs_data@.len() as int
    }
}

/// The occupied capacity of the first `n` outputs of a genesis transaction.
pub open spec fn tx_occupied_sum(tx: Transaction, settings: GenesisSettings, n: int) -> int
    decreases n,
{
    if n <= 0 {
        0
    } else {
        tx_occupied_sum(tx, settings, n - 1) + genesis_cell_occupied(
            tx.outputs@[n - 1],
            tx.outputs_data@[n - 1]@.len() as int,
            settings,
        )
    }
}

/// The occupied capacity of all outputs of a genesis transaction.
pub open spec fn tx_occupied(tx: Transaction, settings: GenesisSettings) -> int {
    tx_occupied_sum(tx, settings, paired_outputs(tx))
}

/// The capacity of all outputs of the first `m` transactions.
pub open spec fn txs_capacity_sum(txs: Seq<Transaction>, m: int) -> int
    decreases m,
{
    if m <= 0 {
        0
    } else {
        txs_capacity_sum(txs, m - 1) + txs[m - 1].spec_outputs_capacity()
    }
}

/// The occupied capacity of all outputs of the first `m` transactions.
pub open spec fn txs_occupied_sum(txs: Seq<Transaction>, settings: GenesisSettings, m: int) -> int
    decreases m,
{
    if m <= 0 {
        0
    } else {
        txs_occupied_sum(txs, settings, m - 1) + tx_occupied(txs[m - 1], settings)
    }
}

/// Total issuance before the spent cells are taken off: the outputs of the
/// genesis transactions and the two issuances of the genesis block.
pub open spec fn genesis_gross_c(txs: Seq<Transaction>, settings: GenesisSettings) -> int {
    txs_capacity_sum(txs, txs.len() as int) + settings.primary_issuance.shannons
        + settings.secondary_issuance.shannons
}

/// Occupied capacity before the spent cells are taken off.
pub open spec fn genesis_gross_u(txs: Seq<Transaction>, settings: GenesisSettings) -> int {
    txs_occupied_sum(txs, settings, txs.len() as int)
}

/// The genesis numbers fit when neither gross total exceeds 64 bits and
/// neither is smaller than what the spent cells take off.
pub open spec fn genesis_fits(
    txs: Seq<Transaction>,
    inputs: Seq<Capacity>,
    spent: Seq<Capacity>,
    settings: GenesisSettings,
) -> bool {
    &&& genesis_gross_c(txs, settings) <= u64::MAX
    &&& genesis_gross_u(txs, settings) <= u64::MAX
    &&& amounts_sum(spent, spent.len() as int) <= genesis_gross_c(txs, settings)
    &&& amounts_sum(inputs, inputs.len() as int) <= genesis_gross_u(txs, settings)
}

proof fn lemma_tx_occupied_sum_monotone(tx: Transaction, settings: GenesisSettings, i: int, n: int)
    requires
        0 <= i <= n,
        settings.satoshi_cell_occupied_ratio.denom > 0,
    ensures
        0 <= tx_occupied_sum(tx, settings, i) <= tx_occupied_sum(tx, settings, n),
    decreases n,
{
    if n > 0 {
        let o = tx.outputs@[n - 1];
        let r = settings.satoshi_cell_occupied_ratio;
        assert((o.capacity.shannons as int * r.numer as int) / (r.denom as int) >= 0)
            by (nonlinear_arith)
            requires
                o.capacity.shannons >= 0,
                r.numer >= 0,
                r.denom > 0,
        ;
        assert(o.spec_occupied(tx.outputs_data@[n - 1]@.len() as int) >= 0) by (nonlinear_arith)
            requires
                o.spec_occupied_bytes(tx.outputs_data@[n - 1]@.len() as int) >= 0,
                o.spec_occupied(tx.outputs_data@[n - 1]@.len() as int) == o.spec_occupied_bytes(
                    tx.outputs_data@[n - 1]@.len() as int,
                ) * 100_000_000,
        ;
        if i < n {
            lemma_tx_occupied_sum_monotone(tx, settings, i, n - 1);
        } else {
            lemma_tx_occupied_sum_monotone(tx, settings, i - 1, n - 1);
        }
    }
}

proof fn lemma_txs_sums_monotone(txs: Seq<Transaction>, settings: GenesisSettings, i: int, m: int)
    requires
        0 <= i <= m,
        settings.satoshi_cell_occupied_ratio.denom > 0,
    ensures
        0 <= txs_capacity_sum(txs, i) <= txs_capacity_sum(txs, m),
        0 <= txs_occupied_sum(txs, settings, i) <= txs_occupied_sum(txs, settings, m),
    decreases m,
{
    if m > 0 {
        let tx = txs[m - 1];
        lemma_capacity_sum_monotone(tx.outputs@, 0, tx.outputs@.len() as int);
        lemma_tx_occupied_sum_monotone(tx, settings, 0, paired_outputs(tx));
        if i < m {
            lemma_txs_sums_monotone(txs, settings, i, m - 1);
        } else {
            lemma_txs_sums_monotone(txs, settings, i - 1, m - 1);
        }
    }
}

/// The occupied capacity of all outputs of a genesis transaction, or
/// `Overflow` where it exceeds 64 bits.
fn genesis_tx_occupied(tx: &Transaction, settings: &GenesisSettings) -> (r: Result<
    Capacity,
    CapacityError,
>)
    requires
        settings.satoshi_cell_occupied_ratio.denom > 0,
    ensures
        tx_occupied(*tx, *settings) <= u64::MAX ==> r == Ok::<Capacity, CapacityError>(
            Capacity { shannons: tx_occupied(*tx, *settings) as u64 },
        ),
        tx_occupied(*tx, *settings) > u64::MAX ==> r == Err::<Capacity, CapacityError>(
            CapacityError::Overflow,
        ),
{
    let n: usize = if tx.outputs.len() <= tx.outputs_data.len() {
        tx.outputs.len()
    } else {
        tx.outputs_data.len()
    };
    let mut total: u64 = 0;
    let mut i: usize = 0;
    while i < n
        invariant
            0 <= i <= n,
            n as int == paired_outputs(*tx),
            settings.satoshi_cell_occupied_ratio.denom > 0,
            total == tx_occupied_sum(*tx, *settings, i as int),
        decreases n - i,
    {
        let output = &tx.outputs[i];
        let cell = if bytes_same(&output.lock.args, &settings.satoshi_pubkey_hash) {
            output.capacity.safe_mul_ratio(settings.satoshi_cell_occupied_ratio)
        } else {
            output.occupied_capacity(tx.outputs_data[i].len())
        };
        proof {
            lemma_tx_occupied_sum_monotone(*tx, *settings, i as int + 1, n as int);
        }
        match cell {
            Err(e) => {
                proof {
                    lemma_tx_occupied_sum_monotone(*tx, *settings, 0, i as int);
                }
                return Err(CapacityError::Overflow);
            },
            Ok(c) => {
                if total > u64::MAX - c.shannons {
                    return Err(CapacityError::Overflow);
                }
                total = total + c.shannons;
            },
        }
        i += 1;
    }
    Ok(Capacity { shannons: total })
}

/// The DAO field of the genesis block.
///
/// `txs` are the genesis transactions, `inputs` the occupied capacities of
/// the cells they spend and `spent` the capacities of those cells. The
/// field carries the default accumulated rate, the total issuance (outputs
/// plus both issuances of the block, less the spent capacities) and the
/// occupied capacity (of the outputs, less that of the spent cells).
/// Fails with `Overflow` exactly when one of these numbers does not fit.
pub fn genesis_dao_data(
    txs: &Vec<Transaction>,
    inputs: &Vec<Capacity>,
    spent: &Vec<Capacity>,
    settings: &GenesisSettings,
) -> (r: Result<Byte32, CapacityError>)
    requires
        settings.satoshi_cell_occupied_ratio.denom > 0,
    ensures
        genesis_fits(txs@, inputs@, spent@, *settings) ==> r.is_ok() && r.unwrap()@ == dao_bytes(
            DEFAULT_ACCUMULATED_RATE,
            (genesis_gross_c(txs@, *settings) - amounts_sum(spent@, spent@.len() as int)) as u64,
            (genesis_gross_u(txs@, *settings) - amounts_sum(inputs@, inputs@.len() as int)) as u64,
        ),
        !genesis_fits(txs@, inputs@, spent@, *settings) ==> r == Err::<Byte32, CapacityError>(
            CapacityError::Overflow,
        ),
{
    let mut c: u64 = 0;
    let mut u: u64 = 0;
    let mut i: usize = 0;
    while i < txs.len()
        invariant
            0 <= i <= txs.len(),
            settings.satoshi_cell_occupied_ratio.denom > 0,
            c == txs_capacity_sum(txs@, i as int),
            u == txs_occupied_sum(txs@, *settings, i as int),
        decreases txs.len() - i,
    {
        proof {
            lemma_txs_sums_monotone(txs@, *settings, i as int + 1, txs@.len() as int);
            lemma_txs_sums_monotone(txs@, *settings, 0, i as int);
            lemma_capacity_sum_monotone(txs@[i as int].outputs@, 0, txs@[i as int].outputs@.len() as int);
            lemma_tx_occupied_sum_monotone(txs@[i as int], *settings, 0, paired_outputs(txs@[i as int]));
        }
        let tx_c = match txs[i].outputs_capacity() {
            Ok(v) => v,
            Err(_) => {
                return Err(CapacityError::Overflow);
            },
        };
        let tx_u = match genesis_tx_occupied(&txs[i], settings) {
            Ok(v) => v,
            Err(_) => {
                return Err(CapacityError::Overflow);
            },
        };
        if c > u64::MAX - tx_c.shannons || u > u64::MAX - tx_u.shannons {
            return Err(CapacityError::Overflow);
        }
        c = c + tx_c.shannons;
        u = u + tx_u.shannons;
        i += 1;
    }
    proof {
        lemma_amounts_sum_monotone(spent@, 0, spent@.len() as int);
        lemma_amounts_sum_monotone(inputs@, 0, inputs@.len() as int);
    }
    if c > u64::MAX - settings.primary_issuance.shannons {
        return Err(CapacityError::Overflow);
    }
    let c1: u64 = c + settings.primary_issuance.shannons;
    if c1 > u64::MAX - settings.secondary_issuance.shannons {
        return Err(CapacityError::Overflow);
    }
    let gross_c: u64 = c1 + settings.secondary_issuance.shannons;
    let spent_total = match sum_capacities(spent) {
        Ok(v) => v,
        Err(_) => {
            return Err(CapacityError::Overflow);
        },
    };
    let freed = match sum_capacities(inputs) {
        Ok(v) => v,
        Err(_) => {
            return Err(CapacityError::Overflow);
        },
    };
    if spent_total.shannons > gross_c || freed.shannons > u {
        return Err(CapacityError::Overflow);
    }
    Ok(
        pack_dao_data(
            DEFAULT_ACCUMULATED_RATE,
            Capacity { shannons: gross_c - spent_total.shannons },
            Capacity { shannons: u - freed.shannons },
        ),
    )
}

/// Packing and then reading gives the numbers back.
pub proof fn lemma_pack_then_extract(ar: u64, c: u64, u: u64)
    ensures
        dao_well_formed(dao_bytes(ar, c, u)),
        dao_ar(dao_bytes(ar, c, u)) == ar,
        dao_c(dao_bytes(ar, c, u)) == c,
        dao_u(dao_bytes(ar, c, u)) == u,
{
    lemma_auto_spec_u64_to_from_le_bytes();
    let d = dao_bytes(ar, c, u);
    assert(d.subrange(8, 16) =~= spec_u64_to_le_bytes(ar));
    assert(d.subrange(16, 24) =~= spec_u64_to_le_bytes(c));
    assert(d.subrange(24, 32) =~= spec_u64_to_le_bytes(u));
}

/// A well-formed field is the packing of the numbers read from it: the
/// field is determined byte for byte by the three numbers.
pub proof fn lemma_extract_then_pack(dao: Seq<u8>)
    requires
        dao_well_formed(dao),
    ensures
        dao_bytes(dao_ar(dao), dao_c(dao), dao_u(dao)) == dao,
{
    lemma_auto_spec_u64_to_from_le_bytes();
    let a = dao.subrange(8, 16);
    let b = dao.subrange(16, 24);
    let c = dao.subrange(24, 32);
    assert(spec_u64_to_le_bytes(spec_u64_from_le_bytes(a)) == a);
    assert(spec_u64_to_le_bytes(spec_u64_from_le_bytes(b)) == b);
    assert(spec_u64_to_le_bytes(spec_u64_from_le_bytes(c)) == c);
    assert(dao_bytes(dao_ar(dao), dao_c(dao), dao_u(dao)) =~= dao);
}

} // verus!
