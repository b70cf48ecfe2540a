//! Fixed-size hashes, short identifiers and checked capacity arithmetic.

use vstd::prelude::*;

verus! {

/// A 32-byte value: a block hash, a transaction hash or a packed DAO field.
#[derive(Clone, Copy, Debug, PartialEq, Eq, Hash)]
pub struct Byte32 {
    pub bytes: [u8; 32],
}

impl View for Byte32 {
    type V = Seq<u8>;

    open spec fn view(&self) -> Seq<u8> {
        self.bytes@
    }
}

impl Byte32 {
    /// The all-zero value.
    pub fn zero() -> (r: Byte32)
        ensures
            r@ == Seq::new(32, |i: int| 0u8),
    {
        let r = Byte32 { bytes: [0u8; 32] };
        assert(r@ =~= Seq::new(32, |i: int| 0u8));
        r
    }

    /// Wraps raw bytes.
    pub fn new(bytes: [u8; 32]) -> (r: Byte32)
        ensures
            r@ == bytes@,
            r.bytes == bytes,
    {
        Byte32 { bytes }
    }

    /// Byte-wise equality.
    pub fn same(&self, other: &Byte32) -> (r: bool)
        ensures
            r == (self@ == other@),
            r == (*self == *other),
    {
        let mut i: usize = 0;
        while i < 32
            invariant
                0 <= i <= 32,
                forall|j: int| 0 <= j < i ==> self.bytes@[j] == other.bytes@[j],
            decreases 32 - i,
        {
            if self.bytes[i] != other.bytes[i] {
                return false;
            }
            i += 1;
        }
        assert(self@ =~= other@);
        assert(self.bytes == other.bytes);
        true
    }
}

/// The first ten bytes of a transaction hash, by which a transaction is
/// proposed and matched in compact blocks.
#[derive(Clone, Copy, Debug, PartialEq, Eq, Hash)]
pub struct ProposalShortId {
    pub bytes: [u8; 10],
}

impl View for ProposalShortId {
    type V = Seq<u8>;

    open spec fn view(&self) -> Seq<u8> {
        self.bytes@
    }
}

impl ProposalShortId {
    /// The all-zero identifier.
    pub fn zero() -> (r: ProposalShortId)
        ensures
            r@ == Seq::new(10, |i: int| 0u8),
    {
        let r = ProposalShortId { bytes: [0u8; 10] };
        assert(r@ =~= Seq::new(10, |i: int| 0u8));
        r
    }

    /// Wraps raw bytes.
    pub fn new(bytes: [u8; 10]) -> (r: ProposalShortId)
        ensures
            r@ == bytes@,
    {
        ProposalShortId { bytes }
    }

    /// The identifier of the transaction with hash `hash`: its first ten
    /// bytes.
    pub fn from_tx_hash(hash: &Byte32) -> (r: ProposalShortId)
        ensures
            r@ == hash@.subrange(0, 10),
    {
        let mut bytes = [0u8; 10];
        let mut i: usize = 0;
        while i < 10
            invariant
                0 <= i <= 10,
                forall|j: int| 0 <= j < i ==> bytes@[j] == hash.bytes@[j],
            decreases 10 - i,
        {
            bytes[i] = hash.bytes[i];
            i += 1;
        }
        let r = ProposalShortId { bytes };
        assert(r@ =~= hash@.subrange(0, 10));
        r
    }

    /// Byte-wise equality.
    pub fn same(&self, other: &ProposalShortId) -> (r: bool)
        ensures
            r == (self@ == other@),
            r == (*self == *other),
    {
        let mut i: usize = 0;
        while i < 10
            invariant
                0 <= i <= 10,
                forall|j: int| 0 <= j < i ==> self.bytes@[j] == other.bytes@[j],
            decreases 10 - i,
        {
            if self.bytes[i] != other.bytes[i] {
                return false;
            }
            i += 1;
        }
        assert(self@ =~= other@);
        assert(self.bytes == other.bytes);
        true
    }
}

/// Byte-wise equality of two byte strings.
pub fn bytes_same(a: &Vec<u8>, b: &Vec<u8>) -> (r: bool)
    ensures
        r == (a@ == b@),
{
    if a.len() != b.len() {
        return false;
    }
    let mut i: usize = 0;
    while i < a.len()
        invariant
            0 <= i <= a.len(),
            a.len() == b.len(),
            forall|j: int| 0 <= j < i ==> a@[j] == b@[j],
        decreases a.len() - i,
    {
        if a[i] != b[i] {
            return false;
        }
        i += 1;
    }
    assert(a@ =~= b@);
    true
}

/// The first position at or after `from` at which `key` stands in `keys`,
/// or -1 where there is none.
pub open spec fn position_from(keys: Seq<Seq<u8>>, key: Seq<u8>, from: int) -> int
    decreases keys.len() - from,
{
    if from < 0 || from >= keys.len() {
        -1
    } else if keys[from] == key {
        from
    } else {
        position_from(keys, key, from + 1)
    }
}

/// The first position of `key` in `keys`, or -1 where it is absent.
pub open spec fn position(keys: Seq<Seq<u8>>, key: Seq<u8>) -> int {
    position_from(keys, key, 0)
}

/// The position of a key from `from` on is the first index at or after `from`
/// that holds it.
pub proof fn lemma_position_from(keys: Seq<Seq<u8>>, key: Seq<u8>, from: int)
    requires
        0 <= from,
    ensures
        position_from(keys, key, from) == -1 || from <= position_from(keys, key, from)
            < keys.len(),
        position_from(keys, key, from) == -1 ==> forall|j: int|
            from <= j < keys.len() ==> keys[j] != key,
        position_from(keys, key, from) >= 0 ==> keys[position_from(keys, key, from)] == key
            && forall|j: int| from <= j < position_from(keys, key, from) ==> keys[j] != key,
    decreases keys.len() - from,
{
    if from < keys.len() && keys[from] != key {
        lemma_position_from(keys, key, from + 1);
    }
}

/// What `position` returns: the first index that holds the key, or -1 and
/// no index holds it.
pub proof fn lemma_position(keys: Seq<Seq<u8>>, key: Seq<u8>)
    ensures
        position(keys, key) == -1 || 0 <= position(keys, key) < keys.len(),
        position(keys, key) == -1 ==> forall|j: int| 0 <= j < keys.len() ==> keys[j] != key,
        position(keys, key) >= 0 ==> keys[position(keys, key)] == key && forall|j: int|
            0 <= j < position(keys, key) ==> keys[j] != key,
{
    lemma_position_from(keys, key, 0);
}

/// The first index that holds the key is its position.
pub proof fn lemma_position_is(keys: Seq<Seq<u8>>, key: Seq<u8>, i: int)
    requires
        0 <= i < keys.len(),
        keys[i] == key,
        forall|j: int| 0 <= j < i ==> keys[j] != key,
    ensures
        position(keys, key) == i,
{
    lemma_position(keys, key);
}

/// A key that no index holds has no position.
pub proof fn lemma_position_none(keys: Seq<Seq<u8>>, key: Seq<u8>)
    requires
        forall|j: int| 0 <= j < keys.len() ==> keys[j] != key,
    ensures
        position(keys, key) == -1,
{
    lemma_position(keys, key);
}

/// The byte strings of a list of hashes.
pub open spec fn hash_keys(hashes: Seq<Byte32>) -> Seq<Seq<u8>> {
    Seq::new(hashes.len(), |i: int| hashes[i]@)
}

/// The byte strings of a list of short identifiers.
pub open spec fn short_id_keys(ids: Seq<ProposalShortId>) -> Seq<Seq<u8>> {
    Seq::new(ids.len(), |i: int| ids[i]@)
}

/// The first position of `key` among `hashes`.
pub fn find_hash(hashes: &Vec<Byte32>, key: &Byte32) -> (r: Option<usize>)
    ensures
        r.is_none() <==> position(hash_keys(hashes@), key@) == -1,
        r.is_some() ==> r.unwrap() as int == position(hash_keys(hashes@), key@) && r.unwrap() < hashes@.len(),
{
    let mut i: usize = 0;
    while i < hashes.len()
        invariant
            0 <= i <= hashes.len(),
            forall|j: int| 0 <= j < i ==> hash_keys(hashes@)[j] != key@,
        decreases hashes.len() - i,
    {
        if hashes[i].same(key) {
            proof {
                lemma_position_is(hash_keys(hashes@), key@, i as int);
            }
            return Some(i);
        }
        i += 1;
    }
    proof {
        lemma_position_none(hash_keys(hashes@), key@);
    }
    None
}

/// The first position of `key` among `ids`.
pub fn find_short_id(ids: &Vec<ProposalShortId>, key: &ProposalShortId) -> (r: Option<usize>)
    ensures
        r.is_none() <==> position(short_id_keys(ids@), key@) == -1,
        r.is_some() ==> r.unwrap() as int == position(short_id_keys(ids@), key@) && r.unwrap() < ids@.len(),
{
    let mut i: usize = 0;
    while i < ids.len()
        invariant
            0 <= i <= ids.len(),
            forall|j: int| 0 <= j < i ==> short_id_keys(ids@)[j] != key@,
        decreases ids.len() - i,
    {
        if ids[i].same(key) {
            proof {
                lemma_position_is(short_id_keys(ids@), key@, i as int);
            }
            return Some(i);
        }
        i += 1;
    }
    proof {
        lemma_position_none(short_id_keys(ids@), key@);
    }
    None
}

/// Whether the identifier `id` occurs in `ids`.
pub open spec fn contains_short_id(ids: Seq<ProposalShortId>, id: Seq<u8>) -> bool {
    exists|i: int| 0 <= i < ids.len() && (#[trigger] ids[i])@ == id
}

/// Whether `id` occurs in `ids`.
pub fn has_short_id(ids: &Vec<ProposalShortId>, id: &ProposalShortId) -> (r: bool)
    ensures
        r == contains_short_id(ids@, id@),
{
    let mut i: usize = 0;
    while i < ids.len()
        invariant
            0 <= i <= ids.len(),
            forall|j: int| 0 <= j < i ==> (#[trigger] ids@[j])@ != id@,
        decreases ids.len() - i,
    {
        if ids[i].same(id) {
            return true;
        }
        i += 1;
    }
    false
}

/// Appends `src` to `dst`.
pub fn extend_short_ids(dst: &mut Vec<ProposalShortId>, src: &Vec<ProposalShortId>)
    ensures
        final(dst)@ == old(dst)@ + src@,
        forall|id: Seq<u8>|
            #![trigger contains_short_id(final(dst)@, id)]
            contains_short_id(final(dst)@, id) <==> contains_short_id(old(dst)@, id)
                || contains_short_id(src@, id),
{
    let ghost before = dst@;
    let mut i: usize = 0;
    while i < src.len()
        invariant
            0 <= i <= src.len(),
            dst@ == before + src@.subrange(0, i as int),
        decreases src.len() - i,
    {
        dst.push(src[i]);
        assert(dst@ =~= before + src@.subrange(0, i as int + 1));
        i += 1;
    }
    assert(src@.subrange(0, src@.len() as int) =~= src@);
    proof {
        let after = dst@;
        assert forall|id: Seq<u8>|
            contains_short_id(after, id) <==> contains_short_id(before, id) || contains_short_id(
                src@,
                id,
            ) by {
            if contains_short_id(before, id) {
                let k = choose|k: int| 0 <= k < before.len() && (#[trigger] before[k])@ == id;
                assert(after[k] == before[k]);
            }
            if contains_short_id(src@, id) {
                let k = choose|k: int| 0 <= k < src@.len() && (#[trigger] src@[k])@ == id;
                assert(after[before.len() + k] == src@[k]);
            }
            if contains_short_id(after, id) {
                let k = choose|k: int| 0 <= k < after.len() && (#[trigger] after[k])@ == id;
                if k < before.len() {
                    assert(before[k] == after[k]);
                } else {
                    assert(src@[k - before.len()] == after[k]);
                }
            }
        }
    }
}

/// Why a capacity computation failed.
#[derive(Clone, Copy, Debug, PartialEq, Eq, Structural)]
pub enum CapacityError {
    /// The exact result does not fit in 64 bits, or is negative.
    Overflow,
}

/// Shannons in one byte of cell capacity.
pub const SHANNONS_PER_BYTE: u64 = 100_000_000;

/// An amount of capacity, counted in shannons.
#[derive(Clone, Copy, Debug, PartialEq, Eq, Structural)]
pub struct Capacity {
    pub shannons: u64,
}

/// A fraction `numer / denom`.
#[derive(Clone, Copy, Debug, PartialEq, Eq, Structural)]
pub struct Ratio {
    pub numer: u64,
    pub denom: u64,
}

impl Capacity {
    /// No capacity.
    pub fn zero() -> (r: Capacity)
        ensures
            r.shannons == 0,
    {
        Capacity { shannons: 0 }
    }

    /// One shannon.
    pub fn one() -> (r: Capacity)
        ensures
            r.shannons == 1,
    {
        Capacity { shannons: 1 }
    }

    /// The given number of shannons.
    pub fn shannons(value: u64) -> (r: Capacity)
        ensures
            r.shannons == value,
    {
        Capacity { shannons: value }
    }

    /// The capacity that `count` bytes occupy.
    pub fn bytes(count: usize) -> (r: Result<Capacity, CapacityError>)
        ensures
            count * SHANNONS_PER_BYTE <= u64::MAX ==> r == Ok::<Capacity, CapacityError>(
                Capacity { shannons: (count * SHANNONS_PER_BYTE) as u64 },
            ),
            count * SHANNONS_PER_BYTE > u64::MAX ==> r == Err::<Capacity, CapacityError>(
                CapacityError::Overflow,
            ),
    {
        assert(SHANNONS_PER_BYTE == 100_000_000u64);
        let wide: u128 = (count as u128) * 100_000_000u128;
        if wide > u64::MAX as u128 {
            Err(CapacityError::Overflow)
        } else {
            Ok(Capacity { shannons: wide as u64 })
        }
    }

    /// The amount in shannons.
    pub fn as_u64(self) -> (r: u64)
        ensures
            r == self.shannons,
    {
        self.shannons
    }

    /// The sum, or `Overflow` where it exceeds 64 bits.
    pub fn safe_add(self, rhs: Capacity) -> (r: Result<Capacity, CapacityError>)
        ensures
            self.shannons + rhs.shannons <= u64::MAX ==> r == Ok::<Capacity, CapacityError>(
                Capacity { shannons: (self.shannons + rhs.shannons) as u64 },
            ),
            self.shannons + rhs.shannons > u64::MAX ==> r == Err::<Capacity, CapacityError>(
                CapacityError::Overflow,
            ),
    {
        if self.shannons > u64::MAX - rhs.shannons {
            Err(CapacityError::Overflow)
        } else {
            Ok(Capacity { shannons: self.shannons + rhs.shannons })
        }
    }

    /// The difference, or `Overflow` where `rhs` is the larger amount.
    pub fn safe_sub(self, rhs: Capacity) -> (r: Result<Capacity, CapacityError>)
        ensures
            self.shannons >= rhs.shannons ==> r == Ok::<Capacity, CapacityError>(
                Capacity { shannons: (self.shannons - rhs.shannons) as u64 },
            ),
            self.shannons < rhs.shannons ==> r == Err::<Capacity, CapacityError>(
                CapacityError::Overflow,
            ),
    {
        if self.shannons < rhs.shannons {
            Err(CapacityError::Overflow)
        } else {
            Ok(Capacity { shannons: self.shannons - rhs.shannons })
        }
    }

    /// The amount times `ratio`, rounded down, or `Overflow` where that
    /// exceeds 64 bits.
    pub fn safe_mul_ratio(self, ratio: Ratio) -> (r: Result<Capacity, CapacityError>)
        requires
            ratio.denom > 0,
        ensures
            mul_div(self.shannons, ratio.numer, ratio.denom) <= u64::MAX ==> r == Ok::<
                Capacity,
                CapacityError,
            >(Capacity { shannons: mul_div(self.shannons, ratio.numer, ratio.denom) as u64 }),
            mul_div(self.shannons, ratio.numer, ratio.denom) > u64::MAX ==> r == Err::<
                Capacity,
                CapacityError,
            >(CapacityError::Overflow),
    {
        match mul_div_u64(self.shannons, ratio.numer, ratio.denom) {
            Some(v) => Ok(Capacity { shannons: v }),
            None => Err(CapacityError::Overflow),
        }
    }
}

/// The sum of the first `n` amounts.
pub open spec fn amounts_sum(amounts: Seq<Capacity>, n: int) -> int
    decreases n,
{
    if n <= 0 {
        0
    } else {
        amounts_sum(amounts, n - 1) + amounts[n - 1].shannons
    }
}

/// A longer prefix of amounts has no smaller sum.
pub proof fn lemma_amounts_sum_monotone(amounts: Seq<Capacity>, i: int, n: int)
    requires
        0 <= i <= n,
    ensures
        0 <= amounts_sum(amounts, i) <= amounts_sum(amounts, n),
    decreases n,
{
    if i < n {
        lemma_amounts_sum_monotone(amounts, i, n - 1);
    } else if n > 0 {
        lemma_amounts_sum_monotone(amounts, i - 1, n - 1);
    }
}

/// The sum of all `amounts`, or `Overflow` where it exceeds 64 bits.
pub fn sum_capacities(amounts: &Vec<Capacity>) -> (r: Result<Capacity, CapacityError>)
    ensures
        amounts_sum(amounts@, amounts@.len() as int) <= u64::MAX ==> r == Ok::<
            Capacity,
            CapacityError,
        >(Capacity { shannons: amounts_sum(amounts@, amounts@.len() as int) as u64 }),
        amounts_sum(amounts@, amounts@.len() as int) > u64::MAX ==> r == Err::<
            Capacity,
            CapacityError,
        >(CapacityError::Overflow),
{
    let mut total: u64 = 0;
    let mut i: usize = 0;
    while i < amounts.len()
        invariant
            0 <= i <= amounts.len(),
            total == amounts_sum(amounts@, i as int),
        decreases amounts.len() - i,
    {
        let c: u64 = amounts[i].shannons;
        if total > u64::MAX - c {
            proof {
                lemma_amounts_sum_monotone(amounts@, i as int + 1, amounts@.len() as int);
            }
            return Err(CapacityError::Overflow);
        }
        total = total + c;
        i += 1;
    }
    Ok(Capacity { shannons: total })
}

/// `a * b / c`, rounded down, over the integers.
pub open spec fn mul_div(a: u64, b: u64, c: u64) -> int {
    (a as int * b as int) / (c as int)
}

/// Computes `a * b / c` through 128-bit arithmetic; `None` where the
/// quotient exceeds 64 bits.
pub fn mul_div_u64(a: u64, b: u64, c: u64) -> (r: Option<u64>)
    requires
        c > 0,
    ensures
        mul_div(a, b, c) <= u64::MAX ==> r == Some(mul_div(a, b, c) as u64),
        mul_div(a, b, c) > u64::MAX ==> r.is_none(),
        mul_div(a, b, c) >= 0,
{
    assert((a as int) * (b as int) <= (u64::MAX as int) * (u64::MAX as int)) by (nonlinear_arith)
        requires
            0 <= a as int <= u64::MAX as int,
            0 <= b as int <= u64::MAX as int,
    ;
    assert((a as int) * (b as int) >= 0) by (nonlinear_arith)
        requires
            0 <= a as int,
            0 <= b as int,
    ;
    let product: u128 = (a as u128) * (b as u128);
    let quotient: u128 = product / (c as u128);
    assert(quotient as int == mul_div(a, b, c));
    if quotient > u64::MAX as u128 {
        None
    } else {
        Some(quotient as u64)
    }
}

} // verus!
