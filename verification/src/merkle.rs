//! Merkle roots over the hashes of a block, with BLAKE2b as the hash.
//!
//! The tree is a complete binary tree laid out in an array: the leaves are
//! its last nodes, and node `i` is the hash of its children `2i + 1` and
//! `2i + 2`.

use vstd::prelude::*;
use blake2b_ref::Blake2bBuilder;
use crate::primitives::Byte32;
use crate::primitives::ProposalShortId;

verus! {

/// The 32-byte BLAKE2b digest of `data` under the personalisation
/// `personal`.
pub uninterp spec fn blake2b_256_digest(personal: Seq<u8>, data: Seq<u8>) -> Seq<u8>;

/// `Blake2bBuilder` and `Blake2b` of `blake2b-ref`: a hasher for digests of
/// 32 bytes with the personalisation `personal` is built, fed `data` and
/// finalised. The result is the named digest; nothing more is claimed of
/// it. The builder panics on a personalisation of more than 16 bytes,
/// which the precondition rules out.
#[verifier::external_body]
pub(crate) fn blake2b_256(personal: &[u8], data: &[u8]) -> (r: [u8; 32])
    requires
        personal@.len() <= 16,
    ensures
        r@ == blake2b_256_digest(personal@, data@),
{
    let mut hasher = Blake2bBuilder::new(32).personal(personal).build();
    hasher.update(data);
    let mut out = [0u8; 32];
    hasher.finalize(&mut out);
    out
}

/// The personalisation of the hashes of this chain: the letters
/// `ckb-default-hash`.
pub open spec fn spec_personalization() -> Seq<u8> {
    seq![
        0x63u8, 0x6b, 0x62, 0x2d, 0x64, 0x65, 0x66, 0x61, 0x75, 0x6c, 0x74, 0x2d, 0x68, 0x61,
        0x73, 0x68,
    ]
}

/// The personalisation of the hashes of this chain.
pub fn personalization() -> (r: [u8; 16])
    ensures
        r@ == spec_personalization(),
{
    let r: [u8; 16] = [
        0x63, 0x6b, 0x62, 0x2d, 0x64, 0x65, 0x66, 0x61, 0x75, 0x6c, 0x74, 0x2d, 0x68, 0x61, 0x73,
        0x68,
    ];
    assert(r@ =~= spec_personalization());
    r
}

/// The digest of `data` as this chain hashes.
pub open spec fn chain_digest(data: Seq<u8>) -> Seq<u8> {
    blake2b_256_digest(spec_personalization(), data)
}

/// The digest of `data`.
pub fn hash_bytes(data: &[u8]) -> (r: Byte32)
    ensures
        r@ == chain_digest(data@),
{
    let personal = personalization();
    Byte32 { bytes: blake2b_256(personal.as_slice(), data) }
}

/// The hash of an inner node with the children `left` and `right`.
pub open spec fn merged(left: Seq<u8>, right: Seq<u8>) -> Seq<u8> {
    chain_digest(left + right)
}

/// The hash of an inner node.
pub fn merge(left: &Byte32, right: &Byte32) -> (r: Byte32)
    ensures
        r@ == merged(left@, right@),
{
    let mut data: Vec<u8> = Vec::new();
    let mut i: usize = 0;
    while i < 32
        invariant
            0 <= i <= 32,
            data@ == left@.subrange(0, i as int),
        decreases 32 - i,
    {
        data.push(left.bytes[i]);
        assert(data@ =~= left@.subrange(0, i as int + 1));
        i += 1;
    }
    let mut j: usize = 0;
    while j < 32
        invariant
            0 <= j <= 32,
            data@ == left@ + right@.subrange(0, j as int),
        decreases 32 - j,
    {
        data.push(right.bytes[j]);
        assert(data@ =~= left@ + right@.subrange(0, j as int + 1));
        j += 1;
    }
    assert(data@ =~= left@ + right@);
    hash_bytes(data.as_slice())
}

/// Node `i` of the tree over `leaves`.
pub open spec fn tree_node(leaves: Seq<Byte32>, i: int) -> Seq<u8>
    decreases 2 * leaves.len() - i,
{
    if i < 0 || i >= 2 * leaves.len() - 1 {
        Seq::<u8>::empty()
    } else if i >= leaves.len() - 1 {
        leaves[i - (leaves.len() - 1)]@
    } else {
        merged(tree_node(leaves, 2 * i + 1), tree_node(leaves, 2 * i + 2))
    }
}

/// The root of the tree over `leaves`: 32 zero bytes for no leaf, the leaf
/// itself for one.
pub open spec fn merkle_root_of(leaves: Seq<Byte32>) -> Seq<u8> {
    if leaves.len() == 0 {
        Seq::new(32, |i: int| 0u8)
    } else {
        tree_node(leaves, 0)
    }
}

/// The root of the tree over `leaves`.
pub fn merkle_root(leaves: &Vec<Byte32>) -> (r: Byte32)
    requires
        leaves@.len() <= usize::MAX / 2,
    ensures
        r@ == merkle_root_of(leaves@),
{
    let n = leaves.len();
    if n == 0 {
        return Byte32::zero();
    }
    let total: usize = 2 * n - 1;
    let mut nodes: Vec<Byte32> = Vec::new();
    let mut k: usize = 0;
    while k < total
        invariant
            0 <= k <= total,
            nodes@.len() == k,
        decreases total - k,
    {
        nodes.push(Byte32::zero());
        k += 1;
    }
    let mut j: usize = 0;
    while j < n
        invariant
            0 <= j <= n,
            n == leaves@.len(),
            total == 2 * n - 1,
            nodes@.len() == total,
            forall|q: int|
                n - 1 <= q < n - 1 + j ==> (#[trigger] nodes@[q])@ == tree_node(leaves@, q),
        decreases n - j,
    {
        nodes[n - 1 + j] = leaves[j];
        j += 1;
    }
    let mut i: usize = n - 1;
    while i > 0
        invariant
            0 <= i <= n - 1,
            n == leaves@.len(),
            total == 2 * n - 1,
            nodes@.len() == total,
            forall|q: int| i <= q < total ==> (#[trigger] nodes@[q])@ == tree_node(leaves@, q),
        decreases i,
    {
        i -= 1;
        let left = nodes[2 * i + 1];
        let right = nodes[2 * i + 2];
        nodes[i] = merge(&left, &right);
    }
    nodes[0]
}

/// The hash of a list of proposals: 32 zero bytes for none, else the
/// digest of the identifiers one after the other.
pub open spec fn proposals_hash_of(proposals: Seq<ProposalShortId>) -> Seq<u8> {
    if proposals.len() == 0 {
        Seq::new(32, |i: int| 0u8)
    } else {
        chain_digest(joined(proposals, proposals.len() as int))
    }
}

/// The bytes of the first `n` identifiers, one after the other.
pub open spec fn joined(proposals: Seq<ProposalShortId>, n: int) -> Seq<u8>
    decreases n,
{
    if n <= 0 {
        Seq::<u8>::empty()
    } else {
        joined(proposals, n - 1) + proposals[n - 1]@
    }
}

/// The hash of a list of proposals.
pub fn proposals_hash(proposals: &Vec<ProposalShortId>) -> (r: Byte32)
    ensures
        r@ == proposals_hash_of(proposals@),
{
    if proposals.len() == 0 {
        return Byte32::zero();
    }
    let mut data: Vec<u8> = Vec::new();
    let mut i: usize = 0;
    while i < proposals.len()
        invariant
            0 <= i <= proposals.len(),
            data@ == joined(proposals@, i as int),
        decreases proposals.len() - i,
    {
        let id = proposals[i];
        let ghost before = data@;
        let mut b: usize = 0;
        while b < 10
            invariant
                0 <= b <= 10,
                data@ == before + id@.subrange(0, b as int),
            decreases 10 - b,
        {
            data.push(id.bytes[b]);
            assert(data@ =~= before + id@.subrange(0, b as int + 1));
            b += 1;
        }
        assert(id@.subrange(0, 10) =~= id@);
        i += 1;
    }
    hash_bytes(data.as_slice())
}

} // verus!
