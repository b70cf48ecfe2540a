//! What can be proposed: a thing that has a short identifier, and
//! collections of such things.

use vstd::prelude::*;
use crate::primitives::ProposalShortId;
use crate::primitives::short_id_keys;
use crate::types::Block;
use crate::types::Transaction;

verus! {

/// Something that is proposed under one short identifier.
pub trait GetProposalId {
    /// The identifier, as bytes.
    spec fn spec_proposal(&self) -> Seq<u8>;

    /// The short identifier under which this is proposed.
    fn get_proposal(&self) -> (r: ProposalShortId)
        ensures
            r@ == self.spec_proposal(),
    ;
}

impl GetProposalId for Transaction {
    /// The first ten bytes of the hash of the transaction.
    open spec fn spec_proposal(&self) -> Seq<u8> {
        self.spec_short_id()
    }

    fn get_proposal(&self) -> (r: ProposalShortId) {
        self.proposal_short_id()
    }
}

impl GetProposalId for ProposalShortId {
    /// The identifier itself.
    open spec fn spec_proposal(&self) -> Seq<u8> {
        self@
    }

    fn get_proposal(&self) -> (r: ProposalShortId) {
        *self
    }
}

/// Something that stands for a list of proposals.
pub trait GetProposalIds {
    /// The identifiers, as bytes, in their order.
    spec fn spec_proposals(&self) -> Seq<Seq<u8>>;

    /// The short identifiers, in their order.
    fn get_proposal_ids(&self) -> (r: Vec<ProposalShortId>)
        ensures
            short_id_keys(r@) == self.spec_proposals(),
    ;
}

impl<T: GetProposalId> GetProposalIds for T {
    /// The one identifier of the thing.
    open spec fn spec_proposals(&self) -> Seq<Seq<u8>> {
        seq![self.spec_proposal()]
    }

    fn get_proposal_ids(&self) -> (r: Vec<ProposalShortId>) {
        let mut out: Vec<ProposalShortId> = Vec::new();
        out.push(self.get_proposal());
        assert(short_id_keys(out@) =~= seq![self.spec_proposal()]);
        out
    }
}

impl<T: GetProposalId> GetProposalIds for Vec<T> {
    /// The identifier of each element.
    open spec fn spec_proposals(&self) -> Seq<Seq<u8>> {
        Seq::new(self@.len(), |i: int| self@[i].spec_proposal())
    }

    fn get_proposal_ids(&self) -> (r: Vec<ProposalShortId>) {
        let mut out: Vec<ProposalShortId> = Vec::new();
        let mut i: usize = 0;
        while i < self.len()
            invariant
                0 <= i <= self.len(),
                out@.len() == i,
                forall|j: int| 0 <= j < i ==> (#[trigger] out@[j])@ == self@[j].spec_proposal(),
            decreases self.len() - i,
        {
            out.push(self[i].get_proposal());
            i += 1;
        }
        assert(short_id_keys(out@) =~= self.spec_proposals());
        out
    }
}

impl GetProposalIds for Block {
    /// The proposals of the block.
    open spec fn spec_proposals(&self) -> Seq<Seq<u8>> {
        short_id_keys(self.proposals@)
    }

    fn get_proposal_ids(&self) -> (r: Vec<ProposalShortId>) {
        let mut out: Vec<ProposalShortId> = Vec::new();
        let mut i: usize = 0;
        while i < self.proposals.len()
            invariant
                0 <= i <= self.proposals.len(),
                out@.len() == i,
                forall|j: int| 0 <= j < i ==> #[trigger] out@[j] == self.proposals@[j],
            decreases self.proposals.len() - i,
        {
            out.push(self.proposals[i]);
            i += 1;
        }
        assert(short_id_keys(out@) =~= short_id_keys(self.proposals@));
        out
    }
}

} // verus!
