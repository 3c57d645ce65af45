//! The challenges that can be raised against an appchain: proofs that a
//! validator voted twice in one round of GRANDPA.
use crate::lookup_array::IndexedAndClearable;
use crate::types::AccountId;
use vstd::prelude::*;

verus! {

/// The number of a voting round.
pub type RoundNumber = u32;

/// The id of a validator set.
pub type SetId = u32;

/// The number of a block.
pub type BlockNumber = u32;

/// A block hash.
#[derive(Clone, Debug, PartialEq, Eq)]
pub struct Hash(pub [u8; 32]);

/// The public key of a validator.
#[derive(Clone, Debug, PartialEq, Eq)]
pub struct PublicKey(pub [u8; 32]);

/// A signature.
#[derive(Clone, Debug, PartialEq, Eq)]
pub struct SignatureData(pub Vec<u8>);

/// Two votes of one validator in one round, each with its signature.
#[derive(Debug, PartialEq, Eq)]
pub struct GrandpaEquivocation<V, S> {
    pub round_number: RoundNumber,
    pub identity: PublicKey,
    pub first: (V, S),
    pub second: (V, S),
}

impl<V: Clone, S: Clone> Clone for GrandpaEquivocation<V, S> {
    fn clone(&self) -> (res: Self) {
        GrandpaEquivocation {
            round_number: self.round_number,
            identity: self.identity.clone(),
            first: (self.first.0.clone(), self.first.1.clone()),
            second: (self.second.0.clone(), self.second.1.clone()),
        }
    }
}

/// Two prevotes or two precommits of one validator in one round.
#[derive(Clone, Debug, PartialEq, Eq)]
pub enum Equivocation {
    Prevote(GrandpaEquivocation<GrandpaPrevote, SignatureData>),
    Precommit(GrandpaEquivocation<GrandpaPrecommit, SignatureData>),
}

/// An equivocation in the validator set `set_id`.
#[derive(Clone, Debug, PartialEq, Eq)]
pub struct EquivocationProof {
    pub set_id: SetId,
    pub equivocation: Equivocation,
}

/// A prevote for a block.
#[derive(Clone, Debug, PartialEq, Eq)]
pub struct GrandpaPrevote {
    pub target_hash: Hash,
    pub target_number: BlockNumber,
}

/// A precommit for a block.
#[derive(Clone, Debug, PartialEq, Eq)]
pub struct GrandpaPrecommit {
    pub target_hash: Hash,
    pub target_number: BlockNumber,
}

/// A challenge raised against the appchain.
#[derive(Clone, Debug, PartialEq, Eq)]
pub enum AppchainChallenge {
    EquivocationChallenge { submitter_account: AccountId, proof: EquivocationProof },
}

impl IndexedAndClearable for AppchainChallenge {
    open spec fn indexed(self, index: u64) -> Self {
        self
    }

    /// A challenge keeps no index.
    fn set_index(&mut self, _index: &u64) {
    }

    /// A challenge holds nothing besides itself.
    fn clear_extra_storage(&mut self) {
    }
}

} // verus!
