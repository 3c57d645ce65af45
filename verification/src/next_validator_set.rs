//! The validator set of the next era, with the validators that are leaving it.
use crate::types::{AccountId, AppchainValidator, StakingFact};
use crate::validator_set::{
    validator_ids_of, Delegator, Validator, ValidatorSet, ValidatorSetModel,
};
use vstd::prelude::*;

verus! {

/// Whether `ids` holds an id whose view is `id`.
pub open spec fn listed(ids: Seq<AccountId>, id: Seq<char>) -> bool {
    exists|i: int| 0 <= i < ids.len() && (#[trigger] ids[i])@ == id
}

/// The ids of `vs` that are not listed in `a` nor in `b`, in the order of `vs`.
pub open spec fn ids_not_listed(vs: Seq<Seq<char>>, a: Seq<AccountId>, b: Seq<AccountId>) -> Seq<Seq<char>>
    decreases vs.len(),
{
    if vs.len() == 0 {
        Seq::empty()
    } else {
        let prefix = ids_not_listed(vs.drop_last(), a, b);
        if !listed(a, vs.last()) && !listed(b, vs.last()) {
            prefix.push(vs.last())
        } else {
            prefix
        }
    }
}

/// Whether `id` is listed in `ids`.
pub fn contains_id(ids: &Vec<AccountId>, id: &AccountId) -> (res: bool)
    ensures
        res == listed(ids@, id@),
{
    let mut i: usize = 0;
    while i < ids.len()
        invariant
            i <= ids@.len(),
            forall|k: int| 0 <= k < i ==> (#[trigger] ids@[k])@ != id@,
        decreases ids@.len() - i,
    {
        if ids[i] == *id {
            return true;
        }
        i = i + 1;
    }
    false
}

/// A copy of `ids`.
pub fn copy_ids(ids: &Vec<AccountId>) -> (res: Vec<AccountId>)
    ensures
        res@ == ids@,
{
    let mut res: Vec<AccountId> = Vec::new();
    let mut i: usize = 0;
    while i < ids.len()
        invariant
            i <= ids@.len(),
            res@ == ids@.take(i as int),
        decreases ids@.len() - i,
    {
        res.push(ids[i].clone());
        i = i + 1;
        assert(res@ =~= ids@.take(i as int));
    }
    assert(ids@.take(ids@.len() as int) =~= ids@);
    res
}

impl AppchainValidator {
    /// The validator `validator` as the appchain sees it.
    pub fn from_validator(validator: &Validator, delegators_count: u64, is_unbonding: bool) -> (res: Self)
        ensures
            res.validator_id == validator.validator_id,
            res.validator_id_in_appchain == validator.validator_id_in_appchain,
            res.deposit_amount == validator.deposit_amount,
            res.total_stake == validator.total_stake,
            res.delegators_count == delegators_count,
            res.can_be_delegated_to == validator.can_be_delegated_to,
            res.is_unbonding == is_unbonding,
    {
        AppchainValidator {
            validator_id: validator.validator_id.clone(),
            validator_id_in_appchain: validator.validator_id_in_appchain.clone(),
            deposit_amount: validator.deposit_amount,
            total_stake: validator.total_stake,
            delegators_count,
            can_be_delegated_to: validator.can_be_delegated_to,
            is_unbonding,
        }
    }
}

/// The validator set of the next era, with the validators that unbond and
/// the validators that the anchor unbonds at the end of the era.
pub struct NextValidatorSet {
    validator_set: ValidatorSet,
    unbonding_validator_ids: Vec<AccountId>,
    auto_unbonding_validator_ids: Vec<AccountId>,
}

impl NextValidatorSet {
    /// The validators and delegators, leaving ones included.
    pub closed spec fn set(&self) -> ValidatorSetModel {
        self.validator_set@
    }

    /// The total stake of the set fits in 128 bits.
    pub proof fn lemma_total_stake_bounded(&self)
        ensures
            0 <= self.set().total_stake <= u128::MAX,
    {
        self.validator_set.lemma_total_stake_bounded();
    }

    /// The ids of the validators that unbond.
    pub closed spec fn unbonding_ids(&self) -> Seq<AccountId> {
        self.unbonding_validator_ids@
    }

    /// The ids of the validators that the anchor unbonds.
    pub closed spec fn auto_unbonding_ids(&self) -> Seq<AccountId> {
        self.auto_unbonding_validator_ids@
    }

    /// Whether the set is well formed.
    pub open spec fn wf(&self) -> bool {
        self.set().wf()
    }

    /// Whether the validator `id` is leaving the set.
    pub open spec fn is_leaving(&self, id: Seq<char>) -> bool {
        listed(self.unbonding_ids(), id) || listed(self.auto_unbonding_ids(), id)
    }

    /// Whether the validator `id` stays in the set.
    pub open spec fn stays(&self, id: Seq<char>) -> bool {
        self.set().contains_validator(id) && !self.is_leaving(id)
    }

    /// An empty set of era `era_number`.
    pub fn new(era_number: u64) -> (res: Self)
        ensures
            res.set().era_number == era_number,
            res.set().validators == Seq::<Validator>::empty(),
            res.set().groups == Seq::<(Seq<char>, Seq<Delegator>)>::empty(),
            res.set().total_stake == 0,
            res.unbonding_ids() == Seq::<AccountId>::empty(),
            res.auto_unbonding_ids() == Seq::<AccountId>::empty(),
            res.wf(),
    {
        NextValidatorSet {
            validator_set: ValidatorSet::new(era_number),
            unbonding_validator_ids: Vec::new(),
            auto_unbonding_validator_ids: Vec::new(),
        }
    }

    /// The set made of `validator_set`, with no leaving validator.
    pub fn from_validator_set(validator_set: ValidatorSet) -> (res: Self)
        ensures
            res.set() == validator_set@,
            res.unbonding_ids() == Seq::<AccountId>::empty(),
            res.auto_unbonding_ids() == Seq::<AccountId>::empty(),
    {
        NextValidatorSet {
            validator_set,
            unbonding_validator_ids: Vec::new(),
            auto_unbonding_validator_ids: Vec::new(),
        }
    }

    /// The validators and delegators, leaving ones included.
    pub fn validator_set(&self) -> (res: &ValidatorSet)
        ensures
            res@ == self.set(),
    {
        &self.validator_set
    }

    /// Removes all validators, delegators and leaving validators.
    pub fn clear(&mut self)
        ensures
            final(self).set().era_number == old(self).set().era_number,
            final(self).set().validators == Seq::<Validator>::empty(),
            final(self).set().groups == Seq::<(Seq<char>, Seq<Delegator>)>::empty(),
            final(self).set().total_stake == 0,
            final(self).unbonding_ids() == Seq::<AccountId>::empty(),
            final(self).auto_unbonding_ids() == Seq::<AccountId>::empty(),
            final(self).wf(),
    {
        self.validator_set.clear();
        self.unbonding_validator_ids.clear();
        self.auto_unbonding_validator_ids.clear();
    }

    /// Applies `staking_fact` to the validators and delegators.
    pub fn apply_staking_fact(&mut self, staking_fact: &StakingFact, block_height: u64, timestamp: u64)
        requires
            old(self).wf(),
            old(self).set().applicable(*staking_fact),
        ensures
            final(self).wf(),
            final(self).set() == old(self).set().applied(*staking_fact, block_height, timestamp),
            final(self).unbonding_ids() == old(self).unbonding_ids(),
            final(self).auto_unbonding_ids() == old(self).auto_unbonding_ids(),
    {
        self.validator_set.apply_staking_fact(staking_fact, block_height, timestamp);
    }

    /// Lists `validator_id` as unbonding, unless it is listed already.
    pub fn add_unbonding_validator(&mut self, validator_id: &AccountId)
        ensures
            final(self).set() == old(self).set(),
            final(self).auto_unbonding_ids() == old(self).auto_unbonding_ids(),
            final(self).unbonding_ids() == if listed(old(self).unbonding_ids(), validator_id@) {
                old(self).unbonding_ids()
            } else {
                old(self).unbonding_ids().push(*validator_id)
            },
    {
        if !contains_id(&self.unbonding_validator_ids, validator_id) {
            self.unbonding_validator_ids.push(validator_id.clone());
        }
    }

    /// Lists `validator_id` as unbonded by the anchor, unless it is listed already.
    pub fn add_auto_unbonding_validator(&mut self, validator_id: &AccountId)
        ensures
            final(self).set() == old(self).set(),
            final(self).unbonding_ids() == old(self).unbonding_ids(),
            final(self).auto_unbonding_ids() == if listed(old(self).auto_unbonding_ids(), validator_id@) {
                old(self).auto_unbonding_ids()
            } else {
                old(self).auto_unbonding_ids().push(*validator_id)
            },
    {
        if !contains_id(&self.auto_unbonding_validator_ids, validator_id) {
            self.auto_unbonding_validator_ids.push(validator_id.clone());
        }
    }

    /// The ids of the validators that unbond.
    pub fn get_unbonding_validator_ids(&self) -> (res: Vec<AccountId>)
        ensures
            res@ == self.unbonding_ids(),
    {
        copy_ids(&self.unbonding_validator_ids)
    }

    /// The ids of the validators that the anchor unbonds.
    pub fn get_auto_unbonding_validator_ids(&self) -> (res: Vec<AccountId>)
        ensures
            res@ == self.auto_unbonding_ids(),
    {
        copy_ids(&self.auto_unbonding_validator_ids)
    }

    /// Forgets the validators that unbond.
    pub fn clear_unbonding_validator_ids(&mut self)
        ensures
            final(self).set() == old(self).set(),
            final(self).unbonding_ids() == Seq::<AccountId>::empty(),
            final(self).auto_unbonding_ids() == old(self).auto_unbonding_ids(),
    {
        self.unbonding_validator_ids.clear();
    }

    /// Forgets the validators that the anchor unbonds.
    pub fn clear_auto_unbonding_validator_ids(&mut self)
        ensures
            final(self).set() == old(self).set(),
            final(self).unbonding_ids() == old(self).unbonding_ids(),
            final(self).auto_unbonding_ids() == Seq::<AccountId>::empty(),
    {
        self.auto_unbonding_validator_ids.clear();
    }

    fn leaving(&self, id: &AccountId) -> (res: bool)
        ensures
            res == self.is_leaving(id@),
    {
        contains_id(&self.unbonding_validator_ids, id) || contains_id(&self.auto_unbonding_validator_ids, id)
    }

    /// Whether the validator `validator_id` stays in the set.
    pub fn contains_validator(&self, validator_id: &AccountId) -> (res: bool)
        ensures
            res == self.stays(validator_id@),
    {
        self.validator_set.contains_validator(validator_id) && !self.leaving(validator_id)
    }

    /// Whether `delegator_id` delegates to `validator_id`, which stays in the set.
    pub fn contains_delegator(&self, delegator_id: &AccountId, validator_id: &AccountId) -> (res: bool)
        requires
            self.wf(),
        ensures
            res == (self.stays(validator_id@) && self.set().contains_delegator(delegator_id@, validator_id@)),
    {
        if self.contains_validator(validator_id) {
            self.validator_set.contains_delegator(delegator_id, validator_id)
        } else {
            false
        }
    }

    /// The validator `validator_id`, if it stays in the set.
    pub fn get_validator(&self, validator_id: &AccountId) -> (res: Option<&Validator>)
        requires
            self.wf(),
        ensures
            match res {
                Some(v) => self.stays(validator_id@) && *v == self.set().validator(validator_id@),
                None => !self.stays(validator_id@),
            },
    {
        if self.contains_validator(validator_id) {
            self.validator_set.get_validator(validator_id)
        } else {
            None
        }
    }

    /// The validator at `index`; no validator may be leaving the set.
    pub fn get_validator_by_index(&self, index: &u64) -> (res: Option<&Validator>)
        requires
            self.unbonding_ids().len() == 0,
            self.auto_unbonding_ids().len() == 0,
        ensures
            match res {
                Some(v) => *index < self.set().validators.len() && *v == self.set().validators[*index as int],
                None => *index >= self.set().validators.len(),
            },
    {
        self.validator_set.get_validator_by_index(index)
    }

    /// The delegator `delegator_id` of `validator_id`, which stays in the set.
    pub fn get_delegator(&self, delegator_id: &AccountId, validator_id: &AccountId) -> (res: Option<&Delegator>)
        requires
            self.wf(),
        ensures
            match res {
                Some(d) => self.stays(validator_id@) && self.set().contains_delegator(delegator_id@, validator_id@)
                    && *d == self.set().delegator(delegator_id@, validator_id@),
                None => !(self.stays(validator_id@) && self.set().contains_delegator(delegator_id@, validator_id@)),
            },
    {
        if self.contains_validator(validator_id) {
            self.validator_set.get_delegator(delegator_id, validator_id)
        } else {
            None
        }
    }

    /// The delegator at `index` among the delegators of `validator_id`.
    pub fn get_delegator_by_index(&self, index: &u64, validator_id: &AccountId) -> (res: Option<&Delegator>)
        requires
            self.wf(),
        ensures
            match res {
                Some(d) => *index < self.set().delegators_of(validator_id@).len() && *d == self.set().delegators_of(
                    validator_id@,
                )[*index as int],
                None => *index >= self.set().delegators_of(validator_id@).len(),
            },
    {
        self.validator_set.get_delegator_by_index(index, validator_id)
    }

    fn staying_ids(&self, ids: Vec<AccountId>) -> (res: Vec<AccountId>)
        ensures
            res@.len() == ids_not_listed(ids@.map_values(|s: AccountId| s@), self.unbonding_ids(), self.auto_unbonding_ids()).len(),
            forall|i: int| 0 <= i < res@.len() ==> res@[i]@ == ids_not_listed(
                ids@.map_values(|s: AccountId| s@),
                self.unbonding_ids(),
                self.auto_unbonding_ids(),
            )[i],
    {
        let ghost vs = ids@.map_values(|s: AccountId| s@);
        let mut res: Vec<AccountId> = Vec::new();
        let mut i: usize = 0;
        while i < ids.len()
            invariant
                i <= ids@.len(),
                vs == ids@.map_values(|s: AccountId| s@),
                res@.len() == ids_not_listed(vs.take(i as int), self.unbonding_ids(), self.auto_unbonding_ids()).len(),
                forall|k: int| 0 <= k < res@.len() ==> res@[k]@ == ids_not_listed(
                    vs.take(i as int),
                    self.unbonding_ids(),
                    self.auto_unbonding_ids(),
                )[k],
            decreases ids@.len() - i,
        {
            assert(vs.take(i + 1).drop_last() =~= vs.take(i as int));
            if !self.leaving(&ids[i]) {
                res.push(ids[i].clone());
            }
            i = i + 1;
        }
        assert(vs.take(vs.len() as int) =~= vs);
        res
    }

    /// The ids of the validators that stay in the set, in the order of enumeration.
    pub fn get_validator_ids(&self) -> (res: Vec<AccountId>)
        ensures
            res@.len() == ids_not_listed(
                self.set().validators.map_values(|v: Validator| v.validator_id@),
                self.unbonding_ids(),
                self.auto_unbonding_ids(),
            ).len(),
            forall|i: int| 0 <= i < res@.len() ==> res@[i]@ == ids_not_listed(
                self.set().validators.map_values(|v: Validator| v.validator_id@),
                self.unbonding_ids(),
                self.auto_unbonding_ids(),
            )[i],
    {
        let ids = self.validator_set.get_validator_ids();
        proof {
            assert(ids@.map_values(|s: AccountId| s@) =~= self.set().validators.map_values(|v: Validator| v.validator_id@));
        }
        self.staying_ids(ids)
    }

    /// The ids of the validators that stay in the set and that `delegator_id` delegates to.
    pub fn get_validator_ids_of(&self, delegator_id: &AccountId) -> (res: Vec<AccountId>)
        requires
            self.wf(),
        ensures
            res@.len() == ids_not_listed(
                validator_ids_of(self.set().groups, delegator_id@),
                self.unbonding_ids(),
                self.auto_unbonding_ids(),
            ).len(),
            forall|i: int| 0 <= i < res@.len() ==> res@[i]@ == ids_not_listed(
                validator_ids_of(self.set().groups, delegator_id@),
                self.unbonding_ids(),
                self.auto_unbonding_ids(),
            )[i],
    {
        let ids = self.validator_set.get_validator_ids_of(delegator_id);
        proof {
            assert(ids@.map_values(|s: AccountId| s@) =~= validator_ids_of(self.set().groups, delegator_id@));
        }
        self.staying_ids(ids)
    }

    /// The ids of the delegators of `validator_id`, which stays in the set.
    pub fn get_delegator_ids_of(&self, validator_id: &AccountId) -> (res: Vec<AccountId>)
        requires
            self.wf(),
        ensures
            self.stays(validator_id@) ==> res@.len() == self.set().delegators_of(validator_id@).len()
                && forall|i: int| 0 <= i < res@.len() ==> res@[i] == self.set().delegators_of(validator_id@)[i].delegator_id,
            !self.stays(validator_id@) ==> res@.len() == 0,
    {
        if self.contains_validator(validator_id) {
            self.validator_set.get_delegator_ids_of(validator_id)
        } else {
            Vec::new()
        }
    }

    /// The number of validators that stay in the set and that `delegator_id` delegates to.
    pub fn get_validator_count_of(&self, delegator_id: &AccountId) -> (res: u64)
        requires
            self.wf(),
        ensures
            res == ids_not_listed(
                validator_ids_of(self.set().groups, delegator_id@),
                self.unbonding_ids(),
                self.auto_unbonding_ids(),
            ).len(),
    {
        self.get_validator_ids_of(delegator_id).len() as u64
    }

    /// The number of delegators of `validator_id`, which stays in the set.
    pub fn get_delegator_count_of(&self, validator_id: &AccountId) -> (res: u64)
        requires
            self.wf(),
        ensures
            res == if self.stays(validator_id@) { self.set().delegators_of(validator_id@).len() } else { 0 },
    {
        if self.contains_validator(validator_id) {
            self.validator_set.get_delegator_count_of(validator_id)
        } else {
            0
        }
    }

    /// The era of the set.
    pub fn era_number(&self) -> (res: u64)
        ensures
            res == self.set().era_number,
    {
        self.validator_set.era_number()
    }

    /// The total stake of the set. A leaving validator is no longer found in the
    /// set, so nothing is taken off for it.
    pub fn total_stake(&self) -> (res: u128)
        ensures
            res == self.set().total_stake,
    {
        self.validator_set.total_stake()
    }

    /// The number of validators that stay in the set.
    pub fn validator_count(&self) -> (res: u64)
        ensures
            res == ids_not_listed(
                self.set().validators.map_values(|v: Validator| v.validator_id@),
                self.unbonding_ids(),
                self.auto_unbonding_ids(),
            ).len(),
    {
        self.get_validator_ids().len() as u64
    }

    /// The validators that stay in the set as the appchain sees them, in the
    /// order of enumeration of all validators, leaving ones marked as unbonding.
    pub fn get_validator_list(&self) -> (res: Vec<AppchainValidator>)
        requires
            self.wf(),
        ensures
            res@.len() == self.set().validators.len(),
            forall|i: int| 0 <= i < res@.len() ==> {
                let v = #[trigger] self.set().validators[i];
                &&& res@[i].validator_id == v.validator_id
                &&& res@[i].validator_id_in_appchain == v.validator_id_in_appchain
                &&& res@[i].deposit_amount == v.deposit_amount
                &&& res@[i].total_stake == v.total_stake
                &&& res@[i].delegators_count == self.set().delegators_of(v.validator_id@).len()
                &&& res@[i].can_be_delegated_to == v.can_be_delegated_to
                &&& res@[i].is_unbonding == self.is_leaving(v.validator_id@)
            },
    {
        let ghost vs = self.set().validators;
        let mut res: Vec<AppchainValidator> = Vec::new();
        let mut i: u64 = 0;
        let n = self.validator_set.validator_count();
        while i < n
            invariant
                self.wf(),
                vs == self.set().validators,
                n == vs.len(),
                i <= n,
                res@.len() == i,
                forall|k: int| 0 <= k < i ==> {
                    let v = #[trigger] vs[k];
                    &&& res@[k].validator_id == v.validator_id
                    &&& res@[k].validator_id_in_appchain == v.validator_id_in_appchain
                    &&& res@[k].deposit_amount == v.deposit_amount
                    &&& res@[k].total_stake == v.total_stake
                    &&& res@[k].delegators_count == self.set().delegators_of(v.validator_id@).len()
                    &&& res@[k].can_be_delegated_to == v.can_be_delegated_to
                    &&& res@[k].is_unbonding == self.is_leaving(v.validator_id@)
                },
            decreases n - i,
        {
            match self.validator_set.get_validator_by_index(&i) {
                Some(v) => {
                    let count = self.validator_set.get_delegator_count_of(&v.validator_id);
                    let leaving = self.leaving(&v.validator_id);
                    res.push(AppchainValidator::from_validator(v, count, leaving));
                },
                None => {},
            }
            i = i + 1;
        }
        res
    }
}


/// A validator that is being unbonded, by itself or by the anchor, no
/// longer stays in the next set: where `id` is listed among the validators
/// that unbond or among those that the anchor unbonds, the set does not
/// count it as one of its validators.
pub proof fn lemma_unbonding_validator_leaves(s: NextValidatorSet, id: Seq<char>)
    requires
        listed(s.unbonding_ids(), id) || listed(s.auto_unbonding_ids(), id),
    ensures
        !s.stays(id),
{
}

} // verus!
