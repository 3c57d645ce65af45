//! The validator set of an era, with the rewards of its validators and delegators.
use crate::balance_map::{abstract_key, BalanceMap};
use crate::lookup_array::IndexedAndClearable;
use crate::next_validator_set::{contains_id, copy_ids, listed};
use crate::types::{AccountId, AppchainValidator, StakingFact, ValidatorSetInfo, ValidatorSetProcessingStatus};
use crate::validator_set::{validator_ids_of, delegator_total, Delegator, Validator, ValidatorSet, ValidatorSetModel};
use vstd::prelude::*;

verus! {

/// The validator set of an era, what it was made from and the rewards of the era.
pub struct ValidatorSetOfEra {
    validator_set: ValidatorSet,
    start_block_height: u64,
    start_timestamp: u64,
    staking_history_index: u64,
    unprofitable_validator_ids: Vec<AccountId>,
    valid_total_stake: u128,
    validator_rewards: BalanceMap<AccountId>,
    delegator_rewards: BalanceMap<(AccountId, AccountId)>,
    processing_status: ValidatorSetProcessingStatus,
}

/// Whether the making of a validator set has applied all its staking histories
/// in `status`.
pub open spec fn histories_applied(status: ValidatorSetProcessingStatus) -> bool {
    ||| status is ReadyForDistributingReward
    ||| status is DistributingReward
    ||| status is CheckingForAutoUnbondingValidator
    ||| status is Completed
}

impl ValidatorSetOfEra {
    /// The validators and delegators of the era.
    pub closed spec fn set(&self) -> ValidatorSetModel {
        self.validator_set@
    }

    /// The block height at which the era starts.
    pub closed spec fn start_height(&self) -> u64 {
        self.start_block_height
    }

    /// The timestamp at which the era starts.
    pub closed spec fn start_time(&self) -> u64 {
        self.start_timestamp
    }

    /// The index of the last staking history of the era.
    pub closed spec fn history_index(&self) -> u64 {
        self.staking_history_index
    }

    /// The ids of the validators that earn no reward in the era.
    pub closed spec fn unprofitable_ids(&self) -> Seq<AccountId> {
        self.unprofitable_validator_ids@
    }

    /// The total stake without the stakes of unprofitable validators.
    pub closed spec fn valid_stake(&self) -> u128 {
        self.valid_total_stake
    }

    /// The rewards of the validators.
    pub closed spec fn validator_reward_map(&self) -> Map<(int, Seq<Seq<char>>), u128> {
        self.validator_rewards.amounts()
    }

    /// The rewards of the delegators.
    pub closed spec fn delegator_reward_map(&self) -> Map<(int, Seq<Seq<char>>), u128> {
        self.delegator_rewards.amounts()
    }

    /// The step that the making of the set has reached.
    pub closed spec fn status(&self) -> ValidatorSetProcessingStatus {
        self.processing_status
    }

    /// Whether the set is well formed.
    pub closed spec fn wf(&self) -> bool {
        &&& self.validator_set.wf()
        &&& self.validator_rewards.wf()
        &&& self.delegator_rewards.wf()
    }

    /// The total stake of the set fits in 128 bits.
    pub proof fn lemma_total_stake_bounded(&self)
        ensures
            0 <= self.set().total_stake <= u128::MAX,
    {
        self.validator_set.lemma_total_stake_bounded();
    }

    /// The set's validators and delegators, well formed.
    pub proof fn lemma_wf(&self)
        requires
            self.wf(),
        ensures
            self.set().wf(),
    {
    }

    /// Whether `self` agrees with `other` on the start of the era, the
    /// unprofitable validators, the valid total stake and the rewards.
    pub open spec fn same_era_data(&self, other: &Self) -> bool {
        &&& self.start_height() == other.start_height()
        &&& self.start_time() == other.start_time()
        &&& self.unprofitable_ids() == other.unprofitable_ids()
        &&& self.valid_stake() == other.valid_stake()
        &&& self.validator_reward_map() == other.validator_reward_map()
        &&& self.delegator_reward_map() == other.delegator_reward_map()
    }

    /// An empty set of era `era_number`, which starts at `block_height` and
    /// `timestamp`, made up to the staking history at `staking_history_index`.
    pub fn new(era_number: u64, staking_history_index: u64, block_height: u64, timestamp: u64) -> (res: Self)
        ensures
            res.wf(),
            res.set().era_number == era_number,
            res.set().validators == Seq::<Validator>::empty(),
            res.set().groups == Seq::<(Seq<char>, Seq<Delegator>)>::empty(),
            res.set().total_stake == 0,
            res.start_height() == block_height,
            res.start_time() == timestamp,
            res.history_index() == staking_history_index,
            res.unprofitable_ids() == Seq::<AccountId>::empty(),
            res.valid_stake() == 0,
            res.validator_reward_map() == Map::<(int, Seq<Seq<char>>), u128>::empty(),
            res.delegator_reward_map() == Map::<(int, Seq<Seq<char>>), u128>::empty(),
            res.status() == (ValidatorSetProcessingStatus::CopyingFromLastEra {
                copying_validator_index: 0,
                copying_delegator_index: 0,
            }),
    {
        ValidatorSetOfEra {
            validator_set: ValidatorSet::new(era_number),
            start_block_height: block_height,
            start_timestamp: timestamp,
            staking_history_index,
            unprofitable_validator_ids: Vec::new(),
            valid_total_stake: 0,
            validator_rewards: BalanceMap::new(),
            delegator_rewards: BalanceMap::new(),
            processing_status: ValidatorSetProcessingStatus::CopyingFromLastEra {
                copying_validator_index: 0,
                copying_delegator_index: 0,
            },
        }
    }

    /// The era of the set.
    pub fn era_number(&self) -> (res: u64)
        ensures
            res == self.set().era_number,
    {
        self.validator_set.era_number()
    }

    /// The timestamp at which the era starts.
    pub fn start_timestamp(&self) -> (res: u64)
        ensures
            res == self.start_time(),
    {
        self.start_timestamp
    }

    /// The index of the last staking history of the era.
    pub fn staking_history_index(&self) -> (res: u64)
        ensures
            res == self.history_index(),
    {
        self.staking_history_index
    }

    /// The reward of the validator `validator_id` in the era, if any.
    pub fn get_validator_rewards_of(&self, validator_id: &AccountId) -> (res: Option<u128>)
        requires
            self.wf(),
        ensures
            match res {
                Some(a) => self.validator_reward_map().contains_key(abstract_key(*validator_id))
                    && a == self.validator_reward_map()[abstract_key(*validator_id)],
                None => !self.validator_reward_map().contains_key(abstract_key(*validator_id)),
            },
    {
        self.validator_rewards.get(validator_id)
    }

    /// The reward of `delegator_id` for delegating to `validator_id` in the era, if any.
    pub fn get_delegator_rewards_of(&self, delegator_id: &AccountId, validator_id: &AccountId) -> (res: Option<u128>)
        requires
            self.wf(),
        ensures
            match res {
                Some(a) => self.delegator_reward_map().contains_key(abstract_key((*delegator_id, *validator_id)))
                    && a == self.delegator_reward_map()[abstract_key((*delegator_id, *validator_id))],
                None => !self.delegator_reward_map().contains_key(abstract_key((*delegator_id, *validator_id))),
            },
    {
        let key = (delegator_id.clone(), validator_id.clone());
        self.delegator_rewards.get(&key)
    }

    /// The validators and delegators of the set.
    pub fn validator_set(&self) -> (res: &ValidatorSet)
        ensures
            res@ == self.set(),
            self.wf() ==> res.wf(),
    {
        &self.validator_set
    }

    /// The ids of the unprofitable validators.
    pub fn unprofitable_validator_ids(&self) -> (res: Vec<AccountId>)
        ensures
            res@ == self.unprofitable_ids(),
    {
        copy_ids(&self.unprofitable_validator_ids)
    }

    /// The step that the making of the set has reached.
    pub fn processing_status(&self) -> (res: ValidatorSetProcessingStatus)
        ensures
            res == self.status(),
    {
        self.processing_status
    }

    /// The total stake without the stakes of unprofitable validators.
    pub fn valid_total_stake(&self) -> (res: u128)
        ensures
            res == self.valid_stake(),
    {
        self.valid_total_stake
    }

    fn all_staking_histories_are_applied(&self) -> (res: bool)
        ensures
            res == histories_applied(self.status()),
    {
        match self.processing_status {
            ValidatorSetProcessingStatus::ReadyForDistributingReward
            | ValidatorSetProcessingStatus::DistributingReward { .. }
            | ValidatorSetProcessingStatus::CheckingForAutoUnbondingValidator { .. }
            | ValidatorSetProcessingStatus::Completed => true,
            _ => false,
        }
    }

    /// Sets the index of the last staking history of the era.
    pub fn set_staking_history_index(&mut self, index: u64)
        ensures
            final(self).same_era_data(old(self)),
            final(self).history_index() == index,
            final(self).set() == old(self).set(),
            final(self).status() == old(self).status(),
            final(self).wf() == old(self).wf(),
    {
        self.staking_history_index = index;
    }

    /// Sets the total stake of the set.
    pub fn set_total_stake(&mut self, total_stake: u128)
        ensures
            final(self).same_era_data(old(self)),
            final(self).set() == (ValidatorSetModel { total_stake: total_stake as int, ..old(self).set() }),
            final(self).status() == old(self).status(),
            final(self).history_index() == old(self).history_index(),
            final(self).wf() == old(self).wf(),
    {
        self.validator_set.set_total_stake(total_stake);
    }

    /// Sets the step that the making of the set has reached.
    pub fn set_processing_status(&mut self, process_status: ValidatorSetProcessingStatus)
        ensures
            final(self).same_era_data(old(self)),
            final(self).status() == process_status,
            final(self).set() == old(self).set(),
            final(self).history_index() == old(self).history_index(),
            final(self).unprofitable_ids() == old(self).unprofitable_ids(),
            final(self).valid_stake() == old(self).valid_stake(),
            final(self).wf() == old(self).wf(),
    {
        self.processing_status = process_status;
    }

    /// Adds the ids of `unprofitable_validator_ids` that are not listed yet to
    /// the unprofitable validators.
    pub fn set_unprofitable_validator_ids(&mut self, unprofitable_validator_ids: Vec<AccountId>)
        ensures
            final(self).unprofitable_ids() == ids_added(old(self).unprofitable_ids(), unprofitable_validator_ids@),
            final(self).start_height() == old(self).start_height(),
            final(self).start_time() == old(self).start_time(),
            final(self).valid_stake() == old(self).valid_stake(),
            final(self).validator_reward_map() == old(self).validator_reward_map(),
            final(self).delegator_reward_map() == old(self).delegator_reward_map(),
            forall|id: Seq<char>| #![trigger listed(final(self).unprofitable_ids(), id)] listed(final(self).unprofitable_ids(), id) <==> (listed(
                old(self).unprofitable_ids(),
                id,
            ) || listed(unprofitable_validator_ids@, id)),
            final(self).set() == old(self).set(),
            final(self).status() == old(self).status(),
            final(self).history_index() == old(self).history_index(),
            final(self).wf() == old(self).wf(),
    {
        let mut i: usize = 0;
        while i < unprofitable_validator_ids.len()
            invariant
                i <= unprofitable_validator_ids@.len(),
                self.validator_set == old(self).validator_set,
                self.processing_status == old(self).processing_status,
                self.staking_history_index == old(self).staking_history_index,
                self.validator_rewards == old(self).validator_rewards,
                self.delegator_rewards == old(self).delegator_rewards,
                self.start_block_height == old(self).start_block_height,
                self.start_timestamp == old(self).start_timestamp,
                self.valid_total_stake == old(self).valid_total_stake,
                self.unprofitable_validator_ids@ == ids_added(
                    old(self).unprofitable_validator_ids@,
                    unprofitable_validator_ids@.take(i as int),
                ),
                forall|id: Seq<char>| #![trigger listed(self.unprofitable_validator_ids@, id)] listed(self.unprofitable_validator_ids@, id) <==> (listed(
                    old(self).unprofitable_validator_ids@,
                    id,
                ) || listed(unprofitable_validator_ids@.take(i as int), id)),
            decreases unprofitable_validator_ids@.len() - i,
        {
            let ghost before = self.unprofitable_validator_ids@;
            let pushed = !contains_id(&self.unprofitable_validator_ids, &unprofitable_validator_ids[i]);
            if pushed {
                self.unprofitable_validator_ids.push(unprofitable_validator_ids[i].clone());
            }
            proof {
                lemma_listed_step(
                    before,
                    self.unprofitable_validator_ids@,
                    old(self).unprofitable_validator_ids@,
                    unprofitable_validator_ids@,
                    i as int,
                    pushed,
                );
            }
            let ghost taken1 = unprofitable_validator_ids@.take(i + 1);
            assert(taken1.drop_last() =~= unprofitable_validator_ids@.take(i as int));
            i = i + 1;
            assert(unprofitable_validator_ids@.take(i as int) =~= taken1);
        }
        assert(unprofitable_validator_ids@.take(unprofitable_validator_ids@.len() as int) =~= unprofitable_validator_ids@);
    }

    /// Puts `validator` in place of the validator with its id, or else after
    /// the last validator.
    pub fn insert_validator(&mut self, validator: Validator)
        requires
            old(self).wf(),
        ensures
            final(self).same_era_data(old(self)),
            final(self).wf(),
            final(self).set() == old(self).set().validator_inserted(validator),
            final(self).status() == old(self).status(),
            final(self).history_index() == old(self).history_index(),
    {
        self.validator_set.insert_validator(validator);
    }

    /// Stores `delegator` among the delegators of its validator.
    pub fn insert_delegator(&mut self, delegator: Delegator)
        requires
            old(self).wf(),
        ensures
            final(self).same_era_data(old(self)),
            final(self).wf(),
            final(self).set() == old(self).set().delegator_stored(delegator),
            final(self).status() == old(self).status(),
            final(self).history_index() == old(self).history_index(),
    {
        self.validator_set.store_delegator(delegator);
    }

    /// Sets the reward of the validator `validator_id`.
    pub fn set_validator_reward(&mut self, validator_id: &AccountId, amount: u128)
        requires
            old(self).wf(),
        ensures
            final(self).history_index() == old(self).history_index(),
            final(self).start_height() == old(self).start_height(),
            final(self).start_time() == old(self).start_time(),
            final(self).wf(),
            final(self).validator_reward_map() == old(self).validator_reward_map().insert(abstract_key(*validator_id), amount),
            final(self).delegator_reward_map() == old(self).delegator_reward_map(),
            final(self).set() == old(self).set(),
            final(self).status() == old(self).status(),
            final(self).unprofitable_ids() == old(self).unprofitable_ids(),
            final(self).valid_stake() == old(self).valid_stake(),
    {
        self.validator_rewards.insert(validator_id, amount);
    }

    /// Sets the reward of `delegator_id` for delegating to `validator_id`.
    pub fn set_delegator_reward(&mut self, delegator_id: &AccountId, validator_id: &AccountId, amount: u128)
        requires
            old(self).wf(),
        ensures
            final(self).history_index() == old(self).history_index(),
            final(self).start_height() == old(self).start_height(),
            final(self).start_time() == old(self).start_time(),
            final(self).wf(),
            final(self).delegator_reward_map() == old(self).delegator_reward_map().insert(
                abstract_key((*delegator_id, *validator_id)),
                amount,
            ),
            final(self).validator_reward_map() == old(self).validator_reward_map(),
            final(self).set() == old(self).set(),
            final(self).status() == old(self).status(),
            final(self).unprofitable_ids() == old(self).unprofitable_ids(),
            final(self).valid_stake() == old(self).valid_stake(),
    {
        let key = (delegator_id.clone(), validator_id.clone());
        assert(abstract_key(key) == abstract_key((*delegator_id, *validator_id)));
        self.delegator_rewards.insert(&key, amount);
    }

    /// Applies `staking_fact` to the validators and delegators.
    pub fn apply_staking_fact(&mut self, staking_fact: &StakingFact, block_height: u64, timestamp: u64)
        requires
            old(self).wf(),
            old(self).set().applicable(*staking_fact),
        ensures
            final(self).same_era_data(old(self)),
            final(self).wf(),
            final(self).set() == old(self).set().applied(*staking_fact, block_height, timestamp),
            final(self).status() == old(self).status(),
            final(self).history_index() == old(self).history_index(),
            final(self).start_time() == old(self).start_time(),
    {
        self.validator_set.apply_staking_fact(staking_fact, block_height, timestamp);
    }
}



/// `base` with the ids of `ids` that are not listed yet appended, in order.
pub open spec fn ids_added(base: Seq<AccountId>, ids: Seq<AccountId>) -> Seq<AccountId>
    decreases ids.len(),
{
    if ids.len() == 0 {
        base
    } else {
        let prev = ids_added(base, ids.drop_last());
        if listed(prev, ids.last()@) {
            prev
        } else {
            prev.push(ids.last())
        }
    }
}

/// The sum of the total stakes of the validators `ids` in `m`.
pub open spec fn stake_of_ids(m: ValidatorSetModel, ids: Seq<AccountId>) -> int
    decreases ids.len(),
{
    if ids.len() == 0 {
        0
    } else {
        stake_of_ids(m, ids.drop_last()) + m.validator(ids.last()@).total_stake
    }
}

pub(crate) proof fn lemma_stake_of_ids_prefix(m: ValidatorSetModel, ids: Seq<AccountId>, n: int)
    requires
        0 <= n <= ids.len(),
    ensures
        stake_of_ids(m, ids.take(n)) <= stake_of_ids(m, ids),
    decreases ids.len(),
{
    if n < ids.len() {
        assert(ids.drop_last().take(n) =~= ids.take(n));
        lemma_stake_of_ids_prefix(m, ids.drop_last(), n);
    } else {
        assert(ids.take(n) =~= ids);
    }
}

impl ValidatorSetOfEra {
    /// Sets the valid total stake to the total stake without the stakes of the
    /// unprofitable validators, which must all be in the set.
    pub fn calculate_valid_total_stake(&mut self)
        requires
            old(self).wf(),
            forall|i: int| 0 <= i < old(self).unprofitable_ids().len()
                ==> old(self).set().contains_validator(#[trigger] old(self).unprofitable_ids()[i]@),
            stake_of_ids(old(self).set(), old(self).unprofitable_ids()) <= old(self).set().total_stake,
        ensures
            final(self).history_index() == old(self).history_index(),
            final(self).start_height() == old(self).start_height(),
            final(self).start_time() == old(self).start_time(),
            final(self).wf(),
            final(self).valid_stake() == old(self).set().total_stake - stake_of_ids(old(self).set(), old(self).unprofitable_ids()),
            final(self).set() == old(self).set(),
            final(self).unprofitable_ids() == old(self).unprofitable_ids(),
            final(self).status() == old(self).status(),
            final(self).history_index() == old(self).history_index(),
            final(self).validator_reward_map() == old(self).validator_reward_map(),
            final(self).delegator_reward_map() == old(self).delegator_reward_map(),
    {
        let ghost ids = self.unprofitable_validator_ids@;
        let ghost m = self.validator_set@;
        let mut valid = self.validator_set.total_stake();
        let mut i: usize = 0;
        while i < self.unprofitable_validator_ids.len()
            invariant
                self.wf(),
                ids == self.unprofitable_validator_ids@,
                m == self.validator_set@,
                i <= ids.len(),
                forall|k: int| 0 <= k < ids.len() ==> m.contains_validator(#[trigger] ids[k]@),
                stake_of_ids(m, ids) <= m.total_stake,
                valid == m.total_stake - stake_of_ids(m, ids.take(i as int)),
            decreases ids.len() - i,
        {
            assert(ids.take(i + 1).drop_last() =~= ids.take(i as int));
            proof {
                lemma_stake_of_ids_prefix(m, ids, i + 1);
            }
            if let Some(v) = self.validator_set.get_validator(&self.unprofitable_validator_ids[i]) {
                valid = valid - v.total_stake;
            } else {
                assert(false);
            }
            i = i + 1;
        }
        assert(ids.take(ids.len() as int) =~= ids);
        self.valid_total_stake = valid;
    }

    /// Whether the validator `validator_id` is in the set; no validator is
    /// before all staking histories are applied.
    pub fn contains_validator(&self, validator_id: &AccountId) -> (res: bool)
        ensures
            res == (histories_applied(self.status()) && self.set().contains_validator(validator_id@)),
    {
        if !self.all_staking_histories_are_applied() {
            return false;
        }
        self.validator_set.contains_validator(validator_id)
    }

    /// Whether `delegator_id` delegates to `validator_id`; no delegator does
    /// before all staking histories are applied.
    pub fn contains_delegator(&self, delegator_id: &AccountId, validator_id: &AccountId) -> (res: bool)
        requires
            self.wf(),
        ensures
            res == (histories_applied(self.status()) && self.set().contains_delegator(delegator_id@, validator_id@)),
    {
        if !self.all_staking_histories_are_applied() {
            return false;
        }
        self.validator_set.contains_delegator(delegator_id, validator_id)
    }

    /// The validator `validator_id`, once all staking histories are applied.
    pub fn get_validator(&self, validator_id: &AccountId) -> (res: Option<&Validator>)
        requires
            self.wf(),
        ensures
            match res {
                Some(v) => histories_applied(self.status()) && self.set().contains_validator(validator_id@)
                    && *v == self.set().validator(validator_id@),
                None => !(histories_applied(self.status()) && self.set().contains_validator(validator_id@)),
            },
    {
        if !self.all_staking_histories_are_applied() {
            return None;
        }
        self.validator_set.get_validator(validator_id)
    }

    /// The validator at `index`, once all staking histories are applied.
    pub fn get_validator_by_index(&self, index: &u64) -> (res: Option<&Validator>)
        ensures
            match res {
                Some(v) => histories_applied(self.status()) && *index < self.set().validators.len()
                    && *v == self.set().validators[*index as int],
                None => !(histories_applied(self.status()) && *index < self.set().validators.len()),
            },
    {
        if !self.all_staking_histories_are_applied() {
            return None;
        }
        self.validator_set.get_validator_by_index(index)
    }

    /// The delegator `delegator_id` of `validator_id`, once all staking histories are applied.
    pub fn get_delegator(&self, delegator_id: &AccountId, validator_id: &AccountId) -> (res: Option<&Delegator>)
        requires
            self.wf(),
        ensures
            match res {
                Some(d) => histories_applied(self.status()) && self.set().contains_delegator(delegator_id@, validator_id@)
                    && *d == self.set().delegator(delegator_id@, validator_id@),
                None => !(histories_applied(self.status()) && self.set().contains_delegator(delegator_id@, validator_id@)),
            },
    {
        if !self.all_staking_histories_are_applied() {
            return None;
        }
        self.validator_set.get_delegator(delegator_id, validator_id)
    }

    /// The delegator at `index` among the delegators of `validator_id`, once
    /// all staking histories are applied.
    pub fn get_delegator_by_index(&self, index: &u64, validator_id: &AccountId) -> (res: Option<&Delegator>)
        requires
            self.wf(),
        ensures
            match res {
                Some(d) => histories_applied(self.status()) && *index < self.set().delegators_of(validator_id@).len()
                    && *d == self.set().delegators_of(validator_id@)[*index as int],
                None => !(histories_applied(self.status()) && *index < self.set().delegators_of(validator_id@).len()),
            },
    {
        if !self.all_staking_histories_are_applied() {
            return None;
        }
        self.validator_set.get_delegator_by_index(index, validator_id)
    }

    /// The ids of the validators, once all staking histories are applied.
    pub fn get_validator_ids(&self) -> (res: Vec<AccountId>)
        ensures
            histories_applied(self.status()) ==> res@.len() == self.set().validators.len() && forall|i: int|
                0 <= i < res@.len() ==> res@[i] == self.set().validators[i].validator_id,
            !histories_applied(self.status()) ==> res@.len() == 0,
    {
        if !self.all_staking_histories_are_applied() {
            return Vec::new();
        }
        self.validator_set.get_validator_ids()
    }

    /// The ids of the validators that `delegator_id` delegates to, once all
    /// staking histories are applied.
    pub fn get_validator_ids_of(&self, delegator_id: &AccountId) -> (res: Vec<AccountId>)
        requires
            self.wf(),
        ensures
            histories_applied(self.status()) ==> res@.len() == validator_ids_of(self.set().groups, delegator_id@).len()
                && forall|i: int| 0 <= i < res@.len() ==> res@[i]@ == validator_ids_of(self.set().groups, delegator_id@)[i],
            !histories_applied(self.status()) ==> res@.len() == 0,
    {
        if !self.all_staking_histories_are_applied() {
            return Vec::new();
        }
        self.validator_set.get_validator_ids_of(delegator_id)
    }

    /// The ids of the delegators of `validator_id`, once all staking histories are applied.
    pub fn get_delegator_ids_of(&self, validator_id: &AccountId) -> (res: Vec<AccountId>)
        requires
            self.wf(),
        ensures
            histories_applied(self.status()) ==> res@.len() == self.set().delegators_of(validator_id@).len()
                && forall|i: int| 0 <= i < res@.len() ==> res@[i] == self.set().delegators_of(validator_id@)[i].delegator_id,
            !histories_applied(self.status()) ==> res@.len() == 0,
    {
        if !self.all_staking_histories_are_applied() {
            return Vec::new();
        }
        self.validator_set.get_delegator_ids_of(validator_id)
    }

    /// The number of validators that `delegator_id` delegates to, once all
    /// staking histories are applied.
    pub fn get_validator_count_of(&self, delegator_id: &AccountId) -> (res: u64)
        requires
            self.wf(),
        ensures
            res == if histories_applied(self.status()) { validator_ids_of(self.set().groups, delegator_id@).len() } else { 0 },
    {
        if !self.all_staking_histories_are_applied() {
            return 0;
        }
        self.validator_set.get_validator_count_of(delegator_id)
    }

    /// The number of delegators of `validator_id`, once all staking histories are applied.
    pub fn get_delegator_count_of(&self, validator_id: &AccountId) -> (res: u64)
        requires
            self.wf(),
        ensures
            res == if histories_applied(self.status()) { self.set().delegators_of(validator_id@).len() } else { 0 },
    {
        if !self.all_staking_histories_are_applied() {
            return 0;
        }
        self.validator_set.get_delegator_count_of(validator_id)
    }

    /// The total stake, once all staking histories are applied.
    pub fn total_stake(&self) -> (res: u128)
        ensures
            res == if histories_applied(self.status()) { self.set().total_stake } else { 0 },
    {
        if !self.all_staking_histories_are_applied() {
            return 0;
        }
        self.validator_set.total_stake()
    }

    /// The number of validators, once all staking histories are applied.
    pub fn validator_count(&self) -> (res: u64)
        ensures
            res == if histories_applied(self.status()) { self.set().validators.len() } else { 0 },
    {
        if !self.all_staking_histories_are_applied() {
            return 0;
        }
        self.validator_set.validator_count()
    }

    /// The number of delegators, once all staking histories are applied.
    pub fn delegator_count(&self) -> (res: u64)
        requires
            self.wf(),
            delegator_total(self.set(), self.set().validators) <= u64::MAX,
        ensures
            res == if histories_applied(self.status()) { delegator_total(self.set(), self.set().validators) } else { 0 },
    {
        if !self.all_staking_histories_are_applied() {
            return 0;
        }
        self.validator_set.delegator_count()
    }

    /// The validators as the appchain sees them, once all staking histories are applied.
    pub fn get_validator_list(&self) -> (res: Vec<AppchainValidator>)
        requires
            self.wf(),
        ensures
            !histories_applied(self.status()) ==> res@.len() == 0,
            histories_applied(self.status()) ==> res@.len() == self.set().validators.len(),
            forall|i: int| 0 <= i < res@.len() ==> {
                let v = #[trigger] self.set().validators[i];
                &&& res@[i].validator_id == v.validator_id
                &&& res@[i].validator_id_in_appchain == v.validator_id_in_appchain
                &&& res@[i].deposit_amount == v.deposit_amount
                &&& res@[i].total_stake == v.total_stake
                &&& res@[i].delegators_count == self.set().delegators_of(v.validator_id@).len()
                &&& res@[i].can_be_delegated_to == v.can_be_delegated_to
                &&& !res@[i].is_unbonding
            },
    {
        let mut res: Vec<AppchainValidator> = Vec::new();
        if !self.all_staking_histories_are_applied() {
            return res;
        }
        let ghost vs = self.set().validators;
        let mut i: u64 = 0;
        let n = self.validator_set.validator_count();
        while i < n
            invariant
                self.wf(),
                vs == self.set().validators,
                n == vs.len(),
                i <= n,
                res@.len() == i,
                forall|k: int| 0 <= k < i ==> {
                    let v = #[trigger] vs[k];
                    &&& res@[k].validator_id == v.validator_id
                    &&& res@[k].validator_id_in_appchain == v.validator_id_in_appchain
                    &&& res@[k].deposit_amount == v.deposit_amount
                    &&& res@[k].total_stake == v.total_stake
                    &&& res@[k].delegators_count == self.set().delegators_of(v.validator_id@).len()
                    &&& res@[k].can_be_delegated_to == v.can_be_delegated_to
                    &&& !res@[k].is_unbonding
                },
            decreases n - i,
        {
            match self.validator_set.get_validator_by_index(&i) {
                Some(v) => {
                    let count = self.validator_set.get_delegator_count_of(&v.validator_id);
                    res.push(AppchainValidator::from_validator(v, count, false));
                },
                None => {},
            }
            i = i + 1;
        }
        res
    }

    /// The set as the appchain sees it.
    pub fn to_validator_set_info(&self) -> (res: ValidatorSetInfo)
        requires
            self.wf(),
        ensures
            res.era_number == self.set().era_number,
            res.total_stake == self.set().total_stake,
            res.start_block_height == self.start_height(),
            res.start_timestamp == self.start_time(),
            res.staking_history_index == self.history_index(),
            res.unprofitable_validator_ids@ == self.unprofitable_ids(),
            res.valid_total_stake == self.valid_stake(),
            res.processing_status == self.status(),
            !histories_applied(self.status()) ==> res.validator_list@.len() == 0,
            histories_applied(self.status()) ==> res.validator_list@.len() == self.set().validators.len(),
            forall|i: int| 0 <= i < res.validator_list@.len() ==> {
                let v = #[trigger] self.set().validators[i];
                &&& res.validator_list@[i].validator_id == v.validator_id
                &&& res.validator_list@[i].total_stake == v.total_stake
                &&& res.validator_list@[i].deposit_amount == v.deposit_amount
                &&& res.validator_list@[i].delegators_count == self.set().delegators_of(v.validator_id@).len()
            },
    {
        ValidatorSetInfo {
            era_number: self.validator_set.era_number(),
            total_stake: self.validator_set.total_stake(),
            validator_list: self.get_validator_list(),
            start_block_height: self.start_block_height,
            start_timestamp: self.start_timestamp,
            staking_history_index: self.staking_history_index,
            unprofitable_validator_ids: copy_ids(&self.unprofitable_validator_ids),
            valid_total_stake: self.valid_total_stake,
            processing_status: self.processing_status,
        }
    }
}

proof fn lemma_listed_step(
    before: Seq<AccountId>,
    after: Seq<AccountId>,
    old0: Seq<AccountId>,
    all: Seq<AccountId>,
    i: int,
    pushed: bool,
)
    requires
        0 <= i < all.len(),
        forall|id: Seq<char>| #![trigger listed(before, id)] listed(before, id) <==> (listed(old0, id) || listed(all.take(i), id)),
        pushed ==> after == before.push(all[i]),
        !pushed ==> after == before && listed(before, all[i]@),
    ensures
        forall|id: Seq<char>| #![trigger listed(after, id)] listed(after, id) <==> (listed(old0, id) || listed(all.take(i + 1), id)),
{
    let taken = all.take(i);
    let taken1 = all.take(i + 1);
    assert forall|id: Seq<char>| #![trigger listed(after, id)] listed(after, id) <==> (listed(old0, id) || listed(taken1, id)) by {
        if listed(taken1, id) {
            let k = choose|k: int| 0 <= k < taken1.len() && (#[trigger] taken1[k])@ == id;
            if k < i {
                assert(taken[k] == taken1[k]);
                assert(listed(before, id));
            } else {
                assert(taken1[k] == all[i]);
                if pushed {
                    assert(after[before.len() as int] == all[i]);
                }
            }
        }
        if listed(before, id) {
            let k = choose|k: int| 0 <= k < before.len() && (#[trigger] before[k])@ == id;
            assert(after[k] == before[k]);
        }
        if listed(taken, id) {
            let k = choose|k: int| 0 <= k < taken.len() && (#[trigger] taken[k])@ == id;
            assert(taken1[k] == taken[k]);
        }
        if listed(after, id) {
            let k = choose|k: int| 0 <= k < after.len() && (#[trigger] after[k])@ == id;
            if k < before.len() {
                assert(after[k] == before[k]);
                assert(listed(before, id));
            } else {
                assert(taken1[i] == all[i]);
            }
        }
    }
}

/// `m` without the rewards of the validators of `vs` that are not listed
/// in `unprofitable`.
pub open spec fn validator_rewards_cleared(
    m: Map<(int, Seq<Seq<char>>), u128>,
    vs: Seq<Validator>,
    unprofitable: Seq<AccountId>,
) -> Map<(int, Seq<Seq<char>>), u128>
    decreases vs.len(),
{
    if vs.len() == 0 {
        m
    } else {
        let p = validator_rewards_cleared(m, vs.drop_last(), unprofitable);
        if listed(unprofitable, vs.last().validator_id@) {
            p
        } else {
            p.remove((0, seq![vs.last().validator_id@]))
        }
    }
}

/// `m` without the rewards of the delegators `ds` of the validator `vid`.
pub open spec fn delegator_keys_removed(m: Map<(int, Seq<Seq<char>>), u128>, ds: Seq<Delegator>, vid: Seq<char>) -> Map<
    (int, Seq<Seq<char>>),
    u128,
>
    decreases ds.len(),
{
    if ds.len() == 0 {
        m
    } else {
        delegator_keys_removed(m, ds.drop_last(), vid).remove((0, seq![ds.last().delegator_id@, vid]))
    }
}

/// `m` without the rewards of the delegators (in `model`) of the validators
/// of `vs` that are not listed in `unprofitable`.
pub open spec fn delegator_rewards_cleared(
    m: Map<(int, Seq<Seq<char>>), u128>,
    model: ValidatorSetModel,
    vs: Seq<Validator>,
    unprofitable: Seq<AccountId>,
) -> Map<(int, Seq<Seq<char>>), u128>
    decreases vs.len(),
{
    if vs.len() == 0 {
        m
    } else {
        let p = delegator_rewards_cleared(m, model, vs.drop_last(), unprofitable);
        let vid = vs.last().validator_id@;
        if listed(unprofitable, vid) {
            p
        } else {
            delegator_keys_removed(p, model.delegators_of(vid), vid)
        }
    }
}

impl ValidatorSetOfEra {
    /// Removes the rewards of the validators that are not unprofitable and
    /// of their delegators, and forgets the unprofitable validators.
    pub fn clear_reward_distribution_records(&mut self)
        requires
            old(self).wf(),
        ensures
            final(self).wf(),
            final(self).set() == old(self).set(),
            final(self).status() == old(self).status(),
            final(self).history_index() == old(self).history_index(),
            final(self).start_height() == old(self).start_height(),
            final(self).start_time() == old(self).start_time(),
            final(self).valid_stake() == old(self).valid_stake(),
            final(self).unprofitable_ids() == Seq::<AccountId>::empty(),
            final(self).validator_reward_map() == validator_rewards_cleared(
                old(self).validator_reward_map(),
                old(self).set().validators,
                old(self).unprofitable_ids(),
            ),
            final(self).delegator_reward_map() == delegator_rewards_cleared(
                old(self).delegator_reward_map(),
                old(self).set(),
                old(self).set().validators,
                old(self).unprofitable_ids(),
            ),
    {
        let ghost vs = self.validator_set@.validators;
        let ghost model = self.validator_set@;
        let ghost unprofitable = self.unprofitable_validator_ids@;
        let ghost vm = self.validator_rewards.amounts();
        let ghost dm = self.delegator_rewards.amounts();
        let n = self.validator_set.validator_count();
        let mut i: u64 = 0;
        while i < n
            invariant
                self.wf(),
                n == vs.len(),
                i <= n,
                vs == self.validator_set@.validators,
                model == self.validator_set@,
                unprofitable == self.unprofitable_validator_ids@,
                self.staking_history_index == old(self).staking_history_index,
                self.processing_status == old(self).processing_status,
                self.start_block_height == old(self).start_block_height,
                self.start_timestamp == old(self).start_timestamp,
                self.valid_total_stake == old(self).valid_total_stake,
                self.validator_set == old(self).validator_set,
                self.unprofitable_validator_ids == old(self).unprofitable_validator_ids,
                vm == old(self).validator_rewards.amounts(),
                dm == old(self).delegator_rewards.amounts(),
                self.validator_rewards.amounts() == validator_rewards_cleared(vm, vs.take(i as int), unprofitable),
                self.delegator_rewards.amounts() == delegator_rewards_cleared(dm, model, vs.take(i as int), unprofitable),
            decreases n - i,
        {
            let validator_id = match self.validator_set.get_validator_by_index(&i) {
                Some(v) => v.validator_id.clone(),
                None => {
                    assert(false);
                    String::new()
                },
            };
            assert(vs.take(i + 1).drop_last() =~= vs.take(i as int));
            assert(vs.take(i + 1).last() == vs[i as int]);
            if !contains_id(&self.unprofitable_validator_ids, &validator_id) {
                let count = self.validator_set.get_delegator_count_of(&validator_id);
                let ghost ds = model.delegators_of(validator_id@);
                let ghost base = self.delegator_rewards.amounts();
                let mut j: u64 = 0;
                while j < count
                    invariant
                        self.wf(),
                        model == self.validator_set@,
                        count == ds.len(),
                        ds == model.delegators_of(validator_id@),
                        j <= count,
                        self.validator_set == old(self).validator_set,
                        self.validator_rewards == old(self).validator_rewards || self.validator_rewards.amounts()
                            == validator_rewards_cleared(vm, vs.take(i as int), unprofitable),
                        self.validator_rewards.amounts() == validator_rewards_cleared(vm, vs.take(i as int), unprofitable),
                        self.unprofitable_validator_ids == old(self).unprofitable_validator_ids,
                        self.staking_history_index == old(self).staking_history_index,
                        self.processing_status == old(self).processing_status,
                        self.start_block_height == old(self).start_block_height,
                        self.start_timestamp == old(self).start_timestamp,
                        self.valid_total_stake == old(self).valid_total_stake,
                        self.delegator_rewards.amounts() == delegator_keys_removed(base, ds.take(j as int), validator_id@),
                    decreases count - j,
                {
                    let delegator_id = match self.validator_set.get_delegator_by_index(&j, &validator_id) {
                        Some(d) => d.delegator_id.clone(),
                        None => {
                            assert(false);
                            String::new()
                        },
                    };
                    assert(ds.take(j + 1).drop_last() =~= ds.take(j as int));
                    assert(ds.take(j + 1).last() == ds[j as int]);
                    let key = (delegator_id, validator_id.clone());
                    self.delegator_rewards.remove(&key);
                    j = j + 1;
                }
                assert(ds.take(j as int) =~= ds);
                self.validator_rewards.remove(&validator_id);
            }
            i = i + 1;
        }
        assert(vs.take(i as int) =~= vs);
        self.unprofitable_validator_ids.clear();
    }

    /// Removes the validators, delegators and rewards of the set.
    pub fn clear(&mut self)
        requires
            old(self).wf(),
        ensures
            final(self).wf(),
            final(self).set().era_number == old(self).set().era_number,
            final(self).set().validators == Seq::<Validator>::empty(),
            final(self).set().groups == Seq::<(Seq<char>, Seq<Delegator>)>::empty(),
            final(self).set().total_stake == 0,
            final(self).unprofitable_ids() == Seq::<AccountId>::empty(),
            final(self).validator_reward_map() == validator_rewards_cleared(
                old(self).validator_reward_map(),
                old(self).set().validators,
                old(self).unprofitable_ids(),
            ),
            final(self).delegator_reward_map() == delegator_rewards_cleared(
                old(self).delegator_reward_map(),
                old(self).set(),
                old(self).set().validators,
                old(self).unprofitable_ids(),
            ),
    {
        self.clear_reward_distribution_records();
        self.validator_set.clear();
    }
}

impl IndexedAndClearable for ValidatorSetOfEra {
    open spec fn indexed(self, index: u64) -> Self {
        self
    }

    /// A validator set keeps its era number in place of an index.
    fn set_index(&mut self, _index: &u64) {
    }

    /// The validators, delegators and rewards of a set go with it.
    fn clear_extra_storage(&mut self) {
    }
}

} // verus!
