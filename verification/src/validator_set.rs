//! The validators and delegators of an era, and how staking facts change them.
use crate::types::{AccountId, StakingFact};
use vstd::prelude::*;

verus! {

/// A validator in a validator set.
#[derive(Debug, PartialEq, Eq)]
pub struct Validator {
    /// The validator's id in NEAR protocol.
    pub validator_id: AccountId,
    /// The validator's id in the appchain.
    pub validator_id_in_appchain: String,
    /// The block height when the validator is registered.
    pub registered_block_height: u64,
    /// The timestamp when the validator is registered.
    pub registered_timestamp: u64,
    /// The deposit of the validator.
    pub deposit_amount: u128,
    /// The stake of the validator, the delegations of all its delegators included.
    pub total_stake: u128,
    /// Whether the validator accepts delegations.
    pub can_be_delegated_to: bool,
}

/// A delegator of a validator in a validator set.
#[derive(Debug, PartialEq, Eq)]
pub struct Delegator {
    /// The delegator's id in NEAR protocol.
    pub delegator_id: AccountId,
    /// The id of the validator that the delegator delegates to.
    pub validator_id: AccountId,
    /// The block height when the delegator is registered.
    pub registered_block_height: u64,
    /// The timestamp when the delegator is registered.
    pub registered_timestamp: u64,
    /// The delegation of the delegator.
    pub deposit_amount: u128,
}

impl Validator {
    /// A copy of the validator.
    pub fn duplicate(&self) -> (res: Validator)
        ensures
            res == *self,
    {
        Validator {
            validator_id: self.validator_id.clone(),
            validator_id_in_appchain: self.validator_id_in_appchain.clone(),
            registered_block_height: self.registered_block_height,
            registered_timestamp: self.registered_timestamp,
            deposit_amount: self.deposit_amount,
            total_stake: self.total_stake,
            can_be_delegated_to: self.can_be_delegated_to,
        }
    }
}

impl Delegator {
    /// A copy of the delegator.
    pub fn duplicate(&self) -> (res: Delegator)
        ensures
            res == *self,
    {
        Delegator {
            delegator_id: self.delegator_id.clone(),
            validator_id: self.validator_id.clone(),
            registered_block_height: self.registered_block_height,
            registered_timestamp: self.registered_timestamp,
            deposit_amount: self.deposit_amount,
        }
    }
}

/// The delegators of one validator, in the order in which they are enumerated.
pub struct DelegatorGroup {
    pub validator_id: AccountId,
    pub delegators: Vec<Delegator>,
}

/// The abstract state of a validator set: its validators in the order in which
/// they are enumerated, the delegators of each validator that has any, and the
/// total stake.
#[verifier::ext_equal]
pub struct ValidatorSetModel {
    pub era_number: u64,
    pub validators: Seq<Validator>,
    pub groups: Seq<(Seq<char>, Seq<Delegator>)>,
    pub total_stake: int,
}

/// The validators and delegators of an era.
pub struct ValidatorSet {
    era_number: u64,
    validators: Vec<Validator>,
    delegator_groups: Vec<DelegatorGroup>,
    total_stake: u128,
}

/// Whether `vs` holds a validator with id `id`.
pub open spec fn has_validator(vs: Seq<Validator>, id: Seq<char>) -> bool {
    exists|i: int| 0 <= i < vs.len() && (#[trigger] vs[i]).validator_id@ == id
}

/// The position of the validator with id `id` in `vs`.
pub open spec fn validator_pos(vs: Seq<Validator>, id: Seq<char>) -> int {
    choose|i: int| 0 <= i < vs.len() && (#[trigger] vs[i]).validator_id@ == id
}

/// Whether `gs` holds a group of delegators of the validator `id`.
pub open spec fn has_group(gs: Seq<(Seq<char>, Seq<Delegator>)>, id: Seq<char>) -> bool {
    exists|j: int| 0 <= j < gs.len() && (#[trigger] gs[j]).0 == id
}

/// The position of the group of delegators of the validator `id` in `gs`.
pub open spec fn group_pos(gs: Seq<(Seq<char>, Seq<Delegator>)>, id: Seq<char>) -> int {
    choose|j: int| 0 <= j < gs.len() && (#[trigger] gs[j]).0 == id
}

/// Whether `ds` holds a delegator with id `id`.
pub open spec fn has_delegator(ds: Seq<Delegator>, id: Seq<char>) -> bool {
    exists|k: int| 0 <= k < ds.len() && (#[trigger] ds[k]).delegator_id@ == id
}

/// The position of the delegator with id `id` in `ds`.
pub open spec fn delegator_pos(ds: Seq<Delegator>, id: Seq<char>) -> int {
    choose|k: int| 0 <= k < ds.len() && (#[trigger] ds[k]).delegator_id@ == id
}

/// The sum of the total stakes of `vs`.
pub open spec fn sum_total_stake(vs: Seq<Validator>) -> int
    decreases vs.len(),
{
    if vs.len() == 0 {
        0
    } else {
        sum_total_stake(vs.drop_last()) + vs.last().total_stake
    }
}

/// The sum of the deposits of `ds`.
pub open spec fn sum_deposits(ds: Seq<Delegator>) -> int
    decreases ds.len(),
{
    if ds.len() == 0 {
        0
    } else {
        sum_deposits(ds.drop_last()) + ds.last().deposit_amount
    }
}

/// The sequence `s` after its element at `i` is replaced by its last element,
/// and its last element is dropped.
pub open spec fn swap_removed<A>(s: Seq<A>, i: int) -> Seq<A> {
    s.update(i, s.last()).drop_last()
}

impl ValidatorSetModel {
    /// Whether ids are unique and every group of delegators is well formed.
    pub open spec fn wf(self) -> bool {
        &&& unique_validators(self.validators)
        &&& unique_groups(self.groups)
        &&& forall|j: int| 0 <= j < self.groups.len() ==> #[trigger] group_wf(self.groups[j])
    }

    /// Whether the set holds the validator `id`.
    pub open spec fn contains_validator(self, id: Seq<char>) -> bool {
        has_validator(self.validators, id)
    }

    /// The validator `id`.
    pub open spec fn validator(self, id: Seq<char>) -> Validator {
        self.validators[validator_pos(self.validators, id)]
    }

    /// The delegators of the validator `id`, in the order in which they are enumerated.
    pub open spec fn delegators_of(self, id: Seq<char>) -> Seq<Delegator> {
        if has_group(self.groups, id) {
            self.groups[group_pos(self.groups, id)].1
        } else {
            Seq::empty()
        }
    }

    /// Whether `delegator_id` delegates to `validator_id`.
    pub open spec fn contains_delegator(self, delegator_id: Seq<char>, validator_id: Seq<char>) -> bool {
        has_delegator(self.delegators_of(validator_id), delegator_id)
    }

    /// The delegator `delegator_id` of `validator_id`.
    pub open spec fn delegator(self, delegator_id: Seq<char>, validator_id: Seq<char>) -> Delegator {
        let ds = self.delegators_of(validator_id);
        ds[delegator_pos(ds, delegator_id)]
    }
}

/// Whether the validators of `vs` have distinct ids.
pub open spec fn unique_validators(vs: Seq<Validator>) -> bool {
    forall|i: int, j: int|
        0 <= i < vs.len() && 0 <= j < vs.len() && i != j
            ==> (#[trigger] vs[i]).validator_id@ != (#[trigger] vs[j]).validator_id@
}

/// Whether the groups of `gs` belong to distinct validators.
pub open spec fn unique_groups(gs: Seq<(Seq<char>, Seq<Delegator>)>) -> bool {
    forall|i: int, j: int|
        0 <= i < gs.len() && 0 <= j < gs.len() && i != j ==> (#[trigger] gs[i]).0 != (#[trigger] gs[j]).0
}

/// Whether the delegators of a group have distinct ids and all delegate to
/// the group's validator, and the group is not empty.
pub open spec fn group_wf(g: (Seq<char>, Seq<Delegator>)) -> bool {
    &&& g.1.len() > 0
    &&& forall|k: int| 0 <= k < g.1.len() ==> (#[trigger] g.1[k]).validator_id@ == g.0
    &&& forall|k: int, l: int|
        0 <= k < g.1.len() && 0 <= l < g.1.len() && k != l
            ==> (#[trigger] g.1[k]).delegator_id@ != (#[trigger] g.1[l]).delegator_id@
}


/// `m` with the validator at `p` replaced by `v`.
pub open spec fn with_validator(m: ValidatorSetModel, p: int, v: Validator, total_stake: int) -> ValidatorSetModel {
    ValidatorSetModel { validators: m.validators.update(p, v), total_stake, ..m }
}

impl ValidatorSetModel {
    /// Whether applying `fact` neither finds a missing validator or delegator nor
    /// overflows or underflows an amount.
    pub open spec fn applicable(self, fact: StakingFact) -> bool {
        match fact {
            StakingFact::ValidatorRegistered { amount, .. } => self.total_stake + amount <= u128::MAX,
            StakingFact::StakeIncreased { validator_id, amount } => {
                &&& self.contains_validator(validator_id@)
                &&& self.validator(validator_id@).deposit_amount + amount <= u128::MAX
                &&& self.validator(validator_id@).total_stake + amount <= u128::MAX
                &&& self.total_stake + amount <= u128::MAX
            },
            StakingFact::StakeDecreased { validator_id, amount } => {
                &&& self.contains_validator(validator_id@)
                &&& self.validator(validator_id@).deposit_amount >= amount
                &&& self.validator(validator_id@).total_stake >= amount
                &&& self.total_stake >= amount
            },
            StakingFact::ValidatorUnbonded { validator_id, .. } => {
                &&& !has_group(self.groups, validator_id@)
                &&& self.contains_validator(validator_id@)
                &&& self.total_stake >= self.validator(validator_id@).total_stake
            },
            StakingFact::ValidatorAutoUnbonded { validator_id, .. } => {
                &&& !has_group(self.groups, validator_id@)
                &&& self.contains_validator(validator_id@)
                &&& self.total_stake >= self.validator(validator_id@).total_stake
            },
            StakingFact::ValidatorDelegationEnabled { validator_id } => self.contains_validator(validator_id@),
            StakingFact::ValidatorDelegationDisabled { validator_id } => self.contains_validator(validator_id@),
            StakingFact::DelegatorRegistered { validator_id, amount, .. } => {
                &&& self.contains_validator(validator_id@)
                &&& self.validator(validator_id@).total_stake + amount <= u128::MAX
                &&& self.total_stake + amount <= u128::MAX
            },
            StakingFact::DelegationIncreased { delegator_id, validator_id, amount } => {
                &&& self.contains_delegator(delegator_id@, validator_id@)
                &&& self.delegator(delegator_id@, validator_id@).deposit_amount + amount <= u128::MAX
                &&& self.contains_validator(validator_id@)
                &&& self.validator(validator_id@).total_stake + amount <= u128::MAX
                &&& self.total_stake + amount <= u128::MAX
            },
            StakingFact::DelegationDecreased { delegator_id, validator_id, amount } => {
                &&& self.contains_delegator(delegator_id@, validator_id@)
                &&& self.delegator(delegator_id@, validator_id@).deposit_amount >= amount
                &&& self.contains_validator(validator_id@)
                &&& self.validator(validator_id@).total_stake >= amount
                &&& self.total_stake >= amount
            },
            StakingFact::DelegatorUnbonded { delegator_id, validator_id, .. } => {
                &&& self.contains_delegator(delegator_id@, validator_id@)
                &&& self.contains_validator(validator_id@)
                &&& self.validator(validator_id@).total_stake
                    >= self.delegator(delegator_id@, validator_id@).deposit_amount
                &&& self.total_stake >= self.delegator(delegator_id@, validator_id@).deposit_amount
            },
            StakingFact::DelegatorAutoUnbonded { delegator_id, validator_id, .. } => {
                &&& self.contains_delegator(delegator_id@, validator_id@)
                &&& self.contains_validator(validator_id@)
                &&& self.validator(validator_id@).total_stake
                    >= self.delegator(delegator_id@, validator_id@).deposit_amount
                &&& self.total_stake >= self.delegator(delegator_id@, validator_id@).deposit_amount
            },
            StakingFact::ValidatorIdInAppchainChanged { validator_id, .. } => self.contains_validator(validator_id@),
        }
    }

    /// The set after a validator registers: it is put in place of a validator
    /// with the same id, or else after the last validator.
    pub open spec fn registered(self, v: Validator) -> ValidatorSetModel {
        ValidatorSetModel {
            validators: if self.contains_validator(v.validator_id@) {
                self.validators.update(validator_pos(self.validators, v.validator_id@), v)
            } else {
                self.validators.push(v)
            },
            total_stake: self.total_stake + v.total_stake,
            ..self
        }
    }

    /// The set after the validator `id` changes: deposit by `deposit_delta` and
    /// total stake by `stake_delta`, as does the total stake of the set.
    pub open spec fn staked(self, id: Seq<char>, deposit_delta: int, stake_delta: int) -> ValidatorSetModel {
        let p = validator_pos(self.validators, id);
        let v = self.validators[p];
        with_validator(
            self,
            p,
            Validator {
                deposit_amount: (v.deposit_amount + deposit_delta) as u128,
                total_stake: (v.total_stake + stake_delta) as u128,
                ..v
            },
            self.total_stake + stake_delta,
        )
    }

    /// The set after the validator `id` is removed: the last validator takes its place.
    pub open spec fn validator_removed(self, id: Seq<char>) -> ValidatorSetModel {
        let p = validator_pos(self.validators, id);
        ValidatorSetModel {
            validators: swap_removed(self.validators, p),
            total_stake: self.total_stake - self.validators[p].total_stake,
            ..self
        }
    }

    /// The set with the validator `id` replaced by `v`.
    pub open spec fn validator_changed(self, id: Seq<char>, v: Validator) -> ValidatorSetModel {
        with_validator(self, validator_pos(self.validators, id), v, self.total_stake)
    }

    /// The groups after delegator `d` of the validator `d.validator_id` is stored:
    /// in place of a delegator with the same id, or else after the last delegator
    /// of a new or existing group.
    pub open spec fn delegator_stored(self, d: Delegator) -> ValidatorSetModel {
        let vid = d.validator_id@;
        ValidatorSetModel {
            groups: if has_group(self.groups, vid) {
                let j = group_pos(self.groups, vid);
                let ds = self.groups[j].1;
                if has_delegator(ds, d.delegator_id@) {
                    self.groups.update(j, (vid, ds.update(delegator_pos(ds, d.delegator_id@), d)))
                } else {
                    self.groups.update(j, (vid, ds.push(d)))
                }
            } else {
                self.groups.push((vid, seq![d]))
            },
            ..self
        }
    }

    /// The groups after delegator `did` of validator `vid` is removed: the last
    /// delegator of the group takes its place, and an empty group is removed, the
    /// last group taking its place.
    pub open spec fn delegator_removed(self, did: Seq<char>, vid: Seq<char>) -> ValidatorSetModel {
        let j = group_pos(self.groups, vid);
        let ds = self.groups[j].1;
        let rest = swap_removed(ds, delegator_pos(ds, did));
        ValidatorSetModel {
            groups: if rest.len() > 0 {
                self.groups.update(j, (vid, rest))
            } else {
                swap_removed(self.groups, j)
            },
            ..self
        }
    }

    /// The groups with the deposit of delegator `did` of `vid` changed by `delta`.
    pub open spec fn delegation_changed(self, did: Seq<char>, vid: Seq<char>, delta: int) -> ValidatorSetModel {
        let j = group_pos(self.groups, vid);
        let ds = self.groups[j].1;
        let k = delegator_pos(ds, did);
        ValidatorSetModel {
            groups: self.groups.update(
                j,
                (vid, ds.update(k, Delegator { deposit_amount: (ds[k].deposit_amount + delta) as u128, ..ds[k] })),
            ),
            ..self
        }
    }

    /// The set after `fact` is applied, where a validator or delegator that
    /// registers gets `block_height` and `timestamp` as the time of registration.
    pub open spec fn applied(self, fact: StakingFact, block_height: u64, timestamp: u64) -> ValidatorSetModel {
        match fact {
            StakingFact::ValidatorRegistered { validator_id, validator_id_in_appchain, amount, can_be_delegated_to } =>
                self.registered(Validator {
                    validator_id,
                    validator_id_in_appchain,
                    registered_block_height: block_height,
                    registered_timestamp: timestamp,
                    deposit_amount: amount,
                    total_stake: amount,
                    can_be_delegated_to,
                }),
            StakingFact::StakeIncreased { validator_id, amount } => self.staked(validator_id@, amount as int, amount as int),
            StakingFact::StakeDecreased { validator_id, amount } => self.staked(validator_id@, -amount, -amount),
            StakingFact::ValidatorUnbonded { validator_id, .. } => self.validator_removed(validator_id@),
            StakingFact::ValidatorAutoUnbonded { validator_id, .. } => self.validator_removed(validator_id@),
            StakingFact::ValidatorDelegationEnabled { validator_id } =>
                self.validator_changed(validator_id@, Validator { can_be_delegated_to: true, ..self.validator(validator_id@) }),
            StakingFact::ValidatorDelegationDisabled { validator_id } =>
                self.validator_changed(validator_id@, Validator { can_be_delegated_to: false, ..self.validator(validator_id@) }),
            StakingFact::DelegatorRegistered { delegator_id, validator_id, amount } =>
                self.delegator_stored(Delegator {
                    delegator_id,
                    validator_id,
                    registered_block_height: block_height,
                    registered_timestamp: timestamp,
                    deposit_amount: amount,
                }).staked(validator_id@, 0, amount as int),
            StakingFact::DelegationIncreased { delegator_id, validator_id, amount } =>
                self.delegation_changed(delegator_id@, validator_id@, amount as int).staked(validator_id@, 0, amount as int),
            StakingFact::DelegationDecreased { delegator_id, validator_id, amount } =>
                self.delegation_changed(delegator_id@, validator_id@, -amount).staked(validator_id@, 0, -amount),
            StakingFact::DelegatorUnbonded { delegator_id, validator_id, .. } => {
                let dep = self.delegator(delegator_id@, validator_id@).deposit_amount;
                self.delegator_removed(delegator_id@, validator_id@).staked(validator_id@, 0, -dep)
            },
            StakingFact::DelegatorAutoUnbonded { delegator_id, validator_id, .. } => {
                let dep = self.delegator(delegator_id@, validator_id@).deposit_amount;
                self.delegator_removed(delegator_id@, validator_id@).staked(validator_id@, 0, -dep)
            },
            StakingFact::ValidatorIdInAppchainChanged { validator_id, validator_id_in_appchain } =>
                self.validator_changed(
                    validator_id@,
                    Validator { validator_id_in_appchain, ..self.validator(validator_id@) },
                ),
        }
    }
}

/// The abstract view of a list of groups of delegators.
pub open spec fn groups_view(gs: Seq<DelegatorGroup>) -> Seq<(Seq<char>, Seq<Delegator>)> {
    gs.map_values(|g: DelegatorGroup| (g.validator_id@, g.delegators@))
}

impl View for ValidatorSet {
    type V = ValidatorSetModel;

    closed spec fn view(&self) -> ValidatorSetModel {
        ValidatorSetModel {
            era_number: self.era_number,
            validators: self.validators@,
            groups: groups_view(self.delegator_groups@),
            total_stake: self.total_stake as int,
        }
    }
}

impl ValidatorSet {
    /// The total stake of the set fits in 128 bits.
    pub proof fn lemma_total_stake_bounded(&self)
        ensures
            0 <= self@.total_stake <= u128::MAX,
    {
    }

    /// Whether the set is well formed.
    pub open spec fn wf(&self) -> bool {
        self@.wf()
    }

    /// An empty validator set of era `era_number`.
    pub fn new(era_number: u64) -> (res: Self)
        ensures
            res@.era_number == era_number,
            res@.validators == Seq::<Validator>::empty(),
            res@.groups == Seq::<(Seq<char>, Seq<Delegator>)>::empty(),
            res@.total_stake == 0,
            res.wf(),
    {
        let res = ValidatorSet {
            era_number,
            validators: Vec::new(),
            delegator_groups: Vec::new(),
            total_stake: 0,
        };
        assert(res@.groups =~= Seq::<(Seq<char>, Seq<Delegator>)>::empty());
        res
    }

    /// Removes all validators and delegators.
    pub fn clear(&mut self)
        ensures
            final(self)@.era_number == old(self)@.era_number,
            final(self)@.validators == Seq::<Validator>::empty(),
            final(self)@.groups == Seq::<(Seq<char>, Seq<Delegator>)>::empty(),
            final(self)@.total_stake == 0,
            final(self).wf(),
    {
        self.validators.clear();
        self.delegator_groups.clear();
        self.total_stake = 0;
        assert(self@.groups =~= Seq::<(Seq<char>, Seq<Delegator>)>::empty());
    }

    /// The position of the validator `validator_id`.
    fn find_validator(&self, validator_id: &AccountId) -> (res: Option<usize>)
        ensures
            match res {
                Some(i) => i < self@.validators.len() && self@.validators[i as int].validator_id@
                    == validator_id@,
                None => !has_validator(self@.validators, validator_id@),
            },
    {
        let mut i: usize = 0;
        while i < self.validators.len()
            invariant
                i <= self.validators@.len(),
                forall|k: int| 0 <= k < i ==> (#[trigger] self.validators@[k]).validator_id@
                    != validator_id@,
            decreases self.validators@.len() - i,
        {
            if self.validators[i].validator_id == *validator_id {
                return Some(i);
            }
            i = i + 1;
        }
        None
    }

    /// The position of the group of delegators of `validator_id`.
    fn find_group(&self, validator_id: &AccountId) -> (res: Option<usize>)
        ensures
            match res {
                Some(j) => j < self@.groups.len() && self@.groups[j as int].0 == validator_id@,
                None => !has_group(self@.groups, validator_id@),
            },
    {
        let mut j: usize = 0;
        while j < self.delegator_groups.len()
            invariant
                j <= self.delegator_groups@.len(),
                forall|k: int| 0 <= k < j ==> (#[trigger] self@.groups[k]).0 != validator_id@,
            decreases self.delegator_groups@.len() - j,
        {
            if self.delegator_groups[j].validator_id == *validator_id {
                return Some(j);
            }
            j = j + 1;
        }
        None
    }
}


impl ValidatorSet {
    /// The position of the validator `validator_id`, which the set holds.
    fn validator_index(&self, validator_id: &AccountId) -> (i: usize)
        requires
            self.wf(),
            has_validator(self@.validators, validator_id@),
        ensures
            i < self@.validators.len(),
            i == validator_pos(self@.validators, validator_id@),
    {
        match self.find_validator(validator_id) {
            Some(i) => i,
            None => {
                assert(false);
                0
            },
        }
    }

    /// The position of the group of delegators of `validator_id`, which the set holds.
    fn group_index(&self, validator_id: &AccountId) -> (j: usize)
        requires
            self.wf(),
            has_group(self@.groups, validator_id@),
        ensures
            j < self@.groups.len(),
            j == group_pos(self@.groups, validator_id@),
    {
        match self.find_group(validator_id) {
            Some(j) => j,
            None => {
                assert(false);
                0
            },
        }
    }

    /// The position of the delegator `delegator_id` in the group at `j`.
    fn find_delegator_in_group(&self, j: usize, delegator_id: &AccountId) -> (res: Option<usize>)
        requires
            self.wf(),
            j < self@.groups.len(),
        ensures
            match res {
                Some(k) => k < self@.groups[j as int].1.len() && k == delegator_pos(
                    self@.groups[j as int].1,
                    delegator_id@,
                ) && self@.groups[j as int].1[k as int].delegator_id@ == delegator_id@,
                None => !has_delegator(self@.groups[j as int].1, delegator_id@),
            },
    {
        let ghost ds = self@.groups[j as int].1;
        let mut k: usize = 0;
        while k < self.delegator_groups[j].delegators.len()
            invariant
                self.wf(),
                j < self.delegator_groups@.len(),
                ds == self.delegator_groups@[j as int].delegators@,
                k <= ds.len(),
                forall|l: int| 0 <= l < k ==> (#[trigger] ds[l]).delegator_id@ != delegator_id@,
            decreases ds.len() - k,
        {
            if self.delegator_groups[j].delegators[k].delegator_id == *delegator_id {
                proof {
                    assert(group_wf(self@.groups[j as int]));
                    let c = delegator_pos(ds, delegator_id@);
                    assert(ds[c].delegator_id@ == delegator_id@);
                }
                return Some(k);
            }
            k = k + 1;
        }
        None
    }
}


impl ValidatorSet {
    /// Stores `v` in place of the validator with its id, or else after the last validator.
    fn store_validator(&mut self, v: Validator)
        requires
            old(self).wf(),
            old(self)@.total_stake + v.total_stake <= u128::MAX,
        ensures
            final(self).wf(),
            final(self)@ == old(self)@.registered(v),
    {
        let ghost m = self@;
        let amount = v.total_stake;
        match self.find_validator(&v.validator_id) {
            Some(i) => {
                proof {
                    let c = validator_pos(m.validators, v.validator_id@);
                    assert(m.validators[c].validator_id@ == v.validator_id@);
                }
                self.validators.set(i, v);
            },
            None => {
                self.validators.push(v);
            },
        }
        self.total_stake = self.total_stake + amount;
        assert(self@ =~= m.registered(v));
    }

    /// Adds `deposit_delta` to the deposit and `stake_delta` to the total stake
    /// of the validator `id`, and `stake_delta` to the total stake of the set.
    fn add_stake(&mut self, id: &AccountId, deposit_delta: u128, stake_delta: u128)
        requires
            old(self).wf(),
            old(self)@.contains_validator(id@),
            old(self)@.validator(id@).deposit_amount + deposit_delta <= u128::MAX,
            old(self)@.validator(id@).total_stake + stake_delta <= u128::MAX,
            old(self)@.total_stake + stake_delta <= u128::MAX,
        ensures
            final(self).wf(),
            final(self)@ == old(self)@.staked(id@, deposit_delta as int, stake_delta as int),
    {
        let ghost m = self@;
        let i = self.validator_index(id);
        self.validators[i].deposit_amount = self.validators[i].deposit_amount + deposit_delta;
        self.validators[i].total_stake = self.validators[i].total_stake + stake_delta;
        self.total_stake = self.total_stake + stake_delta;
        assert(self@ =~= m.staked(id@, deposit_delta as int, stake_delta as int));
    }

    /// Subtracts `deposit_delta` from the deposit and `stake_delta` from the total
    /// stake of the validator `id`, and `stake_delta` from the total stake of the set.
    fn sub_stake(&mut self, id: &AccountId, deposit_delta: u128, stake_delta: u128)
        requires
            old(self).wf(),
            old(self)@.contains_validator(id@),
            old(self)@.validator(id@).deposit_amount >= deposit_delta,
            old(self)@.validator(id@).total_stake >= stake_delta,
            old(self)@.total_stake >= stake_delta,
        ensures
            final(self).wf(),
            final(self)@ == old(self)@.staked(id@, -deposit_delta, -stake_delta),
    {
        let ghost m = self@;
        let i = self.validator_index(id);
        self.validators[i].deposit_amount = self.validators[i].deposit_amount - deposit_delta;
        self.validators[i].total_stake = self.validators[i].total_stake - stake_delta;
        self.total_stake = self.total_stake - stake_delta;
        assert(self@ =~= m.staked(id@, -deposit_delta, -stake_delta));
    }

    /// Removes the validator `id`; the last validator takes its place.
    fn remove_validator(&mut self, id: &AccountId)
        requires
            old(self).wf(),
            old(self)@.contains_validator(id@),
            old(self)@.total_stake >= old(self)@.validator(id@).total_stake,
        ensures
            final(self).wf(),
            final(self)@ == old(self)@.validator_removed(id@),
    {
        let ghost m = self@;
        let i = self.validator_index(id);
        let removed = self.validators.swap_remove(i);
        self.total_stake = self.total_stake - removed.total_stake;
        proof {
            let vs = m.validators;
            let r = swap_removed(vs, i as int);
            assert forall|a: int, b: int|
                0 <= a < r.len() && 0 <= b < r.len() && a != b
                implies (#[trigger] r[a]).validator_id@ != (#[trigger] r[b]).validator_id@ by {
                let a0 = if a == i { vs.len() - 1 } else { a };
                let b0 = if b == i { vs.len() - 1 } else { b };
                assert(r[a] == vs[a0]);
                assert(r[b] == vs[b0]);
            }
        }
        assert(self@ =~= m.validator_removed(id@));
    }

    /// Replaces the validator `id` by `v`, which has the same id and total stake.
    fn change_validator(&mut self, id: &AccountId, v: Validator)
        requires
            old(self).wf(),
            old(self)@.contains_validator(id@),
            v.validator_id@ == id@,
        ensures
            final(self).wf(),
            final(self)@ == old(self)@.validator_changed(id@, v),
    {
        let ghost m = self@;
        let i = self.validator_index(id);
        self.validators.set(i, v);
        assert(self@ =~= m.validator_changed(id@, v));
    }
}


impl ValidatorSet {
    /// Stores `d` in the group of its validator: in place of a delegator with the
    /// same id, or else after the last delegator of a new or existing group.
    pub fn store_delegator(&mut self, d: Delegator)
        requires
            old(self).wf(),
        ensures
            final(self).wf(),
            final(self)@ == old(self)@.delegator_stored(d),
    {
        let ghost m = self@;
        let ghost vid = d.validator_id@;
        match self.find_group(&d.validator_id) {
            Some(j) => {
                proof {
                    let c = group_pos(m.groups, vid);
                    assert(m.groups[c].0 == vid);
                    assert(group_wf(m.groups[j as int]));
                }
                let ghost ds = m.groups[j as int].1;
                match self.find_delegator_in_group(j, &d.delegator_id) {
                    Some(k) => {
                        self.delegator_groups[j].delegators.set(k, d);
                        proof {
                            let nds = ds.update(k as int, d);
                            assert(self@.groups[j as int].1 =~= nds);
                            assert forall|a: int, b: int|
                                0 <= a < nds.len() && 0 <= b < nds.len() && a != b
                                implies (#[trigger] nds[a]).delegator_id@ != (#[trigger] nds[b]).delegator_id@ by {
                                assert(nds[a].delegator_id@ == ds[a].delegator_id@);
                                assert(nds[b].delegator_id@ == ds[b].delegator_id@);
                            }
                            assert(group_wf(self@.groups[j as int]));
                        }
                    },
                    None => {
                        self.delegator_groups[j].delegators.push(d);
                        proof {
                            let nds = ds.push(d);
                            assert(self@.groups[j as int].1 =~= nds);
                            assert(group_wf(self@.groups[j as int]));
                        }
                    },
                }
                proof {
                    assert forall|l: int| 0 <= l < self@.groups.len()
                        implies #[trigger] group_wf(self@.groups[l]) by {
                        if l != j {
                            assert(self@.groups[l] == m.groups[l]);
                        }
                    }
                }
            },
            None => {
                let vid_exec = d.validator_id.clone();
                let mut members: Vec<Delegator> = Vec::new();
                members.push(d);
                self.delegator_groups.push(DelegatorGroup { validator_id: vid_exec, delegators: members });
                proof {
                    assert(self@.groups[m.groups.len() as int].1 =~= seq![d]);
                    assert(group_wf(self@.groups[m.groups.len() as int]));
                    assert forall|l: int| 0 <= l < self@.groups.len()
                        implies #[trigger] group_wf(self@.groups[l]) by {
                        if l < m.groups.len() {
                            assert(self@.groups[l] == m.groups[l]);
                        }
                    }
                }
            },
        }
        assert(self@ =~~= m.delegator_stored(d));
    }

    /// Removes the delegator `did` of `vid` and returns it: the last delegator
    /// of the group takes its place, and an empty group is removed.
    fn remove_delegator(&mut self, did: &AccountId, vid: &AccountId) -> (removed: Delegator)
        requires
            old(self).wf(),
            old(self)@.contains_delegator(did@, vid@),
        ensures
            final(self).wf(),
            final(self)@ == old(self)@.delegator_removed(did@, vid@),
            removed == old(self)@.delegator(did@, vid@),
    {
        let ghost m = self@;
        let j = self.group_index(vid);
        let ghost ds = m.groups[j as int].1;
        proof {
            assert(group_wf(m.groups[j as int]));
        }
        let k = match self.find_delegator_in_group(j, did) {
            Some(k) => k,
            None => {
                assert(false);
                0
            },
        };
        let removed = self.delegator_groups[j].delegators.swap_remove(k);
        let ghost rest = swap_removed(ds, k as int);
        proof {
            assert(self.delegator_groups@[j as int].delegators@ =~= rest);
            assert forall|a: int, b: int|
                0 <= a < rest.len() && 0 <= b < rest.len() && a != b
                implies (#[trigger] rest[a]).delegator_id@ != (#[trigger] rest[b]).delegator_id@ by {
                let a0 = if a == k { ds.len() - 1 } else { a };
                let b0 = if b == k { ds.len() - 1 } else { b };
                assert(rest[a] == ds[a0]);
                assert(rest[b] == ds[b0]);
            }
            assert forall|a: int| 0 <= a < rest.len() implies (#[trigger] rest[a]).validator_id@ == vid@ by {
                let a0 = if a == k { ds.len() - 1 } else { a };
                assert(rest[a] == ds[a0]);
            }
        }
        if self.delegator_groups[j].delegators.len() == 0 {
            let ghost gs1 = self@.groups;
            let _empty = self.delegator_groups.swap_remove(j);
            proof {
                let gs = m.groups;
                let r = swap_removed(gs, j as int);
                assert(self@.groups =~= r);
                assert forall|a: int, b: int|
                    0 <= a < r.len() && 0 <= b < r.len() && a != b
                    implies (#[trigger] r[a]).0 != (#[trigger] r[b]).0 by {
                    let a0 = if a == j { gs.len() - 1 } else { a };
                    let b0 = if b == j { gs.len() - 1 } else { b };
                    assert(r[a] == gs[a0]);
                    assert(r[b] == gs[b0]);
                }
                assert forall|a: int| 0 <= a < r.len() implies #[trigger] group_wf(r[a]) by {
                    let a0 = if a == j { gs.len() - 1 } else { a };
                    assert(r[a] == gs[a0]);
                }
            }
        } else {
            proof {
                assert(self@.groups =~~= m.groups.update(j as int, (vid@, rest)));
                assert(group_wf(self@.groups[j as int]));
                assert forall|l: int| 0 <= l < self@.groups.len()
                    implies #[trigger] group_wf(self@.groups[l]) by {
                    if l != j {
                        assert(self@.groups[l] == m.groups[l]);
                    }
                }
            }
        }
        assert(self@ =~~= m.delegator_removed(did@, vid@));
        removed
    }

    /// Adds `delta` to, or subtracts it from, the deposit of delegator `did` of `vid`.
    fn change_delegation(&mut self, did: &AccountId, vid: &AccountId, delta: u128, increase: bool)
        requires
            old(self).wf(),
            old(self)@.contains_delegator(did@, vid@),
            increase ==> old(self)@.delegator(did@, vid@).deposit_amount + delta <= u128::MAX,
            !increase ==> old(self)@.delegator(did@, vid@).deposit_amount >= delta,
        ensures
            final(self).wf(),
            final(self)@ == old(self)@.delegation_changed(did@, vid@, if increase { delta as int } else { -delta }),
    {
        let ghost m = self@;
        let j = self.group_index(vid);
        let ghost ds = m.groups[j as int].1;
        proof {
            assert(group_wf(m.groups[j as int]));
        }
        let k = match self.find_delegator_in_group(j, did) {
            Some(k) => k,
            None => {
                assert(false);
                0
            },
        };
        let old_amount = self.delegator_groups[j].delegators[k].deposit_amount;
        if increase {
            self.delegator_groups[j].delegators[k].deposit_amount = old_amount + delta;
        } else {
            self.delegator_groups[j].delegators[k].deposit_amount = old_amount - delta;
        }
        proof {
            let d = if increase { delta as int } else { -delta };
            let nds = ds.update(k as int, Delegator { deposit_amount: (ds[k as int].deposit_amount + d) as u128, ..ds[k as int] });
            assert(self@.groups[j as int].1 =~= nds);
            assert forall|a: int, b: int|
                0 <= a < nds.len() && 0 <= b < nds.len() && a != b
                implies (#[trigger] nds[a]).delegator_id@ != (#[trigger] nds[b]).delegator_id@ by {
                assert(nds[a].delegator_id@ == ds[a].delegator_id@);
                assert(nds[b].delegator_id@ == ds[b].delegator_id@);
            }
            assert(group_wf(self@.groups[j as int]));
            assert forall|l: int| 0 <= l < self@.groups.len()
                implies #[trigger] group_wf(self@.groups[l]) by {
                if l != j {
                    assert(self@.groups[l] == m.groups[l]);
                }
            }
            assert(self@ =~~= m.delegation_changed(did@, vid@, d));
        }
    }
}


impl ValidatorSet {
    /// Applies `staking_fact` to the set. A validator or delegator that registers
    /// gets `block_height` and `timestamp` as the time of its registration.
    pub fn apply_staking_fact(&mut self, staking_fact: &StakingFact, block_height: u64, timestamp: u64)
        requires
            old(self).wf(),
            old(self)@.applicable(*staking_fact),
        ensures
            final(self).wf(),
            final(self)@ == old(self)@.applied(*staking_fact, block_height, timestamp),
    {
        match staking_fact {
            StakingFact::ValidatorRegistered {
                validator_id,
                validator_id_in_appchain,
                amount,
                can_be_delegated_to,
            } => {
                self.store_validator(
                    Validator {
                        validator_id: validator_id.clone(),
                        validator_id_in_appchain: validator_id_in_appchain.clone(),
                        registered_block_height: block_height,
                        registered_timestamp: timestamp,
                        deposit_amount: *amount,
                        total_stake: *amount,
                        can_be_delegated_to: *can_be_delegated_to,
                    },
                );
            },
            StakingFact::StakeIncreased { validator_id, amount } => {
                self.add_stake(validator_id, *amount, *amount);
            },
            StakingFact::StakeDecreased { validator_id, amount } => {
                self.sub_stake(validator_id, *amount, *amount);
            },
            StakingFact::ValidatorUnbonded { validator_id, .. } => {
                self.remove_validator(validator_id);
            },
            StakingFact::ValidatorAutoUnbonded { validator_id, .. } => {
                self.remove_validator(validator_id);
            },
            StakingFact::ValidatorDelegationEnabled { validator_id } => {
                self.set_delegation_flag(validator_id, true);
            },
            StakingFact::ValidatorDelegationDisabled { validator_id } => {
                self.set_delegation_flag(validator_id, false);
            },
            StakingFact::DelegatorRegistered { delegator_id, validator_id, amount } => {
                self.store_delegator(
                    Delegator {
                        delegator_id: delegator_id.clone(),
                        validator_id: validator_id.clone(),
                        registered_block_height: block_height,
                        registered_timestamp: timestamp,
                        deposit_amount: *amount,
                    },
                );
                self.add_stake(validator_id, 0, *amount);
            },
            StakingFact::DelegationIncreased { delegator_id, validator_id, amount } => {
                self.change_delegation(delegator_id, validator_id, *amount, true);
                self.add_stake(validator_id, 0, *amount);
            },
            StakingFact::DelegationDecreased { delegator_id, validator_id, amount } => {
                self.change_delegation(delegator_id, validator_id, *amount, false);
                self.sub_stake(validator_id, 0, *amount);
            },
            StakingFact::DelegatorUnbonded { delegator_id, validator_id, .. } => {
                let removed = self.remove_delegator(delegator_id, validator_id);
                self.sub_stake(validator_id, 0, removed.deposit_amount);
            },
            StakingFact::DelegatorAutoUnbonded { delegator_id, validator_id, .. } => {
                let removed = self.remove_delegator(delegator_id, validator_id);
                self.sub_stake(validator_id, 0, removed.deposit_amount);
            },
            StakingFact::ValidatorIdInAppchainChanged { validator_id, validator_id_in_appchain } => {
                self.set_id_in_appchain(validator_id, validator_id_in_appchain);
            },
        }
    }

    /// Sets whether the validator `id` accepts delegations.
    fn set_delegation_flag(&mut self, id: &AccountId, flag: bool)
        requires
            old(self).wf(),
            old(self)@.contains_validator(id@),
        ensures
            final(self).wf(),
            final(self)@ == old(self)@.validator_changed(
                id@,
                Validator { can_be_delegated_to: flag, ..old(self)@.validator(id@) },
            ),
    {
        let ghost m = self@;
        let i = self.validator_index(id);
        self.validators[i].can_be_delegated_to = flag;
        assert(self@ =~= m.validator_changed(id@, Validator { can_be_delegated_to: flag, ..m.validator(id@) }));
    }

    /// Sets the id in the appchain of the validator `id`.
    fn set_id_in_appchain(&mut self, id: &AccountId, id_in_appchain: &String)
        requires
            old(self).wf(),
            old(self)@.contains_validator(id@),
        ensures
            final(self).wf(),
            final(self)@ == old(self)@.validator_changed(
                id@,
                Validator { validator_id_in_appchain: *id_in_appchain, ..old(self)@.validator(id@) },
            ),
    {
        let ghost m = self@;
        let i = self.validator_index(id);
        self.validators[i].validator_id_in_appchain = id_in_appchain.clone();
        assert(self@ =~= m.validator_changed(id@, Validator { validator_id_in_appchain: *id_in_appchain, ..m.validator(id@) }));
    }
}


/// The ids of the validators of the groups in `gs` that hold the delegator `did`,
/// in the order of the groups.
pub open spec fn validator_ids_of(gs: Seq<(Seq<char>, Seq<Delegator>)>, did: Seq<char>) -> Seq<Seq<char>>
    decreases gs.len(),
{
    if gs.len() == 0 {
        Seq::empty()
    } else {
        let prefix = validator_ids_of(gs.drop_last(), did);
        if has_delegator(gs.last().1, did) {
            prefix.push(gs.last().0)
        } else {
            prefix
        }
    }
}

/// The number of delegators of the validators `vs` in `m`.
pub open spec fn delegator_total(m: ValidatorSetModel, vs: Seq<Validator>) -> int
    decreases vs.len(),
{
    if vs.len() == 0 {
        0
    } else {
        delegator_total(m, vs.drop_last()) + m.delegators_of(vs.last().validator_id@).len()
    }
}

impl ValidatorSet {
    /// Whether the set holds the validator `validator_id`.
    pub fn contains_validator(&self, validator_id: &AccountId) -> (res: bool)
        ensures
            res == self@.contains_validator(validator_id@),
    {
        self.find_validator(validator_id).is_some()
    }

    /// Whether `delegator_id` delegates to `validator_id` in the set.
    pub fn contains_delegator(&self, delegator_id: &AccountId, validator_id: &AccountId) -> (res: bool)
        requires
            self.wf(),
        ensures
            res == self@.contains_delegator(delegator_id@, validator_id@),
    {
        match self.find_group(validator_id) {
            Some(j) => {
                proof {
                    lemma_group_index(self@.groups, j as int);
                }
                self.find_delegator_in_group(j, delegator_id).is_some()
            },
            None => false,
        }
    }

    /// The validator `validator_id`, if the set holds it.
    pub fn get_validator(&self, validator_id: &AccountId) -> (res: Option<&Validator>)
        requires
            self.wf(),
        ensures
            match res {
                Some(v) => self@.contains_validator(validator_id@) && *v == self@.validator(validator_id@),
                None => !self@.contains_validator(validator_id@),
            },
    {
        match self.find_validator(validator_id) {
            Some(i) => {
                proof {
                    lemma_validator_index(self@.validators, i as int);
                }
                Some(&self.validators[i])
            },
            None => None,
        }
    }

    /// The validator at `index` in the order of enumeration, if any.
    pub fn get_validator_by_index(&self, index: &u64) -> (res: Option<&Validator>)
        ensures
            match res {
                Some(v) => *index < self@.validators.len() && *v == self@.validators[*index as int],
                None => *index >= self@.validators.len(),
            },
    {
        if *index < self.validators.len() as u64 {
            Some(&self.validators[*index as usize])
        } else {
            None
        }
    }

    /// The delegator `delegator_id` of `validator_id`, if any.
    pub fn get_delegator(&self, delegator_id: &AccountId, validator_id: &AccountId) -> (res: Option<&Delegator>)
        requires
            self.wf(),
        ensures
            match res {
                Some(d) => self@.contains_delegator(delegator_id@, validator_id@) && *d == self@.delegator(
                    delegator_id@,
                    validator_id@,
                ),
                None => !self@.contains_delegator(delegator_id@, validator_id@),
            },
    {
        match self.find_group(validator_id) {
            Some(j) => {
                proof {
                    lemma_group_index(self@.groups, j as int);
                }
                match self.find_delegator_in_group(j, delegator_id) {
                    Some(k) => Some(&self.delegator_groups[j].delegators[k]),
                    None => None,
                }
            },
            None => None,
        }
    }

    /// The delegator at `index` among the delegators of `validator_id`, if any.
    pub fn get_delegator_by_index(&self, index: &u64, validator_id: &AccountId) -> (res: Option<&Delegator>)
        requires
            self.wf(),
        ensures
            match res {
                Some(d) => *index < self@.delegators_of(validator_id@).len() && *d == self@.delegators_of(
                    validator_id@,
                )[*index as int],
                None => *index >= self@.delegators_of(validator_id@).len(),
            },
    {
        match self.find_group(validator_id) {
            Some(j) => {
                proof {
                    lemma_group_index(self@.groups, j as int);
                }
                if *index < self.delegator_groups[j].delegators.len() as u64 {
                    Some(&self.delegator_groups[j].delegators[*index as usize])
                } else {
                    None
                }
            },
            None => None,
        }
    }

    /// The ids of the validators, in the order of enumeration.
    pub fn get_validator_ids(&self) -> (res: Vec<AccountId>)
        ensures
            res@.len() == self@.validators.len(),
            forall|i: int| 0 <= i < res@.len() ==> res@[i] == self@.validators[i].validator_id,
    {
        let mut res: Vec<AccountId> = Vec::new();
        let mut i: usize = 0;
        while i < self.validators.len()
            invariant
                i <= self.validators@.len(),
                res@.len() == i,
                forall|k: int| 0 <= k < i ==> res@[k] == self.validators@[k].validator_id,
            decreases self.validators@.len() - i,
        {
            res.push(self.validators[i].validator_id.clone());
            i = i + 1;
        }
        res
    }

    /// The ids of the validators that `delegator_id` delegates to.
    pub fn get_validator_ids_of(&self, delegator_id: &AccountId) -> (res: Vec<AccountId>)
        requires
            self.wf(),
        ensures
            res@.len() == validator_ids_of(self@.groups, delegator_id@).len(),
            forall|i: int| 0 <= i < res@.len() ==> res@[i]@ == validator_ids_of(self@.groups, delegator_id@)[i],
    {
        let ghost gs = self@.groups;
        let mut res: Vec<AccountId> = Vec::new();
        let mut j: usize = 0;
        while j < self.delegator_groups.len()
            invariant
                self.wf(),
                gs == self@.groups,
                j <= gs.len(),
                res@.len() == validator_ids_of(gs.take(j as int), delegator_id@).len(),
                forall|i: int| 0 <= i < res@.len() ==> res@[i]@ == validator_ids_of(gs.take(j as int), delegator_id@)[i],
            decreases gs.len() - j,
        {
            assert(gs.take(j + 1).drop_last() =~= gs.take(j as int));
            if self.find_delegator_in_group(j, delegator_id).is_some() {
                res.push(self.delegator_groups[j].validator_id.clone());
            }
            j = j + 1;
        }
        assert(gs.take(gs.len() as int) =~= gs);
        res
    }

    /// The ids of the delegators of `validator_id`, in the order of enumeration.
    pub fn get_delegator_ids_of(&self, validator_id: &AccountId) -> (res: Vec<AccountId>)
        requires
            self.wf(),
        ensures
            res@.len() == self@.delegators_of(validator_id@).len(),
            forall|i: int| 0 <= i < res@.len() ==> res@[i] == self@.delegators_of(validator_id@)[i].delegator_id,
    {
        let mut res: Vec<AccountId> = Vec::new();
        match self.find_group(validator_id) {
            Some(j) => {
                proof {
                    lemma_group_index(self@.groups, j as int);
                }
                let ghost ds = self@.groups[j as int].1;
                let mut k: usize = 0;
                while k < self.delegator_groups[j].delegators.len()
                    invariant
                        j < self.delegator_groups@.len(),
                        ds == self.delegator_groups@[j as int].delegators@,
                        k <= ds.len(),
                        res@.len() == k,
                        forall|i: int| 0 <= i < k ==> res@[i] == ds[i].delegator_id,
                    decreases ds.len() - k,
                {
                    res.push(self.delegator_groups[j].delegators[k].delegator_id.clone());
                    k = k + 1;
                }
            },
            None => {},
        }
        res
    }

    /// The number of validators that `delegator_id` delegates to.
    pub fn get_validator_count_of(&self, delegator_id: &AccountId) -> (res: u64)
        requires
            self.wf(),
        ensures
            res == validator_ids_of(self@.groups, delegator_id@).len(),
    {
        self.get_validator_ids_of(delegator_id).len() as u64
    }

    /// The number of delegators of `validator_id`.
    pub fn get_delegator_count_of(&self, validator_id: &AccountId) -> (res: u64)
        requires
            self.wf(),
        ensures
            res == self@.delegators_of(validator_id@).len(),
    {
        match self.find_group(validator_id) {
            Some(j) => {
                proof {
                    lemma_group_index(self@.groups, j as int);
                }
                self.delegator_groups[j].delegators.len() as u64
            },
            None => 0,
        }
    }

    /// The era of the set.
    pub fn era_number(&self) -> (res: u64)
        ensures
            res == self@.era_number,
    {
        self.era_number
    }

    /// The total stake of the set.
    pub fn total_stake(&self) -> (res: u128)
        ensures
            res == self@.total_stake,
    {
        self.total_stake
    }

    /// The number of validators.
    pub fn validator_count(&self) -> (res: u64)
        ensures
            res == self@.validators.len(),
    {
        self.validators.len() as u64
    }

    /// The number of delegators of all validators.
    pub fn delegator_count(&self) -> (res: u64)
        requires
            self.wf(),
            delegator_total(self@, self@.validators) <= u64::MAX,
        ensures
            res == delegator_total(self@, self@.validators),
    {
        let ghost vs = self@.validators;
        let mut total: u64 = 0;
        let mut i: usize = 0;
        while i < self.validators.len()
            invariant
                self.wf(),
                vs == self@.validators,
                i <= vs.len(),
                total == delegator_total(self@, vs.take(i as int)),
                delegator_total(self@, vs) <= u64::MAX,
            decreases vs.len() - i,
        {
            assert(vs.take(i + 1).drop_last() =~= vs.take(i as int));
            proof {
                lemma_delegator_total_prefix(self@, vs, i as int + 1);
            }
            let n = self.get_delegator_count_of(&self.validators[i].validator_id);
            total = total + n;
            i = i + 1;
        }
        assert(vs.take(vs.len() as int) =~= vs);
        total
    }
}

proof fn lemma_delegator_total_prefix(m: ValidatorSetModel, vs: Seq<Validator>, n: int)
    requires
        0 <= n <= vs.len(),
    ensures
        delegator_total(m, vs.take(n)) <= delegator_total(m, vs),
    decreases vs.len(),
{
    if n < vs.len() {
        assert(vs.drop_last().take(n) =~= vs.take(n));
        lemma_delegator_total_prefix(m, vs.drop_last(), n);
    } else {
        assert(vs.take(n) =~= vs);
    }
}

/// The validators that the groups `gs` list for the delegator `did` are
/// those of the groups that hold `did`.
proof fn lemma_ids_of_contains(gs: Seq<(Seq<char>, Seq<Delegator>)>, did: Seq<char>, vid: Seq<char>)
    ensures
        validator_ids_of(gs, did).contains(vid) <==> exists|j: int|
            0 <= j < gs.len() && (#[trigger] gs[j]).0 == vid && has_delegator(gs[j].1, did),
    decreases gs.len(),
{
    if gs.len() > 0 {
        let prefix = gs.drop_last();
        lemma_ids_of_contains(prefix, did, vid);
        let ids = validator_ids_of(prefix, did);
        let last = gs.len() - 1;
        if validator_ids_of(gs, did).contains(vid) {
            if ids.contains(vid) {
                let j = choose|j: int| 0 <= j < prefix.len() && (#[trigger] prefix[j]).0 == vid && has_delegator(prefix[j].1, did);
                assert(gs[j] == prefix[j]);
            } else {
                let k = choose|k: int| 0 <= k < validator_ids_of(gs, did).len() && validator_ids_of(gs, did)[k] == vid;
                assert(has_delegator(gs.last().1, did));
                assert(k == ids.len());
                assert(gs[last] == gs.last());
            }
        }
        if exists|j: int| 0 <= j < gs.len() && (#[trigger] gs[j]).0 == vid && has_delegator(gs[j].1, did) {
            let j = choose|j: int| 0 <= j < gs.len() && (#[trigger] gs[j]).0 == vid && has_delegator(gs[j].1, did);
            if j < last {
                assert(prefix[j] == gs[j]);
                let k = choose|k: int| 0 <= k < ids.len() && ids[k] == vid;
                if has_delegator(gs.last().1, did) {
                    assert(validator_ids_of(gs, did)[k] == vid);
                } else {
                    assert(validator_ids_of(gs, did)[k] == vid);
                }
            } else {
                assert(validator_ids_of(gs, did) == ids.push(gs.last().0));
                assert(validator_ids_of(gs, did)[ids.len() as int] == vid);
            }
        }
    }
}

/// In a well-formed set, the validators that the set lists for the delegator
/// `delegator_id` are exactly those that list `delegator_id` among their
/// delegators: a delegation is seen the same way from both of its ends.
pub proof fn lemma_delegation_lists_agree(m: ValidatorSetModel, delegator_id: Seq<char>, validator_id: Seq<char>)
    requires
        m.wf(),
    ensures
        validator_ids_of(m.groups, delegator_id).contains(validator_id) <==> m.contains_delegator(
            delegator_id,
            validator_id,
        ),
{
    lemma_ids_of_contains(m.groups, delegator_id, validator_id);
    if m.contains_delegator(delegator_id, validator_id) {
        if !has_group(m.groups, validator_id) {
            assert(m.delegators_of(validator_id) =~= Seq::<Delegator>::empty());
        }
        let j = group_pos(m.groups, validator_id);
        assert(m.groups[j].0 == validator_id && has_delegator(m.groups[j].1, delegator_id));
    }
    if exists|j: int|
        0 <= j < m.groups.len() && (#[trigger] m.groups[j]).0 == validator_id && has_delegator(m.groups[j].1, delegator_id) {
        let j = choose|j: int|
            0 <= j < m.groups.len() && (#[trigger] m.groups[j]).0 == validator_id && has_delegator(m.groups[j].1, delegator_id);
        lemma_group_index(m.groups, j);
    }
}

pub(crate) proof fn lemma_validator_index(vs: Seq<Validator>, i: int)
    requires
        unique_validators(vs),
        0 <= i < vs.len(),
    ensures
        has_validator(vs, vs[i].validator_id@),
        validator_pos(vs, vs[i].validator_id@) == i,
{
    assert(vs[i].validator_id@ == vs[i].validator_id@);
    let c = validator_pos(vs, vs[i].validator_id@);
    assert(vs[c].validator_id@ == vs[i].validator_id@);
}

proof fn lemma_group_index(gs: Seq<(Seq<char>, Seq<Delegator>)>, j: int)
    requires
        unique_groups(gs),
        0 <= j < gs.len(),
    ensures
        has_group(gs, gs[j].0),
        group_pos(gs, gs[j].0) == j,
{
    assert(gs[j].0 == gs[j].0);
    let c = group_pos(gs, gs[j].0);
    assert(gs[c].0 == gs[j].0);
}


impl ValidatorSetModel {
    /// The set after `v` is put in place of the validator with its id, or else
    /// after the last validator, the total stake of the set unchanged.
    pub open spec fn validator_inserted(self, v: Validator) -> ValidatorSetModel {
        ValidatorSetModel { total_stake: self.total_stake, ..self.registered(v) }
    }
}

impl ValidatorSet {
    /// Puts `v` in place of the validator with its id, or else after the last
    /// validator; the total stake of the set does not change.
    pub fn insert_validator(&mut self, v: Validator)
        requires
            old(self).wf(),
        ensures
            final(self).wf(),
            final(self)@ == old(self)@.validator_inserted(v),
    {
        let ghost m = self@;
        match self.find_validator(&v.validator_id) {
            Some(i) => {
                proof {
                    let c = validator_pos(m.validators, v.validator_id@);
                    assert(m.validators[c].validator_id@ == v.validator_id@);
                }
                self.validators.set(i, v);
            },
            None => {
                self.validators.push(v);
            },
        }
        assert(self@ =~= m.validator_inserted(v));
    }

    /// Sets the total stake of the set.
    pub fn set_total_stake(&mut self, total_stake: u128)
        ensures
            final(self)@ == (ValidatorSetModel { total_stake: total_stake as int, ..old(self)@ }),
    {
        self.total_stake = total_stake;
    }
}

} // verus!
