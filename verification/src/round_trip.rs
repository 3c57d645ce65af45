//! A delegation that is registered, increased and unbonded again leaves the
//! validator set as it was.
use crate::types::{AccountId, StakingFact};
use crate::validator_set::{
    delegator_pos, group_pos, group_wf, has_delegator, has_group, lemma_validator_index, unique_groups, unique_validators,
    validator_pos,
    Delegator, Validator, ValidatorSetModel,
};
use vstd::prelude::*;

verus! {

/// Changing the stake of the validator `id` keeps the ids of the validators
/// where they are.
proof fn lemma_staked_keeps_ids(m: ValidatorSetModel, id: Seq<char>, deposit_delta: int, stake_delta: int)
    requires
        unique_validators(m.validators),
        m.contains_validator(id),
    ensures
        m.staked(id, deposit_delta, stake_delta).validators.len() == m.validators.len(),
        forall|i: int|
            0 <= i < m.validators.len() ==> (#[trigger] m.staked(id, deposit_delta, stake_delta).validators[i]).validator_id
                == m.validators[i].validator_id,
        unique_validators(m.staked(id, deposit_delta, stake_delta).validators),
        m.staked(id, deposit_delta, stake_delta).contains_validator(id),
        validator_pos(m.staked(id, deposit_delta, stake_delta).validators, id) == validator_pos(m.validators, id),
        m.staked(id, deposit_delta, stake_delta).groups == m.groups,
{
    let p = validator_pos(m.validators, id);
    let vs = m.staked(id, deposit_delta, stake_delta).validators;
    assert(m.validators[p].validator_id@ == id);
    assert forall|i: int, j: int|
        0 <= i < vs.len() && 0 <= j < vs.len() && i != j implies (#[trigger] vs[i]).validator_id@ != (
        #[trigger] vs[j]).validator_id@ by {
        assert(vs[i].validator_id == m.validators[i].validator_id);
        assert(vs[j].validator_id == m.validators[j].validator_id);
    }
    assert(vs[p].validator_id@ == id);
    let q = validator_pos(vs, id);
    assert(vs[q].validator_id@ == id);
}

/// The groups `gs` with the group at `j` replaced by one of the same
/// validator still belong to distinct validators, and the group of each
/// validator stays where it was.
proof fn lemma_group_replaced(gs: Seq<(Seq<char>, Seq<Delegator>)>, j: int, g: (Seq<char>, Seq<Delegator>))
    requires
        unique_groups(gs),
        0 <= j < gs.len(),
        g.0 == gs[j].0,
    ensures
        unique_groups(gs.update(j, g)),
        has_group(gs.update(j, g), g.0),
        group_pos(gs.update(j, g), g.0) == j,
{
    let hs = gs.update(j, g);
    assert forall|a: int, b: int| 0 <= a < hs.len() && 0 <= b < hs.len() && a != b implies (#[trigger] hs[a]).0 != (
    #[trigger] hs[b]).0 by {
        assert(hs[a].0 == gs[a].0);
        assert(hs[b].0 == gs[b].0);
    }
    assert(hs[j].0 == g.0);
    let c = group_pos(hs, g.0);
    assert(hs[c].0 == g.0);
}

/// The delegators `ds` with the delegator at `k` replaced by one of the
/// same id keep that delegator where it was.
proof fn lemma_delegator_replaced(ds: Seq<Delegator>, k: int, d: Delegator)
    requires
        forall|a: int, b: int|
            0 <= a < ds.len() && 0 <= b < ds.len() && a != b ==> (#[trigger] ds[a]).delegator_id@ != (
            #[trigger] ds[b]).delegator_id@,
        0 <= k < ds.len(),
        d.delegator_id@ == ds[k].delegator_id@,
    ensures
        has_delegator(ds.update(k, d), d.delegator_id@),
        delegator_pos(ds.update(k, d), d.delegator_id@) == k,
{
    let es = ds.update(k, d);
    assert(es[k].delegator_id@ == d.delegator_id@);
    let c = delegator_pos(es, d.delegator_id@);
    assert(es[c].delegator_id@ == d.delegator_id@);
    if c != k {
        assert(es[c] == ds[c]);
    }
}

/// Where the group of delegators of the validator `vid` stands in `gs`, or
/// the length of `gs` where it has none.
pub open spec fn group_index(gs: Seq<(Seq<char>, Seq<Delegator>)>, vid: Seq<char>) -> int {
    if has_group(gs, vid) {
        group_pos(gs, vid)
    } else {
        gs.len() as int
    }
}

/// The delegators of the validator `vid` in `gs`.
pub open spec fn group_delegators(gs: Seq<(Seq<char>, Seq<Delegator>)>, vid: Seq<char>) -> Seq<Delegator> {
    if has_group(gs, vid) {
        gs[group_pos(gs, vid)].1
    } else {
        Seq::empty()
    }
}

/// `m` with `d` as the last delegator of its validator, with the deposit
/// `deposit`, which the validator and the set hold on top of their stakes.
pub open spec fn with_last_delegator(m: ValidatorSetModel, d: Delegator, deposit: int) -> ValidatorSetModel {
    let vid = d.validator_id@;
    let gs = m.groups;
    let dd = Delegator { deposit_amount: deposit as u128, ..d };
    let p = validator_pos(m.validators, vid);
    let v = m.validators[p];
    ValidatorSetModel {
        groups: if has_group(gs, vid) {
            gs.update(group_index(gs, vid), (vid, group_delegators(gs, vid).push(dd)))
        } else {
            gs.push((vid, seq![dd]))
        },
        validators: m.validators.update(p, Validator { total_stake: (v.total_stake + deposit) as u128, ..v }),
        total_stake: m.total_stake + deposit,
        ..m
    }
}

/// What the set `with_last_delegator(m, d, deposit)` holds: the validator
/// where it was, with the deposit on top of its stake, and the delegator
/// last in the group of its validator.
proof fn lemma_last_delegator(m: ValidatorSetModel, d: Delegator, deposit: int)
    requires
        m.wf(),
        m.contains_validator(d.validator_id@),
        !m.contains_delegator(d.delegator_id@, d.validator_id@),
        0 <= deposit <= u128::MAX,
        m.validator(d.validator_id@).total_stake + deposit <= u128::MAX,
    ensures
        ({
            let x = with_last_delegator(m, d, deposit);
            let vid = d.validator_id@;
            let did = d.delegator_id@;
            let gs = m.groups;
            let j = group_index(gs, vid);
            let ds = group_delegators(gs, vid);
            let dd = Delegator { deposit_amount: deposit as u128, ..d };
            let p = validator_pos(m.validators, vid);
            &&& unique_validators(x.validators)
            &&& unique_groups(x.groups)
            &&& x.contains_validator(vid)
            &&& validator_pos(x.validators, vid) == p
            &&& x.validators.len() == m.validators.len()
            &&& x.validators[p] == Validator { total_stake: (m.validators[p].total_stake + deposit) as u128, ..m.validators[p] }
            &&& has_group(x.groups, vid)
            &&& group_pos(x.groups, vid) == j
            &&& x.groups[j] == (vid, ds.push(dd))
            &&& x.delegators_of(vid) == ds.push(dd)
            &&& has_delegator(ds.push(dd), did)
            &&& delegator_pos(ds.push(dd), did) == ds.len()
            &&& x.contains_delegator(did, vid)
            &&& x.delegator(did, vid) == dd
            &&& forall|a: int, b: int|
                0 <= a < ds.push(dd).len() && 0 <= b < ds.push(dd).len() && a != b ==> (#[trigger] ds.push(dd)[a]).delegator_id@
                    != (#[trigger] ds.push(dd)[b]).delegator_id@
        }),
{
    let x = with_last_delegator(m, d, deposit);
    let vid = d.validator_id@;
    let did = d.delegator_id@;
    let gs = m.groups;
    let j = group_index(gs, vid);
    let ds = group_delegators(gs, vid);
    let dd = Delegator { deposit_amount: deposit as u128, ..d };
    lemma_staked_keeps_ids(m, vid, 0, deposit);
    assert(x.validators == m.staked(vid, 0, deposit).validators);
    assert(forall|a: int, b: int|
        0 <= a < ds.len() && 0 <= b < ds.len() && a != b ==> (#[trigger] ds[a]).delegator_id@ != (
        #[trigger] ds[b]).delegator_id@) by {
        if has_group(gs, vid) {
            assert(group_wf(gs[j]));
        }
    }
    assert(!has_delegator(ds, did)) by {
        if has_group(gs, vid) {
            assert(m.delegators_of(vid) == ds);
        }
    }
    let ds1 = ds.push(dd);
    assert forall|a: int, b: int|
        0 <= a < ds1.len() && 0 <= b < ds1.len() && a != b implies (#[trigger] ds1[a]).delegator_id@ != (
        #[trigger] ds1[b]).delegator_id@ by {
        if a < ds.len() && b < ds.len() {
            assert(ds1[a] == ds[a] && ds1[b] == ds[b]);
        } else if a < ds.len() {
            assert(ds1[a] == ds[a]);
        } else if b < ds.len() {
            assert(ds1[b] == ds[b]);
        }
    }
    let k = ds.len() as int;
    assert(ds1[k] == dd);
    if has_group(gs, vid) {
        assert(gs[j].0 == vid);
        lemma_group_replaced(gs, j, (vid, ds1));
    } else {
        let gs1 = gs.push((vid, ds1));
        assert(ds1 =~= seq![dd]);
        assert(x.groups == gs1);
        assert forall|a: int, b: int| 0 <= a < gs1.len() && 0 <= b < gs1.len() && a != b implies (#[trigger] gs1[a]).0
            != (#[trigger] gs1[b]).0 by {
            if a < gs.len() && b < gs.len() {
                assert(gs1[a] == gs[a] && gs1[b] == gs[b]);
            } else if a < gs.len() {
                assert(gs1[a] == gs[a]);
                assert(gs[a].0 != vid);
            } else if b < gs.len() {
                assert(gs1[b] == gs[b]);
                assert(gs[b].0 != vid);
            }
        }
        assert(gs1[j].0 == vid);
        let c = group_pos(gs1, vid);
        assert(gs1[c].0 == vid);
    }
    lemma_delegator_replaced(ds1, k, dd);
    assert(ds1.update(k, dd) =~= ds1);
}

/// Registering a delegation that is not there yet puts the delegator last
/// in the group of its validator.
proof fn lemma_registration_is_last(
    m: ValidatorSetModel,
    delegator_id: AccountId,
    validator_id: AccountId,
    amount: u128,
    block_height: u64,
    timestamp: u64,
)
    requires
        m.wf(),
        !m.contains_delegator(delegator_id@, validator_id@),
        m.applicable(StakingFact::DelegatorRegistered { delegator_id, validator_id, amount }),
    ensures
        m.applied(StakingFact::DelegatorRegistered { delegator_id, validator_id, amount }, block_height, timestamp)
            == with_last_delegator(
            m,
            Delegator {
                delegator_id,
                validator_id,
                registered_block_height: block_height,
                registered_timestamp: timestamp,
                deposit_amount: amount,
            },
            amount as int,
        ),
{
    let vid = validator_id@;
    let d = Delegator {
        delegator_id,
        validator_id,
        registered_block_height: block_height,
        registered_timestamp: timestamp,
        deposit_amount: amount,
    };
    let stored = m.delegator_stored(d);
    let x = with_last_delegator(m, d, amount as int);
    lemma_last_delegator(m, d, amount as int);
    let gs = m.groups;
    let ds = group_delegators(gs, vid);
    assert(!has_delegator(ds, delegator_id@)) by {
        if has_group(gs, vid) {
            assert(m.delegators_of(vid) == ds);
        }
    }
    assert(Delegator { deposit_amount: amount, ..d } == d);
    if !has_group(gs, vid) {
        assert(stored.groups == gs.push((vid, seq![d])));
    }
    assert(stored.groups == x.groups);
    lemma_staked_keeps_ids(stored, vid, 0, amount as int);
    assert(stored.staked(vid, 0, amount as int) =~= x);
}

/// Increasing the delegation of the last delegator of a group keeps it last,
/// with the increase on top of its deposit.
proof fn lemma_increase_keeps_last(m: ValidatorSetModel, d: Delegator, deposit: int, increase: u128, block_height: u64, timestamp: u64)
    requires
        m.wf(),
        m.contains_validator(d.validator_id@),
        !m.contains_delegator(d.delegator_id@, d.validator_id@),
        0 <= deposit <= u128::MAX,
        m.validator(d.validator_id@).total_stake + deposit <= u128::MAX,
        with_last_delegator(m, d, deposit).applicable(
            StakingFact::DelegationIncreased { delegator_id: d.delegator_id, validator_id: d.validator_id, amount: increase },
        ),
    ensures
        with_last_delegator(m, d, deposit).applied(
            StakingFact::DelegationIncreased { delegator_id: d.delegator_id, validator_id: d.validator_id, amount: increase },
            block_height,
            timestamp,
        ) == with_last_delegator(m, d, deposit + increase),
        m.validator(d.validator_id@).total_stake + deposit + increase <= u128::MAX,
        deposit + increase <= u128::MAX,
{
    let vid = d.validator_id@;
    let did = d.delegator_id@;
    let x = with_last_delegator(m, d, deposit);
    let y = with_last_delegator(m, d, deposit + increase);
    lemma_last_delegator(m, d, deposit);
    let p = validator_pos(m.validators, vid);
    assert(m.validator(vid) == m.validators[p]);
    assert(x.validator(vid) == x.validators[p]);
    assert(x.delegator(did, vid).deposit_amount == deposit);
    lemma_last_delegator(m, d, deposit + increase);
    let changed = x.delegation_changed(did, vid, increase as int);
    let gs = m.groups;
    let j = group_index(gs, vid);
    let ds = group_delegators(gs, vid);
    let k = ds.len() as int;
    let dd = Delegator { deposit_amount: deposit as u128, ..d };
    let dd2 = Delegator { deposit_amount: (deposit + increase) as u128, ..d };
    assert(ds.push(dd).update(k, dd2) =~= ds.push(dd2));
    if has_group(gs, vid) {
        assert(changed.groups =~= y.groups);
    } else {
        assert(x.groups =~= gs.push((vid, ds.push(dd))));
        assert(changed.groups =~= y.groups);
    }
    lemma_staked_keeps_ids(changed, vid, 0, increase as int);
    let z = changed.staked(vid, 0, increase as int);
    assert(z.validators =~= y.validators);
    assert(z =~= y);
}

/// Unbonding the last delegator of a group leaves the set as it was before
/// the delegator came.
proof fn lemma_unbonding_last(m: ValidatorSetModel, d: Delegator, deposit: int, unbonded_amount: u128, block_height: u64, timestamp: u64)
    requires
        m.wf(),
        m.contains_validator(d.validator_id@),
        !m.contains_delegator(d.delegator_id@, d.validator_id@),
        0 <= deposit <= u128::MAX,
        m.validator(d.validator_id@).total_stake + deposit <= u128::MAX,
    ensures
        with_last_delegator(m, d, deposit).applied(
            StakingFact::DelegatorUnbonded { delegator_id: d.delegator_id, validator_id: d.validator_id, amount: unbonded_amount },
            block_height,
            timestamp,
        ) == m,
{
    let vid = d.validator_id@;
    let did = d.delegator_id@;
    let x = with_last_delegator(m, d, deposit);
    lemma_last_delegator(m, d, deposit);
    let gs = m.groups;
    let j = group_index(gs, vid);
    let ds = group_delegators(gs, vid);
    let k = ds.len() as int;
    let dd = Delegator { deposit_amount: deposit as u128, ..d };
    let removed = x.delegator_removed(did, vid);
    let rest = crate::validator_set::swap_removed(ds.push(dd), k);
    assert(rest =~= ds);
    if has_group(gs, vid) {
        assert(group_wf(gs[j]));
        assert(gs[j] == (vid, ds));
        assert(removed.groups =~= gs);
    } else {
        assert(rest.len() == 0);
        assert(removed.groups =~= gs);
    }
    let p = validator_pos(m.validators, vid);
    lemma_staked_keeps_ids(removed, vid, 0, -deposit);
    assert(x.delegator(did, vid).deposit_amount == deposit);
    assert(removed.staked(vid, 0, -deposit).validators =~= m.validators);
    assert(removed.staked(vid, 0, -deposit) =~= m);
}

/// The set after the delegation of `delegator_id` to `validator_id` has been
/// increased by each of `increases` in turn.
pub open spec fn delegation_increased(
    m: ValidatorSetModel,
    delegator_id: AccountId,
    validator_id: AccountId,
    increases: Seq<u128>,
    block_height: u64,
    timestamp: u64,
) -> ValidatorSetModel
    decreases increases.len(),
{
    if increases.len() == 0 {
        m
    } else {
        delegation_increased(m, delegator_id, validator_id, increases.drop_last(), block_height, timestamp).applied(
            StakingFact::DelegationIncreased { delegator_id, validator_id, amount: increases.last() },
            block_height,
            timestamp,
        )
    }
}

/// The sum of `amounts`.
pub open spec fn sum_of(amounts: Seq<u128>) -> int
    decreases amounts.len(),
{
    if amounts.len() == 0 {
        0
    } else {
        sum_of(amounts.drop_last()) + amounts.last()
    }
}

proof fn lemma_increases_keep_last(
    m: ValidatorSetModel,
    d: Delegator,
    increases: Seq<u128>,
    block_height: u64,
    timestamp: u64,
)
    requires
        m.wf(),
        m.contains_validator(d.validator_id@),
        !m.contains_delegator(d.delegator_id@, d.validator_id@),
        m.validator(d.validator_id@).total_stake + d.deposit_amount <= u128::MAX,
        forall|k: int|
            0 <= k < increases.len() ==> #[trigger] delegation_increased(
                with_last_delegator(m, d, d.deposit_amount as int),
                d.delegator_id,
                d.validator_id,
                increases.take(k),
                block_height,
                timestamp,
            ).applicable(
                StakingFact::DelegationIncreased { delegator_id: d.delegator_id, validator_id: d.validator_id, amount: increases[k] },
            ),
    ensures
        delegation_increased(
            with_last_delegator(m, d, d.deposit_amount as int),
            d.delegator_id,
            d.validator_id,
            increases,
            block_height,
            timestamp,
        ) == with_last_delegator(m, d, d.deposit_amount + sum_of(increases)),
        d.deposit_amount + sum_of(increases) <= u128::MAX,
        m.validator(d.validator_id@).total_stake + d.deposit_amount + sum_of(increases) <= u128::MAX,
        sum_of(increases) >= 0,
    decreases increases.len(),
{
    let x0 = with_last_delegator(m, d, d.deposit_amount as int);
    if increases.len() > 0 {
        let n = increases.len() - 1;
        let front = increases.drop_last();
        assert forall|k: int| 0 <= k < front.len() implies #[trigger] delegation_increased(
            x0,
            d.delegator_id,
            d.validator_id,
            front.take(k),
            block_height,
            timestamp,
        ).applicable(
            StakingFact::DelegationIncreased { delegator_id: d.delegator_id, validator_id: d.validator_id, amount: front[k] },
        ) by {
            assert(front.take(k) =~= increases.take(k));
            assert(front[k] == increases[k]);
            assert(delegation_increased(x0, d.delegator_id, d.validator_id, increases.take(k), block_height, timestamp).applicable(
                StakingFact::DelegationIncreased { delegator_id: d.delegator_id, validator_id: d.validator_id, amount: increases[k] },
            ));
        }
        lemma_increases_keep_last(m, d, front, block_height, timestamp);
        assert(increases.take(n) =~= front);
        assert(delegation_increased(x0, d.delegator_id, d.validator_id, increases.take(n), block_height, timestamp).applicable(
            StakingFact::DelegationIncreased { delegator_id: d.delegator_id, validator_id: d.validator_id, amount: increases[n] },
        ));
        lemma_increase_keeps_last(m, d, d.deposit_amount + sum_of(front), increases.last(), block_height, timestamp);
    } else {
        assert(d.deposit_amount + sum_of(increases) == d.deposit_amount);
    }
}

/// Registering a delegation of `amount` from `delegator_id` to
/// `validator_id`, which does not delegate to it yet, then increasing it by
/// each of `increases` in turn and then unbonding it leaves the set as it
/// was, whatever the times of the facts.
pub proof fn lemma_delegation_round_trip(
    m: ValidatorSetModel,
    delegator_id: AccountId,
    validator_id: AccountId,
    amount: u128,
    increases: Seq<u128>,
    unbonded_amount: u128,
    block_height: u64,
    timestamp: u64,
)
    requires
        m.wf(),
        !m.contains_delegator(delegator_id@, validator_id@),
        m.applicable(StakingFact::DelegatorRegistered { delegator_id, validator_id, amount }),
        forall|k: int|
            0 <= k < increases.len() ==> #[trigger] delegation_increased(
                m.applied(StakingFact::DelegatorRegistered { delegator_id, validator_id, amount }, block_height, timestamp),
                delegator_id,
                validator_id,
                increases.take(k),
                block_height,
                timestamp,
            ).applicable(StakingFact::DelegationIncreased { delegator_id, validator_id, amount: increases[k] }),
    ensures
        delegation_increased(
            m.applied(StakingFact::DelegatorRegistered { delegator_id, validator_id, amount }, block_height, timestamp),
            delegator_id,
            validator_id,
            increases,
            block_height,
            timestamp,
        ).applied(
            StakingFact::DelegatorUnbonded { delegator_id, validator_id, amount: unbonded_amount },
            block_height,
            timestamp,
        ) == m,
{
    let d = Delegator {
        delegator_id,
        validator_id,
        registered_block_height: block_height,
        registered_timestamp: timestamp,
        deposit_amount: amount,
    };
    lemma_registration_is_last(m, delegator_id, validator_id, amount, block_height, timestamp);
    let p = validator_pos(m.validators, validator_id@);
    assert(m.validator(validator_id@) == m.validators[p]);
    lemma_increases_keep_last(m, d, increases, block_height, timestamp);
    lemma_unbonding_last(m, d, amount + sum_of(increases), unbonded_amount, block_height, timestamp);
}

/// Increasing the stake of the validator `validator_id` by `amount` and then
/// decreasing it by `amount` leaves the set as it was.
pub proof fn lemma_stake_round_trip(
    m: ValidatorSetModel,
    validator_id: AccountId,
    amount: u128,
    block_height: u64,
    timestamp: u64,
)
    requires
        m.wf(),
        m.applicable(StakingFact::StakeIncreased { validator_id, amount }),
    ensures
        m.applied(StakingFact::StakeIncreased { validator_id, amount }, block_height, timestamp).applied(
            StakingFact::StakeDecreased { validator_id, amount },
            block_height,
            timestamp,
        ) == m,
{
    let vid = validator_id@;
    let m1 = m.staked(vid, amount as int, amount as int);
    let m2 = m1.staked(vid, -amount, -amount);
    assert(m.applied(StakingFact::StakeIncreased { validator_id, amount }, block_height, timestamp) == m1);
    let p = validator_pos(m.validators, vid);
    let v = m.validators[p];
    lemma_staked_keeps_ids(m, vid, amount as int, amount as int);
    lemma_staked_keeps_ids(m1, vid, -amount, -amount);
    assert(m1.validators[p] == Validator {
        deposit_amount: (v.deposit_amount + amount) as u128,
        total_stake: (v.total_stake + amount) as u128,
        ..v
    });
    assert(m2.validators =~= m.validators);
    assert(m2 =~= m);
}

/// Registering the validator `validator_id`, which is not in the set and has
/// no delegators stored under its id, and then unbonding it leaves the set
/// as it was, whatever the amount, the id in the appchain and the times of
/// the facts.
pub proof fn lemma_validator_round_trip(
    m: ValidatorSetModel,
    validator_id: AccountId,
    validator_id_in_appchain: String,
    amount: u128,
    can_be_delegated_to: bool,
    unbonded_amount: u128,
    block_height: u64,
    timestamp: u64,
)
    requires
        m.wf(),
        !m.contains_validator(validator_id@),
        !has_group(m.groups, validator_id@),
        m.applicable(StakingFact::ValidatorRegistered { validator_id, validator_id_in_appchain, amount, can_be_delegated_to }),
    ensures
        m.applied(
            StakingFact::ValidatorRegistered { validator_id, validator_id_in_appchain, amount, can_be_delegated_to },
            block_height,
            timestamp,
        ).applied(StakingFact::ValidatorUnbonded { validator_id, amount: unbonded_amount }, block_height, timestamp) == m,
{
    let v = Validator {
        validator_id,
        validator_id_in_appchain,
        registered_block_height: block_height,
        registered_timestamp: timestamp,
        deposit_amount: amount,
        total_stake: amount,
        can_be_delegated_to,
    };
    let m1 = m.registered(v);
    let vs = m.validators;
    let n = vs.len() as int;
    assert(m1.validators == vs.push(v));
    assert forall|i: int, j: int|
        0 <= i < m1.validators.len() && 0 <= j < m1.validators.len() && i != j implies (
        #[trigger] m1.validators[i]).validator_id@ != (#[trigger] m1.validators[j]).validator_id@ by {
        if i < n && j < n {
            assert(m1.validators[i] == vs[i] && m1.validators[j] == vs[j]);
        } else if i < n {
            assert(m1.validators[i] == vs[i]);
        } else if j < n {
            assert(m1.validators[j] == vs[j]);
        }
    }
    lemma_validator_index(m1.validators, n);
    assert(validator_pos(m1.validators, validator_id@) == n);
    let m2 = m1.validator_removed(validator_id@);
    assert(m2.validators =~= vs);
    assert(m2 =~= m);
}

} // verus!
