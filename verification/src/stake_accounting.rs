//! The stake accounting of a validator set, and that staking facts keep it.
use crate::types::StakingFact;
use crate::validator_set::{
    delegator_pos, group_wf, has_delegator, has_group, has_validator, group_pos, sum_deposits, sum_total_stake, swap_removed, unique_groups,
    unique_validators, validator_pos, Delegator, Validator, ValidatorSetModel,
};
use vstd::prelude::*;

verus! {

impl ValidatorSetModel {
    /// Whether the stakes add up: the total stake of the set is the sum of the
    /// total stakes of its validators, the total stake of each validator is its
    /// deposit plus the deposits of its delegators, and every group of
    /// delegators belongs to a validator of the set.
    pub open spec fn stake_balanced(self) -> bool {
        &&& self.total_stake == sum_total_stake(self.validators)
        &&& forall|i: int|
            0 <= i < self.validators.len() ==> #[trigger] validator_balanced(self, self.validators[i])
        &&& forall|j: int|
            0 <= j < self.groups.len() ==> self.contains_validator(#[trigger] self.groups[j].0)
    }

    /// Whether `fact` registers no validator or delegator that is registered already.
    pub open spec fn admissible(self, fact: StakingFact) -> bool {
        match fact {
            StakingFact::ValidatorRegistered { validator_id, .. } => !self.contains_validator(validator_id@),
            StakingFact::DelegatorRegistered { delegator_id, validator_id, .. } =>
                !self.contains_delegator(delegator_id@, validator_id@),
            _ => true,
        }
    }
}

/// Whether the total stake of `v` is its deposit plus the deposits of its delegators in `m`.
pub open spec fn validator_balanced(m: ValidatorSetModel, v: Validator) -> bool {
    v.total_stake == v.deposit_amount + sum_deposits(m.delegators_of(v.validator_id@))
}

proof fn lemma_sum_stake_push(vs: Seq<Validator>, v: Validator)
    ensures
        sum_total_stake(vs.push(v)) == sum_total_stake(vs) + v.total_stake,
{
    assert(vs.push(v).drop_last() =~= vs);
}

proof fn lemma_sum_stake_update(vs: Seq<Validator>, p: int, v: Validator)
    requires
        0 <= p < vs.len(),
    ensures
        sum_total_stake(vs.update(p, v)) == sum_total_stake(vs) - vs[p].total_stake + v.total_stake,
    decreases vs.len(),
{
    let u = vs.update(p, v);
    if p == vs.len() - 1 {
        assert(u.drop_last() =~= vs.drop_last());
    } else {
        assert(u.drop_last() =~= vs.drop_last().update(p, v));
        lemma_sum_stake_update(vs.drop_last(), p, v);
    }
}

proof fn lemma_sum_stake_swap_removed(vs: Seq<Validator>, p: int)
    requires
        0 <= p < vs.len(),
    ensures
        sum_total_stake(swap_removed(vs, p)) == sum_total_stake(vs) - vs[p].total_stake,
{
    let u = vs.update(p, vs.last());
    lemma_sum_stake_update(vs, p, vs.last());
    assert(u.drop_last().push(u.last()) =~= u);
    lemma_sum_stake_push(u.drop_last(), u.last());
}

proof fn lemma_sum_deposits_push(ds: Seq<Delegator>, d: Delegator)
    ensures
        sum_deposits(ds.push(d)) == sum_deposits(ds) + d.deposit_amount,
{
    assert(ds.push(d).drop_last() =~= ds);
}

proof fn lemma_sum_deposits_update(ds: Seq<Delegator>, p: int, d: Delegator)
    requires
        0 <= p < ds.len(),
    ensures
        sum_deposits(ds.update(p, d)) == sum_deposits(ds) - ds[p].deposit_amount + d.deposit_amount,
    decreases ds.len(),
{
    let u = ds.update(p, d);
    if p == ds.len() - 1 {
        assert(u.drop_last() =~= ds.drop_last());
    } else {
        assert(u.drop_last() =~= ds.drop_last().update(p, d));
        lemma_sum_deposits_update(ds.drop_last(), p, d);
    }
}

proof fn lemma_sum_deposits_swap_removed(ds: Seq<Delegator>, p: int)
    requires
        0 <= p < ds.len(),
    ensures
        sum_deposits(swap_removed(ds, p)) == sum_deposits(ds) - ds[p].deposit_amount,
{
    let u = ds.update(p, ds.last());
    lemma_sum_deposits_update(ds, p, ds.last());
    assert(u.drop_last().push(u.last()) =~= u);
    lemma_sum_deposits_push(u.drop_last(), u.last());
}

pub(crate) proof fn lemma_validator_pos(vs: Seq<Validator>, i: int)
    requires
        unique_validators(vs),
        0 <= i < vs.len(),
    ensures
        has_validator(vs, vs[i].validator_id@),
        validator_pos(vs, vs[i].validator_id@) == i,
{
    assert(vs[i].validator_id@ == vs[i].validator_id@);
    let c = validator_pos(vs, vs[i].validator_id@);
    assert(vs[c].validator_id@ == vs[i].validator_id@);
}

proof fn lemma_group_pos(gs: Seq<(Seq<char>, Seq<Delegator>)>, j: int)
    requires
        unique_groups(gs),
        0 <= j < gs.len(),
    ensures
        has_group(gs, gs[j].0),
        group_pos(gs, gs[j].0) == j,
{
    assert(gs[j].0 == gs[j].0);
    let c = group_pos(gs, gs[j].0);
    assert(gs[c].0 == gs[j].0);
}


proof fn lemma_delegators_of_at(m: ValidatorSetModel, j: int)
    requires
        unique_groups(m.groups),
        0 <= j < m.groups.len(),
    ensures
        m.delegators_of(m.groups[j].0) == m.groups[j].1,
{
    lemma_group_pos(m.groups, j);
}

/// Every group belongs to a validator of the set.
pub open spec fn groups_owned(m: ValidatorSetModel) -> bool {
    forall|j: int| 0 <= j < m.groups.len() ==> m.contains_validator(#[trigger] m.groups[j].0)
}

proof fn lemma_no_group_without_validator(m: ValidatorSetModel, id: Seq<char>)
    requires
        groups_owned(m),
        !m.contains_validator(id),
    ensures
        !has_group(m.groups, id),
        m.delegators_of(id) == Seq::<Delegator>::empty(),
{
    if has_group(m.groups, id) {
        let j = group_pos(m.groups, id);
        assert(m.contains_validator(m.groups[j].0));
    }
}

proof fn lemma_registered(m: ValidatorSetModel, v: Validator)
    requires
        m.wf(),
        m.stake_balanced(),
        !m.contains_validator(v.validator_id@),
        v.total_stake == v.deposit_amount,
    ensures
        m.registered(v).stake_balanced(),
{
    let m2 = m.registered(v);
    lemma_sum_stake_push(m.validators, v);
    lemma_no_group_without_validator(m, v.validator_id@);
    assert(m2.groups == m.groups);
    assert forall|i: int| 0 <= i < m2.validators.len() implies #[trigger] validator_balanced(m2, m2.validators[i]) by {
        if i < m.validators.len() {
            assert(m2.validators[i] == m.validators[i]);
            assert(validator_balanced(m, m.validators[i]));
        }
    }
    assert forall|j: int| 0 <= j < m2.groups.len() implies m2.contains_validator(#[trigger] m2.groups[j].0) by {
        assert(m.contains_validator(m.groups[j].0));
        let q = validator_pos(m.validators, m.groups[j].0);
        assert(m2.validators[q] == m.validators[q]);
    }
}

proof fn lemma_staked(m: ValidatorSetModel, id: Seq<char>, dd: int, sd: int)
    requires
        unique_validators(m.validators),
        m.contains_validator(id),
        m.total_stake == sum_total_stake(m.validators),
        forall|i: int|
            0 <= i < m.validators.len() && (#[trigger] m.validators[i]).validator_id@ != id
                ==> validator_balanced(m, m.validators[i]),
        m.validator(id).total_stake + sd == m.validator(id).deposit_amount + dd + sum_deposits(m.delegators_of(id)),
        groups_owned(m),
        0 <= m.validator(id).deposit_amount + dd <= u128::MAX,
        0 <= m.validator(id).total_stake + sd <= u128::MAX,
    ensures
        m.staked(id, dd, sd).stake_balanced(),
{
    let m2 = m.staked(id, dd, sd);
    let p = validator_pos(m.validators, id);
    let v = m.validators[p];
    let v2 = m2.validators[p];
    lemma_sum_stake_update(m.validators, p, v2);
    assert forall|i: int| 0 <= i < m2.validators.len() implies #[trigger] validator_balanced(m2, m2.validators[i]) by {
        if i != p {
            assert(m2.validators[i] == m.validators[i]);
            if m.validators[i].validator_id@ == id {
                assert(m.validators[i].validator_id@ == m.validators[p].validator_id@);
            }
        }
    }
    assert forall|j: int| 0 <= j < m2.groups.len() implies m2.contains_validator(#[trigger] m2.groups[j].0) by {
        assert(m.contains_validator(m.groups[j].0));
        let q = validator_pos(m.validators, m.groups[j].0);
        assert(m2.validators[q].validator_id@ == m.validators[q].validator_id@);
    }
}

proof fn lemma_validator_removed(m: ValidatorSetModel, id: Seq<char>)
    requires
        m.wf(),
        m.stake_balanced(),
        m.contains_validator(id),
        !has_group(m.groups, id),
    ensures
        m.validator_removed(id).stake_balanced(),
{
    let m2 = m.validator_removed(id);
    let vs = m.validators;
    let p = validator_pos(vs, id);
    let last = vs.len() - 1;
    lemma_sum_stake_swap_removed(vs, p);
    assert forall|i: int| 0 <= i < m2.validators.len() implies #[trigger] validator_balanced(m2, m2.validators[i]) by {
        let i0 = if i == p { last } else { i };
        assert(m2.validators[i] == vs[i0]);
        assert(validator_balanced(m, vs[i0]));
    }
    assert forall|j: int| 0 <= j < m2.groups.len() implies m2.contains_validator(#[trigger] m2.groups[j].0) by {
        let g = m.groups[j].0;
        assert(m.contains_validator(g));
        let q = validator_pos(vs, g);
        if q == p {
            assert(has_group(m.groups, id));
        }
        let q2 = if q == last { p } else { q };
        assert(m2.validators[q2] == vs[q]);
    }
}

proof fn lemma_validator_changed(m: ValidatorSetModel, id: Seq<char>, v: Validator)
    requires
        m.wf(),
        m.stake_balanced(),
        m.contains_validator(id),
        v.validator_id@ == id,
        v.total_stake == m.validator(id).total_stake,
        v.deposit_amount == m.validator(id).deposit_amount,
    ensures
        m.validator_changed(id, v).stake_balanced(),
{
    let m2 = m.validator_changed(id, v);
    let p = validator_pos(m.validators, id);
    lemma_sum_stake_update(m.validators, p, v);
    assert forall|i: int| 0 <= i < m2.validators.len() implies #[trigger] validator_balanced(m2, m2.validators[i]) by {
        assert(validator_balanced(m, m.validators[i]));
    }
    assert forall|j: int| 0 <= j < m2.groups.len() implies m2.contains_validator(#[trigger] m2.groups[j].0) by {
        assert(m.contains_validator(m.groups[j].0));
        let q = validator_pos(m.validators, m.groups[j].0);
        assert(m2.validators[q].validator_id@ == m.validators[q].validator_id@);
    }
}


proof fn lemma_rebalance(m: ValidatorSetModel, m1: ValidatorSetModel, vid: Seq<char>, delta: int)
    requires
        m.wf(),
        m.stake_balanced(),
        m.contains_validator(vid),
        m1.validators == m.validators,
        m1.total_stake == m.total_stake,
        sum_deposits(m1.delegators_of(vid)) == sum_deposits(m.delegators_of(vid)) + delta,
        forall|x: Seq<char>| x != vid ==> #[trigger] m1.delegators_of(x) == m.delegators_of(x),
        groups_owned(m1),
        0 <= m.validator(vid).total_stake + delta <= u128::MAX,
    ensures
        m1.staked(vid, 0, delta).stake_balanced(),
{
    let p = validator_pos(m.validators, vid);
    assert(validator_balanced(m, m.validators[p]));
    assert forall|i: int|
        0 <= i < m1.validators.len() && (#[trigger] m1.validators[i]).validator_id@ != vid
        implies validator_balanced(m1, m1.validators[i]) by {
        assert(validator_balanced(m, m.validators[i]));
        assert(m1.delegators_of(m.validators[i].validator_id@) == m.delegators_of(m.validators[i].validator_id@));
    }
    lemma_staked(m1, vid, 0, delta);
}

proof fn lemma_groups_other_unchanged(m: ValidatorSetModel, m1: ValidatorSetModel, vid: Seq<char>, x: Seq<char>)
    requires
        unique_groups(m.groups),
        unique_groups(m1.groups),
        x != vid,
        forall|q: int| 0 <= q < m.groups.len() && (#[trigger] m.groups[q]).0 != vid
            ==> exists|q1: int| 0 <= q1 < m1.groups.len() && #[trigger] m1.groups[q1] == m.groups[q],
        forall|q1: int| 0 <= q1 < m1.groups.len() && (#[trigger] m1.groups[q1]).0 != vid
            ==> exists|q: int| 0 <= q < m.groups.len() && #[trigger] m.groups[q] == m1.groups[q1],
    ensures
        m1.delegators_of(x) == m.delegators_of(x),
{
    if has_group(m.groups, x) {
        let q = group_pos(m.groups, x);
        let q1 = choose|q1: int| 0 <= q1 < m1.groups.len() && #[trigger] m1.groups[q1] == m.groups[q];
        lemma_delegators_of_at(m, q);
        lemma_delegators_of_at(m1, q1);
    } else if has_group(m1.groups, x) {
        let q1 = group_pos(m1.groups, x);
        let q = choose|q: int| 0 <= q < m.groups.len() && #[trigger] m.groups[q] == m1.groups[q1];
        assert(m.groups[q].0 == x);
    }
}

/// Storing the delegator `d`, which its validator's group does not hold,
/// puts it after the delegators of its validator and leaves the validators
/// and the delegators of every other validator as they are.
pub(crate) proof fn lemma_delegator_appended(m: ValidatorSetModel, d: Delegator)
    requires
        unique_groups(m.groups),
        !m.contains_delegator(d.delegator_id@, d.validator_id@),
    ensures
        unique_groups(m.delegator_stored(d).groups),
        m.delegator_stored(d).validators == m.validators,
        m.delegator_stored(d).total_stake == m.total_stake,
        m.delegator_stored(d).delegators_of(d.validator_id@) == m.delegators_of(d.validator_id@).push(d),
        forall|x: Seq<char>| x != d.validator_id@ ==> #[trigger] m.delegator_stored(d).delegators_of(x)
            == m.delegators_of(x),
        forall|q1: int| 0 <= q1 < m.delegator_stored(d).groups.len() ==> (#[trigger] m.delegator_stored(d).groups[q1]).0
            == d.validator_id@ || exists|q: int| 0 <= q < m.groups.len() && (#[trigger] m.groups[q]).0 == m.delegator_stored(d).groups[q1].0,
{
    let m1 = m.delegator_stored(d);
    let vid = d.validator_id@;
    if has_group(m.groups, vid) {
        let j = group_pos(m.groups, vid);
        assert(m1.groups == m.groups.update(j, (vid, m.groups[j].1.push(d))));
        assert(unique_groups(m1.groups));
        lemma_delegators_of_at(m1, j);
        assert forall|x: Seq<char>| x != vid implies #[trigger] m1.delegators_of(x) == m.delegators_of(x) by {
            assert forall|q: int| 0 <= q < m.groups.len() && (#[trigger] m.groups[q]).0 != vid
                implies exists|q1: int| 0 <= q1 < m1.groups.len() && #[trigger] m1.groups[q1] == m.groups[q] by {
                assert(m1.groups[q] == m.groups[q]);
            }
            assert forall|q1: int| 0 <= q1 < m1.groups.len() && (#[trigger] m1.groups[q1]).0 != vid
                implies exists|q: int| 0 <= q < m.groups.len() && #[trigger] m.groups[q] == m1.groups[q1] by {
                assert(m1.groups[q1] == m.groups[q1]);
            }
            lemma_groups_other_unchanged(m, m1, vid, x);
        }
        assert forall|q1: int| 0 <= q1 < m1.groups.len() implies (#[trigger] m1.groups[q1]).0 == vid || exists|q: int|
            0 <= q < m.groups.len() && (#[trigger] m.groups[q]).0 == m1.groups[q1].0 by {
            assert(m.groups[q1].0 == m1.groups[q1].0);
        }
    } else {
        let n = m.groups.len() as int;
        assert(m1.groups == m.groups.push((vid, seq![d])));
        assert(unique_groups(m1.groups));
        lemma_delegators_of_at(m1, n);
        assert(seq![d] =~= Seq::<Delegator>::empty().push(d));
        assert forall|x: Seq<char>| x != vid implies #[trigger] m1.delegators_of(x) == m.delegators_of(x) by {
            assert forall|q: int| 0 <= q < m.groups.len() && (#[trigger] m.groups[q]).0 != vid
                implies exists|q1: int| 0 <= q1 < m1.groups.len() && #[trigger] m1.groups[q1] == m.groups[q] by {
                assert(m1.groups[q] == m.groups[q]);
            }
            assert forall|q1: int| 0 <= q1 < m1.groups.len() && (#[trigger] m1.groups[q1]).0 != vid
                implies exists|q: int| 0 <= q < m.groups.len() && #[trigger] m.groups[q] == m1.groups[q1] by {
                assert(m1.groups[q1] == m.groups[q1]);
            }
            lemma_groups_other_unchanged(m, m1, vid, x);
        }
        assert forall|q1: int| 0 <= q1 < m1.groups.len() implies (#[trigger] m1.groups[q1]).0 == vid || exists|q: int|
            0 <= q < m.groups.len() && (#[trigger] m.groups[q]).0 == m1.groups[q1].0 by {
            if q1 < n {
                assert(m.groups[q1].0 == m1.groups[q1].0);
            }
        }
    }
}

proof fn lemma_delegator_stored(m: ValidatorSetModel, d: Delegator)
    requires
        m.wf(),
        groups_owned(m),
        m.contains_validator(d.validator_id@),
        !m.contains_delegator(d.delegator_id@, d.validator_id@),
    ensures
        m.delegator_stored(d).validators == m.validators,
        m.delegator_stored(d).total_stake == m.total_stake,
        m.delegator_stored(d).delegators_of(d.validator_id@) == m.delegators_of(d.validator_id@).push(d),
        forall|x: Seq<char>| x != d.validator_id@ ==> #[trigger] m.delegator_stored(d).delegators_of(x)
            == m.delegators_of(x),
        groups_owned(m.delegator_stored(d)),
{
    let m1 = m.delegator_stored(d);
    lemma_delegator_appended(m, d);
    assert forall|q1: int| 0 <= q1 < m1.groups.len() implies m1.contains_validator(#[trigger] m1.groups[q1].0) by {
        if m1.groups[q1].0 != d.validator_id@ {
            let q = choose|q: int| 0 <= q < m.groups.len() && (#[trigger] m.groups[q]).0 == m1.groups[q1].0;
            assert(m.contains_validator(m.groups[q].0));
        }
    }
}


proof fn lemma_delegation_changed(m: ValidatorSetModel, did: Seq<char>, vid: Seq<char>, delta: int)
    requires
        m.wf(),
        groups_owned(m),
        m.contains_delegator(did, vid),
        0 <= m.delegator(did, vid).deposit_amount + delta <= u128::MAX,
    ensures
        m.delegation_changed(did, vid, delta).validators == m.validators,
        m.delegation_changed(did, vid, delta).total_stake == m.total_stake,
        sum_deposits(m.delegation_changed(did, vid, delta).delegators_of(vid))
            == sum_deposits(m.delegators_of(vid)) + delta,
        forall|x: Seq<char>| x != vid ==> #[trigger] m.delegation_changed(did, vid, delta).delegators_of(x)
            == m.delegators_of(x),
        groups_owned(m.delegation_changed(did, vid, delta)),
{
    let m1 = m.delegation_changed(did, vid, delta);
    let j = group_pos(m.groups, vid);
    let ds = m.groups[j].1;
    let k = delegator_pos(ds, did);
    let d2 = Delegator { deposit_amount: (ds[k].deposit_amount + delta) as u128, ..ds[k] };
    assert(m1.groups == m.groups.update(j, (vid, ds.update(k, d2))));
    assert(unique_groups(m1.groups));
    lemma_delegators_of_at(m1, j);
    lemma_sum_deposits_update(ds, k, d2);
    assert forall|x: Seq<char>| x != vid implies #[trigger] m1.delegators_of(x) == m.delegators_of(x) by {
        assert forall|q: int| 0 <= q < m.groups.len() && (#[trigger] m.groups[q]).0 != vid
            implies exists|q1: int| 0 <= q1 < m1.groups.len() && #[trigger] m1.groups[q1] == m.groups[q] by {
            assert(m1.groups[q] == m.groups[q]);
        }
        assert forall|q1: int| 0 <= q1 < m1.groups.len() && (#[trigger] m1.groups[q1]).0 != vid
            implies exists|q: int| 0 <= q < m.groups.len() && #[trigger] m.groups[q] == m1.groups[q1] by {
            assert(m1.groups[q1] == m.groups[q1]);
        }
        lemma_groups_other_unchanged(m, m1, vid, x);
    }
    assert forall|q: int| 0 <= q < m1.groups.len() implies m1.contains_validator(#[trigger] m1.groups[q].0) by {
        assert(m.contains_validator(m.groups[q].0));
    }
}

proof fn lemma_delegator_removed(m: ValidatorSetModel, did: Seq<char>, vid: Seq<char>)
    requires
        m.wf(),
        groups_owned(m),
        m.contains_delegator(did, vid),
    ensures
        m.delegator_removed(did, vid).validators == m.validators,
        m.delegator_removed(did, vid).total_stake == m.total_stake,
        sum_deposits(m.delegator_removed(did, vid).delegators_of(vid))
            == sum_deposits(m.delegators_of(vid)) - m.delegator(did, vid).deposit_amount,
        forall|x: Seq<char>| x != vid ==> #[trigger] m.delegator_removed(did, vid).delegators_of(x)
            == m.delegators_of(x),
        groups_owned(m.delegator_removed(did, vid)),
{
    let m1 = m.delegator_removed(did, vid);
    let gs = m.groups;
    let j = group_pos(gs, vid);
    let ds = gs[j].1;
    let k = delegator_pos(ds, did);
    let rest = swap_removed(ds, k);
    lemma_sum_deposits_swap_removed(ds, k);
    if rest.len() > 0 {
        assert(m1.groups == gs.update(j, (vid, rest)));
        assert(unique_groups(m1.groups));
        lemma_delegators_of_at(m1, j);
        assert forall|x: Seq<char>| x != vid implies #[trigger] m1.delegators_of(x) == m.delegators_of(x) by {
            assert forall|q: int| 0 <= q < gs.len() && (#[trigger] gs[q]).0 != vid
                implies exists|q1: int| 0 <= q1 < m1.groups.len() && #[trigger] m1.groups[q1] == gs[q] by {
                assert(m1.groups[q] == gs[q]);
            }
            assert forall|q1: int| 0 <= q1 < m1.groups.len() && (#[trigger] m1.groups[q1]).0 != vid
                implies exists|q: int| 0 <= q < gs.len() && #[trigger] gs[q] == m1.groups[q1] by {
                assert(m1.groups[q1] == gs[q1]);
            }
            lemma_groups_other_unchanged(m, m1, vid, x);
        }
        assert forall|q: int| 0 <= q < m1.groups.len() implies m1.contains_validator(#[trigger] m1.groups[q].0) by {
            assert(m.contains_validator(gs[q].0));
        }
    } else {
        let last = gs.len() - 1;
        let r = swap_removed(gs, j);
        assert(m1.groups == r);
        assert(rest =~= Seq::<Delegator>::empty());
        assert forall|a: int, b: int| 0 <= a < r.len() && 0 <= b < r.len() && a != b
            implies (#[trigger] r[a]).0 != (#[trigger] r[b]).0 by {
            let a0 = if a == j { last } else { a };
            let b0 = if b == j { last } else { b };
            assert(r[a] == gs[a0]);
            assert(r[b] == gs[b0]);
        }
        if has_group(r, vid) {
            let q1 = group_pos(r, vid);
            let q0 = if q1 == j { last } else { q1 };
            assert(r[q1] == gs[q0]);
        }
        assert forall|x: Seq<char>| x != vid implies #[trigger] m1.delegators_of(x) == m.delegators_of(x) by {
            assert forall|q: int| 0 <= q < gs.len() && (#[trigger] gs[q]).0 != vid
                implies exists|q1: int| 0 <= q1 < r.len() && #[trigger] r[q1] == gs[q] by {
                let q1 = if q == last { j } else { q };
                assert(r[q1] == gs[q]);
            }
            assert forall|q1: int| 0 <= q1 < r.len() && (#[trigger] r[q1]).0 != vid
                implies exists|q: int| 0 <= q < gs.len() && #[trigger] gs[q] == r[q1] by {
                let q0 = if q1 == j { last } else { q1 };
                assert(r[q1] == gs[q0]);
            }
            lemma_groups_other_unchanged(m, m1, vid, x);
        }
        assert forall|q: int| 0 <= q < r.len() implies m1.contains_validator(#[trigger] r[q].0) by {
            let q0 = if q == j { last } else { q };
            assert(r[q] == gs[q0]);
            assert(m.contains_validator(gs[q0].0));
        }
    }
}

/// Applying a staking fact keeps the stakes of a well-formed validator set
/// balanced: the total stake of the set stays the sum of the total stakes of
/// its validators, and the total stake of every validator stays its deposit
/// plus the deposits of its delegators. This holds of every fact that the set
/// can apply and that registers no validator or delegator a second time.
pub proof fn lemma_staking_fact_keeps_stake_balanced(
    m: ValidatorSetModel,
    fact: StakingFact,
    block_height: u64,
    timestamp: u64,
)
    requires
        m.wf(),
        m.stake_balanced(),
        m.applicable(fact),
        m.admissible(fact),
    ensures
        m.applied(fact, block_height, timestamp).stake_balanced(),
{
    match fact {
        StakingFact::ValidatorRegistered { validator_id, validator_id_in_appchain, amount, can_be_delegated_to } => {
            lemma_registered(m, Validator {
                validator_id,
                validator_id_in_appchain,
                registered_block_height: block_height,
                registered_timestamp: timestamp,
                deposit_amount: amount,
                total_stake: amount,
                can_be_delegated_to,
            });
        },
        StakingFact::StakeIncreased { validator_id, amount } => {
            let p = validator_pos(m.validators, validator_id@);
            assert(validator_balanced(m, m.validators[p]));
            lemma_staked(m, validator_id@, amount as int, amount as int);
        },
        StakingFact::StakeDecreased { validator_id, amount } => {
            let p = validator_pos(m.validators, validator_id@);
            assert(validator_balanced(m, m.validators[p]));
            lemma_staked(m, validator_id@, -amount, -amount);
        },
        StakingFact::ValidatorUnbonded { validator_id, .. } => {
            lemma_validator_removed(m, validator_id@);
        },
        StakingFact::ValidatorAutoUnbonded { validator_id, .. } => {
            lemma_validator_removed(m, validator_id@);
        },
        StakingFact::ValidatorDelegationEnabled { validator_id } => {
            lemma_validator_changed(m, validator_id@, Validator { can_be_delegated_to: true, ..m.validator(validator_id@) });
        },
        StakingFact::ValidatorDelegationDisabled { validator_id } => {
            lemma_validator_changed(m, validator_id@, Validator { can_be_delegated_to: false, ..m.validator(validator_id@) });
        },
        StakingFact::DelegatorRegistered { delegator_id, validator_id, amount } => {
            let d = Delegator {
                delegator_id,
                validator_id,
                registered_block_height: block_height,
                registered_timestamp: timestamp,
                deposit_amount: amount,
            };
            lemma_delegator_stored(m, d);
            lemma_sum_deposits_push(m.delegators_of(validator_id@), d);
            lemma_rebalance(m, m.delegator_stored(d), validator_id@, amount as int);
        },
        StakingFact::DelegationIncreased { delegator_id, validator_id, amount } => {
            lemma_delegation_changed(m, delegator_id@, validator_id@, amount as int);
            lemma_rebalance(m, m.delegation_changed(delegator_id@, validator_id@, amount as int), validator_id@, amount as int);
        },
        StakingFact::DelegationDecreased { delegator_id, validator_id, amount } => {
            lemma_delegation_changed(m, delegator_id@, validator_id@, -amount);
            lemma_rebalance(m, m.delegation_changed(delegator_id@, validator_id@, -amount), validator_id@, -amount);
        },
        StakingFact::DelegatorUnbonded { delegator_id, validator_id, .. } => {
            let dep = m.delegator(delegator_id@, validator_id@).deposit_amount;
            lemma_delegator_removed(m, delegator_id@, validator_id@);
            lemma_rebalance(m, m.delegator_removed(delegator_id@, validator_id@), validator_id@, -dep);
        },
        StakingFact::DelegatorAutoUnbonded { delegator_id, validator_id, .. } => {
            let dep = m.delegator(delegator_id@, validator_id@).deposit_amount;
            lemma_delegator_removed(m, delegator_id@, validator_id@);
            lemma_rebalance(m, m.delegator_removed(delegator_id@, validator_id@), validator_id@, -dep);
        },
        StakingFact::ValidatorIdInAppchainChanged { validator_id, validator_id_in_appchain } => {
            lemma_validator_changed(m, validator_id@, Validator { validator_id_in_appchain, ..m.validator(validator_id@) });
        },
    }
}

} // verus!
