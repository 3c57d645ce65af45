//! The distribution of the reward of an era among validators and delegators.
use crate::balance_map::{abstract_key, BalanceMap};
use crate::next_validator_set::contains_id;
use crate::stake_accounting::validator_balanced;
use crate::types::AccountId;
use crate::validator_set::{
    has_validator, lemma_validator_index, sum_deposits, sum_total_stake, swap_removed, unique_validators, validator_pos,
    Delegator, Validator, ValidatorSetModel,
};
use crate::fungible_tokens::{first_where, lemma_first_where};
use std::collections::HashMap;
use crate::validator_set_of_era::{histories_applied, stake_of_ids, ValidatorSetOfEra};
use crate::next_validator_set::listed;
use vstd::prelude::*;
use vstd::string::StrSliceExecFns;

verus! {

broadcast use vstd::std_specs::hash::group_hash_axioms;

/// The number of the smallest units of OCT token in one OCT token.
pub const OCT_DECIMALS_VALUE: u128 = 1_000_000_000_000_000_000;

/// The reward of the era that goes to a validator and its delegators: a share
/// of `era_reward` in proportion to the stake of the validator, counted in
/// whole OCT tokens, among the stake of all profitable validators.
pub open spec fn validator_total_reward(era_reward: int, validator_total_stake: int, valid_total_stake: int) -> int {
    era_reward * (validator_total_stake / OCT_DECIMALS_VALUE as int) / (valid_total_stake / OCT_DECIMALS_VALUE as int)
}

/// The commission that a validator takes of `total_reward`.
pub open spec fn commission_of(total_reward: int, commission_percent: int) -> int {
    total_reward * commission_percent / 100
}

/// The share of `rest` that goes to a deposit of `deposit`, in proportion to
/// the stake `total_stake` of the validator, both counted in whole OCT tokens.
pub open spec fn share_of(rest: int, deposit: int, total_stake: int) -> int {
    rest * (deposit / OCT_DECIMALS_VALUE as int) / (total_stake / OCT_DECIMALS_VALUE as int)
}

/// The reward of a validator: its commission plus the share of its deposit in the rest.
pub open spec fn validator_reward_of(total_reward: int, commission: int, v: Validator) -> int {
    commission + share_of(total_reward - commission, v.deposit_amount as int, v.total_stake as int)
}

/// The sum of the shares of the delegators `ds` in `rest`.
pub open spec fn delegator_shares(rest: int, ds: Seq<Delegator>, total_stake: int) -> int
    decreases ds.len(),
{
    if ds.len() == 0 {
        0
    } else {
        delegator_shares(rest, ds.drop_last(), total_stake) + share_of(rest, ds.last().deposit_amount as int, total_stake)
    }
}

/// The reward of the validator `validator_total_stake`, computed as the anchor does.
pub fn total_reward_of_validator(era_reward: u128, validator_total_stake: u128, valid_total_stake: u128) -> (res: u128)
    requires
        valid_total_stake / OCT_DECIMALS_VALUE > 0,
        era_reward * (validator_total_stake / OCT_DECIMALS_VALUE) <= u128::MAX,
    ensures
        res == validator_total_reward(era_reward as int, validator_total_stake as int, valid_total_stake as int),
{
    era_reward * (validator_total_stake / OCT_DECIMALS_VALUE) / (valid_total_stake / OCT_DECIMALS_VALUE)
}

/// The commission of a validator, computed as the anchor does.
pub fn commission_reward(total_reward: u128, commission_percent: u128) -> (res: u128)
    requires
        total_reward * commission_percent <= u128::MAX,
    ensures
        res == commission_of(total_reward as int, commission_percent as int),
{
    total_reward * commission_percent / 100
}

/// The share of `rest` for `deposit`, computed as the anchor does.
pub fn share_reward(rest: u128, deposit: u128, total_stake: u128) -> (res: u128)
    requires
        total_stake / OCT_DECIMALS_VALUE > 0,
        rest * (deposit / OCT_DECIMALS_VALUE) <= u128::MAX,
    ensures
        res == share_of(rest as int, deposit as int, total_stake as int),
{
    rest * (deposit / OCT_DECIMALS_VALUE) / (total_stake / OCT_DECIMALS_VALUE)
}

proof fn lemma_div_add(a: int, b: int, d: int)
    requires
        a >= 0,
        b >= 0,
        d > 0,
    ensures
        a / d + b / d <= (a + b) / d,
{
    vstd::arithmetic::div_mod::lemma_fundamental_div_mod(a, d);
    vstd::arithmetic::div_mod::lemma_fundamental_div_mod(b, d);
    vstd::arithmetic::div_mod::lemma_fundamental_div_mod(a + b, d);
    assert(d * (a / d + b / d) <= a + b) by (nonlinear_arith)
        requires
            d * (a / d) + a % d == a,
            d * (b / d) + b % d == b,
            a % d >= 0,
            b % d >= 0,
    ;
    assert(a / d + b / d <= (a + b) / d) by (nonlinear_arith)
        requires
            d * (a / d + b / d) <= a + b,
            d * ((a + b) / d) + (a + b) % d == a + b,
            (a + b) % d < d,
            d > 0,
    ;
}

/// The sum of the deposits of `ds`, each counted in whole OCT tokens.
pub open spec fn deposit_units(ds: Seq<Delegator>) -> int
    decreases ds.len(),
{
    if ds.len() == 0 {
        0
    } else {
        deposit_units(ds.drop_last()) + ds.last().deposit_amount as int / OCT_DECIMALS_VALUE as int
    }
}

proof fn lemma_deposit_units(ds: Seq<Delegator>)
    ensures
        0 <= deposit_units(ds) <= sum_deposits(ds) / OCT_DECIMALS_VALUE as int,
        sum_deposits(ds) >= 0,
    decreases ds.len(),
{
    if ds.len() > 0 {
        lemma_deposit_units(ds.drop_last());
        lemma_div_add(sum_deposits(ds.drop_last()), ds.last().deposit_amount as int, OCT_DECIMALS_VALUE as int);
    }
}

proof fn lemma_delegator_shares(rest: int, ds: Seq<Delegator>, total_stake: int)
    requires
        rest >= 0,
        total_stake / OCT_DECIMALS_VALUE as int > 0,
    ensures
        0 <= delegator_shares(rest, ds, total_stake),
        delegator_shares(rest, ds, total_stake) <= rest * deposit_units(ds) / (total_stake / OCT_DECIMALS_VALUE as int),
    decreases ds.len(),
{
    if ds.len() > 0 {
        let t = total_stake / OCT_DECIMALS_VALUE as int;
        let x = ds.last().deposit_amount as int / OCT_DECIMALS_VALUE as int;
        lemma_delegator_shares(rest, ds.drop_last(), total_stake);
        lemma_deposit_units(ds.drop_last());
        assert(rest * deposit_units(ds.drop_last()) >= 0) by (nonlinear_arith)
            requires
                rest >= 0,
                deposit_units(ds.drop_last()) >= 0,
        ;
        assert(rest * x >= 0) by (nonlinear_arith)
            requires
                rest >= 0,
                x >= 0,
        ;
        assert(rest * x / t >= 0) by (nonlinear_arith)
            requires
                rest * x >= 0,
                t > 0,
        ;
        lemma_div_add(rest * deposit_units(ds.drop_last()), rest * x, t);
        assert(rest * deposit_units(ds.drop_last()) + rest * x == rest * deposit_units(ds)) by (nonlinear_arith)
            requires
                deposit_units(ds) == deposit_units(ds.drop_last()) + x,
        ;
    }
}

/// The rewards that a validator and its delegators get never add up to more
/// than the reward of the validator: where the total stake of the validator is
/// its deposit plus the deposits of its delegators, the validator's commission,
/// the share of its deposit and the shares of its delegators add up to at most
/// `total_reward`, for every commission percent up to 100.
pub proof fn lemma_rewards_within_validator_reward(
    m: ValidatorSetModel,
    v: Validator,
    total_reward: int,
    commission_percent: int,
)
    requires
        validator_balanced(m, v),
        total_reward >= 0,
        0 <= commission_percent <= 100,
        v.total_stake as int / OCT_DECIMALS_VALUE as int > 0,
    ensures
        validator_reward_of(total_reward, commission_of(total_reward, commission_percent), v) + delegator_shares(
            total_reward - commission_of(total_reward, commission_percent),
            m.delegators_of(v.validator_id@),
            v.total_stake as int,
        ) <= total_reward,
{
    let c = commission_of(total_reward, commission_percent);
    assert(0 <= c <= total_reward) by (nonlinear_arith)
        requires
            c == total_reward * commission_percent / 100,
            total_reward >= 0,
            0 <= commission_percent <= 100,
    ;
    let rest = total_reward - c;
    let ds = m.delegators_of(v.validator_id@);
    let t = v.total_stake as int / OCT_DECIMALS_VALUE as int;
    let x0 = v.deposit_amount as int / OCT_DECIMALS_VALUE as int;
    lemma_delegator_shares(rest, ds, v.total_stake as int);
    lemma_deposit_units(ds);
    lemma_div_add(v.deposit_amount as int, sum_deposits(ds), OCT_DECIMALS_VALUE as int);
    let u = deposit_units(ds);
    assert(x0 + u <= t);
    assert(rest * x0 >= 0 && rest * u >= 0) by (nonlinear_arith)
        requires
            rest >= 0,
            x0 >= 0,
            u >= 0,
    ;
    lemma_div_add(rest * x0, rest * u, t);
    assert((rest * x0 + rest * u) / t <= rest) by (nonlinear_arith)
        requires
            rest >= 0,
            x0 + u <= t,
            x0 >= 0,
            u >= 0,
            t > 0,
    ;
}


/// The sum of the shares of `era_reward` that go to the validators `vs`
/// (with their delegators) where the profitable validators hold
/// `valid_total_stake`.
pub open spec fn era_reward_shares(era_reward: int, vs: Seq<Validator>, valid_total_stake: int) -> int
    decreases vs.len(),
{
    if vs.len() == 0 {
        0
    } else {
        era_reward_shares(era_reward, vs.drop_last(), valid_total_stake) + validator_total_reward(
            era_reward,
            vs.last().total_stake as int,
            valid_total_stake,
        )
    }
}

/// The sum of the total stakes of `vs`, each counted in whole OCT tokens.
pub open spec fn stake_units(vs: Seq<Validator>) -> int
    decreases vs.len(),
{
    if vs.len() == 0 {
        0
    } else {
        stake_units(vs.drop_last()) + vs.last().total_stake as int / OCT_DECIMALS_VALUE as int
    }
}

proof fn lemma_stake_units(vs: Seq<Validator>)
    ensures
        0 <= stake_units(vs) <= sum_total_stake(vs) / OCT_DECIMALS_VALUE as int,
        sum_total_stake(vs) >= 0,
    decreases vs.len(),
{
    if vs.len() > 0 {
        lemma_stake_units(vs.drop_last());
        lemma_div_add(sum_total_stake(vs.drop_last()), vs.last().total_stake as int, OCT_DECIMALS_VALUE as int);
    }
}

proof fn lemma_era_reward_shares(era_reward: int, vs: Seq<Validator>, valid_total_stake: int)
    requires
        era_reward >= 0,
        valid_total_stake / OCT_DECIMALS_VALUE as int > 0,
    ensures
        0 <= era_reward_shares(era_reward, vs, valid_total_stake),
        era_reward_shares(era_reward, vs, valid_total_stake) <= era_reward * stake_units(vs) / (valid_total_stake
            / OCT_DECIMALS_VALUE as int),
    decreases vs.len(),
{
    if vs.len() > 0 {
        let t = valid_total_stake / OCT_DECIMALS_VALUE as int;
        let x = vs.last().total_stake as int / OCT_DECIMALS_VALUE as int;
        lemma_era_reward_shares(era_reward, vs.drop_last(), valid_total_stake);
        lemma_stake_units(vs.drop_last());
        assert(era_reward * stake_units(vs.drop_last()) >= 0) by (nonlinear_arith)
            requires
                era_reward >= 0,
                stake_units(vs.drop_last()) >= 0,
        ;
        assert(era_reward * x >= 0) by (nonlinear_arith)
            requires
                era_reward >= 0,
                x >= 0,
        ;
        assert(era_reward * x / t >= 0) by (nonlinear_arith)
            requires
                era_reward * x >= 0,
                t > 0,
        ;
        lemma_div_add(era_reward * stake_units(vs.drop_last()), era_reward * x, t);
        assert(era_reward * stake_units(vs.drop_last()) + era_reward * x == era_reward * stake_units(vs)) by (nonlinear_arith)
            requires
                stake_units(vs) == stake_units(vs.drop_last()) + x,
        ;
    }
}

/// A whole pass of the distribution hands out no more than the era reward:
/// where the validators `vs` that earn a reward hold together the valid total
/// stake (of at least one whole OCT token), the shares of `era_reward` that go
/// to them and their delegators add up to at most `era_reward`.
pub proof fn lemma_era_reward_shares_within_era_reward(era_reward: int, vs: Seq<Validator>, valid_total_stake: int)
    requires
        era_reward >= 0,
        sum_total_stake(vs) == valid_total_stake,
        valid_total_stake / OCT_DECIMALS_VALUE as int > 0,
    ensures
        era_reward_shares(era_reward, vs, valid_total_stake) <= era_reward,
{
    let t = valid_total_stake / OCT_DECIMALS_VALUE as int;
    lemma_era_reward_shares(era_reward, vs, valid_total_stake);
    lemma_stake_units(vs);
    let u = stake_units(vs);
    assert(era_reward * u / t <= era_reward) by (nonlinear_arith)
        requires
            era_reward >= 0,
            0 <= u <= t,
            t > 0,
    ;
}

/// The validators of `vs` that `ids` does not list, in their order.
pub open spec fn profitable(vs: Seq<Validator>, ids: Seq<AccountId>) -> Seq<Validator>
    decreases vs.len(),
{
    if vs.len() == 0 {
        Seq::empty()
    } else if listed(ids, vs.last().validator_id@) {
        profitable(vs.drop_last(), ids)
    } else {
        profitable(vs.drop_last(), ids).push(vs.last())
    }
}

/// The sum of the total stakes of the validators of `vs` with the id `id`.
pub open spec fn stake_with_id(vs: Seq<Validator>, id: Seq<char>) -> int
    decreases vs.len(),
{
    if vs.len() == 0 {
        0
    } else {
        stake_with_id(vs.drop_last(), id) + if vs.last().validator_id@ == id {
            vs.last().total_stake as int
        } else {
            0
        }
    }
}

proof fn lemma_unique_prefix(vs: Seq<Validator>)
    requires
        vs.len() > 0,
        unique_validators(vs),
    ensures
        unique_validators(vs.drop_last()),
{
    assert forall|i: int, j: int|
        0 <= i < vs.drop_last().len() && 0 <= j < vs.drop_last().len() && i != j implies (
        #[trigger] vs.drop_last()[i]).validator_id@ != (#[trigger] vs.drop_last()[j]).validator_id@ by {
        assert(vs.drop_last()[i] == vs[i] && vs.drop_last()[j] == vs[j]);
    }
}

/// In validators with distinct ids, the stake with the id `id` is that of
/// the validator `id`, or 0 where there is none.
proof fn lemma_stake_with_id(vs: Seq<Validator>, id: Seq<char>)
    requires
        unique_validators(vs),
    ensures
        stake_with_id(vs, id) == if has_validator(vs, id) {
            vs[validator_pos(vs, id)].total_stake as int
        } else {
            0
        },
    decreases vs.len(),
{
    if vs.len() > 0 {
        let pre = vs.drop_last();
        let n = vs.len() - 1;
        lemma_unique_prefix(vs);
        lemma_stake_with_id(pre, id);
        if vs.last().validator_id@ == id {
            lemma_validator_index(vs, n);
            if has_validator(pre, id) {
                let q = choose|q: int| 0 <= q < pre.len() && (#[trigger] pre[q]).validator_id@ == id;
                assert(vs[q] == pre[q]);
                assert(false);
            }
        } else if has_validator(pre, id) {
            let q = validator_pos(pre, id);
            assert(vs[q] == pre[q]);
            lemma_validator_index(vs, q);
        } else if has_validator(vs, id) {
            let q = choose|q: int| 0 <= q < vs.len() && (#[trigger] vs[q]).validator_id@ == id;
            if q < n {
                assert(pre[q] == vs[q]);
            }
        }
    }
}

/// Listing one id more takes the stake with that id off the profitable validators.
proof fn lemma_profitable_push(vs: Seq<Validator>, ids: Seq<AccountId>, x: AccountId)
    requires
        !listed(ids, x@),
    ensures
        sum_total_stake(profitable(vs, ids)) == sum_total_stake(profitable(vs, ids.push(x))) + stake_with_id(vs, x@),
    decreases vs.len(),
{
    if vs.len() > 0 {
        lemma_profitable_push(vs.drop_last(), ids, x);
        let id = vs.last().validator_id@;
        let more = ids.push(x);
        assert(listed(more, id) <==> (listed(ids, id) || id == x@)) by {
            if listed(more, id) {
                let k = choose|k: int| 0 <= k < more.len() && (#[trigger] more[k])@ == id;
                if k < ids.len() {
                    assert(ids[k] == more[k]);
                }
            }
            if listed(ids, id) {
                let k = choose|k: int| 0 <= k < ids.len() && (#[trigger] ids[k])@ == id;
                assert(more[k] == ids[k]);
            }
            if id == x@ {
                assert(more[ids.len() as int] == x);
            }
        }
        let a = profitable(vs.drop_last(), ids);
        let b = profitable(vs.drop_last(), more);
        if !listed(ids, id) {
            assert(a.push(vs.last()).drop_last() =~= a);
        }
        if !listed(more, id) {
            assert(b.push(vs.last()).drop_last() =~= b);
        }
    }
}

/// Where `ids` are distinct ids of validators of a well-formed set whose total
/// stake is the sum of the total stakes of its validators, the validators that
/// `ids` does not list hold the total stake without the stakes of `ids`.
pub proof fn lemma_profitable_stake(m: ValidatorSetModel, ids: Seq<AccountId>)
    requires
        m.wf(),
        m.total_stake == sum_total_stake(m.validators),
        forall|i: int| 0 <= i < ids.len() ==> m.contains_validator(#[trigger] ids[i]@),
        forall|i: int, j: int| 0 <= i < ids.len() && 0 <= j < ids.len() && i != j ==> (#[trigger] ids[i])@ != (#[trigger] ids[j])@,
    ensures
        sum_total_stake(profitable(m.validators, ids)) == m.total_stake - stake_of_ids(m, ids),
    decreases ids.len(),
{
    if ids.len() == 0 {
        lemma_profitable_none(m.validators, ids);
    } else {
        let pre = ids.drop_last();
        let x = ids.last();
        assert forall|i: int| 0 <= i < pre.len() implies m.contains_validator(#[trigger] pre[i]@) by {
            assert(pre[i] == ids[i]);
        }
        assert forall|i: int, j: int| 0 <= i < pre.len() && 0 <= j < pre.len() && i != j implies (#[trigger] pre[i])@ != (
        #[trigger] pre[j])@ by {
            assert(pre[i] == ids[i] && pre[j] == ids[j]);
        }
        lemma_profitable_stake(m, pre);
        assert(!listed(pre, x@)) by {
            if listed(pre, x@) {
                let k = choose|k: int| 0 <= k < pre.len() && (#[trigger] pre[k])@ == x@;
                assert(ids[k] == pre[k]);
                assert(ids[ids.len() - 1] == x);
            }
        }
        lemma_profitable_push(m.validators, pre, x);
        assert(pre.push(x) =~= ids);
        lemma_stake_with_id(m.validators, x@);
        assert(m.contains_validator(ids[ids.len() - 1]@));
    }
}

proof fn lemma_profitable_none(vs: Seq<Validator>, ids: Seq<AccountId>)
    requires
        ids.len() == 0,
    ensures
        profitable(vs, ids) == vs,
    decreases vs.len(),
{
    if vs.len() > 0 {
        lemma_profitable_none(vs.drop_last(), ids);
        assert(vs.drop_last().push(vs.last()) =~= vs);
    }
}

/// A whole pass of the distribution over a set hands out no more than the
/// era reward: where the total stake of a well-formed set is the sum of the
/// total stakes of its validators and the unprofitable validators `ids` are
/// distinct validators of the set, the shares of `era_reward` that go to the
/// other validators and their delegators, with the valid total stake counted
/// as the total stake without the stakes of `ids`, add up to at most
/// `era_reward`.
pub proof fn lemma_distribution_pass_within_era_reward(m: ValidatorSetModel, ids: Seq<AccountId>, era_reward: int)
    requires
        m.wf(),
        m.total_stake == sum_total_stake(m.validators),
        forall|i: int| 0 <= i < ids.len() ==> m.contains_validator(#[trigger] ids[i]@),
        forall|i: int, j: int| 0 <= i < ids.len() && 0 <= j < ids.len() && i != j ==> (#[trigger] ids[i])@ != (#[trigger] ids[j])@,
        era_reward >= 0,
        (m.total_stake - stake_of_ids(m, ids)) / OCT_DECIMALS_VALUE as int > 0,
    ensures
        era_reward_shares(era_reward, profitable(m.validators, ids), m.total_stake - stake_of_ids(m, ids)) <= era_reward,
{
    lemma_profitable_stake(m, ids);
    lemma_era_reward_shares_within_era_reward(era_reward, profitable(m.validators, ids), m.total_stake - stake_of_ids(m, ids));
}

/// The sum of the shares of `rest` that the steps of a pass credit to the
/// delegators `ds` of the validator `vid` for the message `nonce` in era
/// `era`: a delegator whose reward `records` holds already gets nothing.
pub open spec fn delegator_credits(
    records: Set<(u32, u64, Seq<char>, Seq<char>)>,
    nonce: u32,
    era: u64,
    vid: Seq<char>,
    rest: int,
    ds: Seq<Delegator>,
    total_stake: int,
) -> int
    decreases ds.len(),
{
    if ds.len() == 0 {
        0
    } else {
        delegator_credits(records, nonce, era, vid, rest, ds.drop_last(), total_stake) + if records.contains(
            (nonce, era, ds.last().delegator_id@, vid),
        ) {
            0
        } else {
            share_of(rest, ds.last().deposit_amount as int, total_stake)
        }
    }
}

/// What the steps of a pass over the validator `v` of `set` credit, for the
/// message `nonce` with the era reward `era_reward` and the commission
/// percent `commission_percent`: its reward, and the shares of its delegators
/// whose rewards `records` does not hold.
pub open spec fn validator_credit(
    set: ValidatorSetOfEra,
    records: Set<(u32, u64, Seq<char>, Seq<char>)>,
    nonce: u32,
    era_reward: int,
    commission_percent: int,
    v: Validator,
) -> int {
    let reward = validator_total_reward(era_reward, v.total_stake as int, set.valid_stake() as int);
    let c = commission_of(reward, commission_percent);
    validator_reward_of(reward, c, v) + delegator_credits(
        records,
        nonce,
        set.set().era_number,
        v.validator_id@,
        reward - c,
        set.set().delegators_of(v.validator_id@),
        v.total_stake as int,
    )
}

/// What a pass of the distribution over the validators `vs` of `set`
/// credits, as `reward_step` takes it step by step with the records as they
/// stand at the start of the pass: nothing to an unprofitable validator.
pub open spec fn pass_credits(
    set: ValidatorSetOfEra,
    records: Set<(u32, u64, Seq<char>, Seq<char>)>,
    nonce: u32,
    era_reward: int,
    commission_percent: int,
    vs: Seq<Validator>,
) -> int
    decreases vs.len(),
{
    if vs.len() == 0 {
        0
    } else {
        pass_credits(set, records, nonce, era_reward, commission_percent, vs.drop_last()) + if listed(
            set.unprofitable_ids(),
            vs.last().validator_id@,
        ) {
            0
        } else {
            validator_credit(set, records, nonce, era_reward, commission_percent, vs.last())
        }
    }
}

proof fn lemma_delegator_credits(
    records: Set<(u32, u64, Seq<char>, Seq<char>)>,
    nonce: u32,
    era: u64,
    vid: Seq<char>,
    rest: int,
    ds: Seq<Delegator>,
    total_stake: int,
)
    requires
        rest >= 0,
        total_stake / OCT_DECIMALS_VALUE as int > 0,
    ensures
        0 <= delegator_credits(records, nonce, era, vid, rest, ds, total_stake) <= delegator_shares(rest, ds, total_stake),
    decreases ds.len(),
{
    if ds.len() > 0 {
        lemma_delegator_credits(records, nonce, era, vid, rest, ds.drop_last(), total_stake);
        let x = ds.last().deposit_amount as int / OCT_DECIMALS_VALUE as int;
        let t = total_stake / OCT_DECIMALS_VALUE as int;
        assert(rest * x >= 0) by (nonlinear_arith)
            requires
                rest >= 0,
                x >= 0,
        ;
        assert(rest * x / t >= 0) by (nonlinear_arith)
            requires
                rest * x >= 0,
                t > 0,
        ;
    }
}

proof fn lemma_pass_credits(
    set: ValidatorSetOfEra,
    records: Set<(u32, u64, Seq<char>, Seq<char>)>,
    nonce: u32,
    era_reward: int,
    commission_percent: int,
    n: int,
)
    requires
        0 <= n <= set.set().validators.len(),
        set.set().stake_balanced(),
        era_reward >= 0,
        0 <= commission_percent <= 100,
        set.valid_stake() as int / OCT_DECIMALS_VALUE as int > 0,
        forall|i: int|
            0 <= i < set.set().validators.len() && !listed(set.unprofitable_ids(), set.set().validators[i].validator_id@)
                ==> (#[trigger] set.set().validators[i]).total_stake as int / OCT_DECIMALS_VALUE as int > 0,
    ensures
        pass_credits(set, records, nonce, era_reward, commission_percent, set.set().validators.take(n))
            <= era_reward_shares(
            era_reward,
            profitable(set.set().validators.take(n), set.unprofitable_ids()),
            set.valid_stake() as int,
        ),
    decreases n,
{
    if n > 0 {
        let vs = set.set().validators.take(n);
        assert(vs.drop_last() =~= set.set().validators.take(n - 1));
        lemma_pass_credits(set, records, nonce, era_reward, commission_percent, n - 1);
        let v = vs.last();
        assert(v == set.set().validators[n - 1]);
        if !listed(set.unprofitable_ids(), v.validator_id@) {
            let m = set.set();
            assert(validator_balanced(m, m.validators[n - 1]));
            let vt = v.total_stake as int / OCT_DECIMALS_VALUE as int;
            let vv = set.valid_stake() as int / OCT_DECIMALS_VALUE as int;
            let reward = validator_total_reward(era_reward, v.total_stake as int, set.valid_stake() as int);
            assert(reward >= 0) by (nonlinear_arith)
                requires
                    reward == era_reward * vt / vv,
                    era_reward >= 0,
                    vt >= 0,
                    vv > 0,
            ;
            let c = commission_of(reward, commission_percent);
            assert(0 <= c <= reward) by (nonlinear_arith)
                requires
                    c == reward * commission_percent / 100,
                    reward >= 0,
                    0 <= commission_percent <= 100,
            ;
            lemma_rewards_within_validator_reward(m, v, reward, commission_percent);
            lemma_delegator_credits(
                records,
                nonce,
                m.era_number,
                v.validator_id@,
                reward - c,
                m.delegators_of(v.validator_id@),
                v.total_stake as int,
            );
            assert(profitable(vs, set.unprofitable_ids()) == profitable(vs.drop_last(), set.unprofitable_ids()).push(v));
            assert(profitable(vs, set.unprofitable_ids()).drop_last() =~= profitable(vs.drop_last(), set.unprofitable_ids()));
        }
    }
}

/// A whole pass of the distribution of the reward of an era credits no more
/// than the era reward: where the total stake of a well-formed set of an era
/// is the sum of the total stakes of its validators and each of them holds
/// its deposit and those of its delegators, where its unprofitable
/// validators are distinct validators of the set and its valid total stake
/// (at least one whole OCT token) is the total stake without theirs, and
/// where each profitable validator holds at least one whole OCT token, the
/// rewards that the steps of a pass over the set credit to its validators
/// and delegators, with the records as they stand at the start of the pass,
/// add up to at most `era_reward`, for every commission percent up to 100.
pub proof fn lemma_pass_credits_within_era_reward(
    set: ValidatorSetOfEra,
    records: Set<(u32, u64, Seq<char>, Seq<char>)>,
    nonce: u32,
    era_reward: int,
    commission_percent: int,
)
    requires
        set.set().wf(),
        set.set().stake_balanced(),
        forall|i: int|
            0 <= i < set.unprofitable_ids().len() ==> set.set().contains_validator(#[trigger] set.unprofitable_ids()[i]@),
        forall|i: int, j: int|
            0 <= i < set.unprofitable_ids().len() && 0 <= j < set.unprofitable_ids().len() && i != j
                ==> (#[trigger] set.unprofitable_ids()[i])@ != (#[trigger] set.unprofitable_ids()[j])@,
        set.valid_stake() == set.set().total_stake - stake_of_ids(set.set(), set.unprofitable_ids()),
        set.valid_stake() as int / OCT_DECIMALS_VALUE as int > 0,
        era_reward >= 0,
        0 <= commission_percent <= 100,
        forall|i: int|
            0 <= i < set.set().validators.len() && !listed(set.unprofitable_ids(), set.set().validators[i].validator_id@)
                ==> (#[trigger] set.set().validators[i]).total_stake as int / OCT_DECIMALS_VALUE as int > 0,
    ensures
        pass_credits(set, records, nonce, era_reward, commission_percent, set.set().validators) <= era_reward,
{
    let vs = set.set().validators;
    lemma_pass_credits(set, records, nonce, era_reward, commission_percent, vs.len() as int);
    assert(vs.take(vs.len() as int) =~= vs);
    lemma_distribution_pass_within_era_reward(set.set(), set.unprofitable_ids(), era_reward);
}

/// What one step of a loop over the validators and delegators of a set found.
#[derive(Clone, Copy, Debug, PartialEq, Eq)]
pub enum ResultOfLoopingValidatorSet {
    /// The validator at the index has no delegator at the index.
    NoMoreDelegator,
    /// There is no validator at the index.
    NoMoreValidator,
    /// The step handled the delegator at the index.
    NeedToContinue,
}

/// The rewards that have been distributed, by appchain message nonce, era,
/// delegator and validator (the delegator id is empty for a validator), with
/// the eras that have records and, by era, the nonces of their messages.
pub struct RewardDistributionRecords {
    records: Vec<(u32, u64, AccountId, AccountId)>,
    era_numbers: Vec<u64>,
    era_nonces: HashMap<u64, Vec<u32>>,
}

/// `eras` with `era` added after the last era, where it is not listed yet.
pub open spec fn eras_noted(eras: Seq<u64>, era: u64) -> Seq<u64> {
    if eras.contains(era) {
        eras
    } else {
        eras.push(era)
    }
}

/// `m` with `nonce` added after the last nonce of `era`, where it is not
/// listed there yet.
pub open spec fn nonces_noted(m: Map<u64, Seq<u32>>, era: u64, nonce: u32) -> Map<u64, Seq<u32>> {
    let ns = if m.contains_key(era) {
        m[era]
    } else {
        Seq::empty()
    };
    m.insert(
        era,
        if ns.contains(nonce) {
            ns
        } else {
            ns.push(nonce)
        },
    )
}

fn position_of_u64(v: &Vec<u64>, x: u64) -> (res: usize)
    ensures
        res <= v@.len(),
        res < v@.len() ==> v@[res as int] == x && forall|k: int| 0 <= k < res ==> v@[k] != x,
        res == v@.len() ==> !v@.contains(x),
{
    let mut i: usize = 0;
    while i < v.len()
        invariant
            i <= v@.len(),
            forall|k: int| 0 <= k < i ==> v@[k] != x,
        decreases v@.len() - i,
    {
        if v[i] == x {
            return i;
        }
        i = i + 1;
    }
    i
}

fn contains_u32(v: &Vec<u32>, x: u32) -> (res: bool)
    ensures
        res == v@.contains(x),
{
    let mut i: usize = 0;
    while i < v.len()
        invariant
            i <= v@.len(),
            forall|k: int| 0 <= k < i ==> v@[k] != x,
        decreases v@.len() - i,
    {
        if v[i] == x {
            assert(v@[i as int] == x);
            return true;
        }
        i = i + 1;
    }
    false
}

impl RewardDistributionRecords {
    /// The records.
    pub closed spec fn record_set(&self) -> Set<(u32, u64, Seq<char>, Seq<char>)> {
        Set::new(|r: (u32, u64, Seq<char>, Seq<char>)| exists|i: int| 0 <= i < self.records@.len()
            && (#[trigger] self.records@[i]).0 == r.0 && self.records@[i].1 == r.1
            && self.records@[i].2@ == r.2 && self.records@[i].3@ == r.3)
    }

    /// The eras that have records, in the order in which they were noted.
    pub closed spec fn eras(&self) -> Seq<u64> {
        self.era_numbers@
    }

    /// The nonces of the messages that have records, by era.
    pub closed spec fn nonces_of(&self) -> Map<u64, Seq<u32>> {
        self.era_nonces@.map_values(|v: Vec<u32>| v@)
    }

    /// No record.
    pub fn new() -> (res: Self)
        ensures
            res.record_set() == Set::<(u32, u64, Seq<char>, Seq<char>)>::empty(),
            res.eras() == Seq::<u64>::empty(),
            res.nonces_of() == Map::<u64, Seq<u32>>::empty(),
    {
        let res = RewardDistributionRecords { records: Vec::new(), era_numbers: Vec::new(), era_nonces: HashMap::new() };
        assert(res.record_set() =~= Set::<(u32, u64, Seq<char>, Seq<char>)>::empty());
        assert(res.nonces_of() =~= Map::<u64, Seq<u32>>::empty());
        res
    }

    /// Whether the reward of `delegator_id` of `validator_id` for the message
    /// `appchain_message_nonce` in era `era_number` has been distributed.
    pub fn contains_record(&self, appchain_message_nonce: u32, era_number: u64, delegator_id: &AccountId, validator_id: &AccountId) -> (res: bool)
        ensures
            res == self.record_set().contains((appchain_message_nonce, era_number, delegator_id@, validator_id@)),
    {
        let mut i: usize = 0;
        while i < self.records.len()
            invariant
                i <= self.records@.len(),
                forall|k: int| 0 <= k < i ==> !((#[trigger] self.records@[k]).0 == appchain_message_nonce
                    && self.records@[k].1 == era_number && self.records@[k].2@ == delegator_id@
                    && self.records@[k].3@ == validator_id@),
            decreases self.records@.len() - i,
        {
            let r = &self.records[i];
            if r.0 == appchain_message_nonce && r.1 == era_number && r.2 == *delegator_id && r.3 == *validator_id {
                return true;
            }
            i = i + 1;
        }
        false
    }

    /// Records that a reward has been distributed, and notes its era and the
    /// nonce of its message.
    pub fn insert(&mut self, appchain_message_nonce: u32, era_number: u64, delegator_id: &AccountId, validator_id: &AccountId)
        ensures
            final(self).record_set() == old(self).record_set().insert(
                (appchain_message_nonce, era_number, delegator_id@, validator_id@),
            ),
            final(self).eras() == eras_noted(old(self).eras(), era_number),
            final(self).nonces_of() == nonces_noted(old(self).nonces_of(), era_number, appchain_message_nonce),
    {
        if !self.contains_record(appchain_message_nonce, era_number, delegator_id, validator_id) {
            self.records.push((appchain_message_nonce, era_number, delegator_id.clone(), validator_id.clone()));
            proof {
                let n = old(self).records@.len() as int;
                let rs = self.records@;
                assert forall|r: (u32, u64, Seq<char>, Seq<char>)| #[trigger] self.record_set().contains(r)
                    == old(self).record_set().insert((appchain_message_nonce, era_number, delegator_id@, validator_id@)).contains(r) by {
                    if old(self).record_set().contains(r) {
                        let k = choose|k: int| 0 <= k < old(self).records@.len()
                            && (#[trigger] old(self).records@[k]).0 == r.0 && old(self).records@[k].1 == r.1
                            && old(self).records@[k].2@ == r.2 && old(self).records@[k].3@ == r.3;
                        assert(rs[k] == old(self).records@[k]);
                    }
                    if r == (appchain_message_nonce, era_number, delegator_id@, validator_id@) {
                        assert(rs[n].0 == r.0);
                    }
                    if self.record_set().contains(r) {
                        let k = choose|k: int| 0 <= k < rs.len()
                            && (#[trigger] rs[k]).0 == r.0 && rs[k].1 == r.1 && rs[k].2@ == r.2 && rs[k].3@ == r.3;
                        if k < n {
                            assert(rs[k] == old(self).records@[k]);
                        }
                    }
                }
                assert(self.record_set() =~= old(self).record_set().insert(
                    (appchain_message_nonce, era_number, delegator_id@, validator_id@),
                ));
            }
        } else {
            assert(self.record_set() =~= old(self).record_set().insert(
                (appchain_message_nonce, era_number, delegator_id@, validator_id@),
            ));
        }
        let ghost records_now = self.record_set();
        if position_of_u64(&self.era_numbers, era_number) == self.era_numbers.len() {
            self.era_numbers.push(era_number);
        } else {
            assert(old(self).eras().contains(era_number));
        }
        let ghost before = self.era_nonces@;
        let mut ns: Vec<u32> = match self.era_nonces.remove(&era_number) {
            Some(v) => v,
            None => Vec::new(),
        };
        let ghost taken = ns@;
        if !contains_u32(&ns, appchain_message_nonce) {
            ns.push(appchain_message_nonce);
        }
        self.era_nonces.insert(era_number, ns);
        proof {
            assert(self.record_set() == records_now);
            assert(self.nonces_of() =~= nonces_noted(old(self).nonces_of(), era_number, appchain_message_nonce));
        }
    }

    /// The eras that have records, in the order in which they were noted.
    pub fn get_recorded_era_numbers(&self) -> (res: Vec<u64>)
        ensures
            res@ == self.eras(),
    {
        let mut res: Vec<u64> = Vec::new();
        let mut i: usize = 0;
        while i < self.era_numbers.len()
            invariant
                i <= self.era_numbers@.len(),
                res@ == self.era_numbers@.take(i as int),
            decreases self.era_numbers@.len() - i,
        {
            res.push(self.era_numbers[i]);
            i = i + 1;
            assert(res@ =~= self.era_numbers@.take(i as int));
        }
        assert(self.era_numbers@.take(i as int) =~= self.era_numbers@);
        res
    }

    /// Forgets which eras have records; the records and the nonces stay.
    pub fn clear_era_number_set(&mut self)
        ensures
            final(self).eras() == Seq::<u64>::empty(),
            final(self).record_set() == old(self).record_set(),
            final(self).nonces_of() == old(self).nonces_of(),
    {
        self.era_numbers = Vec::new();
    }
}

/// Whether the record `r` is a record of era `era_number` of a validator of
/// `set`, or of one of its delegators.
pub open spec fn record_of_set(set: ValidatorSetOfEra, era_number: u64, r: (u32, u64, Seq<char>, Seq<char>)) -> bool {
    &&& r.1 == era_number
    &&& histories_applied(set.status())
    &&& set.set().contains_validator(r.3)
    &&& (r.2.len() == 0 || set.set().contains_delegator(r.2, r.3))
}

/// Whether the record `r` is cleared with era `era_number` of `set`, whose
/// messages have the nonces `nonces`.
pub open spec fn cleared_record(set: ValidatorSetOfEra, era_number: u64, nonces: Seq<u32>, r: (u32, u64, Seq<char>, Seq<char>)) -> bool {
    record_of_set(set, era_number, r) && nonces.contains(r.0)
}

/// Whether an era is `era_number`.
pub open spec fn is_era(era_number: u64) -> spec_fn(u64) -> bool {
    |e: u64| e == era_number
}

/// Whether a record stays when era `era_number` of `set`, whose messages
/// have the nonces `nonces`, is cleared.
pub open spec fn record_stays(set: ValidatorSetOfEra, era_number: u64, nonces: Seq<u32>) -> spec_fn(
    (u32, u64, Seq<char>, Seq<char>),
) -> bool {
    |r: (u32, u64, Seq<char>, Seq<char>)| !cleared_record(set, era_number, nonces, r)
}

/// Whether clearing the records of era `era_number` of `set` turned `before`
/// into `after`: where the era is noted, the records of its validators and
/// their delegators for the nonces noted for it are removed, its nonces are
/// forgotten and the last noted era takes its place; where it is not noted,
/// nothing changes.
pub open spec fn records_cleared(
    before: RewardDistributionRecords,
    after: RewardDistributionRecords,
    set: ValidatorSetOfEra,
    era_number: u64,
) -> bool {
    if before.eras().contains(era_number) {
        let ns = if before.nonces_of().contains_key(era_number) {
            before.nonces_of()[era_number]
        } else {
            Seq::empty()
        };
        let p = first_where(before.eras(), is_era(era_number));
        &&& after.record_set() == before.record_set().filter(record_stays(set, era_number, ns))
        &&& after.nonces_of() == before.nonces_of().remove(era_number)
        &&& after.eras() == swap_removed(before.eras(), p)
    } else {
        &&& after.record_set() == before.record_set()
        &&& after.nonces_of() == before.nonces_of()
        &&& after.eras() == before.eras()
    }
}

/// The view of a record.
pub open spec fn record_view(r: (u32, u64, AccountId, AccountId)) -> (u32, u64, Seq<char>, Seq<char>) {
    (r.0, r.1, r.2@, r.3@)
}

/// The records of `s` that are not cleared with era `era_number` of `set`, in order.
pub open spec fn records_kept(s: Seq<(u32, u64, AccountId, AccountId)>, set: ValidatorSetOfEra, era_number: u64, nonces: Seq<u32>) -> Seq<
    (u32, u64, AccountId, AccountId),
>
    decreases s.len(),
{
    if s.len() == 0 {
        s
    } else {
        let p = records_kept(s.drop_last(), set, era_number, nonces);
        if cleared_record(set, era_number, nonces, record_view(s.last())) {
            p
        } else {
            p.push(s.last())
        }
    }
}

/// Whether some record of `s` has the view `r`.
pub open spec fn has_record(s: Seq<(u32, u64, AccountId, AccountId)>, r: (u32, u64, Seq<char>, Seq<char>)) -> bool {
    exists|j: int| 0 <= j < s.len() && record_view(#[trigger] s[j]) == r
}

proof fn lemma_records_kept(
    s: Seq<(u32, u64, AccountId, AccountId)>,
    set: ValidatorSetOfEra,
    era_number: u64,
    nonces: Seq<u32>,
    r: (u32, u64, Seq<char>, Seq<char>),
)
    ensures
        has_record(records_kept(s, set, era_number, nonces), r) == (has_record(s, r) && !cleared_record(set, era_number, nonces, r)),
    decreases s.len(),
{
    if s.len() > 0 {
        let d = s.drop_last();
        let p = records_kept(d, set, era_number, nonces);
        lemma_records_kept(d, set, era_number, nonces, r);
        let kept = records_kept(s, set, era_number, nonces);
        if has_record(s, r) && !cleared_record(set, era_number, nonces, r) {
            let j = choose|j: int| 0 <= j < s.len() && record_view(#[trigger] s[j]) == r;
            if j < s.len() - 1 {
                assert(record_view(d[j]) == r);
                let k = choose|k: int| 0 <= k < p.len() && record_view(#[trigger] p[k]) == r;
                if !cleared_record(set, era_number, nonces, record_view(s.last())) {
                    assert(kept[k] == p[k]);
                }
                assert(record_view(kept[k]) == r);
            } else {
                assert(kept.last() == s.last());
                assert(record_view(kept[kept.len() - 1]) == r);
            }
        }
        if has_record(kept, r) {
            let k = choose|k: int| 0 <= k < kept.len() && record_view(#[trigger] kept[k]) == r;
            if k < p.len() {
                assert(kept[k] == p[k]);
                assert(has_record(p, r));
                let j = choose|j: int| 0 <= j < d.len() && record_view(#[trigger] d[j]) == r;
                assert(s[j] == d[j]);
            } else {
                assert(kept[k] == s.last());
                assert(record_view(s[s.len() - 1]) == r);
            }
        }
    }
}

impl RewardDistributionRecords {
    /// Clears the records of era `era_number` as `records_cleared` says.
    pub fn clear(&mut self, validator_set: &ValidatorSetOfEra, era_number: u64)
        requires
            validator_set.wf(),
        ensures
            records_cleared(*old(self), *final(self), *validator_set, era_number),
    {
        let pos = position_of_u64(&self.era_numbers, era_number);
        proof {
            lemma_first_where(self.era_numbers@, is_era(era_number));
            let fw = first_where(self.era_numbers@, is_era(era_number));
            if pos < self.era_numbers@.len() {
                assert(is_era(era_number)(self.era_numbers@[pos as int]));
            }
            if fw >= 0 {
                assert(is_era(era_number)(self.era_numbers@[fw]));
                assert(self.era_numbers@.contains(era_number));
            }
        }
        if pos == self.era_numbers.len() {
            return;
        }
        let nonces: Vec<u32> = match self.era_nonces.remove(&era_number) {
            Some(v) => v,
            None => Vec::new(),
        };
        let ghost ns = nonces@;
        let ghost old_records = self.records@;
        let mut kept: Vec<(u32, u64, AccountId, AccountId)> = Vec::new();
        let mut i: usize = 0;
        while i < self.records.len()
            invariant
                self.records@ == old_records,
                validator_set.wf(),
                nonces@ == ns,
                i <= old_records.len(),
                kept@ == records_kept(old_records.take(i as int), *validator_set, era_number, ns),
            decreases old_records.len() - i,
        {
            let r = &self.records[i];
            let of_set = r.1 == era_number && validator_set.contains_validator(&r.3) && (r.2.as_str().unicode_len() == 0
                || validator_set.contains_delegator(&r.2, &r.3)) && contains_u32(&nonces, r.0);
            assert(old_records.take(i + 1).drop_last() =~= old_records.take(i as int));
            assert(old_records.take(i + 1).last() == old_records[i as int]);
            if !of_set {
                kept.push((r.0, r.1, r.2.clone(), r.3.clone()));
            }
            i = i + 1;
        }
        assert(old_records.take(i as int) =~= old_records);
        self.records = kept;
        self.era_numbers.swap_remove(pos);
        proof {
            let f = record_stays(*validator_set, era_number, ns);
            assert forall|r: (u32, u64, Seq<char>, Seq<char>)| #[trigger] self.record_set().contains(r) == old(
                self,
            ).record_set().filter(f).contains(r) by {
                lemma_records_kept(old_records, *validator_set, era_number, ns, r);
                if self.record_set().contains(r) {
                    let k = choose|k: int| 0 <= k < self.records@.len() && (#[trigger] self.records@[k]).0 == r.0
                        && self.records@[k].1 == r.1 && self.records@[k].2@ == r.2 && self.records@[k].3@ == r.3;
                    assert(record_view(self.records@[k]) == r);
                    let j = choose|j: int| 0 <= j < old_records.len() && record_view(#[trigger] old_records[j]) == r;
                    assert(old(self).records@[j] == old_records[j]);
                }
                if old(self).record_set().filter(f).contains(r) {
                    let j = choose|j: int| 0 <= j < old(self).records@.len() && (#[trigger] old(self).records@[j]).0 == r.0
                        && old(self).records@[j].1 == r.1 && old(self).records@[j].2@ == r.2 && old(self).records@[j].3@
                        == r.3;
                    assert(record_view(old_records[j]) == r);
                    let k = choose|k: int| 0 <= k < self.records@.len() && record_view(#[trigger] self.records@[k]) == r;
                    assert(self.records@[k].0 == r.0);
                }
            }
            assert(self.record_set() =~= old(self).record_set().filter(f));
            assert(self.nonces_of() =~= old(self).nonces_of().remove(era_number));
            assert(self.era_numbers@ =~= swap_removed(old(self).eras(), pos as int));
            let fw = first_where(old(self).eras(), is_era(era_number));
            assert(is_era(era_number)(old(self).eras()[pos as int]));
            assert(fw == pos);
            assert(old(self).eras().contains(era_number));
            if old(self).nonces_of().contains_key(era_number) {
                assert(ns == old(self).nonces_of()[era_number]);
            } else {
                assert(ns == Seq::<u32>::empty());
            }
        }
    }
}

/// `m` with `amount` added to the amount recorded for `key` (none counts as 0).
pub open spec fn added(m: Map<(int, Seq<Seq<char>>), u128>, key: (int, Seq<Seq<char>>), amount: int) -> Map<(int, Seq<Seq<char>>), u128> {
    m.insert(key, (if m.contains_key(key) { m[key] as int } else { 0 } + amount) as u128)
}

/// Whether `amount` can be added to the amount recorded for `key` in `m`.
pub open spec fn can_add(m: Map<(int, Seq<Seq<char>>), u128>, key: (int, Seq<Seq<char>>), amount: int) -> bool {
    (if m.contains_key(key) { m[key] as int } else { 0 }) + amount <= u128::MAX
}

/// Adds `amount` to the amount recorded for `key`.
pub fn add_amount<K: crate::balance_map::TableKey>(map: &mut BalanceMap<K>, key: &K, amount: u128)
    requires
        old(map).wf(),
        can_add(old(map).amounts(), abstract_key(*key), amount as int),
    ensures
        final(map).wf(),
        final(map).amounts() == added(old(map).amounts(), abstract_key(*key), amount as int),
{
    let total = match map.get(key) {
        Some(reward) => reward + amount,
        None => amount,
    };
    map.insert(key, total);
}

/// The validator at `validator_index` of `set`, as the distribution sees it.
pub open spec fn indexed_validator(set: &ValidatorSetOfEra, validator_index: u64) -> Validator {
    set.set().validators[validator_index as int]
}

/// Whether the distribution reaches a profitable validator at `validator_index`.
pub open spec fn reaches_profitable_validator(set: &ValidatorSetOfEra, validator_index: u64) -> bool {
    &&& histories_applied(set.status())
    &&& validator_index < set.set().validators.len()
    &&& !listed(set.unprofitable_ids(), indexed_validator(set, validator_index).validator_id@)
}


/// Whether a distribution step at the given indexes computes no amount that
/// overflows or divides by zero, and adds no reward that overflows.
pub open spec fn step_computable(
    set: &ValidatorSetOfEra,
    records: &RewardDistributionRecords,
    unwithdrawn_validator_rewards: Map<(int, Seq<Seq<char>>), u128>,
    unwithdrawn_delegator_rewards: Map<(int, Seq<Seq<char>>), u128>,
    appchain_message_nonce: u32,
    validator_index: u64,
    delegator_index: u64,
    era_reward: u128,
    validator_commission_percent: u128,
) -> bool {
    let v = indexed_validator(set, validator_index);
    let reward = validator_total_reward(era_reward as int, v.total_stake as int, set.valid_stake() as int);
    let commission = commission_of(reward, validator_commission_percent as int);
    let ds = set.set().delegators_of(v.validator_id@);
    let era = set.set().era_number;
    reaches_profitable_validator(set, validator_index) ==> {
        &&& set.valid_stake() / OCT_DECIMALS_VALUE > 0
        &&& era_reward * (v.total_stake / OCT_DECIMALS_VALUE) <= u128::MAX
        &&& reward * validator_commission_percent <= u128::MAX
        &&& commission <= reward
        &&& v.total_stake / OCT_DECIMALS_VALUE > 0
        &&& delegator_index >= ds.len() ==> {
            let vr = validator_reward_of(reward, commission, v);
            &&& (reward - commission) * (v.deposit_amount / OCT_DECIMALS_VALUE) <= u128::MAX
            &&& vr <= u128::MAX
            &&& can_add(set.validator_reward_map(), abstract_key(v.validator_id), vr)
            &&& can_add(unwithdrawn_validator_rewards, abstract_key((era, v.validator_id)), vr)
        }
        &&& delegator_index < ds.len() ==> {
            let d = ds[delegator_index as int];
            let dr = share_of(reward - commission, d.deposit_amount as int, v.total_stake as int);
            &&& (reward - commission) * (d.deposit_amount / OCT_DECIMALS_VALUE) <= u128::MAX
            &&& !records.record_set().contains((appchain_message_nonce, era, d.delegator_id@, v.validator_id@)) ==> {
                &&& can_add(set.delegator_reward_map(), abstract_key((d.delegator_id, v.validator_id)), dr)
                &&& can_add(unwithdrawn_delegator_rewards, abstract_key((era, d.delegator_id, v.validator_id)), dr)
            }
        }
    }
}

/// What a step of the distribution of the reward of an era finds and the
/// rewards and records after it.
pub struct RewardStep {
    pub result: ResultOfLoopingValidatorSet,
    pub validator_rewards: Map<(int, Seq<Seq<char>>), u128>,
    pub delegator_rewards: Map<(int, Seq<Seq<char>>), u128>,
    pub records: Set<(u32, u64, Seq<char>, Seq<char>)>,
    /// Whether the step records a reward, and so notes its era and nonce.
    pub inserted: bool,
    pub unwithdrawn_validator_rewards: Map<(int, Seq<Seq<char>>), u128>,
    pub unwithdrawn_delegator_rewards: Map<(int, Seq<Seq<char>>), u128>,
}

/// The step of the distribution of the reward `era_reward` of the era of `set`
/// at the delegator `delegator_index` of the validator `validator_index`, for
/// the message `appchain_message_nonce`, from the distributed `records` and
/// the unwithdrawn rewards `uvr` of validators and `udr` of delegators.
pub open spec fn reward_step(
    set: ValidatorSetOfEra,
    records: Set<(u32, u64, Seq<char>, Seq<char>)>,
    uvr: Map<(int, Seq<Seq<char>>), u128>,
    udr: Map<(int, Seq<Seq<char>>), u128>,
    appchain_message_nonce: u32,
    validator_index: u64,
    delegator_index: u64,
    era_reward: u128,
    validator_commission_percent: u128,
) -> RewardStep {
    let v = indexed_validator(&set, validator_index);
    let reward = validator_total_reward(era_reward as int, v.total_stake as int, set.valid_stake() as int);
    let commission = commission_of(reward, validator_commission_percent as int);
    let ds = set.set().delegators_of(v.validator_id@);
    let era = set.set().era_number as int;
    let unchanged = |result: ResultOfLoopingValidatorSet|
        RewardStep {
            result,
            validator_rewards: set.validator_reward_map(),
            delegator_rewards: set.delegator_reward_map(),
            records,
            inserted: false,
            unwithdrawn_validator_rewards: uvr,
            unwithdrawn_delegator_rewards: udr,
        };
    if !(histories_applied(set.status()) && validator_index < set.set().validators.len()) {
        unchanged(ResultOfLoopingValidatorSet::NoMoreValidator)
    } else if listed(set.unprofitable_ids(), v.validator_id@) {
        unchanged(ResultOfLoopingValidatorSet::NoMoreDelegator)
    } else if delegator_index >= ds.len() {
        let vr = validator_reward_of(reward, commission, v);
        RewardStep {
            result: ResultOfLoopingValidatorSet::NoMoreDelegator,
            validator_rewards: added(set.validator_reward_map(), abstract_key(v.validator_id), vr),
            delegator_rewards: set.delegator_reward_map(),
            records: records.insert((appchain_message_nonce, era as u64, Seq::<char>::empty(), v.validator_id@)),
            inserted: true,
            unwithdrawn_validator_rewards: added(uvr, (era, seq![v.validator_id@]), vr),
            unwithdrawn_delegator_rewards: udr,
        }
    } else {
        let d = ds[delegator_index as int];
        let dr = share_of(reward - commission, d.deposit_amount as int, v.total_stake as int);
        if records.contains((appchain_message_nonce, era as u64, d.delegator_id@, v.validator_id@)) {
            unchanged(ResultOfLoopingValidatorSet::NeedToContinue)
        } else {
            RewardStep {
                result: ResultOfLoopingValidatorSet::NeedToContinue,
                validator_rewards: set.validator_reward_map(),
                delegator_rewards: added(set.delegator_reward_map(), (0, seq![d.delegator_id@, v.validator_id@]), dr),
                records: records.insert((appchain_message_nonce, era as u64, d.delegator_id@, v.validator_id@)),
                inserted: true,
                unwithdrawn_validator_rewards: uvr,
                unwithdrawn_delegator_rewards: added(udr, (era, seq![d.delegator_id@, v.validator_id@]), dr),
            }
        }
    }
}

/// One step of the distribution of the reward `era_reward` of an era: hands
/// the validator at `validator_index` its reward, once `delegator_index` is
/// past its delegators, or else the delegator at `delegator_index` its reward,
/// unless it has been distributed already for the message `appchain_message_nonce`.
/// Unprofitable validators get no reward.
pub fn distribute_reward_in_validator_set(
    appchain_message_nonce: u32,
    validator_set: &mut ValidatorSetOfEra,
    records: &mut RewardDistributionRecords,
    unwithdrawn_validator_rewards: &mut BalanceMap<(u64, AccountId)>,
    unwithdrawn_delegator_rewards: &mut BalanceMap<(u64, AccountId, AccountId)>,
    validator_index: u64,
    delegator_index: u64,
    era_reward: u128,
    validator_commission_percent: u128,
) -> (res: ResultOfLoopingValidatorSet)
    requires
        old(validator_set).wf(),
        old(unwithdrawn_validator_rewards).wf(),
        old(unwithdrawn_delegator_rewards).wf(),
        step_computable(
            old(validator_set),
            old(records),
            old(unwithdrawn_validator_rewards).amounts(),
            old(unwithdrawn_delegator_rewards).amounts(),
            appchain_message_nonce,
            validator_index,
            delegator_index,
            era_reward,
            validator_commission_percent,
        ),
    ensures
        final(validator_set).wf(),
        final(unwithdrawn_validator_rewards).wf(),
        final(unwithdrawn_delegator_rewards).wf(),
        final(validator_set).set() == old(validator_set).set(),
        final(validator_set).status() == old(validator_set).status(),
        final(validator_set).history_index() == old(validator_set).history_index(),
        final(validator_set).start_height() == old(validator_set).start_height(),
        final(validator_set).start_time() == old(validator_set).start_time(),
        final(validator_set).unprofitable_ids() == old(validator_set).unprofitable_ids(),
        final(validator_set).valid_stake() == old(validator_set).valid_stake(),
        ({
            let step = reward_step(
                *old(validator_set),
                old(records).record_set(),
                old(unwithdrawn_validator_rewards).amounts(),
                old(unwithdrawn_delegator_rewards).amounts(),
                appchain_message_nonce,
                validator_index,
                delegator_index,
                era_reward,
                validator_commission_percent,
            );
            &&& res == step.result
            &&& final(validator_set).validator_reward_map() == step.validator_rewards
            &&& final(validator_set).delegator_reward_map() == step.delegator_rewards
            &&& final(records).record_set() == step.records
            &&& final(records).eras() == if step.inserted {
                eras_noted(old(records).eras(), old(validator_set).set().era_number)
            } else {
                old(records).eras()
            }
            &&& final(records).nonces_of() == if step.inserted {
                nonces_noted(old(records).nonces_of(), old(validator_set).set().era_number, appchain_message_nonce)
            } else {
                old(records).nonces_of()
            }
            &&& final(unwithdrawn_validator_rewards).amounts() == step.unwithdrawn_validator_rewards
            &&& final(unwithdrawn_delegator_rewards).amounts() == step.unwithdrawn_delegator_rewards
        }),
        res is NoMoreDelegator ==> validator_index < u64::MAX,
        res is NeedToContinue ==> delegator_index < u64::MAX,
{
    if validator_index >= validator_set.validator_count() {
        return ResultOfLoopingValidatorSet::NoMoreValidator;
    }
    let validator = match validator_set.get_validator_by_index(&validator_index) {
        Some(v) => v,
        None => {
            assert(false);
            return ResultOfLoopingValidatorSet::NoMoreValidator;
        },
    };
    let validator_id = validator.validator_id.clone();
    let validator_total_stake = validator.total_stake;
    let validator_deposit = validator.deposit_amount;
    let unprofitable = validator_set.unprofitable_validator_ids();
    if contains_id(&unprofitable, &validator_id) {
        return ResultOfLoopingValidatorSet::NoMoreDelegator;
    }
    let era_number = validator_set.era_number();
    let total_reward = total_reward_of_validator(era_reward, validator_total_stake, validator_set.valid_total_stake());
    let commission = commission_reward(total_reward, validator_commission_percent);
    proof {
        validator_set.lemma_wf();
    }
    if delegator_index >= validator_set.get_delegator_count_of(&validator_id) {
        let share = share_reward(total_reward - commission, validator_deposit, validator_total_stake);
        let validator_reward = commission + share;
        let reward_in_set = match validator_set.get_validator_rewards_of(&validator_id) {
            Some(reward) => reward + validator_reward,
            None => validator_reward,
        };
        validator_set.set_validator_reward(&validator_id, reward_in_set);
        let key = (era_number, validator_id.clone());
        add_amount(unwithdrawn_validator_rewards, &key, validator_reward);
        records.insert(appchain_message_nonce, era_number, &String::new(), &validator_id);
        return ResultOfLoopingValidatorSet::NoMoreDelegator;
    }
    let delegator = match validator_set.get_delegator_by_index(&delegator_index, &validator_id) {
        Some(d) => d,
        None => {
            assert(false);
            return ResultOfLoopingValidatorSet::NeedToContinue;
        },
    };
    let delegator_id = delegator.delegator_id.clone();
    let delegator_deposit = delegator.deposit_amount;
    if !records.contains_record(appchain_message_nonce, era_number, &delegator_id, &validator_id) {
        let delegator_reward = share_reward(total_reward - commission, delegator_deposit, validator_total_stake);
        let reward_in_set = match validator_set.get_delegator_rewards_of(&delegator_id, &validator_id) {
            Some(reward) => reward + delegator_reward,
            None => delegator_reward,
        };
        validator_set.set_delegator_reward(&delegator_id, &validator_id, reward_in_set);
        let key = (era_number, delegator_id.clone(), validator_id.clone());
        add_amount(unwithdrawn_delegator_rewards, &key, delegator_reward);
        records.insert(appchain_message_nonce, era_number, &delegator_id, &validator_id);
    }
    ResultOfLoopingValidatorSet::NeedToContinue
}

} // verus!
