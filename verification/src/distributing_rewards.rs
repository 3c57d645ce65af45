//! The distribution of the reward of an era: the unprofitable validators of
//! the era are named, the reward is handed to the validators and delegators,
//! and the validators that were unprofitable for too long are unbonded, one
//! step per call.
use crate::account_id_in_appchain::{lowercase, prefixed_id, AccountIdInAppchain};
use crate::anchor::AppchainAnchor;
use crate::next_validator_set::{contains_id, copy_ids, listed};
use crate::profiles::{position_of_id_in_appchain, ValidatorProfile};
use crate::rewards::{distribute_reward_in_validator_set, eras_noted, nonces_noted, reward_step, step_computable, ResultOfLoopingValidatorSet};
use crate::switching_era::era_set;
use crate::text::{decimal, decimal_string};
use crate::types::{AccountId, AppchainMessageProcessingResult, MultiTxsOperationProcessingResult, PermissionlessActionsStatus, ValidatorSetProcessingStatus};
use crate::validator_set_of_era::{histories_applied, ids_added, lemma_stake_of_ids_prefix, stake_of_ids, ValidatorSetOfEra};
use vstd::prelude::*;
use vstd::string::StringExecFns;

verus! {

/// The ids in NEAR protocol, each once, of the validators of `set` whose ids
/// in the appchain are `ids` as the profiles `profiles` tell them, or the
/// position of the first id that no profile holds (with `false`) or whose
/// validator is not in `set` (with `true`).
pub open spec fn unprofitable_ids_in_near(profiles: Seq<ValidatorProfile>, set: ValidatorSetOfEra, ids: Seq<String>) -> Result<
    Seq<AccountId>,
    (int, bool),
>
    decreases ids.len(),
{
    if ids.len() == 0 {
        Ok(Seq::empty())
    } else {
        match unprofitable_ids_in_near(profiles, set, ids.drop_last()) {
            Err(e) => Err(e),
            Ok(list) => {
                let p = position_of_id_in_appchain(profiles, lowercase(prefixed_id(ids.last()@)));
                if p < 0 {
                    Err((ids.len() - 1, false))
                } else if !(histories_applied(set.status()) && set.set().contains_validator(profiles[p].validator_id@)) {
                    Err((ids.len() - 1, true))
                } else if listed(list, profiles[p].validator_id@) {
                    Ok(list)
                } else {
                    Ok(list.push(profiles[p].validator_id))
                }
            },
        }
    }
}

/// The message of a distribution that starts while the reward of era `e` is distributed.
pub open spec fn still_distributing_message(e: u64) -> Seq<char> {
    "Contract is still distributing reward for era "@ + decimal(e as nat) + "."@
}

/// The message for an id in the appchain `id` that names no validator.
pub open spec fn invalid_id_message(id: Seq<char>) -> Seq<char> {
    "Invalid validator id in appchain: '"@ + id + "'"@
}

/// The message for an id in the appchain `id` whose validator is not in era `era_number`.
pub open spec fn not_in_era_message(id: Seq<char>, era_number: u64) -> Seq<char> {
    "Validator id in appchain '"@ + id + "' is not a valid validator in era '"@ + decimal(era_number as nat) + "'."@
}

/// Whether `res` is the error for the message `nonce` with the text `text`.
pub open spec fn is_error(res: AppchainMessageProcessingResult, nonce: u32, text: Seq<char>) -> bool {
    res matches AppchainMessageProcessingResult::Error { nonce: n, message: m } && n == nonce && m@ == text
}

/// Whether the unprofitable validators of `set`, with those of `list` added,
/// are all in `set` and hold together no more than its total stake.
pub open spec fn unprofitable_fits(set: ValidatorSetOfEra, list: Seq<AccountId>) -> bool {
    &&& forall|i: int| 0 <= i < set.unprofitable_ids().len() ==> set.set().contains_validator(
        #[trigger] set.unprofitable_ids()[i]@,
    )
    &&& stake_of_ids(set.set(), ids_added(set.unprofitable_ids(), list)) <= set.set().total_stake
}

/// The message of a distribution whose unprofitable validators hold more
/// than the total stake of the era.
pub open spec fn stake_exceeded_message() -> Seq<char> {
    "Unprofitable validators hold more than the total stake."@
}

/// Whether the unprofitable validators of `set`, with those of `list` added,
/// are all in `set` and hold together no more than its total stake.
fn unprofitable_stake_check(set: &ValidatorSetOfEra, list: &Vec<AccountId>) -> (res: bool)
    requires
        set.wf(),
        histories_applied(set.status()),
        forall|i: int| 0 <= i < list@.len() ==> set.set().contains_validator(#[trigger] list@[i]@),
    ensures
        res == unprofitable_fits(*set, list@),
{
    let base = set.unprofitable_validator_ids();
    let mut i: usize = 0;
    while i < base.len()
        invariant
            set.wf(),
            histories_applied(set.status()),
            base@ == set.unprofitable_ids(),
            i <= base@.len(),
            forall|k: int| 0 <= k < i ==> set.set().contains_validator(#[trigger] base@[k]@),
        decreases base@.len() - i,
    {
        if set.get_validator(&base[i]).is_none() {
            return false;
        }
        i = i + 1;
    }
    let mut all = copy_ids(&base);
    let mut j: usize = 0;
    while j < list.len()
        invariant
            j <= list@.len(),
            all@ == ids_added(base@, list@.take(j as int)),
            base@ == set.unprofitable_ids(),
            forall|x: int| 0 <= x < base@.len() ==> set.set().contains_validator(#[trigger] base@[x]@),
        decreases list@.len() - j,
    {
        let ghost taken = list@.take(j + 1);
        assert(taken.drop_last() =~= list@.take(j as int));
        if !contains_id(&all, &list[j]) {
            all.push(list[j].clone());
        }
        j = j + 1;
    }
    assert(list@.take(list@.len() as int) =~= list@);
    proof {
        lemma_ids_added_in_set(*set, base@, list@);
    }
    let ghost m = set.set();
    let total = set.total_stake();
    let mut sum: u128 = 0;
    let mut k: usize = 0;
    while k < all.len()
        invariant
            set.wf(),
            histories_applied(set.status()),
            m == set.set(),
            total == m.total_stake,
            k <= all@.len(),
            all@ == ids_added(set.unprofitable_ids(), list@),
            forall|x: int| 0 <= x < set.unprofitable_ids().len() ==> m.contains_validator(
                #[trigger] set.unprofitable_ids()[x]@,
            ),
            forall|x: int| 0 <= x < all@.len() ==> m.contains_validator(#[trigger] all@[x]@),
            sum == stake_of_ids(m, all@.take(k as int)),
            sum <= total,
        decreases all@.len() - k,
    {
        assert(all@.take(k + 1).drop_last() =~= all@.take(k as int));
        proof {
            lemma_stake_of_ids_prefix(m, all@, k + 1);
        }
        assert(all@.take(k + 1).last() == all@[k as int]);
        match set.get_validator(&all[k]) {
            Some(v) => {
                if v.total_stake > total - sum {
                    assert(stake_of_ids(m, all@.take(k + 1)) == sum + v.total_stake);
                    assert(stake_of_ids(m, all@) > m.total_stake);
                    return false;
                }
                sum = sum + v.total_stake;
            },
            None => {
                assert(false);
            },
        }
        k = k + 1;
    }
    assert(all@.take(all@.len() as int) =~= all@);
    true
}

proof fn lemma_ids_added_in_set(set: ValidatorSetOfEra, base: Seq<AccountId>, list: Seq<AccountId>)
    requires
        forall|i: int| 0 <= i < base.len() ==> set.set().contains_validator(#[trigger] base[i]@),
        forall|i: int| 0 <= i < list.len() ==> set.set().contains_validator(#[trigger] list[i]@),
    ensures
        forall|i: int| 0 <= i < ids_added(base, list).len() ==> set.set().contains_validator(
            #[trigger] ids_added(base, list)[i]@,
        ),
    decreases list.len(),
{
    if list.len() > 0 {
        lemma_ids_added_in_set(set, base, list.drop_last());
        let prev = ids_added(base, list.drop_last());
        assert(list.drop_last().len() == list.len() - 1);
        assert forall|i: int| 0 <= i < ids_added(base, list).len() implies set.set().contains_validator(
            #[trigger] ids_added(base, list)[i]@,
        ) by {
            if i < prev.len() {
                assert(ids_added(base, list)[i] == prev[i]);
            } else {
                assert(list[list.len() - 1] == list.last());
            }
        }
    }
}

/// Whether starting the distribution of the reward of era `era_number` for
/// the message `nonce`, with the validators whose ids in the appchain are
/// `ids` earning no reward, gave `res` and turned `before` into `after`.
pub open spec fn distribution_started(
    before: AppchainAnchor,
    after: AppchainAnchor,
    nonce: u32,
    era_number: u64,
    ids: Seq<String>,
    res: AppchainMessageProcessingResult,
) -> bool {
    match before.permissionless_actions_status.distributing_reward_era_number {
        Some(e) => is_error(res, nonce, still_distributing_message(e)) && after == before,
        None => if !before.validator_set_histories.records().contains_key(era_number) {
            is_error(res, nonce, "Validator set is not existed."@) && after == before
        } else if !(era_set(before, era_number).status() is ReadyForDistributingReward || era_set(
            before,
            era_number,
        ).status() is Completed) {
            is_error(res, nonce, "Validator set is not ready for distributing reward."@)
                && after == before
        } else {
            let set = era_set(before, era_number);
            match unprofitable_ids_in_near(before.validator_profiles.entries(), set, ids) {
                Err((i, false)) => is_error(res, nonce, invalid_id_message(ids[i]@))
                    && after == before,
                Err((i, true)) => is_error(
                    res,
                    nonce,
                    not_in_era_message(ids[i]@, era_number),
                ) && after == before,
                Ok(list) => if !unprofitable_fits(set, list) {
                    is_error(res, nonce, stake_exceeded_message()) && after == before
                } else {
                    let all = ids_added(set.unprofitable_ids(), list);
                    let new_set = era_set(after, era_number);
                    &&& res == (AppchainMessageProcessingResult::Processed { nonce, message: None })
                    &&& after.validator_set_histories.records() == before.validator_set_histories.records().insert(
                        era_number,
                        new_set,
                    )
                    &&& after.validator_set_histories.start() == before.validator_set_histories.start()
                    &&& after.validator_set_histories.end() == if era_number
                        > before.validator_set_histories.end() {
                        era_number
                    } else {
                        before.validator_set_histories.end()
                    }
                    &&& new_set.wf()
                    &&& new_set.set() == set.set()
                    &&& new_set.unprofitable_ids() == all
                    &&& new_set.valid_stake() == set.set().total_stake - stake_of_ids(set.set(), all)
                    &&& new_set.status() == (ValidatorSetProcessingStatus::DistributingReward {
                        appchain_message_nonce: nonce,
                        distributing_validator_index: 0,
                        distributing_delegator_index: 0,
                    })
                    &&& new_set.history_index() == set.history_index()
                    &&& new_set.start_height() == set.start_height()
                    &&& new_set.start_time() == set.start_time()
                    &&& new_set.validator_reward_map() == set.validator_reward_map()
                    &&& new_set.delegator_reward_map() == set.delegator_reward_map()
                    &&& after == (AppchainAnchor {
                        validator_set_histories: after.validator_set_histories,
                        permissionless_actions_status: crate::types::PermissionlessActionsStatus {
                            distributing_reward_era_number: Some(era_number),
                            ..before.permissionless_actions_status
                        },
                        ..before
                    })
                },
            }
        },
    }
}

impl AppchainAnchor {
    /// Starts the distribution of the reward of era `era_number` for the
    /// message `appchain_message_nonce`, with the validators whose ids in the
    /// appchain are `unprofitable_validator_ids` earning no reward. Refused
    /// (with an error for the message, and nothing changed) while the reward
    /// of an era is being distributed, where the set of the era does not
    /// exist or is not ready, where an id names no validator of the set, and
    /// where the unprofitable validators would hold more than the total stake.
    pub fn internal_start_distributing_reward_of_era(
        &mut self,
        appchain_message_nonce: u32,
        era_number: u64,
        unprofitable_validator_ids: Vec<String>,
    ) -> (res: AppchainMessageProcessingResult)
        requires
            old(self).wf(),
        ensures
            final(self).wf(),
            distribution_started(
                *old(self),
                *final(self),
                appchain_message_nonce,
                era_number,
                unprofitable_validator_ids@,
                res,
            ),
    {
        if let Some(e) = self.permissionless_actions_status.distributing_reward_era_number {
            let mut message = String::new();
            message.append("Contract is still distributing reward for era ");
            message.append(decimal_string(e as u128).as_str());
            message.append(".");
            return AppchainMessageProcessingResult::Error { nonce: appchain_message_nonce, message };
        }
        if !self.validator_set_histories.contains(&era_number) {
            let mut message = String::new();
            message.append("Validator set is not existed.");
            return AppchainMessageProcessingResult::Error { nonce: appchain_message_nonce, message };
        }
        let ghost set_spec = era_set(*self, era_number);
        let mut list: Vec<AccountId> = Vec::new();
        {
            let validator_set = match self.validator_set_histories.get(&era_number) {
                Some(s) => s,
                None => {
                    assert(false);
                    return AppchainMessageProcessingResult::Processed { nonce: appchain_message_nonce, message: None };
                },
            };
            if !validator_set.processing_status().can_distribute_reward() {
                let mut message = String::new();
                message.append("Validator set is not ready for distributing reward.");
                return AppchainMessageProcessingResult::Error { nonce: appchain_message_nonce, message };
            }
            let mut i: usize = 0;
            while i < unprofitable_validator_ids.len()
                invariant
                    i <= unprofitable_validator_ids@.len(),
                    *self == *old(self),
                    old(self).wf(),
                    old(self).permissionless_actions_status.distributing_reward_era_number is None,
                    old(self).validator_set_histories.records().contains_key(era_number),
                    set_spec == era_set(*old(self), era_number),
                    set_spec.status() is ReadyForDistributingReward || set_spec.status() is Completed,
                    *validator_set == set_spec,
                    validator_set.wf(),
                    unprofitable_ids_in_near(
                        self.validator_profiles.entries(),
                        set_spec,
                        unprofitable_validator_ids@.take(i as int),
                    ) == Ok::<Seq<AccountId>, (int, bool)>(list@),
                decreases unprofitable_validator_ids@.len() - i,
            {
                let ghost prefix = unprofitable_validator_ids@.take(i + 1);
                assert(prefix.drop_last() =~= unprofitable_validator_ids@.take(i as int));
                let id_in_appchain = unprofitable_validator_ids[i].clone();
                let formatted = AccountIdInAppchain::new(Some(id_in_appchain), &self.appchain_template_type);
                let raw = formatted.to_string();
                match self.validator_profiles.get_by_id_in_appchain(&raw) {
                    Some(profile) => {
                        if validator_set.contains_validator(&profile.validator_id) {
                            if !contains_id(&list, &profile.validator_id) {
                                list.push(profile.validator_id.clone());
                            }
                        } else {
                            let mut message = String::new();
                            message.append("Validator id in appchain '");
                            message.append(unprofitable_validator_ids[i].as_str());
                            message.append("' is not a valid validator in era '");
                            message.append(decimal_string(era_number as u128).as_str());
                            message.append("'.");
                            proof {
                                lemma_lookup_stops(
                                    self.validator_profiles.entries(),
                                    set_spec,
                                    unprofitable_validator_ids@,
                                    i as int,
                                );
                            }
                            return AppchainMessageProcessingResult::Error { nonce: appchain_message_nonce, message };
                        }
                    },
                    None => {
                        let mut message = String::new();
                        message.append("Invalid validator id in appchain: '");
                        message.append(unprofitable_validator_ids[i].as_str());
                        message.append("'");
                        proof {
                            lemma_lookup_stops(
                                self.validator_profiles.entries(),
                                set_spec,
                                unprofitable_validator_ids@,
                                i as int,
                            );
                        }
                        return AppchainMessageProcessingResult::Error { nonce: appchain_message_nonce, message };
                    },
                }
                i = i + 1;
            }
            assert(unprofitable_validator_ids@.take(i as int) =~= unprofitable_validator_ids@);
            proof {
                lemma_lookup_in_set(self.validator_profiles.entries(), set_spec, unprofitable_validator_ids@, list@);
            }
            if !unprofitable_stake_check(validator_set, &list) {
                let mut message = String::new();
                message.append("Unprofitable validators hold more than the total stake.");
                return AppchainMessageProcessingResult::Error { nonce: appchain_message_nonce, message };
            }
        }
        let mut validator_set = match self.validator_set_histories.take(&era_number) {
            Some(s) => s,
            None => {
                assert(false);
                return AppchainMessageProcessingResult::Processed { nonce: appchain_message_nonce, message: None };
            },
        };
        proof {
            lemma_lookup_in_set(self.validator_profiles.entries(), set_spec, unprofitable_validator_ids@, list@);
            lemma_ids_added_in_set(set_spec, set_spec.unprofitable_ids(), list@);
        }
        validator_set.set_unprofitable_validator_ids(list);
        validator_set.calculate_valid_total_stake();
        validator_set.set_processing_status(
            ValidatorSetProcessingStatus::DistributingReward {
                appchain_message_nonce,
                distributing_validator_index: 0,
                distributing_delegator_index: 0,
            },
        );
        self.validator_set_histories.insert(&era_number, validator_set);
        proof {
            assert(self.validator_set_histories.records() =~= old(self).validator_set_histories.records().insert(
                era_number,
                era_set(*self, era_number),
            ));
        }
        self.permissionless_actions_status.distributing_reward_era_number = Some(era_number);
        AppchainMessageProcessingResult::Processed { nonce: appchain_message_nonce, message: None }
    }
}

/// Where the lookup of `ids[..n]` succeeds and that of `ids[..n + 1]`
/// fails, the lookup of `ids` fails at `n`.
proof fn lemma_lookup_stops(profiles: Seq<ValidatorProfile>, set: ValidatorSetOfEra, ids: Seq<String>, n: int)
    requires
        0 <= n < ids.len(),
        unprofitable_ids_in_near(profiles, set, ids.take(n + 1)) is Err,
    ensures
        unprofitable_ids_in_near(profiles, set, ids) == unprofitable_ids_in_near(profiles, set, ids.take(n + 1)),
    decreases ids.len(),
{
    if n + 1 < ids.len() {
        assert(ids.drop_last().take(n + 1) =~= ids.take(n + 1));
        lemma_lookup_stops(profiles, set, ids.drop_last(), n);
    } else {
        assert(ids.take(n + 1) =~= ids);
    }
}

/// The validators that a successful lookup names are in the set.
proof fn lemma_lookup_in_set(profiles: Seq<ValidatorProfile>, set: ValidatorSetOfEra, ids: Seq<String>, list: Seq<AccountId>)
    requires
        unprofitable_ids_in_near(profiles, set, ids) == Ok::<Seq<AccountId>, (int, bool)>(list),
    ensures
        forall|i: int| 0 <= i < list.len() ==> set.set().contains_validator(#[trigger] list[i]@),
    decreases ids.len(),
{
    if ids.len() > 0 {
        if let Ok(prev) = unprofitable_ids_in_near(profiles, set, ids.drop_last()) {
            lemma_lookup_in_set(profiles, set, ids.drop_last(), prev);
            assert forall|i: int| 0 <= i < list.len() implies set.set().contains_validator(#[trigger] list[i]@) by {
                if i < prev.len() {
                    assert(list[i] == prev[i]);
                }
            }
        }
    }
}

/// Whether the validator `id` is unprofitable in each of the eras from
/// `start` to before `end` whose set is in `records`.
pub open spec fn unprofitable_in_eras(records: Map<u64, ValidatorSetOfEra>, id: Seq<char>, start: int, end: int) -> bool {
    forall|k: u64| start <= k < end && #[trigger] records.contains_key(k) ==> listed(records[k].unprofitable_ids(), id)
}

/// The first era that the check of the unprofitable validators of era
/// `era_number` looks at, where `count` eras of being unprofitable are allowed.
pub open spec fn first_checked_era(era_number: u64, count: u16) -> int {
    if era_number >= count {
        era_number - count + 1
    } else {
        0
    }
}

/// Whether `after` keeps everything of `before` but the sets of eras
/// and, where given, the parts that the distribution of rewards changes.
pub open spec fn distributing_frame(before: AppchainAnchor, after: AppchainAnchor) -> bool {
    after == AppchainAnchor {
        validator_set_histories: after.validator_set_histories,
        next_validator_set: after.next_validator_set,
        reward_distribution_records: after.reward_distribution_records,
        unwithdrawn_validator_rewards: after.unwithdrawn_validator_rewards,
        unwithdrawn_delegator_rewards: after.unwithdrawn_delegator_rewards,
        ..before
    }
}

/// Whether the set of era `era_number` of `after` replaces that of `before`
/// with the same validators, delegators, staking history index, start,
/// unprofitable validators and valid stake, in the status `status`.
pub open spec fn era_status_moved(before: AppchainAnchor, after: AppchainAnchor, era_number: u64, status: ValidatorSetProcessingStatus) -> bool {
    let old_set = era_set(before, era_number);
    let new_set = era_set(after, era_number);
    &&& after.validator_set_histories.records() == before.validator_set_histories.records().insert(era_number, new_set)
    &&& after.validator_set_histories.start() == before.validator_set_histories.start()
    &&& after.validator_set_histories.end() == if era_number > before.validator_set_histories.end() {
        era_number
    } else {
        before.validator_set_histories.end()
    }
    &&& new_set.wf()
    &&& new_set.set() == old_set.set()
    &&& new_set.status() == status
    &&& new_set.history_index() == old_set.history_index()
    &&& new_set.start_height() == old_set.start_height()
    &&& new_set.start_time() == old_set.start_time()
    &&& new_set.unprofitable_ids() == old_set.unprofitable_ids()
    &&& new_set.valid_stake() == old_set.valid_stake()
}

/// Whether a step of the distribution of the reward of era `era_number` can
/// be taken in `a` without failing.
pub open spec fn distributing_step_allowed(a: AppchainAnchor, era_number: u64) -> bool {
    let s = era_set(a, era_number);
    match s.status() {
        ValidatorSetProcessingStatus::DistributingReward {
            appchain_message_nonce: nonce,
            distributing_validator_index: vi,
            distributing_delegator_index: di,
        } => step_computable(
            &s,
            &a.reward_distribution_records,
            a.unwithdrawn_validator_rewards.amounts(),
            a.unwithdrawn_delegator_rewards.amounts(),
            nonce,
            vi,
            di,
            a.appchain_settings.era_reward,
            a.protocol_settings.validator_commission_percent as u128,
        ),
        ValidatorSetProcessingStatus::CheckingForAutoUnbondingValidator { .. } => a.protocol_settings.maximum_allowed_unprofitable_era_count
            == 0 ==> era_number < u64::MAX,
        _ => true,
    }
}

/// A step of the distribution of the reward of era `era_number`.
pub open spec fn distributing_stepped(before: AppchainAnchor, after: AppchainAnchor, era_number: u64, res: bool) -> bool {
    let s = era_set(before, era_number);
    let unchanged_parts = {
        &&& after.next_validator_set == before.next_validator_set
        &&& after.reward_distribution_records == before.reward_distribution_records
        &&& after.unwithdrawn_validator_rewards == before.unwithdrawn_validator_rewards
        &&& after.unwithdrawn_delegator_rewards == before.unwithdrawn_delegator_rewards
    };
    &&& distributing_frame(before, after)
    &&& match s.status() {
        ValidatorSetProcessingStatus::DistributingReward {
            appchain_message_nonce: nonce,
            distributing_validator_index: vi,
            distributing_delegator_index: di,
        } => {
            let step = reward_step(
                s,
                before.reward_distribution_records.record_set(),
                before.unwithdrawn_validator_rewards.amounts(),
                before.unwithdrawn_delegator_rewards.amounts(),
                nonce,
                vi,
                di,
                before.appchain_settings.era_reward,
                before.protocol_settings.validator_commission_percent as u128,
            );
            let status = match step.result {
                ResultOfLoopingValidatorSet::NoMoreDelegator => ValidatorSetProcessingStatus::DistributingReward {
                    appchain_message_nonce: nonce,
                    distributing_validator_index: (vi + 1) as u64,
                    distributing_delegator_index: 0,
                },
                ResultOfLoopingValidatorSet::NoMoreValidator => ValidatorSetProcessingStatus::CheckingForAutoUnbondingValidator {
                    unprofitable_validator_index: 0,
                },
                ResultOfLoopingValidatorSet::NeedToContinue => ValidatorSetProcessingStatus::DistributingReward {
                    appchain_message_nonce: nonce,
                    distributing_validator_index: vi,
                    distributing_delegator_index: (di + 1) as u64,
                },
            };
            &&& !res
            &&& era_status_moved(before, after, era_number, status)
            &&& era_set(after, era_number).validator_reward_map() == step.validator_rewards
            &&& era_set(after, era_number).delegator_reward_map() == step.delegator_rewards
            &&& after.reward_distribution_records.record_set() == step.records
            &&& after.reward_distribution_records.eras() == if step.inserted {
                eras_noted(before.reward_distribution_records.eras(), s.set().era_number)
            } else {
                before.reward_distribution_records.eras()
            }
            &&& after.reward_distribution_records.nonces_of() == if step.inserted {
                nonces_noted(before.reward_distribution_records.nonces_of(), s.set().era_number, nonce)
            } else {
                before.reward_distribution_records.nonces_of()
            }
            &&& after.unwithdrawn_validator_rewards.amounts() == step.unwithdrawn_validator_rewards
            &&& after.unwithdrawn_delegator_rewards.amounts() == step.unwithdrawn_delegator_rewards
            &&& after.next_validator_set == before.next_validator_set
        },
        ValidatorSetProcessingStatus::CheckingForAutoUnbondingValidator { unprofitable_validator_index: ui } => {
            let ids = s.unprofitable_ids();
            &&& !res
            &&& after.reward_distribution_records == before.reward_distribution_records
            &&& after.unwithdrawn_validator_rewards == before.unwithdrawn_validator_rewards
            &&& after.unwithdrawn_delegator_rewards == before.unwithdrawn_delegator_rewards
            &&& era_set(after, era_number).validator_reward_map() == s.validator_reward_map()
            &&& era_set(after, era_number).delegator_reward_map() == s.delegator_reward_map()
            &&& if ui >= ids.len() {
                &&& era_status_moved(before, after, era_number, ValidatorSetProcessingStatus::Completed)
                &&& after.next_validator_set == before.next_validator_set
            } else {
                let id = ids[ui as int];
                let unbonded = before.next_validator_set.stays(id@) && unprofitable_in_eras(
                    before.validator_set_histories.records(),
                    id@,
                    first_checked_era(era_number, before.protocol_settings.maximum_allowed_unprofitable_era_count),
                    era_number as int,
                );
                &&& era_status_moved(
                    before,
                    after,
                    era_number,
                    ValidatorSetProcessingStatus::CheckingForAutoUnbondingValidator {
                        unprofitable_validator_index: (ui + 1) as u64,
                    },
                )
                &&& if unbonded {
                    &&& after.next_validator_set.set() == before.next_validator_set.set()
                    &&& after.next_validator_set.unbonding_ids() == before.next_validator_set.unbonding_ids()
                    &&& after.next_validator_set.auto_unbonding_ids() == if listed(
                        before.next_validator_set.auto_unbonding_ids(),
                        id@,
                    ) {
                        before.next_validator_set.auto_unbonding_ids()
                    } else {
                        before.next_validator_set.auto_unbonding_ids().push(id)
                    }
                } else {
                    after.next_validator_set == before.next_validator_set
                }
            }
        },
        ValidatorSetProcessingStatus::Completed => res && after == before,
        _ => !res && after == before,
    }
}

impl AppchainAnchor {
    fn rewarding_phase_step(&mut self, era_number: u64, nonce: u32, vi: u64, di: u64) -> (res: bool)
        requires
            old(self).wf(),
            old(self).validator_set_histories.records().contains_key(era_number),
            era_set(*old(self), era_number).status() == (ValidatorSetProcessingStatus::DistributingReward {
                appchain_message_nonce: nonce,
                distributing_validator_index: vi,
                distributing_delegator_index: di,
            }),
            distributing_step_allowed(*old(self), era_number),
        ensures
            final(self).wf(),
            distributing_stepped(*old(self), *final(self), era_number, res),
    {
        let mut validator_set = match self.validator_set_histories.take(&era_number) {
            Some(v) => v,
            None => {
                assert(false);
                return false;
            },
        };
        let commission = self.protocol_settings.validator_commission_percent as u128;
        let era_reward = self.appchain_settings.era_reward;
        let r = distribute_reward_in_validator_set(
            nonce,
            &mut validator_set,
            &mut self.reward_distribution_records,
            &mut self.unwithdrawn_validator_rewards,
            &mut self.unwithdrawn_delegator_rewards,
            vi,
            di,
            era_reward,
            commission,
        );
        let status = match r {
            ResultOfLoopingValidatorSet::NoMoreDelegator => ValidatorSetProcessingStatus::DistributingReward {
                appchain_message_nonce: nonce,
                distributing_validator_index: vi + 1,
                distributing_delegator_index: 0,
            },
            ResultOfLoopingValidatorSet::NoMoreValidator => ValidatorSetProcessingStatus::CheckingForAutoUnbondingValidator {
                unprofitable_validator_index: 0,
            },
            ResultOfLoopingValidatorSet::NeedToContinue => ValidatorSetProcessingStatus::DistributingReward {
                appchain_message_nonce: nonce,
                distributing_validator_index: vi,
                distributing_delegator_index: di + 1,
            },
        };
        validator_set.set_processing_status(status);
        self.validator_set_histories.insert(&era_number, validator_set);
        proof {
            assert(self.validator_set_histories.records() =~= old(self).validator_set_histories.records().insert(
                era_number,
                era_set(*self, era_number),
            ));
        }
        false
    }

    fn checking_phase_step(&mut self, era_number: u64, ui: u64) -> (res: bool)
        requires
            old(self).wf(),
            old(self).validator_set_histories.records().contains_key(era_number),
            era_set(*old(self), era_number).status() == (ValidatorSetProcessingStatus::CheckingForAutoUnbondingValidator {
                unprofitable_validator_index: ui,
            }),
            distributing_step_allowed(*old(self), era_number),
        ensures
            final(self).wf(),
            distributing_stepped(*old(self), *final(self), era_number, res),
    {
        let mut validator_set = match self.validator_set_histories.take(&era_number) {
            Some(v) => v,
            None => {
                assert(false);
                return false;
            },
        };
        let ids = validator_set.unprofitable_validator_ids();
        if ui >= ids.len() as u64 {
            validator_set.set_processing_status(ValidatorSetProcessingStatus::Completed);
            self.validator_set_histories.insert(&era_number, validator_set);
            proof {
                assert(self.validator_set_histories.records() =~= old(self).validator_set_histories.records().insert(
                    era_number,
                    era_set(*self, era_number),
                ));
            }
            return false;
        }
        let validator_id = &ids[ui as usize];
        if self.next_validator_set.contains_validator(validator_id) {
            let count = self.protocol_settings.maximum_allowed_unprofitable_era_count as u64;
            let start: u64 = if count == 0 {
                era_number + 1
            } else if era_number >= count {
                era_number - (count - 1)
            } else {
                0
            };
            let mut should_be_unbonded = true;
            let mut index = start;
            while index < era_number
                invariant
                    start <= index,
                    start <= era_number ==> index <= era_number,
                    start > era_number ==> index == start,
                    self.validator_set_histories.records() == old(self).validator_set_histories.records().remove(era_number),
                    should_be_unbonded == unprofitable_in_eras(
                        old(self).validator_set_histories.records(),
                        validator_id@,
                        start as int,
                        index as int,
                    ),
                decreases era_number - index,
            {
                let ghost r = old(self).validator_set_histories.records();
                let ghost before_should = should_be_unbonded;
                if let Some(set_of_era) = self.validator_set_histories.get(&index) {
                    if !contains_id(&set_of_era.unprofitable_validator_ids(), validator_id) {
                        should_be_unbonded = false;
                    }
                }
                proof {
                    assert(index != era_number);
                    let next_ok = r.contains_key(index) ==> listed(r[index].unprofitable_ids(), validator_id@);
                    assert(should_be_unbonded == (before_should && next_ok));
                    if before_should && next_ok {
                        assert forall|k: u64| start <= k < index + 1 && #[trigger] r.contains_key(k) implies listed(
                            r[k].unprofitable_ids(),
                            validator_id@,
                        ) by {
                            if k < index {
                                assert(start <= k < index && r.contains_key(k));
                            }
                        }
                    }
                    if !next_ok {
                        assert(start <= index < index + 1 && r.contains_key(index));
                    }
                }
                index = index + 1;
            }
            if should_be_unbonded {
                self.next_validator_set.add_auto_unbonding_validator(validator_id);
            }
        }
        validator_set.set_processing_status(
            ValidatorSetProcessingStatus::CheckingForAutoUnbondingValidator { unprofitable_validator_index: ui + 1 },
        );
        self.validator_set_histories.insert(&era_number, validator_set);
        proof {
            assert(self.validator_set_histories.records() =~= old(self).validator_set_histories.records().insert(
                era_number,
                era_set(*self, era_number),
            ));
        }
        false
    }

    /// Takes one step of the distribution of the reward of era `era_number`
    /// and tells whether the distribution is completed. The reward is handed
    /// to the validators and delegators of the set, and then the validators
    /// that were unprofitable in each of the last eras that the protocol
    /// allows (the validators that stay in the next set) are listed to be
    /// unbonded by the anchor. A set in any other status is left as it is.
    pub fn complete_distributing_reward_of_era(&mut self, era_number: u64) -> (res: bool)
        requires
            old(self).wf(),
            old(self).validator_set_histories.records().contains_key(era_number),
            distributing_step_allowed(*old(self), era_number),
        ensures
            final(self).wf(),
            distributing_stepped(*old(self), *final(self), era_number, res),
    {
        let status = match self.validator_set_histories.get(&era_number) {
            Some(s) => s.processing_status(),
            None => {
                assert(false);
                return false;
            },
        };
        match status {
            ValidatorSetProcessingStatus::DistributingReward {
                appchain_message_nonce,
                distributing_validator_index,
                distributing_delegator_index,
            } => self.rewarding_phase_step(era_number, appchain_message_nonce, distributing_validator_index, distributing_delegator_index),
            ValidatorSetProcessingStatus::CheckingForAutoUnbondingValidator { unprofitable_validator_index } => {
                self.checking_phase_step(era_number, unprofitable_validator_index)
            },
            ValidatorSetProcessingStatus::Completed => true,
            _ => false,
        }
    }
}


/// A validator is put among those the anchor unbonds only after a run of
/// unprofitable eras: where a step of the distribution of the reward of era
/// `era_number` lists `id` among the validators that the anchor unbonds,
/// which it did not before, `id` is unprofitable in every era `k` with a
/// set held whose distance to `era_number` is below the allowed count of
/// unprofitable eras (`k < era_number < k + count`), and it stayed in the
/// next set.
pub proof fn lemma_auto_unbonding_follows_unprofitable_eras(
    before: AppchainAnchor,
    after: AppchainAnchor,
    era_number: u64,
    res: bool,
    id: Seq<char>,
)
    requires
        distributing_stepped(before, after, era_number, res),
        !listed(before.next_validator_set.auto_unbonding_ids(), id),
        listed(after.next_validator_set.auto_unbonding_ids(), id),
    ensures
        before.next_validator_set.stays(id),
        forall|k: u64|
            k < era_number && era_number < k + before.protocol_settings.maximum_allowed_unprofitable_era_count
                && #[trigger] before.validator_set_histories.records().contains_key(k) ==> listed(
                before.validator_set_histories.records()[k].unprofitable_ids(),
                id,
            ),
{
    let s = era_set(before, era_number);
    let count = before.protocol_settings.maximum_allowed_unprofitable_era_count;
    match s.status() {
        ValidatorSetProcessingStatus::CheckingForAutoUnbondingValidator { unprofitable_validator_index: ui } => {
            let ids = s.unprofitable_ids();
            if ui < ids.len() {
                let v = ids[ui as int];
                let auto = before.next_validator_set.auto_unbonding_ids();
                if after.next_validator_set.auto_unbonding_ids() == auto.push(v) {
                    let k0 = choose|k: int|
                        0 <= k < auto.push(v).len() && (#[trigger] auto.push(v)[k])@ == id;
                    if k0 < auto.len() {
                        assert(auto[k0] == auto.push(v)[k0]);
                        assert(false);
                    }
                    assert(v@ == id);
                    assert forall|k: u64|
                        k < era_number && era_number < k + count && #[trigger] before.validator_set_histories.records().contains_key(
                            k,
                        ) implies listed(before.validator_set_histories.records()[k].unprofitable_ids(), id) by {
                        assert(first_checked_era(era_number, count) <= k);
                    }
                }
            }
        },
        _ => {},
    }
}


/// A validator that is unprofitable in the era being checked and in every
/// earlier era within the allowed count of unprofitable eras is put among
/// those the anchor unbonds: where the check of the reward of era
/// `era_number` reaches the unprofitable validator `id`, which stays in the
/// next set and is unprofitable in every era `k` with a set held and
/// `k < era_number < k + count`, the step lists it among the validators that
/// the anchor unbonds.
pub proof fn lemma_unprofitable_run_leads_to_auto_unbonding(
    before: AppchainAnchor,
    after: AppchainAnchor,
    era_number: u64,
    res: bool,
    ui: u64,
)
    requires
        distributing_stepped(before, after, era_number, res),
        era_set(before, era_number).status() == (ValidatorSetProcessingStatus::CheckingForAutoUnbondingValidator {
            unprofitable_validator_index: ui,
        }),
        ui < era_set(before, era_number).unprofitable_ids().len(),
        before.next_validator_set.stays(era_set(before, era_number).unprofitable_ids()[ui as int]@),
        forall|k: u64|
            k < era_number && era_number < k + before.protocol_settings.maximum_allowed_unprofitable_era_count
                && #[trigger] before.validator_set_histories.records().contains_key(k) ==> listed(
                before.validator_set_histories.records()[k].unprofitable_ids(),
                era_set(before, era_number).unprofitable_ids()[ui as int]@,
            ),
    ensures
        listed(after.next_validator_set.auto_unbonding_ids(), era_set(before, era_number).unprofitable_ids()[ui as int]@),
{
    let s = era_set(before, era_number);
    let id = s.unprofitable_ids()[ui as int];
    let count = before.protocol_settings.maximum_allowed_unprofitable_era_count;
    assert forall|k: u64|
        first_checked_era(era_number, count) <= k < era_number && #[trigger] before.validator_set_histories.records().contains_key(
            k,
        ) implies listed(before.validator_set_histories.records()[k].unprofitable_ids(), id@) by {
        assert(era_number < k + count);
    }
    let auto = before.next_validator_set.auto_unbonding_ids();
    if !listed(auto, id@) {
        assert(auto.push(id)[auto.len() as int] == id);
    }
}

} // verus!
