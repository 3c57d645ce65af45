//! The owner's clean-up of an anchor on the test network of NEAR protocol:
//! each request is refused unless the anchor's own account is a testnet
//! account and the caller is the owner.
use crate::account_id_in_appchain::{is_valid_raw_id, lowercase, prefixed_id, AccountIdInAppchain};
use crate::anchor::AppchainAnchor;
use crate::errors::AnchorError;
use crate::fungible_tokens::NearFungibleToken;
use crate::nfts::InternalWrappedAppchainNFT;
use crate::profiles::ValidatorProfile;
use crate::switching_era::{era_set, unbonded_account};
use crate::types::{AccountId, MultiTxsOperationProcessingResult, StakingFact, StakingHistory};
use crate::unbonded_stakes::UnbondedStakeReference;
use crate::rewards::records_cleared;
use crate::validator_set_of_era::{delegator_rewards_cleared, histories_applied, validator_rewards_cleared, ValidatorSetOfEra};
use crate::validator_set::{lemma_validator_index, validator_pos, Delegator, Validator};
use vstd::prelude::*;
use vstd::string::StrSliceExecFns;

verus! {

/// Whether `account` is an account of the test network: it ends with `.testnet`.
pub open spec fn is_testnet_account(account: Seq<char>) -> bool {
    account.len() >= 8 && account.subrange(account.len() - 8, account.len() as int) == ".testnet"@
}

/// Whether `account` ends with `.testnet`.
fn ends_with_testnet(account: &str) -> (res: bool)
    ensures
        res == is_testnet_account(account@),
{
    let suffix = ".testnet";
    proof {
        reveal_strlit(".testnet");
    }
    let n = account.unicode_len();
    if n < 8 {
        return false;
    }
    let start = n - 8;
    let mut k: usize = 0;
    while k < 8
        invariant
            n == account@.len(),
            n >= 8,
            start == n - 8,
            suffix@ == ".testnet"@,
            suffix@.len() == 8,
            k <= 8,
            forall|j: int| 0 <= j < k ==> account@[start + j] == suffix@[j],
        decreases 8 - k,
    {
        if account.get_char(start + k) != suffix.get_char(k) {
            assert(account@.subrange(start as int, n as int)[k as int] != ".testnet"@[k as int]);
            return false;
        }
        k = k + 1;
    }
    assert(account@.subrange(start as int, n as int) =~= ".testnet"@);
    true
}

/// Why `caller` may not clean up `a` whose own account is
/// `contract_account`, if it may not.
pub open spec fn testnet_refusal(a: AppchainAnchor, contract_account: AccountId, caller: AccountId) -> Option<
    AnchorError,
> {
    if !is_testnet_account(contract_account@) {
        Some(AnchorError::NotTestnet)
    } else if caller@ != a.owner@ {
        Some(AnchorError::NotAuthorized)
    } else {
        None
    }
}

/// Whether one of the staking histories `records` from `lo` up to (not
/// including) `hi` unbonds the stake of the account `id`.
pub open spec fn unbonds_in_range(records: Map<u64, StakingHistory>, lo: int, hi: int, id: Seq<char>) -> bool {
    exists|i: u64|
        lo <= i < hi && #[trigger] records.contains_key(i) && (unbonded_account(records[i].staking_fact) matches Some(
            acc,
        ) && acc@ == id)
}

/// Whether the validator set `after` is `before` with the rewards of the
/// validators that are not unprofitable and of their delegators removed,
/// and the unprofitable validators forgotten.
pub open spec fn era_rewards_cleared(before: ValidatorSetOfEra, after: ValidatorSetOfEra) -> bool {
    &&& after.wf()
    &&& after.set() == before.set()
    &&& after.status() == before.status()
    &&& after.history_index() == before.history_index()
    &&& after.start_height() == before.start_height()
    &&& after.start_time() == before.start_time()
    &&& after.valid_stake() == before.valid_stake()
    &&& after.unprofitable_ids() == Seq::<AccountId>::empty()
    &&& after.validator_reward_map() == validator_rewards_cleared(
        before.validator_reward_map(),
        before.set().validators,
        before.unprofitable_ids(),
    )
    &&& after.delegator_reward_map() == delegator_rewards_cleared(
        before.delegator_reward_map(),
        before.set(),
        before.set().validators,
        before.unprofitable_ids(),
    )
}

impl AppchainAnchor {
    /// Refuses a request unless `contract_account`, the anchor's own
    /// account, is a testnet account.
    pub fn assert_testnet(&self, contract_account: &AccountId) -> (res: Result<(), AnchorError>)
        ensures
            res == if is_testnet_account(contract_account@) {
                Ok::<(), AnchorError>(())
            } else {
                Err::<(), AnchorError>(AnchorError::NotTestnet)
            },
    {
        if ends_with_testnet(contract_account.as_str()) {
            Ok(())
        } else {
            Err(AnchorError::NotTestnet)
        }
    }

    fn assert_testnet_owner(&self, contract_account: &AccountId, caller: &AccountId) -> (res: Result<(), AnchorError>)
        ensures
            res == match testnet_refusal(*self, *contract_account, *caller) {
                Some(e) => Err::<(), AnchorError>(e),
                None => Ok(()),
            },
    {
        self.assert_testnet(contract_account)?;
        if *caller != self.owner {
            return Err(AnchorError::NotAuthorized);
        }
        Ok(())
    }

    /// Removes the staking histories, at most `max_removals` of them in one
    /// call. Refused as `testnet_refusal` says.
    pub fn clear_staking_histories(&mut self, contract_account: &AccountId, caller: &AccountId, max_removals: u64) -> (res:
        Result<MultiTxsOperationProcessingResult, AnchorError>)
        requires
            old(self).staking_histories.end() < u64::MAX,
        ensures
            match testnet_refusal(*old(self), *contract_account, *caller) {
                Some(e) => res == Err::<MultiTxsOperationProcessingResult, AnchorError>(e) && *final(self) == *old(self),
                None => res matches Ok(r) && old(self).staking_histories.cleared_by(
                    &final(self).staking_histories,
                    max_removals,
                    r,
                ) && *final(self) == (AppchainAnchor { staking_histories: final(self).staking_histories, ..*old(self) }),
            },
    {
        self.assert_testnet_owner(contract_account, caller)?;
        Ok(self.staking_histories.clear(max_removals))
    }

    /// Removes the notification histories, at most `max_removals` of them in
    /// one call. Refused as `testnet_refusal` says.
    pub fn clear_appchain_notification_histories(
        &mut self,
        contract_account: &AccountId,
        caller: &AccountId,
        max_removals: u64,
    ) -> (res: Result<MultiTxsOperationProcessingResult, AnchorError>)
        requires
            old(self).appchain_notification_histories.end() < u64::MAX,
        ensures
            match testnet_refusal(*old(self), *contract_account, *caller) {
                Some(e) => res == Err::<MultiTxsOperationProcessingResult, AnchorError>(e) && *final(self) == *old(self),
                None => res matches Ok(r) && old(self).appchain_notification_histories.cleared_by(
                    &final(self).appchain_notification_histories,
                    max_removals,
                    r,
                ) && *final(self) == (AppchainAnchor {
                    appchain_notification_histories: final(self).appchain_notification_histories,
                    ..*old(self)
                }),
            },
    {
        self.assert_testnet_owner(contract_account, caller)?;
        Ok(self.appchain_notification_histories.clear(max_removals))
    }

    /// Removes the challenges, at most `max_removals` of them in one call.
    /// Refused as `testnet_refusal` says.
    pub fn clear_appchain_challenges(&mut self, contract_account: &AccountId, caller: &AccountId, max_removals: u64) -> (res:
        Result<MultiTxsOperationProcessingResult, AnchorError>)
        requires
            old(self).appchain_challenges.end() < u64::MAX,
        ensures
            match testnet_refusal(*old(self), *contract_account, *caller) {
                Some(e) => res == Err::<MultiTxsOperationProcessingResult, AnchorError>(e) && *final(self) == *old(self),
                None => res matches Ok(r) && old(self).appchain_challenges.cleared_by(
                    &final(self).appchain_challenges,
                    max_removals,
                    r,
                ) && *final(self) == (AppchainAnchor { appchain_challenges: final(self).appchain_challenges, ..*old(self) }),
            },
    {
        self.assert_testnet_owner(contract_account, caller)?;
        Ok(self.appchain_challenges.clear(max_removals))
    }

    /// Removes the staged messages and their results, at most
    /// `max_removals` nonces of them in one call. Refused as
    /// `testnet_refusal` says.
    pub fn clear_appchain_messages(&mut self, contract_account: &AccountId, caller: &AccountId, max_removals: u32) -> (res:
        Result<MultiTxsOperationProcessingResult, AnchorError>)
        ensures
            match testnet_refusal(*old(self), *contract_account, *caller) {
                Some(e) => res == Err::<MultiTxsOperationProcessingResult, AnchorError>(e) && *final(self) == *old(self),
                None => {
                    let lo = old(self).appchain_messages.lowest();
                    let hi = old(self).appchain_messages.highest();
                    let m = final(self).appchain_messages;
                    let all = lo > hi || max_removals > hi - lo;
                    let kept = |n: u32| if all { !(lo <= n <= hi) } else { !(lo <= n < lo + max_removals) };
                    &&& res == Ok::<MultiTxsOperationProcessingResult, AnchorError>(
                        if all {
                            MultiTxsOperationProcessingResult::Finished
                        } else {
                            MultiTxsOperationProcessingResult::NeedMoreGas
                        },
                    )
                    &&& m.messages() == old(self).appchain_messages.messages().restrict(
                        old(self).appchain_messages.messages().dom().filter(kept),
                    )
                    &&& m.results() == old(self).appchain_messages.results().restrict(
                        old(self).appchain_messages.results().dom().filter(kept),
                    )
                    &&& m.lowest() == if all { 0 } else { (lo + max_removals) as u32 }
                    &&& m.highest() == if all { 0 } else { hi }
                    &&& *final(self) == (AppchainAnchor { appchain_messages: m, ..*old(self) })
                },
            },
    {
        self.assert_testnet_owner(contract_account, caller)?;
        let ghost before = self.appchain_messages;
        let r = self.appchain_messages.clear(max_removals);
        proof {
            let lo = before.lowest();
            let hi = before.highest();
            if lo > hi || max_removals > hi - lo {
                assert(before.messages().dom().filter(|n: u32| !(lo <= n <= hi)) =~= before.messages().dom().filter(
                    |n: u32| if lo > hi || max_removals > hi - lo { !(lo <= n <= hi) } else { !(lo <= n < lo + max_removals) },
                ));
                assert(before.results().dom().filter(|n: u32| !(lo <= n <= hi)) =~= before.results().dom().filter(
                    |n: u32| if lo > hi || max_removals > hi - lo { !(lo <= n <= hi) } else { !(lo <= n < lo + max_removals) },
                ));
            } else {
                assert(before.messages().dom().filter(|n: u32| !(lo <= n < lo + max_removals)) =~= before.messages().dom().filter(
                    |n: u32| if lo > hi || max_removals > hi - lo { !(lo <= n <= hi) } else { !(lo <= n < lo + max_removals) },
                ));
                assert(before.results().dom().filter(|n: u32| !(lo <= n < lo + max_removals)) =~= before.results().dom().filter(
                    |n: u32| if lo > hi || max_removals > hi - lo { !(lo <= n <= hi) } else { !(lo <= n < lo + max_removals) },
                ));
            }
        }
        Ok(r)
    }

    /// Removes all validators, delegators and leaving validators of the
    /// next era. Refused as `testnet_refusal` says.
    pub fn clear_next_validator_set(&mut self, contract_account: &AccountId, caller: &AccountId) -> (res: Result<
        MultiTxsOperationProcessingResult,
        AnchorError,
    >)
        ensures
            match testnet_refusal(*old(self), *contract_account, *caller) {
                Some(e) => res == Err::<MultiTxsOperationProcessingResult, AnchorError>(e) && *final(self) == *old(self),
                None => {
                    let s = final(self).next_validator_set;
                    &&& res == Ok::<MultiTxsOperationProcessingResult, AnchorError>(
                        MultiTxsOperationProcessingResult::Finished,
                    )
                    &&& s.wf()
                    &&& s.set().era_number == old(self).next_validator_set.set().era_number
                    &&& s.set().validators == Seq::<Validator>::empty()
                    &&& s.set().groups == Seq::<(Seq<char>, Seq<Delegator>)>::empty()
                    &&& s.set().total_stake == 0
                    &&& s.unbonding_ids() == Seq::<AccountId>::empty()
                    &&& s.auto_unbonding_ids() == Seq::<AccountId>::empty()
                    &&& *final(self) == (AppchainAnchor { next_validator_set: s, ..*old(self) })
                },
            },
    {
        self.assert_testnet_owner(contract_account, caller)?;
        self.next_validator_set.clear();
        Ok(MultiTxsOperationProcessingResult::Finished)
    }

    /// Forgets the validators of the next era that unbond, by themselves or
    /// by the anchor. Refused as `testnet_refusal` says.
    pub fn clear_unbonding_flag_of_next_validator_set(&mut self, contract_account: &AccountId, caller: &AccountId) -> (res:
        Result<(), AnchorError>)
        ensures
            match testnet_refusal(*old(self), *contract_account, *caller) {
                Some(e) => res == Err::<(), AnchorError>(e) && *final(self) == *old(self),
                None => {
                    let s = final(self).next_validator_set;
                    &&& res == Ok::<(), AnchorError>(())
                    &&& s.set() == old(self).next_validator_set.set()
                    &&& s.unbonding_ids() == Seq::<AccountId>::empty()
                    &&& s.auto_unbonding_ids() == Seq::<AccountId>::empty()
                    &&& *final(self) == (AppchainAnchor { next_validator_set: s, ..*old(self) })
                },
            },
    {
        self.assert_testnet_owner(contract_account, caller)?;
        self.next_validator_set.clear_auto_unbonding_validator_ids();
        self.next_validator_set.clear_unbonding_validator_ids();
        Ok(())
    }

    /// Removes the registration of all NEAR fungible tokens and of all
    /// classes of wrapped non-fungible tokens. Refused as `testnet_refusal`
    /// says.
    pub fn clear_external_assets_registration(&mut self, contract_account: &AccountId, caller: &AccountId) -> (res:
        Result<(), AnchorError>)
        ensures
            match testnet_refusal(*old(self), *contract_account, *caller) {
                Some(e) => res == Err::<(), AnchorError>(e) && *final(self) == *old(self),
                None => {
                    &&& res == Ok::<(), AnchorError>(())
                    &&& final(self).near_fungible_tokens.entries() == Seq::<NearFungibleToken>::empty()
                    &&& final(self).wrapped_appchain_nfts.entries() == Seq::<(String, InternalWrappedAppchainNFT)>::empty()
                    &&& *final(self) == (AppchainAnchor {
                        near_fungible_tokens: final(self).near_fungible_tokens,
                        wrapped_appchain_nfts: final(self).wrapped_appchain_nfts,
                        ..*old(self)
                    })
                },
            },
    {
        self.assert_testnet_owner(contract_account, caller)?;
        self.near_fungible_tokens.clear();
        self.wrapped_appchain_nfts.clear();
        Ok(())
    }

    /// Removes the profiles of all validators. Refused as `testnet_refusal`
    /// says.
    pub fn clear_validator_profiles(&mut self, contract_account: &AccountId, caller: &AccountId) -> (res: Result<
        MultiTxsOperationProcessingResult,
        AnchorError,
    >)
        ensures
            match testnet_refusal(*old(self), *contract_account, *caller) {
                Some(e) => res == Err::<MultiTxsOperationProcessingResult, AnchorError>(e) && *final(self) == *old(self),
                None => res == Ok::<MultiTxsOperationProcessingResult, AnchorError>(
                    MultiTxsOperationProcessingResult::Finished,
                ) && final(self).validator_profiles.entries() == Seq::<ValidatorProfile>::empty() && *final(self) == (
                AppchainAnchor { validator_profiles: final(self).validator_profiles, ..*old(self) }),
            },
    {
        self.assert_testnet_owner(contract_account, caller)?;
        self.validator_profiles.clear();
        Ok(MultiTxsOperationProcessingResult::Finished)
    }

    /// Removes the staking histories of all users. Refused as
    /// `testnet_refusal` says.
    pub fn clear_user_staking_histories(&mut self, contract_account: &AccountId, caller: &AccountId) -> (res: Result<
        MultiTxsOperationProcessingResult,
        AnchorError,
    >)
        ensures
            match testnet_refusal(*old(self), *contract_account, *caller) {
                Some(e) => res == Err::<MultiTxsOperationProcessingResult, AnchorError>(e) && *final(self) == *old(self),
                None => res == Ok::<MultiTxsOperationProcessingResult, AnchorError>(
                    MultiTxsOperationProcessingResult::Finished,
                ) && final(self).user_staking_histories.entries().len() == 0 && *final(self) == (AppchainAnchor {
                    user_staking_histories: final(self).user_staking_histories,
                    ..*old(self)
                }),
            },
    {
        self.assert_testnet_owner(contract_account, caller)?;
        self.user_staking_histories.clear();
        Ok(MultiTxsOperationProcessingResult::Finished)
    }
    /// Removes the validator set of era `era_number`. Refused as
    /// `testnet_refusal` says.
    pub fn remove_validator_set_history_of(&mut self, contract_account: &AccountId, caller: &AccountId, era_number: u64) -> (res:
        Result<MultiTxsOperationProcessingResult, AnchorError>)
        ensures
            match testnet_refusal(*old(self), *contract_account, *caller) {
                Some(e) => res == Err::<MultiTxsOperationProcessingResult, AnchorError>(e) && *final(self) == *old(self),
                None => {
                    let h = final(self).validator_set_histories;
                    &&& res == Ok::<MultiTxsOperationProcessingResult, AnchorError>(
                        MultiTxsOperationProcessingResult::Finished,
                    )
                    &&& h.records() == old(self).validator_set_histories.records().remove(era_number)
                    &&& h.start() == old(self).validator_set_histories.start()
                    &&& h.end() == old(self).validator_set_histories.end()
                    &&& *final(self) == (AppchainAnchor { validator_set_histories: h, ..*old(self) })
                },
            },
    {
        self.assert_testnet_owner(contract_account, caller)?;
        self.validator_set_histories.remove_at(&era_number);
        Ok(MultiTxsOperationProcessingResult::Finished)
    }
    /// Gives the validator `validator_id` of the set of era `era_number` the
    /// id in the appchain `validator_id_in_appchain` (with `0x` put before it
    /// where needed, in lower case). Refused as `testnet_refusal` says, where
    /// no set of the era is recorded, where the validator is not in it, and
    /// where the new id is not valid.
    pub fn change_validator_id_in_appchain_in_validator_set(
        &mut self,
        contract_account: &AccountId,
        caller: &AccountId,
        era_number: u64,
        validator_id: AccountId,
        validator_id_in_appchain: String,
    ) -> (res: Result<(), AnchorError>)
        requires
            old(self).wf(),
        ensures
            final(self).wf(),
            match testnet_refusal(*old(self), *contract_account, *caller) {
                Some(e) => res == Err::<(), AnchorError>(e) && *final(self) == *old(self),
                None => if !old(self).validator_set_histories.records().contains_key(era_number) {
                    res == Err::<(), AnchorError>(AnchorError::InvalidEraNumber) && *final(self) == *old(self)
                } else if !(histories_applied(era_set(*old(self), era_number).status()) && era_set(
                    *old(self),
                    era_number,
                ).set().contains_validator(validator_id@)) {
                    res == Err::<(), AnchorError>(AnchorError::InvalidValidatorId(validator_id)) && *final(self)
                        == *old(self)
                } else if !is_valid_raw_id(
                    old(self).appchain_template_type,
                    lowercase(prefixed_id(validator_id_in_appchain@)),
                ) {
                    &&& res matches Err(AnchorError::InvalidValidatorIdInAppchain(s)) && s@ == validator_id_in_appchain@
                    &&& *final(self) == *old(self)
                } else {
                    let s = era_set(*old(self), era_number);
                    let v = s.set().validator(validator_id@);
                    let t = era_set(*final(self), era_number);
                    let changed = t.set().validator(validator_id@);
                    &&& res == Ok::<(), AnchorError>(())
                    &&& final(self).validator_set_histories.records() == old(self).validator_set_histories.records().insert(
                        era_number,
                        t,
                    )
                    &&& final(self).validator_set_histories.start() == old(self).validator_set_histories.start()
                    &&& final(self).validator_set_histories.end() == if era_number > old(
                        self,
                    ).validator_set_histories.end() {
                        era_number
                    } else {
                        old(self).validator_set_histories.end()
                    }
                    &&& changed.validator_id_in_appchain@ == lowercase(prefixed_id(validator_id_in_appchain@))
                    &&& t.set() == s.set().validator_changed(
                        validator_id@,
                        Validator { validator_id_in_appchain: changed.validator_id_in_appchain, ..v },
                    )
                    &&& t.same_era_data(&s)
                    &&& t.status() == s.status()
                    &&& t.history_index() == s.history_index()
                    &&& *final(self) == (AppchainAnchor { validator_set_histories: final(self).validator_set_histories, ..*old(self) })
                },
            },
    {
        self.assert_testnet_owner(contract_account, caller)?;
        if !self.validator_set_histories.contains(&era_number) {
            return Err(AnchorError::InvalidEraNumber);
        }
        let ghost s = era_set(*self, era_number);
        let validator = match self.validator_set_histories.get(&era_number) {
            Some(set) => match set.get_validator(&validator_id) {
                Some(v) => v.duplicate(),
                None => {
                    return Err(AnchorError::InvalidValidatorId(validator_id));
                },
            },
            None => {
                return Err(AnchorError::InvalidEraNumber);
            },
        };
        let id_in_appchain = AccountIdInAppchain::new(Some(validator_id_in_appchain), &self.appchain_template_type);
        if !id_in_appchain.is_valid() {
            return Err(AnchorError::InvalidValidatorIdInAppchain(id_in_appchain.origin_to_string()));
        }
        let mut set = match self.validator_set_histories.take(&era_number) {
            Some(set) => set,
            None => {
                return Err(AnchorError::InvalidEraNumber);
            },
        };
        let changed = Validator { validator_id_in_appchain: id_in_appchain.to_string(), ..validator };
        proof {
            s.lemma_wf();
            lemma_validator_index(s.set().validators, validator_pos(s.set().validators, validator_id@));
        }
        let ghost p = validator_pos(s.set().validators, validator_id@);
        let ghost new_v = changed;
        set.insert_validator(changed);
        proof {
            let t = set.set();
            set.lemma_wf();
            assert(t.validators == s.set().validators.update(p, new_v));
            lemma_validator_index(t.validators, p);
            assert(t.validator(validator_id@) == new_v);
            assert(new_v == Validator { validator_id_in_appchain: new_v.validator_id_in_appchain, ..s.set().validator(validator_id@) });
        }
        self.validator_set_histories.insert(&era_number, set);
        proof {
            assert(self.validator_set_histories.records() =~= old(self).validator_set_histories.records().insert(
                era_number,
                era_set(*self, era_number),
            ));
            assert(old(self).validator_set_histories.records().contains_key(era_number));
        }
        Ok(())
    }

    /// Forgets the unbonded stakes of every account whose stake a staking
    /// history unbonds. Refused as `testnet_refusal` says.
    pub fn clear_unbonded_stakes(&mut self, contract_account: &AccountId, caller: &AccountId) -> (res: Result<
        (),
        AnchorError,
    >)
        requires
            old(self).staking_histories.end() < u64::MAX,
        ensures
            match testnet_refusal(*old(self), *contract_account, *caller) {
                Some(e) => res == Err::<(), AnchorError>(e) && *final(self) == *old(self),
                None => {
                    &&& res == Ok::<(), AnchorError>(())
                    &&& forall|id: Seq<char>| #[trigger]
                        final(self).unbonded_stakes.stakes_of(id) == if unbonds_in_range(
                            old(self).staking_histories.records(),
                            old(self).staking_histories.start() as int,
                            old(self).staking_histories.end() + 1,
                            id,
                        ) {
                            Seq::<UnbondedStakeReference>::empty()
                        } else {
                            old(self).unbonded_stakes.stakes_of(id)
                        }
                    &&& *final(self) == (AppchainAnchor { unbonded_stakes: final(self).unbonded_stakes, ..*old(self) })
                },
            },
    {
        self.assert_testnet_owner(contract_account, caller)?;
        let range = self.staking_histories.index_range();
        let first = range.start_index;
        let last = range.end_index;
        let ghost before = *self;
        let ghost records = self.staking_histories.records();
        let mut index: u64 = first;
        while index <= last
            invariant
                first == before.staking_histories.start(),
                last == before.staking_histories.end(),
                last < u64::MAX,
                first <= index,
                index <= last + 1 || index == first,
                records == before.staking_histories.records(),
                forall|id: Seq<char>| #[trigger]
                    self.unbonded_stakes.stakes_of(id) == if unbonds_in_range(records, first as int, index as int, id) {
                        Seq::<UnbondedStakeReference>::empty()
                    } else {
                        before.unbonded_stakes.stakes_of(id)
                    },
                *self == (AppchainAnchor { unbonded_stakes: self.unbonded_stakes, ..before }),
            decreases last + 1 - index,
        {
            let ghost prev = self.unbonded_stakes;
            let account: Option<&AccountId> = match self.staking_histories.get(&index) {
                Some(h) => match &h.staking_fact {
                    StakingFact::StakeDecreased { validator_id, .. } => Some(validator_id),
                    StakingFact::ValidatorUnbonded { validator_id, .. } => Some(validator_id),
                    StakingFact::ValidatorAutoUnbonded { validator_id, .. } => Some(validator_id),
                    StakingFact::DelegationDecreased { delegator_id, .. } => Some(delegator_id),
                    StakingFact::DelegatorUnbonded { delegator_id, .. } => Some(delegator_id),
                    StakingFact::DelegatorAutoUnbonded { delegator_id, .. } => Some(delegator_id),
                    _ => None,
                },
                None => None,
            };
            proof {
                assert forall|id: Seq<char>| #[trigger]
                    unbonds_in_range(records, first as int, index + 1, id) == (unbonds_in_range(
                        records,
                        first as int,
                        index as int,
                        id,
                    ) || (records.contains_key(index) && (unbonded_account(records[index].staking_fact) matches Some(
                        acc,
                    ) && acc@ == id))) by {
                    if unbonds_in_range(records, first as int, index + 1, id) {
                        let i = choose|i: u64|
                            first <= i < index + 1 && #[trigger] records.contains_key(i) && (unbonded_account(
                                records[i].staking_fact,
                            ) matches Some(acc) && acc@ == id);
                        if i < index {
                            assert(unbonds_in_range(records, first as int, index as int, id));
                        }
                    }
                    if records.contains_key(index) && (unbonded_account(records[index].staking_fact) matches Some(acc)
                        && acc@ == id) {
                        assert(records.contains_key(index));
                    }
                }
            }
            match account {
                Some(acc) => {
                    let acc = acc.clone();
                    self.unbonded_stakes.replace_stakes_of(&acc, Vec::new());
                },
                None => {},
            }
            index = index + 1;
        }
        Ok(())
    }
    /// The eras that have records of distributed rewards, in the order in
    /// which they were noted.
    pub fn get_recorded_era_numbers_of_reward_distribution_records(&self) -> (res: Vec<u64>)
        ensures
            res@ == self.reward_distribution_records.eras(),
    {
        self.reward_distribution_records.get_recorded_era_numbers()
    }

    /// Forgets which eras have records of distributed rewards; the records
    /// stay. Refused as `testnet_refusal` says.
    pub fn clear_era_number_set_of_reward_distribution_records(&mut self, contract_account: &AccountId, caller: &AccountId) -> (res:
        Result<(), AnchorError>)
        ensures
            match testnet_refusal(*old(self), *contract_account, *caller) {
                Some(e) => res == Err::<(), AnchorError>(e) && *final(self) == *old(self),
                None => {
                    let r = final(self).reward_distribution_records;
                    &&& res == Ok::<(), AnchorError>(())
                    &&& r.eras() == Seq::<u64>::empty()
                    &&& r.record_set() == old(self).reward_distribution_records.record_set()
                    &&& r.nonces_of() == old(self).reward_distribution_records.nonces_of()
                    &&& *final(self) == (AppchainAnchor { reward_distribution_records: r, ..*old(self) })
                },
            },
    {
        self.assert_testnet_owner(contract_account, caller)?;
        self.reward_distribution_records.clear_era_number_set();
        Ok(())
    }

    /// Removes the records of the rewards distributed in era `era_number`,
    /// and the rewards and unprofitable validators that its validator set
    /// keeps; nothing where the set of that era is gone. Refused as
    /// `testnet_refusal` says.
    pub fn clear_reward_distribution_records(&mut self, contract_account: &AccountId, caller: &AccountId, era_number: u64) -> (res:
        Result<(), AnchorError>)
        requires
            old(self).wf(),
        ensures
            match testnet_refusal(*old(self), *contract_account, *caller) {
                Some(e) => res == Err::<(), AnchorError>(e) && *final(self) == *old(self),
                None => {
                    let h = old(self).validator_set_histories;
                    &&& res == Ok::<(), AnchorError>(())
                    &&& final(self).wf()
                    &&& !h.records().contains_key(era_number) ==> *final(self) == *old(self)
                    &&& h.records().contains_key(era_number) ==> {
                        let s1 = h.records()[era_number];
                        let s2 = final(self).validator_set_histories.records()[era_number];
                        &&& era_rewards_cleared(s1, s2)
                        &&& final(self).validator_set_histories.records() == h.records().insert(era_number, s2)
                        &&& final(self).validator_set_histories.start() == h.start()
                        &&& final(self).validator_set_histories.end() == if era_number > h.end() {
                            era_number
                        } else {
                            h.end()
                        }
                        &&& records_cleared(
                            old(self).reward_distribution_records,
                            final(self).reward_distribution_records,
                            s1,
                            era_number,
                        )
                        &&& *final(self) == (AppchainAnchor {
                            validator_set_histories: final(self).validator_set_histories,
                            reward_distribution_records: final(self).reward_distribution_records,
                            ..*old(self)
                        })
                    }
                },
            },
    {
        self.assert_testnet_owner(contract_account, caller)?;
        if !self.validator_set_histories.contains(&era_number) {
            return Ok(());
        }
        match self.validator_set_histories.take(&era_number) {
            Some(mut set) => {
                self.reward_distribution_records.clear(&set, era_number);
                set.clear_reward_distribution_records();
                self.validator_set_histories.insert(&era_number, set);
                proof {
                    assert forall|e: u64| #[trigger]
                        self.validator_set_histories.records().contains_key(e) implies self.validator_set_histories.records()[e].wf() by {
                        if e != era_number {
                            assert(old(self).validator_set_histories.records().contains_key(e));
                        }
                    }
                }
            },
            None => {},
        }
        Ok(())
    }
}

} // verus!
