//! What the owner and the maintainers of the anchor do besides the settings:
//! pausing and resuming, the price of OCT token, and handing back the
//! stakes that the anchor unbonded.
use crate::anchor::AppchainAnchor;
use crate::errors::AnchorError;
use crate::histories::{acting_account, with_history_index};
use crate::types::{AccountId, MultiTxsOperationProcessingResult, StakingFact, StakingHistory};
use crate::unbonded_stakes::UnbondedStakeReference;
use vstd::prelude::*;

verus! {

/// The position of the first reference of `refs` to the staking history at
/// `index`, or -1.
pub open spec fn first_reference(refs: Seq<UnbondedStakeReference>, index: u64) -> int
    decreases refs.len(),
{
    if refs.len() == 0 {
        -1
    } else {
        let p = first_reference(refs.drop_last(), index);
        if p >= 0 {
            p
        } else if refs.last().staking_history_index == index {
            refs.len() - 1
        } else {
            -1
        }
    }
}

proof fn lemma_first_reference(refs: Seq<UnbondedStakeReference>, index: u64)
    ensures
        -1 <= first_reference(refs, index) < refs.len(),
        first_reference(refs, index) >= 0 ==> refs[first_reference(refs, index)].staking_history_index == index,
        forall|j: int|
            0 <= j < refs.len() && (first_reference(refs, index) < 0 || j < first_reference(refs, index))
                ==> (#[trigger] refs[j]).staking_history_index != index,
    decreases refs.len(),
{
    if refs.len() > 0 {
        let front = refs.drop_last();
        lemma_first_reference(front, index);
        assert forall|j: int|
            0 <= j < refs.len() && (first_reference(refs, index) < 0 || j < first_reference(refs, index)) implies (
            #[trigger] refs[j]).staking_history_index != index by {
            if j < front.len() {
                assert(refs[j] == front[j]);
            }
        }
    }
}

/// The account whose unbonded stakes are handed back: the delegator where
/// one is given, else the validator.
pub open spec fn holder(delegator_id: Option<AccountId>, validator_id: AccountId) -> AccountId {
    match delegator_id {
        Some(d) => d,
        None => validator_id,
    }
}

/// What handing back the stake that the anchor unbonded by the staking
/// history at `index` comes to in `a`: the receiver and the amount, or why
/// it is refused. The first reference of the holder to the history counts;
/// the history must unbond, by the anchor, the validator `validator_id`, or
/// its delegator `delegator_id` (an empty id where none is given).
pub open spec fn auto_unbonded_stake(a: AppchainAnchor, delegator_id: Option<AccountId>, validator_id: AccountId, index: u64) -> Result<
    (Seq<char>, u128),
    AnchorError,
> {
    let refs = a.unbonded_stakes.stakes_of(holder(delegator_id, validator_id)@);
    let did = match delegator_id {
        Some(d) => d@,
        None => Seq::<char>::empty(),
    };
    if first_reference(refs, index) < 0 || !a.staking_histories.records().contains_key(index) {
        Err(AnchorError::StakingHistoryNotFound)
    } else {
        match a.staking_histories.records()[index].staking_fact {
            StakingFact::ValidatorAutoUnbonded { validator_id: v, amount } => if v@ == validator_id@ {
                Ok((validator_id@, amount))
            } else {
                Err(AnchorError::InvalidStakingHistory)
            },
            StakingFact::DelegatorAutoUnbonded { delegator_id: d, validator_id: v, amount } => if v@ == validator_id@
                && d@ == did {
                Ok((did, amount))
            } else {
                Err(AnchorError::InvalidStakingHistory)
            },
            _ => Err(AnchorError::StakingHistoryNotFound),
        }
    }
}


/// The staking histories of users `s` with the indexes of the staking
/// histories `records` from `lo` up to (not including) `hi` added, in order,
/// each to the account that acts in it.
pub open spec fn histories_added(s: Seq<(Seq<char>, Seq<u64>)>, records: Map<u64, StakingHistory>, lo: int, hi: int) -> Seq<
    (Seq<char>, Seq<u64>),
>
    decreases hi - lo,
{
    if hi <= lo {
        s
    } else {
        let prev = histories_added(s, records, lo, hi - 1);
        let i = (hi - 1) as u64;
        if records.contains_key(i) {
            with_history_index(prev, acting_account(records[i].staking_fact)@, records[i].index)
        } else {
            prev
        }
    }
}

impl AppchainAnchor {
    /// Pauses the transfer of assets; refused unless `caller` is the owner
    /// and the transfer is not paused.
    pub fn pause_asset_transfer(&mut self, caller: &AccountId) -> (res: Result<(), AnchorError>)
        ensures
            res == if caller@ != old(self).owner@ {
                Err::<(), AnchorError>(AnchorError::NotAuthorized)
            } else if old(self).asset_transfer_is_paused {
                Err(AnchorError::AssetTransferAlreadyPaused)
            } else {
                Ok(())
            },
            *final(self) == if res is Ok {
                AppchainAnchor { asset_transfer_is_paused: true, ..*old(self) }
            } else {
                *old(self)
            },
    {
        if *caller != self.owner {
            return Err(AnchorError::NotAuthorized);
        }
        if self.asset_transfer_is_paused {
            return Err(AnchorError::AssetTransferAlreadyPaused);
        }
        self.asset_transfer_is_paused = true;
        Ok(())
    }

    /// Resumes the transfer of assets; refused unless `caller` is the owner
    /// and the transfer is paused.
    pub fn resume_asset_transfer(&mut self, caller: &AccountId) -> (res: Result<(), AnchorError>)
        ensures
            res == if caller@ != old(self).owner@ {
                Err::<(), AnchorError>(AnchorError::NotAuthorized)
            } else if !old(self).asset_transfer_is_paused {
                Err(AnchorError::AssetTransferAlreadyResumed)
            } else {
                Ok(())
            },
            *final(self) == if res is Ok {
                AppchainAnchor { asset_transfer_is_paused: false, ..*old(self) }
            } else {
                *old(self)
            },
    {
        if *caller != self.owner {
            return Err(AnchorError::NotAuthorized);
        }
        if !self.asset_transfer_is_paused {
            return Err(AnchorError::AssetTransferAlreadyResumed);
        }
        self.asset_transfer_is_paused = false;
        Ok(())
    }

    /// Pauses the withdrawal of rewards; refused unless `caller` is the owner
    /// and the withdrawal is not paused.
    pub fn pause_rewards_withdrawal(&mut self, caller: &AccountId) -> (res: Result<(), AnchorError>)
        ensures
            res == if caller@ != old(self).owner@ {
                Err::<(), AnchorError>(AnchorError::NotAuthorized)
            } else if old(self).rewards_withdrawal_is_paused {
                Err(AnchorError::RewardsWithdrawalAlreadyPaused)
            } else {
                Ok(())
            },
            *final(self) == if res is Ok {
                AppchainAnchor { rewards_withdrawal_is_paused: true, ..*old(self) }
            } else {
                *old(self)
            },
    {
        if *caller != self.owner {
            return Err(AnchorError::NotAuthorized);
        }
        if self.rewards_withdrawal_is_paused {
            return Err(AnchorError::RewardsWithdrawalAlreadyPaused);
        }
        self.rewards_withdrawal_is_paused = true;
        Ok(())
    }

    /// Resumes the withdrawal of rewards; refused unless `caller` is the
    /// owner and the withdrawal is paused.
    pub fn resume_rewards_withdrawal(&mut self, caller: &AccountId) -> (res: Result<(), AnchorError>)
        ensures
            res == if caller@ != old(self).owner@ {
                Err::<(), AnchorError>(AnchorError::NotAuthorized)
            } else if !old(self).rewards_withdrawal_is_paused {
                Err(AnchorError::RewardsWithdrawalAlreadyResumed)
            } else {
                Ok(())
            },
            *final(self) == if res is Ok {
                AppchainAnchor { rewards_withdrawal_is_paused: false, ..*old(self) }
            } else {
                *old(self)
            },
    {
        if *caller != self.owner {
            return Err(AnchorError::NotAuthorized);
        }
        if !self.rewards_withdrawal_is_paused {
            return Err(AnchorError::RewardsWithdrawalAlreadyResumed);
        }
        self.rewards_withdrawal_is_paused = false;
        Ok(())
    }

    /// Sets the nonce of the latest applied message to `nonce`, with no
    /// message being processed; refused unless `caller` is the owner.
    pub fn set_latest_applied_appchain_message_nonce(&mut self, caller: &AccountId, nonce: u32) -> (res: Result<
        (),
        AnchorError,
    >)
        ensures
            caller@ != old(self).owner@ ==> res == Err::<(), AnchorError>(AnchorError::NotAuthorized)
                && *final(self) == *old(self),
            caller@ == old(self).owner@ ==> res == Ok::<(), AnchorError>(()) && *final(self) == (AppchainAnchor {
                permissionless_actions_status: crate::types::PermissionlessActionsStatus {
                    latest_applied_appchain_message_nonce: nonce,
                    processing_appchain_message_nonce: None,
                    ..old(self).permissionless_actions_status
                },
                ..*old(self)
            }),
    {
        if *caller != self.owner {
            return Err(AnchorError::NotAuthorized);
        }
        self.permissionless_actions_status.latest_applied_appchain_message_nonce = nonce;
        self.permissionless_actions_status.processing_appchain_message_nonce = None;
        Ok(())
    }

    /// Hands `owner` over to the account `owner`; refused unless `caller` is
    /// the owner and `owner` is another account.
    pub fn set_owner(&mut self, caller: &AccountId, owner: AccountId) -> (res: Result<(), AnchorError>)
        ensures
            res == if caller@ != old(self).owner@ {
                Err::<(), AnchorError>(AnchorError::NotAuthorized)
            } else if owner@ == old(self).owner@ {
                Err(AnchorError::ValueNotChanged)
            } else {
                Ok(())
            },
            *final(self) == if res is Ok {
                AppchainAnchor { owner, ..*old(self) }
            } else {
                *old(self)
            },
    {
        if *caller != self.owner {
            return Err(AnchorError::NotAuthorized);
        }
        if owner == self.owner {
            return Err(AnchorError::ValueNotChanged);
        }
        self.owner = owner;
        Ok(())
    }

    /// Refuses a request of anyone but the maintainer of token prices, and
    /// any request where no maintainer is set.
    pub fn assert_token_price_maintainer(&self, caller: &AccountId) -> (res: Result<(), AnchorError>)
        ensures
            res == self.price_maintainer_check(*caller),
    {
        match &self.anchor_settings.token_price_maintainer_account {
            Some(m) => if *m == *caller {
                Ok(())
            } else {
                Err(AnchorError::NotAuthorized)
            },
            None => Err(AnchorError::NotAuthorized),
        }
    }

    /// Refuses a request of anyone but the relayer, and any request where
    /// no relayer is set.
    pub fn assert_relayer(&self, caller: &AccountId) -> (res: Result<(), AnchorError>)
        ensures
            res == match self.anchor_settings.relayer_account {
                Some(m) => if m@ == caller@ {
                    Ok::<(), AnchorError>(())
                } else {
                    Err(AnchorError::NotAuthorized)
                },
                None => Err(AnchorError::NotAuthorized),
            },
    {
        match &self.anchor_settings.relayer_account {
            Some(m) => if *m == *caller {
                Ok(())
            } else {
                Err(AnchorError::NotAuthorized)
            },
            None => Err(AnchorError::NotAuthorized),
        }
    }

    /// Sets the price of OCT token in USD to `price`; refused unless `caller`
    /// is the maintainer of token prices.
    pub fn set_price_of_oct_token(&mut self, caller: &AccountId, price: u128) -> (res: Result<(), AnchorError>)
        ensures
            res == old(self).price_maintainer_check(*caller),
            *final(self) == if res is Ok {
                AppchainAnchor { oct_token: crate::types::OctToken { price_in_usd: price, ..old(self).oct_token }, ..*old(self) }
            } else {
                *old(self)
            },
    {
        match self.assert_token_price_maintainer(caller) {
            Ok(()) => {},
            Err(e) => {
                return Err(e);
            },
        }
        self.oct_token.price_in_usd = price;
        Ok(())
    }

    /// Whether `caller` may set the prices of tokens in `self`.
    pub open spec fn price_maintainer_check(&self, caller: AccountId) -> Result<(), AnchorError> {
        match self.anchor_settings.token_price_maintainer_account {
            Some(m) => if m@ == caller@ {
                Ok::<(), AnchorError>(())
            } else {
                Err(AnchorError::NotAuthorized)
            },
            None => Err(AnchorError::NotAuthorized),
        }
    }

    /// Hands back the stake that the anchor unbonded by the staking history
    /// at `staking_history_index`, to the delegator `delegator_id` of the
    /// validator `validator_id` or, where none is given, to the validator,
    /// and gives the receiver and the amount to transfer. The references of
    /// the holder from the first one to the history on are dropped. Refused
    /// unless `caller` is the owner and the transfer of assets is not paused,
    /// and as `auto_unbonded_stake` says.
    pub fn unlock_auto_unbonded_stake_of(
        &mut self,
        caller: &AccountId,
        delegator_id: Option<AccountId>,
        validator_id: AccountId,
        staking_history_index: u64,
    ) -> (res: Result<(AccountId, u128), AnchorError>)
        ensures
            caller@ != old(self).owner@ ==> res == Err::<(AccountId, u128), AnchorError>(AnchorError::NotAuthorized)
                && *final(self) == *old(self),
            caller@ == old(self).owner@ && old(self).asset_transfer_is_paused ==> res == Err::<
                (AccountId, u128),
                AnchorError,
            >(AnchorError::AssetTransferPaused) && *final(self) == *old(self),
            caller@ == old(self).owner@ && !old(self).asset_transfer_is_paused ==> match auto_unbonded_stake(
                *old(self),
                delegator_id,
                validator_id,
                staking_history_index,
            ) {
                Err(e) => res == Err::<(AccountId, u128), AnchorError>(e) && *final(self) == *old(self),
                Ok((receiver, amount)) => {
                    let id = holder(delegator_id, validator_id)@;
                    let refs = old(self).unbonded_stakes.stakes_of(id);
                    &&& res matches Ok((r, a)) && r@ == receiver && a == amount
                    &&& forall|x: Seq<char>| #[trigger] final(self).unbonded_stakes.stakes_of(x) == if x == id {
                        refs.take(first_reference(refs, staking_history_index))
                    } else {
                        old(self).unbonded_stakes.stakes_of(x)
                    }
                    &&& *final(self) == (AppchainAnchor { unbonded_stakes: final(self).unbonded_stakes, ..*old(self) })
                },
            },
    {
        if *caller != self.owner {
            return Err(AnchorError::NotAuthorized);
        }
        if self.asset_transfer_is_paused {
            return Err(AnchorError::AssetTransferPaused);
        }
        let account = match &delegator_id {
            Some(d) => d.clone(),
            None => validator_id.clone(),
        };
        let refs = self.unbonded_stakes.get_stakes_of(&account);
        proof {
            lemma_first_reference(refs@, staking_history_index);
        }
        let mut remained: Vec<UnbondedStakeReference> = Vec::new();
        let mut i: usize = 0;
        while i < refs.len() && refs[i].staking_history_index != staking_history_index
            invariant
                i <= refs@.len(),
                remained@ == refs@.take(i as int),
                forall|j: int| 0 <= j < i ==> (#[trigger] refs@[j]).staking_history_index != staking_history_index,
            decreases refs@.len() - i,
        {
            remained.push(refs[i]);
            i = i + 1;
            assert(remained@ =~= refs@.take(i as int));
        }
        if i == refs.len() {
            return Err(AnchorError::StakingHistoryNotFound);
        }
        assert(first_reference(refs@, staking_history_index) == i);
        let did = match &delegator_id {
            Some(d) => d.clone(),
            None => String::new(),
        };
        let (receiver, amount) = match self.staking_histories.get(&staking_history_index) {
            None => {
                return Err(AnchorError::StakingHistoryNotFound);
            },
            Some(history) => match &history.staking_fact {
                StakingFact::ValidatorAutoUnbonded { validator_id: v, amount } => {
                    if *v != validator_id {
                        return Err(AnchorError::InvalidStakingHistory);
                    }
                    (validator_id.clone(), *amount)
                },
                StakingFact::DelegatorAutoUnbonded { delegator_id: d, validator_id: v, amount } => {
                    if !(*v == validator_id && *d == did) {
                        return Err(AnchorError::InvalidStakingHistory);
                    }
                    (did, *amount)
                },
                _ => {
                    return Err(AnchorError::StakingHistoryNotFound);
                },
            },
        };
        self.unbonded_stakes.replace_stakes_of(&account, remained);
        Ok((receiver, amount))
    }
    /// Adds the staking histories, from the start index on, to the histories
    /// of the accounts that act in them, at most `max_steps` indexes in one
    /// call; `NeedMoreGas` where indexes are left. Refused unless `caller` is
    /// the owner.
    pub fn regenerate_user_staking_histories(&mut self, caller: &AccountId, max_steps: u64) -> (res: Result<
        MultiTxsOperationProcessingResult,
        AnchorError,
    >)
        requires
            old(self).staking_histories.end() < u64::MAX,
        ensures
            caller@ != old(self).owner@ ==> res == Err::<MultiTxsOperationProcessingResult, AnchorError>(
                AnchorError::NotAuthorized,
            ) && *final(self) == *old(self),
            caller@ == old(self).owner@ ==> {
                let first = old(self).staking_histories.start() as int;
                let last = old(self).staking_histories.end() as int;
                let stop = if first + max_steps > last + 1 {
                    last + 1
                } else {
                    first + max_steps
                };
                &&& res == Ok::<MultiTxsOperationProcessingResult, AnchorError>(
                    if stop >= last + 1 {
                        MultiTxsOperationProcessingResult::Finished
                    } else {
                        MultiTxsOperationProcessingResult::NeedMoreGas
                    },
                )
                &&& final(self).user_staking_histories.histories_view() == histories_added(
                    old(self).user_staking_histories.histories_view(),
                    old(self).staking_histories.records(),
                    first,
                    stop,
                )
                &&& *final(self) == (AppchainAnchor {
                    user_staking_histories: final(self).user_staking_histories,
                    ..*old(self)
                })
            },
    {
        if *caller != self.owner {
            return Err(AnchorError::NotAuthorized);
        }
        let range = self.staking_histories.index_range();
        let first = range.start_index;
        let last = range.end_index;
        let ghost before = *self;
        let mut index: u64 = first;
        let mut steps: u64 = 0;
        while index <= last && steps < max_steps
            invariant
                first == before.staking_histories.start(),
                last == before.staking_histories.end(),
                last < u64::MAX,
                first <= index,
                index <= last + 1 || index == first,
                steps == index - first,
                steps <= max_steps,
                self.user_staking_histories.histories_view() == histories_added(
                    before.user_staking_histories.histories_view(),
                    before.staking_histories.records(),
                    first as int,
                    index as int,
                ),
                *self == (AppchainAnchor { user_staking_histories: self.user_staking_histories, ..before }),
            decreases last + 1 - index,
        {
            match self.staking_histories.get(&index) {
                Some(h) => {
                    let history = StakingHistory {
                        staking_fact: h.staking_fact.duplicate(),
                        block_height: h.block_height,
                        timestamp: h.timestamp,
                        index: h.index,
                    };
                    self.user_staking_histories.add_staking_history(&history);
                },
                None => {},
            }
            index = index + 1;
            steps = steps + 1;
        }
        if index <= last {
            Ok(MultiTxsOperationProcessingResult::NeedMoreGas)
        } else {
            Ok(MultiTxsOperationProcessingResult::Finished)
        }
    }
}

} // verus!
