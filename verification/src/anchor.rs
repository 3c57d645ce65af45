//! The state of an appchain anchor and the owner's management of its settings.
use crate::challenge::AppchainChallenge;
use crate::errors::AnchorError;
use crate::fungible_tokens::NearFungibleTokens;
use crate::histories::{AnchorEventHistories, UserStakingHistories};
use crate::lookup_array::{IndexRange, LookupArray};
use crate::messages::AppchainMessages;
use crate::next_validator_set::NextValidatorSet;
use crate::nfts::WrappedAppchainNFTs;
use crate::profiles::ValidatorProfiles;
use crate::balance_map::BalanceMap;
use crate::rewards::RewardDistributionRecords;
use crate::settings::{
    apply_protocol_settings_change, changed_protocol_settings, default_protocol_settings, owner_gated,
    AnchorSettingsManager, AppchainSettingsManager, Owned, ProtocolSettingsChange, ProtocolSettingsManager,
};
use crate::types::{
    AccountId, AnchorSettings, AppchainId, AppchainNotification, AppchainNotificationHistory, AppchainSettings, AppchainState,
    AppchainTemplateType, OctToken, PermissionlessActionsStatus, ProtocolSettings, StakingHistory,
};
use crate::unbonded_stakes::UnbondedStakes;
use crate::validator_set::{delegator_total, Delegator, Validator};
use crate::validator_set_of_era::ValidatorSetOfEra;
use crate::deposits::NativeNearToken;
use crate::wrapped_token::{is_unset_wrapped_token, WrappedAppchainToken};
use vstd::prelude::*;

verus! {

/// The status of an anchor.
#[derive(Clone, Copy, Debug, PartialEq, Eq)]
pub struct AnchorStatus {
    pub total_stake_in_next_era: u128,
    pub validator_count_in_next_era: u64,
    pub delegator_count_in_next_era: u64,
    pub index_range_of_appchain_notification_history: IndexRange,
    pub index_range_of_validator_set_history: IndexRange,
    pub index_range_of_staking_history: IndexRange,
    pub nonce_range_of_appchain_messages: IndexRange,
    pub index_range_of_appchain_challenges: IndexRange,
    pub permissionless_actions_status: PermissionlessActionsStatus,
    pub asset_transfer_is_paused: bool,
    pub rewards_withdrawal_is_paused: bool,
}

/// The state of an appchain anchor.
pub struct AppchainAnchor {
    /// The id of the appchain.
    pub appchain_id: AppchainId,
    /// The template that the appchain is built from.
    pub appchain_template_type: AppchainTemplateType,
    /// The account of the appchain registry.
    pub appchain_registry: AccountId,
    /// The owner of the anchor.
    pub owner: AccountId,
    /// The OCT token and its price.
    pub oct_token: OctToken,
    /// The validator sets of past eras, by era number.
    pub validator_set_histories: LookupArray<ValidatorSetOfEra>,
    /// The validator set of the next era, against which staking is checked.
    pub next_validator_set: NextValidatorSet,
    /// The rewards of validators not yet withdrawn, by era and validator.
    pub unwithdrawn_validator_rewards: BalanceMap<(u64, AccountId)>,
    /// The rewards of delegators not yet withdrawn, by era, delegator and validator.
    pub unwithdrawn_delegator_rewards: BalanceMap<(u64, AccountId, AccountId)>,
    /// The stakes unbonded and not yet withdrawn.
    pub unbonded_stakes: UnbondedStakes,
    /// The profiles of the validators.
    pub validator_profiles: ValidatorProfiles,
    /// The settings of the appchain.
    pub appchain_settings: AppchainSettings,
    /// The settings of the anchor.
    pub anchor_settings: AnchorSettings,
    /// The settings of the staking protocol.
    pub protocol_settings: ProtocolSettings,
    /// The state of the appchain.
    pub appchain_state: AppchainState,
    /// The staking facts, in the order in which they happened.
    pub staking_histories: LookupArray<StakingHistory>,
    /// The notifications sent to the appchain.
    pub appchain_notification_histories: LookupArray<AppchainNotificationHistory>,
    /// The progress of the actions that anyone may drive.
    pub permissionless_actions_status: PermissionlessActionsStatus,
    /// The rewards that have been distributed.
    pub reward_distribution_records: RewardDistributionRecords,
    /// Whether the transfer of assets is paused.
    pub asset_transfer_is_paused: bool,
    /// The staking histories of each user.
    pub user_staking_histories: UserStakingHistories,
    /// Whether the withdrawal of rewards is paused.
    pub rewards_withdrawal_is_paused: bool,
    /// The staged messages of the appchain.
    pub appchain_messages: AppchainMessages,
    /// The challenges raised against the appchain.
    pub appchain_challenges: LookupArray<AppchainChallenge>,
    /// The fungible tokens of NEAR protocol that the anchor bridges.
    pub near_fungible_tokens: NearFungibleTokens,
    /// The native token of the appchain, wrapped on NEAR protocol.
    pub wrapped_appchain_token: WrappedAppchainToken,
    /// The native token of NEAR protocol, as the anchor bridges it.
    pub native_near_token: NativeNearToken,
    /// The events of the anchor.
    pub anchor_event_histories: AnchorEventHistories,
    /// The classes of non-fungible tokens of the appchain wrapped in NEAR protocol.
    pub wrapped_appchain_nfts: WrappedAppchainNFTs,
}

impl AppchainAnchor {
    /// Whether the parts of the anchor are well formed.
    pub open spec fn wf(&self) -> bool {
        &&& self.next_validator_set.wf()
        &&& forall|e: u64| #[trigger]
            self.validator_set_histories.records().contains_key(e) ==> self.validator_set_histories.records()[e].wf()
        &&& self.unwithdrawn_validator_rewards.wf()
        &&& self.unwithdrawn_delegator_rewards.wf()
    }

    /// Whether the parts of the anchor `a` other than its identity, its
    /// OCT token and the state of its appchain are as a new anchor has them:
    /// default settings, and no validator, reward, unbonded stake, profile,
    /// staking fact, notification, message, record or challenge.
    pub open spec fn is_fresh(a: AppchainAnchor) -> bool {
        &&& a.validator_set_histories.records() == Map::<u64, ValidatorSetOfEra>::empty()
        &&& a.validator_set_histories.start() == 0
        &&& a.validator_set_histories.end() == 0
        &&& a.next_validator_set.set().era_number == u64::MAX
        &&& a.next_validator_set.set().validators == Seq::<Validator>::empty()
        &&& a.next_validator_set.set().groups == Seq::<(Seq<char>, Seq<Delegator>)>::empty()
        &&& a.next_validator_set.set().total_stake == 0
        &&& a.next_validator_set.unbonding_ids() == Seq::<AccountId>::empty()
        &&& a.next_validator_set.auto_unbonding_ids() == Seq::<AccountId>::empty()
        &&& a.unwithdrawn_validator_rewards.amounts() == Map::<(int, Seq<Seq<char>>), u128>::empty()
        &&& a.unwithdrawn_delegator_rewards.amounts() == Map::<(int, Seq<Seq<char>>), u128>::empty()
        &&& forall|id: Seq<char>| #[trigger] a.unbonded_stakes.stakes_of(id).len() == 0
        &&& a.validator_profiles.entries() == Seq::<crate::profiles::ValidatorProfile>::empty()
        &&& a.appchain_settings.rpc_endpoint@ == Seq::<char>::empty()
        &&& a.appchain_settings.subql_endpoint@ == Seq::<char>::empty()
        &&& a.appchain_settings.era_reward == 0
        &&& a.appchain_settings.bonus_for_new_validator == 0
        &&& a.anchor_settings.token_price_maintainer_account is None
        &&& a.anchor_settings.relayer_account is None
        &&& !a.anchor_settings.beefy_light_client_witness_mode
        &&& a.anchor_settings.min_length_of_validator_set_history == u64::MAX
        &&& a.protocol_settings == default_protocol_settings()
        &&& a.staking_histories.records() == Map::<u64, StakingHistory>::empty()
        &&& a.staking_histories.start() == 0
        &&& a.staking_histories.end() == 0
        &&& a.appchain_notification_histories.records() == Map::<u64, AppchainNotificationHistory>::empty()
        &&& a.appchain_notification_histories.start() == 0
        &&& a.appchain_notification_histories.end() == 0
        &&& a.permissionless_actions_status == (PermissionlessActionsStatus {
            switching_era_number: None,
            distributing_reward_era_number: None,
            processing_appchain_message_nonce: None,
            max_nonce_of_staged_appchain_messages: 0,
            latest_applied_appchain_message_nonce: 0,
        })
        &&& a.reward_distribution_records.record_set() == Set::<(u32, u64, Seq<char>, Seq<char>)>::empty()
        &&& a.reward_distribution_records.eras() == Seq::<u64>::empty()
        &&& a.reward_distribution_records.nonces_of() == Map::<u64, Seq<u32>>::empty()
        &&& !a.asset_transfer_is_paused
        &&& a.user_staking_histories.entries().len() == 0
        &&& !a.rewards_withdrawal_is_paused
        &&& a.appchain_messages.messages() == Map::<u32, crate::messages::AppchainMessage>::empty()
        &&& a.appchain_messages.results() == Map::<u32, crate::types::AppchainMessageProcessingResult>::empty()
        &&& a.appchain_messages.lowest() == 0
        &&& a.appchain_messages.highest() == 0
        &&& a.appchain_challenges.records() == Map::<u64, AppchainChallenge>::empty()
        &&& a.appchain_challenges.start() == 0
        &&& a.appchain_challenges.end() == 0
        &&& a.near_fungible_tokens.entries() == Seq::<crate::fungible_tokens::NearFungibleToken>::empty()
        &&& a.anchor_event_histories.records() == Map::<u64, crate::types::AnchorEventHistory>::empty()
        &&& a.anchor_event_histories.start() == 0
        &&& a.anchor_event_histories.end() == 0
        &&& a.wrapped_appchain_nfts.entries() == Seq::<(String, crate::nfts::InternalWrappedAppchainNFT)>::empty()
    }

    /// A new anchor of the appchain `appchain_id`, owned by `owner`, in the
    /// staging state, with default settings and no validator, staking fact,
    /// notification, message or challenge.
    pub fn new(
        appchain_id: AppchainId,
        appchain_template_type: AppchainTemplateType,
        appchain_registry: AccountId,
        oct_token: AccountId,
        owner: AccountId,
    ) -> (res: Self)
        ensures
            res.wf(),
            res.appchain_id == appchain_id,
            res.appchain_template_type == appchain_template_type,
            res.appchain_registry == appchain_registry,
            res.owner == owner,
            res.oct_token.contract_account == oct_token,
            res.oct_token.price_in_usd == 0,
            Self::is_fresh(res),
            is_unset_wrapped_token(res.wrapped_appchain_token),
            res.native_near_token == (NativeNearToken {
                locked_balance: 0,
                bridging_state: crate::types::BridgingState::Closed,
                price_in_usd: 0,
            }),
            res.appchain_state == AppchainState::Staging,
    {
        AppchainAnchor {
            appchain_id,
            appchain_template_type,
            appchain_registry,
            owner,
            oct_token: OctToken { contract_account: oct_token, price_in_usd: 0 },
            validator_set_histories: LookupArray::new(),
            next_validator_set: NextValidatorSet::new(u64::MAX),
            unwithdrawn_validator_rewards: BalanceMap::new(),
            unwithdrawn_delegator_rewards: BalanceMap::new(),
            unbonded_stakes: UnbondedStakes::new(),
            validator_profiles: ValidatorProfiles::new(),
            appchain_settings: AppchainSettings::default(),
            anchor_settings: AnchorSettings::default(),
            protocol_settings: ProtocolSettings::default(),
            appchain_state: AppchainState::Staging,
            staking_histories: LookupArray::new(),
            appchain_notification_histories: LookupArray::new(),
            permissionless_actions_status: PermissionlessActionsStatus {
                switching_era_number: None,
                distributing_reward_era_number: None,
                processing_appchain_message_nonce: None,
                max_nonce_of_staged_appchain_messages: 0,
                latest_applied_appchain_message_nonce: 0,
            },
            reward_distribution_records: RewardDistributionRecords::new(),
            asset_transfer_is_paused: false,
            user_staking_histories: UserStakingHistories::new(),
            rewards_withdrawal_is_paused: false,
            appchain_messages: AppchainMessages::new(),
            appchain_challenges: LookupArray::new(),
            near_fungible_tokens: NearFungibleTokens::new(),
            wrapped_appchain_token: WrappedAppchainToken::default(),
            native_near_token: NativeNearToken::default(),
            anchor_event_histories: AnchorEventHistories::new(),
            wrapped_appchain_nfts: WrappedAppchainNFTs::new(),
        }
    }

    /// The state of `old_contract` reset: it keeps the identity of the
    /// anchor, its owner, its OCT token, its wrapped appchain token and its
    /// native NEAR token, and starts over with the appchain booting, default
    /// settings and nothing else.
    pub fn reset_contract_state(old_contract: AppchainAnchor) -> (res: Self)
        ensures
            res.wf(),
            res.appchain_id == old_contract.appchain_id,
            res.appchain_template_type == old_contract.appchain_template_type,
            res.appchain_registry == old_contract.appchain_registry,
            res.owner == old_contract.owner,
            res.oct_token == old_contract.oct_token,
            Self::is_fresh(res),
            res.wrapped_appchain_token == old_contract.wrapped_appchain_token,
            res.native_near_token == old_contract.native_near_token,
            res.appchain_state == AppchainState::Booting,
    {
        let mut res = Self::new(
            old_contract.appchain_id,
            old_contract.appchain_template_type,
            old_contract.appchain_registry,
            String::new(),
            old_contract.owner,
        );
        res.oct_token = old_contract.oct_token;
        res.wrapped_appchain_token = old_contract.wrapped_appchain_token;
        res.native_near_token = old_contract.native_near_token;
        res.appchain_state = AppchainState::Booting;
        res
    }

    /// The status of the anchor: the stake and members of the next validator
    /// set, the ranges of its histories, messages and challenges, and what
    /// is paused.
    pub fn get_anchor_status(&self) -> (res: AnchorStatus)
        requires
            self.next_validator_set.wf(),
            delegator_total(self.next_validator_set.set(), self.next_validator_set.set().validators) <= u64::MAX,
        ensures
            res.total_stake_in_next_era == self.next_validator_set.set().total_stake,
            res.validator_count_in_next_era == self.next_validator_set.set().validators.len(),
            res.delegator_count_in_next_era == delegator_total(
                self.next_validator_set.set(),
                self.next_validator_set.set().validators,
            ),
            res.index_range_of_appchain_notification_history == (IndexRange {
                start_index: self.appchain_notification_histories.start(),
                end_index: self.appchain_notification_histories.end(),
            }),
            res.index_range_of_validator_set_history == (IndexRange {
                start_index: self.validator_set_histories.start(),
                end_index: self.validator_set_histories.end(),
            }),
            res.index_range_of_staking_history == (IndexRange {
                start_index: self.staking_histories.start(),
                end_index: self.staking_histories.end(),
            }),
            res.nonce_range_of_appchain_messages == (IndexRange {
                start_index: self.appchain_messages.lowest() as u64,
                end_index: self.appchain_messages.highest() as u64,
            }),
            res.index_range_of_appchain_challenges == (IndexRange {
                start_index: self.appchain_challenges.start(),
                end_index: self.appchain_challenges.end(),
            }),
            res.permissionless_actions_status == self.permissionless_actions_status,
            res.asset_transfer_is_paused == self.asset_transfer_is_paused,
            res.rewards_withdrawal_is_paused == self.rewards_withdrawal_is_paused,
    {
        let set = self.next_validator_set.validator_set();
        AnchorStatus {
            total_stake_in_next_era: set.total_stake(),
            validator_count_in_next_era: set.validator_count(),
            delegator_count_in_next_era: set.delegator_count(),
            index_range_of_appchain_notification_history: self.appchain_notification_histories.index_range(),
            index_range_of_validator_set_history: self.validator_set_histories.index_range(),
            index_range_of_staking_history: self.staking_histories.index_range(),
            nonce_range_of_appchain_messages: IndexRange {
                start_index: self.appchain_messages.min_nonce() as u64,
                end_index: self.appchain_messages.max_nonce() as u64,
            },
            index_range_of_appchain_challenges: self.appchain_challenges.index_range(),
            permissionless_actions_status: self.permissionless_actions_status,
            asset_transfer_is_paused: self.asset_transfer_is_paused,
            rewards_withdrawal_is_paused: self.rewards_withdrawal_is_paused,
        }
    }

    /// Appends the notification `appchain_notification` for the appchain to
    /// the notification histories, at `block_height` and `timestamp`, and
    /// gives the history that holds it.
    pub fn internal_append_appchain_notification(
        &mut self,
        appchain_notification: AppchainNotification,
        block_height: u64,
        timestamp: u64,
    ) -> (res: AppchainNotificationHistory)
        requires
            old(self).appchain_notification_histories.records().contains_key(0)
                ==> old(self).appchain_notification_histories.end() < u64::MAX,
        ensures
            res == (AppchainNotificationHistory {
                appchain_notification,
                block_height,
                timestamp,
                index: old(self).appchain_notification_histories.next_index(),
            }),
            final(self).appchain_notification_histories.records() == old(
                self,
            ).appchain_notification_histories.records().insert(res.index, res),
            final(self).appchain_notification_histories.start() == old(self).appchain_notification_histories.start(),
            final(self).appchain_notification_histories.end() == res.index,
            *final(self) == (AppchainAnchor {
                appchain_notification_histories: final(self).appchain_notification_histories,
                ..*old(self)
            }),
    {
        let copy = appchain_notification.duplicate();
        let index = self.appchain_notification_histories.append(
            AppchainNotificationHistory { appchain_notification, block_height, timestamp, index: 0 },
        );
        AppchainNotificationHistory { appchain_notification: copy, block_height, timestamp, index }
    }

    /// Delivers `message`, signed by `sender_id_in_near`, to the agent of the
    /// appchain: it is appended to the notification histories at
    /// `block_height` and `timestamp`, and the history that holds it is given.
    pub fn deliver_appchain_agent_message(
        &mut self,
        sender_id_in_near: AccountId,
        message: String,
        block_height: u64,
        timestamp: u64,
    ) -> (res: AppchainNotificationHistory)
        requires
            old(self).appchain_notification_histories.records().contains_key(0)
                ==> old(self).appchain_notification_histories.end() < u64::MAX,
        ensures
            res == (AppchainNotificationHistory {
                appchain_notification: AppchainNotification::AppchainAgentMessageSigned { sender_id_in_near, message },
                block_height,
                timestamp,
                index: old(self).appchain_notification_histories.next_index(),
            }),
            final(self).appchain_notification_histories.records() == old(
                self,
            ).appchain_notification_histories.records().insert(res.index, res),
            final(self).appchain_notification_histories.start() == old(self).appchain_notification_histories.start(),
            final(self).appchain_notification_histories.end() == res.index,
            *final(self) == (AppchainAnchor {
                appchain_notification_histories: final(self).appchain_notification_histories,
                ..*old(self)
            }),
    {
        self.internal_append_appchain_notification(
            AppchainNotification::AppchainAgentMessageSigned { sender_id_in_near, message },
            block_height,
            timestamp,
        )
    }

    /// Refuses a request of anyone but the owner.
    pub fn assert_owner(&self, caller: &AccountId) -> (res: Result<(), AnchorError>)
        ensures
            res == if caller@ == self.owner@ {
                Ok::<(), AnchorError>(())
            } else {
                Err::<(), AnchorError>(AnchorError::NotAuthorized)
            },
    {
        if *caller == self.owner {
            Ok(())
        } else {
            Err(AnchorError::NotAuthorized)
        }
    }

    fn change_protocol_settings(&mut self, caller: &AccountId, change: ProtocolSettingsChange) -> (res: Result<(), AnchorError>)
        ensures
            owner_gated(
                old(self).owner@,
                caller@,
                *old(self),
                *final(self),
                res,
                match changed_protocol_settings(old(self).protocol_settings, change) {
                    Ok(p) => Ok(AppchainAnchor { protocol_settings: p, ..*old(self) }),
                    Err(e) => Err(e),
                },
            ),
    {
        if *caller != self.owner {
            return Err(AnchorError::NotAuthorized);
        }
        match apply_protocol_settings_change(&self.protocol_settings, change) {
            Ok(p) => {
                self.protocol_settings = p;
                Ok(())
            },
            Err(e) => Err(e),
        }
    }
}

impl Owned for AppchainAnchor {
    open spec fn owner_account(self) -> Seq<char> {
        self.owner@
    }
}

impl ProtocolSettingsManager for AppchainAnchor {
    open spec fn protocol_settings_held(self) -> ProtocolSettings {
        self.protocol_settings
    }

    open spec fn with_protocol_settings(self, settings: ProtocolSettings) -> Self {
        AppchainAnchor { protocol_settings: settings, ..self }
    }

    fn change_minimum_validator_deposit(&mut self, caller: &AccountId, value: u128) -> (res: Result<(), AnchorError>) {
        self.change_protocol_settings(caller, ProtocolSettingsChange::MinimumValidatorDeposit(value))
    }

    fn change_minimum_validator_deposit_changing_amount(&mut self, caller: &AccountId, value: u128) -> (res: Result<(), AnchorError>) {
        self.change_protocol_settings(caller, ProtocolSettingsChange::MinimumValidatorDepositChangingAmount(value))
    }

    fn change_maximum_validator_stake_percent(&mut self, caller: &AccountId, value: u16) -> (res: Result<(), AnchorError>) {
        self.change_protocol_settings(caller, ProtocolSettingsChange::MaximumValidatorStakePercent(value))
    }

    fn change_minimum_delegator_deposit(&mut self, caller: &AccountId, value: u128) -> (res: Result<(), AnchorError>) {
        self.change_protocol_settings(caller, ProtocolSettingsChange::MinimumDelegatorDeposit(value))
    }

    fn change_minimum_delegator_deposit_changing_amount(&mut self, caller: &AccountId, value: u128) -> (res: Result<(), AnchorError>) {
        self.change_protocol_settings(caller, ProtocolSettingsChange::MinimumDelegatorDepositChangingAmount(value))
    }

    fn change_minimum_total_stake_price_for_booting(&mut self, caller: &AccountId, value: u128) -> (res: Result<(), AnchorError>) {
        self.change_protocol_settings(caller, ProtocolSettingsChange::MinimumTotalStakePriceForBooting(value))
    }

    fn change_maximum_market_value_percent_of_near_fungible_tokens(&mut self, caller: &AccountId, value: u16) -> (res: Result<(), AnchorError>) {
        self.change_protocol_settings(caller, ProtocolSettingsChange::MaximumMarketValuePercentOfNearFungibleTokens(value))
    }

    fn change_maximum_market_value_percent_of_wrapped_appchain_token(&mut self, caller: &AccountId, value: u16) -> (res: Result<(), AnchorError>) {
        self.change_protocol_settings(caller, ProtocolSettingsChange::MaximumMarketValuePercentOfWrappedAppchainToken(value))
    }

    fn change_minimum_validator_count(&mut self, caller: &AccountId, value: u64) -> (res: Result<(), AnchorError>) {
        self.change_protocol_settings(caller, ProtocolSettingsChange::MinimumValidatorCount(value))
    }

    fn change_maximum_validator_count(&mut self, caller: &AccountId, value: u64) -> (res: Result<(), AnchorError>) {
        self.change_protocol_settings(caller, ProtocolSettingsChange::MaximumValidatorCount(value))
    }

    fn change_maximum_validators_per_delegator(&mut self, caller: &AccountId, value: u64) -> (res: Result<(), AnchorError>) {
        self.change_protocol_settings(caller, ProtocolSettingsChange::MaximumValidatorsPerDelegator(value))
    }

    fn change_unlock_period_of_validator_deposit(&mut self, caller: &AccountId, value: u64) -> (res: Result<(), AnchorError>) {
        self.change_protocol_settings(caller, ProtocolSettingsChange::UnlockPeriodOfValidatorDeposit(value))
    }

    fn change_unlock_period_of_delegator_deposit(&mut self, caller: &AccountId, value: u64) -> (res: Result<(), AnchorError>) {
        self.change_protocol_settings(caller, ProtocolSettingsChange::UnlockPeriodOfDelegatorDeposit(value))
    }

    fn change_maximum_era_count_of_unwithdrawn_reward(&mut self, caller: &AccountId, value: u64) -> (res: Result<(), AnchorError>) {
        self.change_protocol_settings(caller, ProtocolSettingsChange::MaximumEraCountOfUnwithdrawnReward(value))
    }

    fn change_maximum_era_count_of_valid_appchain_message(&mut self, caller: &AccountId, value: u64) -> (res: Result<(), AnchorError>) {
        self.change_protocol_settings(caller, ProtocolSettingsChange::MaximumEraCountOfValidAppchainMessage(value))
    }

    fn change_validator_commission_percent(&mut self, caller: &AccountId, value: u16) -> (res: Result<(), AnchorError>) {
        self.change_protocol_settings(caller, ProtocolSettingsChange::ValidatorCommissionPercent(value))
    }

    fn change_maximum_allowed_unprofitable_era_count(&mut self, caller: &AccountId, value: u16) -> (res: Result<(), AnchorError>) {
        self.change_protocol_settings(caller, ProtocolSettingsChange::MaximumAllowedUnprofitableEraCount(value))
    }
}

impl AppchainSettingsManager for AppchainAnchor {
    open spec fn appchain_settings_held(self) -> AppchainSettings {
        self.appchain_settings
    }

    open spec fn with_appchain_settings(self, settings: AppchainSettings) -> Self {
        AppchainAnchor { appchain_settings: settings, ..self }
    }

    fn set_rpc_endpoint(&mut self, caller: &AccountId, rpc_endpoint: String) -> (res: Result<(), AnchorError>) {
        if *caller != self.owner {
            return Err(AnchorError::NotAuthorized);
        }
        self.appchain_settings.rpc_endpoint = rpc_endpoint;
        Ok(())
    }

    fn set_subql_endpoint(&mut self, caller: &AccountId, subql_endpoint: String) -> (res: Result<(), AnchorError>) {
        if *caller != self.owner {
            return Err(AnchorError::NotAuthorized);
        }
        self.appchain_settings.subql_endpoint = subql_endpoint;
        Ok(())
    }

    fn set_era_reward(&mut self, caller: &AccountId, era_reward: u128) -> (res: Result<(), AnchorError>) {
        if *caller != self.owner {
            return Err(AnchorError::NotAuthorized);
        }
        self.appchain_settings.era_reward = era_reward;
        Ok(())
    }

    fn set_bonus_for_new_validator(&mut self, caller: &AccountId, bonus_amount: u128) -> (res: Result<(), AnchorError>) {
        if *caller != self.owner {
            return Err(AnchorError::NotAuthorized);
        }
        self.appchain_settings.bonus_for_new_validator = bonus_amount;
        Ok(())
    }
}

impl AnchorSettingsManager for AppchainAnchor {
    open spec fn anchor_settings_held(self) -> AnchorSettings {
        self.anchor_settings
    }

    open spec fn with_anchor_settings(self, settings: AnchorSettings) -> Self {
        AppchainAnchor { anchor_settings: settings, ..self }
    }

    fn set_token_price_maintainer_account(&mut self, caller: &AccountId, account_id: AccountId) -> (res: Result<(), AnchorError>) {
        if *caller != self.owner {
            return Err(AnchorError::NotAuthorized);
        }
        if account_id == self.owner {
            return Err(AnchorError::AccountIsOwner);
        }
        self.anchor_settings.token_price_maintainer_account = Some(account_id);
        Ok(())
    }

    fn set_relayer_account(&mut self, caller: &AccountId, account_id: AccountId) -> (res: Result<(), AnchorError>) {
        if *caller != self.owner {
            return Err(AnchorError::NotAuthorized);
        }
        if account_id == self.owner {
            return Err(AnchorError::AccountIsOwner);
        }
        self.anchor_settings.relayer_account = Some(account_id);
        Ok(())
    }

    fn turn_on_beefy_light_client_witness_mode(&mut self, caller: &AccountId) -> (res: Result<(), AnchorError>) {
        if *caller != self.owner {
            return Err(AnchorError::NotAuthorized);
        }
        if self.anchor_settings.beefy_light_client_witness_mode {
            return Err(AnchorError::WitnessModeAlreadyOn);
        }
        self.anchor_settings.beefy_light_client_witness_mode = true;
        Ok(())
    }

    fn turn_off_beefy_light_client_witness_mode(&mut self, caller: &AccountId) -> (res: Result<(), AnchorError>) {
        if *caller != self.owner {
            return Err(AnchorError::NotAuthorized);
        }
        if !self.anchor_settings.beefy_light_client_witness_mode {
            return Err(AnchorError::WitnessModeAlreadyOff);
        }
        self.anchor_settings.beefy_light_client_witness_mode = false;
        Ok(())
    }

    fn set_min_length_of_validator_set_history(&mut self, caller: &AccountId, min_length: u64) -> (res: Result<(), AnchorError>) {
        if *caller != self.owner {
            return Err(AnchorError::NotAuthorized);
        }
        if self.anchor_settings.min_length_of_validator_set_history == min_length {
            return Err(AnchorError::ValueNotChanged);
        }
        self.anchor_settings.min_length_of_validator_set_history = min_length;
        Ok(())
    }
}

} // verus!
