//! The data of an appchain anchor: settings, staking facts, events,
//! notifications and the status of the permissionless actions.
use vstd::prelude::*;

verus! {

/// The account id of a user in NEAR protocol.
pub type AccountId = String;

/// The id of an appchain.
pub type AppchainId = String;

/// The template that an appchain is built from.
#[derive(Clone, Copy, Debug, PartialEq, Eq)]
pub enum AppchainTemplateType {
    Barnacle,
    BarnacleEvm,
}

/// The state of an appchain.
#[derive(Clone, Copy, Debug, PartialEq, Eq)]
pub enum AppchainState {
    /// The initial state of an appchain, after it is successfully registered.
    Registered,
    /// The state while the appchain is under auditing by Octopus Network.
    Auditing,
    /// The state while voter can upvote or downvote an appchain.
    InQueue,
    /// The state while validator and delegator can deposit OCT tokens to this contract.
    Staging,
    /// The state while an appchain is booting.
    Booting,
    /// The state while an appchain is active normally.
    Active,
    /// The state while an appchain is under challenging.
    Frozen,
    /// The state which an appchain is broken for some technical or governance reasons.
    Broken,
    /// The state which the lifecycle of an appchain is end.
    Dead,
}

/// The custom settings of an appchain.
#[derive(Clone, Debug, PartialEq, Eq)]
pub struct AppchainSettings {
    pub rpc_endpoint: String,
    pub subql_endpoint: String,
    pub era_reward: u128,
    pub bonus_for_new_validator: u128,
}

/// The settings of the anchor itself.
#[derive(Clone, Debug, PartialEq, Eq)]
pub struct AnchorSettings {
    pub token_price_maintainer_account: Option<AccountId>,
    pub relayer_account: Option<AccountId>,
    pub beefy_light_client_witness_mode: bool,
    /// The number of eras of validator sets that the removal of the oldest
    /// set must leave.
    pub min_length_of_validator_set_history: u64,
}

/// The settings of the staking protocol.
#[derive(Clone, Copy, Debug, PartialEq, Eq)]
pub struct ProtocolSettings {
    /// The deposit that a validator needs at least.
    pub minimum_validator_deposit: u128,
    /// The least amount by which a validator increases or decreases his/her deposit.
    pub minimum_validator_deposit_changing_amount: u128,
    /// The largest percent of the total stake that the stake of one validator may be.
    pub maximum_validator_stake_percent: u16,
    /// The deposit that a delegator needs at least.
    pub minimum_delegator_deposit: u128,
    /// The least amount by which a delegator increases or decreases his/her delegation.
    pub minimum_delegator_deposit_changing_amount: u128,
    /// The least price (in USD) of the total stake for booting the appchain.
    pub minimum_total_stake_price_for_booting: u128,
    /// The largest percent of the market value of the staked OCT token that the
    /// NEAR fungible tokens may have.
    pub maximum_market_value_percent_of_near_fungible_tokens: u16,
    /// The largest percent of the market value of the staked OCT token that the
    /// wrapped appchain token may have.
    pub maximum_market_value_percent_of_wrapped_appchain_token: u16,
    /// The least number of validators.
    pub minimum_validator_count: u64,
    /// The largest number of validators.
    pub maximum_validator_count: u64,
    /// The largest number of validators that a delegator may delegate to.
    pub maximum_validators_per_delegator: u64,
    /// The unlock period (in days) of the deposit of a validator.
    pub unlock_period_of_validator_deposit: u64,
    /// The unlock period (in days) of the deposit of a delegator.
    pub unlock_period_of_delegator_deposit: u64,
    /// The number of past eras in which rewards can still be withdrawn.
    pub maximum_era_count_of_unwithdrawn_reward: u64,
    /// The number of past eras for which an appchain message is still valid.
    pub maximum_era_count_of_valid_appchain_message: u64,
    /// The percent of the reward of a validator that the validator takes as commission.
    pub validator_commission_percent: u16,
    /// The number of unprofitable eras after which a validator is unbonded.
    pub maximum_allowed_unprofitable_era_count: u16,
}

/// The OCT token.
#[derive(Clone, Debug, PartialEq, Eq)]
pub struct OctToken {
    pub contract_account: AccountId,
    pub price_in_usd: u128,
}

/// The bridging state of a token.
#[derive(Clone, Copy, Debug, PartialEq, Eq)]
pub enum BridgingState {
    /// The token is bridged to the appchain.
    Active,
    /// The token is no longer bridged to the appchain.
    Closed,
}

/// A change of the staking of a validator or a delegator.
#[derive(Clone, Debug, PartialEq, Eq)]
pub enum StakingFact {
    /// A new validator is registered.
    ValidatorRegistered {
        validator_id: AccountId,
        validator_id_in_appchain: String,
        amount: u128,
        can_be_delegated_to: bool,
    },
    /// A validator increases his stake.
    StakeIncreased { validator_id: AccountId, amount: u128 },
    /// A validator decreases his stake.
    StakeDecreased { validator_id: AccountId, amount: u128 },
    /// A validator unbonds his stake.
    ValidatorUnbonded { validator_id: AccountId, amount: u128 },
    /// A validator accepts delegations again.
    ValidatorDelegationEnabled { validator_id: AccountId },
    /// A validator no longer accepts delegations.
    ValidatorDelegationDisabled { validator_id: AccountId },
    /// A new delegator is registered.
    DelegatorRegistered { delegator_id: AccountId, validator_id: AccountId, amount: u128 },
    /// A delegator increases his delegation to a validator.
    DelegationIncreased { delegator_id: AccountId, validator_id: AccountId, amount: u128 },
    /// A delegator decreases his delegation to a validator.
    DelegationDecreased { delegator_id: AccountId, validator_id: AccountId, amount: u128 },
    /// A delegator unbonds his delegation to a validator.
    DelegatorUnbonded { delegator_id: AccountId, validator_id: AccountId, amount: u128 },
    /// A validator is unbonded by the anchor.
    ValidatorAutoUnbonded { validator_id: AccountId, amount: u128 },
    /// A delegator is unbonded by the anchor.
    DelegatorAutoUnbonded { delegator_id: AccountId, validator_id: AccountId, amount: u128 },
    /// The account id in the appchain of a validator changes.
    ValidatorIdInAppchainChanged { validator_id: AccountId, validator_id_in_appchain: String },
}

/// A staking fact with the block in which it happened.
#[derive(Clone, Debug, PartialEq, Eq)]
pub struct StakingHistory {
    pub staking_fact: StakingFact,
    pub block_height: u64,
    pub timestamp: u64,
    pub index: u64,
}

/// A staking fact of a user, with whether it has taken effect.
#[derive(Clone, Debug, PartialEq, Eq)]
pub struct UserStakingHistory {
    pub staking_fact: StakingFact,
    pub block_height: u64,
    pub timestamp: u64,
    pub has_taken_effect: bool,
}

/// An event of the anchor for the appchain.
#[derive(Clone, Debug, PartialEq, Eq)]
pub enum AnchorEvent {
    /// An amount of a NEAR fungible token is locked in the anchor.
    NearFungibleTokenLocked {
        symbol: String,
        sender_id_in_near: AccountId,
        receiver_id_in_appchain: String,
        amount: u128,
    },
    /// An amount of a NEAR fungible token is unlocked and transferred.
    NearFungibleTokenUnlocked {
        symbol: String,
        sender_id_in_appchain: String,
        receiver_id_in_near: AccountId,
        amount: u128,
        appchain_message_nonce: u32,
    },
    /// Unlocking an amount of a NEAR fungible token failed.
    FailedToUnlockNearFungibleToken {
        symbol: String,
        sender_id_in_appchain: String,
        receiver_id_in_near: AccountId,
        amount: u128,
        appchain_message_nonce: u32,
        reason: String,
    },
    /// An amount of wrapped appchain token is burnt.
    WrappedAppchainTokenBurnt {
        sender_id_in_near: AccountId,
        receiver_id_in_appchain: String,
        amount: u128,
    },
    /// Burning an amount of wrapped appchain token failed.
    FailedToBurnWrappedAppchainToken {
        sender_id_in_near: AccountId,
        receiver_id_in_appchain: String,
        amount: u128,
        reason: String,
    },
    /// An amount of wrapped appchain token is minted.
    WrappedAppchainTokenMinted {
        sender_id_in_appchain: Option<String>,
        receiver_id_in_near: AccountId,
        amount: u128,
        appchain_message_nonce: u32,
    },
    /// Minting an amount of wrapped appchain token failed.
    FailedToMintWrappedAppchainToken {
        sender_id_in_appchain: Option<String>,
        receiver_id_in_near: AccountId,
        amount: u128,
        appchain_message_nonce: u32,
        reason: String,
    },
}

/// An anchor event with the block in which it happened.
#[derive(Clone, Debug, PartialEq, Eq)]
pub struct AnchorEventHistory {
    pub anchor_event: AnchorEvent,
    pub block_height: u64,
    pub timestamp: u64,
    pub index: u64,
}

/// A bridging of a token with the block in which it happened.
#[derive(Clone, Debug, PartialEq, Eq)]
pub struct TokenBridgingHistory {
    pub token_bridging_fact: AnchorEvent,
    pub block_height: u64,
    pub timestamp: u64,
    pub index: u64,
}

/// A validator as the appchain sees it.
#[derive(Clone, Debug, PartialEq, Eq)]
pub struct AppchainValidator {
    pub validator_id: AccountId,
    pub validator_id_in_appchain: String,
    pub deposit_amount: u128,
    pub total_stake: u128,
    pub delegators_count: u64,
    pub can_be_delegated_to: bool,
    pub is_unbonding: bool,
}

/// A delegator as the appchain sees it.
#[derive(Clone, Debug, PartialEq, Eq)]
pub struct AppchainDelegator {
    pub delegator_id: AccountId,
    pub validator_id: AccountId,
    pub delegation_amount: u128,
}

/// A stake that has been unbonded.
#[derive(Clone, Debug, PartialEq, Eq)]
pub struct UnbondedStake {
    pub era_number: u64,
    pub account_id: AccountId,
    pub amount: u128,
    pub unlock_time: u64,
}

/// The step that the making of a validator set of an era has reached.
/// The steps are taken in this order: `CopyingFromLastEra`, `UnbondingValidator`,
/// `AutoUnbondingValidator`, `ApplyingStakingHistory`, `ReadyForDistributingReward`,
/// `DistributingReward`, `CheckingForAutoUnbondingValidator`, `Completed`.
#[derive(Clone, Copy, Debug, PartialEq, Eq)]
pub enum ValidatorSetProcessingStatus {
    CopyingFromLastEra { copying_validator_index: u64, copying_delegator_index: u64 },
    ApplyingStakingHistory { applying_index: u64 },
    ReadyForDistributingReward,
    DistributingReward {
        appchain_message_nonce: u32,
        distributing_validator_index: u64,
        distributing_delegator_index: u64,
    },
    Completed,
    UnbondingValidator { unbonding_validator_index: u64, unbonding_delegator_index: u64 },
    AutoUnbondingValidator { unbonding_validator_index: u64, unbonding_delegator_index: u64 },
    CheckingForAutoUnbondingValidator { unprofitable_validator_index: u64 },
}

impl StakingFact {
    /// A copy of the fact.
    pub fn duplicate(&self) -> (res: StakingFact)
        ensures
            res == *self,
    {
        match self {
            StakingFact::ValidatorRegistered { validator_id, validator_id_in_appchain, amount, can_be_delegated_to } => {
                StakingFact::ValidatorRegistered {
                    validator_id: validator_id.clone(),
                    validator_id_in_appchain: validator_id_in_appchain.clone(),
                    amount: *amount,
                    can_be_delegated_to: *can_be_delegated_to,
                }
            },
            StakingFact::StakeIncreased { validator_id, amount } => StakingFact::StakeIncreased {
                validator_id: validator_id.clone(),
                amount: *amount,
            },
            StakingFact::StakeDecreased { validator_id, amount } => StakingFact::StakeDecreased {
                validator_id: validator_id.clone(),
                amount: *amount,
            },
            StakingFact::ValidatorUnbonded { validator_id, amount } => StakingFact::ValidatorUnbonded {
                validator_id: validator_id.clone(),
                amount: *amount,
            },
            StakingFact::ValidatorDelegationEnabled { validator_id } => StakingFact::ValidatorDelegationEnabled {
                validator_id: validator_id.clone(),
            },
            StakingFact::ValidatorDelegationDisabled { validator_id } => StakingFact::ValidatorDelegationDisabled {
                validator_id: validator_id.clone(),
            },
            StakingFact::DelegatorRegistered { delegator_id, validator_id, amount } => StakingFact::DelegatorRegistered {
                delegator_id: delegator_id.clone(),
                validator_id: validator_id.clone(),
                amount: *amount,
            },
            StakingFact::DelegationIncreased { delegator_id, validator_id, amount } => StakingFact::DelegationIncreased {
                delegator_id: delegator_id.clone(),
                validator_id: validator_id.clone(),
                amount: *amount,
            },
            StakingFact::DelegationDecreased { delegator_id, validator_id, amount } => StakingFact::DelegationDecreased {
                delegator_id: delegator_id.clone(),
                validator_id: validator_id.clone(),
                amount: *amount,
            },
            StakingFact::DelegatorUnbonded { delegator_id, validator_id, amount } => StakingFact::DelegatorUnbonded {
                delegator_id: delegator_id.clone(),
                validator_id: validator_id.clone(),
                amount: *amount,
            },
            StakingFact::ValidatorAutoUnbonded { validator_id, amount } => StakingFact::ValidatorAutoUnbonded {
                validator_id: validator_id.clone(),
                amount: *amount,
            },
            StakingFact::DelegatorAutoUnbonded { delegator_id, validator_id, amount } => StakingFact::DelegatorAutoUnbonded {
                delegator_id: delegator_id.clone(),
                validator_id: validator_id.clone(),
                amount: *amount,
            },
            StakingFact::ValidatorIdInAppchainChanged { validator_id, validator_id_in_appchain } => {
                StakingFact::ValidatorIdInAppchainChanged {
                    validator_id: validator_id.clone(),
                    validator_id_in_appchain: validator_id_in_appchain.clone(),
                }
            },
        }
    }
}

impl StakingHistory {
    /// A copy of the history.
    pub fn duplicate(&self) -> (res: StakingHistory)
        ensures
            res == *self,
    {
        StakingHistory {
            staking_fact: self.staking_fact.duplicate(),
            block_height: self.block_height,
            timestamp: self.timestamp,
            index: self.index,
        }
    }
}

impl AppchainNotification {
    /// A copy of the notification.
    pub fn duplicate(&self) -> (res: AppchainNotification)
        ensures
            res == *self,
    {
        match self {
            AppchainNotification::NearFungibleTokenLocked {
                contract_account,
                sender_id_in_near,
                receiver_id_in_appchain,
                amount,
            } => AppchainNotification::NearFungibleTokenLocked {
                contract_account: contract_account.clone(),
                sender_id_in_near: sender_id_in_near.clone(),
                receiver_id_in_appchain: receiver_id_in_appchain.clone(),
                amount: *amount,
            },
            AppchainNotification::WrappedAppchainTokenBurnt { sender_id_in_near, receiver_id_in_appchain, amount } =>
                AppchainNotification::WrappedAppchainTokenBurnt {
                sender_id_in_near: sender_id_in_near.clone(),
                receiver_id_in_appchain: receiver_id_in_appchain.clone(),
                amount: *amount,
            },
            AppchainNotification::WrappedNonFungibleTokenBurnt {
                sender_id_in_near,
                receiver_id_in_appchain,
                class_id,
                instance_id,
            } => AppchainNotification::WrappedNonFungibleTokenBurnt {
                sender_id_in_near: sender_id_in_near.clone(),
                receiver_id_in_appchain: receiver_id_in_appchain.clone(),
                class_id: class_id.clone(),
                instance_id: instance_id.clone(),
            },
            AppchainNotification::WrappedAppchainNFTLocked {
                class_id,
                token_id,
                sender_id_in_near,
                owner_id_in_near,
                receiver_id_in_appchain,
            } => AppchainNotification::WrappedAppchainNFTLocked {
                class_id: class_id.clone(),
                token_id: token_id.clone(),
                sender_id_in_near: sender_id_in_near.clone(),
                owner_id_in_near: owner_id_in_near.clone(),
                receiver_id_in_appchain: receiver_id_in_appchain.clone(),
            },
            AppchainNotification::AppchainAgentMessageSigned { sender_id_in_near, message } =>
                AppchainNotification::AppchainAgentMessageSigned {
                sender_id_in_near: sender_id_in_near.clone(),
                message: message.clone(),
            },
        }
    }
}

impl ValidatorSetProcessingStatus {
    /// Whether the reward of the era can be distributed in this status.
    pub fn can_distribute_reward(&self) -> (res: bool)
        ensures
            res == (*self is ReadyForDistributingReward || *self is Completed),
    {
        match self {
            ValidatorSetProcessingStatus::ReadyForDistributingReward
            | ValidatorSetProcessingStatus::Completed => true,
            _ => false,
        }
    }
}

/// The status of the permissionless actions.
#[derive(Clone, Copy, Debug, PartialEq, Eq)]
pub struct PermissionlessActionsStatus {
    pub switching_era_number: Option<u64>,
    pub distributing_reward_era_number: Option<u64>,
    pub processing_appchain_message_nonce: Option<u32>,
    pub max_nonce_of_staged_appchain_messages: u32,
    pub latest_applied_appchain_message_nonce: u32,
}

/// The reward of an account in an era.
#[derive(Clone, Copy, Debug, PartialEq, Eq)]
pub struct RewardHistory {
    pub era_number: u64,
    pub total_reward: u128,
    pub unwithdrawn_reward: u128,
}

/// A notification of the anchor for the appchain.
#[derive(Clone, Debug, PartialEq, Eq)]
pub enum AppchainNotification {
    /// An amount of a NEAR fungible token is locked in the anchor.
    NearFungibleTokenLocked {
        contract_account: AccountId,
        sender_id_in_near: AccountId,
        receiver_id_in_appchain: String,
        amount: u128,
    },
    /// An amount of wrapped appchain token is burnt.
    WrappedAppchainTokenBurnt {
        sender_id_in_near: AccountId,
        receiver_id_in_appchain: String,
        amount: u128,
    },
    /// A wrapped non-fungible token is burnt.
    WrappedNonFungibleTokenBurnt {
        sender_id_in_near: AccountId,
        receiver_id_in_appchain: String,
        class_id: String,
        instance_id: String,
    },
    /// A wrapped appchain NFT is locked in the anchor.
    WrappedAppchainNFTLocked {
        class_id: String,
        token_id: String,
        sender_id_in_near: AccountId,
        owner_id_in_near: AccountId,
        receiver_id_in_appchain: String,
    },
    /// A message that an account signed for the agent of the appchain.
    AppchainAgentMessageSigned { sender_id_in_near: AccountId, message: String },
}

/// A notification with the block in which it happened.
#[derive(Clone, Debug, PartialEq, Eq)]
pub struct AppchainNotificationHistory {
    pub appchain_notification: AppchainNotification,
    pub block_height: u64,
    pub timestamp: u64,
    pub index: u64,
}

/// The result of processing an appchain message.
#[derive(Clone, Debug, PartialEq, Eq)]
pub enum AppchainMessageProcessingResult {
    /// The message was processed.
    Processed { nonce: u32, message: Option<String> },
    Error { nonce: u32, message: String },
}

/// The result of one step of an operation that spans several transactions.
#[derive(Clone, Debug, PartialEq, Eq)]
pub enum MultiTxsOperationProcessingResult {
    NeedMoreGas,
    /// The operation is complete.
    Finished,
    Error(String),
}

/// The status of the beefy light client.
#[derive(Clone, Copy, Debug, PartialEq, Eq)]
pub enum BeefyLightClientStatus {
    Uninitialized,
    UpdatingState,
    Ready,
}

/// A commitment of the appchain.
#[derive(Clone, Copy, Debug, PartialEq, Eq)]
pub struct AppchainCommitment {
    pub block_number: u32,
    pub validator_set_id: u64,
}

/// A merkle proof of a validator.
#[derive(Clone, Debug, PartialEq, Eq)]
pub struct ValidatorMerkleProof {
    /// The inner node hashes that rebuild the root from the leaf.
    pub proof: Vec<[u8; 32]>,
    /// The number of leaves of the tree.
    pub number_of_leaves: u32,
    /// The index of the leaf (0-based).
    pub leaf_index: u32,
    /// The content of the leaf.
    pub leaf: Vec<u8>,
}

/// The message attached to a transfer of a non-fungible token to the anchor.
#[derive(Clone, Debug, PartialEq, Eq)]
pub enum NFTTransferMessage {
    BridgeToAppchain { receiver_id_in_appchain: String },
}

/// The validator set of an era as the appchain sees it.
#[derive(Clone, Debug, PartialEq, Eq)]
pub struct ValidatorSetInfo {
    /// The era.
    pub era_number: u64,
    /// The total stake of the set.
    pub total_stake: u128,
    /// The validators.
    pub validator_list: Vec<AppchainValidator>,
    /// The block height when the era starts.
    pub start_block_height: u64,
    /// The timestamp when the era starts.
    pub start_timestamp: u64,
    /// The index of the last staking history of the era.
    pub staking_history_index: u64,
    /// The validators that earn no reward in the era.
    pub unprofitable_validator_ids: Vec<AccountId>,
    /// The total stake without the stakes of unprofitable validators.
    pub valid_total_stake: u128,
    /// The step that the making of the set has reached.
    pub processing_status: ValidatorSetProcessingStatus,
}

} // verus!
