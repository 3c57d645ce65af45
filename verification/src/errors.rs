//! The reasons for which the anchor refuses a request.
use crate::types::AccountId;
use vstd::prelude::*;

verus! {

/// Why the anchor refuses a request.
#[derive(Clone, Debug, PartialEq, Eq)]
pub enum AnchorError {
    /// The id in the appchain is not valid (it is given as it was submitted).
    InvalidValidatorIdInAppchain(String),
    /// The new value of a setting is the value it has.
    ValueNotChanged,
    /// A percent value is not below 100.
    InvalidPercentValue,
    /// The value must be greater than the amount by which deposits change.
    ValueNotGreaterThanChangingAmount,
    /// The value must be less than the minimum deposit.
    ValueNotLessThanMinimumDeposit,
    /// The value must be greater than the minimum validator count.
    ValueNotGreaterThanMinimumValidatorCount,
    /// The value must be less than the maximum validator count.
    ValueNotLessThanMaximumValidatorCount,
    /// The value must not be 0.
    ValueIsZero,
    /// The request is not allowed in the state of the appchain.
    InvalidAppchainState,
    /// The account is registered already.
    AccountAlreadyRegistered(AccountId),
    /// The account holds unbonded stakes that must be withdrawn first.
    UnbondedStakesNotWithdrawn(AccountId),
    /// The id in the appchain is registered already.
    IdInAppchainAlreadyRegistered(String),
    /// The deposit is below the minimum.
    DepositTooFew,
    /// The number of validators reached the maximum.
    TooManyValidators,
    /// The validator is not valid.
    InvalidValidatorId(AccountId),
    /// The delegator of the validator is not valid.
    InvalidDelegatorId(AccountId, AccountId),
    /// The validator does not accept delegations.
    DelegationNotAccepted(AccountId),
    /// The delegator delegates to the maximum number of validators.
    TooManyValidatorsDelegated,
    /// The deposit cannot be decreased by the amount.
    DecreaseTooMuch,
    /// The stake left in the anchor would be too little.
    NotEnoughStake,
    /// The number of validators would be too small.
    TooFewValidators,
    /// The account is not the one that may make the request.
    NotAuthorized,
    /// The allowed count of unprofitable eras is not below 10.
    InvalidUnprofitableEraCount,
    /// The account is the owner, which may not take this role.
    AccountIsOwner,
    /// The witness mode of the light client is on already.
    WitnessModeAlreadyOn,
    /// The witness mode of the light client is off already.
    WitnessModeAlreadyOff,
    /// The era of the message is too old.
    MessageTooOld,
    /// The delegator is registered to the validator already.
    DelegatorAlreadyRegistered(AccountId, AccountId),
    /// The transfer of assets is paused.
    AssetTransferPaused,
    /// The withdrawal of rewards is paused.
    RewardsWithdrawalPaused,
    /// The transfer of assets is paused already.
    AssetTransferAlreadyPaused,
    /// The transfer of assets is resumed already.
    AssetTransferAlreadyResumed,
    /// The withdrawal of rewards is paused already.
    RewardsWithdrawalAlreadyPaused,
    /// The withdrawal of rewards is resumed already.
    RewardsWithdrawalAlreadyResumed,
    /// No unbonded stake of the account is recorded by the staking history.
    StakingHistoryNotFound,
    /// The staking history does not unbond the stake of the account.
    InvalidStakingHistory,
    /// The stake of the validator would be more than its share allows.
    TooMuchStake,
    /// A token with the symbol is registered already.
    TokenAlreadyRegistered(String),
    /// A token with the contract is registered already.
    TokenContractAlreadyRegistered(AccountId),
    /// No token with the symbol is registered.
    TokenNotRegistered(String),
    /// The contract, the premined beneficiary, the symbol, the name or the
    /// decimals of the wrapped appchain token are not set.
    MissingWrappedAppchainTokenSettings,
    /// The contract account of the wrapped appchain token is not set.
    WrappedAppchainTokenContractNotSet,
    /// The RPC endpoint or the era reward of the appchain is not set.
    MissingAppchainSettings,
    /// The light client of the appchain is not initialized.
    LightClientNotInitialized,
    /// The deposit does not come from the contract that it must come from.
    InvalidDeposit,
    /// No token with the contract is registered.
    TokenContractNotRegistered(AccountId),
    /// The bridging of the token with the symbol is not open.
    BridgingNotOpen(String),
    /// The market value of the NEAR fungible tokens locked would pass the
    /// limit that the staked OCT tokens set.
    TooMuchNearFungibleTokenToLock,
    /// The market value of the native NEAR tokens locked would pass the
    /// limit that the staked OCT tokens set.
    TooMuchNativeNearTokenToLock,
    /// The request is for anchors on the test network of NEAR protocol only.
    NotTestnet,
    /// The balance of the token locked in the anchor is less than the amount.
    NotEnoughLockedBalance,
    /// The messages that the relayer brought do not decode.
    InvalidAppchainMessages,
    /// The history of validator sets is no longer than the length it must keep.
    ValidatorSetHistoryTooShort,
    /// The market values or the history of anchor events that applying the
    /// message works on have no room for it.
    ValueOverflow,
    /// No validator set of the era is recorded.
    InvalidEraNumber,
}

} // verus!
