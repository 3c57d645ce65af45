//! Deposits of fungible tokens to the anchor: OCT tokens to stake, and NEAR
//! fungible tokens to bridge to the appchain, within the limit that the
//! market value of the staked OCT tokens sets.
use crate::anchor::AppchainAnchor;
use crate::errors::AnchorError;
use crate::fungible_tokens::{
    first_where, has_contract, has_symbol, lemma_first_where, lemma_pow10_positive, market_value, pow10, total_value,
    NearFungibleToken,
};
use crate::rewards::OCT_DECIMALS_VALUE;
use crate::staking_rules::{
    delegator_refusal, delegator_registration_refusal, formatted_id, history_room, staking_open, staking_outcome,
    validator_refusal, validator_registered, validator_registration_refusal,
};
use crate::types::{AccountId, AppchainNotification, AppchainNotificationHistory, BridgingState, StakingFact};
use vstd::prelude::*;

verus! {

/// The native token of NEAR protocol, as the anchor bridges it.
#[derive(Clone, Debug, PartialEq, Eq)]
pub struct NativeNearToken {
    /// The balance locked in the anchor.
    pub locked_balance: u128,
    pub bridging_state: BridgingState,
    /// The price of one token in USD.
    pub price_in_usd: u128,
}

impl Default for NativeNearToken {
    fn default() -> (res: Self)
        ensures
            res.locked_balance == 0,
            res.bridging_state == BridgingState::Closed,
            res.price_in_usd == 0,
    {
        NativeNearToken { locked_balance: 0, bridging_state: BridgingState::Closed, price_in_usd: 0 }
    }
}

/// The market value in USD of the OCT tokens staked in the next era of `a`:
/// the whole tokens staked times the price of one.
pub open spec fn staked_oct_value(a: AppchainAnchor) -> int {
    (a.next_validator_set.set().total_stake / OCT_DECIMALS_VALUE as int) * a.oct_token.price_in_usd
}

/// The market value that the assets locked in `a` may reach: the share of
/// the value of the staked OCT tokens that the protocol settings allow.
pub open spec fn locking_limit(a: AppchainAnchor) -> int {
    staked_oct_value(a) * a.protocol_settings.maximum_market_value_percent_of_near_fungible_tokens / 100
}

/// The market value of `amount` of the registered token of `ts` with the
/// symbol `symbol`; 0 where none is registered.
pub open spec fn registered_market_value(ts: Seq<NearFungibleToken>, symbol: Seq<char>, amount: u128) -> int {
    let p = first_where(ts, has_symbol(symbol));
    if p >= 0 {
        market_value(ts[p], amount)
    } else {
        0
    }
}

/// Why `a` refuses to lock `near_fungible_token` (a token and an amount of
/// it) and `native_near_token_amount` of native NEAR tokens, if it does: the
/// market value of what is locked would pass the limit.
pub open spec fn locking_refusal(
    a: AppchainAnchor,
    near_fungible_token: Option<(NearFungibleToken, u128)>,
    native_near_token_amount: u128,
) -> Option<AnchorError> {
    let ts = a.near_fungible_tokens.entries();
    let locked = total_value(ts);
    if near_fungible_token matches Some((t, amount)) && locked + registered_market_value(ts, t.metadata.symbol@, amount)
        > locking_limit(a) {
        Some(AnchorError::TooMuchNearFungibleTokenToLock)
    } else if native_near_token_amount > 0 && locked + (a.native_near_token.locked_balance + native_near_token_amount)
        * a.native_near_token.price_in_usd > locking_limit(a) {
        Some(AnchorError::TooMuchNativeNearTokenToLock)
    } else {
        None
    }
}

/// Whether the market values that checking a lock of
/// `near_fungible_token` and `native_near_token_amount` in `a` computes fit
/// in 128 bits.
pub open spec fn locking_fits(
    a: AppchainAnchor,
    near_fungible_token: Option<(NearFungibleToken, u128)>,
    native_near_token_amount: u128,
) -> bool {
    let ts = a.near_fungible_tokens.entries();
    let checked = near_fungible_token is Some || native_near_token_amount > 0;
    &&& checked ==> staked_oct_value(a) <= u128::MAX
    &&& checked ==> staked_oct_value(a) * a.protocol_settings.maximum_market_value_percent_of_near_fungible_tokens
        <= u128::MAX
    &&& checked ==> forall|k: int| 0 <= k < ts.len() ==> (#[trigger] ts[k]).metadata.decimals <= 38
    &&& checked ==> total_value(ts) <= u128::MAX
    &&& near_fungible_token matches Some((t, amount)) ==> total_value(ts) + registered_market_value(
        ts,
        t.metadata.symbol@,
        amount,
    ) <= u128::MAX
    &&& native_near_token_amount > 0 ==> a.native_near_token.locked_balance + native_near_token_amount <= u128::MAX
    &&& native_near_token_amount > 0 ==> total_value(ts) + (a.native_near_token.locked_balance
        + native_near_token_amount) * a.native_near_token.price_in_usd <= u128::MAX
}

proof fn lemma_market_value_nonnegative(t: NearFungibleToken, amount: u128)
    ensures
        market_value(t, amount) >= 0,
{
    lemma_pow10_positive(t.metadata.decimals as nat);
    let whole = amount as int / pow10(t.metadata.decimals as nat) as int;
    assert(whole >= 0);
    assert(whole * t.price_in_usd >= 0) by (nonlinear_arith)
        requires
            whole >= 0,
    ;
}

proof fn lemma_total_value_nonnegative(ts: Seq<NearFungibleToken>)
    ensures
        total_value(ts) >= 0,
    decreases ts.len(),
{
    if ts.len() > 0 {
        lemma_total_value_nonnegative(ts.drop_last());
        lemma_market_value_nonnegative(ts.last(), ts.last().locked_balance);
    }
}

/// What a transfer of fungible tokens to the anchor asks for.
#[derive(Clone, Debug, PartialEq, Eq)]
pub enum FTDepositMessage {
    /// The sender registers as a validator with the OCT tokens sent.
    RegisterValidator { validator_id_in_appchain: String, can_be_delegated_to: bool, profile: Vec<(String, String)> },
    /// The sender, a validator, stakes the OCT tokens sent.
    IncreaseStake,
    /// The sender registers as a delegator of the validator with the OCT tokens sent.
    RegisterDelegator { validator_id: AccountId },
    /// The sender, a delegator of the validator, delegates the OCT tokens sent.
    IncreaseDelegation { validator_id: AccountId },
    /// The tokens sent are locked in the anchor and minted in the appchain
    /// for the receiver.
    BridgeToAppchain { receiver_id_in_appchain: String },
}

/// Whether `after` holds the notification histories of `before` with
/// `notification` appended at `block_height` and `timestamp`.
pub open spec fn notification_appended(
    before: AppchainAnchor,
    after: AppchainAnchor,
    notification: AppchainNotification,
    block_height: u64,
    timestamp: u64,
) -> bool {
    let h = AppchainNotificationHistory {
        appchain_notification: notification,
        block_height,
        timestamp,
        index: before.appchain_notification_histories.next_index(),
    };
    &&& after.appchain_notification_histories.records() == before.appchain_notification_histories.records().insert(
        h.index,
        h,
    )
    &&& after.appchain_notification_histories.start() == before.appchain_notification_histories.start()
    &&& after.appchain_notification_histories.end() == h.index
}

/// Whether a notification can be appended to the histories of `a`.
pub open spec fn notification_room(a: AppchainAnchor) -> bool {
    a.appchain_notification_histories.records().contains_key(0) ==> a.appchain_notification_histories.end() < u64::MAX
}

/// Why `a` refuses to lock `amount` of the token whose contract is
/// `contract`, if it does: the token must be registered, its bridging open,
/// and the market value of what is locked must stay within the limit.
pub open spec fn bridge_deposit_refusal(a: AppchainAnchor, contract: AccountId, amount: u128) -> Option<AnchorError> {
    let ts = a.near_fungible_tokens.entries();
    let p = first_where(ts, has_contract(contract@));
    if p < 0 {
        Some(AnchorError::TokenContractNotRegistered(contract))
    } else if ts[p].bridging_state != BridgingState::Active {
        Some(AnchorError::BridgingNotOpen(ts[p].metadata.symbol))
    } else {
        locking_refusal(a, Some((ts[p], amount)), 0)
    }
}

/// Whether the values that locking `amount` of the token whose contract is
/// `contract` in `a` computes fit in 128 bits, and the notification of the
/// lock fits in the histories.
pub open spec fn bridge_deposit_fits(a: AppchainAnchor, contract: AccountId, amount: u128) -> bool {
    let ts = a.near_fungible_tokens.entries();
    let p = first_where(ts, has_contract(contract@));
    p >= 0 && ts[p].bridging_state == BridgingState::Active ==> {
        &&& locking_fits(a, Some((ts[p], amount)), 0)
        &&& ts[p].locked_balance + amount <= u128::MAX
        &&& notification_room(a)
    }
}

/// Whether `after` is `before` with `amount` of the token whose contract is
/// `contract` locked, and the appchain notified, at `block_height` and
/// `timestamp`, that `sender_id` locked it for `receiver_id_in_appchain`.
pub open spec fn bridge_deposit_made(
    before: AppchainAnchor,
    after: AppchainAnchor,
    contract: AccountId,
    sender_id: AccountId,
    amount: u128,
    receiver_id_in_appchain: String,
    block_height: u64,
    timestamp: u64,
) -> bool {
    let ts = before.near_fungible_tokens.entries();
    let p = first_where(ts, has_contract(contract@));
    &&& after.near_fungible_tokens.entries() == ts.update(
        p,
        NearFungibleToken { locked_balance: (ts[p].locked_balance + amount) as u128, ..ts[p] },
    )
    &&& notification_appended(
        before,
        after,
        AppchainNotification::NearFungibleTokenLocked {
            contract_account: contract,
            sender_id_in_near: sender_id,
            receiver_id_in_appchain,
            amount,
        },
        block_height,
        timestamp,
    )
    &&& after == (AppchainAnchor {
        near_fungible_tokens: after.near_fungible_tokens,
        appchain_notification_histories: after.appchain_notification_histories,
        ..before
    })
}

/// Whether the staking action that `msg` asks of `sender_id` with `amount`
/// stays within what `a` can compute and record.
pub open spec fn oct_deposit_fits(a: AppchainAnchor, sender_id: AccountId, amount: u128, msg: FTDepositMessage) -> bool {
    let m = a.next_validator_set.set();
    &&& a.next_validator_set.wf()
    &&& history_room(a)
    &&& match msg {
        FTDepositMessage::RegisterValidator { .. } => m.total_stake + amount <= u128::MAX,
        FTDepositMessage::IncreaseStake => m.contains_validator(sender_id@) ==> m.applicable(
            StakingFact::StakeIncreased { validator_id: sender_id, amount },
        ),
        FTDepositMessage::RegisterDelegator { validator_id } => delegator_registration_refusal(
            a,
            sender_id,
            validator_id,
            amount,
        ) is None ==> m.applicable(StakingFact::DelegatorRegistered { delegator_id: sender_id, validator_id, amount }),
        FTDepositMessage::IncreaseDelegation { validator_id } => delegator_refusal(a, sender_id, validator_id) is None
            ==> m.applicable(StakingFact::DelegationIncreased { delegator_id: sender_id, validator_id, amount }),
        FTDepositMessage::BridgeToAppchain { .. } => true,
    }
}

/// Whether staking `amount` of OCT tokens sent by `sender_id` as `msg` asks,
/// at `block_height` and `timestamp`, gave `res` and turned `a` into `after`:
/// the staking action that `msg` names, or a refusal where it names none.
pub open spec fn oct_deposit_outcome(
    a: AppchainAnchor,
    after: AppchainAnchor,
    res: Result<(), AnchorError>,
    sender_id: AccountId,
    amount: u128,
    msg: FTDepositMessage,
    block_height: u64,
    timestamp: u64,
) -> bool {
    match msg {
        FTDepositMessage::RegisterValidator { validator_id_in_appchain, can_be_delegated_to, profile } => match validator_registration_refusal(
            a,
            sender_id,
            Some(validator_id_in_appchain),
            amount,
        ) {
            Some(e) => res == Err::<(), AnchorError>(e) && after == a,
            None => res == Ok::<(), AnchorError>(()) && validator_registered(
                a,
                after,
                sender_id,
                formatted_id(Some(validator_id_in_appchain)),
                amount,
                can_be_delegated_to,
                profile,
                block_height,
                timestamp,
            ),
        },
        FTDepositMessage::IncreaseStake => staking_outcome(
            a,
            after,
            res,
            if !staking_open(a.appchain_state) {
                Some(AnchorError::InvalidAppchainState)
            } else {
                validator_refusal(a, sender_id)
            },
            StakingFact::StakeIncreased { validator_id: sender_id, amount },
            block_height,
            timestamp,
        ),
        FTDepositMessage::RegisterDelegator { validator_id } => staking_outcome(
            a,
            after,
            res,
            delegator_registration_refusal(a, sender_id, validator_id, amount),
            StakingFact::DelegatorRegistered { delegator_id: sender_id, validator_id, amount },
            block_height,
            timestamp,
        ),
        FTDepositMessage::IncreaseDelegation { validator_id } => staking_outcome(
            a,
            after,
            res,
            if !staking_open(a.appchain_state) {
                Some(AnchorError::InvalidAppchainState)
            } else {
                delegator_refusal(a, sender_id, validator_id)
            },
            StakingFact::DelegationIncreased { delegator_id: sender_id, validator_id, amount },
            block_height,
            timestamp,
        ),
        FTDepositMessage::BridgeToAppchain { .. } => res == Err::<(), AnchorError>(AnchorError::InvalidDeposit)
            && after == a,
    }
}

/// Whether the deposit of `amount` by `sender_id`, through the contract
/// `predecessor`, for `msg` stays within what `a` can compute and record.
pub open spec fn deposit_fits(
    a: AppchainAnchor,
    predecessor: AccountId,
    sender_id: AccountId,
    amount: u128,
    msg: FTDepositMessage,
) -> bool {
    !a.asset_transfer_is_paused ==> match msg {
        FTDepositMessage::BridgeToAppchain { .. } => bridge_deposit_fits(a, predecessor, amount),
        _ => predecessor@ == a.oct_token.contract_account@ ==> oct_deposit_fits(a, sender_id, amount, msg),
    }
}

proof fn lemma_total_value_update(ts: Seq<NearFungibleToken>, p: int, x: NearFungibleToken)
    requires
        0 <= p < ts.len(),
    ensures
        total_value(ts.update(p, x)) == total_value(ts) - market_value(ts[p], ts[p].locked_balance) + market_value(
            x,
            x.locked_balance,
        ),
    decreases ts.len(),
{
    let u = ts.update(p, x);
    if p == ts.len() - 1 {
        assert(u.drop_last() =~= ts.drop_last());
    } else {
        assert(u.drop_last() =~= ts.drop_last().update(p, x));
        lemma_total_value_update(ts.drop_last(), p, x);
    }
}

proof fn lemma_whole_tokens_add(a: int, b: int, d: int)
    requires
        d > 0,
        a >= 0,
        b >= 0,
        a % d + b % d < d,
    ensures
        (a + b) / d == a / d + b / d,
{
    vstd::arithmetic::div_mod::lemma_fundamental_div_mod(a, d);
    vstd::arithmetic::div_mod::lemma_fundamental_div_mod(b, d);
    vstd::arithmetic::div_mod::lemma_mod_pos_bound(a, d);
    vstd::arithmetic::div_mod::lemma_mod_pos_bound(b, d);
    assert(a + b == (a / d + b / d) * d + (a % d + b % d)) by (nonlinear_arith)
        requires
            a == d * (a / d) + a % d,
            b == d * (b / d) + b % d,
    ;
    vstd::arithmetic::div_mod::lemma_fundamental_div_mod_converse(a + b, d, a / d + b / d, a % d + b % d);
}

/// Whether no two registered tokens of `ts` have the same symbol.
pub open spec fn symbols_distinct(ts: Seq<NearFungibleToken>) -> bool {
    forall|i: int, j: int|
        0 <= i < j < ts.len() ==> (#[trigger] ts[i]).metadata.symbol@ != (#[trigger] ts[j]).metadata.symbol@
}

/// A deposit of a NEAR fungible token that the anchor takes keeps the market
/// value of all locked NEAR fungible tokens within the limit that the staked
/// OCT tokens set, where the registered tokens have distinct symbols, the
/// fractions of a whole token in the deposit and in the balance locked before
/// do not add up to a whole token, and the balance locked after fits in 128
/// bits.
pub proof fn lemma_bridge_deposit_within_limit(
    before: AppchainAnchor,
    after: AppchainAnchor,
    contract: AccountId,
    sender_id: AccountId,
    amount: u128,
    receiver_id_in_appchain: String,
    block_height: u64,
    timestamp: u64,
)
    requires
        symbols_distinct(before.near_fungible_tokens.entries()),
        bridge_deposit_refusal(before, contract, amount) is None,
        bridge_deposit_made(
            before,
            after,
            contract,
            sender_id,
            amount,
            receiver_id_in_appchain,
            block_height,
            timestamp,
        ),
        ({
            let ts = before.near_fungible_tokens.entries();
            let t = ts[first_where(ts, has_contract(contract@))];
            let d = pow10(t.metadata.decimals as nat) as int;
            &&& (t.locked_balance as int) % d + (amount as int) % d < d
            &&& t.locked_balance + amount <= u128::MAX
        }),
    ensures
        total_value(after.near_fungible_tokens.entries()) <= locking_limit(after),
        locking_limit(after) == locking_limit(before),
{
    let ts = before.near_fungible_tokens.entries();
    lemma_first_where(ts, has_contract(contract@));
    let p = first_where(ts, has_contract(contract@));
    let t = ts[p];
    let x = NearFungibleToken { locked_balance: (t.locked_balance + amount) as u128, ..t };
    lemma_total_value_update(ts, p, x);
    lemma_first_where(ts, has_symbol(t.metadata.symbol@));
    let q = first_where(ts, has_symbol(t.metadata.symbol@));
    assert(has_symbol(t.metadata.symbol@)(ts[p]));
    if q != p {
        assert(has_symbol(t.metadata.symbol@)(ts[q]));
        if q < p {
            assert(ts[q].metadata.symbol@ != ts[p].metadata.symbol@);
        }
    }
    assert(q == p);
    let d = pow10(t.metadata.decimals as nat) as int;
    lemma_pow10_positive(t.metadata.decimals as nat);
    lemma_whole_tokens_add(t.locked_balance as int, amount as int, d);
    let price = t.price_in_usd as int;
    let a = t.locked_balance as int;
    let b = amount as int;
    assert(((a + b) / d) * price == (a / d) * price + (b / d) * price) by (nonlinear_arith)
        requires
            (a + b) / d == a / d + b / d,
    ;
}

impl AppchainAnchor {
    /// The market value in USD of the OCT tokens staked in the next era.
    pub fn get_market_value_of_staked_oct_token(&self) -> (res: u128)
        requires
            staked_oct_value(*self) <= u128::MAX,
        ensures
            res == staked_oct_value(*self),
    {
        self.next_validator_set.validator_set().total_stake() / OCT_DECIMALS_VALUE * self.oct_token.price_in_usd
    }

    /// Refuses to lock `near_fungible_token` (a token and an amount of it)
    /// and `native_near_token_amount` of native NEAR tokens where the market
    /// value of what is locked would pass the limit.
    pub fn assert_locked_asset_on_near_side(
        &self,
        near_fungible_token: Option<(&NearFungibleToken, u128)>,
        native_near_token_amount: u128,
    ) -> (res: Result<(), AnchorError>)
        requires
            locking_fits(
                *self,
                match near_fungible_token {
                    Some((t, amount)) => Some((*t, amount)),
                    None => None,
                },
                native_near_token_amount,
            ),
        ensures
            res == match locking_refusal(
                *self,
                match near_fungible_token {
                    Some((t, amount)) => Some((*t, amount)),
                    None => None,
                },
                native_near_token_amount,
            ) {
                Some(e) => Err::<(), AnchorError>(e),
                None => Ok(()),
            },
    {
        let percent = self.protocol_settings.maximum_market_value_percent_of_near_fungible_tokens as u128;
        proof {
            let ts = self.near_fungible_tokens.entries();
            lemma_total_value_nonnegative(ts);
            if let Some((t, amount)) = near_fungible_token {
                lemma_first_where(ts, has_symbol(t.metadata.symbol@));
                let p = first_where(ts, has_symbol(t.metadata.symbol@));
                if p >= 0 {
                    assert(ts[p].metadata.decimals <= 38);
                    lemma_market_value_nonnegative(ts[p], amount);
                }
            }
            let n = self.native_near_token;
            assert((n.locked_balance + native_near_token_amount) * n.price_in_usd >= 0) by (nonlinear_arith);
        }
        if let Some((t, amount)) = near_fungible_token {
            let locked = self.near_fungible_tokens.total_market_value();
            let adding = self.near_fungible_tokens.get_market_value_of(&t.metadata.symbol, amount);
            if locked + adding > self.get_market_value_of_staked_oct_token() * percent / 100 {
                return Err(AnchorError::TooMuchNearFungibleTokenToLock);
            }
        }
        if native_near_token_amount > 0 {
            let locked = self.near_fungible_tokens.total_market_value();
            let native = &self.native_near_token;
            if locked + (native.locked_balance + native_near_token_amount) * native.price_in_usd
                > self.get_market_value_of_staked_oct_token() * percent / 100 {
                return Err(AnchorError::TooMuchNativeNearTokenToLock);
            }
        }
        Ok(())
    }
    /// Locks `amount` of the token whose contract is `contract`, sent by
    /// `sender_id` to be minted in the appchain for
    /// `receiver_id_in_appchain`, and notifies the appchain of it at
    /// `block_height` and `timestamp`. Refused as `bridge_deposit_refusal`
    /// says, and then the deposit goes back.
    pub fn internal_process_near_fungible_token_deposit(
        &mut self,
        contract: &AccountId,
        sender_id: AccountId,
        amount: u128,
        receiver_id_in_appchain: String,
        block_height: u64,
        timestamp: u64,
    ) -> (res: Result<(), AnchorError>)
        requires
            bridge_deposit_fits(*old(self), *contract, amount),
        ensures
            match bridge_deposit_refusal(*old(self), *contract, amount) {
                Some(e) => res == Err::<(), AnchorError>(e) && *final(self) == *old(self),
                None => res == Ok::<(), AnchorError>(()) && bridge_deposit_made(
                    *old(self),
                    *final(self),
                    *contract,
                    sender_id,
                    amount,
                    receiver_id_in_appchain,
                    block_height,
                    timestamp,
                ),
            },
    {
        proof {
            lemma_first_where(self.near_fungible_tokens.entries(), has_contract(contract@));
        }
        match self.near_fungible_tokens.get_by_contract_account(contract) {
            None => {
                return Err(AnchorError::TokenContractNotRegistered(contract.clone()));
            },
            Some(t) => {
                match t.bridging_state {
                    BridgingState::Active => {},
                    _ => {
                        return Err(AnchorError::BridgingNotOpen(t.metadata.symbol.clone()));
                    },
                }
                match self.assert_locked_asset_on_near_side(Some((t, amount)), 0) {
                    Ok(()) => {},
                    Err(e) => {
                        return Err(e);
                    },
                }
            },
        }
        self.near_fungible_tokens.increase_locked_balance(contract, amount);
        let _ = self.internal_append_appchain_notification(
            AppchainNotification::NearFungibleTokenLocked {
                contract_account: contract.clone(),
                sender_id_in_near: sender_id,
                receiver_id_in_appchain,
                amount,
            },
            block_height,
            timestamp,
        );
        Ok(())
    }
    /// Stakes `amount` of OCT tokens sent by `sender_id` as `msg` asks, at
    /// `block_height` and `timestamp`; refused as the staking action is
    /// refused, and where `msg` asks for no staking action.
    pub fn internal_process_oct_deposit(
        &mut self,
        sender_id: AccountId,
        amount: u128,
        msg: FTDepositMessage,
        block_height: u64,
        timestamp: u64,
    ) -> (res: Result<(), AnchorError>)
        requires
            oct_deposit_fits(*old(self), sender_id, amount, msg),
        ensures
            oct_deposit_outcome(*old(self), *final(self), res, sender_id, amount, msg, block_height, timestamp),
    {
        match msg {
            FTDepositMessage::RegisterValidator { validator_id_in_appchain, can_be_delegated_to, profile } => {
                self.register_validator(
                    sender_id,
                    Some(validator_id_in_appchain),
                    profile,
                    amount,
                    can_be_delegated_to,
                    block_height,
                    timestamp,
                )
            },
            FTDepositMessage::IncreaseStake => self.increase_stake(sender_id, amount, block_height, timestamp),
            FTDepositMessage::RegisterDelegator { validator_id } => {
                self.register_delegator(sender_id, validator_id, amount, block_height, timestamp)
            },
            FTDepositMessage::IncreaseDelegation { validator_id } => {
                self.increase_delegation(sender_id, validator_id, amount, block_height, timestamp)
            },
            FTDepositMessage::BridgeToAppchain { .. } => Err(AnchorError::InvalidDeposit),
        }
    }

    /// Takes `amount` of a fungible token sent by `sender_id` through the
    /// contract `predecessor` for `msg`, at `block_height` and `timestamp`.
    /// Refused while the transfer of assets is paused; OCT tokens are staked
    /// as `msg` asks where they come from the OCT token contract (and are
    /// refused as the staking action is refused), and other tokens are
    /// bridged to the appchain. A refused deposit goes back.
    pub fn ft_on_transfer(
        &mut self,
        predecessor: &AccountId,
        sender_id: AccountId,
        amount: u128,
        msg: FTDepositMessage,
        block_height: u64,
        timestamp: u64,
    ) -> (res: Result<(), AnchorError>)
        requires
            deposit_fits(*old(self), *predecessor, sender_id, amount, msg),
        ensures
            ({
                let a = *old(self);
                if a.asset_transfer_is_paused {
                    res == Err::<(), AnchorError>(AnchorError::AssetTransferPaused) && *final(self) == a
                } else {
                    match msg {
                        FTDepositMessage::BridgeToAppchain { receiver_id_in_appchain } => match bridge_deposit_refusal(
                            a,
                            *predecessor,
                            amount,
                        ) {
                            Some(e) => res == Err::<(), AnchorError>(e) && *final(self) == a,
                            None => res == Ok::<(), AnchorError>(()) && bridge_deposit_made(
                                a,
                                *final(self),
                                *predecessor,
                                sender_id,
                                amount,
                                receiver_id_in_appchain,
                                block_height,
                                timestamp,
                            ),
                        },
                        _ => if predecessor@ != a.oct_token.contract_account@ {
                            res == Err::<(), AnchorError>(AnchorError::InvalidDeposit) && *final(self) == a
                        } else {
                            oct_deposit_outcome(a, *final(self), res, sender_id, amount, msg, block_height, timestamp)
                        },
                    }
                }
            }),
    {
        if self.asset_transfer_is_paused {
            return Err(AnchorError::AssetTransferPaused);
        }
        match msg {
            FTDepositMessage::BridgeToAppchain { receiver_id_in_appchain } => {
                self.internal_process_near_fungible_token_deposit(
                    predecessor,
                    sender_id,
                    amount,
                    receiver_id_in_appchain,
                    block_height,
                    timestamp,
                )
            },
            _ => {
                if *predecessor != self.oct_token.contract_account {
                    return Err(AnchorError::InvalidDeposit);
                }
                self.internal_process_oct_deposit(sender_id, amount, msg, block_height, timestamp)
            },
        }
    }
}

} // verus!
