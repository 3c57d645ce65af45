//! How the anchor applies a staged message of the appchain: the messages of
//! the eras start the switch of an era or the distribution of its reward,
//! and the messages that move assets become requests to the token contracts.
use crate::account_id_in_appchain::{is_valid_raw_id, lowercase, prefixed_id, AccountIdInAppchain};
use crate::anchor::AppchainAnchor;
use crate::distributing_rewards::{distribution_started, is_error};
use crate::errors::AnchorError;
use crate::messages::{AppchainEvent, AppchainMessage, TokenMetadata};
use crate::permissionless::{era_switch_started, still_switching_message};
use crate::deposits::staked_oct_value;
use crate::fungible_tokens::{lemma_pow10_positive, power_of_ten};
use crate::rewards::OCT_DECIMALS_VALUE;
use crate::fungible_tokens::{first_where, has_contract, NearFungibleToken};
use crate::histories::AnchorEventHistories;
use crate::types::{AccountId, AnchorEvent, AppchainMessageProcessingResult};
use crate::wrapped_token::{circulating_balance, wrapped_market_value};
use vstd::prelude::*;
use vstd::string::StringExecFns;

verus! {

/// A move of assets that a message of the appchain asks of the token contracts.
#[derive(Clone, Debug, PartialEq, Eq)]
pub enum AssetTransfer {
    /// Fungible tokens of NEAR protocol, burnt in the appchain, are unlocked.
    UnlockNearFungibleToken {
        contract_account: String,
        owner_id_in_appchain: String,
        receiver_id_in_near: AccountId,
        amount: u128,
    },
    /// Native tokens, locked in the appchain, are minted as wrapped appchain tokens.
    MintWrappedAppchainToken { owner_id_in_appchain: String, receiver_id_in_near: AccountId, amount: u128 },
    /// The reward of an era, whose distribution starts, is minted as wrapped
    /// appchain tokens to the anchor's own account.
    MintEraReward { amount: u128 },
    /// A non fungible token, locked in the appchain, is handed to its receiver.
    TransferNonFungibleToken {
        owner_id_in_appchain: String,
        receiver_id_in_near: AccountId,
        class_id: String,
        instance_id: String,
        token_metadata: TokenMetadata,
    },
}

/// What applying a message comes to.
#[derive(Clone, Debug, PartialEq, Eq)]
pub enum MessageApplication {
    /// The message is applied, with this result.
    Applied(AppchainMessageProcessingResult),
    /// The message of the nonce `nonce` asks the token contracts for `transfer`.
    Transfer { nonce: u32, transfer: AssetTransfer },
}

/// The message for a move of assets while the transfer of assets is paused.
pub open spec fn paused_message() -> Seq<char> {
    "Asset transfer is now paused."@
}

/// Whether a message about era `era_number` is too old for `a`: only the
/// eras from the latest one back by the number of eras for which a message
/// stays valid count.
pub open spec fn era_message_too_old(a: AppchainAnchor, era_number: u64) -> bool {
    let range = a.protocol_settings.maximum_era_count_of_valid_appchain_message;
    let end = a.validator_set_histories.end();
    end > range && era_number < end - range
}

/// Whether `res` is the error that tells that the transfer of assets is
/// paused, for the message `nonce`.
pub open spec fn paused_for(res: Result<MessageApplication, AnchorError>, nonce: u32) -> bool {
    res matches Ok(MessageApplication::Applied(r)) && is_error(r, nonce, paused_message())
}

/// The message for a mint of wrapped appchain tokens beyond the limit.
pub open spec fn too_much_to_mint_message() -> Seq<char> {
    "Too much wrapped appchain token to mint."@
}

/// The market value that the wrapped appchain tokens of `a` may reach: the
/// share of the value of the staked OCT tokens that the protocol settings
/// allow.
pub open spec fn wrapped_token_limit(a: AppchainAnchor) -> int {
    staked_oct_value(a) * a.protocol_settings.maximum_market_value_percent_of_wrapped_appchain_token / 100
}

/// Whether minting `amount` of the wrapped appchain token of `a` would take
/// the market value of the token past the limit.
pub open spec fn mint_too_much(a: AppchainAnchor, amount: u128) -> bool {
    let t = a.wrapped_appchain_token;
    wrapped_market_value(t, circulating_balance(t)) + wrapped_market_value(t, amount as int) > wrapped_token_limit(a)
}

/// Whether the market values that checking a mint of `amount` of the wrapped
/// appchain token of `a` computes fit in 128 bits.
pub open spec fn mint_check_fits(a: AppchainAnchor, amount: u128) -> bool {
    let t = a.wrapped_appchain_token;
    let percent = a.protocol_settings.maximum_market_value_percent_of_wrapped_appchain_token;
    &&& t.premined_balance <= i128::MAX
    &&& 0 <= circulating_balance(t) <= i128::MAX
    &&& t.metadata.decimals <= 38
    &&& wrapped_market_value(t, circulating_balance(t)) <= u128::MAX
    &&& wrapped_market_value(t, amount as int) <= u128::MAX
    &&& wrapped_market_value(t, circulating_balance(t)) + wrapped_market_value(t, amount as int) <= u128::MAX
    &&& staked_oct_value(a) <= u128::MAX
    &&& staked_oct_value(a) * percent <= u128::MAX
}

/// The result of starting a distribution that the application `m` stands
/// for: the start itself where `m` asks for the era reward to be minted.
pub open spec fn started_result(m: MessageApplication, nonce: u32) -> AppchainMessageProcessingResult {
    match m {
        MessageApplication::Applied(r) => r,
        MessageApplication::Transfer { .. } => AppchainMessageProcessingResult::Processed { nonce, message: None },
    }
}

/// What applying a message of a concluded era comes to, where starting the
/// distribution of its reward gave `r`: the mint of the era reward
/// `era_reward` where the distribution started, else `r`.
pub open spec fn reward_application(r: AppchainMessageProcessingResult, nonce: u32, era_reward: u128) -> MessageApplication {
    if r == (AppchainMessageProcessingResult::Processed { nonce, message: None }) {
        MessageApplication::Transfer { nonce, transfer: AssetTransfer::MintEraReward { amount: era_reward } }
    } else {
        MessageApplication::Applied(r)
    }
}

/// Whether the anchor events `after` are `before` with the event appended,
/// at `block_height` and `timestamp`, that minting `amount` for the owner
/// `owner` (its id in the appchain) and the receiver `receiver` failed for
/// the message `nonce`, being too much.
pub open spec fn failed_mint_recorded(
    before: AnchorEventHistories,
    after: AnchorEventHistories,
    owner: Seq<char>,
    receiver: AccountId,
    amount: u128,
    nonce: u32,
    block_height: u64,
    timestamp: u64,
) -> bool {
    let index = if before.records().contains_key(0) { (before.end() + 1) as u64 } else { 0u64 };
    let h = after.records()[index];
    &&& after.records() == before.records().insert(index, h)
    &&& after.start() == before.start()
    &&& after.end() == index
    &&& h.block_height == block_height
    &&& h.timestamp == timestamp
    &&& h.index == index
    &&& h.anchor_event matches AnchorEvent::FailedToMintWrappedAppchainToken {
        sender_id_in_appchain: Some(s),
        receiver_id_in_near: r,
        amount: m,
        appchain_message_nonce: n,
        reason,
    } && s@ == owner && r == receiver && m == amount && n == nonce && reason@ == too_much_to_mint_message()
}

/// Whether applying `appchain_message` at `block_height` and `timestamp`
/// gave `res` and turned `before` into `after`: the message of a planned era
/// starts the switch to it, and the message of a concluded era starts the
/// distribution of its reward, both refused where the era is too old; where
/// the distribution starts, the message asks for the era reward to be minted
/// to the anchor's own account. A message that moves assets becomes the
/// request for the move, unless the transfer of assets is paused.
pub open spec fn message_applied(
    before: AppchainAnchor,
    after: AppchainAnchor,
    appchain_message: AppchainMessage,
    block_height: u64,
    timestamp: u64,
    res: Result<MessageApplication, AnchorError>,
) -> bool {
    let nonce = appchain_message.nonce;
    match appchain_message.appchain_event {
        AppchainEvent::NearFungibleTokenBurnt {
            contract_account,
            owner_id_in_appchain,
            receiver_id_in_near,
            amount,
        } => {
            let ts = before.near_fungible_tokens.entries();
            let p = first_where(ts, has_contract(contract_account@));
            if before.asset_transfer_is_paused {
                paused_for(res, nonce) && after == before
            } else if p < 0 {
                res == Err::<MessageApplication, AnchorError>(
                    AnchorError::TokenContractNotRegistered(contract_account),
                ) && after == before
            } else if ts[p].locked_balance < amount {
                res == Err::<MessageApplication, AnchorError>(AnchorError::NotEnoughLockedBalance)
                    && after == before
            } else {
                &&& res == Ok::<MessageApplication, AnchorError>(
                    MessageApplication::Transfer {
                        nonce,
                        transfer: AssetTransfer::UnlockNearFungibleToken {
                            contract_account,
                            owner_id_in_appchain,
                            receiver_id_in_near,
                            amount,
                        },
                    },
                )
                &&& after.near_fungible_tokens.entries() == ts.update(
                    p,
                    NearFungibleToken { locked_balance: (ts[p].locked_balance - amount) as u128, ..ts[p] },
                )
                &&& after == (AppchainAnchor {
                    near_fungible_tokens: after.near_fungible_tokens,
                    ..before
                })
            }
        },
        AppchainEvent::NativeTokenLocked { owner_id_in_appchain, receiver_id_in_near, amount } => {
            let formatted = lowercase(prefixed_id(owner_id_in_appchain@));
            if before.asset_transfer_is_paused {
                paused_for(res, nonce) && after == before
            } else if !is_valid_raw_id(before.appchain_template_type, formatted) {
                res == Err::<MessageApplication, AnchorError>(
                    AnchorError::InvalidValidatorIdInAppchain(owner_id_in_appchain),
                ) && after == before
            } else if mint_too_much(before, amount) {
                &&& res matches Ok(MessageApplication::Applied(r)) && is_error(
                    r,
                    nonce,
                    too_much_to_mint_message(),
                )
                &&& failed_mint_recorded(
                    before.anchor_event_histories,
                    after.anchor_event_histories,
                    formatted,
                    receiver_id_in_near,
                    amount,
                    nonce,
                    block_height,
                    timestamp,
                )
                &&& after == (AppchainAnchor {
                    anchor_event_histories: after.anchor_event_histories,
                    ..before
                })
            } else {
                &&& after == before
                &&& res matches Ok(MessageApplication::Transfer {
                    nonce: n,
                    transfer: AssetTransfer::MintWrappedAppchainToken {
                        owner_id_in_appchain: o,
                        receiver_id_in_near: r,
                        amount: m,
                    },
                }) && n == nonce && o@ == formatted && r == receiver_id_in_near && m == amount
            }
        },
        AppchainEvent::NonFungibleTokenLocked {
            owner_id_in_appchain,
            receiver_id_in_near,
            class_id,
            instance_id,
            token_metadata,
        } => after == before && if before.asset_transfer_is_paused {
            paused_for(res, nonce)
        } else {
            res == Ok::<MessageApplication, AnchorError>(
                MessageApplication::Transfer {
                    nonce,
                    transfer: AssetTransfer::TransferNonFungibleToken {
                        owner_id_in_appchain,
                        receiver_id_in_near,
                        class_id,
                        instance_id,
                        token_metadata,
                    },
                },
            )
        },
        AppchainEvent::EraSwitchPlaned { era_number } => if era_message_too_old(before, era_number as u64) {
            res == Err::<MessageApplication, AnchorError>(AnchorError::MessageTooOld) && after
                == before
        } else {
            &&& res matches Ok(MessageApplication::Applied(r)) && match before.permissionless_actions_status.switching_era_number {
                Some(e) => is_error(r, nonce, still_switching_message(e)),
                None => r == (AppchainMessageProcessingResult::Processed { nonce, message: None }),
            }
            &&& era_switch_started(before, after, era_number as u64, block_height, timestamp)
        },
        AppchainEvent::EraRewardConcluded { era_number, unprofitable_validator_ids, .. } => if era_message_too_old(
            before,
            era_number as u64,
        ) {
            res == Err::<MessageApplication, AnchorError>(AnchorError::MessageTooOld) && after
                == before
        } else {
            res matches Ok(m) && distribution_started(
                before,
                after,
                nonce,
                era_number as u64,
                unprofitable_validator_ids@,
                started_result(m, nonce),
            ) && m == reward_application(started_result(m, nonce), nonce, before.appchain_settings.era_reward)
        },
    }
}

/// Whether the market values and the history of anchor events that
/// applying `appchain_message` to `a` works on have room for it.
pub open spec fn message_applicable(a: AppchainAnchor, appchain_message: AppchainMessage) -> bool {
    &&& appchain_message.appchain_event matches AppchainEvent::NativeTokenLocked { amount, .. }
        ==> (!a.asset_transfer_is_paused ==> mint_check_fits(a, amount))
    &&& appchain_message.appchain_event is NativeTokenLocked ==> (a.anchor_event_histories.records().contains_key(0)
        ==> a.anchor_event_histories.end() < u64::MAX)
}

/// What applying `appchain_message` to `before` in a batch comes to: the
/// message is applied where the market values and the history of anchor
/// events that it works on have room for it, and else gives `ValueOverflow`
/// and changes nothing.
pub open spec fn batch_step(
    before: AppchainAnchor,
    after: AppchainAnchor,
    appchain_message: AppchainMessage,
    block_height: u64,
    timestamp: u64,
    res: Result<MessageApplication, AnchorError>,
) -> bool {
    if message_applicable(before, appchain_message) {
        message_applied(before, after, appchain_message, block_height, timestamp, res)
    } else {
        res == Err::<MessageApplication, AnchorError>(AnchorError::ValueOverflow) && after == before
    }
}

/// Whether `states` are the anchor before and after each of `messages`,
/// applied in order as `batch_step` says with `results` as their results.
pub open spec fn batch_chain(
    states: Seq<AppchainAnchor>,
    messages: Seq<AppchainMessage>,
    block_height: u64,
    timestamp: u64,
    results: Seq<Result<MessageApplication, AnchorError>>,
) -> bool {
    &&& states.len() == messages.len() + 1
    &&& results.len() == messages.len()
    &&& forall|i: int|
        #![trigger results[i]]
        0 <= i < messages.len() ==> batch_step(states[i], states[i + 1], messages[i], block_height, timestamp, results[i])
}

/// Whether applying `messages` in order, each as `batch_step` says, gave
/// `results`, one for each, and turned `before` into `after`.
pub open spec fn messages_applied(
    before: AppchainAnchor,
    after: AppchainAnchor,
    messages: Seq<AppchainMessage>,
    block_height: u64,
    timestamp: u64,
    results: Seq<Result<MessageApplication, AnchorError>>,
) -> bool {
    exists|states: Seq<AppchainAnchor>|
        #![trigger batch_chain(states, messages, block_height, timestamp, results)]
        batch_chain(states, messages, block_height, timestamp, results) && states[0] == before && states.last() == after
}

impl AppchainAnchor {
    /// Applies the messages `appchain_messages` in order, at `block_height`
    /// and `timestamp`, and gives the result of each; only the owner may.
    pub fn apply_appchain_messages(
        &mut self,
        caller: &AccountId,
        appchain_messages: Vec<AppchainMessage>,
        block_height: u64,
        timestamp: u64,
    ) -> (res: Result<Vec<Result<MessageApplication, AnchorError>>, AnchorError>)
        requires
            old(self).wf(),
        ensures
            final(self).wf(),
            caller@ != old(self).owner@ ==> res == Err::<Vec<Result<MessageApplication, AnchorError>>, AnchorError>(
                AnchorError::NotAuthorized,
            ) && *final(self) == *old(self),
            caller@ == old(self).owner@ ==> (res matches Ok(results) && messages_applied(
                *old(self),
                *final(self),
                appchain_messages@,
                block_height,
                timestamp,
                results@,
            )),
    {
        if *caller != self.owner {
            return Err(AnchorError::NotAuthorized);
        }
        let ghost all = appchain_messages@;
        let ghost mut states: Seq<AppchainAnchor> = seq![*self];
        let mut rest = appchain_messages;
        let mut results: Vec<Result<MessageApplication, AnchorError>> = Vec::new();
        assert(all.skip(0) =~= all);
        while rest.len() > 0
            invariant
                self.wf(),
                results@.len() + rest@.len() == all.len(),
                rest@ == all.skip(results@.len() as int),
                batch_chain(states, all.take(results@.len() as int), block_height, timestamp, results@),
                states[0] == *old(self),
                states.last() == *self,
            decreases rest@.len(),
        {
            let ghost n = results@.len() as int;
            let ghost done = results@;
            let ghost before_states = states;
            let m = rest.remove(0);
            let ghost gm = m;
            assert(gm == all[n]);
            let r = if self.message_applicability(&m) {
                self.internal_apply_appchain_message(m, block_height, timestamp)
            } else {
                Err(AnchorError::ValueOverflow)
            };
            results.push(r);
            proof {
                states = states.push(*self);
                let taken = all.take(n + 1);
                assert(rest@ =~= all.skip(n + 1));
                assert forall|i: int|
                    #![trigger results@[i]]
                    0 <= i < taken.len() implies batch_step(
                    states[i],
                    states[i + 1],
                    taken[i],
                    block_height,
                    timestamp,
                    results@[i],
                ) by {
                    if i < n {
                        assert(done[i] == results@[i]);
                        assert(all.take(n)[i] == taken[i]);
                        assert(before_states[i] == states[i] && before_states[i + 1] == states[i + 1]);
                    } else {
                        assert(taken[i] == gm);
                    }
                }
            }
        }
        assert(all.take(all.len() as int) =~= all);
        assert(batch_chain(states, appchain_messages@, block_height, timestamp, results@));
        Ok(results)
    }

    /// Whether the market values that checking a mint of `amount` of the
    /// wrapped appchain token computes fit in 128 bits.
    pub fn mint_check_fit(&self, amount: u128) -> (res: bool)
        ensures
            res == mint_check_fits(*self, amount),
    {
        let t = &self.wrapped_appchain_token;
        if t.premined_balance > 170141183460469231731687303715884105727u128 {
            return false;
        }
        let premined: i128 = t.premined_balance as i128;
        let circulating: i128 = match premined.checked_add(t.changed_balance) {
            Some(c) => c,
            None => {
                return false;
            },
        };
        if circulating < 0 || t.metadata.decimals > 38 {
            return false;
        }
        proof {
            lemma_pow10_positive(t.metadata.decimals as nat);
        }
        let unit = power_of_ten(t.metadata.decimals);
        let circulating_value: u128 = match (circulating as u128 / unit).checked_mul(t.price_in_usd) {
            Some(v) => v,
            None => {
                return false;
            },
        };
        let amount_value: u128 = match (amount / unit).checked_mul(t.price_in_usd) {
            Some(v) => v,
            None => {
                return false;
            },
        };
        if circulating_value.checked_add(amount_value).is_none() {
            return false;
        }
        let stake = self.next_validator_set.validator_set().total_stake();
        let staked_value: u128 = match (stake / OCT_DECIMALS_VALUE).checked_mul(self.oct_token.price_in_usd) {
            Some(v) => v,
            None => {
                return false;
            },
        };
        let percent = self.protocol_settings.maximum_market_value_percent_of_wrapped_appchain_token;
        staked_value.checked_mul(percent as u128).is_some()
    }

    /// Whether the market values and the history of anchor events that
    /// applying `appchain_message` works on have room for it.
    pub fn message_applicability(&self, appchain_message: &AppchainMessage) -> (res: bool)
        ensures
            res == message_applicable(*self, *appchain_message),
    {
        match &appchain_message.appchain_event {
            AppchainEvent::NativeTokenLocked { amount, .. } => {
                if !self.asset_transfer_is_paused && !self.mint_check_fit(*amount) {
                    return false;
                }
                self.anchor_event_histories.get(&0).is_none()
                    || self.anchor_event_histories.index_range().end_index < u64::MAX
            },
            _ => true,
        }
    }

    /// The result for the message `nonce` while the transfer of assets is paused.
    fn paused_result(nonce: u32) -> (res: Result<MessageApplication, AnchorError>)
        ensures
            paused_for(res, nonce),
    {
        let mut message = String::new();
        message.append("Asset transfer is now paused.");
        Ok(MessageApplication::Applied(AppchainMessageProcessingResult::Error { nonce, message }))
    }

    /// Applies the staged message `appchain_message`, at `block_height` and
    /// `timestamp`. The message of a planned era starts the switch to it, and
    /// the message of a concluded era starts the distribution of its reward,
    /// both refused where the era is too old; where the distribution starts,
    /// the message asks for the era reward to be minted to the anchor's own
    /// account. A message that moves assets becomes the request for the
    /// move, unless the transfer of assets is paused: NEAR fungible tokens
    /// burnt in the appchain are unlocked from
    /// the balance of their registered token, which must hold them; the owner
    /// of native tokens locked in the appchain must have a valid id there, and
    /// the wrapped appchain tokens minted for them must keep the market value
    /// of the token within its limit (else the message gives an error).
    pub fn internal_apply_appchain_message(
        &mut self,
        appchain_message: AppchainMessage,
        block_height: u64,
        timestamp: u64,
    ) -> (res: Result<MessageApplication, AnchorError>)
        requires
            old(self).wf(),
            message_applicable(*old(self), appchain_message),
        ensures
            final(self).wf(),
            message_applied(*old(self), *final(self), appchain_message, block_height, timestamp, res),
    {
        let nonce = appchain_message.nonce;
        match appchain_message.appchain_event {
            AppchainEvent::NearFungibleTokenBurnt { contract_account, owner_id_in_appchain, receiver_id_in_near, amount } => {
                if self.asset_transfer_is_paused {
                    return Self::paused_result(nonce);
                }
                match self.near_fungible_tokens.get_by_contract_account(&contract_account) {
                    None => {
                        return Err(AnchorError::TokenContractNotRegistered(contract_account));
                    },
                    Some(t) => {
                        if t.locked_balance < amount {
                            return Err(AnchorError::NotEnoughLockedBalance);
                        }
                    },
                }
                self.near_fungible_tokens.decrease_locked_balance(&contract_account, amount);
                Ok(
                    MessageApplication::Transfer {
                        nonce,
                        transfer: AssetTransfer::UnlockNearFungibleToken {
                            contract_account,
                            owner_id_in_appchain,
                            receiver_id_in_near,
                            amount,
                        },
                    },
                )
            },
            AppchainEvent::NativeTokenLocked { owner_id_in_appchain, receiver_id_in_near, amount } => {
                if self.asset_transfer_is_paused {
                    return Self::paused_result(nonce);
                }
                let submitted = owner_id_in_appchain.clone();
                let owner_id = AccountIdInAppchain::new(Some(owner_id_in_appchain), &self.appchain_template_type);
                if !owner_id.is_valid() {
                    return Err(AnchorError::InvalidValidatorIdInAppchain(submitted));
                }
                let t = &self.wrapped_appchain_token;
                let percent = self.protocol_settings.maximum_market_value_percent_of_wrapped_appchain_token as u128;
                if t.total_market_value() + t.get_market_value_of(amount) > self.get_market_value_of_staked_oct_token()
                    * percent / 100 {
                    let mut message = String::new();
                    message.append("Too much wrapped appchain token to mint.");
                    let mut reason = String::new();
                    reason.append("Too much wrapped appchain token to mint.");
                    self.anchor_event_histories.append(
                        AnchorEvent::FailedToMintWrappedAppchainToken {
                            sender_id_in_appchain: Some(owner_id.to_string()),
                            receiver_id_in_near,
                            amount,
                            appchain_message_nonce: nonce,
                            reason,
                        },
                        block_height,
                        timestamp,
                    );
                    return Ok(
                        MessageApplication::Applied(AppchainMessageProcessingResult::Error { nonce, message }),
                    );
                }
                Ok(
                    MessageApplication::Transfer {
                        nonce,
                        transfer: AssetTransfer::MintWrappedAppchainToken {
                            owner_id_in_appchain: owner_id.to_string(),
                            receiver_id_in_near,
                            amount,
                        },
                    },
                )
            },
            AppchainEvent::NonFungibleTokenLocked {
                owner_id_in_appchain,
                receiver_id_in_near,
                class_id,
                instance_id,
                token_metadata,
            } => {
                if self.asset_transfer_is_paused {
                    return Self::paused_result(nonce);
                }
                Ok(
                    MessageApplication::Transfer {
                        nonce,
                        transfer: AssetTransfer::TransferNonFungibleToken {
                            owner_id_in_appchain,
                            receiver_id_in_near,
                            class_id,
                            instance_id,
                            token_metadata,
                        },
                    },
                )
            },
            AppchainEvent::EraSwitchPlaned { era_number } => {
                self.assert_era_number_is_valid(era_number as u64)?;
                let r = self.internal_start_switching_era(era_number as u64, nonce, block_height, timestamp);
                Ok(MessageApplication::Applied(r))
            },
            AppchainEvent::EraRewardConcluded { era_number, unprofitable_validator_ids, .. } => {
                self.assert_era_number_is_valid(era_number as u64)?;
                let era_reward = self.appchain_settings.era_reward;
                let r = self.internal_start_distributing_reward_of_era(nonce, era_number as u64, unprofitable_validator_ids);
                match r {
                    AppchainMessageProcessingResult::Processed { nonce: n, message: None } => {
                        if n == nonce {
                            return Ok(
                                MessageApplication::Transfer {
                                    nonce,
                                    transfer: AssetTransfer::MintEraReward { amount: era_reward },
                                },
                            );
                        }
                        Ok(MessageApplication::Applied(AppchainMessageProcessingResult::Processed { nonce: n, message: None }))
                    },
                    _ => Ok(MessageApplication::Applied(r)),
                }
            },
        }
    }
}

} // verus!
