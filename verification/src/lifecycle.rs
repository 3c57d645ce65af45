//! What the owner of the anchor does to the lifecycle of the appchain and to
//! the histories the anchor keeps.
use crate::anchor::AppchainAnchor;
use crate::errors::AnchorError;
use crate::permissionless::era_switch_started;
use crate::rewards::OCT_DECIMALS_VALUE;
use crate::types::{AccountId, AppchainState};
use crate::wrapped_token::wrapped_token_is_set;
use vstd::prelude::*;
use vstd::string::StrSliceExecFns;

verus! {

/// Why the account `caller` may not take the appchain of `a` to booting, if
/// it may not: only the owner may, while the appchain is staging, with at
/// least the minimum number of validators and a stake (counted in whole OCT
/// tokens) whose price is at least the price needed to boot.
pub open spec fn booting_refusal(a: AppchainAnchor, caller: AccountId) -> Option<AnchorError> {
    if caller@ != a.owner@ {
        Some(AnchorError::NotAuthorized)
    } else if a.appchain_state != AppchainState::Staging {
        Some(AnchorError::InvalidAppchainState)
    } else if a.next_validator_set.set().validators.len() < a.protocol_settings.minimum_validator_count {
        Some(AnchorError::TooFewValidators)
    } else if (a.next_validator_set.set().total_stake / OCT_DECIMALS_VALUE as int) * a.oct_token.price_in_usd
        < a.protocol_settings.minimum_total_stake_price_for_booting {
        Some(AnchorError::NotEnoughStake)
    } else {
        None
    }
}

/// Whether `c` has the Unicode property White_Space, as Rust's
/// `char::is_whitespace` says.
pub open spec fn is_white_space(c: char) -> bool {
    let n = c as u32;
    ||| 0x09 <= n <= 0x0d
    ||| n == 0x20
    ||| n == 0x85
    ||| n == 0xa0
    ||| n == 0x1680
    ||| 0x2000 <= n <= 0x200a
    ||| n == 0x2028
    ||| n == 0x2029
    ||| n == 0x202f
    ||| n == 0x205f
    ||| n == 0x3000
}

/// Whether `s` holds nothing but white space, so that trimming leaves it
/// empty.
pub open spec fn is_blank(s: Seq<char>) -> bool {
    forall|i: int| 0 <= i < s.len() ==> #[trigger] is_white_space(s[i])
}

/// Whether `c` has the Unicode property White_Space.
fn white_space(c: char) -> (res: bool)
    ensures
        res == is_white_space(c),
{
    let n = c as u32;
    (0x09 <= n && n <= 0x0d) || n == 0x20 || n == 0x85 || n == 0xa0 || n == 0x1680 || (0x2000 <= n && n <= 0x200a)
        || n == 0x2028 || n == 0x2029 || n == 0x202f || n == 0x205f || n == 0x3000
}

/// Whether `s` holds nothing but white space.
pub(crate) fn blank(s: &str) -> (res: bool)
    ensures
        res == is_blank(s@),
{
    let n = s.unicode_len();
    let mut i: usize = 0;
    while i < n
        invariant
            n == s@.len(),
            i <= n,
            forall|k: int| 0 <= k < i ==> #[trigger] is_white_space(s@[k]),
        decreases n - i,
    {
        if !white_space(s.get_char(i)) {
            return false;
        }
        i = i + 1;
    }
    true
}

/// Why the account `caller` may not take the appchain of `a` live, if it may
/// not, where `light_client_initialized` says whether the light client of
/// the appchain is initialized: only the owner may, while the appchain is
/// booting, with the wrapped appchain token set, an RPC endpoint that is not
/// blank and an era reward.
pub open spec fn going_live_refusal(a: AppchainAnchor, caller: AccountId, light_client_initialized: bool) -> Option<
    AnchorError,
> {
    if caller@ != a.owner@ {
        Some(AnchorError::NotAuthorized)
    } else if a.appchain_state != AppchainState::Booting {
        Some(AnchorError::InvalidAppchainState)
    } else if !wrapped_token_is_set(a.wrapped_appchain_token) {
        Some(AnchorError::MissingWrappedAppchainTokenSettings)
    } else if is_blank(a.appchain_settings.rpc_endpoint@) || a.appchain_settings.era_reward == 0 {
        Some(AnchorError::MissingAppchainSettings)
    } else if !light_client_initialized {
        Some(AnchorError::LightClientNotInitialized)
    } else {
        None
    }
}

impl AppchainAnchor {
    /// Takes the appchain from staging to booting and starts the switch to
    /// era 0, at `block_height` and `timestamp`; the steps of the switch are
    /// taken by `try_complete_switching_era`. Refused as `booting_refusal` says.
    pub fn go_booting(&mut self, caller: &AccountId, block_height: u64, timestamp: u64) -> (res: Result<(), AnchorError>)
        requires
            old(self).wf(),
            (old(self).next_validator_set.set().total_stake / OCT_DECIMALS_VALUE as int) * old(self).oct_token.price_in_usd
                <= u128::MAX,
        ensures
            final(self).wf(),
            match booting_refusal(*old(self), *caller) {
                Some(e) => res == Err::<(), AnchorError>(e) && *final(self) == *old(self),
                None => res == Ok::<(), AnchorError>(()) && era_switch_started(
                    AppchainAnchor { appchain_state: AppchainState::Booting, ..*old(self) },
                    *final(self),
                    0,
                    block_height,
                    timestamp,
                ),
            },
    {
        if *caller != self.owner {
            return Err(AnchorError::NotAuthorized);
        }
        match self.appchain_state {
            AppchainState::Staging => {},
            _ => {
                return Err(AnchorError::InvalidAppchainState);
            },
        }
        let set = self.next_validator_set.validator_set();
        if set.validator_count() < self.protocol_settings.minimum_validator_count {
            return Err(AnchorError::TooFewValidators);
        }
        if set.total_stake() / OCT_DECIMALS_VALUE * self.oct_token.price_in_usd
            < self.protocol_settings.minimum_total_stake_price_for_booting {
            return Err(AnchorError::NotEnoughStake);
        }
        self.appchain_state = AppchainState::Booting;
        let _ = self.internal_start_switching_era(0, 0, block_height, timestamp);
        Ok(())
    }

    /// Removes the validator sets of the eras before `era_number`; refused
    /// where `caller` is not the owner.
    pub fn remove_validator_set_before(&mut self, caller: &AccountId, era_number: u64) -> (res: Result<(), AnchorError>)
        ensures
            caller@ != old(self).owner@ ==> res == Err::<(), AnchorError>(AnchorError::NotAuthorized)
                && *final(self) == *old(self),
            caller@ == old(self).owner@ ==> {
                &&& res == Ok::<(), AnchorError>(())
                &&& old(self).validator_set_histories.removed_before(&final(self).validator_set_histories, era_number)
                &&& *final(self) == (AppchainAnchor {
                    validator_set_histories: final(self).validator_set_histories,
                    ..*old(self)
                })
            },
    {
        if *caller != self.owner {
            return Err(AnchorError::NotAuthorized);
        }
        self.validator_set_histories.remove_before(&era_number);
        Ok(())
    }

    /// Removes the staking histories before `index`; refused where `caller`
    /// is not the owner.
    pub fn remove_staking_history_before(&mut self, caller: &AccountId, index: u64) -> (res: Result<(), AnchorError>)
        ensures
            caller@ != old(self).owner@ ==> res == Err::<(), AnchorError>(AnchorError::NotAuthorized)
                && *final(self) == *old(self),
            caller@ == old(self).owner@ ==> {
                &&& res == Ok::<(), AnchorError>(())
                &&& old(self).staking_histories.removed_before(&final(self).staking_histories, index)
                &&& *final(self) == (AppchainAnchor { staking_histories: final(self).staking_histories, ..*old(self) })
            },
    {
        if *caller != self.owner {
            return Err(AnchorError::NotAuthorized);
        }
        self.staking_histories.remove_before(&index);
        Ok(())
    }

    /// Removes the appchain notification histories before `index`; refused
    /// where `caller` is not the owner.
    pub fn remove_appchain_notification_history_before(&mut self, caller: &AccountId, index: u64) -> (res: Result<
        (),
        AnchorError,
    >)
        ensures
            caller@ != old(self).owner@ ==> res == Err::<(), AnchorError>(AnchorError::NotAuthorized)
                && *final(self) == *old(self),
            caller@ == old(self).owner@ ==> {
                &&& res == Ok::<(), AnchorError>(())
                &&& old(self).appchain_notification_histories.removed_before(
                    &final(self).appchain_notification_histories,
                    index,
                )
                &&& *final(self) == (AppchainAnchor {
                    appchain_notification_histories: final(self).appchain_notification_histories,
                    ..*old(self)
                })
            },
    {
        if *caller != self.owner {
            return Err(AnchorError::NotAuthorized);
        }
        self.appchain_notification_histories.remove_before(&index);
        Ok(())
    }
    /// Takes the appchain from booting to active, where
    /// `light_client_initialized` says whether the light client of the
    /// appchain is initialized. Refused as `going_live_refusal` says.
    pub fn go_live(&mut self, caller: &AccountId, light_client_initialized: bool) -> (res: Result<(), AnchorError>)
        ensures
            match going_live_refusal(*old(self), *caller, light_client_initialized) {
                Some(e) => res == Err::<(), AnchorError>(e) && *final(self) == *old(self),
                None => res == Ok::<(), AnchorError>(()) && *final(self) == (AppchainAnchor {
                    appchain_state: AppchainState::Active,
                    ..*old(self)
                }),
            },
    {
        if *caller != self.owner {
            return Err(AnchorError::NotAuthorized);
        }
        match self.appchain_state {
            AppchainState::Booting => {},
            _ => {
                return Err(AnchorError::InvalidAppchainState);
            },
        }
        let t = &self.wrapped_appchain_token;
        if t.contract_account.is_none() || t.premined_beneficiary.is_none() || t.metadata.symbol.unicode_len() == 0
            || t.metadata.name.unicode_len() == 0 || t.metadata.decimals == 0 {
            return Err(AnchorError::MissingWrappedAppchainTokenSettings);
        }
        if blank(self.appchain_settings.rpc_endpoint.as_str()) || self.appchain_settings.era_reward == 0 {
            return Err(AnchorError::MissingAppchainSettings);
        }
        if !light_client_initialized {
            return Err(AnchorError::LightClientNotInitialized);
        }
        self.appchain_state = AppchainState::Active;
        Ok(())
    }
}

} // verus!
