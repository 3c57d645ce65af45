//! The wrapped appchain token: the native token of the appchain as a
//! fungible token of NEAR protocol, with its premined balance and the balance
//! minted and burnt since.
use crate::anchor::AppchainAnchor;
use crate::errors::AnchorError;
use crate::fungible_tokens::{lemma_pow10_positive, pow10, power_of_ten, FungibleTokenMetadata};
use crate::lifecycle::{blank, is_blank};
use vstd::string::StrSliceExecFns;
use crate::types::{AccountId, AppchainNotification, AppchainNotificationHistory};
use vstd::prelude::*;
use vstd::string::StringExecFns;

verus! {

/// The native token of the appchain, wrapped on NEAR protocol.
#[derive(Clone, Debug, PartialEq, Eq)]
pub struct WrappedAppchainToken {
    pub metadata: FungibleTokenMetadata,
    /// The account of the token's contract, once it is set.
    pub contract_account: Option<AccountId>,
    /// The account that holds the premined balance, once it is set.
    pub premined_beneficiary: Option<AccountId>,
    pub premined_balance: u128,
    /// The balance minted less the balance burnt since the premine.
    pub changed_balance: i128,
    /// The price of one whole token in USD.
    pub price_in_usd: u128,
    pub total_supply: u128,
}

/// Whether `t` is the wrapped appchain token of a new anchor: nothing of it
/// set but the version of its metadata.
pub open spec fn is_unset_wrapped_token(t: WrappedAppchainToken) -> bool {
    &&& t.metadata.spec@ == "ft-1.0.0"@
    &&& t.metadata.symbol@ == Seq::<char>::empty()
    &&& t.metadata.name@ == Seq::<char>::empty()
    &&& t.metadata.decimals == 0
    &&& t.metadata.icon is None
    &&& t.metadata.reference is None
    &&& t.metadata.reference_hash is None
    &&& t.contract_account is None
    &&& t.premined_beneficiary is None
    &&& t.premined_balance == 0
    &&& t.changed_balance == 0
    &&& t.price_in_usd == 0
    &&& t.total_supply == 0
}

impl Default for WrappedAppchainToken {
    fn default() -> (res: Self)
        ensures
            is_unset_wrapped_token(res),
    {
        WrappedAppchainToken {
            metadata: FungibleTokenMetadata {
                spec: String::from_str("ft-1.0.0"),
                name: String::new(),
                symbol: String::new(),
                icon: None,
                reference: None,
                reference_hash: None,
                decimals: 0,
            },
            contract_account: None,
            premined_beneficiary: None,
            premined_balance: 0,
            changed_balance: 0,
            price_in_usd: 0,
            total_supply: 0,
        }
    }
}

/// The balance of `t` in circulation: the premined balance and the balance
/// changed since.
pub open spec fn circulating_balance(t: WrappedAppchainToken) -> int {
    t.premined_balance + t.changed_balance
}

/// The market value in USD of `amount` of `t`: the whole tokens in it times
/// the price of one.
pub open spec fn wrapped_market_value(t: WrappedAppchainToken, amount: int) -> int {
    (amount / pow10(t.metadata.decimals as nat) as int) * t.price_in_usd
}

/// Whether the contract, the premined beneficiary, the symbol, the name and
/// the decimals of `t` are all set.
pub open spec fn wrapped_token_is_set(t: WrappedAppchainToken) -> bool {
    &&& t.contract_account is Some
    &&& t.premined_beneficiary is Some
    &&& t.metadata.symbol@.len() > 0
    &&& t.metadata.name@.len() > 0
    &&& t.metadata.decimals != 0
}

/// Whether all of `t` is set: its contract and its premined beneficiary (not
/// blank), its price, and the symbol, the name and the decimals of its
/// metadata.
pub open spec fn wrapped_token_valid(t: WrappedAppchainToken) -> bool {
    &&& (t.contract_account matches Some(c) && !is_blank(c@))
    &&& (t.premined_beneficiary matches Some(b) && !is_blank(b@))
    &&& t.price_in_usd != 0
    &&& t.metadata.symbol@.len() > 0
    &&& t.metadata.name@.len() > 0
    &&& t.metadata.decimals != 0
}

impl WrappedAppchainToken {
    /// Whether all of the token is set, as `wrapped_token_valid` says.
    pub fn is_valid(&self) -> (res: bool)
        ensures
            res == wrapped_token_valid(*self),
    {
        let contract_set = match &self.contract_account {
            Some(c) => !blank(c.as_str()),
            None => false,
        };
        let beneficiary_set = match &self.premined_beneficiary {
            Some(b) => !blank(b.as_str()),
            None => false,
        };
        contract_set && beneficiary_set && self.price_in_usd != 0 && self.metadata.symbol.as_str().unicode_len() > 0
            && self.metadata.name.as_str().unicode_len() > 0 && self.metadata.decimals != 0
    }

    /// The market value of the balance in circulation.
    pub fn total_market_value(&self) -> (res: u128)
        requires
            self.premined_balance <= i128::MAX,
            0 <= circulating_balance(*self) <= i128::MAX,
            self.metadata.decimals <= 38,
            wrapped_market_value(*self, circulating_balance(*self)) <= u128::MAX,
        ensures
            res == wrapped_market_value(*self, circulating_balance(*self)),
    {
        let premined = self.premined_balance as i128;
        let total = (premined + self.changed_balance) as u128;
        proof {
            lemma_pow10_positive(self.metadata.decimals as nat);
        }
        total / power_of_ten(self.metadata.decimals) * self.price_in_usd
    }

    /// The market value of `amount` of the token.
    pub fn get_market_value_of(&self, amount: u128) -> (res: u128)
        requires
            self.metadata.decimals <= 38,
            wrapped_market_value(*self, amount as int) <= u128::MAX,
        ensures
            res == wrapped_market_value(*self, amount as int),
    {
        proof {
            lemma_pow10_positive(self.metadata.decimals as nat);
        }
        amount / power_of_ten(self.metadata.decimals) * self.price_in_usd
    }
}

/// Whether `after` is `before` with the wrapped appchain token `t`.
pub open spec fn wrapped_token_replaced(before: AppchainAnchor, after: AppchainAnchor, t: WrappedAppchainToken) -> bool {
    after == (AppchainAnchor { wrapped_appchain_token: t, ..before })
}

impl AppchainAnchor {
    /// The wrapped appchain token.
    pub fn get_wrapped_appchain_token(&self) -> (res: &WrappedAppchainToken)
        ensures
            *res == self.wrapped_appchain_token,
    {
        &self.wrapped_appchain_token
    }

    /// Refuses a request while the contract account of the wrapped appchain
    /// token is not set.
    pub fn assert_contract_account_of_wrapped_appchain_token_is_set(&self) -> (res: Result<(), AnchorError>)
        ensures
            res == if self.wrapped_appchain_token.contract_account is Some {
                Ok::<(), AnchorError>(())
            } else {
                Err::<(), AnchorError>(AnchorError::WrappedAppchainTokenContractNotSet)
            },
    {
        if self.wrapped_appchain_token.contract_account.is_some() {
            Ok(())
        } else {
            Err(AnchorError::WrappedAppchainTokenContractNotSet)
        }
    }

    /// Gives the wrapped appchain token the metadata `metadata`; refused
    /// unless `caller` is the owner.
    pub fn set_metadata_of_wrapped_appchain_token(&mut self, caller: &AccountId, metadata: FungibleTokenMetadata) -> (res:
        Result<(), AnchorError>)
        ensures
            caller@ != old(self).owner@ ==> res == Err::<(), AnchorError>(AnchorError::NotAuthorized)
                && *final(self) == *old(self),
            caller@ == old(self).owner@ ==> res == Ok::<(), AnchorError>(()) && wrapped_token_replaced(
                *old(self),
                *final(self),
                WrappedAppchainToken { metadata, ..old(self).wrapped_appchain_token },
            ),
    {
        if *caller != self.owner {
            return Err(AnchorError::NotAuthorized);
        }
        self.wrapped_appchain_token.metadata = metadata;
        Ok(())
    }

    /// Makes `premined_beneficiary` the holder of the premined balance
    /// `premined_balance` of the wrapped appchain token; refused unless
    /// `caller` is the owner.
    pub fn set_premined_balance_of_wrapped_appchain_token(
        &mut self,
        caller: &AccountId,
        premined_beneficiary: AccountId,
        premined_balance: u128,
    ) -> (res: Result<(), AnchorError>)
        ensures
            caller@ != old(self).owner@ ==> res == Err::<(), AnchorError>(AnchorError::NotAuthorized)
                && *final(self) == *old(self),
            caller@ == old(self).owner@ ==> res == Ok::<(), AnchorError>(()) && wrapped_token_replaced(
                *old(self),
                *final(self),
                WrappedAppchainToken {
                    premined_beneficiary: Some(premined_beneficiary),
                    premined_balance,
                    ..old(self).wrapped_appchain_token
                },
            ),
    {
        if *caller != self.owner {
            return Err(AnchorError::NotAuthorized);
        }
        self.wrapped_appchain_token.premined_beneficiary = Some(premined_beneficiary);
        self.wrapped_appchain_token.premined_balance = premined_balance;
        Ok(())
    }

    /// Makes `contract_account` the contract of the wrapped appchain token;
    /// refused unless `caller` is the owner.
    pub fn set_account_of_wrapped_appchain_token(&mut self, caller: &AccountId, contract_account: AccountId) -> (res:
        Result<(), AnchorError>)
        ensures
            caller@ != old(self).owner@ ==> res == Err::<(), AnchorError>(AnchorError::NotAuthorized)
                && *final(self) == *old(self),
            caller@ == old(self).owner@ ==> res == Ok::<(), AnchorError>(()) && wrapped_token_replaced(
                *old(self),
                *final(self),
                WrappedAppchainToken { contract_account: Some(contract_account), ..old(self).wrapped_appchain_token },
            ),
    {
        if *caller != self.owner {
            return Err(AnchorError::NotAuthorized);
        }
        self.wrapped_appchain_token.contract_account = Some(contract_account);
        Ok(())
    }

    /// Sets the price of the wrapped appchain token in USD to `price`;
    /// refused unless `caller` is the maintainer of token prices.
    pub fn set_price_of_wrapped_appchain_token(&mut self, caller: &AccountId, price: u128) -> (res: Result<
        (),
        AnchorError,
    >)
        ensures
            res == old(self).price_maintainer_check(*caller),
            res is Ok ==> wrapped_token_replaced(
                *old(self),
                *final(self),
                WrappedAppchainToken { price_in_usd: price, ..old(self).wrapped_appchain_token },
            ),
            res is Err ==> *final(self) == *old(self),
    {
        match self.assert_token_price_maintainer(caller) {
            Ok(()) => {},
            Err(e) => {
                return Err(e);
            },
        }
        self.wrapped_appchain_token.price_in_usd = price;
        Ok(())
    }

    /// Takes the metadata `metadata` and the premine to `premined_beneficiary`
    /// of `premined_balance` from the contract of the wrapped appchain token;
    /// refused unless `caller` is that contract.
    pub fn sync_basedata_of_wrapped_appchain_token(
        &mut self,
        caller: &AccountId,
        metadata: FungibleTokenMetadata,
        premined_beneficiary: AccountId,
        premined_balance: u128,
    ) -> (res: Result<(), AnchorError>)
        ensures
            !(old(self).wrapped_appchain_token.contract_account matches Some(c) && c@ == caller@) ==> res == Err::<
                (),
                AnchorError,
            >(AnchorError::NotAuthorized) && *final(self) == *old(self),
            (old(self).wrapped_appchain_token.contract_account matches Some(c) && c@ == caller@) ==> res == Ok::<
                (),
                AnchorError,
            >(()) && wrapped_token_replaced(
                *old(self),
                *final(self),
                WrappedAppchainToken {
                    metadata,
                    premined_beneficiary: Some(premined_beneficiary),
                    premined_balance,
                    ..old(self).wrapped_appchain_token
                },
            ),
    {
        let authorized = match &self.wrapped_appchain_token.contract_account {
            Some(c) => *c == *caller,
            None => false,
        };
        if !authorized {
            return Err(AnchorError::NotAuthorized);
        }
        self.wrapped_appchain_token.metadata = metadata;
        self.wrapped_appchain_token.premined_beneficiary = Some(premined_beneficiary);
        self.wrapped_appchain_token.premined_balance = premined_balance;
        Ok(())
    }
    /// Takes the outcome of burning `amount` of the wrapped appchain token of
    /// `sender_id_in_near` for `receiver_id_in_appchain`: where the contract
    /// burnt it, the balance changed since the premine goes down by `amount`
    /// and the appchain is notified of the burn, at `block_height` and
    /// `timestamp`; where it did not, nothing changes.
    pub fn resolve_wrapped_appchain_token_burning(
        &mut self,
        sender_id_in_near: AccountId,
        receiver_id_in_appchain: String,
        amount: u128,
        burnt: bool,
        block_height: u64,
        timestamp: u64,
    ) -> (res: Option<AppchainNotificationHistory>)
        requires
            burnt ==> old(self).wrapped_appchain_token.changed_balance - amount >= i128::MIN,
            burnt ==> amount <= i128::MAX,
            old(self).appchain_notification_histories.records().contains_key(0)
                ==> old(self).appchain_notification_histories.end() < u64::MAX,
        ensures
            !burnt ==> res is None && *final(self) == *old(self),
            burnt ==> res == Some(
                AppchainNotificationHistory {
                    appchain_notification: AppchainNotification::WrappedAppchainTokenBurnt {
                        sender_id_in_near,
                        receiver_id_in_appchain,
                        amount,
                    },
                    block_height,
                    timestamp,
                    index: old(self).appchain_notification_histories.next_index(),
                },
            ),
            burnt ==> {
                let h = res->0;
                &&& final(self).appchain_notification_histories.records()
                    == old(self).appchain_notification_histories.records().insert(h.index, h)
                &&& final(self).appchain_notification_histories.start()
                    == old(self).appchain_notification_histories.start()
                &&& final(self).appchain_notification_histories.end() == h.index
                &&& *final(self) == (AppchainAnchor {
                    appchain_notification_histories: final(self).appchain_notification_histories,
                    wrapped_appchain_token: WrappedAppchainToken {
                        changed_balance: (old(self).wrapped_appchain_token.changed_balance - amount) as i128,
                        ..old(self).wrapped_appchain_token
                    },
                    ..*old(self)
                })
            },
    {
        if !burnt {
            return None;
        }
        self.wrapped_appchain_token.changed_balance = self.wrapped_appchain_token.changed_balance - amount as i128;
        let history = self.internal_append_appchain_notification(
            AppchainNotification::WrappedAppchainTokenBurnt { sender_id_in_near, receiver_id_in_appchain, amount },
            block_height,
            timestamp,
        );
        Some(history)
    }

    /// Takes the outcome of minting `amount` of the wrapped appchain token:
    /// where the contract minted it, the balance changed since the premine
    /// goes up by `amount`; where it did not, nothing changes.
    pub fn resolve_wrapped_appchain_token_minting(&mut self, amount: u128, minted: bool)
        requires
            minted ==> amount <= i128::MAX,
            minted ==> old(self).wrapped_appchain_token.changed_balance + amount <= i128::MAX,
        ensures
            !minted ==> *final(self) == *old(self),
            minted ==> wrapped_token_replaced(
                *old(self),
                *final(self),
                WrappedAppchainToken {
                    changed_balance: (old(self).wrapped_appchain_token.changed_balance + amount) as i128,
                    ..old(self).wrapped_appchain_token
                },
            ),
    {
        if minted {
            self.wrapped_appchain_token.changed_balance = self.wrapped_appchain_token.changed_balance + amount as i128;
        }
    }
}

} // verus!
