//! Verified core of an appchain anchor: the history arrays, the validator
//! sets and their staking rules, reward distribution, the protocol settings,
//! the deposits of tokens and the bridged tokens of an appchain anchored in
//! NEAR protocol.
#![allow(unused_imports)]

pub mod account_id_in_appchain;
pub mod balance_map;
pub mod errors;
pub mod histories;
pub mod lookup_array;
pub mod types;
pub mod validator_set;
pub mod stake_accounting;
pub mod next_validator_set;
pub mod validator_set_of_era;
pub mod challenge;
pub mod settings;
pub mod messages;
pub mod unbonded_stakes;
pub mod anchor;
pub mod text;
pub mod switching_era;
pub mod profiles;
pub mod distributing_rewards;
pub mod permissionless;
pub mod staging;
pub mod staking_rules;
pub mod withdrawals;
pub mod rewards;
pub mod lifecycle;
pub mod applying;
pub mod validator_actions;
pub mod maintenance;
pub mod viewers;
pub mod fungible_tokens;
pub mod wrapped_token;
pub mod deposits;
pub mod testnet;
pub mod decoding;
pub mod removal;
pub mod round_trip;
pub mod nfts;

use vstd::prelude::*;

verus! {

} // verus!
