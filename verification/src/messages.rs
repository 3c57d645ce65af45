//! The messages that the appchain sends to the anchor: the payloads they
//! carry, the events they stand for, and the store of staged messages with
//! the results of their processing.
use crate::types::{AccountId, AppchainMessageProcessingResult, MultiTxsOperationProcessingResult};
use std::collections::HashMap;
use vstd::prelude::*;

verus! {

broadcast use vstd::std_specs::hash::group_hash_axioms;

/// The kind of payload that a raw message carries.
#[derive(Clone, Copy, Debug, PartialEq, Eq)]
pub enum PayloadType {
    Lock,
    BurnAsset,
    PlanNewEra,
    EraPayout,
    LockNft,
}

/// A fungible token of NEAR protocol was burnt in the appchain.
#[derive(Clone, Debug, PartialEq, Eq)]
pub struct BurnAssetPayload {
    pub token_id: String,
    pub sender: String,
    pub receiver_id: AccountId,
    pub amount: u128,
}

/// The native token of the appchain was locked in the appchain.
#[derive(Clone, Debug, PartialEq, Eq)]
pub struct LockPayload {
    pub sender: String,
    pub receiver_id: AccountId,
    pub amount: u128,
}

/// The appchain plans to switch to a new era.
#[derive(Clone, Copy, Debug, PartialEq, Eq)]
pub struct PlanNewEraPayload {
    pub new_era: u32,
}

/// A validator that committed offences in an era.
#[derive(Clone, Debug, PartialEq, Eq)]
pub struct Offender {
    pub kind: String,
    pub who: String,
    pub offences: u32,
}

/// The appchain concluded the reward of an era.
#[derive(Clone, Debug, PartialEq, Eq)]
pub struct EraPayoutPayload {
    pub end_era: u32,
    pub excluded_validators: Vec<String>,
    pub offenders: Vec<Offender>,
}

/// The metadata of a non-fungible token.
#[derive(Clone, Debug, PartialEq, Eq)]
pub struct TokenMetadata {
    pub title: Option<String>,
    pub description: Option<String>,
    pub media: Option<String>,
    pub media_hash: Option<Vec<u8>>,
    pub copies: Option<u64>,
    pub issued_at: Option<String>,
    pub expires_at: Option<String>,
    pub starts_at: Option<String>,
    pub updated_at: Option<String>,
    pub extra: Option<String>,
    pub reference: Option<String>,
    pub reference_hash: Option<Vec<u8>>,
}

/// A non-fungible token was locked in the appchain.
#[derive(Clone, Debug, PartialEq, Eq)]
pub struct LockNftPayload {
    pub sender: String,
    pub receiver_id: AccountId,
    pub class: u128,
    pub instance: u128,
    pub metadata: TokenMetadata,
}

/// The payload of a raw message, decoded.
#[derive(Clone, Debug, PartialEq, Eq)]
pub enum MessagePayload {
    BurnAsset(BurnAssetPayload),
    Lock(LockPayload),
    PlanNewEra(PlanNewEraPayload),
    EraPayout(EraPayoutPayload),
    LockNft(LockNftPayload),
}

/// A message of the appchain as it was sent: a nonce, the kind of the
/// payload and the encoded payload.
#[derive(Clone, Debug, PartialEq, Eq)]
pub struct RawMessage {
    pub nonce: u64,
    pub payload_type: PayloadType,
    pub payload: Vec<u8>,
}

impl RawMessage {
    /// The nonce, cut to its lower 32 bits.
    pub fn nonce(&self) -> (res: u32)
        ensures
            res == self.nonce as u32,
    {
        self.nonce as u32
    }
}

/// What happened in the appchain, as a message tells it.
#[derive(Clone, Debug, PartialEq, Eq)]
pub enum AppchainEvent {
    /// A fungible token of NEAR protocol was burnt in the appchain.
    NearFungibleTokenBurnt {
        contract_account: String,
        owner_id_in_appchain: String,
        receiver_id_in_near: AccountId,
        amount: u128,
    },
    /// The native token of the appchain was locked in the appchain.
    NativeTokenLocked { owner_id_in_appchain: String, receiver_id_in_near: AccountId, amount: u128 },
    /// The appchain plans to switch to the era `era_number`.
    EraSwitchPlaned { era_number: u32 },
    /// The appchain concluded the reward of the era `era_number`.
    EraRewardConcluded { era_number: u32, unprofitable_validator_ids: Vec<String>, offenders: Vec<Offender> },
    /// A non-fungible token was locked in the appchain.
    NonFungibleTokenLocked {
        owner_id_in_appchain: String,
        receiver_id_in_near: AccountId,
        class_id: String,
        instance_id: String,
        token_metadata: TokenMetadata,
    },
}

/// A message of the appchain with its event.
#[derive(Clone, Debug, PartialEq, Eq)]
pub struct AppchainMessage {
    pub appchain_event: AppchainEvent,
    pub nonce: u32,
}

/// The messages of `m` with the nonces `lo..hi`, in the order of their
/// nonce, leaving out the nonces that hold none.
pub open spec fn entries_between<T>(m: Map<u32, T>, lo: int, hi: int) -> Seq<T>
    decreases hi - lo,
{
    if hi <= lo {
        Seq::empty()
    } else {
        let prefix = entries_between(m, lo, hi - 1);
        if m.contains_key((hi - 1) as u32) {
            prefix.push(m[(hi - 1) as u32])
        } else {
            prefix
        }
    }
}

/// The number of nonces that `get_messages` and `get_processing_results` read.
pub open spec fn read_count(quantity: Option<u32>) -> int {
    match quantity {
        Some(q) => q as int,
        None => 50,
    }
}

/// The staged messages of the appchain and the results of their processing,
/// with the range of nonces that were staged.
pub struct AppchainMessages {
    message_map: HashMap<u32, AppchainMessage>,
    processing_result_map: HashMap<u32, AppchainMessageProcessingResult>,
    min_nonce: u32,
    max_nonce: u32,
}

impl AppchainMessages {
    /// The staged messages, by nonce.
    pub closed spec fn messages(&self) -> Map<u32, AppchainMessage> {
        self.message_map@
    }

    /// The results of processing, by nonce.
    pub closed spec fn results(&self) -> Map<u32, AppchainMessageProcessingResult> {
        self.processing_result_map@
    }

    /// The least nonce kept.
    pub closed spec fn lowest(&self) -> u32 {
        self.min_nonce
    }

    /// The greatest nonce staged.
    pub closed spec fn highest(&self) -> u32 {
        self.max_nonce
    }

    /// No message.
    pub fn new() -> (res: Self)
        ensures
            res.messages() == Map::<u32, AppchainMessage>::empty(),
            res.results() == Map::<u32, AppchainMessageProcessingResult>::empty(),
            res.lowest() == 0,
            res.highest() == 0,
    {
        AppchainMessages {
            message_map: HashMap::new(),
            processing_result_map: HashMap::new(),
            min_nonce: 0,
            max_nonce: 0,
        }
    }

    /// The least nonce kept.
    pub fn min_nonce(&self) -> (res: u32)
        ensures
            res == self.lowest(),
    {
        self.min_nonce
    }

    /// The greatest nonce staged.
    pub fn max_nonce(&self) -> (res: u32)
        ensures
            res == self.highest(),
    {
        self.max_nonce
    }

    /// Stages `appchain_message` unless a message with its nonce is staged;
    /// the range of nonces grows to hold its nonce, or starts at it where no
    /// message was staged.
    pub fn insert_message(&mut self, appchain_message: AppchainMessage)
        ensures
            old(self).messages().contains_key(appchain_message.nonce) ==> *final(self) == *old(self),
            !old(self).messages().contains_key(appchain_message.nonce) ==> {
                let n = appchain_message.nonce;
                &&& final(self).messages() == old(self).messages().insert(n, appchain_message)
                &&& final(self).results() == old(self).results()
                &&& if old(self).lowest() == 0 && old(self).highest() == 0 {
                    final(self).lowest() == n && final(self).highest() == n
                } else {
                    &&& final(self).lowest() == if n < old(self).lowest() { n } else { old(self).lowest() }
                    &&& final(self).highest() == if n > old(self).highest() { n } else { old(self).highest() }
                }
            },
    {
        let nonce = appchain_message.nonce;
        if !self.message_map.contains_key(&nonce) {
            self.message_map.insert(nonce, appchain_message);
            if self.min_nonce == 0 && self.max_nonce == 0 {
                self.min_nonce = nonce;
                self.max_nonce = nonce;
            } else {
                if nonce < self.min_nonce {
                    self.min_nonce = nonce;
                }
                if nonce > self.max_nonce {
                    self.max_nonce = nonce;
                }
            }
        }
    }

    /// Records `processing_result` for the message `appchain_message_nonce`,
    /// unless a result is recorded for it.
    pub fn insert_processing_result(&mut self, appchain_message_nonce: u32, processing_result: AppchainMessageProcessingResult)
        ensures
            final(self).messages() == old(self).messages(),
            final(self).lowest() == old(self).lowest(),
            final(self).highest() == old(self).highest(),
            final(self).results() == if old(self).results().contains_key(appchain_message_nonce) {
                old(self).results()
            } else {
                old(self).results().insert(appchain_message_nonce, processing_result)
            },
    {
        if !self.processing_result_map.contains_key(&appchain_message_nonce) {
            self.processing_result_map.insert(appchain_message_nonce, processing_result);
        }
    }

    /// The message with the nonce, if one is staged.
    pub fn get_message(&self, appchain_message_nonce: &u32) -> (res: Option<&AppchainMessage>)
        ensures
            match res {
                Some(m) => self.messages().contains_key(*appchain_message_nonce) && *m == self.messages()[*appchain_message_nonce],
                None => !self.messages().contains_key(*appchain_message_nonce),
            },
    {
        self.message_map.get(appchain_message_nonce)
    }

    /// The staged messages with the nonces from `start_nonce` on, `quantity`
    /// nonces of them (50 where none is given).
    pub fn get_messages(&self, start_nonce: &u32, quantity: Option<u32>) -> (res: Vec<&AppchainMessage>)
        requires
            *start_nonce + read_count(quantity) <= u32::MAX,
        ensures
            res@.map_values(|m: &AppchainMessage| *m) == entries_between(
                self.messages(),
                *start_nonce as int,
                *start_nonce + read_count(quantity),
            ),
    {
        let count: u32 = match quantity {
            Some(q) => q,
            None => 50,
        };
        let end_nonce = *start_nonce + count;
        let mut results: Vec<&AppchainMessage> = Vec::new();
        let mut nonce = *start_nonce;
        while nonce < end_nonce
            invariant
                *start_nonce <= nonce <= end_nonce,
                results@.map_values(|m: &AppchainMessage| *m) == entries_between(
                    self.messages(),
                    *start_nonce as int,
                    nonce as int,
                ),
            decreases end_nonce - nonce,
        {
            if let Some(message) = self.message_map.get(&nonce) {
                results.push(message);
            }
            nonce = nonce + 1;
            assert(results@.map_values(|m: &AppchainMessage| *m) =~= entries_between(
                self.messages(),
                *start_nonce as int,
                nonce as int,
            ));
        }
        results
    }

    /// The result of processing the message with the nonce, if one is recorded.
    pub fn get_processing_result(&self, nonce: &u32) -> (res: Option<&AppchainMessageProcessingResult>)
        ensures
            match res {
                Some(r) => self.results().contains_key(*nonce) && *r == self.results()[*nonce],
                None => !self.results().contains_key(*nonce),
            },
    {
        self.processing_result_map.get(nonce)
    }

    /// The recorded results with the nonces from `start_nonce` on, `quantity`
    /// nonces of them (50 where none is given).
    pub fn get_processing_results(&self, start_nonce: &u32, quantity: Option<u32>) -> (res: Vec<&AppchainMessageProcessingResult>)
        requires
            *start_nonce + read_count(quantity) <= u32::MAX,
        ensures
            res@.map_values(|r: &AppchainMessageProcessingResult| *r) == entries_between(
                self.results(),
                *start_nonce as int,
                *start_nonce + read_count(quantity),
            ),
    {
        let count: u32 = match quantity {
            Some(q) => q,
            None => 50,
        };
        let end_nonce = *start_nonce + count;
        let mut results: Vec<&AppchainMessageProcessingResult> = Vec::new();
        let mut nonce = *start_nonce;
        while nonce < end_nonce
            invariant
                *start_nonce <= nonce <= end_nonce,
                results@.map_values(|r: &AppchainMessageProcessingResult| *r) == entries_between(
                    self.results(),
                    *start_nonce as int,
                    nonce as int,
                ),
            decreases end_nonce - nonce,
        {
            if let Some(result) = self.processing_result_map.get(&nonce) {
                results.push(result);
            }
            nonce = nonce + 1;
            assert(results@.map_values(|r: &AppchainMessageProcessingResult| *r) =~= entries_between(
                self.results(),
                *start_nonce as int,
                nonce as int,
            ));
        }
        results
    }

    /// Removes the messages and results with the nonces from the least kept
    /// nonce up to `nonce`, which becomes the least kept nonce.
    pub fn remove_messages_before(&mut self, nonce: &u32)
        ensures
            final(self).messages() == old(self).messages().restrict(
                old(self).messages().dom().filter(|n: u32| !(old(self).lowest() <= n < *nonce)),
            ),
            final(self).results() == old(self).results().restrict(
                old(self).results().dom().filter(|n: u32| !(old(self).lowest() <= n < *nonce)),
            ),
            final(self).lowest() == *nonce,
            final(self).highest() == old(self).highest(),
    {
        let ghost lo = self.min_nonce;
        let mut n = self.min_nonce;
        while n < *nonce
            invariant
                lo <= n,
                lo < *nonce ==> n <= *nonce,
                lo >= *nonce ==> n == lo,
                lo == old(self).lowest(),
                self.max_nonce == old(self).max_nonce,
                self.message_map@ == old(self).messages().restrict(
                    old(self).messages().dom().filter(|k: u32| !(lo <= k < n)),
                ),
                self.processing_result_map@ == old(self).results().restrict(
                    old(self).results().dom().filter(|k: u32| !(lo <= k < n)),
                ),
            decreases *nonce - n,
        {
            self.message_map.remove(&n);
            self.processing_result_map.remove(&n);
            n = n + 1;
            assert(self.message_map@ =~= old(self).messages().restrict(
                old(self).messages().dom().filter(|k: u32| !(lo <= k < n)),
            ));
            assert(self.processing_result_map@ =~= old(self).results().restrict(
                old(self).results().dom().filter(|k: u32| !(lo <= k < n)),
            ));
        }
        assert(self.message_map@ =~= old(self).messages().restrict(
            old(self).messages().dom().filter(|k: u32| !(lo <= k < *nonce)),
        ));
        assert(self.processing_result_map@ =~= old(self).results().restrict(
            old(self).results().dom().filter(|k: u32| !(lo <= k < *nonce)),
        ));
        self.min_nonce = *nonce;
    }

    /// Removes the messages and results from the least kept nonce on, at
    /// most `max_removals` nonces of them in one call. Where the greatest
    /// staged nonce is reached (or the least kept nonce is past it), the
    /// range of nonces starts over at 0 and the clearing is finished.
    pub fn clear(&mut self, max_removals: u32) -> (res: MultiTxsOperationProcessingResult)
        ensures
            ({
                let lo = old(self).lowest();
                let hi = old(self).highest();
                if lo > hi || max_removals > hi - lo {
                    &&& res == MultiTxsOperationProcessingResult::Finished
                    &&& final(self).messages() == old(self).messages().restrict(
                        old(self).messages().dom().filter(|n: u32| !(lo <= n <= hi)),
                    )
                    &&& final(self).results() == old(self).results().restrict(
                        old(self).results().dom().filter(|n: u32| !(lo <= n <= hi)),
                    )
                    &&& final(self).lowest() == 0
                    &&& final(self).highest() == 0
                } else {
                    &&& res == MultiTxsOperationProcessingResult::NeedMoreGas
                    &&& final(self).messages() == old(self).messages().restrict(
                        old(self).messages().dom().filter(|n: u32| !(lo <= n < lo + max_removals)),
                    )
                    &&& final(self).results() == old(self).results().restrict(
                        old(self).results().dom().filter(|n: u32| !(lo <= n < lo + max_removals)),
                    )
                    &&& final(self).lowest() == lo + max_removals
                    &&& final(self).highest() == hi
                }
            }),
    {
        let lo = self.min_nonce;
        let hi = self.max_nonce;
        if lo > hi {
            assert(self.message_map@ =~= old(self).messages().restrict(
                old(self).messages().dom().filter(|n: u32| !(lo <= n <= hi)),
            ));
            assert(self.processing_result_map@ =~= old(self).results().restrict(
                old(self).results().dom().filter(|n: u32| !(lo <= n <= hi)),
            ));
            self.min_nonce = 0;
            self.max_nonce = 0;
            return MultiTxsOperationProcessingResult::Finished;
        }
        if max_removals > hi - lo {
            self.remove_messages_before(&hi);
            self.message_map.remove(&hi);
            self.processing_result_map.remove(&hi);
            assert(self.message_map@ =~= old(self).messages().restrict(
                old(self).messages().dom().filter(|n: u32| !(lo <= n <= hi)),
            ));
            assert(self.processing_result_map@ =~= old(self).results().restrict(
                old(self).results().dom().filter(|n: u32| !(lo <= n <= hi)),
            ));
            self.min_nonce = 0;
            self.max_nonce = 0;
            MultiTxsOperationProcessingResult::Finished
        } else {
            let upto = lo + max_removals;
            self.remove_messages_before(&upto);
            MultiTxsOperationProcessingResult::NeedMoreGas
        }
    }
}

} // verus!
