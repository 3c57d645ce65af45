//! The histories that the anchor keeps: anchor events, appchain notifications,
//! token bridgings, results of processing appchain messages and the staking
//! histories of users.
use crate::fungible_tokens::{first_where, lemma_first_where};
use crate::lookup_array::{slice_of, IndexedAndClearable, LookupArray, IndexRange};
use crate::types::{
    AccountId, AnchorEvent, AnchorEventHistory, AppchainMessageProcessingResult, AppchainNotification,
    AppchainNotificationHistory, MultiTxsOperationProcessingResult, StakingFact, StakingHistory, TokenBridgingHistory,
};
use std::collections::HashMap;
use vstd::prelude::*;

verus! {

broadcast use vstd::std_specs::hash::group_hash_axioms;

impl IndexedAndClearable for AnchorEventHistory {
    open spec fn indexed(self, index: u64) -> Self {
        AnchorEventHistory { index, ..self }
    }

    fn set_index(&mut self, index: &u64) {
        self.index = *index;
    }

    fn clear_extra_storage(&mut self) {
    }
}

impl IndexedAndClearable for AppchainNotificationHistory {
    open spec fn indexed(self, index: u64) -> Self {
        AppchainNotificationHistory { index, ..self }
    }

    fn set_index(&mut self, index: &u64) {
        self.index = *index;
    }

    fn clear_extra_storage(&mut self) {
    }
}

impl IndexedAndClearable for StakingHistory {
    open spec fn indexed(self, index: u64) -> Self {
        StakingHistory { index, ..self }
    }

    fn set_index(&mut self, index: &u64) {
        self.index = *index;
    }

    fn clear_extra_storage(&mut self) {
    }
}

impl IndexedAndClearable for TokenBridgingHistory {
    open spec fn indexed(self, index: u64) -> Self {
        TokenBridgingHistory { index, ..self }
    }

    fn set_index(&mut self, index: &u64) {
        self.index = *index;
    }

    fn clear_extra_storage(&mut self) {
    }
}

impl IndexedAndClearable for AnchorEvent {
    open spec fn indexed(self, index: u64) -> Self {
        self
    }

    fn set_index(&mut self, index: &u64) {
    }

    fn clear_extra_storage(&mut self) {
    }
}

impl IndexedAndClearable for u32 {
    open spec fn indexed(self, index: u64) -> Self {
        self
    }

    fn set_index(&mut self, index: &u64) {
    }

    fn clear_extra_storage(&mut self) {
    }
}

/// The history of the events of the anchor.
pub struct AnchorEventHistories {
    histories: LookupArray<AnchorEventHistory>,
}

impl AnchorEventHistories {
    /// The histories, by index.
    pub closed spec fn records(&self) -> Map<u64, AnchorEventHistory> {
        self.histories.records()
    }

    /// The first valid index.
    pub closed spec fn start(&self) -> u64 {
        self.histories.start()
    }

    /// The last valid index.
    pub closed spec fn end(&self) -> u64 {
        self.histories.end()
    }

    /// No history.
    pub fn new() -> (res: Self)
        ensures
            res.records() == Map::<u64, AnchorEventHistory>::empty(),
            res.start() == 0,
            res.end() == 0,
    {
        AnchorEventHistories { histories: LookupArray::new() }
    }

    /// The history at `index`, if any.
    pub fn get(&self, index: &u64) -> (res: Option<&AnchorEventHistory>)
        ensures
            match res {
                Some(h) => self.records().contains_key(*index) && *h == self.records()[*index],
                None => !self.records().contains_key(*index),
            },
    {
        self.histories.get(index)
    }

    /// The range of valid indexes.
    pub fn index_range(&self) -> (res: IndexRange)
        ensures
            res.start_index == self.start(),
            res.end_index == self.end(),
    {
        self.histories.index_range()
    }

    /// Records `anchor_event` as happened at `block_height` and `timestamp`
    /// after the last history, and returns its index.
    pub fn append(&mut self, anchor_event: AnchorEvent, block_height: u64, timestamp: u64) -> (index: u64)
        requires
            old(self).records().contains_key(0) ==> old(self).end() < u64::MAX,
        ensures
            index == (if old(self).records().contains_key(0) { old(self).end() + 1 } else { 0 }),
            final(self).records() == old(self).records().insert(
                index,
                AnchorEventHistory { anchor_event, block_height, timestamp, index },
            ),
            final(self).start() == old(self).start(),
            final(self).end() == index,
    {
        self.histories.append(AnchorEventHistory { anchor_event, block_height, timestamp, index: 0 })
    }

    /// Removes the histories before `index`, which becomes the start index.
    pub fn remove_before(&mut self, index: &u64)
        ensures
            old(self).start() >= *index ==> final(self).records() == old(self).records()
                && final(self).start() == old(self).start() && final(self).end() == old(self).end(),
            old(self).start() < *index ==> {
                &&& final(self).records() == old(self).records().restrict(
                    old(self).records().dom().filter(|i: u64| !(old(self).start() <= i < *index)),
                )
                &&& final(self).start() == *index
                &&& final(self).end() == old(self).end()
            },
    {
        self.histories.remove_before(index);
    }

    /// Removes the valid histories; both indexes become 0.
    pub fn reset(&mut self)
        requires
            old(self).end() < u64::MAX,
        ensures
            final(self).records() == old(self).records().restrict(
                old(self).records().dom().filter(|i: u64| !(old(self).start() <= i <= old(self).end())),
            ),
            final(self).start() == 0,
            final(self).end() == 0,
    {
        self.histories.clear_range();
    }
}

/// The history of the notifications of the anchor for the appchain.
pub struct AppchainNotificationHistories {
    histories: LookupArray<AppchainNotificationHistory>,
}

impl AppchainNotificationHistories {
    /// The histories, by index.
    pub closed spec fn records(&self) -> Map<u64, AppchainNotificationHistory> {
        self.histories.records()
    }

    /// The first valid index.
    pub closed spec fn start(&self) -> u64 {
        self.histories.start()
    }

    /// The last valid index.
    pub closed spec fn end(&self) -> u64 {
        self.histories.end()
    }

    /// No history.
    pub fn new() -> (res: Self)
        ensures
            res.records() == Map::<u64, AppchainNotificationHistory>::empty(),
            res.start() == 0,
            res.end() == 0,
    {
        AppchainNotificationHistories { histories: LookupArray::new() }
    }

    /// The history at `index`, if any.
    pub fn get(&self, index: &u64) -> (res: Option<&AppchainNotificationHistory>)
        ensures
            match res {
                Some(h) => self.records().contains_key(*index) && *h == self.records()[*index],
                None => !self.records().contains_key(*index),
            },
    {
        self.histories.get(index)
    }

    /// The range of valid indexes.
    pub fn index_range(&self) -> (res: IndexRange)
        ensures
            res.start_index == self.start(),
            res.end_index == self.end(),
    {
        self.histories.index_range()
    }

    /// Records `appchain_notification` as happened at `block_height` and
    /// `timestamp` after the last history, and returns its index.
    pub fn append(&mut self, appchain_notification: AppchainNotification, block_height: u64, timestamp: u64) -> (index: u64)
        requires
            old(self).records().contains_key(0) ==> old(self).end() < u64::MAX,
        ensures
            index == (if old(self).records().contains_key(0) { old(self).end() + 1 } else { 0 }),
            final(self).records() == old(self).records().insert(
                index,
                AppchainNotificationHistory { appchain_notification, block_height, timestamp, index },
            ),
            final(self).start() == old(self).start(),
            final(self).end() == index,
    {
        self.histories.append(AppchainNotificationHistory { appchain_notification, block_height, timestamp, index: 0 })
    }

    /// Removes the histories before `index`, which becomes the start index.
    pub fn remove_before(&mut self, index: &u64)
        ensures
            old(self).start() >= *index ==> final(self).records() == old(self).records()
                && final(self).start() == old(self).start() && final(self).end() == old(self).end(),
            old(self).start() < *index ==> {
                &&& final(self).records() == old(self).records().restrict(
                    old(self).records().dom().filter(|i: u64| !(old(self).start() <= i < *index)),
                )
                &&& final(self).start() == *index
                &&& final(self).end() == old(self).end()
            },
    {
        self.histories.remove_before(index);
    }

    /// Removes the histories after `index`, which becomes the end index.
    pub fn reset_to(&mut self, index: &u64)
        requires
            old(self).start() <= *index <= old(self).end(),
            old(self).end() < u64::MAX,
        ensures
            final(self).records() == old(self).records().restrict(
                old(self).records().dom().filter(|i: u64| !(*index < i <= old(self).end())),
            ),
            final(self).start() == old(self).start(),
            final(self).end() == *index,
    {
        self.histories.reset_to(index);
    }

    /// Removes the valid histories; both indexes become 0.
    pub fn clear(&mut self)
        requires
            old(self).end() < u64::MAX,
        ensures
            final(self).records() == old(self).records().restrict(
                old(self).records().dom().filter(|i: u64| !(old(self).start() <= i <= old(self).end())),
            ),
            final(self).start() == 0,
            final(self).end() == 0,
    {
        self.histories.clear_range();
    }
}

/// The history of the token bridgings.
pub struct TokenBridgingHistories {
    histories: LookupArray<TokenBridgingHistory>,
}

impl TokenBridgingHistories {
    /// The histories, by index.
    pub closed spec fn records(&self) -> Map<u64, TokenBridgingHistory> {
        self.histories.records()
    }

    /// The first valid index.
    pub closed spec fn start(&self) -> u64 {
        self.histories.start()
    }

    /// The last valid index.
    pub closed spec fn end(&self) -> u64 {
        self.histories.end()
    }

    /// No history.
    pub fn new() -> (res: Self)
        ensures
            res.records() == Map::<u64, TokenBridgingHistory>::empty(),
            res.start() == 0,
            res.end() == 0,
    {
        TokenBridgingHistories { histories: LookupArray::new() }
    }

    /// The history at `index`, if any.
    pub fn get(&self, index: &u64) -> (res: Option<&TokenBridgingHistory>)
        ensures
            match res {
                Some(h) => self.records().contains_key(*index) && *h == self.records()[*index],
                None => !self.records().contains_key(*index),
            },
    {
        self.histories.get(index)
    }

    /// The range of valid indexes.
    pub fn index_range(&self) -> (res: IndexRange)
        ensures
            res.start_index == self.start(),
            res.end_index == self.end(),
    {
        self.histories.index_range()
    }
}

/// The events of the anchor.
pub struct AnchorEvents {
    events: LookupArray<AnchorEvent>,
}

impl AnchorEvents {
    /// The events, by index.
    pub closed spec fn records(&self) -> Map<u64, AnchorEvent> {
        self.events.records()
    }

    /// The first valid index.
    pub closed spec fn start(&self) -> u64 {
        self.events.start()
    }

    /// The last valid index.
    pub closed spec fn end(&self) -> u64 {
        self.events.end()
    }

    /// No event.
    pub fn new() -> (res: Self)
        ensures
            res.records() == Map::<u64, AnchorEvent>::empty(),
            res.start() == 0,
            res.end() == 0,
    {
        AnchorEvents { events: LookupArray::new() }
    }

    /// The event at `index`, if any.
    pub fn get(&self, index: &u64) -> (res: Option<&AnchorEvent>)
        ensures
            match res {
                Some(e) => self.records().contains_key(*index) && *e == self.records()[*index],
                None => !self.records().contains_key(*index),
            },
    {
        self.events.get(index)
    }

    /// The range of valid indexes.
    pub fn index_range(&self) -> (res: IndexRange)
        ensures
            res.start_index == self.start(),
            res.end_index == self.end(),
    {
        self.events.index_range()
    }

    /// Records `anchor_event` after the last event.
    pub fn append(&mut self, anchor_event: AnchorEvent)
        requires
            old(self).records().contains_key(0) ==> old(self).end() < u64::MAX,
        ensures
            ({
                let index = if old(self).records().contains_key(0) { (old(self).end() + 1) as u64 } else { 0u64 };
                &&& final(self).records() == old(self).records().insert(index, anchor_event)
                &&& final(self).start() == old(self).start()
                &&& final(self).end() == index
            }),
    {
        self.events.append(anchor_event);
    }
}

/// The results of `results` for the nonces `nonces`, in order, leaving out
/// the nonces with no result.
pub open spec fn results_of(nonces: Seq<u32>, results: Map<u32, AppchainMessageProcessingResult>) -> Seq<
    AppchainMessageProcessingResult,
>
    decreases nonces.len(),
{
    if nonces.len() == 0 {
        Seq::empty()
    } else {
        let prefix = results_of(nonces.drop_last(), results);
        if results.contains_key(nonces.last()) {
            prefix.push(results[nonces.last()])
        } else {
            prefix
        }
    }
}

/// The results of processing appchain messages, with the nonces of the
/// messages in the order in which their first result was recorded.
pub struct AppchainMessageProcessingResults {
    message_nonce_histories: LookupArray<u32>,
    processing_result_map: HashMap<u32, AppchainMessageProcessingResult>,
}

impl AppchainMessageProcessingResults {
    /// The nonces, by index.
    pub closed spec fn nonces(&self) -> Map<u64, u32> {
        self.message_nonce_histories.records()
    }

    /// The first valid index of the nonces.
    pub closed spec fn start(&self) -> u64 {
        self.message_nonce_histories.start()
    }

    /// The last valid index of the nonces.
    pub closed spec fn end(&self) -> u64 {
        self.message_nonce_histories.end()
    }

    /// The results, by nonce.
    pub closed spec fn results(&self) -> Map<u32, AppchainMessageProcessingResult> {
        self.processing_result_map@
    }

    /// No result.
    pub fn new() -> (res: Self)
        ensures
            res.nonces() == Map::<u64, u32>::empty(),
            res.results() == Map::<u32, AppchainMessageProcessingResult>::empty(),
            res.start() == 0,
            res.end() == 0,
    {
        AppchainMessageProcessingResults {
            message_nonce_histories: LookupArray::new(),
            processing_result_map: HashMap::new(),
        }
    }

    /// The range of valid indexes of the nonces.
    pub fn index_range(&self) -> (res: IndexRange)
        ensures
            res.start_index == self.start(),
            res.end_index == self.end(),
    {
        self.message_nonce_histories.index_range()
    }

    /// Records `processing_result` for the message `appchain_message_nonce`;
    /// the nonce is appended to the nonces where no result was recorded for it.
    pub fn insert_processing_result(&mut self, appchain_message_nonce: u32, processing_result: AppchainMessageProcessingResult)
        requires
            old(self).nonces().contains_key(0) ==> old(self).end() < u64::MAX,
        ensures
            final(self).results() == old(self).results().insert(appchain_message_nonce, processing_result),
            final(self).start() == old(self).start(),
            old(self).results().contains_key(appchain_message_nonce) ==> final(self).nonces() == old(self).nonces()
                && final(self).end() == old(self).end(),
            !old(self).results().contains_key(appchain_message_nonce) ==> {
                let index = if old(self).nonces().contains_key(0) { (old(self).end() + 1) as u64 } else { 0u64 };
                &&& final(self).nonces() == old(self).nonces().insert(index, appchain_message_nonce)
                &&& final(self).end() == index
            },
    {
        if !self.processing_result_map.contains_key(&appchain_message_nonce) {
            self.message_nonce_histories.append(appchain_message_nonce);
        }
        self.processing_result_map.insert(appchain_message_nonce, processing_result);
    }

    /// The results recorded for the messages whose nonces stand at the
    /// indexes that `get_slice_of` reads from `start_index` for `quantity`,
    /// in the order of the indexes.
    pub fn get_processing_results(&self, start_index: &u64, quantity: Option<u64>) -> (res: Vec<
        &AppchainMessageProcessingResult,
    >)
        requires
            quantity != Some(0u64),
        ensures
            res@.len() == results_of(
                slice_of(self.nonces(), self.start(), self.end(), *start_index, quantity),
                self.results(),
            ).len(),
            forall|k: int|
                0 <= k < res@.len() ==> *res@[k] == results_of(
                    slice_of(self.nonces(), self.start(), self.end(), *start_index, quantity),
                    self.results(),
                )[k],
    {
        let nonces = self.message_nonce_histories.get_slice_of(start_index, quantity);
        let ghost ns = slice_of(self.nonces(), self.start(), self.end(), *start_index, quantity);
        let mut results: Vec<&AppchainMessageProcessingResult> = Vec::new();
        let mut i: usize = 0;
        while i < nonces.len()
            invariant
                i <= nonces@.len(),
                nonces@.len() == ns.len(),
                forall|k: int| 0 <= k < nonces@.len() ==> *nonces@[k] == ns[k],
                results@.len() == results_of(ns.take(i as int), self.results()).len(),
                forall|k: int| 0 <= k < results@.len() ==> *results@[k] == results_of(ns.take(i as int), self.results())[k],
            decreases nonces@.len() - i,
        {
            assert(ns.take(i + 1).drop_last() =~= ns.take(i as int));
            let nonce = *nonces[i];
            if let Some(r) = self.processing_result_map.get(&nonce) {
                results.push(r);
            }
            i = i + 1;
        }
        assert(ns.take(i as int) =~= ns);
        results
    }

    /// The result recorded for the message `appchain_message_nonce`, if any.
    pub fn get_processing_result(&self, appchain_message_nonce: u32) -> (res: Option<&AppchainMessageProcessingResult>)
        ensures
            match res {
                Some(r) => self.results().contains_key(appchain_message_nonce) && *r == self.results()[appchain_message_nonce],
                None => !self.results().contains_key(appchain_message_nonce),
            },
    {
        self.processing_result_map.get(&appchain_message_nonce)
    }

    /// Removes the results of the messages whose nonces stand at the indexes
    /// from the first valid one on, at most `max_removals` of them, and those
    /// nonces. Where the last index is reached, every nonce is removed, both
    /// indexes become 0 and the result is `Finished`; the result for the
    /// nonce at the last index stays.
    pub fn clear(&mut self, max_removals: u64) -> (res: MultiTxsOperationProcessingResult)
        requires
            old(self).end() < u64::MAX,
        ensures
            ({
                let first = old(self).start() as int;
                let last = old(self).end() as int;
                let stop = if first >= last {
                    first
                } else if first + max_removals > last {
                    last
                } else {
                    first + max_removals
                };
                &&& final(self).results() == old(self).results().restrict(
                    old(self).results().dom().filter(|n: u32| !nonces_in(old(self).nonces(), first, stop).contains(n)),
                )
                &&& if stop >= last {
                    &&& res == MultiTxsOperationProcessingResult::Finished
                    &&& final(self).nonces() == old(self).nonces().restrict(
                        old(self).nonces().dom().filter(|i: u64| !(first <= i <= last)),
                    )
                    &&& final(self).start() == 0
                    &&& final(self).end() == 0
                } else {
                    &&& res == MultiTxsOperationProcessingResult::NeedMoreGas
                    &&& final(self).nonces() == old(self).nonces().restrict(
                        old(self).nonces().dom().filter(|i: u64| !(first <= i < stop)),
                    )
                    &&& final(self).start() == stop
                    &&& final(self).end() == last
                }
            }),
    {
        let ghost nonces = self.nonces();
        let ghost results = self.results();
        let range = self.message_nonce_histories.index_range();
        let first = range.start_index;
        let last = range.end_index;
        let mut index: u64 = first;
        let mut removed: u64 = 0;
        assert(results.restrict(results.dom().filter(|n: u32| !nonces_in(nonces, first as int, first as int).contains(n)))
            =~= results);
        while index < last && removed < max_removals
            invariant
                first <= index,
                index <= last || index == first,
                removed == index - first,
                removed <= max_removals,
                self.nonces() == nonces,
                self.start() == first,
                self.end() == last,
                self.processing_result_map@ == results.restrict(
                    results.dom().filter(|n: u32| !nonces_in(nonces, first as int, index as int).contains(n)),
                ),
            decreases last - index,
        {
            let ghost before = self.processing_result_map@;
            let at = self.message_nonce_histories.get(&index);
            let ghost present = nonces.contains_key(index);
            proof {
                lemma_nonces_in_step(nonces, first as int, index);
            }
            if let Some(n) = at {
                let nonce = *n;
                self.processing_result_map.remove(&nonce);
                assert(self.processing_result_map@ =~= results.restrict(
                    results.dom().filter(|k: u32| !nonces_in(nonces, first as int, index + 1).contains(k)),
                ));
            } else {
                assert(self.processing_result_map@ =~= results.restrict(
                    results.dom().filter(|k: u32| !nonces_in(nonces, first as int, index + 1).contains(k)),
                ));
            }
            index = index + 1;
            removed = removed + 1;
        }
        self.message_nonce_histories.remove_before(&index);
        if index < last {
            MultiTxsOperationProcessingResult::NeedMoreGas
        } else {
            let ghost mid = self.nonces();
            self.message_nonce_histories.clear_range();
            proof {
                if first < index {
                    assert(self.nonces() =~= nonces.restrict(nonces.dom().filter(|i: u64| !(first <= i <= last))));
                } else {
                    assert(self.nonces() =~= nonces.restrict(nonces.dom().filter(|i: u64| !(first <= i <= last))));
                }
            }
            MultiTxsOperationProcessingResult::Finished
        }
    }
}

/// The nonces that `nonces` holds at the indexes from `first` to before `stop`.
pub open spec fn nonces_in(nonces: Map<u64, u32>, first: int, stop: int) -> Set<u32> {
    Set::new(|n: u32| exists|i: u64| first <= i < stop && #[trigger] nonces.contains_key(i) && nonces[i] == n)
}

proof fn lemma_nonces_in_step(nonces: Map<u64, u32>, first: int, index: u64)
    requires
        first <= index,
    ensures
        forall|n: u32|
            #[trigger] nonces_in(nonces, first, index + 1).contains(n) <==> (nonces_in(nonces, first, index as int).contains(n) || (
            nonces.contains_key(index) && nonces[index] == n)),
{
    assert forall|n: u32|
        #[trigger] nonces_in(nonces, first, index + 1).contains(n) <==> (nonces_in(nonces, first, index as int).contains(n) || (
        nonces.contains_key(index) && nonces[index] == n)) by {
        if nonces_in(nonces, first, index + 1).contains(n) {
            let i = choose|i: u64| first <= i < index + 1 && #[trigger] nonces.contains_key(i) && nonces[i] == n;
            if i < index {
                assert(nonces_in(nonces, first, index as int).contains(n));
            }
        }
        if nonces_in(nonces, first, index as int).contains(n) {
            let i = choose|i: u64| first <= i < index && #[trigger] nonces.contains_key(i) && nonces[i] == n;
            assert(first <= i < index + 1 && nonces.contains_key(i) && nonces[i] == n);
        }
        if nonces.contains_key(index) && nonces[index] == n {
            assert(first <= index < index + 1 && nonces.contains_key(index) && nonces[index] == n);
        }
    }
}

/// The account that acts in `fact`: the delegator in a fact of a delegator,
/// and the validator in any other.
pub open spec fn acting_account(fact: StakingFact) -> AccountId {
    match fact {
        StakingFact::ValidatorRegistered { validator_id, .. } => validator_id,
        StakingFact::StakeIncreased { validator_id, .. } => validator_id,
        StakingFact::StakeDecreased { validator_id, .. } => validator_id,
        StakingFact::ValidatorUnbonded { validator_id, .. } => validator_id,
        StakingFact::ValidatorDelegationEnabled { validator_id } => validator_id,
        StakingFact::ValidatorDelegationDisabled { validator_id } => validator_id,
        StakingFact::DelegatorRegistered { delegator_id, .. } => delegator_id,
        StakingFact::DelegationIncreased { delegator_id, .. } => delegator_id,
        StakingFact::DelegationDecreased { delegator_id, .. } => delegator_id,
        StakingFact::DelegatorUnbonded { delegator_id, .. } => delegator_id,
        StakingFact::ValidatorAutoUnbonded { validator_id, .. } => validator_id,
        StakingFact::DelegatorAutoUnbonded { delegator_id, .. } => delegator_id,
        StakingFact::ValidatorIdInAppchainChanged { validator_id, .. } => validator_id,
    }
}

/// Whether an entry of the staking histories of users is of `account`.
pub open spec fn of_account(account: Seq<char>) -> spec_fn((Seq<char>, Seq<u64>)) -> bool {
    |e: (Seq<char>, Seq<u64>)| e.0 == account
}

/// The staking histories of users `s` with `index` added to those of
/// `account`, which get an entry of their own where they have none.
pub open spec fn with_history_index(s: Seq<(Seq<char>, Seq<u64>)>, account: Seq<char>, index: u64) -> Seq<
    (Seq<char>, Seq<u64>),
> {
    let p = first_where(s, of_account(account));
    if p >= 0 {
        s.update(p, (account, s[p].1.push(index)))
    } else {
        s.push((account, seq![index]))
    }
}

/// The indexes of the staking histories of each user.
pub struct UserStakingHistories {
    staking_histories_map: Vec<(AccountId, Vec<u64>)>,
}

impl UserStakingHistories {
    /// The accounts with their indexes of staking histories.
    pub closed spec fn entries(&self) -> Seq<(AccountId, Vec<u64>)> {
        self.staking_histories_map@
    }

    /// No history.
    pub fn new() -> (res: Self)
        ensures
            res.entries().len() == 0,
    {
        UserStakingHistories { staking_histories_map: Vec::new() }
    }

    /// The accounts with their indexes of staking histories, as views.
    pub open spec fn histories_view(&self) -> Seq<(Seq<char>, Seq<u64>)> {
        self.entries().map_values(|e: (AccountId, Vec<u64>)| (e.0@, e.1@))
    }

    /// Adds the index of `staking_history` to the histories of the account
    /// that acts in it.
    pub fn add_staking_history(&mut self, staking_history: &StakingHistory)
        ensures
            final(self).histories_view() == with_history_index(
                old(self).histories_view(),
                acting_account(staking_history.staking_fact)@,
                staking_history.index,
            ),
    {
        let account = match &staking_history.staking_fact {
            StakingFact::ValidatorRegistered { validator_id, .. } => validator_id,
            StakingFact::StakeIncreased { validator_id, .. } => validator_id,
            StakingFact::StakeDecreased { validator_id, .. } => validator_id,
            StakingFact::ValidatorUnbonded { validator_id, .. } => validator_id,
            StakingFact::ValidatorDelegationEnabled { validator_id } => validator_id,
            StakingFact::ValidatorDelegationDisabled { validator_id } => validator_id,
            StakingFact::DelegatorRegistered { delegator_id, .. } => delegator_id,
            StakingFact::DelegationIncreased { delegator_id, .. } => delegator_id,
            StakingFact::DelegationDecreased { delegator_id, .. } => delegator_id,
            StakingFact::DelegatorUnbonded { delegator_id, .. } => delegator_id,
            StakingFact::ValidatorAutoUnbonded { validator_id, .. } => validator_id,
            StakingFact::DelegatorAutoUnbonded { delegator_id, .. } => delegator_id,
            StakingFact::ValidatorIdInAppchainChanged { validator_id, .. } => validator_id,
        };
        self.add_index(account, staking_history.index);
    }

    fn add_index(&mut self, account_id: &AccountId, index: u64)
        ensures
            final(self).histories_view() == with_history_index(old(self).histories_view(), account_id@, index),
    {
        let ghost before = self.histories_view();
        proof {
            lemma_first_where(before, of_account(account_id@));
        }
        let mut i: usize = 0;
        while i < self.staking_histories_map.len() && self.staking_histories_map[i].0 != *account_id
            invariant
                i <= self.staking_histories_map@.len(),
                before == self.histories_view(),
                forall|j: int| 0 <= j < i ==> !of_account(account_id@)(#[trigger] before[j]),
            decreases self.staking_histories_map@.len() - i,
        {
            assert(!of_account(account_id@)(before[i as int]));
            i = i + 1;
        }
        if i < self.staking_histories_map.len() {
            assert(of_account(account_id@)(before[i as int]));
            let (a, mut v) = self.staking_histories_map.remove(i);
            v.push(index);
            self.staking_histories_map.insert(i, (a, v));
            assert(self.histories_view() =~= before.update(i as int, (account_id@, before[i as int].1.push(index))));
        } else {
            let mut v: Vec<u64> = Vec::new();
            v.push(index);
            self.staking_histories_map.push((account_id.clone(), v));
            assert(self.histories_view() =~= before.push((account_id@, seq![index])));
        }
    }

    /// Removes the staking histories of all users.
    pub fn clear(&mut self)
        ensures
            final(self).entries().len() == 0,
    {
        self.staking_histories_map = Vec::new();
    }

    /// The number of accounts with staking histories.
    pub fn len(&self) -> (res: u64)
        ensures
            res == self.entries().len(),
    {
        self.staking_histories_map.len() as u64
    }

    /// The indexes of the staking histories of `account_id`; none where it has none.
    pub fn get_staking_history_indexes_of(&self, account_id: &AccountId) -> (res: Vec<u64>)
        ensures
            (exists|i: int| 0 <= i < self.entries().len() && (#[trigger] self.entries()[i]).0@ == account_id@
                && (forall|k: int| 0 <= k < i ==> (#[trigger] self.entries()[k]).0@ != account_id@)
                && res@ == self.entries()[i].1@)
            || ((forall|i: int| 0 <= i < self.entries().len() ==> (#[trigger] self.entries()[i]).0@ != account_id@)
                && res@.len() == 0),
    {
        let mut i: usize = 0;
        while i < self.staking_histories_map.len()
            invariant
                i <= self.staking_histories_map@.len(),
                forall|k: int| 0 <= k < i ==> (#[trigger] self.staking_histories_map@[k]).0@ != account_id@,
            decreases self.staking_histories_map@.len() - i,
        {
            if self.staking_histories_map[i].0 == *account_id {
                let mut res: Vec<u64> = Vec::new();
                let src = &self.staking_histories_map[i].1;
                let mut k: usize = 0;
                while k < src.len()
                    invariant
                        i < self.staking_histories_map@.len(),
                        self.staking_histories_map@[i as int].0@ == account_id@,
                        forall|q: int| 0 <= q < i ==> (#[trigger] self.staking_histories_map@[q]).0@ != account_id@,
                        *src == self.staking_histories_map@[i as int].1,
                        k <= src@.len(),
                        res@ == src@.take(k as int),
                    decreases src@.len() - k,
                {
                    res.push(src[k]);
                    k = k + 1;
                    assert(res@ =~= src@.take(k as int));
                }
                assert(src@.take(src@.len() as int) =~= src@);
                assert(self.entries()[i as int].0@ == account_id@);
                return res;
            }
            i = i + 1;
        }
        Vec::new()
    }
}

} // verus!
