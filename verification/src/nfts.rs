//! The classes of non-fungible tokens of the appchain that are wrapped in
//! NEAR protocol, each with the contract of its wrapped tokens and the ids of
//! the tokens that are locked in the anchor.
use crate::fungible_tokens::{first_where, lemma_first_where};
use crate::types::{AccountId, BridgingState};
use vstd::prelude::*;

verus! {

/// The metadata of the contract of a class of wrapped non-fungible tokens.
#[derive(Clone, Debug, PartialEq, Eq)]
pub struct NftContractMetadata {
    pub spec: String,
    pub name: String,
    pub symbol: String,
    pub icon: Option<String>,
    pub base_uri: Option<String>,
    pub reference: Option<String>,
    pub reference_hash: Option<Vec<u8>>,
}

/// Whether `a` and `b` hold the same metadata.
pub open spec fn same_metadata(a: NftContractMetadata, b: NftContractMetadata) -> bool {
    &&& a.spec == b.spec
    &&& a.name == b.name
    &&& a.symbol == b.symbol
    &&& a.icon == b.icon
    &&& a.base_uri == b.base_uri
    &&& a.reference == b.reference
    &&& match (a.reference_hash, b.reference_hash) {
        (Some(x), Some(y)) => x@ == y@,
        (None, None) => true,
        _ => false,
    }
}

impl NftContractMetadata {
    /// A copy of the metadata.
    pub fn duplicate(&self) -> (res: NftContractMetadata)
        ensures
            same_metadata(res, *self),
    {
        NftContractMetadata {
            spec: self.spec.clone(),
            name: self.name.clone(),
            symbol: self.symbol.clone(),
            icon: match &self.icon {
                Some(s) => Some(s.clone()),
                None => None,
            },
            base_uri: match &self.base_uri {
                Some(s) => Some(s.clone()),
                None => None,
            },
            reference: match &self.reference {
                Some(s) => Some(s.clone()),
                None => None,
            },
            reference_hash: match &self.reference_hash {
                Some(h) => Some(copy_bytes(h)),
                None => None,
            },
        }
    }
}

fn copy_bytes(bytes: &Vec<u8>) -> (res: Vec<u8>)
    ensures
        res@ == bytes@,
{
    let mut res: Vec<u8> = Vec::new();
    let mut i: usize = 0;
    while i < bytes.len()
        invariant
            i <= bytes@.len(),
            res@ == bytes@.take(i as int),
        decreases bytes@.len() - i,
    {
        res.push(bytes[i]);
        i = i + 1;
        assert(res@ =~= bytes@.take(i as int));
    }
    assert(bytes@.take(i as int) =~= bytes@);
    res
}

/// Whether `id` is listed in `ids`.
pub open spec fn lists_token(ids: Seq<String>, id: Seq<char>) -> bool {
    exists|i: int| 0 <= i < ids.len() && (#[trigger] ids[i])@ == id
}

/// A class of wrapped non-fungible tokens.
pub struct InternalWrappedAppchainNFT {
    pub metadata: NftContractMetadata,
    pub contract_account: AccountId,
    pub bridging_state: BridgingState,
    /// The ids of the tokens locked in the anchor, each once.
    pub locked_token_id_set: Vec<String>,
}

impl InternalWrappedAppchainNFT {
    /// The ids of the tokens locked in the anchor.
    pub open spec fn locked(&self) -> Set<Seq<char>> {
        Set::new(|id: Seq<char>| lists_token(self.locked_token_id_set@, id))
    }

    /// The number of tokens locked in the anchor.
    pub open spec fn locked_count(&self) -> nat {
        self.locked_token_id_set@.len()
    }

    /// Whether no token id is listed twice.
    pub open spec fn wf(&self) -> bool {
        forall|i: int, j: int|
            0 <= i < self.locked_token_id_set@.len() && 0 <= j < self.locked_token_id_set@.len() && i != j
                ==> (#[trigger] self.locked_token_id_set@[i])@ != (#[trigger] self.locked_token_id_set@[j])@
    }

    /// The class `class_id`, described by `metadata`, whose wrapped tokens
    /// the contract `{class_id}.{current_account_id}` holds; its bridging is
    /// closed and no token is locked.
    pub fn new(class_id: String, metadata: NftContractMetadata, current_account_id: &AccountId) -> (res: Self)
        ensures
            res.wf(),
            res.metadata == metadata,
            res.contract_account@ == class_id@ + "."@ + current_account_id@,
            res.bridging_state == BridgingState::Closed,
            res.locked() == Set::<Seq<char>>::empty(),
            res.locked_count() == 0,
    {
        let mut contract_account = class_id;
        contract_account.append(".");
        contract_account.append(current_account_id.as_str());
        let res = InternalWrappedAppchainNFT {
            metadata,
            contract_account,
            bridging_state: BridgingState::Closed,
            locked_token_id_set: Vec::new(),
        };
        assert(res.locked() =~= Set::<Seq<char>>::empty());
        res
    }

    fn position_of(&self, token_id: &String) -> (res: usize)
        ensures
            res <= self.locked_token_id_set@.len(),
            res < self.locked_token_id_set@.len() ==> self.locked_token_id_set@[res as int]@ == token_id@,
            res == self.locked_token_id_set@.len() ==> !lists_token(self.locked_token_id_set@, token_id@),
    {
        let mut i: usize = 0;
        while i < self.locked_token_id_set.len()
            invariant
                i <= self.locked_token_id_set@.len(),
                forall|k: int| 0 <= k < i ==> (#[trigger] self.locked_token_id_set@[k])@ != token_id@,
            decreases self.locked_token_id_set@.len() - i,
        {
            if self.locked_token_id_set[i] == *token_id {
                return i;
            }
            i = i + 1;
        }
        i
    }

    /// Whether the token `token_id` is locked in the anchor.
    pub fn is_nft_locked(&self, token_id: &String) -> (res: bool)
        ensures
            res == self.locked().contains(token_id@),
    {
        self.position_of(token_id) < self.locked_token_id_set.len()
    }

    /// Records the token `token_id` as locked in the anchor.
    pub fn add_locked_nft(&mut self, token_id: &String)
        requires
            old(self).wf(),
        ensures
            final(self).wf(),
            final(self).locked() == old(self).locked().insert(token_id@),
            final(self).locked_count() == if old(self).locked().contains(token_id@) {
                old(self).locked_count()
            } else {
                old(self).locked_count() + 1
            },
            final(self).metadata == old(self).metadata,
            final(self).contract_account == old(self).contract_account,
            final(self).bridging_state == old(self).bridging_state,
    {
        if self.position_of(token_id) == self.locked_token_id_set.len() {
            let ghost before = self.locked_token_id_set@;
            self.locked_token_id_set.push(token_id.clone());
            assert forall|id: Seq<char>| #[trigger] lists_token(self.locked_token_id_set@, id) == (lists_token(before, id) || id == token_id@) by {
                if lists_token(self.locked_token_id_set@, id) {
                    let k = choose|k: int| 0 <= k < self.locked_token_id_set@.len() && (#[trigger] self.locked_token_id_set@[k])@ == id;
                    if k < before.len() {
                        assert(before[k] == self.locked_token_id_set@[k]);
                    }
                }
                if lists_token(before, id) {
                    let k = choose|k: int| 0 <= k < before.len() && (#[trigger] before[k])@ == id;
                    assert(self.locked_token_id_set@[k] == before[k]);
                }
                if id == token_id@ {
                    assert(self.locked_token_id_set@[before.len() as int]@ == id);
                }
            }
            assert(self.locked() =~= old(self).locked().insert(token_id@));
            assert forall|i: int, j: int|
                0 <= i < self.locked_token_id_set@.len() && 0 <= j < self.locked_token_id_set@.len() && i != j implies (
                #[trigger] self.locked_token_id_set@[i])@ != (#[trigger] self.locked_token_id_set@[j])@ by {
                if i < before.len() && j < before.len() {
                    assert(self.locked_token_id_set@[i] == before[i] && self.locked_token_id_set@[j] == before[j]);
                } else if i < before.len() {
                    assert(self.locked_token_id_set@[i] == before[i]);
                } else if j < before.len() {
                    assert(self.locked_token_id_set@[j] == before[j]);
                }
            }
        } else {
            assert(old(self).locked().contains(token_id@));
            assert(self.locked() =~= old(self).locked().insert(token_id@));
        }
    }

    /// Records the token `token_id` as no longer locked in the anchor.
    pub fn remove_locked_nft(&mut self, token_id: &String)
        requires
            old(self).wf(),
        ensures
            final(self).wf(),
            final(self).locked() == old(self).locked().remove(token_id@),
            final(self).locked_count() == if old(self).locked().contains(token_id@) {
                old(self).locked_count() - 1
            } else {
                old(self).locked_count() as int
            },
            final(self).metadata == old(self).metadata,
            final(self).contract_account == old(self).contract_account,
            final(self).bridging_state == old(self).bridging_state,
    {
        let p = self.position_of(token_id);
        if p < self.locked_token_id_set.len() {
            let ghost before = self.locked_token_id_set@;
            let ghost n = before.len();
            self.locked_token_id_set.swap_remove(p);
            let ghost after = self.locked_token_id_set@;
            assert(after =~= before.update(p as int, before[n - 1]).drop_last());
            assert forall|id: Seq<char>| #[trigger] lists_token(after, id) == (lists_token(before, id) && id != token_id@) by {
                if lists_token(after, id) {
                    let k = choose|k: int| 0 <= k < after.len() && (#[trigger] after[k])@ == id;
                    if k == p {
                        assert(after[k] == before[n - 1]);
                        assert(n - 1 != p);
                    } else {
                        assert(after[k] == before[k]);
                    }
                }
                if lists_token(before, id) && id != token_id@ {
                    let k = choose|k: int| 0 <= k < before.len() && (#[trigger] before[k])@ == id;
                    if k == n - 1 {
                        assert(after[p as int] == before[k]);
                    } else {
                        assert(k != p);
                        assert(after[k] == before[k]);
                    }
                }
            }
            assert(self.locked() =~= old(self).locked().remove(token_id@));
            assert forall|i: int, j: int| 0 <= i < after.len() && 0 <= j < after.len() && i != j implies (
            #[trigger] after[i])@ != (#[trigger] after[j])@ by {
                let bi = if i == p { n - 1 } else { i };
                let bj = if j == p { n - 1 } else { j };
                assert(after[i] == before[bi] && after[j] == before[bj]);
            }
            assert(old(self).locked().contains(token_id@));
        } else {
            assert(!old(self).locked().contains(token_id@));
            assert(self.locked() =~= old(self).locked().remove(token_id@));
        }
    }

    /// The number of tokens locked in the anchor.
    pub fn count_of_locked_tokens(&self) -> (res: u64)
        requires
            self.locked_count() <= u64::MAX,
        ensures
            res == self.locked_count(),
    {
        self.locked_token_id_set.len() as u64
    }
}

/// A class of wrapped non-fungible tokens as the anchor shows it.
pub struct WrappedAppchainNFT {
    pub class_id: String,
    pub metadata: NftContractMetadata,
    pub contract_account: AccountId,
    pub bridging_state: BridgingState,
    pub count_of_locked_tokens: u64,
}

/// Whether an entry is of the class `class_id`.
pub open spec fn has_class(class_id: Seq<char>) -> spec_fn((String, InternalWrappedAppchainNFT)) -> bool {
    |e: (String, InternalWrappedAppchainNFT)| e.0@ == class_id
}

/// Whether an entry's class has the contract `account`.
pub open spec fn has_nft_contract(account: Seq<char>) -> spec_fn((String, InternalWrappedAppchainNFT)) -> bool {
    |e: (String, InternalWrappedAppchainNFT)| e.1.contract_account@ == account
}

/// The classes of wrapped non-fungible tokens, by class id.
pub struct WrappedAppchainNFTs {
    nfts: Vec<(String, InternalWrappedAppchainNFT)>,
}

impl WrappedAppchainNFTs {
    /// The classes with their ids, in the order in which they were first inserted.
    pub closed spec fn entries(&self) -> Seq<(String, InternalWrappedAppchainNFT)> {
        self.nfts@
    }

    /// No class.
    pub fn new() -> (res: Self)
        ensures
            res.entries() == Seq::<(String, InternalWrappedAppchainNFT)>::empty(),
    {
        WrappedAppchainNFTs { nfts: Vec::new() }
    }

    fn find_class(&self, class_id: &String) -> (res: usize)
        ensures
            -1 <= first_where(self.entries(), has_class(class_id@)) < self.entries().len(),
            res == if first_where(self.entries(), has_class(class_id@)) >= 0 {
                first_where(self.entries(), has_class(class_id@))
            } else {
                self.entries().len() as int
            },
    {
        proof {
            lemma_first_where(self.nfts@, has_class(class_id@));
        }
        let mut i: usize = 0;
        while i < self.nfts.len() && self.nfts[i].0 != *class_id
            invariant
                i <= self.nfts@.len(),
                forall|j: int| 0 <= j < i ==> !has_class(class_id@)(#[trigger] self.nfts@[j]),
            decreases self.nfts@.len() - i,
        {
            i = i + 1;
        }
        proof {
            let fw = first_where(self.nfts@, has_class(class_id@));
            if i < self.nfts@.len() {
                assert(has_class(class_id@)(self.nfts@[i as int]));
            }
            if fw >= 0 {
                assert(has_class(class_id@)(self.nfts@[fw]));
            }
        }
        i
    }

    fn find_contract(&self, account_id: &AccountId) -> (res: usize)
        ensures
            -1 <= first_where(self.entries(), has_nft_contract(account_id@)) < self.entries().len(),
            res == if first_where(self.entries(), has_nft_contract(account_id@)) >= 0 {
                first_where(self.entries(), has_nft_contract(account_id@))
            } else {
                self.entries().len() as int
            },
    {
        proof {
            lemma_first_where(self.nfts@, has_nft_contract(account_id@));
        }
        let mut i: usize = 0;
        while i < self.nfts.len() && self.nfts[i].1.contract_account != *account_id
            invariant
                i <= self.nfts@.len(),
                forall|j: int| 0 <= j < i ==> !has_nft_contract(account_id@)(#[trigger] self.nfts@[j]),
            decreases self.nfts@.len() - i,
        {
            i = i + 1;
        }
        proof {
            let fw = first_where(self.nfts@, has_nft_contract(account_id@));
            if i < self.nfts@.len() {
                assert(has_nft_contract(account_id@)(self.nfts@[i as int]));
            }
            if fw >= 0 {
                assert(has_nft_contract(account_id@)(self.nfts@[fw]));
            }
        }
        i
    }

    /// Puts the class `class_id` in place of the class with that id, or
    /// else after the last class.
    pub fn insert(&mut self, class_id: String, internal_wrapped_appchain_nft: InternalWrappedAppchainNFT)
        ensures
            ({
                let p = first_where(old(self).entries(), has_class(class_id@));
                final(self).entries() == if p >= 0 {
                    old(self).entries().update(p, (class_id, internal_wrapped_appchain_nft))
                } else {
                    old(self).entries().push((class_id, internal_wrapped_appchain_nft))
                }
            }),
    {
        let i = self.find_class(&class_id);
        if i < self.nfts.len() {
            self.nfts.set(i, (class_id, internal_wrapped_appchain_nft));
        } else {
            self.nfts.push((class_id, internal_wrapped_appchain_nft));
        }
    }

    /// The class `class_id`, if any.
    pub fn get(&self, class_id: &String) -> (res: Option<&InternalWrappedAppchainNFT>)
        ensures
            ({
                let p = first_where(self.entries(), has_class(class_id@));
                match res {
                    Some(n) => p >= 0 && *n == self.entries()[p].1,
                    None => p < 0,
                }
            }),
    {
        let i = self.find_class(class_id);
        if i < self.nfts.len() {
            Some(&self.nfts[i].1)
        } else {
            None
        }
    }

    /// The first class whose contract is the account `account_id`, if any.
    pub fn get_by_contract_account(&self, account_id: &AccountId) -> (res: Option<&InternalWrappedAppchainNFT>)
        ensures
            ({
                let p = first_where(self.entries(), has_nft_contract(account_id@));
                match res {
                    Some(n) => p >= 0 && *n == self.entries()[p].1,
                    None => p < 0,
                }
            }),
    {
        let i = self.find_contract(account_id);
        if i < self.nfts.len() {
            Some(&self.nfts[i].1)
        } else {
            None
        }
    }

    /// The id of the first class whose contract is the account `account_id`, if any.
    pub fn get_class_id_by_contract_account(&self, account_id: &AccountId) -> (res: Option<String>)
        ensures
            ({
                let p = first_where(self.entries(), has_nft_contract(account_id@));
                match res {
                    Some(c) => p >= 0 && c == self.entries()[p].0,
                    None => p < 0,
                }
            }),
    {
        let i = self.find_contract(account_id);
        if i < self.nfts.len() {
            Some(self.nfts[i].0.clone())
        } else {
            None
        }
    }

    /// The classes as the anchor shows them, in the order of the entries.
    pub fn to_vec(&self) -> (res: Vec<WrappedAppchainNFT>)
        requires
            forall|i: int| 0 <= i < self.entries().len() ==> (#[trigger] self.entries()[i]).1.locked_count() <= u64::MAX,
        ensures
            res@.len() == self.entries().len(),
            forall|i: int|
                0 <= i < res@.len() ==> {
                    let e = self.entries()[i];
                    &&& (#[trigger] res@[i]).class_id == e.0
                    &&& same_metadata(res@[i].metadata, e.1.metadata)
                    &&& res@[i].contract_account == e.1.contract_account
                    &&& res@[i].bridging_state == e.1.bridging_state
                    &&& res@[i].count_of_locked_tokens == e.1.locked_count()
                },
    {
        let mut res: Vec<WrappedAppchainNFT> = Vec::new();
        let mut i: usize = 0;
        while i < self.nfts.len()
            invariant
                i <= self.nfts@.len(),
                res@.len() == i,
                forall|k: int| 0 <= k < self.nfts@.len() ==> (#[trigger] self.nfts@[k]).1.locked_count() <= u64::MAX,
                forall|k: int|
                    0 <= k < i ==> {
                        let e = self.nfts@[k];
                        &&& (#[trigger] res@[k]).class_id == e.0
                        &&& same_metadata(res@[k].metadata, e.1.metadata)
                        &&& res@[k].contract_account == e.1.contract_account
                        &&& res@[k].bridging_state == e.1.bridging_state
                        &&& res@[k].count_of_locked_tokens == e.1.locked_count()
                    },
            decreases self.nfts@.len() - i,
        {
            let e = &self.nfts[i];
            res.push(
                WrappedAppchainNFT {
                    class_id: e.0.clone(),
                    metadata: e.1.metadata.duplicate(),
                    contract_account: e.1.contract_account.clone(),
                    bridging_state: e.1.bridging_state,
                    count_of_locked_tokens: e.1.count_of_locked_tokens(),
                },
            );
            i = i + 1;
        }
        res
    }

    /// Removes every class.
    pub fn clear(&mut self)
        ensures
            final(self).entries() == Seq::<(String, InternalWrappedAppchainNFT)>::empty(),
    {
        self.nfts = Vec::new();
    }
}

} // verus!
