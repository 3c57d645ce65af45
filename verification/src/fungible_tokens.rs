//! The fungible tokens of NEAR protocol that the anchor bridges to the
//! appchain, with their prices and the balances locked in the anchor.
use crate::anchor::AppchainAnchor;
use crate::errors::AnchorError;
use crate::types::{AccountId, BridgingState};
use vstd::prelude::*;

verus! {

/// The metadata of a fungible token of NEAR protocol.
#[derive(Clone, Debug, PartialEq, Eq)]
pub struct FungibleTokenMetadata {
    pub spec: String,
    pub name: String,
    pub symbol: String,
    pub icon: Option<String>,
    pub reference: Option<String>,
    pub reference_hash: Option<Vec<u8>>,
    pub decimals: u8,
}

/// A fungible token of NEAR protocol that the anchor bridges.
#[derive(Clone, Debug, PartialEq, Eq)]
pub struct NearFungibleToken {
    pub metadata: FungibleTokenMetadata,
    /// The account of the token's contract.
    pub contract_account: AccountId,
    /// The price of one whole token in USD.
    pub price_in_usd: u128,
    /// The balance of the token locked in the anchor.
    pub locked_balance: u128,
    pub bridging_state: BridgingState,
}

/// The position of the first element of `s` that meets `p`, or -1.
pub open spec fn first_where<T>(s: Seq<T>, p: spec_fn(T) -> bool) -> int
    decreases s.len(),
{
    if s.len() == 0 {
        -1
    } else {
        let q = first_where(s.drop_last(), p);
        if q >= 0 {
            q
        } else if p(s.last()) {
            s.len() - 1
        } else {
            -1
        }
    }
}

/// `first_where` gives the first element that meets `p`.
pub proof fn lemma_first_where<T>(s: Seq<T>, p: spec_fn(T) -> bool)
    ensures
        -1 <= first_where(s, p) < s.len(),
        first_where(s, p) >= 0 ==> p(s[first_where(s, p)]),
        forall|j: int| 0 <= j < s.len() && (first_where(s, p) < 0 || j < first_where(s, p)) ==> !p(#[trigger] s[j]),
    decreases s.len(),
{
    if s.len() > 0 {
        let front = s.drop_last();
        lemma_first_where(front, p);
        assert forall|j: int| 0 <= j < s.len() && (first_where(s, p) < 0 || j < first_where(s, p)) implies !p(
            #[trigger] s[j],
        ) by {
            if j < front.len() {
                assert(s[j] == front[j]);
            }
        }
    }
}

/// Whether a token has the symbol `symbol`.
pub open spec fn has_symbol(symbol: Seq<char>) -> spec_fn(NearFungibleToken) -> bool {
    |t: NearFungibleToken| t.metadata.symbol@ == symbol
}

/// Whether a token's contract is the account `account`.
pub open spec fn has_contract(account: Seq<char>) -> spec_fn(NearFungibleToken) -> bool {
    |t: NearFungibleToken| t.contract_account@ == account
}

/// Ten to the power `d`.
pub open spec fn pow10(d: nat) -> nat
    decreases d,
{
    if d == 0 {
        1
    } else {
        10 * pow10((d - 1) as nat)
    }
}

/// The market value in USD of `amount` of the token `t`: the whole tokens
/// in it times the price of one.
pub open spec fn market_value(t: NearFungibleToken, amount: u128) -> int {
    (amount as int / pow10(t.metadata.decimals as nat) as int) * t.price_in_usd
}

/// The market value of the balances of `ts` locked in the anchor.
pub open spec fn total_value(ts: Seq<NearFungibleToken>) -> int
    decreases ts.len(),
{
    if ts.len() == 0 {
        0
    } else {
        total_value(ts.drop_last()) + market_value(ts.last(), ts.last().locked_balance)
    }
}

pub(crate) proof fn lemma_pow10_positive(d: nat)
    ensures
        pow10(d) >= 1,
    decreases d,
{
    if d > 0 {
        lemma_pow10_positive((d - 1) as nat);
    }
}

/// Ten to the power `d`, for `d` up to 38.
pub(crate) fn power_of_ten(d: u8) -> (res: u128)
    requires
        d <= 38,
    ensures
        res == pow10(d as nat),
{
    proof {
        reveal_with_fuel(pow10, 39);
        assert(pow10(38) == 100000000000000000000000000000000000000nat);
    }
    let mut res: u128 = 1;
    let mut i: u8 = 0;
    while i < d
        invariant
            i <= d <= 38,
            res == pow10(i as nat),
            pow10(38) == 100000000000000000000000000000000000000nat,
        decreases d - i,
    {
        proof {
            lemma_pow10_monotonic((i + 1) as nat, 38);
        }
        res = res * 10;
        i = i + 1;
    }
    res
}

proof fn lemma_pow10_monotonic(a: nat, b: nat)
    requires
        a <= b,
    ensures
        pow10(a) <= pow10(b),
    decreases b - a,
{
    if a < b {
        lemma_pow10_monotonic(a, (b - 1) as nat);
        lemma_pow10_positive((b - 1) as nat);
    }
}

proof fn lemma_total_value_prefix(ts: Seq<NearFungibleToken>, n: int)
    requires
        0 <= n <= ts.len(),
        forall|k: int| 0 <= k < ts.len() ==> (#[trigger] ts[k]).price_in_usd >= 0,
    ensures
        0 <= total_value(ts.take(n)) <= total_value(ts),
    decreases ts.len(),
{
    if ts.len() > 0 {
        if n < ts.len() {
            lemma_total_value_prefix(ts.drop_last(), n);
            assert(ts.drop_last().take(n) =~= ts.take(n));
            lemma_pow10_positive(ts.last().metadata.decimals as nat);
            assert(market_value(ts.last(), ts.last().locked_balance) >= 0) by (nonlinear_arith)
                requires
                    ts.last().price_in_usd >= 0,
                    pow10(ts.last().metadata.decimals as nat) >= 1,
            {
            }
        } else {
            assert(ts.take(n) =~= ts);
            lemma_total_value_prefix(ts.drop_last(), n - 1);
            assert(ts.drop_last().take(n - 1) =~= ts.drop_last());
            lemma_pow10_positive(ts.last().metadata.decimals as nat);
        }
    }
}

/// The fungible tokens of NEAR protocol that the anchor bridges.
pub struct NearFungibleTokens {
    tokens: Vec<NearFungibleToken>,
}

impl NearFungibleTokens {
    /// The tokens, in the order in which they were registered.
    pub closed spec fn entries(&self) -> Seq<NearFungibleToken> {
        self.tokens@
    }

    /// No token.
    pub fn new() -> (res: Self)
        ensures
            res.entries() == Seq::<NearFungibleToken>::empty(),
    {
        NearFungibleTokens { tokens: Vec::new() }
    }

    /// The tokens.
    pub fn to_vec(&self) -> (res: Vec<&NearFungibleToken>)
        ensures
            res@.len() == self.entries().len(),
            forall|i: int| 0 <= i < res@.len() ==> *res@[i] == self.entries()[i],
    {
        let mut res: Vec<&NearFungibleToken> = Vec::new();
        let mut i: usize = 0;
        while i < self.tokens.len()
            invariant
                i <= self.tokens@.len(),
                res@.len() == i,
                forall|k: int| 0 <= k < i ==> *res@[k] == self.tokens@[k],
            decreases self.tokens@.len() - i,
        {
            res.push(&self.tokens[i]);
            i = i + 1;
        }
        res
    }

    fn find_symbol(&self, symbol: &String) -> (res: usize)
        ensures
            -1 <= first_where(self.entries(), has_symbol(symbol@)) < self.entries().len(),
            res == if first_where(self.entries(), has_symbol(symbol@)) >= 0 {
                first_where(self.entries(), has_symbol(symbol@))
            } else {
                self.entries().len() as int
            },
    {
        proof {
            lemma_first_where(self.tokens@, has_symbol(symbol@));
        }
        let mut i: usize = 0;
        while i < self.tokens.len() && self.tokens[i].metadata.symbol != *symbol
            invariant
                i <= self.tokens@.len(),
                forall|j: int| 0 <= j < i ==> !has_symbol(symbol@)(#[trigger] self.tokens@[j]),
            decreases self.tokens@.len() - i,
        {
            i = i + 1;
        }
        proof {
            let fw = first_where(self.tokens@, has_symbol(symbol@));
            if i < self.tokens@.len() {
                assert(has_symbol(symbol@)(self.tokens@[i as int]));
            }
            if fw >= 0 {
                assert(has_symbol(symbol@)(self.tokens@[fw]));
            }
        }
        i
    }

    /// Whether a token with the symbol `symbol` is registered.
    pub fn contains(&self, symbol: &String) -> (res: bool)
        ensures
            res == (first_where(self.entries(), has_symbol(symbol@)) >= 0),
    {
        self.find_symbol(symbol) < self.tokens.len()
    }

    /// The token with the symbol `symbol`, if any.
    pub fn get(&self, symbol: &String) -> (res: Option<&NearFungibleToken>)
        ensures
            ({
                let p = first_where(self.entries(), has_symbol(symbol@));
                match res {
                    Some(t) => p >= 0 && *t == self.entries()[p],
                    None => p < 0,
                }
            }),
    {
        let i = self.find_symbol(symbol);
        if i < self.tokens.len() {
            Some(&self.tokens[i])
        } else {
            None
        }
    }

    /// The token whose contract is the account `account_id`, if any.
    pub fn get_by_contract_account(&self, account_id: &AccountId) -> (res: Option<&NearFungibleToken>)
        ensures
            ({
                let p = first_where(self.entries(), has_contract(account_id@));
                match res {
                    Some(t) => p >= 0 && *t == self.entries()[p],
                    None => p < 0,
                }
            }),
    {
        proof {
            lemma_first_where(self.tokens@, has_contract(account_id@));
        }
        let mut i: usize = 0;
        while i < self.tokens.len() && self.tokens[i].contract_account != *account_id
            invariant
                i <= self.tokens@.len(),
                forall|j: int| 0 <= j < i ==> !has_contract(account_id@)(#[trigger] self.tokens@[j]),
            decreases self.tokens@.len() - i,
        {
            i = i + 1;
        }
        proof {
            let fw = first_where(self.tokens@, has_contract(account_id@));
            if i < self.tokens@.len() {
                assert(has_contract(account_id@)(self.tokens@[i as int]));
            }
            if fw >= 0 {
                assert(has_contract(account_id@)(self.tokens@[fw]));
            }
        }
        if i < self.tokens.len() {
            Some(&self.tokens[i])
        } else {
            None
        }
    }

    /// Stores `token` in place of the token with its symbol, or else after
    /// the last token.
    pub fn insert(&mut self, token: NearFungibleToken)
        ensures
            ({
                let p = first_where(old(self).entries(), has_symbol(token.metadata.symbol@));
                final(self).entries() == if p >= 0 {
                    old(self).entries().update(p, token)
                } else {
                    old(self).entries().push(token)
                }
            }),
    {
        let i = self.find_symbol(&token.metadata.symbol);
        if i < self.tokens.len() {
            self.tokens.set(i, token);
        } else {
            self.tokens.push(token);
        }
    }

    /// Gives the registered token with the symbol `symbol` the name `name`,
    /// the decimals `decimals` and the contract `contract_account`.
    pub fn change_metadata(&mut self, symbol: &String, name: String, decimals: u8, contract_account: AccountId)
        requires
            first_where(old(self).entries(), has_symbol(symbol@)) >= 0,
        ensures
            ({
                let p = first_where(old(self).entries(), has_symbol(symbol@));
                let t = old(self).entries()[p];
                final(self).entries() == old(self).entries().update(
                    p,
                    NearFungibleToken {
                        metadata: FungibleTokenMetadata { name, decimals, ..t.metadata },
                        contract_account,
                        ..t
                    },
                )
            }),
    {
        let i = self.find_symbol(symbol);
        let mut t = self.tokens.remove(i);
        t.metadata.name = name;
        t.metadata.decimals = decimals;
        t.contract_account = contract_account;
        self.tokens.insert(i, t);
    }

    /// Adds `amount` to the balance locked in the anchor of the registered
    /// token whose contract is the account `account_id`.
    pub fn increase_locked_balance(&mut self, account_id: &AccountId, amount: u128)
        requires
            first_where(old(self).entries(), has_contract(account_id@)) >= 0,
            old(self).entries()[first_where(old(self).entries(), has_contract(account_id@))].locked_balance + amount
                <= u128::MAX,
        ensures
            ({
                let p = first_where(old(self).entries(), has_contract(account_id@));
                let t = old(self).entries()[p];
                final(self).entries() == old(self).entries().update(
                    p,
                    NearFungibleToken { locked_balance: (t.locked_balance + amount) as u128, ..t },
                )
            }),
    {
        proof {
            lemma_first_where(self.tokens@, has_contract(account_id@));
        }
        let mut i: usize = 0;
        while i < self.tokens.len() && self.tokens[i].contract_account != *account_id
            invariant
                i <= self.tokens@.len(),
                forall|j: int| 0 <= j < i ==> !has_contract(account_id@)(#[trigger] self.tokens@[j]),
            decreases self.tokens@.len() - i,
        {
            i = i + 1;
        }
        proof {
            let fw = first_where(self.tokens@, has_contract(account_id@));
            if i < self.tokens@.len() {
                assert(has_contract(account_id@)(self.tokens@[i as int]));
            }
            assert(has_contract(account_id@)(self.tokens@[fw]));
        }
        let mut t = self.tokens.remove(i);
        t.locked_balance = t.locked_balance + amount;
        self.tokens.insert(i, t);
    }

    /// Takes `amount` from the balance locked in the anchor of the
    /// registered token whose contract is the account `account_id`.
    pub fn decrease_locked_balance(&mut self, account_id: &AccountId, amount: u128)
        requires
            first_where(old(self).entries(), has_contract(account_id@)) >= 0,
            old(self).entries()[first_where(old(self).entries(), has_contract(account_id@))].locked_balance >= amount,
        ensures
            ({
                let p = first_where(old(self).entries(), has_contract(account_id@));
                let t = old(self).entries()[p];
                final(self).entries() == old(self).entries().update(
                    p,
                    NearFungibleToken { locked_balance: (t.locked_balance - amount) as u128, ..t },
                )
            }),
    {
        proof {
            lemma_first_where(self.tokens@, has_contract(account_id@));
        }
        let mut i: usize = 0;
        while i < self.tokens.len() && self.tokens[i].contract_account != *account_id
            invariant
                i <= self.tokens@.len(),
                forall|j: int| 0 <= j < i ==> !has_contract(account_id@)(#[trigger] self.tokens@[j]),
            decreases self.tokens@.len() - i,
        {
            i = i + 1;
        }
        proof {
            let fw = first_where(self.tokens@, has_contract(account_id@));
            if i < self.tokens@.len() {
                assert(has_contract(account_id@)(self.tokens@[i as int]));
            }
            assert(has_contract(account_id@)(self.tokens@[fw]));
        }
        let mut t = self.tokens.remove(i);
        t.locked_balance = t.locked_balance - amount;
        self.tokens.insert(i, t);
    }

    /// Sets the price of the registered token with the symbol `symbol`.
    pub fn set_price(&mut self, symbol: &String, price: u128)
        requires
            first_where(old(self).entries(), has_symbol(symbol@)) >= 0,
        ensures
            ({
                let p = first_where(old(self).entries(), has_symbol(symbol@));
                final(self).entries() == old(self).entries().update(
                    p,
                    NearFungibleToken { price_in_usd: price, ..old(self).entries()[p] },
                )
            }),
    {
        let i = self.find_symbol(symbol);
        let mut t = self.tokens.remove(i);
        t.price_in_usd = price;
        self.tokens.insert(i, t);
    }

    /// Sets the state of the bridging of the registered token with the symbol `symbol`.
    pub fn set_bridging_state(&mut self, symbol: &String, state: BridgingState)
        requires
            first_where(old(self).entries(), has_symbol(symbol@)) >= 0,
        ensures
            ({
                let p = first_where(old(self).entries(), has_symbol(symbol@));
                final(self).entries() == old(self).entries().update(
                    p,
                    NearFungibleToken { bridging_state: state, ..old(self).entries()[p] },
                )
            }),
    {
        let i = self.find_symbol(symbol);
        let mut t = self.tokens.remove(i);
        t.bridging_state = state;
        self.tokens.insert(i, t);
    }

    /// The market value of the balances locked in the anchor.
    pub fn total_market_value(&self) -> (res: u128)
        requires
            forall|k: int| 0 <= k < self.entries().len() ==> (#[trigger] self.entries()[k]).metadata.decimals <= 38,
            total_value(self.entries()) <= u128::MAX,
        ensures
            res == total_value(self.entries()),
    {
        let mut total: u128 = 0;
        let mut i: usize = 0;
        while i < self.tokens.len()
            invariant
                i <= self.tokens@.len(),
                forall|k: int| 0 <= k < self.tokens@.len() ==> (#[trigger] self.tokens@[k]).metadata.decimals <= 38,
                total_value(self.tokens@) <= u128::MAX,
                total == total_value(self.tokens@.take(i as int)),
            decreases self.tokens@.len() - i,
        {
            proof {
                lemma_total_value_prefix(self.tokens@, i + 1);
                assert(self.tokens@.take(i + 1).drop_last() =~= self.tokens@.take(i as int));
                lemma_pow10_positive(self.tokens@[i as int].metadata.decimals as nat);
            }
            let t = &self.tokens[i];
            let whole = t.locked_balance / power_of_ten(t.metadata.decimals);
            proof {
                assert(total + whole * t.price_in_usd == total_value(self.tokens@.take(i + 1)));
            }
            total = total + whole * t.price_in_usd;
            i = i + 1;
        }
        assert(self.tokens@.take(i as int) =~= self.tokens@);
        total
    }

    /// The market value of `amount` of the token with the symbol `symbol`;
    /// 0 where no such token is registered.
    pub fn get_market_value_of(&self, symbol: &String, amount: u128) -> (res: u128)
        requires
            ({
                let p = first_where(self.entries(), has_symbol(symbol@));
                p >= 0 ==> {
                    &&& self.entries()[p].metadata.decimals <= 38
                    &&& market_value(self.entries()[p], amount) <= u128::MAX
                }
            }),
        ensures
            ({
                let p = first_where(self.entries(), has_symbol(symbol@));
                res == if p >= 0 {
                    market_value(self.entries()[p], amount)
                } else {
                    0
                }
            }),
    {
        match self.get(symbol) {
            Some(t) => {
                proof {
                    lemma_pow10_positive(t.metadata.decimals as nat);
                }
                amount / power_of_ten(t.metadata.decimals) * t.price_in_usd
            },
            None => 0,
        }
    }

    /// Removes all tokens.
    pub fn clear(&mut self)
        ensures
            final(self).entries() == Seq::<NearFungibleToken>::empty(),
    {
        self.tokens = Vec::new();
    }
}

/// Why `a` refuses to let `caller` change the token with the symbol
/// `symbol`, if it does: only the owner may, and only a registered token.
pub open spec fn token_refusal(a: AppchainAnchor, caller: AccountId, symbol: String) -> Option<AnchorError> {
    if caller@ != a.owner@ {
        Some(AnchorError::NotAuthorized)
    } else if first_where(a.near_fungible_tokens.entries(), has_symbol(symbol@)) < 0 {
        Some(AnchorError::TokenNotRegistered(symbol))
    } else {
        None
    }
}

/// Whether `after` is `before` with the tokens replaced by `tokens`.
pub open spec fn tokens_replaced(before: AppchainAnchor, after: AppchainAnchor, tokens: Seq<NearFungibleToken>) -> bool {
    &&& after.near_fungible_tokens.entries() == tokens
    &&& after == (AppchainAnchor { near_fungible_tokens: after.near_fungible_tokens, ..before })
}

impl AppchainAnchor {
    /// Registers the token `symbol` of the contract `contract_account`, with
    /// the name `name`, the decimals `decimals` and the price `price`, its
    /// bridging closed and nothing locked. Refused unless `caller` is the
    /// owner and neither the symbol nor the contract is registered.
    pub fn register_near_fungible_token(
        &mut self,
        caller: &AccountId,
        symbol: String,
        name: String,
        decimals: u8,
        contract_account: AccountId,
        price: u128,
    ) -> (res: Result<(), AnchorError>)
        ensures
            ({
                let ts = old(self).near_fungible_tokens.entries();
                if caller@ != old(self).owner@ {
                    res == Err::<(), AnchorError>(AnchorError::NotAuthorized) && *final(self) == *old(self)
                } else if first_where(ts, has_symbol(symbol@)) >= 0 {
                    res == Err::<(), AnchorError>(AnchorError::TokenAlreadyRegistered(symbol)) && *final(self) == *old(self)
                } else if first_where(ts, has_contract(contract_account@)) >= 0 {
                    res == Err::<(), AnchorError>(AnchorError::TokenContractAlreadyRegistered(contract_account))
                        && *final(self) == *old(self)
                } else {
                    let t = final(self).near_fungible_tokens.entries().last();
                    &&& res == Ok::<(), AnchorError>(())
                    &&& tokens_replaced(*old(self), *final(self), ts.push(t))
                    &&& t.metadata.spec@ == "ft-1.0.0"@
                    &&& t.metadata.symbol == symbol
                    &&& t.metadata.name == name
                    &&& t.metadata.decimals == decimals
                    &&& t.metadata.icon is None
                    &&& t.metadata.reference is None
                    &&& t.metadata.reference_hash is None
                    &&& t.contract_account == contract_account
                    &&& t.price_in_usd == price
                    &&& t.locked_balance == 0
                    &&& t.bridging_state == BridgingState::Closed
                }
            }),
    {
        if *caller != self.owner {
            return Err(AnchorError::NotAuthorized);
        }
        if self.near_fungible_tokens.contains(&symbol) {
            return Err(AnchorError::TokenAlreadyRegistered(symbol));
        }
        if self.near_fungible_tokens.get_by_contract_account(&contract_account).is_some() {
            return Err(AnchorError::TokenContractAlreadyRegistered(contract_account));
        }
        let spec_name = String::from_str("ft-1.0.0");
        self.near_fungible_tokens.insert(
            NearFungibleToken {
                metadata: FungibleTokenMetadata {
                    spec: spec_name,
                    name,
                    symbol,
                    icon: None,
                    reference: None,
                    reference_hash: None,
                    decimals,
                },
                contract_account,
                price_in_usd: price,
                locked_balance: 0,
                bridging_state: BridgingState::Closed,
            },
        );
        Ok(())
    }

    /// Gives the token `symbol` the name `name`, the decimals `decimals` and
    /// the contract `contract_account`. Refused as `token_refusal` says, and
    /// where the contract is registered already.
    pub fn change_near_fungible_token_metadata(
        &mut self,
        caller: &AccountId,
        symbol: String,
        name: String,
        decimals: u8,
        contract_account: AccountId,
    ) -> (res: Result<(), AnchorError>)
        ensures
            ({
                let ts = old(self).near_fungible_tokens.entries();
                let p = first_where(ts, has_symbol(symbol@));
                match token_refusal(*old(self), *caller, symbol) {
                    Some(e) => res == Err::<(), AnchorError>(e) && *final(self) == *old(self),
                    None => if first_where(ts, has_contract(contract_account@)) >= 0 {
                        res == Err::<(), AnchorError>(AnchorError::TokenContractAlreadyRegistered(contract_account))
                            && *final(self) == *old(self)
                    } else {
                        res == Ok::<(), AnchorError>(()) && tokens_replaced(
                            *old(self),
                            *final(self),
                            ts.update(
                                p,
                                NearFungibleToken {
                                    metadata: FungibleTokenMetadata { name, decimals, ..ts[p].metadata },
                                    contract_account,
                                    ..ts[p]
                                },
                            ),
                        )
                    },
                }
            }),
    {
        if *caller != self.owner {
            return Err(AnchorError::NotAuthorized);
        }
        if !self.near_fungible_tokens.contains(&symbol) {
            return Err(AnchorError::TokenNotRegistered(symbol));
        }
        if self.near_fungible_tokens.get_by_contract_account(&contract_account).is_some() {
            return Err(AnchorError::TokenContractAlreadyRegistered(contract_account));
        }
        self.near_fungible_tokens.change_metadata(&symbol, name, decimals, contract_account);
        Ok(())
    }

    /// Sets the price of the token `symbol`; refused unless `caller` is the
    /// maintainer of token prices and the token is registered.
    pub fn set_price_of_near_fungible_token(&mut self, caller: &AccountId, symbol: String, price: u128) -> (res: Result<
        (),
        AnchorError,
    >)
        ensures
            ({
                let ts = old(self).near_fungible_tokens.entries();
                let p = first_where(ts, has_symbol(symbol@));
                if old(self).price_maintainer_check(*caller) is Err {
                    res == old(self).price_maintainer_check(*caller) && *final(self) == *old(self)
                } else if p < 0 {
                    res == Err::<(), AnchorError>(AnchorError::TokenNotRegistered(symbol)) && *final(self) == *old(self)
                } else {
                    res == Ok::<(), AnchorError>(()) && tokens_replaced(
                        *old(self),
                        *final(self),
                        ts.update(p, NearFungibleToken { price_in_usd: price, ..ts[p] }),
                    )
                }
            }),
    {
        match self.assert_token_price_maintainer(caller) {
            Ok(()) => {},
            Err(e) => {
                return Err(e);
            },
        }
        if !self.near_fungible_tokens.contains(&symbol) {
            return Err(AnchorError::TokenNotRegistered(symbol));
        }
        self.near_fungible_tokens.set_price(&symbol, price);
        Ok(())
    }

    /// Opens the bridging of the token `symbol`; refused as `token_refusal` says.
    pub fn open_bridging_of_near_fungible_token(&mut self, caller: &AccountId, symbol: String) -> (res: Result<
        (),
        AnchorError,
    >)
        ensures
            ({
                let ts = old(self).near_fungible_tokens.entries();
                let p = first_where(ts, has_symbol(symbol@));
                match token_refusal(*old(self), *caller, symbol) {
                    Some(e) => res == Err::<(), AnchorError>(e) && *final(self) == *old(self),
                    None => res == Ok::<(), AnchorError>(()) && tokens_replaced(
                        *old(self),
                        *final(self),
                        ts.update(p, NearFungibleToken { bridging_state: BridgingState::Active, ..ts[p] }),
                    ),
                }
            }),
    {
        if *caller != self.owner {
            return Err(AnchorError::NotAuthorized);
        }
        if !self.near_fungible_tokens.contains(&symbol) {
            return Err(AnchorError::TokenNotRegistered(symbol));
        }
        self.near_fungible_tokens.set_bridging_state(&symbol, BridgingState::Active);
        Ok(())
    }

    /// Closes the bridging of the token `symbol`; refused as `token_refusal` says.
    pub fn close_bridging_of_near_fungible_token(&mut self, caller: &AccountId, symbol: String) -> (res: Result<
        (),
        AnchorError,
    >)
        ensures
            ({
                let ts = old(self).near_fungible_tokens.entries();
                let p = first_where(ts, has_symbol(symbol@));
                match token_refusal(*old(self), *caller, symbol) {
                    Some(e) => res == Err::<(), AnchorError>(e) && *final(self) == *old(self),
                    None => res == Ok::<(), AnchorError>(()) && tokens_replaced(
                        *old(self),
                        *final(self),
                        ts.update(p, NearFungibleToken { bridging_state: BridgingState::Closed, ..ts[p] }),
                    ),
                }
            }),
    {
        if *caller != self.owner {
            return Err(AnchorError::NotAuthorized);
        }
        if !self.near_fungible_tokens.contains(&symbol) {
            return Err(AnchorError::TokenNotRegistered(symbol));
        }
        self.near_fungible_tokens.set_bridging_state(&symbol, BridgingState::Closed);
        Ok(())
    }
}

} // verus!
