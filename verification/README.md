# appchain_anchor

The anchor of an appchain in NEAR protocol: validators and delegators stake
OCT tokens in it, it switches the validator set of the appchain from era to
era, distributes the reward of each era, applies the messages that the
appchain sends, and bridges tokens between the appchain and NEAR protocol.

The library in `src/` is written in Verus. Each public function states in its
contract what it returns and how it changes the anchor, and Verus proves the
code against it; the laws that span several functions are public proof
functions (the `lemma_` functions of `settings`, `stake_accounting`,
`round_trip`, `validator_set`, `lookup_array`, `switching_era`, `rewards`,
`withdrawals` and `deposits`).

- `lookup_array`, `balance_map`, `histories`, `unbonded_stakes`, `profiles`:
  the collections that the anchor keeps.
- `validator_set`, `next_validator_set`, `validator_set_of_era`,
  `stake_accounting`: the validator sets and how staking facts change them.
- `staking_rules`, `validator_actions`, `withdrawals`, `deposits`: what
  validators and delegators may do, and the deposits of tokens.
- `switching_era`, `distributing_rewards`, `rewards`, `permissionless`,
  `removal`, `staging`, `applying`, `messages`, `decoding`: the work that
  spans several transactions, and the messages of the appchain, from the
  bytes that the relayer brings to what applying them asks of the token
  contracts.
- `settings`, `maintenance`, `lifecycle`, `testnet`, `viewers`: what the
  owner does, and what anyone may read.
- `fungible_tokens`, `wrapped_token`, `nfts`: the bridged tokens, their
  market values, and the wrapped classes of non-fungible tokens.

`app/` holds what stays outside the proofs: the JSON of deposits and of the
anchor's status, and the loops that take the steps of the long operations. `tests/` runs the library.
