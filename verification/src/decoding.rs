//! Decoding the messages that the relayer brings from the appchain: the list
//! of raw messages in SCALE encoding, and the payload of each in borsh
//! encoding, by its kind.
use crate::anchor::AppchainAnchor;
use crate::errors::AnchorError;
use crate::staging::{messages_staged, view_of};
use crate::types::PermissionlessActionsStatus;
use crate::messages::{
    BurnAssetPayload, EraPayoutPayload, LockNftPayload, LockPayload, MessagePayload, Offender, PayloadType,
    PlanNewEraPayload, RawMessage, TokenMetadata,
};
use borsh::BorshDeserialize;
use parity_scale_codec::Decode;
use vstd::prelude::*;
use vstd::string::StringExecFns;

verus! {

/// The raw messages that SCALE decoding reads from the start of `encoded`,
/// as a compact length followed by that many (nonce, kind, payload bytes)
/// triples; `None` where the bytes do not decode so.
pub uninterp spec fn scale_raw_messages(encoded: Seq<u8>) -> Option<Seq<(u64, u8, Seq<u8>)>>;

/// Calls `parity_scale_codec::Decode::decode` for a `Vec` of (`u64`, `u8`,
/// `Vec<u8>`) on the bytes `encoded`. The result is named
/// `scale_raw_messages`; the encoding itself is not stated here.
#[verifier::external_body]
fn scale_decode_raw_messages(encoded: &[u8]) -> (res: Option<Vec<(u64, u8, Vec<u8>)>>)
    ensures
        res is None <==> scale_raw_messages(encoded@) is None,
        res matches Some(v) ==> scale_raw_messages(encoded@) == Some(
            v@.map_values(|m: (u64, u8, Vec<u8>)| (m.0, m.1, m.2@)),
        ),
{
    let mut slice = encoded;
    match <Vec<(u64, u8, Vec<u8>)> as Decode>::decode(&mut slice) {
        Ok(v) => Some(v),
        Err(_) => None,
    }
}

/// The kind of payload that the byte `b` stands for, in the order in which
/// the appchain numbers the kinds.
pub open spec fn payload_kind(b: u8) -> Option<PayloadType> {
    if b == 0 {
        Some(PayloadType::Lock)
    } else if b == 1 {
        Some(PayloadType::BurnAsset)
    } else if b == 2 {
        Some(PayloadType::PlanNewEra)
    } else if b == 3 {
        Some(PayloadType::EraPayout)
    } else if b == 4 {
        Some(PayloadType::LockNft)
    } else {
        None
    }
}

fn kind_of(b: u8) -> (res: Option<PayloadType>)
    ensures
        res == payload_kind(b),
{
    if b == 0 {
        Some(PayloadType::Lock)
    } else if b == 1 {
        Some(PayloadType::BurnAsset)
    } else if b == 2 {
        Some(PayloadType::PlanNewEra)
    } else if b == 3 {
        Some(PayloadType::EraPayout)
    } else if b == 4 {
        Some(PayloadType::LockNft)
    } else {
        None
    }
}

/// Whether `raw` is the raw message that the decoded triple `t` stands for.
pub open spec fn raw_of(t: (u64, u8, Seq<u8>), raw: RawMessage) -> bool {
    &&& raw.nonce == t.0
    &&& payload_kind(t.1) == Some(raw.payload_type)
    &&& raw.payload@ == t.2
}

/// Whether a kind byte of the triples `s` stands for no kind.
pub open spec fn has_unknown_kind(s: Seq<(u64, u8, Seq<u8>)>) -> bool {
    exists|i: int| 0 <= i < s.len() && #[trigger] payload_kind(s[i].1) is None
}

/// The raw messages that `encoded` holds, where it decodes and every kind
/// byte stands for a kind of payload.
pub fn decode_raw_messages(encoded: &[u8]) -> (res: Result<Vec<RawMessage>, AnchorError>)
    ensures
        match scale_raw_messages(encoded@) {
            None => res == Err::<Vec<RawMessage>, AnchorError>(AnchorError::InvalidAppchainMessages),
            Some(s) => if has_unknown_kind(s) {
                res == Err::<Vec<RawMessage>, AnchorError>(AnchorError::InvalidAppchainMessages)
            } else {
                res matches Ok(v) && v@.len() == s.len() && forall|i: int|
                    0 <= i < s.len() ==> #[trigger] raw_of(s[i], v@[i])
            },
        },
{
    let decoded = match scale_decode_raw_messages(encoded) {
        Some(d) => d,
        None => {
            return Err(AnchorError::InvalidAppchainMessages);
        },
    };
    let ghost s = decoded@.map_values(|m: (u64, u8, Vec<u8>)| (m.0, m.1, m.2@));
    let mut res: Vec<RawMessage> = Vec::new();
    let mut i: usize = 0;
    while i < decoded.len()
        invariant
            i <= decoded@.len(),
            s == decoded@.map_values(|m: (u64, u8, Vec<u8>)| (m.0, m.1, m.2@)),
            scale_raw_messages(encoded@) == Some(s),
            res@.len() == i,
            forall|j: int| 0 <= j < i ==> #[trigger] raw_of(s[j], res@[j]),
            forall|j: int| 0 <= j < i ==> payload_kind(#[trigger] s[j].1) is Some,
        decreases decoded@.len() - i,
    {
        let (nonce, kind, payload) = (decoded[i].0, decoded[i].1, decoded[i].2.clone());
        match kind_of(kind) {
            Some(payload_type) => {
                assert(s[i as int] == (nonce, kind, payload@));
                res.push(RawMessage { nonce, payload_type, payload });
                assert(raw_of(s[i as int], res@[i as int]));
            },
            None => {
                assert(s[i as int].1 == kind);
                assert(payload_kind(s[i as int].1) is None);
                assert(has_unknown_kind(s));
                return Err(AnchorError::InvalidAppchainMessages);
            },
        }
        i = i + 1;
    }
    assert(!has_unknown_kind(s));
    Ok(res)
}

/// The fields of a burnt asset that borsh decoding reads from the start of
/// `bytes`: the token, the sender, the receiver and the amount.
pub uninterp spec fn borsh_burn_asset(bytes: Seq<u8>) -> Option<(Seq<char>, Seq<char>, Seq<char>, u128)>;

/// The fields of a lock of native tokens that borsh decoding reads from the
/// start of `bytes`: the sender, the receiver and the amount.
pub uninterp spec fn borsh_lock(bytes: Seq<u8>) -> Option<(Seq<char>, Seq<char>, u128)>;

/// The new era that borsh decoding reads from the start of `bytes`.
pub uninterp spec fn borsh_plan_new_era(bytes: Seq<u8>) -> Option<u32>;

/// The fields of the payout of an era that borsh decoding reads from the
/// start of `bytes`: the era, the excluded validators and the offenders
/// (kind, who, offences).
pub uninterp spec fn borsh_era_payout(bytes: Seq<u8>) -> Option<(u32, Seq<Seq<char>>, Seq<(Seq<char>, Seq<char>, u32)>)>;

/// The fields of a lock of a non-fungible token that borsh decoding reads
/// from the start of `bytes`: the sender, the receiver, the class, the
/// instance and the twelve fields of the metadata, in three groups of four.
pub uninterp spec fn borsh_lock_nft(bytes: Seq<u8>) -> Option<(Seq<char>, Seq<char>, u128, u128, MetadataView)>;

/// The twelve fields of the metadata of a non-fungible token, as views.
pub type MetadataView = (
    (Option<Seq<char>>, Option<Seq<char>>, Option<Seq<char>>, Option<Seq<u8>>),
    (Option<u64>, Option<Seq<char>>, Option<Seq<char>>, Option<Seq<char>>),
    (Option<Seq<char>>, Option<Seq<char>>, Option<Seq<char>>, Option<Seq<u8>>),
);

/// The twelve fields of the metadata of a non-fungible token, as decoded.
pub type MetadataParts = (
    (Option<String>, Option<String>, Option<String>, Option<Vec<u8>>),
    (Option<u64>, Option<String>, Option<String>, Option<String>),
    (Option<String>, Option<String>, Option<String>, Option<Vec<u8>>),
);

/// The view of an optional text.
pub open spec fn opt_chars(o: Option<String>) -> Option<Seq<char>> {
    match o {
        Some(s) => Some(s@),
        None => None,
    }
}

/// The view of optional bytes.
pub open spec fn opt_bytes(o: Option<Vec<u8>>) -> Option<Seq<u8>> {
    match o {
        Some(b) => Some(b@),
        None => None,
    }
}

/// The view of decoded metadata fields.
pub open spec fn metadata_parts_view(m: MetadataParts) -> MetadataView {
    (
        (opt_chars(m.0.0), opt_chars(m.0.1), opt_chars(m.0.2), opt_bytes(m.0.3)),
        (m.1.0, opt_chars(m.1.1), opt_chars(m.1.2), opt_chars(m.1.3)),
        (opt_chars(m.2.0), opt_chars(m.2.1), opt_chars(m.2.2), opt_bytes(m.2.3)),
    )
}

/// The view of the metadata `m`.
pub open spec fn metadata_view(m: TokenMetadata) -> MetadataView {
    (
        (opt_chars(m.title), opt_chars(m.description), opt_chars(m.media), opt_bytes(m.media_hash)),
        (m.copies, opt_chars(m.issued_at), opt_chars(m.expires_at), opt_chars(m.starts_at)),
        (opt_chars(m.updated_at), opt_chars(m.extra), opt_chars(m.reference), opt_bytes(m.reference_hash)),
    )
}

/// Calls `borsh::BorshDeserialize::deserialize` for (`String`, `String`,
/// `String`, `u128`) on `bytes`. The result is named `borsh_burn_asset`.
#[verifier::external_body]
fn borsh_decode_burn_asset(bytes: &[u8]) -> (res: Option<(String, String, String, u128)>)
    ensures
        res is None <==> borsh_burn_asset(bytes@) is None,
        res matches Some(t) ==> borsh_burn_asset(bytes@) == Some((t.0@, t.1@, t.2@, t.3)),
{
    let mut slice = bytes;
    match <(String, String, String, u128) as BorshDeserialize>::deserialize(&mut slice) {
        Ok(t) => Some(t),
        Err(_) => None,
    }
}

/// Calls `borsh::BorshDeserialize::deserialize` for (`String`, `String`,
/// `u128`) on `bytes`. The result is named `borsh_lock`.
#[verifier::external_body]
fn borsh_decode_lock(bytes: &[u8]) -> (res: Option<(String, String, u128)>)
    ensures
        res is None <==> borsh_lock(bytes@) is None,
        res matches Some(t) ==> borsh_lock(bytes@) == Some((t.0@, t.1@, t.2)),
{
    let mut slice = bytes;
    match <(String, String, u128) as BorshDeserialize>::deserialize(&mut slice) {
        Ok(t) => Some(t),
        Err(_) => None,
    }
}

/// Calls `borsh::BorshDeserialize::deserialize` for `u32` on `bytes`. The
/// result is named `borsh_plan_new_era`.
#[verifier::external_body]
fn borsh_decode_plan_new_era(bytes: &[u8]) -> (res: Option<u32>)
    ensures
        res == borsh_plan_new_era(bytes@),
{
    let mut slice = bytes;
    match <u32 as BorshDeserialize>::deserialize(&mut slice) {
        Ok(t) => Some(t),
        Err(_) => None,
    }
}

/// Calls `borsh::BorshDeserialize::deserialize` for (`u32`, `Vec<String>`,
/// `Vec<(String, String, u32)>`) on `bytes`. The result is named
/// `borsh_era_payout`.
#[verifier::external_body]
fn borsh_decode_era_payout(bytes: &[u8]) -> (res: Option<(u32, Vec<String>, Vec<(String, String, u32)>)>)
    ensures
        res is None <==> borsh_era_payout(bytes@) is None,
        res matches Some(t) ==> borsh_era_payout(bytes@) == Some(
            (
                t.0,
                t.1@.map_values(|x: String| x@),
                t.2@.map_values(|o: (String, String, u32)| (o.0@, o.1@, o.2)),
            ),
        ),
{
    let mut slice = bytes;
    match <(u32, Vec<String>, Vec<(String, String, u32)>) as BorshDeserialize>::deserialize(&mut slice) {
        Ok(t) => Some(t),
        Err(_) => None,
    }
}

/// Calls `borsh::BorshDeserialize::deserialize` for (`String`, `String`,
/// `u128`, `u128`, the twelve metadata fields in three groups of four) on
/// `bytes`. The result is named `borsh_lock_nft`.
#[verifier::external_body]
fn borsh_decode_lock_nft(bytes: &[u8]) -> (res: Option<(String, String, u128, u128, MetadataParts)>)
    ensures
        res is None <==> borsh_lock_nft(bytes@) is None,
        res matches Some(t) ==> borsh_lock_nft(bytes@) == Some((t.0@, t.1@, t.2, t.3, metadata_parts_view(t.4))),
{
    let mut slice = bytes;
    match <(String, String, u128, u128, MetadataParts) as BorshDeserialize>::deserialize(&mut slice) {
        Ok(t) => Some(t),
        Err(_) => None,
    }
}

/// The reason given for a payload that does not decode.
pub open spec fn invalid_payload_reason() -> Seq<char> {
    "The payload does not decode."@
}

/// Whether `res` is what decoding the payload of `raw` gives: the payload of
/// its kind with the fields that borsh decoding reads, or the reason that it
/// did not decode.
pub open spec fn payload_decoded(raw: RawMessage, res: Result<MessagePayload, String>) -> bool {
    let b = raw.payload@;
    let failed = res matches Err(r) && r@ == invalid_payload_reason();
    match raw.payload_type {
        PayloadType::BurnAsset => match borsh_burn_asset(b) {
            None => failed,
            Some(t) => res matches Ok(MessagePayload::BurnAsset(p)) && p.token_id@ == t.0 && p.sender@ == t.1
                && p.receiver_id@ == t.2 && p.amount == t.3,
        },
        PayloadType::Lock => match borsh_lock(b) {
            None => failed,
            Some(t) => res matches Ok(MessagePayload::Lock(p)) && p.sender@ == t.0 && p.receiver_id@ == t.1
                && p.amount == t.2,
        },
        PayloadType::PlanNewEra => match borsh_plan_new_era(b) {
            None => failed,
            Some(e) => res == Ok::<MessagePayload, String>(MessagePayload::PlanNewEra(PlanNewEraPayload { new_era: e })),
        },
        PayloadType::EraPayout => match borsh_era_payout(b) {
            None => failed,
            Some(t) => res matches Ok(MessagePayload::EraPayout(p)) && p.end_era == t.0
                && p.excluded_validators@.map_values(|x: String| x@) == t.1
                && p.offenders@.map_values(|o: Offender| (o.kind@, o.who@, o.offences)) == t.2,
        },
        PayloadType::LockNft => match borsh_lock_nft(b) {
            None => failed,
            Some(t) => res matches Ok(MessagePayload::LockNft(p)) && p.sender@ == t.0 && p.receiver_id@ == t.1
                && p.class == t.2 && p.instance == t.3 && metadata_view(p.metadata) == t.4,
        },
    }
}

fn invalid_payload() -> (res: Result<MessagePayload, String>)
    ensures
        res matches Err(r) && r@ == invalid_payload_reason(),
{
    Err(String::from_str("The payload does not decode."))
}

/// Decodes the payload of `raw` by its kind, or gives the reason it did not
/// decode.
pub fn decode_payload(raw: &RawMessage) -> (res: Result<MessagePayload, String>)
    ensures
        payload_decoded(*raw, res),
{
    let b = raw.payload.as_slice();
    match raw.payload_type {
        PayloadType::BurnAsset => match borsh_decode_burn_asset(b) {
            Some(t) => Ok(
                MessagePayload::BurnAsset(BurnAssetPayload { token_id: t.0, sender: t.1, receiver_id: t.2, amount: t.3 }),
            ),
            None => invalid_payload(),
        },
        PayloadType::Lock => match borsh_decode_lock(b) {
            Some(t) => Ok(MessagePayload::Lock(LockPayload { sender: t.0, receiver_id: t.1, amount: t.2 })),
            None => invalid_payload(),
        },
        PayloadType::PlanNewEra => match borsh_decode_plan_new_era(b) {
            Some(e) => Ok(MessagePayload::PlanNewEra(PlanNewEraPayload { new_era: e })),
            None => invalid_payload(),
        },
        PayloadType::EraPayout => match borsh_decode_era_payout(b) {
            Some(t) => {
                let mut offenders: Vec<Offender> = Vec::new();
                let mut i: usize = 0;
                while i < t.2.len()
                    invariant
                        i <= t.2@.len(),
                        offenders@.len() == i,
                        forall|j: int|
                            0 <= j < i ==> (#[trigger] offenders@[j]).kind@ == t.2@[j].0@ && offenders@[j].who@
                                == t.2@[j].1@ && offenders@[j].offences == t.2@[j].2,
                    decreases t.2@.len() - i,
                {
                    let o = &t.2[i];
                    offenders.push(Offender { kind: o.0.clone(), who: o.1.clone(), offences: o.2 });
                    i = i + 1;
                }
                assert(offenders@.map_values(|o: Offender| (o.kind@, o.who@, o.offences)) =~= t.2@.map_values(
                    |o: (String, String, u32)| (o.0@, o.1@, o.2),
                ));
                Ok(MessagePayload::EraPayout(EraPayoutPayload { end_era: t.0, excluded_validators: t.1, offenders }))
            },
            None => invalid_payload(),
        },
        PayloadType::LockNft => match borsh_decode_lock_nft(b) {
            Some(t) => {
                let m = t.4;
                let metadata = TokenMetadata {
                    title: m.0.0,
                    description: m.0.1,
                    media: m.0.2,
                    media_hash: m.0.3,
                    copies: m.1.0,
                    issued_at: m.1.1,
                    expires_at: m.1.2,
                    starts_at: m.1.3,
                    updated_at: m.2.0,
                    extra: m.2.1,
                    reference: m.2.2,
                    reference_hash: m.2.3,
                };
                Ok(
                    MessagePayload::LockNft(
                        LockNftPayload { sender: t.0, receiver_id: t.1, class: t.2, instance: t.3, metadata },
                    ),
                )
            },
            None => invalid_payload(),
        },
    }
}

impl AppchainAnchor {
    /// Decodes the messages that the relayer brought, `encoded`, and stages
    /// them, each with its payload decoded or the reason it did not decode;
    /// refused, with nothing staged, where the list of messages does not
    /// decode.
    pub fn stage_encoded_messages(&mut self, encoded: &[u8]) -> (res: Result<(), AnchorError>)
        ensures
            match scale_raw_messages(encoded@) {
                None => res == Err::<(), AnchorError>(AnchorError::InvalidAppchainMessages) && *final(self) == *old(self),
                Some(s) => if has_unknown_kind(s) {
                    res == Err::<(), AnchorError>(AnchorError::InvalidAppchainMessages) && *final(self) == *old(self)
                } else {
                    &&& res == Ok::<(), AnchorError>(())
                    &&& exists|ms: Seq<(RawMessage, Result<MessagePayload, String>)>|
                        {
                            &&& ms.len() == s.len()
                            &&& forall|i: int|
                                0 <= i < s.len() ==> raw_of(s[i], (#[trigger] ms[i]).0) && payload_decoded(ms[i].0, ms[i].1)
                            &&& #[trigger] messages_staged(
                                view_of(*old(self)),
                                old(self).appchain_messages,
                                final(self).appchain_messages,
                                ms,
                                old(self).permissionless_actions_status.latest_applied_appchain_message_nonce,
                            )
                        }
                    &&& *final(self) == (AppchainAnchor {
                        appchain_messages: final(self).appchain_messages,
                        permissionless_actions_status: PermissionlessActionsStatus {
                            max_nonce_of_staged_appchain_messages: final(self).appchain_messages.highest(),
                            ..old(self).permissionless_actions_status
                        },
                        ..*old(self)
                    })
                },
            },
    {
        let mut raws = match decode_raw_messages(encoded) {
            Ok(r) => r,
            Err(e) => {
                return Err(e);
            },
        };
        let ghost s = scale_raw_messages(encoded@)->0;
        let ghost all = raws@;
        let ghost n = raws@.len();
        let mut decoded: Vec<(RawMessage, Result<MessagePayload, String>)> = Vec::new();
        while raws.len() > 0
            invariant
                n == all.len(),
                n == s.len(),
                raws@.len() <= n,
                raws@ == all.skip(n - raws@.len()),
                decoded@.len() == n - raws@.len(),
                forall|i: int| 0 <= i < n ==> #[trigger] raw_of(s[i], all[i]),
                forall|i: int|
                    0 <= i < decoded@.len() ==> raw_of(s[i], (#[trigger] decoded@[i]).0) && payload_decoded(
                        decoded@[i].0,
                        decoded@[i].1,
                    ),
            decreases raws@.len(),
        {
            let ghost k = n - raws@.len();
            assert(raws@[0] == all[k]);
            let raw = raws.remove(0);
            let payload = decode_payload(&raw);
            decoded.push((raw, payload));
            assert(raw_of(s[k], all[k]));
            assert(raws@ =~= all.skip(n - raws@.len()));
        }
        let ghost ms = decoded@;
        self.internal_stage_appchain_messages(decoded);
        assert(messages_staged(
            view_of(*old(self)),
            old(self).appchain_messages,
            self.appchain_messages,
            ms,
            old(self).permissionless_actions_status.latest_applied_appchain_message_nonce,
        ));
        Ok(())
    }
}


/// The kind byte of a raw message is the position of its kind of payload in
/// the order in which the kinds are declared, as the derived decoding of the
/// kind reads it: 0 a lock, 1 a burnt asset, 2 a planned era, 3 an era
/// payout, 4 a locked non-fungible token; any other byte is no kind.
pub proof fn lemma_kind_byte_is_declared_position(b: u8)
    ensures
        payload_kind(b) == Some(PayloadType::Lock) <==> b == 0,
        payload_kind(b) == Some(PayloadType::BurnAsset) <==> b == 1,
        payload_kind(b) == Some(PayloadType::PlanNewEra) <==> b == 2,
        payload_kind(b) == Some(PayloadType::EraPayout) <==> b == 3,
        payload_kind(b) == Some(PayloadType::LockNft) <==> b == 4,
        payload_kind(b) is None <==> b > 4,
{
}

/// Each raw message that decoding the relayer's messages gives has the kind
/// that its kind byte names in the declared order: where `raw` is the raw
/// message of the decoded triple `t`, the kind byte of `t` is the position
/// of the kind of `raw`.
pub proof fn lemma_raw_message_kind(t: (u64, u8, Seq<u8>), raw: RawMessage)
    requires
        raw_of(t, raw),
    ensures
        raw.payload_type == PayloadType::Lock ==> t.1 == 0,
        raw.payload_type == PayloadType::BurnAsset ==> t.1 == 1,
        raw.payload_type == PayloadType::PlanNewEra ==> t.1 == 2,
        raw.payload_type == PayloadType::EraPayout ==> t.1 == 3,
        raw.payload_type == PayloadType::LockNft ==> t.1 == 4,
        raw.nonce == t.0,
        raw.payload@ == t.2,
{
    lemma_kind_byte_is_declared_position(t.1);
}

} // verus!
