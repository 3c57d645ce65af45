//! The staging of the messages that the appchain sends: each raw message,
//! with its payload decoded, becomes a staged message or a recorded error.
use crate::anchor::AppchainAnchor;
use crate::messages::{AppchainEvent, AppchainMessage, AppchainMessages, MessagePayload, PayloadType, RawMessage};
use crate::permissionless::era_outdated;
use crate::text::{decimal, decimal_string};
use crate::types::{AppchainMessageProcessingResult, PermissionlessActionsStatus};
use vstd::prelude::*;
use vstd::string::StringExecFns;

verus! {

/// Whether `event` is the event that the decoded payload `payload` tells of.
pub open spec fn event_of(event: AppchainEvent, payload: MessagePayload) -> bool {
    match payload {
        MessagePayload::BurnAsset(p) => event == AppchainEvent::NearFungibleTokenBurnt {
            contract_account: p.token_id,
            owner_id_in_appchain: p.sender,
            receiver_id_in_near: p.receiver_id,
            amount: p.amount,
        },
        MessagePayload::Lock(p) => event == AppchainEvent::NativeTokenLocked {
            owner_id_in_appchain: p.sender,
            receiver_id_in_near: p.receiver_id,
            amount: p.amount,
        },
        MessagePayload::PlanNewEra(p) => event == AppchainEvent::EraSwitchPlaned { era_number: p.new_era },
        MessagePayload::EraPayout(p) => event == AppchainEvent::EraRewardConcluded {
            era_number: p.end_era,
            unprofitable_validator_ids: p.excluded_validators,
            offenders: p.offenders,
        },
        MessagePayload::LockNft(p) => event matches AppchainEvent::NonFungibleTokenLocked {
            owner_id_in_appchain,
            receiver_id_in_near,
            class_id,
            instance_id,
            token_metadata,
        } && owner_id_in_appchain == p.sender && receiver_id_in_near == p.receiver_id && class_id@ == decimal(
            p.class as nat,
        ) && instance_id@ == decimal(p.instance as nat) && token_metadata == p.metadata,
    }
}

/// Whether the staged messages `after` are `before` with a message of the
/// nonce `nonce` staged that tells of `payload` (nothing changes where a
/// message with the nonce is staged).
pub open spec fn message_staged(before: AppchainMessages, after: AppchainMessages, nonce: u32, payload: MessagePayload) -> bool {
    if before.messages().contains_key(nonce) {
        after == before
    } else {
        let m = after.messages()[nonce];
        &&& after.messages() == before.messages().insert(nonce, m)
        &&& m.nonce == nonce
        &&& event_of(m.appchain_event, payload)
        &&& after.results() == before.results()
        &&& if before.lowest() == 0 && before.highest() == 0 {
            after.lowest() == nonce && after.highest() == nonce
        } else {
            &&& after.lowest() == if nonce < before.lowest() {
                nonce
            } else {
                before.lowest()
            }
            &&& after.highest() == if nonce > before.highest() {
                nonce
            } else {
                before.highest()
            }
        }
    }
}

/// Whether the staged messages `after` are `before` with an error of the
/// text `text` recorded for the nonce `nonce` (nothing changes where a result
/// is recorded for the nonce).
pub open spec fn error_recorded(before: AppchainMessages, after: AppchainMessages, nonce: u32, text: Seq<char>) -> bool {
    &&& after.messages() == before.messages()
    &&& after.lowest() == before.lowest()
    &&& after.highest() == before.highest()
    &&& if before.results().contains_key(nonce) {
        after.results() == before.results()
    } else {
        &&& after.results() == before.results().insert(nonce, after.results()[nonce])
        &&& (after.results()[nonce] matches AppchainMessageProcessingResult::Error { nonce: n, message: m } && n == nonce
            && m@ == text)
    }
}

/// The text of the error for a payload of the kind `payload_type` that could
/// not be decoded, for the reason `reason`.
pub open spec fn undecodable_message(payload_type: PayloadType, reason: Seq<char>) -> Seq<char> {
    match payload_type {
        PayloadType::BurnAsset => "Failed to deserialize raw message paylod: "@ + reason,
        _ => "Failed to deserialize raw message payload: "@ + reason,
    }
}

/// What the staging of messages reads of an anchor: the first and last eras
/// with a validator set and the number of eras for which a message stays valid.
pub struct AnchorView {
    pub start: u64,
    pub end: u64,
    pub range: u64,
}

/// What the staging of messages reads of `a`.
pub open spec fn view_of(a: AppchainAnchor) -> AnchorView {
    AnchorView {
        start: a.validator_set_histories.start(),
        end: a.validator_set_histories.end(),
        range: a.protocol_settings.maximum_era_count_of_valid_appchain_message,
    }
}

/// Whether `after` is `before` (of the anchor `a`) with the raw message
/// `raw_message`, whose payload decodes to `payload`, staged.
pub open spec fn raw_message_staged(
    a: AnchorView,
    before: AppchainMessages,
    after: AppchainMessages,
    raw_message: RawMessage,
    payload: Result<MessagePayload, String>,
) -> bool {
    let nonce = raw_message.nonce as u32;
    match payload {
        Err(reason) => error_recorded(before, after, nonce, undecodable_message(raw_message.payload_type, reason@)),
        Ok(p) => if p matches MessagePayload::EraPayout(e) && era_outdated(a.start, a.end, e.end_era as u64, a.range) {
            error_recorded(before, after, nonce, "Era number of message 'EraPayout' is too old."@)
        } else {
            message_staged(before, after, nonce, p)
        },
    }
}

/// Whether `after` is `before` (of the anchor `a`) with the raw message of
/// `message` staged where its nonce is above `latest`, and `before` where not.
pub open spec fn one_staged(
    a: AnchorView,
    before: AppchainMessages,
    after: AppchainMessages,
    message: (RawMessage, Result<MessagePayload, String>),
    latest: u32,
) -> bool {
    if message.0.nonce as u32 > latest {
        raw_message_staged(a, before, after, message.0, message.1)
    } else {
        after == before
    }
}

/// Whether `states` are the staged messages before and after each of the
/// raw messages `messages` is staged (of the anchor `a`), in order.
pub open spec fn staged_through(
    a: AnchorView,
    states: Seq<AppchainMessages>,
    messages: Seq<(RawMessage, Result<MessagePayload, String>)>,
    latest: u32,
) -> bool {
    &&& states.len() == messages.len() + 1
    &&& forall|i: int| 0 <= i < messages.len() ==> #[trigger] one_staged(a, states[i], states[i + 1], messages[i], latest)
}

/// Whether `after` is `before` (of the anchor `a`) with the raw messages
/// `messages`, with their decoded payloads, staged in order, leaving out
/// those whose nonce is not above `latest`.
pub open spec fn messages_staged(
    a: AnchorView,
    before: AppchainMessages,
    after: AppchainMessages,
    messages: Seq<(RawMessage, Result<MessagePayload, String>)>,
    latest: u32,
) -> bool {
    exists|states: Seq<AppchainMessages>| #[trigger] staged_through(a, states, messages, latest) && states[0] == before
        && states.last() == after
}

impl AppchainAnchor {
    /// Stages the raw message `raw_message`, whose payload decodes to
    /// `payload` (or fails to decode for the reason given): the message
    /// becomes a staged message that tells of the payload, or, where the
    /// payload did not decode or tells of the payout of an era that is too
    /// old, an error is recorded for its nonce.
    pub fn internal_stage_raw_message(&mut self, raw_message: &RawMessage, payload: Result<MessagePayload, String>)
        ensures
            *final(self) == (AppchainAnchor { appchain_messages: final(self).appchain_messages, ..*old(self) }),
            raw_message_staged(view_of(*old(self)), old(self).appchain_messages, final(self).appchain_messages, *raw_message, payload),
    {
        let nonce = raw_message.nonce as u32;
        match payload {
            Err(reason) => {
                let mut message = String::new();
                match raw_message.payload_type {
                    PayloadType::BurnAsset => message.append("Failed to deserialize raw message paylod: "),
                    _ => message.append("Failed to deserialize raw message payload: "),
                }
                message.append(reason.as_str());
                self.appchain_messages.insert_processing_result(
                    nonce,
                    AppchainMessageProcessingResult::Error { nonce, message },
                );
            },
            Ok(MessagePayload::BurnAsset(p)) => {
                self.appchain_messages.insert_message(
                    AppchainMessage {
                        nonce,
                        appchain_event: AppchainEvent::NearFungibleTokenBurnt {
                            contract_account: p.token_id,
                            owner_id_in_appchain: p.sender,
                            receiver_id_in_near: p.receiver_id,
                            amount: p.amount,
                        },
                    },
                );
            },
            Ok(MessagePayload::Lock(p)) => {
                self.appchain_messages.insert_message(
                    AppchainMessage {
                        nonce,
                        appchain_event: AppchainEvent::NativeTokenLocked {
                            owner_id_in_appchain: p.sender,
                            receiver_id_in_near: p.receiver_id,
                            amount: p.amount,
                        },
                    },
                );
            },
            Ok(MessagePayload::PlanNewEra(p)) => {
                self.appchain_messages.insert_message(
                    AppchainMessage { nonce, appchain_event: AppchainEvent::EraSwitchPlaned { era_number: p.new_era } },
                );
            },
            Ok(MessagePayload::EraPayout(p)) => {
                if self.era_number_is_too_old(
                    p.end_era as u64,
                    self.protocol_settings.maximum_era_count_of_valid_appchain_message,
                ) {
                    let mut message = String::new();
                    message.append("Era number of message 'EraPayout' is too old.");
                    self.appchain_messages.insert_processing_result(
                        nonce,
                        AppchainMessageProcessingResult::Error { nonce, message },
                    );
                } else {
                    self.appchain_messages.insert_message(
                        AppchainMessage {
                            nonce,
                            appchain_event: AppchainEvent::EraRewardConcluded {
                                era_number: p.end_era,
                                unprofitable_validator_ids: p.excluded_validators,
                                offenders: p.offenders,
                            },
                        },
                    );
                }
            },
            Ok(MessagePayload::LockNft(p)) => {
                let class_id = decimal_string(p.class);
                let instance_id = decimal_string(p.instance);
                self.appchain_messages.insert_message(
                    AppchainMessage {
                        nonce,
                        appchain_event: AppchainEvent::NonFungibleTokenLocked {
                            owner_id_in_appchain: p.sender,
                            receiver_id_in_near: p.receiver_id,
                            class_id,
                            instance_id,
                            token_metadata: p.metadata,
                        },
                    },
                );
            },
        }
    }

    /// Stages the raw messages `messages`, each with its payload decoded (or
    /// the reason it did not decode), in order, leaving out those that are
    /// not after the latest applied message, and records the greatest staged
    /// nonce in the status of the permissionless actions.
    pub fn internal_stage_appchain_messages(&mut self, messages: Vec<(RawMessage, Result<MessagePayload, String>)>)
        ensures
            messages_staged(
                view_of(*old(self)),
                old(self).appchain_messages,
                final(self).appchain_messages,
                messages@,
                old(self).permissionless_actions_status.latest_applied_appchain_message_nonce,
            ),
            *final(self) == (AppchainAnchor {
                appchain_messages: final(self).appchain_messages,
                permissionless_actions_status: PermissionlessActionsStatus {
                    max_nonce_of_staged_appchain_messages: final(self).appchain_messages.highest(),
                    ..old(self).permissionless_actions_status
                },
                ..*old(self)
            }),
    {
        let latest = self.permissionless_actions_status.latest_applied_appchain_message_nonce;
        let mut messages = messages;
        let ghost all = messages@;
        let ghost a = *old(self);
        let ghost n: int = all.len() as int;
        let ghost va = view_of(a);
        let ghost mut states: Seq<AppchainMessages> = seq![a.appchain_messages];
        while messages.len() > 0
            invariant
                n == all.len(),
                va == view_of(a),
                messages@.len() <= n,
                messages@ == all.skip(n - messages@.len()),
                latest == a.permissionless_actions_status.latest_applied_appchain_message_nonce,
                *self == (AppchainAnchor { appchain_messages: self.appchain_messages, ..a }),
                staged_through(va, states, all.take(n - messages@.len()), latest),
                states[0] == a.appchain_messages,
                states.last() == self.appchain_messages,
            decreases messages@.len(),
        {
            let ghost k = n - messages@.len();
            let ghost before_call = *self;
            assert(messages@[0] == all[k]);
            let (raw_message, payload) = messages.remove(0);
            if raw_message.nonce as u32 > latest {
                self.internal_stage_raw_message(&raw_message, payload);
            }
            proof {
                let old_states = states;
                states = states.push(self.appchain_messages);
                assert(view_of(before_call) == va);
                assert(one_staged(va, old_states.last(), self.appchain_messages, all[k], latest));
                let taken = all.take(k + 1);
                assert forall|i: int| 0 <= i < taken.len() implies #[trigger] one_staged(va, states[i], states[i + 1], taken[i], latest) by {
                    if i < k {
                        assert(taken[i] == all.take(k)[i]);
                        assert(one_staged(va, old_states[i], old_states[i + 1], all.take(k)[i], latest));
                    } else {
                        assert(taken[i] == all[k]);
                    }
                }
                assert(messages@ =~= all.skip(k + 1));
            }
        }
        assert(all.take(n) =~= all);
        assert(staged_through(va, states, all, latest));
        self.permissionless_actions_status.max_nonce_of_staged_appchain_messages = self.appchain_messages.max_nonce();
    }
}

} // verus!
