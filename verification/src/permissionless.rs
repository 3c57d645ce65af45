//! The actions that anyone may drive: starting and completing the switch
//! of eras and the distribution of rewards, and the age of era numbers.
use crate::anchor::AppchainAnchor;
use crate::distributing_rewards::{distributing_stepped, distributing_step_allowed, is_error};
use crate::errors::AnchorError;
use crate::switching_era::{era_set, switching_step_allowed, switching_stepped};
use crate::text::{decimal, decimal_string};
use crate::types::{
    AccountId, AppchainMessageProcessingResult, MultiTxsOperationProcessingResult, PermissionlessActionsStatus,
    ValidatorSetProcessingStatus,
};
use crate::validator_set::{Delegator, Validator};
use crate::validator_set_of_era::ValidatorSetOfEra;
use vstd::prelude::*;
use vstd::string::StringExecFns;

verus! {

/// The message of a switch that starts while the anchor switches to era `e`.
pub open spec fn still_switching_message(e: u64) -> Seq<char> {
    "Contract is still switching to era "@ + decimal(e as nat) + "."@
}

/// Whether `era_number` is too old for the sets of eras of `a`, where only
/// the last `range` eras count: older than `range` eras before the last era,
/// or, where there are no more eras than that, before the first era.
pub open spec fn era_too_old(a: AppchainAnchor, era_number: u64, range: u64) -> bool {
    era_outdated(a.validator_set_histories.start(), a.validator_set_histories.end(), era_number, range)
}

/// Whether `era_number` is too old for eras from `start` to `end`, where only
/// the last `range` eras count.
pub open spec fn era_outdated(start: u64, end: u64, era_number: u64, range: u64) -> bool {
    if end > range {
        era_number <= end - range
    } else {
        era_number < start
    }
}

/// Whether `after` is `before` with the switch to era `era_number` started:
/// the set of the era is made, where it does not exist, empty and starting at
/// `block_height` and `timestamp`, up to the current staking histories, and
/// the era is recorded as the one the anchor switches to. Nothing changes
/// while the anchor switches to an era.
pub open spec fn era_switch_started(before: AppchainAnchor, after: AppchainAnchor, era_number: u64, block_height: u64, timestamp: u64) -> bool {
    match before.permissionless_actions_status.switching_era_number {
        Some(_) => after == before,
        None => {
            &&& after == (AppchainAnchor {
                validator_set_histories: after.validator_set_histories,
                permissionless_actions_status: PermissionlessActionsStatus {
                    switching_era_number: Some(era_number),
                    ..before.permissionless_actions_status
                },
                ..before
            })
            &&& if before.validator_set_histories.records().contains_key(era_number) {
                after.validator_set_histories == before.validator_set_histories
            } else {
                let s = era_set(after, era_number);
                &&& after.validator_set_histories.records() == before.validator_set_histories.records().insert(
                    era_number,
                    s,
                )
                &&& after.validator_set_histories.start() == before.validator_set_histories.start()
                &&& after.validator_set_histories.end() == if era_number > before.validator_set_histories.end() {
                    era_number
                } else {
                    before.validator_set_histories.end()
                }
                &&& s.wf()
                &&& s.set().era_number == era_number
                &&& s.set().validators == Seq::<Validator>::empty()
                &&& s.set().groups == Seq::<(Seq<char>, Seq<Delegator>)>::empty()
                &&& s.set().total_stake == 0
                &&& s.start_height() == block_height
                &&& s.start_time() == timestamp
                &&& s.history_index() == before.staking_histories.end()
                &&& s.unprofitable_ids() == Seq::<AccountId>::empty()
                &&& s.valid_stake() == 0
                &&& s.validator_reward_map() == Map::<(int, Seq<Seq<char>>), u128>::empty()
                &&& s.delegator_reward_map() == Map::<(int, Seq<Seq<char>>), u128>::empty()
                &&& s.status() == (ValidatorSetProcessingStatus::CopyingFromLastEra {
                    copying_validator_index: 0,
                    copying_delegator_index: 0,
                })
            }
        },
    }
}

impl AppchainAnchor {
    /// Starts the switch to era `era_number` for the message
    /// `appchain_message_nonce`: the set of the era is made, where it does
    /// not exist, empty and starting at `block_height` and `timestamp`, up to
    /// the current staking histories. Refused (with an error for the message,
    /// and nothing changed) while the anchor switches to an era.
    pub fn internal_start_switching_era(
        &mut self,
        era_number: u64,
        appchain_message_nonce: u32,
        block_height: u64,
        timestamp: u64,
    ) -> (res: AppchainMessageProcessingResult)
        requires
            old(self).wf(),
        ensures
            final(self).wf(),
            era_switch_started(*old(self), *final(self), era_number, block_height, timestamp),
            match old(self).permissionless_actions_status.switching_era_number {
                Some(e) => is_error(res, appchain_message_nonce, still_switching_message(e)),
                None => res == (AppchainMessageProcessingResult::Processed { nonce: appchain_message_nonce, message: None }),
            },
    {
        if let Some(e) = self.permissionless_actions_status.switching_era_number {
            let mut message = String::new();
            message.append("Contract is still switching to era ");
            message.append(decimal_string(e as u128).as_str());
            message.append(".");
            return AppchainMessageProcessingResult::Error { nonce: appchain_message_nonce, message };
        }
        if !self.validator_set_histories.contains(&era_number) {
            let index = self.staking_histories.index_range().end_index;
            self.validator_set_histories.insert(
                &era_number,
                ValidatorSetOfEra::new(era_number, index, block_height, timestamp),
            );
        }
        self.permissionless_actions_status.switching_era_number = Some(era_number);
        AppchainMessageProcessingResult::Processed { nonce: appchain_message_nonce, message: None }
    }

    /// Takes one step of the switch to the era that the anchor is switching
    /// to, if any (`Finished` where there is none).
    pub fn try_complete_switching_era(&mut self, block_height: u64, timestamp: u64) -> (res: MultiTxsOperationProcessingResult)
        requires
            old(self).wf(),
            old(self).permissionless_actions_status.switching_era_number matches Some(e) ==> {
                &&& old(self).validator_set_histories.records().contains_key(e)
                &&& switching_step_allowed(*old(self), e)
            },
        ensures
            final(self).wf(),
            match old(self).permissionless_actions_status.switching_era_number {
                Some(e) => switching_stepped(*old(self), *final(self), e, block_height, timestamp, res),
                None => res == MultiTxsOperationProcessingResult::Finished && *final(self) == *old(self),
            },
    {
        match self.permissionless_actions_status.switching_era_number {
            Some(era_number) => self.complete_switching_era(era_number, block_height, timestamp),
            None => MultiTxsOperationProcessingResult::Finished,
        }
    }

    /// Takes one step of the distribution of the reward of the era whose
    /// reward the anchor is distributing, if any, and ends the distribution
    /// once it is completed (`Finished` where there is none).
    pub fn try_complete_distributing_reward(&mut self) -> (res: MultiTxsOperationProcessingResult)
        requires
            old(self).wf(),
            old(self).permissionless_actions_status.distributing_reward_era_number matches Some(e) ==> {
                &&& old(self).validator_set_histories.records().contains_key(e)
                &&& distributing_step_allowed(*old(self), e)
            },
        ensures
            final(self).wf(),
            match old(self).permissionless_actions_status.distributing_reward_era_number {
                Some(e) => if era_set(*old(self), e).status() is Completed {
                    &&& res == MultiTxsOperationProcessingResult::Finished
                    &&& *final(self) == (AppchainAnchor {
                        permissionless_actions_status: PermissionlessActionsStatus {
                            distributing_reward_era_number: None,
                            ..old(self).permissionless_actions_status
                        },
                        ..*old(self)
                    })
                } else {
                    &&& res == MultiTxsOperationProcessingResult::NeedMoreGas
                    &&& distributing_stepped(*old(self), *final(self), e, false)
                },
                None => res == MultiTxsOperationProcessingResult::Finished && *final(self) == *old(self),
            },
    {
        match self.permissionless_actions_status.distributing_reward_era_number {
            Some(era_number) => {
                if self.complete_distributing_reward_of_era(era_number) {
                    self.permissionless_actions_status.distributing_reward_era_number = None;
                    MultiTxsOperationProcessingResult::Finished
                } else {
                    MultiTxsOperationProcessingResult::NeedMoreGas
                }
            },
            None => MultiTxsOperationProcessingResult::Finished,
        }
    }

    /// Whether `era_number` is too old, where only the last `range` eras count.
    pub fn era_number_is_too_old(&self, era_number: u64, range: u64) -> (res: bool)
        ensures
            res == era_too_old(*self, era_number, range),
    {
        let index_range = self.validator_set_histories.index_range();
        if index_range.end_index > range {
            era_number <= index_range.end_index - range
        } else {
            era_number < index_range.start_index
        }
    }

    /// Refuses an era number that is more eras before the last era than
    /// appchain messages stay valid.
    pub fn assert_era_number_is_valid(&self, era_number: u64) -> (res: Result<(), AnchorError>)
        ensures
            ({
                let range = self.protocol_settings.maximum_era_count_of_valid_appchain_message;
                let end = self.validator_set_histories.end();
                res == if end > range && era_number < end - range {
                    Err::<(), AnchorError>(AnchorError::MessageTooOld)
                } else {
                    Ok::<(), AnchorError>(())
                }
            }),
    {
        let range = self.protocol_settings.maximum_era_count_of_valid_appchain_message;
        let latest_era_number = self.validator_set_histories.index_range().end_index;
        if latest_era_number > range && era_number < latest_era_number - range {
            Err(AnchorError::MessageTooOld)
        } else {
            Ok(())
        }
    }
}

} // verus!
