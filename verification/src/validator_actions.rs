//! What a validator changes of itself: its id in the appchain and its profile.
use crate::account_id_in_appchain::{is_valid_raw_id, AccountIdInAppchain};
use crate::anchor::AppchainAnchor;
use crate::errors::AnchorError;
use crate::profiles::{lemma_position_of_validator_bounds, position_of_validator, ValidatorProfile};
use crate::staking_rules::{fact_recorded, formatted_id, history_room, validator_refusal};
use crate::types::{AccountId, StakingFact};
use vstd::prelude::*;

verus! {

/// Why `a` refuses to change the id in the appchain of the validator
/// `validator_id` to `id`, if it does: the validator must stay in the next
/// validator set and the id, formatted, must be valid.
pub open spec fn id_change_refusal(a: AppchainAnchor, validator_id: AccountId, id: String) -> Option<AnchorError> {
    if validator_refusal(a, validator_id) is Some {
        validator_refusal(a, validator_id)
    } else if !is_valid_raw_id(a.appchain_template_type, formatted_id(Some(id))) {
        Some(AnchorError::InvalidValidatorIdInAppchain(id))
    } else {
        None
    }
}

/// Whether `after` is `before` with the id in the appchain of the validator
/// `validator_id` changed to `id`: the profile holds the id formatted, and
/// the change, with the id as submitted, is recorded and applied to the next
/// validator set.
pub open spec fn id_changed(
    before: AppchainAnchor,
    after: AppchainAnchor,
    validator_id: AccountId,
    id: String,
    block_height: u64,
    timestamp: u64,
) -> bool {
    let entries = before.validator_profiles.entries();
    let p = position_of_validator(entries, validator_id@);
    let changed = after.validator_profiles.entries()[p];
    &&& after.validator_profiles.entries() == entries.update(p, changed)
    &&& changed.validator_id == entries[p].validator_id
    &&& changed.profile@ == entries[p].profile@
    &&& changed.validator_id_in_appchain@ == formatted_id(Some(id))
    &&& fact_recorded(
        AppchainAnchor { validator_profiles: after.validator_profiles, ..before },
        after,
        StakingFact::ValidatorIdInAppchainChanged { validator_id, validator_id_in_appchain: id },
        block_height,
        timestamp,
    )
}

/// A copy of `profile`.
fn copy_profile(profile: &Vec<(String, String)>) -> (res: Vec<(String, String)>)
    ensures
        res@ == profile@,
{
    let mut res: Vec<(String, String)> = Vec::new();
    let mut i: usize = 0;
    while i < profile.len()
        invariant
            i <= profile@.len(),
            res@ == profile@.take(i as int),
        decreases profile@.len() - i,
    {
        let entry = (profile[i].0.clone(), profile[i].1.clone());
        res.push(entry);
        i = i + 1;
        assert(res@ =~= profile@.take(i as int));
    }
    assert(profile@.take(profile@.len() as int) =~= profile@);
    res
}

impl AppchainAnchor {
    /// Changes the id in the appchain of the validator `validator_id` to
    /// `account_id_in_appchain`, at `block_height` and `timestamp`; refused as
    /// `id_change_refusal` says.
    pub fn internal_change_account_id_in_appchain_of_validator(
        &mut self,
        validator_id: &AccountId,
        account_id_in_appchain: &String,
        block_height: u64,
        timestamp: u64,
    ) -> (res: Result<(), AnchorError>)
        requires
            old(self).next_validator_set.wf(),
            history_room(*old(self)),
            id_change_refusal(*old(self), *validator_id, *account_id_in_appchain) is None ==> position_of_validator(
                old(self).validator_profiles.entries(),
                validator_id@,
            ) >= 0,
        ensures
            match id_change_refusal(*old(self), *validator_id, *account_id_in_appchain) {
                Some(e) => res == Err::<(), AnchorError>(e) && *final(self) == *old(self),
                None => res == Ok::<(), AnchorError>(()) && id_changed(
                    *old(self),
                    *final(self),
                    *validator_id,
                    *account_id_in_appchain,
                    block_height,
                    timestamp,
                ),
            },
    {
        match self.assert_validator_id(validator_id) {
            Ok(()) => {},
            Err(e) => {
                return Err(e);
            },
        }
        let formatted = AccountIdInAppchain::new(Some(account_id_in_appchain.clone()), &self.appchain_template_type);
        if !formatted.is_valid() {
            return Err(AnchorError::InvalidValidatorIdInAppchain(account_id_in_appchain.clone()));
        }
        let ghost before = *self;
        proof {
            lemma_position_of_validator_bounds(before.validator_profiles.entries(), validator_id@);
        }
        let current = match self.validator_profiles.get(validator_id) {
            Some(p) => ValidatorProfile {
                validator_id: p.validator_id.clone(),
                validator_id_in_appchain: formatted.to_string(),
                profile: copy_profile(&p.profile),
            },
            None => {
                return Err(AnchorError::InvalidValidatorId(validator_id.clone()));
            },
        };
        self.validator_profiles.insert(current);
        let ghost changed = *self;
        self.record_and_apply_staking_fact(
            StakingFact::ValidatorIdInAppchainChanged {
                validator_id: validator_id.clone(),
                validator_id_in_appchain: account_id_in_appchain.clone(),
            },
            block_height,
            timestamp,
        );
        proof {
            assert(changed == (AppchainAnchor { validator_profiles: self.validator_profiles, ..before }));
        }
        Ok(())
    }

    /// The validator `caller` changes its id in the appchain to
    /// `account_id_in_appchain`, at `block_height` and `timestamp`.
    pub fn set_validator_id_in_appchain(
        &mut self,
        caller: &AccountId,
        account_id_in_appchain: &String,
        block_height: u64,
        timestamp: u64,
    ) -> (res: Result<(), AnchorError>)
        requires
            old(self).next_validator_set.wf(),
            history_room(*old(self)),
            id_change_refusal(*old(self), *caller, *account_id_in_appchain) is None ==> position_of_validator(
                old(self).validator_profiles.entries(),
                caller@,
            ) >= 0,
        ensures
            match id_change_refusal(*old(self), *caller, *account_id_in_appchain) {
                Some(e) => res == Err::<(), AnchorError>(e) && *final(self) == *old(self),
                None => res == Ok::<(), AnchorError>(()) && id_changed(
                    *old(self),
                    *final(self),
                    *caller,
                    *account_id_in_appchain,
                    block_height,
                    timestamp,
                ),
            },
    {
        self.internal_change_account_id_in_appchain_of_validator(caller, account_id_in_appchain, block_height, timestamp)
    }

    /// The validator `caller` replaces what its profile tells of it by
    /// `profile`; refused unless it stays in the next validator set.
    pub fn set_validator_profile(&mut self, caller: &AccountId, profile: Vec<(String, String)>) -> (res: Result<
        (),
        AnchorError,
    >)
        requires
            validator_refusal(*old(self), *caller) is None ==> position_of_validator(
                old(self).validator_profiles.entries(),
                caller@,
            ) >= 0,
        ensures
            match validator_refusal(*old(self), *caller) {
                Some(e) => res == Err::<(), AnchorError>(e) && *final(self) == *old(self),
                None => {
                    let entries = old(self).validator_profiles.entries();
                    let p = position_of_validator(entries, caller@);
                    &&& res == Ok::<(), AnchorError>(())
                    &&& final(self).validator_profiles.entries() == entries.update(
                        p,
                        ValidatorProfile { profile, ..entries[p] },
                    )
                    &&& *final(self) == (AppchainAnchor { validator_profiles: final(self).validator_profiles, ..*old(self) })
                },
            },
    {
        match self.assert_validator_id(caller) {
            Ok(()) => {},
            Err(e) => {
                return Err(e);
            },
        }
        proof {
            lemma_position_of_validator_bounds(old(self).validator_profiles.entries(), caller@);
        }
        let current = match self.validator_profiles.get(caller) {
            Some(p) => ValidatorProfile {
                validator_id: p.validator_id.clone(),
                validator_id_in_appchain: p.validator_id_in_appchain.clone(),
                profile,
            },
            None => {
                return Err(AnchorError::InvalidValidatorId(caller.clone()));
            },
        };
        self.validator_profiles.insert(current);
        Ok(())
    }

    /// The owner changes the id in the appchain of the validator
    /// `validator_id` to `account_id_in_appchain`, at `block_height` and
    /// `timestamp`; refused where `caller` is not the owner.
    pub fn change_account_id_in_appchain_of_validator(
        &mut self,
        caller: &AccountId,
        validator_id: &AccountId,
        account_id_in_appchain: &String,
        block_height: u64,
        timestamp: u64,
    ) -> (res: Result<(), AnchorError>)
        requires
            old(self).next_validator_set.wf(),
            history_room(*old(self)),
            id_change_refusal(*old(self), *validator_id, *account_id_in_appchain) is None ==> position_of_validator(
                old(self).validator_profiles.entries(),
                validator_id@,
            ) >= 0,
        ensures
            caller@ != old(self).owner@ ==> res == Err::<(), AnchorError>(AnchorError::NotAuthorized)
                && *final(self) == *old(self),
            caller@ == old(self).owner@ ==> match id_change_refusal(*old(self), *validator_id, *account_id_in_appchain) {
                Some(e) => res == Err::<(), AnchorError>(e) && *final(self) == *old(self),
                None => res == Ok::<(), AnchorError>(()) && id_changed(
                    *old(self),
                    *final(self),
                    *validator_id,
                    *account_id_in_appchain,
                    block_height,
                    timestamp,
                ),
            },
    {
        if *caller != self.owner {
            return Err(AnchorError::NotAuthorized);
        }
        self.internal_change_account_id_in_appchain_of_validator(validator_id, account_id_in_appchain, block_height, timestamp)
    }
}

} // verus!
