//! The profiles of the validators: their ids in the appchain and what they
//! tell of themselves.
use crate::types::AccountId;
use vstd::prelude::*;

verus! {

/// The profile of a validator.
#[derive(Clone, Debug, PartialEq, Eq)]
pub struct ValidatorProfile {
    /// The validator's id in NEAR protocol.
    pub validator_id: AccountId,
    /// The validator's id in the appchain.
    pub validator_id_in_appchain: String,
    /// What the validator tells of itself, by key.
    pub profile: Vec<(String, String)>,
}

/// The position of the first profile of `s` of the validator `id`, or -1.
pub open spec fn position_of_validator(s: Seq<ValidatorProfile>, id: Seq<char>) -> int
    decreases s.len(),
{
    if s.len() == 0 {
        -1
    } else {
        let p = position_of_validator(s.drop_last(), id);
        if p >= 0 {
            p
        } else if s.last().validator_id@ == id {
            s.len() - 1
        } else {
            -1
        }
    }
}

/// The position of the first profile of `s` with the id in the appchain `id`, or -1.
pub open spec fn position_of_id_in_appchain(s: Seq<ValidatorProfile>, id: Seq<char>) -> int
    decreases s.len(),
{
    if s.len() == 0 {
        -1
    } else {
        let p = position_of_id_in_appchain(s.drop_last(), id);
        if p >= 0 {
            p
        } else if s.last().validator_id_in_appchain@ == id {
            s.len() - 1
        } else {
            -1
        }
    }
}

pub proof fn lemma_position_of_validator_bounds(s: Seq<ValidatorProfile>, id: Seq<char>)
    ensures
        -1 <= position_of_validator(s, id) < s.len(),
        position_of_validator(s, id) >= 0 ==> s[position_of_validator(s, id)].validator_id@ == id,
{
    lemma_position_of_validator(s, id);
}

proof fn lemma_position_of_validator(s: Seq<ValidatorProfile>, id: Seq<char>)
    ensures
        -1 <= position_of_validator(s, id) < s.len(),
        position_of_validator(s, id) >= 0 ==> s[position_of_validator(s, id)].validator_id@ == id,
    decreases s.len(),
{
    if s.len() > 0 {
        lemma_position_of_validator(s.drop_last(), id);
    }
}

proof fn lemma_position_of_id_in_appchain(s: Seq<ValidatorProfile>, id: Seq<char>)
    ensures
        -1 <= position_of_id_in_appchain(s, id) < s.len(),
        position_of_id_in_appchain(s, id) >= 0 ==> s[position_of_id_in_appchain(s, id)].validator_id_in_appchain@ == id,
    decreases s.len(),
{
    if s.len() > 0 {
        lemma_position_of_id_in_appchain(s.drop_last(), id);
    }
}

/// The profiles of the validators.
pub struct ValidatorProfiles {
    profiles: Vec<ValidatorProfile>,
}

impl ValidatorProfiles {
    /// The profiles, in the order in which their validators were first stored.
    pub closed spec fn entries(&self) -> Seq<ValidatorProfile> {
        self.profiles@
    }

    /// No profile.
    pub fn new() -> (res: Self)
        ensures
            res.entries() == Seq::<ValidatorProfile>::empty(),
    {
        ValidatorProfiles { profiles: Vec::new() }
    }

    /// Removes all profiles.
    pub fn clear(&mut self)
        ensures
            final(self).entries() == Seq::<ValidatorProfile>::empty(),
    {
        self.profiles = Vec::new();
    }

    fn find_validator(&self, validator_id: &AccountId) -> (res: Option<usize>)
        ensures
            match res {
                Some(i) => i as int == position_of_validator(self.entries(), validator_id@),
                None => position_of_validator(self.entries(), validator_id@) < 0,
            },
    {
        let mut i: usize = 0;
        while i < self.profiles.len()
            invariant
                i <= self.profiles@.len(),
                position_of_validator(self.profiles@.take(i as int), validator_id@) < 0,
            decreases self.profiles@.len() - i,
        {
            assert(self.profiles@.take(i + 1).drop_last() =~= self.profiles@.take(i as int));
            if self.profiles[i].validator_id == *validator_id {
                proof {
                    lemma_position_prefix_validator(self.profiles@, (i + 1) as int, validator_id@);
                }
                return Some(i);
            }
            i = i + 1;
        }
        assert(self.profiles@.take(i as int) =~= self.profiles@);
        None
    }

    /// The profile of the validator `validator_id`, if any.
    pub fn get(&self, validator_id: &AccountId) -> (res: Option<&ValidatorProfile>)
        ensures
            match res {
                Some(p) => position_of_validator(self.entries(), validator_id@) >= 0 && *p == self.entries()[position_of_validator(
                    self.entries(),
                    validator_id@,
                )],
                None => position_of_validator(self.entries(), validator_id@) < 0,
            },
    {
        proof {
            lemma_position_of_validator(self.profiles@, validator_id@);
        }
        match self.find_validator(validator_id) {
            Some(i) => Some(&self.profiles[i]),
            None => None,
        }
    }

    /// The profile with the id in the appchain `id_in_appchain`, if any.
    pub fn get_by_id_in_appchain(&self, id_in_appchain: &String) -> (res: Option<&ValidatorProfile>)
        ensures
            match res {
                Some(p) => position_of_id_in_appchain(self.entries(), id_in_appchain@) >= 0 && *p == self.entries()[position_of_id_in_appchain(
                    self.entries(),
                    id_in_appchain@,
                )],
                None => position_of_id_in_appchain(self.entries(), id_in_appchain@) < 0,
            },
    {
        let mut i: usize = 0;
        while i < self.profiles.len()
            invariant
                i <= self.profiles@.len(),
                position_of_id_in_appchain(self.profiles@.take(i as int), id_in_appchain@) < 0,
            decreases self.profiles@.len() - i,
        {
            assert(self.profiles@.take(i + 1).drop_last() =~= self.profiles@.take(i as int));
            if self.profiles[i].validator_id_in_appchain == *id_in_appchain {
                proof {
                    lemma_position_prefix_id_in_appchain(self.profiles@, (i + 1) as int, id_in_appchain@);
                }
                return Some(&self.profiles[i]);
            }
            i = i + 1;
        }
        assert(self.profiles@.take(i as int) =~= self.profiles@);
        None
    }

    /// Stores `profile` in place of the profile of its validator, or else
    /// after the last profile.
    pub fn insert(&mut self, profile: ValidatorProfile)
        ensures
            final(self).entries() == if position_of_validator(old(self).entries(), profile.validator_id@) >= 0 {
                old(self).entries().update(position_of_validator(old(self).entries(), profile.validator_id@), profile)
            } else {
                old(self).entries().push(profile)
            },
    {
        proof {
            lemma_position_of_validator(self.profiles@, profile.validator_id@);
        }
        match self.find_validator(&profile.validator_id) {
            Some(i) => {
                self.profiles.set(i, profile);
            },
            None => {
                self.profiles.push(profile);
            },
        }
    }
}

/// The first `n` profiles hold the first profile of `id` where the last of
/// them is of `id` and none before.
proof fn lemma_position_prefix_validator(s: Seq<ValidatorProfile>, n: int, id: Seq<char>)
    requires
        0 < n <= s.len(),
        s[n - 1].validator_id@ == id,
        position_of_validator(s.take(n - 1), id) < 0,
    ensures
        position_of_validator(s, id) == n - 1,
    decreases s.len(),
{
    if n < s.len() {
        assert(s.drop_last().take(n - 1) =~= s.take(n - 1));
        assert(s.drop_last()[n - 1] == s[n - 1]);
        lemma_position_prefix_validator(s.drop_last(), n, id);
    } else {
        assert(s.drop_last() =~= s.take(n - 1));
    }
}

proof fn lemma_position_prefix_id_in_appchain(s: Seq<ValidatorProfile>, n: int, id: Seq<char>)
    requires
        0 < n <= s.len(),
        s[n - 1].validator_id_in_appchain@ == id,
        position_of_id_in_appchain(s.take(n - 1), id) < 0,
    ensures
        position_of_id_in_appchain(s, id) == n - 1,
    decreases s.len(),
{
    if n < s.len() {
        assert(s.drop_last().take(n - 1) =~= s.take(n - 1));
        assert(s.drop_last()[n - 1] == s[n - 1]);
        lemma_position_prefix_id_in_appchain(s.drop_last(), n, id);
    } else {
        assert(s.drop_last() =~= s.take(n - 1));
    }
}

} // verus!
