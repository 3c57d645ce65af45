//! Decimal text of numbers, for the messages of the anchor.
use crate::types::ValidatorSetProcessingStatus;
use vstd::prelude::*;
use vstd::string::StringExecFns;

verus! {

/// The character of the decimal digit `d`.
pub open spec fn digit_char(d: int) -> char {
    if d == 0 {
        '0'
    } else if d == 1 {
        '1'
    } else if d == 2 {
        '2'
    } else if d == 3 {
        '3'
    } else if d == 4 {
        '4'
    } else if d == 5 {
        '5'
    } else if d == 6 {
        '6'
    } else if d == 7 {
        '7'
    } else if d == 8 {
        '8'
    } else {
        '9'
    }
}

/// The decimal digits of `n`, most significant first, without leading zeros.
pub open spec fn decimal(n: nat) -> Seq<char>
    decreases n,
{
    if n < 10 {
        seq![digit_char(n as int)]
    } else {
        decimal(n / 10).push(digit_char((n % 10) as int))
    }
}

fn digit_str(d: u128) -> (s: &'static str)
    requires
        d < 10,
    ensures
        s@ == seq![digit_char(d as int)],
{
    if d == 0 {
        proof {
            reveal_strlit("0");
        }
        "0"
    } else if d == 1 {
        proof {
            reveal_strlit("1");
        }
        "1"
    } else if d == 2 {
        proof {
            reveal_strlit("2");
        }
        "2"
    } else if d == 3 {
        proof {
            reveal_strlit("3");
        }
        "3"
    } else if d == 4 {
        proof {
            reveal_strlit("4");
        }
        "4"
    } else if d == 5 {
        proof {
            reveal_strlit("5");
        }
        "5"
    } else if d == 6 {
        proof {
            reveal_strlit("6");
        }
        "6"
    } else if d == 7 {
        proof {
            reveal_strlit("7");
        }
        "7"
    } else if d == 8 {
        proof {
            reveal_strlit("8");
        }
        "8"
    } else {
        proof {
            reveal_strlit("9");
        }
        "9"
    }
}

/// The decimal text of `n`.
pub fn decimal_string(n: u128) -> (s: String)
    ensures
        s@ == decimal(n as nat),
    decreases n,
{
    if n < 10 {
        let mut s = String::new();
        s.append(digit_str(n));
        assert(s@ =~= decimal(n as nat));
        s
    } else {
        let mut s = decimal_string(n / 10);
        s.append(digit_str(n % 10));
        assert(s@ =~= decimal(n as nat));
        s
    }
}

/// The text of a `u64` index as a wrapped JSON number shows it.
pub open spec fn index_text(n: u64) -> Seq<char> {
    "U64("@ + decimal(n as nat) + ")"@
}

/// The text of a processing status, naming its variant and fields.
pub open spec fn status_text(s: ValidatorSetProcessingStatus) -> Seq<char> {
    match s {
        ValidatorSetProcessingStatus::CopyingFromLastEra { copying_validator_index: a, copying_delegator_index: b } =>
            "CopyingFromLastEra { copying_validator_index: "@ + index_text(a) + ", copying_delegator_index: "@
                + index_text(b) + " }"@,
        ValidatorSetProcessingStatus::ApplyingStakingHistory { applying_index: a } =>
            "ApplyingStakingHistory { applying_index: "@ + index_text(a) + " }"@,
        ValidatorSetProcessingStatus::ReadyForDistributingReward => "ReadyForDistributingReward"@,
        ValidatorSetProcessingStatus::DistributingReward {
            appchain_message_nonce: n,
            distributing_validator_index: a,
            distributing_delegator_index: b,
        } => "DistributingReward { appchain_message_nonce: "@ + decimal(n as nat) + ", distributing_validator_index: "@
            + index_text(a) + ", distributing_delegator_index: "@ + index_text(b) + " }"@,
        ValidatorSetProcessingStatus::Completed => "Completed"@,
        ValidatorSetProcessingStatus::UnbondingValidator { unbonding_validator_index: a, unbonding_delegator_index: b } =>
            "UnbondingValidator { unbonding_validator_index: "@ + index_text(a) + ", unbonding_delegator_index: "@
                + index_text(b) + " }"@,
        ValidatorSetProcessingStatus::AutoUnbondingValidator { unbonding_validator_index: a, unbonding_delegator_index: b } =>
            "AutoUnbondingValidator { unbonding_validator_index: "@ + index_text(a) + ", unbonding_delegator_index: "@
                + index_text(b) + " }"@,
        ValidatorSetProcessingStatus::CheckingForAutoUnbondingValidator { unprofitable_validator_index: a } =>
            "CheckingForAutoUnbondingValidator { unprofitable_validator_index: "@ + index_text(a) + " }"@,
    }
}

fn append_index(s: &mut String, n: u64)
    ensures
        final(s)@ == old(s)@ + index_text(n),
{
    s.append("U64(");
    s.append(decimal_string(n as u128).as_str());
    s.append(")");
}

/// The text of the processing status `status`.
pub fn status_string(status: &ValidatorSetProcessingStatus) -> (res: String)
    ensures
        res@ == status_text(*status),
{
    let mut s = String::new();
    match *status {
        ValidatorSetProcessingStatus::CopyingFromLastEra { copying_validator_index: a, copying_delegator_index: b } => {
            s.append("CopyingFromLastEra { copying_validator_index: ");
            append_index(&mut s, a);
            s.append(", copying_delegator_index: ");
            append_index(&mut s, b);
            s.append(" }");
        },
        ValidatorSetProcessingStatus::ApplyingStakingHistory { applying_index: a } => {
            s.append("ApplyingStakingHistory { applying_index: ");
            append_index(&mut s, a);
            s.append(" }");
        },
        ValidatorSetProcessingStatus::ReadyForDistributingReward => {
            s.append("ReadyForDistributingReward");
        },
        ValidatorSetProcessingStatus::DistributingReward {
            appchain_message_nonce: n,
            distributing_validator_index: a,
            distributing_delegator_index: b,
        } => {
            s.append("DistributingReward { appchain_message_nonce: ");
            s.append(decimal_string(n as u128).as_str());
            s.append(", distributing_validator_index: ");
            append_index(&mut s, a);
            s.append(", distributing_delegator_index: ");
            append_index(&mut s, b);
            s.append(" }");
        },
        ValidatorSetProcessingStatus::Completed => {
            s.append("Completed");
        },
        ValidatorSetProcessingStatus::UnbondingValidator { unbonding_validator_index: a, unbonding_delegator_index: b } => {
            s.append("UnbondingValidator { unbonding_validator_index: ");
            append_index(&mut s, a);
            s.append(", unbonding_delegator_index: ");
            append_index(&mut s, b);
            s.append(" }");
        },
        ValidatorSetProcessingStatus::AutoUnbondingValidator { unbonding_validator_index: a, unbonding_delegator_index: b } => {
            s.append("AutoUnbondingValidator { unbonding_validator_index: ");
            append_index(&mut s, a);
            s.append(", unbonding_delegator_index: ");
            append_index(&mut s, b);
            s.append(" }");
        },
        ValidatorSetProcessingStatus::CheckingForAutoUnbondingValidator { unprofitable_validator_index: a } => {
            s.append("CheckingForAutoUnbondingValidator { unprofitable_validator_index: ");
            append_index(&mut s, a);
            s.append(" }");
        },
    }
    assert(s@ =~= status_text(*status));
    s
}

} // verus!
