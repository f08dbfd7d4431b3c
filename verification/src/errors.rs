//! Error taxonomy of the hunt engine, the reward coordinator and the NFT
//! registry, together with human-readable messages for the rich hunt errors.

use vstd::prelude::*;
use vstd::string::StringExecFns;

verus! {

/// Flat error codes surfaced by the hunt engine.
#[derive(Clone, Copy, Debug, PartialEq, Eq, Structural)]
pub enum HuntErrorCode {
    HuntNotFound,
    ClueNotFound,
    InvalidHuntStatus,
    PlayerNotRegistered,
    ClueAlreadyCompleted,
    InvalidAnswer,
    HuntNotActive,
    Unauthorized,
    InsufficientRewardPool,
    DuplicateRegistration,
    InvalidTitle,
    InvalidDescription,
    InvalidQuestion,
    TooManyClues,
    NoCluesAdded,
    HuntNotCompleted,
    RewardAlreadyClaimed,
    NoRewardsConfigured,
    RewardDistributionFailed,
}

/// Error codes surfaced by the reward distribution coordinator.
#[derive(Clone, Copy, Debug, PartialEq, Eq, Structural)]
pub enum RewardErrorCode {
    NotInitialized,
    InsufficientPool,
    AlreadyDistributed,
    TransferFailed,
    InvalidAmount,
    InvalidConfig,
    NftMintFailed,
}

/// Error codes surfaced by the NFT registry.
#[derive(Clone, Copy, Debug, PartialEq, Eq, Structural)]
pub enum NftErrorCode {
    NftNotFound,
    Unauthorized,
    NotOwner,
    InvalidRecipient,
}

/// Hunt errors carrying context, each reducible to a [`HuntErrorCode`].
#[derive(Clone, Copy, Debug, PartialEq, Eq, Structural)]
pub enum HuntError {
    HuntNotFound { hunt_id: u64 },
    ClueNotFound { hunt_id: u64 },
    InvalidHuntStatus,
    PlayerNotRegistered { hunt_id: u64 },
    ClueAlreadyCompleted { hunt_id: u64 },
    InvalidAnswer,
    HuntNotActive { hunt_id: u64 },
    Unauthorized,
    InsufficientRewardPool { required: i128, available: i128 },
    DuplicateRegistration { hunt_id: u64 },
    TooManyClues { hunt_id: u64, limit: u32 },
}

/// The flat code that a contextual hunt error reduces to.
pub open spec fn spec_code(e: HuntError) -> HuntErrorCode {
    match e {
        HuntError::HuntNotFound { .. } => HuntErrorCode::HuntNotFound,
        HuntError::ClueNotFound { .. } => HuntErrorCode::ClueNotFound,
        HuntError::InvalidHuntStatus => HuntErrorCode::InvalidHuntStatus,
        HuntError::PlayerNotRegistered { .. } => HuntErrorCode::PlayerNotRegistered,
        HuntError::ClueAlreadyCompleted { .. } => HuntErrorCode::ClueAlreadyCompleted,
        HuntError::InvalidAnswer => HuntErrorCode::InvalidAnswer,
        HuntError::HuntNotActive { .. } => HuntErrorCode::HuntNotActive,
        HuntError::Unauthorized => HuntErrorCode::Unauthorized,
        HuntError::InsufficientRewardPool { .. } => HuntErrorCode::InsufficientRewardPool,
        HuntError::DuplicateRegistration { .. } => HuntErrorCode::DuplicateRegistration,
        HuntError::TooManyClues { .. } => HuntErrorCode::TooManyClues,
    }
}

/// The decimal digit character for `d` in `0..10`.
pub open spec fn spec_digit(d: int) -> char {
    if d == 0 {
        '0'
    } else if d == 1 {
        '1'
    } else if d == 2 {
        '2'
    } else if d == 3 {
        '3'
    } else if d == 4 {
        '4'
    } else if d == 5 {
        '5'
    } else if d == 6 {
        '6'
    } else if d == 7 {
        '7'
    } else if d == 8 {
        '8'
    } else {
        '9'
    }
}

/// The decimal representation of a natural number, without leading zeros
/// (a single `'0'` for zero).
pub open spec fn spec_dec(n: nat) -> Seq<char>
    decreases n,
{
    if n < 10 {
        seq![spec_digit(n as int)]
    } else {
        spec_dec(n / 10) + seq![spec_digit((n % 10) as int)]
    }
}

/// The decimal representation of a signed number: a `'-'` sign followed by
/// the magnitude for negatives, the plain magnitude otherwise.
pub open spec fn spec_dec_signed(v: int) -> Seq<char> {
    if v < 0 {
        seq!['-'] + spec_dec((-v) as nat)
    } else {
        spec_dec(v as nat)
    }
}

/// The message text of each contextual hunt error.
pub open spec fn spec_message(e: HuntError) -> Seq<char> {
    match e {
        HuntError::HuntNotFound { hunt_id } => "Hunt not found: ID "@ + spec_dec(hunt_id as nat),
        HuntError::ClueNotFound { hunt_id } => "Clue not found for hunt "@ + spec_dec(
            hunt_id as nat,
        ),
        HuntError::InvalidHuntStatus => "Invalid hunt status"@,
        HuntError::PlayerNotRegistered { hunt_id } => "Player not registered for hunt "@
            + spec_dec(hunt_id as nat),
        HuntError::ClueAlreadyCompleted { hunt_id } => "Clue already completed for hunt "@
            + spec_dec(hunt_id as nat),
        HuntError::InvalidAnswer => "Invalid answer submitted"@,
        HuntError::HuntNotActive { hunt_id } => "Hunt not active: ID "@ + spec_dec(hunt_id as nat),
        HuntError::Unauthorized => "Unauthorized access"@,
        HuntError::InsufficientRewardPool { required, available } => {
            "Insufficient reward pool: required "@ + spec_dec_signed(required as int)
                + ", available "@ + spec_dec_signed(available as int)
        },
        HuntError::DuplicateRegistration { hunt_id } => "Duplicate registration for hunt "@
            + spec_dec(hunt_id as nat),
        HuntError::TooManyClues { hunt_id, limit } => "Too many clues for hunt "@ + spec_dec(
            hunt_id as nat,
        ) + ": limit "@ + spec_dec(limit as nat),
    }
}

/// Appends the decimal digit character for `d` to `s`.
fn append_digit(s: &mut String, d: u8)
    requires
        d < 10,
    ensures
        final(s)@ == old(s)@ + seq![spec_digit(d as int)],
{
    if d == 0 {
        s.append("0");
        proof {
            reveal_strlit("0");
            assert(old(s)@ + "0"@ =~= old(s)@ + seq![spec_digit(d as int)]);
        }
    } else if d == 1 {
        s.append("1");
        proof {
            reveal_strlit("1");
            assert(old(s)@ + "1"@ =~= old(s)@ + seq![spec_digit(d as int)]);
        }
    } else if d == 2 {
        s.append("2");
        proof {
            reveal_strlit("2");
            assert(old(s)@ + "2"@ =~= old(s)@ + seq![spec_digit(d as int)]);
        }
    } else if d == 3 {
        s.append("3");
        proof {
            reveal_strlit("3");
            assert(old(s)@ + "3"@ =~= old(s)@ + seq![spec_digit(d as int)]);
        }
    } else if d == 4 {
        s.append("4");
        proof {
            reveal_strlit("4");
            assert(old(s)@ + "4"@ =~= old(s)@ + seq![spec_digit(d as int)]);
        }
    } else if d == 5 {
        s.append("5");
        proof {
            reveal_strlit("5");
            assert(old(s)@ + "5"@ =~= old(s)@ + seq![spec_digit(d as int)]);
        }
    } else if d == 6 {
        s.append("6");
        proof {
            reveal_strlit("6");
            assert(old(s)@ + "6"@ =~= old(s)@ + seq![spec_digit(d as int)]);
        }
    } else if d == 7 {
        s.append("7");
        proof {
            reveal_strlit("7");
            assert(old(s)@ + "7"@ =~= old(s)@ + seq![spec_digit(d as int)]);
        }
    } else if d == 8 {
        s.append("8");
        proof {
            reveal_strlit("8");
            assert(old(s)@ + "8"@ =~= old(s)@ + seq![spec_digit(d as int)]);
        }
    } else {
        s.append("9");
        proof {
            reveal_strlit("9");
            assert(old(s)@ + "9"@ =~= old(s)@ + seq![spec_digit(d as int)]);
        }
    }
}

/// Appends the decimal representation of `n` to `s`.
fn append_dec(s: &mut String, n: u128)
    ensures
        final(s)@ == old(s)@ + spec_dec(n as nat),
    decreases n,
{
    if n >= 10 {
        append_dec(s, n / 10);
        append_digit(s, (n % 10) as u8);
        proof {
            assert((old(s)@ + spec_dec((n / 10) as nat)) + seq![spec_digit((n % 10) as int)]
                =~= old(s)@ + (spec_dec((n / 10) as nat) + seq![spec_digit((n % 10) as int)]));
        }
    } else {
        append_digit(s, n as u8);
    }
}

/// Appends the decimal representation of a signed value to `s`.
fn append_dec_signed(s: &mut String, v: i128)
    ensures
        final(s)@ == old(s)@ + spec_dec_signed(v as int),
{
    if v >= 0 {
        append_dec(s, v as u128);
    } else {
        s.append("-");
        let m: u128 = if v == i128::MIN {
            170141183460469231731687303715884105728u128
        } else {
            (-v) as u128
        };
        assert(m == -(v as int));
        append_dec(s, m);
        proof {
            reveal_strlit("-");
            assert("-"@ =~= seq!['-']);
            assert((old(s)@ + "-"@) + spec_dec(m as nat) =~= old(s)@ + (seq!['-'] + spec_dec(
                m as nat,
            )));
        }
    }
}

impl HuntError {
    /// The flat error code that this contextual error reduces to.
    pub fn code(&self) -> (r: HuntErrorCode)
        ensures
            r == spec_code(*self),
    {
        match *self {
            HuntError::HuntNotFound { .. } => HuntErrorCode::HuntNotFound,
            HuntError::ClueNotFound { .. } => HuntErrorCode::ClueNotFound,
            HuntError::InvalidHuntStatus => HuntErrorCode::InvalidHuntStatus,
            HuntError::PlayerNotRegistered { .. } => HuntErrorCode::PlayerNotRegistered,
            HuntError::ClueAlreadyCompleted { .. } => HuntErrorCode::ClueAlreadyCompleted,
            HuntError::InvalidAnswer => HuntErrorCode::InvalidAnswer,
            HuntError::HuntNotActive { .. } => HuntErrorCode::HuntNotActive,
            HuntError::Unauthorized => HuntErrorCode::Unauthorized,
            HuntError::InsufficientRewardPool { .. } => HuntErrorCode::InsufficientRewardPool,
            HuntError::DuplicateRegistration { .. } => HuntErrorCode::DuplicateRegistration,
            HuntError::TooManyClues { .. } => HuntErrorCode::TooManyClues,
        }
    }

    /// The human-readable message for this error.
    pub fn message(&self) -> (r: String)
        ensures
            r@ == spec_message(*self),
    {
        match *self {
            HuntError::HuntNotFound { hunt_id } => {
                let mut s = String::from_str("Hunt not found: ID ");
                append_dec(&mut s, hunt_id as u128);
                s
            },
            HuntError::ClueNotFound { hunt_id } => {
                let mut s = String::from_str("Clue not found for hunt ");
                append_dec(&mut s, hunt_id as u128);
                s
            },
            HuntError::InvalidHuntStatus => String::from_str("Invalid hunt status"),
            HuntError::PlayerNotRegistered { hunt_id } => {
                let mut s = String::from_str("Player not registered for hunt ");
                append_dec(&mut s, hunt_id as u128);
                s
            },
            HuntError::ClueAlreadyCompleted { hunt_id } => {
                let mut s = String::from_str("Clue already completed for hunt ");
                append_dec(&mut s, hunt_id as u128);
                s
            },
            HuntError::InvalidAnswer => String::from_str("Invalid answer submitted"),
            HuntError::HuntNotActive { hunt_id } => {
                let mut s = String::from_str("Hunt not active: ID ");
                append_dec(&mut s, hunt_id as u128);
                s
            },
            HuntError::Unauthorized => String::from_str("Unauthorized access"),
            HuntError::InsufficientRewardPool { required, available } => {
                let mut s = String::from_str("Insufficient reward pool: required ");
                append_dec_signed(&mut s, required);
                s.append(", available ");
                append_dec_signed(&mut s, available);
                s
            },
            HuntError::DuplicateRegistration { hunt_id } => {
                let mut s = String::from_str("Duplicate registration for hunt ");
                append_dec(&mut s, hunt_id as u128);
                s
            },
            HuntError::TooManyClues { hunt_id, limit } => {
                let mut s = String::from_str("Too many clues for hunt ");
                append_dec(&mut s, hunt_id as u128);
                s.append(": limit ");
                append_dec(&mut s, limit as u128);
                s
            },
        }
    }
}

impl From<HuntError> for HuntErrorCode {
    fn from(e: HuntError) -> (r: HuntErrorCode) {
        e.code()
    }
}

impl vstd::std_specs::convert::FromSpecImpl<HuntError> for HuntErrorCode {
    open spec fn obeys_from_spec() -> bool {
        true
    }

    open spec fn from_spec(e: HuntError) -> HuntErrorCode {
        spec_code(e)
    }
}

} // verus!
