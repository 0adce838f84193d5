//! The closed set of domain failures, the numeric code of each, and the
//! failures of the processor as a whole.

use solana_program::program_error::ProgramError;
use vstd::prelude::*;

verus! {

/// A domain failure of the reward program. The host sees it as a number:
/// the position of the variant in this list, counted from zero.
#[derive(Debug, Copy, Clone, PartialEq, Eq, Structural)]
pub enum ClaudCoinError {
    /// The instruction is not one of the program's.
    InvalidInstruction,
    /// The balance of a slot is below what exempts it from rent.
    NotRentExempt,
    /// An amount is not the one that was expected.
    ExpectedAmountMismatch,
    /// A sum would leave 64 bits.
    AmountOverflow,
    /// The user has claimed the achievement before.
    AchievementAlreadyClaimed,
    /// The slot holds another achievement than the one named.
    AchievementNotFound,
    /// The user's score is below the score that the achievement requires.
    AchievementRequirementsNotMet,
    /// The reward type is none of 0, 1 and 2.
    InvalidRewardType,
    /// The user's last recorded usage is less than 60 seconds old.
    ToolUsageTooFrequent,
    /// The complexity score is above 1000.
    InvalidComplexityScore,
    /// The user has no statistics yet.
    UserStatsNotInitialized,
    /// The achievement can no longer be claimed.
    AchievementNotActive,
    /// The signer is not the authority of the mint.
    InvalidAuthority,
}

impl ClaudCoinError {
    /// The number under which the host knows this failure.
    pub open spec fn spec_code(self) -> u32 {
        match self {
            ClaudCoinError::InvalidInstruction => 0,
            ClaudCoinError::NotRentExempt => 1,
            ClaudCoinError::ExpectedAmountMismatch => 2,
            ClaudCoinError::AmountOverflow => 3,
            ClaudCoinError::AchievementAlreadyClaimed => 4,
            ClaudCoinError::AchievementNotFound => 5,
            ClaudCoinError::AchievementRequirementsNotMet => 6,
            ClaudCoinError::InvalidRewardType => 7,
            ClaudCoinError::ToolUsageTooFrequent => 8,
            ClaudCoinError::InvalidComplexityScore => 9,
            ClaudCoinError::UserStatsNotInitialized => 10,
            ClaudCoinError::AchievementNotActive => 11,
            ClaudCoinError::InvalidAuthority => 12,
        }
    }

    /// The failure that the host knows under `code`, if there is one.
    pub open spec fn spec_from_code(code: u32) -> Option<ClaudCoinError> {
        if code == 0 {
            Some(ClaudCoinError::InvalidInstruction)
        } else if code == 1 {
            Some(ClaudCoinError::NotRentExempt)
        } else if code == 2 {
            Some(ClaudCoinError::ExpectedAmountMismatch)
        } else if code == 3 {
            Some(ClaudCoinError::AmountOverflow)
        } else if code == 4 {
            Some(ClaudCoinError::AchievementAlreadyClaimed)
        } else if code == 5 {
            Some(ClaudCoinError::AchievementNotFound)
        } else if code == 6 {
            Some(ClaudCoinError::AchievementRequirementsNotMet)
        } else if code == 7 {
            Some(ClaudCoinError::InvalidRewardType)
        } else if code == 8 {
            Some(ClaudCoinError::ToolUsageTooFrequent)
        } else if code == 9 {
            Some(ClaudCoinError::InvalidComplexityScore)
        } else if code == 10 {
            Some(ClaudCoinError::UserStatsNotInitialized)
        } else if code == 11 {
            Some(ClaudCoinError::AchievementNotActive)
        } else if code == 12 {
            Some(ClaudCoinError::InvalidAuthority)
        } else {
            None
        }
    }

    /// The number under which the host knows this failure.
    pub fn code(self) -> (c: u32)
        ensures
            c == self.spec_code(),
            c <= 12,
    {
        match self {
            ClaudCoinError::InvalidInstruction => 0,
            ClaudCoinError::NotRentExempt => 1,
            ClaudCoinError::ExpectedAmountMismatch => 2,
            ClaudCoinError::AmountOverflow => 3,
            ClaudCoinError::AchievementAlreadyClaimed => 4,
            ClaudCoinError::AchievementNotFound => 5,
            ClaudCoinError::AchievementRequirementsNotMet => 6,
            ClaudCoinError::InvalidRewardType => 7,
            ClaudCoinError::ToolUsageTooFrequent => 8,
            ClaudCoinError::InvalidComplexityScore => 9,
            ClaudCoinError::UserStatsNotInitialized => 10,
            ClaudCoinError::AchievementNotActive => 11,
            ClaudCoinError::InvalidAuthority => 12,
        }
    }

    /// The failure that the host knows under `code`; `None` for a number
    /// that stands for none.
    pub fn from_code(code: u32) -> (e: Option<ClaudCoinError>)
        ensures
            e == Self::spec_from_code(code),
            e is Some <==> code <= 12,
            e matches Some(found) ==> found.spec_code() == code,
    {
        match code {
            0 => Some(ClaudCoinError::InvalidInstruction),
            1 => Some(ClaudCoinError::NotRentExempt),
            2 => Some(ClaudCoinError::ExpectedAmountMismatch),
            3 => Some(ClaudCoinError::AmountOverflow),
            4 => Some(ClaudCoinError::AchievementAlreadyClaimed),
            5 => Some(ClaudCoinError::AchievementNotFound),
            6 => Some(ClaudCoinError::AchievementRequirementsNotMet),
            7 => Some(ClaudCoinError::InvalidRewardType),
            8 => Some(ClaudCoinError::ToolUsageTooFrequent),
            9 => Some(ClaudCoinError::InvalidComplexityScore),
            10 => Some(ClaudCoinError::UserStatsNotInitialized),
            11 => Some(ClaudCoinError::AchievementNotActive),
            12 => Some(ClaudCoinError::InvalidAuthority),
            _ => None,
        }
    }
}

/// The codes are dense and distinct: each failure is found again under its
/// own code, and two failures never share one.
pub proof fn lemma_codes_are_distinct(a: ClaudCoinError, b: ClaudCoinError)
    ensures
        ClaudCoinError::spec_from_code(a.spec_code()) == Some(a),
        a.spec_code() == b.spec_code() ==> a == b,
{
}

/// Why the processor refused an instruction.
#[derive(Debug, PartialEq)]
pub enum ProcessError {
    /// The instruction bytes do not spell one of the five commands.
    InvalidInstructionData,
    /// The instruction reads more accounts than were handed in.
    NotEnoughAccountKeys,
    /// The acting account did not sign the transaction.
    MissingRequiredSignature,
    /// The account handed in as the rent oracle is not one.
    InvalidArgument,
    /// The rent rule cannot be evaluated within 64 bits.
    ArithmeticOverflow,
    /// A slot does not hold a well-formed record of the expected kind.
    InvalidAccountData,
    /// A slot that already holds bytes is shorter than the record to store.
    AccountDataTooSmall,
    /// The host could not tell the time; its own error is carried along.
    Clock(ProgramError),
    /// A rule of the reward program was broken.
    Custom(ClaudCoinError),
}

impl From<ClaudCoinError> for ProcessError {
    fn from(e: ClaudCoinError) -> (r: ProcessError) {
        ProcessError::Custom(e)
    }
}

impl vstd::std_specs::convert::FromSpecImpl<ClaudCoinError> for ProcessError {
    open spec fn obeys_from_spec() -> bool {
        true
    }

    open spec fn from_spec(e: ClaudCoinError) -> ProcessError {
        ProcessError::Custom(e)
    }
}

} // verus!
