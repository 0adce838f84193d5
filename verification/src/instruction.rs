//! The five commands of the program and their wire form.
//!
//! The first byte of an instruction names the command. The fields follow at
//! fixed places, integers lowest byte first. Bytes behind the last field are
//! not read.

use crate::error::ProcessError;
use crate::wire::{
    array32, lemma_array32_of_view, lemma_u16_round_trip, lemma_u64_round_trip, push_bytes32,
    push_u16_le, push_u64_le, read_bytes32, read_u16_le, read_u64_le, u16_bytes, u16_le, u64_bytes,
    u64_le,
};
use vstd::prelude::*;

verus! {

/// A command of the reward program.
#[derive(Debug, Clone, Copy, PartialEq, Eq)]
pub enum ClaudCoinInstruction {
    /// Set up the mint.
    ///
    /// Accounts: the initializer (signer), the mint slot, the rent oracle.
    Initialize,
    /// Mint a reward.
    ///
    /// Accounts: the mint authority (signer), the mint slot, the destination.
    MintReward {
        /// How many units of the chosen base rate to mint.
        amount: u64,
        /// 0 for tool usage, 1 for resource access, 2 for a community contribution.
        reward_type: u8,
    },
    /// Record one use of a tool.
    ///
    /// Accounts: the user (signer), the user's token account, the stats slot.
    RecordToolUsage {
        /// Which tool was used.
        tool_id: [u8; 32],
        /// How demanding the use was, from 0 to 1000.
        complexity_score: u16,
    },
    /// Create an achievement.
    ///
    /// Accounts: the authority (signer), the achievement slot, the rent oracle.
    CreateAchievement {
        /// The achievement's identifier.
        id: [u8; 32],
        /// The score that unlocks it.
        required_score: u64,
        /// What a claim is worth.
        reward_amount: u64,
    },
    /// Claim an achievement.
    ///
    /// Accounts: the user (signer), the user's token account, the achievement slot.
    ClaimAchievement {
        /// The achievement that is claimed.
        achievement_id: [u8; 32],
    },
}

impl ClaudCoinInstruction {
    /// The command that `input` spells, if it spells one.
    pub open spec fn spec_unpack(input: Seq<u8>) -> Option<ClaudCoinInstruction> {
        if input.len() == 0 {
            None
        } else {
            let tag = input[0];
            let rest = input.subrange(1, input.len() as int);
            if tag == 0 {
                Some(ClaudCoinInstruction::Initialize)
            } else if tag == 1 && rest.len() >= 9 {
                Some(
                    ClaudCoinInstruction::MintReward {
                        amount: u64_le(rest.subrange(0, 8)),
                        reward_type: rest[8],
                    },
                )
            } else if tag == 2 && rest.len() >= 34 {
                Some(
                    ClaudCoinInstruction::RecordToolUsage {
                        tool_id: array32(rest.subrange(0, 32)),
                        complexity_score: u16_le(rest.subrange(32, 34)),
                    },
                )
            } else if tag == 3 && rest.len() >= 48 {
                Some(
                    ClaudCoinInstruction::CreateAchievement {
                        id: array32(rest.subrange(0, 32)),
                        required_score: u64_le(rest.subrange(32, 40)),
                        reward_amount: u64_le(rest.subrange(40, 48)),
                    },
                )
            } else if tag == 4 && rest.len() >= 32 {
                Some(
                    ClaudCoinInstruction::ClaimAchievement {
                        achievement_id: array32(rest.subrange(0, 32)),
                    },
                )
            } else {
                None
            }
        }
    }

    /// The bytes that spell this command, with nothing behind the last field.
    pub open spec fn spec_pack(self) -> Seq<u8> {
        match self {
            ClaudCoinInstruction::Initialize => seq![0u8],
            ClaudCoinInstruction::MintReward { amount, reward_type } => seq![1u8] + u64_bytes(
                amount,
            ) + seq![reward_type],
            ClaudCoinInstruction::RecordToolUsage { tool_id, complexity_score } => seq![2u8]
                + tool_id@ + u16_bytes(complexity_score),
            ClaudCoinInstruction::CreateAchievement { id, required_score, reward_amount } => seq![
                3u8,
            ] + id@ + u64_bytes(required_score) + u64_bytes(reward_amount),
            ClaudCoinInstruction::ClaimAchievement { achievement_id } => seq![4u8]
                + achievement_id@,
        }
    }

    /// Reads a command from an instruction buffer.
    ///
    /// Fails with `InvalidInstructionData` on an empty buffer, on a first
    /// byte above 4, and on a buffer that ends before the last field of the
    /// command.
    pub fn unpack(input: &[u8]) -> (r: Result<ClaudCoinInstruction, ProcessError>)
        ensures
            match Self::spec_unpack(input@) {
                Some(instruction) => r == Ok::<ClaudCoinInstruction, ProcessError>(instruction),
                None => r == Err::<ClaudCoinInstruction, ProcessError>(
                    ProcessError::InvalidInstructionData,
                ),
            },
    {
        let len: usize = input.len();
        if len == 0 {
            return Err(ProcessError::InvalidInstructionData);
        }
        let tag: u8 = input[0];
        let rest: &[u8] = &input[1..len];
        match tag {
            0 => Ok(ClaudCoinInstruction::Initialize),
            1 => {
                let amount: u64 = match Self::unpack_amount(rest) {
                    Ok(amount) => amount,
                    Err(e) => {
                        return Err(e);
                    },
                };
                if rest.len() < 9 {
                    return Err(ProcessError::InvalidInstructionData);
                }
                Ok(ClaudCoinInstruction::MintReward { amount, reward_type: rest[8] })
            },
            2 => {
                let tool_id: [u8; 32] = match Self::unpack_bytes32(rest) {
                    Ok(tool_id) => tool_id,
                    Err(e) => {
                        return Err(e);
                    },
                };
                if rest.len() < 34 {
                    return Err(ProcessError::InvalidInstructionData);
                }
                let complexity_score: u16 = read_u16_le(rest, 32);
                Ok(ClaudCoinInstruction::RecordToolUsage { tool_id, complexity_score })
            },
            3 => {
                if rest.len() < 48 {
                    return Err(ProcessError::InvalidInstructionData);
                }
                let id: [u8; 32] = read_bytes32(rest, 0);
                let required_score: u64 = read_u64_le(rest, 32);
                let reward_amount: u64 = read_u64_le(rest, 40);
                Ok(ClaudCoinInstruction::CreateAchievement { id, required_score, reward_amount })
            },
            4 => {
                match Self::unpack_bytes32(rest) {
                    Ok(achievement_id) => Ok(
                        ClaudCoinInstruction::ClaimAchievement { achievement_id },
                    ),
                    Err(e) => Err(e),
                }
            },
            _ => Err(ProcessError::InvalidInstructionData),
        }
    }

    /// Reads the amount at the start of `input`: its first eight bytes.
    pub fn unpack_amount(input: &[u8]) -> (r: Result<u64, ProcessError>)
        ensures
            input@.len() >= 8 ==> r == Ok::<u64, ProcessError>(u64_le(input@.subrange(0, 8))),
            input@.len() < 8 ==> r == Err::<u64, ProcessError>(
                ProcessError::InvalidInstructionData,
            ),
    {
        Self::unpack_u64(input)
    }

    /// Reads the first eight bytes of `input` as an unsigned integer.
    pub fn unpack_u64(input: &[u8]) -> (r: Result<u64, ProcessError>)
        ensures
            input@.len() >= 8 ==> r == Ok::<u64, ProcessError>(u64_le(input@.subrange(0, 8))),
            input@.len() < 8 ==> r == Err::<u64, ProcessError>(
                ProcessError::InvalidInstructionData,
            ),
    {
        if input.len() < 8 {
            Err(ProcessError::InvalidInstructionData)
        } else {
            Ok(read_u64_le(input, 0))
        }
    }

    /// Reads the first 32 bytes of `input`.
    pub fn unpack_bytes32(input: &[u8]) -> (r: Result<[u8; 32], ProcessError>)
        ensures
            input@.len() >= 32 ==> r == Ok::<[u8; 32], ProcessError>(
                array32(input@.subrange(0, 32)),
            ),
            input@.len() < 32 ==> r == Err::<[u8; 32], ProcessError>(
                ProcessError::InvalidInstructionData,
            ),
    {
        if input.len() < 32 {
            Err(ProcessError::InvalidInstructionData)
        } else {
            Ok(read_bytes32(input, 0))
        }
    }

    /// Writes the command as an instruction buffer.
    pub fn pack(&self) -> (out: Vec<u8>)
        ensures
            out@ == self.spec_pack(),
            Self::spec_unpack(out@) == Some(*self),
    {
        let mut out: Vec<u8> = Vec::new();
        match self {
            ClaudCoinInstruction::Initialize => {
                out.push(0);
            },
            ClaudCoinInstruction::MintReward { amount, reward_type } => {
                out.push(1);
                push_u64_le(&mut out, *amount);
                out.push(*reward_type);
            },
            ClaudCoinInstruction::RecordToolUsage { tool_id, complexity_score } => {
                out.push(2);
                push_bytes32(&mut out, tool_id);
                push_u16_le(&mut out, *complexity_score);
            },
            ClaudCoinInstruction::CreateAchievement { id, required_score, reward_amount } => {
                out.push(3);
                push_bytes32(&mut out, id);
                push_u64_le(&mut out, *required_score);
                push_u64_le(&mut out, *reward_amount);
            },
            ClaudCoinInstruction::ClaimAchievement { achievement_id } => {
                out.push(4);
                push_bytes32(&mut out, achievement_id);
            },
        }
        proof {
            assert(out@ =~= self.spec_pack());
            lemma_pack_unpack(*self);
        }
        out
    }
}

/// A command that is written and read again is the same command.
pub proof fn lemma_pack_unpack(instruction: ClaudCoinInstruction)
    ensures
        ClaudCoinInstruction::spec_unpack(instruction.spec_pack()) == Some(instruction),
{
    let bytes = instruction.spec_pack();
    let rest = bytes.subrange(1, bytes.len() as int);
    match instruction {
        ClaudCoinInstruction::Initialize => {},
        ClaudCoinInstruction::MintReward { amount, reward_type } => {
            lemma_u64_round_trip(amount, Seq::empty());
            assert(rest.subrange(0, 8) =~= u64_bytes(amount));
        },
        ClaudCoinInstruction::RecordToolUsage { tool_id, complexity_score } => {
            lemma_u16_round_trip(complexity_score, Seq::empty());
            lemma_array32_of_view(tool_id);
            assert(rest.subrange(0, 32) =~= tool_id@);
            assert(rest.subrange(32, 34) =~= u16_bytes(complexity_score));
        },
        ClaudCoinInstruction::CreateAchievement { id, required_score, reward_amount } => {
            lemma_u64_round_trip(required_score, Seq::empty());
            lemma_u64_round_trip(reward_amount, Seq::empty());
            lemma_array32_of_view(id);
            assert(rest.subrange(0, 32) =~= id@);
            assert(rest.subrange(32, 40) =~= u64_bytes(required_score));
            assert(rest.subrange(40, 48) =~= u64_bytes(reward_amount));
        },
        ClaudCoinInstruction::ClaimAchievement { achievement_id } => {
            lemma_array32_of_view(achievement_id);
            assert(rest.subrange(0, 32) =~= achievement_id@);
        },
    }
}

} // verus!
