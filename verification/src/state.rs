//! The records that the program keeps in storage slots, and their bytes.
//!
//! A record is stored field after field in the order of its declaration,
//! without padding: an identity as its 32 bytes, an integer lowest byte
//! first, a boolean as the byte 0 or 1.

pub use crate::user_achievements::{UserAchievements, UserAchievementsView};
use crate::wire::{
    array32, bool_byte, byte_bool, i64_bytes, i64_le, lemma_array32, lemma_array32_of_view,
    lemma_i64_round_trip, lemma_u64_round_trip, push_bool, push_bytes32, push_i64_le, push_u64_le,
    read_bytes32, read_i64_le, read_u64_le, u64_bytes, u64_le,
};
use vstd::prelude::*;

verus! {

/// Decimal places of a new mint.
pub const DECIMALS: u8 = 9;

/// Base rate of a new mint for a tool usage.
pub const BASE_TOOL_REWARD: u64 = 100;

/// Base rate of a new mint for a resource access.
pub const BASE_RESOURCE_REWARD: u64 = 50;

/// Base rate of a new mint for a community contribution.
pub const BASE_COMMUNITY_REWARD: u64 = 200;

/// The mint: who may mint, how much was minted, and the base rates.
#[derive(Debug, Clone, Copy, PartialEq, Eq)]
pub struct TokenState {
    /// The identity that may mint.
    pub mint_authority: [u8; 32],
    /// Everything minted so far.
    pub total_supply: u64,
    /// Decimal places of the token.
    pub decimals: u8,
    /// Whether the mint was set up.
    pub is_initialized: bool,
    /// Base rate for a tool usage.
    pub base_tool_reward: u64,
    /// Base rate for a resource access.
    pub base_resource_reward: u64,
    /// Base rate for a community contribution.
    pub base_community_reward: u64,
}

impl TokenState {
    /// The number of bytes of a stored mint.
    pub const SIZE: usize = 32 + 8 + 1 + 1 + 8 + 8 + 8;

    /// The mint as it is set up: nothing minted, nine decimals, and the base
    /// rates 100, 50 and 200.
    pub open spec fn spec_new(mint_authority: [u8; 32]) -> TokenState {
        TokenState {
            mint_authority,
            total_supply: 0,
            decimals: DECIMALS,
            is_initialized: true,
            base_tool_reward: BASE_TOOL_REWARD,
            base_resource_reward: BASE_RESOURCE_REWARD,
            base_community_reward: BASE_COMMUNITY_REWARD,
        }
    }

    /// The mint as it is set up for `mint_authority`.
    pub fn new(mint_authority: [u8; 32]) -> (state: TokenState)
        ensures
            state == Self::spec_new(mint_authority),
            state.total_supply == 0,
            state.decimals == 9,
    {
        TokenState {
            mint_authority,
            total_supply: 0,
            decimals: DECIMALS,
            is_initialized: true,
            base_tool_reward: BASE_TOOL_REWARD,
            base_resource_reward: BASE_RESOURCE_REWARD,
            base_community_reward: BASE_COMMUNITY_REWARD,
        }
    }

    /// The bytes of this record.
    pub open spec fn spec_encode(self) -> Seq<u8> {
        self.mint_authority@ + u64_bytes(self.total_supply) + seq![self.decimals] + seq![
            bool_byte(self.is_initialized),
        ] + u64_bytes(self.base_tool_reward) + u64_bytes(self.base_resource_reward) + u64_bytes(
            self.base_community_reward,
        )
    }

    /// The record that `bytes` hold: they must be exactly 66, and the byte
    /// of the boolean 0 or 1.
    pub open spec fn spec_decode(bytes: Seq<u8>) -> Option<TokenState> {
        if bytes.len() == 66 && byte_bool(bytes[41]) is Some {
            Some(
                TokenState {
                    mint_authority: array32(bytes.subrange(0, 32)),
                    total_supply: u64_le(bytes.subrange(32, 40)),
                    decimals: bytes[40],
                    is_initialized: byte_bool(bytes[41])->Some_0,
                    base_tool_reward: u64_le(bytes.subrange(42, 50)),
                    base_resource_reward: u64_le(bytes.subrange(50, 58)),
                    base_community_reward: u64_le(bytes.subrange(58, 66)),
                },
            )
        } else {
            None
        }
    }

    /// Writes the record as bytes.
    pub fn encode(&self) -> (out: Vec<u8>)
        ensures
            out@ == self.spec_encode(),
            out@.len() == Self::SIZE,
            Self::spec_decode(out@) == Some(*self),
    {
        let mut out: Vec<u8> = Vec::new();
        push_bytes32(&mut out, &self.mint_authority);
        push_u64_le(&mut out, self.total_supply);
        out.push(self.decimals);
        push_bool(&mut out, self.is_initialized);
        push_u64_le(&mut out, self.base_tool_reward);
        push_u64_le(&mut out, self.base_resource_reward);
        push_u64_le(&mut out, self.base_community_reward);
        proof {
            assert(out@ =~= self.spec_encode());
            lemma_token_state_round_trip(*self);
        }
        out
    }

    /// Reads a record from the bytes of a slot. `None` unless the bytes are
    /// exactly those of one record.
    pub fn decode(data: &[u8]) -> (r: Option<TokenState>)
        ensures
            r == Self::spec_decode(data@),
            r matches Some(state) ==> state.spec_encode() == data@,
    {
        if data.len() != 66 {
            return None;
        }
        let is_initialized: bool = match data[41] {
            0 => false,
            1 => true,
            _ => {
                return None;
            },
        };
        let state = TokenState {
            mint_authority: read_bytes32(data, 0),
            total_supply: read_u64_le(data, 32),
            decimals: data[40],
            is_initialized,
            base_tool_reward: read_u64_le(data, 42),
            base_resource_reward: read_u64_le(data, 50),
            base_community_reward: read_u64_le(data, 58),
        };
        proof {
            lemma_token_state_bytes(data@);
        }
        Some(state)
    }
}

/// A mint that is written and read again is the same mint, and its bytes
/// are 66.
pub proof fn lemma_token_state_round_trip(state: TokenState)
    ensures
        state.spec_encode().len() == 66,
        TokenState::spec_decode(state.spec_encode()) == Some(state),
{
    let bytes = state.spec_encode();
    lemma_u64_round_trip(state.total_supply, Seq::empty());
    lemma_u64_round_trip(state.base_tool_reward, Seq::empty());
    lemma_u64_round_trip(state.base_resource_reward, Seq::empty());
    lemma_u64_round_trip(state.base_community_reward, Seq::empty());
    lemma_array32_of_view(state.mint_authority);
    assert(bytes.subrange(0, 32) =~= state.mint_authority@);
    assert(bytes.subrange(32, 40) =~= u64_bytes(state.total_supply));
    assert(bytes.subrange(42, 50) =~= u64_bytes(state.base_tool_reward));
    assert(bytes.subrange(50, 58) =~= u64_bytes(state.base_resource_reward));
    assert(bytes.subrange(58, 66) =~= u64_bytes(state.base_community_reward));
}

/// Bytes that hold a mint are the bytes of that mint.
pub proof fn lemma_token_state_bytes(bytes: Seq<u8>)
    requires
        TokenState::spec_decode(bytes) is Some,
    ensures
        TokenState::spec_decode(bytes)->Some_0.spec_encode() == bytes,
{
    let state = TokenState::spec_decode(bytes)->Some_0;
    lemma_array32(bytes.subrange(0, 32));
    lemma_u64_round_trip(0, bytes.subrange(32, 40));
    lemma_u64_round_trip(0, bytes.subrange(42, 50));
    lemma_u64_round_trip(0, bytes.subrange(50, 58));
    lemma_u64_round_trip(0, bytes.subrange(58, 66));
    assert(seq![bool_byte(state.is_initialized)] =~= bytes.subrange(41, 42));
    assert(seq![state.decimals] =~= bytes.subrange(40, 41));
    assert(bytes =~= bytes.subrange(0, 32) + bytes.subrange(32, 40) + bytes.subrange(40, 41)
        + bytes.subrange(41, 42) + bytes.subrange(42, 50) + bytes.subrange(50, 58)
        + bytes.subrange(58, 66));
}

/// What one user has done with the tools.
#[derive(Debug, Clone, Copy, PartialEq, Eq)]
pub struct UserStats {
    /// The user's identity.
    pub user: [u8; 32],
    /// How often the user used a tool.
    pub total_tool_uses: u64,
    /// The sum of the complexity scores of those uses.
    pub total_complexity: u64,
    /// The rewards earned so far.
    pub total_rewards: u64,
    /// When the last use was recorded, in seconds since the Unix epoch.
    pub last_reward_time: i64,
}

impl UserStats {
    /// The number of bytes of stored statistics.
    pub const SIZE: usize = 32 + 8 + 8 + 8 + 8;

    /// The statistics of a user who has not used a tool yet.
    pub open spec fn spec_new(user: [u8; 32]) -> UserStats {
        UserStats {
            user,
            total_tool_uses: 0,
            total_complexity: 0,
            total_rewards: 0,
            last_reward_time: 0,
        }
    }

    /// The bytes of this record.
    pub open spec fn spec_encode(self) -> Seq<u8> {
        self.user@ + u64_bytes(self.total_tool_uses) + u64_bytes(self.total_complexity)
            + u64_bytes(self.total_rewards) + i64_bytes(self.last_reward_time)
    }

    /// The record that `bytes` hold: they must be exactly 64.
    pub open spec fn spec_decode(bytes: Seq<u8>) -> Option<UserStats> {
        if bytes.len() == 64 {
            Some(
                UserStats {
                    user: array32(bytes.subrange(0, 32)),
                    total_tool_uses: u64_le(bytes.subrange(32, 40)),
                    total_complexity: u64_le(bytes.subrange(40, 48)),
                    total_rewards: u64_le(bytes.subrange(48, 56)),
                    last_reward_time: i64_le(bytes.subrange(56, 64)),
                },
            )
        } else {
            None
        }
    }

    /// The statistics that a slot stands for, and whether they were made
    /// for the occasion: an empty slot stands for the new statistics of
    /// `user`, any other slot for the record that its bytes hold.
    pub open spec fn spec_find_or_default(slot: Seq<u8>, user: [u8; 32]) -> Option<
        (UserStats, bool),
    > {
        if slot.len() == 0 {
            Some((Self::spec_new(user), true))
        } else {
            match Self::spec_decode(slot) {
                Some(stats) => Some((stats, false)),
                None => None,
            }
        }
    }

    /// Finds the statistics in a slot, or makes new ones for `user` where
    /// the slot is empty. The flag says whether they are new. `None` where
    /// the slot holds bytes that are not those of one record.
    pub fn find_or_default(slot: &[u8], user: &[u8; 32]) -> (r: Option<(UserStats, bool)>)
        ensures
            r == Self::spec_find_or_default(slot@, *user),
    {
        if slot.len() == 0 {
            Some((UserStats::new(*user), true))
        } else {
            match UserStats::decode(slot) {
                Some(stats) => Some((stats, false)),
                None => None,
            }
        }
    }

    /// The statistics of a user who has not used a tool yet: all counters
    /// zero.
    pub fn new(user: [u8; 32]) -> (stats: UserStats)
        ensures
            stats == Self::spec_new(user),
    {
        UserStats {
            user,
            total_tool_uses: 0,
            total_complexity: 0,
            total_rewards: 0,
            last_reward_time: 0,
        }
    }

    /// Writes the record as bytes.
    pub fn encode(&self) -> (out: Vec<u8>)
        ensures
            out@ == self.spec_encode(),
            out@.len() == Self::SIZE,
            Self::spec_decode(out@) == Some(*self),
    {
        let mut out: Vec<u8> = Vec::new();
        push_bytes32(&mut out, &self.user);
        push_u64_le(&mut out, self.total_tool_uses);
        push_u64_le(&mut out, self.total_complexity);
        push_u64_le(&mut out, self.total_rewards);
        push_i64_le(&mut out, self.last_reward_time);
        proof {
            assert(out@ =~= self.spec_encode());
            lemma_user_stats_round_trip(*self);
        }
        out
    }

    /// Reads a record from the bytes of a slot. `None` unless the bytes are
    /// exactly those of one record.
    pub fn decode(data: &[u8]) -> (r: Option<UserStats>)
        ensures
            r == Self::spec_decode(data@),
            r matches Some(stats) ==> stats.spec_encode() == data@,
    {
        if data.len() != 64 {
            return None;
        }
        let stats = UserStats {
            user: read_bytes32(data, 0),
            total_tool_uses: read_u64_le(data, 32),
            total_complexity: read_u64_le(data, 40),
            total_rewards: read_u64_le(data, 48),
            last_reward_time: read_i64_le(data, 56),
        };
        proof {
            lemma_user_stats_bytes(data@);
        }
        Some(stats)
    }
}

/// Statistics that are written and read again are the same statistics, and
/// their bytes are 64.
pub proof fn lemma_user_stats_round_trip(stats: UserStats)
    ensures
        stats.spec_encode().len() == 64,
        UserStats::spec_decode(stats.spec_encode()) == Some(stats),
{
    let bytes = stats.spec_encode();
    lemma_u64_round_trip(stats.total_tool_uses, Seq::empty());
    lemma_u64_round_trip(stats.total_complexity, Seq::empty());
    lemma_u64_round_trip(stats.total_rewards, Seq::empty());
    lemma_i64_round_trip(stats.last_reward_time, Seq::empty());
    lemma_array32_of_view(stats.user);
    assert(bytes.subrange(0, 32) =~= stats.user@);
    assert(bytes.subrange(32, 40) =~= u64_bytes(stats.total_tool_uses));
    assert(bytes.subrange(40, 48) =~= u64_bytes(stats.total_complexity));
    assert(bytes.subrange(48, 56) =~= u64_bytes(stats.total_rewards));
    assert(bytes.subrange(56, 64) =~= i64_bytes(stats.last_reward_time));
}

/// Bytes that hold statistics are the bytes of those statistics.
pub proof fn lemma_user_stats_bytes(bytes: Seq<u8>)
    requires
        UserStats::spec_decode(bytes) is Some,
    ensures
        UserStats::spec_decode(bytes)->Some_0.spec_encode() == bytes,
{
    let stats = UserStats::spec_decode(bytes)->Some_0;
    lemma_array32(bytes.subrange(0, 32));
    lemma_u64_round_trip(0, bytes.subrange(32, 40));
    lemma_u64_round_trip(0, bytes.subrange(40, 48));
    lemma_u64_round_trip(0, bytes.subrange(48, 56));
    lemma_i64_round_trip(0, bytes.subrange(56, 64));
    assert(bytes =~= bytes.subrange(0, 32) + bytes.subrange(32, 40) + bytes.subrange(40, 48)
        + bytes.subrange(48, 56) + bytes.subrange(56, 64));
}

/// A milestone that users can claim.
#[derive(Debug, Clone, Copy, PartialEq, Eq)]
pub struct Achievement {
    /// The achievement's identifier.
    pub id: [u8; 32],
    /// The score that unlocks it.
    pub required_score: u64,
    /// What a claim is worth.
    pub reward_amount: u64,
    /// Whether it can still be claimed.
    pub is_active: bool,
    /// How often it was claimed.
    pub times_claimed: u64,
}

impl Achievement {
    /// The number of bytes of a stored achievement.
    pub const SIZE: usize = 32 + 8 + 8 + 1 + 8;

    /// The achievement as it is created: active and never claimed.
    pub open spec fn spec_new(id: [u8; 32], required_score: u64, reward_amount: u64) -> Achievement {
        Achievement { id, required_score, reward_amount, is_active: true, times_claimed: 0 }
    }

    /// The achievement as it is created: active and never claimed.
    pub fn new(id: [u8; 32], required_score: u64, reward_amount: u64) -> (achievement: Achievement)
        ensures
            achievement == Self::spec_new(id, required_score, reward_amount),
    {
        Achievement { id, required_score, reward_amount, is_active: true, times_claimed: 0 }
    }

    /// The bytes of this record.
    pub open spec fn spec_encode(self) -> Seq<u8> {
        self.id@ + u64_bytes(self.required_score) + u64_bytes(self.reward_amount) + seq![
            bool_byte(self.is_active),
        ] + u64_bytes(self.times_claimed)
    }

    /// The record that `bytes` hold: they must be exactly 57, and the byte
    /// of the boolean 0 or 1.
    pub open spec fn spec_decode(bytes: Seq<u8>) -> Option<Achievement> {
        if bytes.len() == 57 && byte_bool(bytes[48]) is Some {
            Some(
                Achievement {
                    id: array32(bytes.subrange(0, 32)),
                    required_score: u64_le(bytes.subrange(32, 40)),
                    reward_amount: u64_le(bytes.subrange(40, 48)),
                    is_active: byte_bool(bytes[48])->Some_0,
                    times_claimed: u64_le(bytes.subrange(49, 57)),
                },
            )
        } else {
            None
        }
    }

    /// Writes the record as bytes.
    pub fn encode(&self) -> (out: Vec<u8>)
        ensures
            out@ == self.spec_encode(),
            out@.len() == Self::SIZE,
            Self::spec_decode(out@) == Some(*self),
    {
        let mut out: Vec<u8> = Vec::new();
        push_bytes32(&mut out, &self.id);
        push_u64_le(&mut out, self.required_score);
        push_u64_le(&mut out, self.reward_amount);
        push_bool(&mut out, self.is_active);
        push_u64_le(&mut out, self.times_claimed);
        proof {
            assert(out@ =~= self.spec_encode());
            lemma_achievement_round_trip(*self);
        }
        out
    }

    /// Reads a record from the bytes of a slot. `None` unless the bytes are
    /// exactly those of one record.
    pub fn decode(data: &[u8]) -> (r: Option<Achievement>)
        ensures
            r == Self::spec_decode(data@),
            r matches Some(achievement) ==> achievement.spec_encode() == data@,
    {
        if data.len() != 57 {
            return None;
        }
        let is_active: bool = match data[48] {
            0 => false,
            1 => true,
            _ => {
                return None;
            },
        };
        let achievement = Achievement {
            id: read_bytes32(data, 0),
            required_score: read_u64_le(data, 32),
            reward_amount: read_u64_le(data, 40),
            is_active,
            times_claimed: read_u64_le(data, 49),
        };
        proof {
            lemma_achievement_bytes(data@);
        }
        Some(achievement)
    }
}

/// An achievement that is written and read again is the same achievement,
/// and its bytes are 57.
pub proof fn lemma_achievement_round_trip(achievement: Achievement)
    ensures
        achievement.spec_encode().len() == 57,
        Achievement::spec_decode(achievement.spec_encode()) == Some(achievement),
{
    let bytes = achievement.spec_encode();
    lemma_u64_round_trip(achievement.required_score, Seq::empty());
    lemma_u64_round_trip(achievement.reward_amount, Seq::empty());
    lemma_u64_round_trip(achievement.times_claimed, Seq::empty());
    lemma_array32_of_view(achievement.id);
    assert(bytes.subrange(0, 32) =~= achievement.id@);
    assert(bytes.subrange(32, 40) =~= u64_bytes(achievement.required_score));
    assert(bytes.subrange(40, 48) =~= u64_bytes(achievement.reward_amount));
    assert(bytes.subrange(49, 57) =~= u64_bytes(achievement.times_claimed));
}

/// Bytes that hold an achievement are the bytes of that achievement.
pub proof fn lemma_achievement_bytes(bytes: Seq<u8>)
    requires
        Achievement::spec_decode(bytes) is Some,
    ensures
        Achievement::spec_decode(bytes)->Some_0.spec_encode() == bytes,
{
    let achievement = Achievement::spec_decode(bytes)->Some_0;
    lemma_array32(bytes.subrange(0, 32));
    lemma_u64_round_trip(0, bytes.subrange(32, 40));
    lemma_u64_round_trip(0, bytes.subrange(40, 48));
    lemma_u64_round_trip(0, bytes.subrange(49, 57));
    assert(seq![bool_byte(achievement.is_active)] =~= bytes.subrange(48, 49));
    assert(bytes =~= bytes.subrange(0, 32) + bytes.subrange(32, 40) + bytes.subrange(40, 48)
        + bytes.subrange(48, 49) + bytes.subrange(49, 57));
}

} // verus!
