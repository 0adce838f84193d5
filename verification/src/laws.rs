//! What holds of the handlers' decisions, whatever the accounts.
//!
//! The handlers' contracts say that a handler returns what its outcome
//! function decides and leaves every slot alone when it fails. The laws
//! below are proved of the outcome functions.

use crate::account::{lemma_stored_prefix, AccountView};
use crate::error::{ClaudCoinError, ProcessError};
use crate::host::{rent_rate, RentAnswer};
use crate::processor::{
    answer_of, base_reward, claim_achievement_outcome, mint_reward_outcome,
    process_create_achievement_outcome, process_initialize_outcome, record_tool_usage_outcome,
    record_usage, saturating_product, COOLDOWN_SECONDS, MAX_COMPLEXITY_SCORE,
};
use crate::state::{
    lemma_achievement_round_trip, lemma_token_state_round_trip, lemma_user_stats_round_trip,
    Achievement, TokenState, UserStats,
};
use vstd::prelude::*;

verus! {

/// Whether Initialize is owed success on `accounts`: the initializer signed,
/// the rent oracle finds the mint slot's balance exempt, and the mint slot
/// has room for a mint.
pub open spec fn initialize_is_valid(accounts: Seq<AccountView>) -> bool {
    &&& accounts.len() >= 3
    &&& accounts[0].is_signer
    &&& answer_of(accounts, TokenState::SIZE) == RentAnswer::Exempt(true)
    &&& accounts[1].data.len() >= TokenState::SIZE
}

/// Without a signature nothing is created, whatever the balance and
/// whatever the rate of the rent oracle.
///
/// With the host's rent account in the third place, Initialize and
/// CreateAchievement by a first account that did not sign fail with
/// `MissingRequiredSignature`. A handler that fails leaves every slot as it
/// was.
pub proof fn lemma_unsigned_creates_nothing(
    accounts: Seq<AccountView>,
    id: [u8; 32],
    required_score: u64,
    reward_amount: u64,
)
    requires
        accounts.len() >= 3,
        !accounts[0].is_signer,
        rent_rate(accounts[2].key@, accounts[2].data) is Some,
    ensures
        process_initialize_outcome(accounts) == Err::<Seq<AccountView>, ProcessError>(
            ProcessError::MissingRequiredSignature,
        ),
        process_create_achievement_outcome(accounts, id, required_score, reward_amount) == Err::<
            Seq<AccountView>,
            ProcessError,
        >(ProcessError::MissingRequiredSignature),
{
}

/// An account that is not the host's rent account is refused in the third
/// place, whatever its bytes and whoever signed.
pub proof fn lemma_stranger_is_no_oracle(
    accounts: Seq<AccountView>,
    id: [u8; 32],
    required_score: u64,
    reward_amount: u64,
)
    requires
        accounts.len() >= 3,
        rent_rate(accounts[2].key@, accounts[2].data) is None,
    ensures
        process_initialize_outcome(accounts) == Err::<Seq<AccountView>, ProcessError>(
            ProcessError::InvalidArgument,
        ),
        process_create_achievement_outcome(accounts, id, required_score, reward_amount) == Err::<
            Seq<AccountView>,
            ProcessError,
        >(ProcessError::InvalidArgument),
{
}

/// Initialize succeeds on the valid calls and on no others.
pub proof fn lemma_initialize_succeeds_when_valid(accounts: Seq<AccountView>)
    ensures
        process_initialize_outcome(accounts) is Ok <==> initialize_is_valid(accounts),
{
    lemma_token_state_round_trip(TokenState::spec_new(accounts[0].key));
}

/// Initialize resets the mint, every time.
///
/// A valid Initialize succeeds. Afterwards the mint slot starts with a mint
/// of supply 0 and 9 decimals whose authority is the initializer, whatever
/// the slot held before, and no other account has changed. The call is then
/// valid again, and running it again changes nothing more.
pub proof fn lemma_initialize_resets(accounts: Seq<AccountView>)
    requires
        initialize_is_valid(accounts),
    ensures
        process_initialize_outcome(accounts) is Ok,
        ({
            let after = process_initialize_outcome(accounts)->Ok_0;
            let mint = TokenState::spec_decode(after[1].data.subrange(0, TokenState::SIZE as int));
            &&& after.len() == accounts.len()
            &&& forall|i: int| 0 <= i < after.len() && i != 1 ==> after[i] == accounts[i]
            &&& after[1].key == accounts[1].key
            &&& after[1].lamports == accounts[1].lamports
            &&& after[1].is_signer == accounts[1].is_signer
            &&& mint == Some(TokenState::spec_new(accounts[0].key))
            &&& mint->Some_0.total_supply == 0
            &&& mint->Some_0.decimals == 9
            &&& initialize_is_valid(after)
            &&& process_initialize_outcome(after) == Ok::<Seq<AccountView>, ProcessError>(after)
        }),
{
    let record = TokenState::spec_new(accounts[0].key).spec_encode();
    lemma_token_state_round_trip(TokenState::spec_new(accounts[0].key));
    lemma_stored_prefix(accounts[1].data, record);
    let after = process_initialize_outcome(accounts)->Ok_0;
    assert(process_initialize_outcome(after)->Ok_0 =~= after);
}

/// MintReward adds the clamped product to the supply, or fails on overflow.
///
/// Where the authority signed and is the one that the mint names, and the
/// reward type is 0, 1 or 2: the command fails with `AmountOverflow` exactly
/// when the supply plus the reward, which is the amount times the base rate
/// clamped to 64 bits, leaves 64 bits. Otherwise it succeeds, and the mint
/// afterwards is the mint before with that sum as its supply.
pub proof fn lemma_mint_reward_supply(accounts: Seq<AccountView>, amount: u64, reward_type: u8)
    requires
        accounts.len() >= 3,
        accounts[0].is_signer,
        TokenState::spec_decode(accounts[1].data) is Some,
        TokenState::spec_decode(accounts[1].data)->Some_0.mint_authority == accounts[0].key,
        reward_type <= 2,
    ensures
        ({
            let before = TokenState::spec_decode(accounts[1].data)->Some_0;
            let reward = saturating_product(amount, base_reward(before, reward_type));
            let outcome = mint_reward_outcome(accounts, amount, reward_type);
            &&& before.total_supply + reward > u64::MAX <==> outcome == Err::<
                Seq<AccountView>,
                ProcessError,
            >(ProcessError::Custom(ClaudCoinError::AmountOverflow))
            &&& before.total_supply + reward <= u64::MAX <==> outcome is Ok
            &&& outcome matches Ok(after) ==> {
                &&& after.len() == accounts.len()
                &&& forall|i: int| 0 <= i < after.len() && i != 1 ==> after[i] == accounts[i]
                &&& TokenState::spec_decode(after[1].data) == Some(
                    TokenState { total_supply: (before.total_supply + reward) as u64, ..before },
                )
                &&& TokenState::spec_decode(after[1].data)->Some_0.total_supply
                    >= before.total_supply
            }
        }),
{
    let before = TokenState::spec_decode(accounts[1].data)->Some_0;
    let reward = saturating_product(amount, base_reward(before, reward_type));
    if before.total_supply + reward <= u64::MAX {
        let next = TokenState { total_supply: (before.total_supply + reward) as u64, ..before };
        lemma_token_state_round_trip(next);
        lemma_stored_prefix(accounts[1].data, next.spec_encode());
    }
}

/// A score above 1000 is refused, whatever the time and whatever the stats
/// slot holds.
pub proof fn lemma_complexity_score_refused(
    accounts: Seq<AccountView>,
    complexity_score: u16,
    now: i64,
)
    requires
        accounts.len() >= 3,
        accounts[0].is_signer,
        complexity_score > MAX_COMPLEXITY_SCORE,
    ensures
        record_tool_usage_outcome(accounts, complexity_score, now) == Err::<
            Seq<AccountView>,
            ProcessError,
        >(ProcessError::Custom(ClaudCoinError::InvalidComplexityScore)),
{
}

/// A recorded usage leaves the statistics in the stats slot, with `now` as
/// the time of the last use; statistics that were there before have moved
/// forward by at least 60 seconds. Short of 2^64, the uses have gone up by
/// one and the complexity by the score.
pub proof fn lemma_usage_recorded(accounts: Seq<AccountView>, complexity_score: u16, now: i64)
    requires
        record_tool_usage_outcome(accounts, complexity_score, now) is Ok,
    ensures
        ({
            let after = record_tool_usage_outcome(accounts, complexity_score, now)->Ok_0;
            let found = UserStats::spec_find_or_default(accounts[2].data, accounts[0].key)->Some_0;
            &&& after.len() == accounts.len()
            &&& forall|i: int| 0 <= i < after.len() && i != 2 ==> after[i] == accounts[i]
            &&& UserStats::spec_decode(after[2].data) == Some(
                record_usage(found.0, complexity_score, now),
            )
            &&& UserStats::spec_decode(after[2].data)->Some_0.last_reward_time == now
            &&& !found.1 ==> now >= found.0.last_reward_time + COOLDOWN_SECONDS
            &&& found.0.total_tool_uses < u64::MAX ==> UserStats::spec_decode(
                after[2].data,
            )->Some_0.total_tool_uses == found.0.total_tool_uses + 1
            &&& found.0.total_complexity + complexity_score <= u64::MAX ==> UserStats::spec_decode(
                after[2].data,
            )->Some_0.total_complexity == found.0.total_complexity + complexity_score
        }),
{
    let found = UserStats::spec_find_or_default(accounts[2].data, accounts[0].key)->Some_0;
    let next = record_usage(found.0, complexity_score, now);
    lemma_user_stats_round_trip(next);
    lemma_stored_prefix(accounts[2].data, next.spec_encode());
}

/// Two usages of one user less than 60 seconds apart: the second is
/// refused.
///
/// After a usage was recorded at `now1`, a usage at `now2` with
/// `now2 - now1 < 60` fails with `ToolUsageTooFrequent`, or with
/// `InvalidComplexityScore` where its score is above 1000. A handler that
/// fails leaves every slot as it was, so the statistics are those of the
/// first usage.
pub proof fn lemma_cooldown(
    accounts: Seq<AccountView>,
    score1: u16,
    now1: i64,
    score2: u16,
    now2: i64,
)
    requires
        record_tool_usage_outcome(accounts, score1, now1) is Ok,
        now2 - now1 < COOLDOWN_SECONDS,
    ensures
        ({
            let after = record_tool_usage_outcome(accounts, score1, now1)->Ok_0;
            record_tool_usage_outcome(after, score2, now2) == Err::<Seq<AccountView>, ProcessError>(
                ProcessError::Custom(
                    if score2 > MAX_COMPLEXITY_SCORE {
                        ClaudCoinError::InvalidComplexityScore
                    } else {
                        ClaudCoinError::ToolUsageTooFrequent
                    },
                ),
            )
        }),
{
    lemma_usage_recorded(accounts, score1, now1);
}

/// A claim counts once and changes nothing else of the achievement: its
/// identifier, its required score, its reward and its being active stay.
pub proof fn lemma_claim_counts_once(accounts: Seq<AccountView>, achievement_id: [u8; 32])
    requires
        claim_achievement_outcome(accounts, achievement_id) is Ok,
    ensures
        ({
            let after = claim_achievement_outcome(accounts, achievement_id)->Ok_0;
            let before = Achievement::spec_decode(accounts[2].data)->Some_0;
            &&& after.len() == accounts.len()
            &&& forall|i: int| 0 <= i < after.len() && i != 2 ==> after[i] == accounts[i]
            &&& before.id == achievement_id
            &&& Achievement::spec_decode(after[2].data) == Some(
                Achievement { times_claimed: (before.times_claimed + 1) as u64, ..before },
            )
            &&& Achievement::spec_decode(after[2].data)->Some_0.times_claimed
                == before.times_claimed + 1
        }),
{
    let before = Achievement::spec_decode(accounts[2].data)->Some_0;
    let next = Achievement { times_claimed: (before.times_claimed + 1) as u64, ..before };
    lemma_achievement_round_trip(next);
    lemma_stored_prefix(accounts[2].data, next.spec_encode());
}

} // verus!
