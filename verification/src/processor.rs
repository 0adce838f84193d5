//! The processor: one handler for each command.
//!
//! A handler checks who signed, reads the record in the slot it was handed,
//! applies the command's rule and stores the record again. It either
//! succeeds, and the one slot that the command names holds the new record,
//! or fails with one failure, and no slot has changed. What a handler
//! decides is written down once, as a function from the accounts before to
//! the failure or the accounts after; the handler's contract is that it
//! decides the same. The checks are made in the order in which the outcome
//! functions list them, so that accounts with several faults fail with the
//! first.
//!
//! No handler reads `program_id` or the identifier of a tool, and none moves
//! tokens: the program keeps books only.

use crate::account::{overwritten, stored, Account, AccountView};
use crate::error::{ClaudCoinError, ProcessError};
use crate::host::{check_rent, rent_answer, unix_timestamp, RentAnswer};
use crate::instruction::ClaudCoinInstruction;
use crate::state::{Achievement, TokenState, UserStats};
use crate::wire::bytes32_eq;
use vstd::prelude::*;

verus! {

/// The processor of the reward program.
pub struct Processor;

/// The highest complexity score that a tool usage may have.
pub const MAX_COMPLEXITY_SCORE: u16 = 1000;

/// The seconds that must lie between two recorded usages of one user.
pub const COOLDOWN_SECONDS: i64 = 60;

/// What a handler decided: the failure, or the accounts after the command.
pub type Outcome = Result<Seq<AccountView>, ProcessError>;

/// Whether a handler that returned `r` and turned the accounts `before` into
/// `after` did what `outcome` says: on success the accounts are those of the
/// outcome, on failure the failure is that of the outcome and no account
/// has changed.
pub open spec fn settles(
    r: Result<(), ProcessError>,
    before: Seq<AccountView>,
    after: Seq<AccountView>,
    outcome: Outcome,
) -> bool {
    match outcome {
        Ok(expected) => r is Ok && after == expected,
        Err(e) => r == Err::<(), ProcessError>(e) && after == before,
    }
}

/// The accounts after the bytes of a record were written over the leading
/// bytes of the slot of the account at `index`.
pub open spec fn overwrite_record(
    accounts: Seq<AccountView>,
    index: int,
    record: Seq<u8>,
) -> Outcome
    recommends
        0 <= index < accounts.len(),
{
    match overwritten(accounts[index].data, record) {
        Some(data) => Ok(accounts.update(index, AccountView { data, ..accounts[index] })),
        None => Err(ProcessError::AccountDataTooSmall),
    }
}

/// The accounts after the bytes of a record that is created on demand were
/// stored in the slot of the account at `index`: an empty slot takes the
/// record as it is.
pub open spec fn store_record(accounts: Seq<AccountView>, index: int, record: Seq<u8>) -> Outcome
    recommends
        0 <= index < accounts.len(),
{
    match stored(accounts[index].data, record) {
        Some(data) => Ok(accounts.update(index, AccountView { data, ..accounts[index] })),
        None => Err(ProcessError::AccountDataTooSmall),
    }
}

/// The product of two numbers, or the largest number where the product is
/// larger.
pub open spec fn saturating_product(a: u64, b: u64) -> u64 {
    if a * b > u64::MAX {
        u64::MAX
    } else {
        (a * b) as u64
    }
}

/// The base rate of a reward type: 0 is a tool usage, 1 a resource access,
/// 2 a community contribution.
pub open spec fn base_reward(state: TokenState, reward_type: u8) -> u64
    recommends
        reward_type <= 2,
{
    if reward_type == 0 {
        state.base_tool_reward
    } else if reward_type == 1 {
        state.base_resource_reward
    } else {
        state.base_community_reward
    }
}

/// The mint after a reward was minted: the reward is the amount times the
/// base rate of the type, clamped to the largest number, and is added to
/// the total supply. A type above 2 is a failure, and so is a supply that
/// would leave 64 bits.
pub open spec fn minted(state: TokenState, amount: u64, reward_type: u8) -> Result<
    TokenState,
    ClaudCoinError,
> {
    let reward = saturating_product(amount, base_reward(state, reward_type));
    if reward_type > 2 {
        Err(ClaudCoinError::InvalidRewardType)
    } else if state.total_supply + reward > u64::MAX {
        Err(ClaudCoinError::AmountOverflow)
    } else {
        Ok(TokenState { total_supply: (state.total_supply + reward) as u64, ..state })
    }
}

/// What MintReward decides.
///
/// The accounts are the mint authority, the mint slot and the destination.
/// The authority must have signed and be the one that the mint names. The
/// mint slot then holds the mint after the reward.
pub open spec fn mint_reward_outcome(
    accounts: Seq<AccountView>,
    amount: u64,
    reward_type: u8,
) -> Outcome {
    if accounts.len() < 3 {
        Err(ProcessError::NotEnoughAccountKeys)
    } else if !accounts[0].is_signer {
        Err(ProcessError::MissingRequiredSignature)
    } else {
        match TokenState::spec_decode(accounts[1].data) {
            None => Err(ProcessError::InvalidAccountData),
            Some(state) => {
                if state.mint_authority != accounts[0].key {
                    Err(ProcessError::Custom(ClaudCoinError::InvalidAuthority))
                } else {
                    match minted(state, amount, reward_type) {
                        Err(e) => Err(ProcessError::Custom(e)),
                        Ok(next) => overwrite_record(accounts, 1, next.spec_encode()),
                    }
                }
            },
        }
    }
}

/// What comes of asking the rent oracle among the accounts about the second
/// account, were it to store `size` bytes. The oracle is the third account.
pub open spec fn answer_of(accounts: Seq<AccountView>, size: usize) -> RentAnswer
    recommends
        accounts.len() >= 3,
{
    rent_answer(accounts[2].key@, accounts[2].data, accounts[1].lamports, size)
}

/// What a command decides that creates a record, given what came of asking
/// the rent oracle.
///
/// The accounts are the creator, the slot of the new record and the rent
/// oracle. The third account must be the oracle, the creator must have
/// signed, the oracle's rule must stay within 64 bits, and the slot's
/// balance must be exempt from rent: in this order. The record then
/// replaces what the slot held; nothing of the old bytes is read.
pub open spec fn create_outcome(
    accounts: Seq<AccountView>,
    answer: RentAnswer,
    record: Seq<u8>,
) -> Outcome {
    if accounts.len() < 3 {
        Err(ProcessError::NotEnoughAccountKeys)
    } else if answer is NoOracle {
        Err(ProcessError::InvalidArgument)
    } else if !accounts[0].is_signer {
        Err(ProcessError::MissingRequiredSignature)
    } else if answer is OutOfRange {
        Err(ProcessError::ArithmeticOverflow)
    } else if answer != RentAnswer::Exempt(true) {
        Err(ProcessError::Custom(ClaudCoinError::NotRentExempt))
    } else {
        overwrite_record(accounts, 1, record)
    }
}

/// What Initialize decides, given what came of asking the rent oracle: the
/// mint slot receives a new mint whose authority is the initializer.
pub open spec fn initialize_outcome(accounts: Seq<AccountView>, answer: RentAnswer) -> Outcome {
    create_outcome(accounts, answer, TokenState::spec_new(accounts[0].key).spec_encode())
}

/// What CreateAchievement decides, given what came of asking the rent
/// oracle: the achievement slot receives a new achievement, active and
/// never claimed.
pub open spec fn create_achievement_outcome(
    accounts: Seq<AccountView>,
    answer: RentAnswer,
    id: [u8; 32],
    required_score: u64,
    reward_amount: u64,
) -> Outcome {
    create_outcome(
        accounts,
        answer,
        Achievement::spec_new(id, required_score, reward_amount).spec_encode(),
    )
}

/// What Initialize decides when the rent oracle among the accounts is
/// asked.
pub open spec fn process_initialize_outcome(accounts: Seq<AccountView>) -> Outcome {
    initialize_outcome(accounts, answer_of(accounts, TokenState::SIZE))
}

/// What CreateAchievement decides when the rent oracle among the accounts
/// is asked.
pub open spec fn process_create_achievement_outcome(
    accounts: Seq<AccountView>,
    id: [u8; 32],
    required_score: u64,
    reward_amount: u64,
) -> Outcome {
    create_achievement_outcome(
        accounts,
        answer_of(accounts, Achievement::SIZE),
        id,
        required_score,
        reward_amount,
    )
}

/// The statistics after one more usage at `now`: one more use, the score
/// added to the complexity, both wrapping around at 2^64, and `now` as the
/// time of the last use.
pub open spec fn record_usage(stats: UserStats, complexity_score: u16, now: i64) -> UserStats {
    UserStats {
        total_tool_uses: stats.total_tool_uses.wrapping_add(1),
        total_complexity: stats.total_complexity.wrapping_add(complexity_score as u64),
        last_reward_time: now,
        ..stats
    }
}

/// What RecordToolUsage decides at the time `now`.
///
/// The accounts are the user, the user's token account and the stats slot.
/// The user must have signed, and the score must be at most 1000. An empty
/// stats slot stands for new statistics of this user. Statistics that were
/// there before must be at least 60 seconds old.
pub open spec fn record_tool_usage_outcome(
    accounts: Seq<AccountView>,
    complexity_score: u16,
    now: i64,
) -> Outcome {
    if accounts.len() < 3 {
        Err(ProcessError::NotEnoughAccountKeys)
    } else if !accounts[0].is_signer {
        Err(ProcessError::MissingRequiredSignature)
    } else if complexity_score > MAX_COMPLEXITY_SCORE {
        Err(ProcessError::Custom(ClaudCoinError::InvalidComplexityScore))
    } else {
        match UserStats::spec_find_or_default(accounts[2].data, accounts[0].key) {
            None => Err(ProcessError::InvalidAccountData),
            Some((stats, created)) => {
                if !created && now - stats.last_reward_time < COOLDOWN_SECONDS {
                    Err(ProcessError::Custom(ClaudCoinError::ToolUsageTooFrequent))
                } else {
                    store_record(
                        accounts,
                        2,
                        record_usage(stats, complexity_score, now).spec_encode(),
                    )
                }
            },
        }
    }
}

/// What RecordToolUsage decides when the host's clock is asked: with fewer
/// than three accounts the clock is not asked. Otherwise either the clock
/// failed, and its failure is the result, or it told some time, and the
/// command was decided at that time.
pub open spec fn settles_at_some_time(
    r: Result<(), ProcessError>,
    before: Seq<AccountView>,
    after: Seq<AccountView>,
    complexity_score: u16,
) -> bool {
    if before.len() < 3 {
        settles(r, before, after, Err(ProcessError::NotEnoughAccountKeys))
    } else {
        ||| r matches Err(ProcessError::Clock(_)) && after == before
        ||| exists|now: i64|
            settles(r, before, after, record_tool_usage_outcome(before, complexity_score, now))
    }
}

/// What ClaimAchievement decides.
///
/// The accounts are the user, the user's token account and the achievement
/// slot. The user must have signed, the achievement must be active, and it
/// must be the one that the claim names. Its count of claims goes up by
/// one; a count that would leave 64 bits is a failure.
pub open spec fn claim_achievement_outcome(
    accounts: Seq<AccountView>,
    achievement_id: [u8; 32],
) -> Outcome {
    if accounts.len() < 3 {
        Err(ProcessError::NotEnoughAccountKeys)
    } else if !accounts[0].is_signer {
        Err(ProcessError::MissingRequiredSignature)
    } else {
        match Achievement::spec_decode(accounts[2].data) {
            None => Err(ProcessError::InvalidAccountData),
            Some(achievement) => {
                if !achievement.is_active {
                    Err(ProcessError::Custom(ClaudCoinError::AchievementNotActive))
                } else if achievement.id != achievement_id {
                    Err(ProcessError::Custom(ClaudCoinError::AchievementNotFound))
                } else if achievement.times_claimed == u64::MAX {
                    Err(ProcessError::Custom(ClaudCoinError::AmountOverflow))
                } else {
                    overwrite_record(
                        accounts,
                        2,
                        Achievement {
                            times_claimed: (achievement.times_claimed + 1) as u64,
                            ..achievement
                        }.spec_encode(),
                    )
                }
            },
        }
    }
}

/// Whether a run of the processor on `instruction` did what the command's
/// handler decides.
pub open spec fn follows(
    r: Result<(), ProcessError>,
    before: Seq<AccountView>,
    after: Seq<AccountView>,
    instruction: ClaudCoinInstruction,
) -> bool {
    match instruction {
        ClaudCoinInstruction::Initialize => settles(
            r,
            before,
            after,
            process_initialize_outcome(before),
        ),
        ClaudCoinInstruction::MintReward { amount, reward_type } => settles(
            r,
            before,
            after,
            mint_reward_outcome(before, amount, reward_type),
        ),
        ClaudCoinInstruction::RecordToolUsage { tool_id, complexity_score } => {
            settles_at_some_time(r, before, after, complexity_score)
        },
        ClaudCoinInstruction::CreateAchievement { id, required_score, reward_amount } => settles(
            r,
            before,
            after,
            process_create_achievement_outcome(before, id, required_score, reward_amount),
        ),
        ClaudCoinInstruction::ClaimAchievement { achievement_id } => settles(
            r,
            before,
            after,
            claim_achievement_outcome(before, achievement_id),
        ),
    }
}

impl Processor {
    /// Runs one instruction: reads the command from `instruction_data` and
    /// hands it to its handler.
    ///
    /// Fails with `InvalidInstructionData`, before any account is looked at,
    /// where the bytes spell no command.
    pub fn process(
        program_id: &[u8; 32],
        accounts: &mut Vec<Account>,
        instruction_data: &[u8],
    ) -> (r: Result<(), ProcessError>)
        ensures
            match ClaudCoinInstruction::spec_unpack(instruction_data@) {
                Some(instruction) => follows(
                    r,
                    old(accounts).deep_view(),
                    final(accounts).deep_view(),
                    instruction,
                ),
                None => settles(
                    r,
                    old(accounts).deep_view(),
                    final(accounts).deep_view(),
                    Err(ProcessError::InvalidInstructionData),
                ),
            },
    {
        let instruction: ClaudCoinInstruction = match ClaudCoinInstruction::unpack(
            instruction_data,
        ) {
            Ok(instruction) => instruction,
            Err(e) => {
                return Err(e);
            },
        };
        match instruction {
            ClaudCoinInstruction::Initialize => Self::process_initialize(program_id, accounts),
            ClaudCoinInstruction::MintReward { amount, reward_type } => {
                Self::process_mint_reward(accounts, amount, reward_type, program_id)
            },
            ClaudCoinInstruction::RecordToolUsage { tool_id, complexity_score } => {
                Self::process_record_tool_usage(accounts, tool_id, complexity_score, program_id)
            },
            ClaudCoinInstruction::CreateAchievement { id, required_score, reward_amount } => {
                Self::process_create_achievement(
                    program_id,
                    accounts,
                    id,
                    required_score,
                    reward_amount,
                )
            },
            ClaudCoinInstruction::ClaimAchievement { achievement_id } => {
                Self::process_claim_achievement(program_id, accounts, achievement_id)
            },
        }
    }

    /// Sets up the mint: asks the rent oracle among the accounts about the
    /// mint slot's balance, then decides as `initialize_with_exemption` does.
    pub fn process_initialize(program_id: &[u8; 32], accounts: &mut Vec<Account>) -> (r: Result<
        (),
        ProcessError,
    >)
        ensures
            settles(
                r,
                old(accounts).deep_view(),
                final(accounts).deep_view(),
                process_initialize_outcome(old(accounts).deep_view()),
            ),
    {
        if accounts.len() < 3 {
            return Err(ProcessError::NotEnoughAccountKeys);
        }
        let answer: RentAnswer = check_rent(&accounts[2], accounts[1].lamports, TokenState::SIZE);
        Self::initialize_with_exemption(accounts, answer)
    }

    /// Sets up the mint, given what came of asking the rent oracle about the
    /// mint slot's balance: writes a new mint, with the initializer as its
    /// authority, over whatever the slot held.
    ///
    /// Fails, in this order, with `NotEnoughAccountKeys` on fewer than three
    /// accounts, with `InvalidArgument` where the third account is not the
    /// oracle, with `MissingRequiredSignature` where the initializer did not
    /// sign, with `ArithmeticOverflow` where the oracle's rule leaves 64
    /// bits, with `NotRentExempt` where the balance is not exempt, and with
    /// `AccountDataTooSmall` where the slot has fewer than 66 bytes.
    pub fn initialize_with_exemption(accounts: &mut Vec<Account>, answer: RentAnswer) -> (r: Result<
        (),
        ProcessError,
    >)
        ensures
            settles(
                r,
                old(accounts).deep_view(),
                final(accounts).deep_view(),
                initialize_outcome(old(accounts).deep_view(), answer),
            ),
    {
        if accounts.len() < 3 {
            return Err(ProcessError::NotEnoughAccountKeys);
        }
        let token_state: TokenState = TokenState::new(accounts[0].key);
        let bytes: Vec<u8> = token_state.encode();
        Self::create(accounts, answer, bytes.as_slice())
    }

    /// The checks and the write that Initialize and CreateAchievement share.
    fn create(accounts: &mut Vec<Account>, answer: RentAnswer, record: &[u8]) -> (r: Result<
        (),
        ProcessError,
    >)
        requires
            old(accounts).len() >= 3,
        ensures
            settles(
                r,
                old(accounts).deep_view(),
                final(accounts).deep_view(),
                create_outcome(old(accounts).deep_view(), answer, record@),
            ),
    {
        let evaluated: Option<bool> = match answer {
            RentAnswer::NoOracle => {
                return Err(ProcessError::InvalidArgument);
            },
            RentAnswer::OutOfRange => None,
            RentAnswer::Exempt(exempt) => Some(exempt),
        };
        if !accounts[0].is_signer {
            return Err(ProcessError::MissingRequiredSignature);
        }
        let exempt: bool = match evaluated {
            Some(exempt) => exempt,
            None => {
                return Err(ProcessError::ArithmeticOverflow);
            },
        };
        if !exempt {
            return Err(ProcessError::Custom(ClaudCoinError::NotRentExempt));
        }
        let r = accounts[1].overwrite(record);
        proof {
            let before = old(accounts).deep_view();
            assert(accounts.deep_view() =~= before.update(1, accounts[1]@));
            if r is Err {
                assert(accounts.deep_view() =~= before);
            }
        }
        r
    }

    /// Mints a reward: adds `amount` times the base rate of `reward_type`,
    /// clamped to 64 bits, to the total supply of the mint.
    ///
    /// Fails with `NotEnoughAccountKeys` on fewer than three accounts, with
    /// `MissingRequiredSignature` where the authority did not sign, with
    /// `InvalidAccountData` where the mint slot does not hold a mint, with
    /// `InvalidAuthority` where the mint names another authority, with
    /// `InvalidRewardType` on a type above 2, and with `AmountOverflow`
    /// where the new supply would leave 64 bits.
    pub fn process_mint_reward(
        accounts: &mut Vec<Account>,
        amount: u64,
        reward_type: u8,
        program_id: &[u8; 32],
    ) -> (r: Result<(), ProcessError>)
        ensures
            settles(
                r,
                old(accounts).deep_view(),
                final(accounts).deep_view(),
                mint_reward_outcome(old(accounts).deep_view(), amount, reward_type),
            ),
    {
        if accounts.len() < 3 {
            return Err(ProcessError::NotEnoughAccountKeys);
        }
        if !accounts[0].is_signer {
            return Err(ProcessError::MissingRequiredSignature);
        }
        let token_state: TokenState = match TokenState::decode(accounts[1].data.as_slice()) {
            Some(state) => state,
            None => {
                return Err(ProcessError::InvalidAccountData);
            },
        };
        if !bytes32_eq(&token_state.mint_authority, &accounts[0].key) {
            return Err(ProcessError::Custom(ClaudCoinError::InvalidAuthority));
        }
        let next: TokenState = match Self::mint(&token_state, amount, reward_type) {
            Ok(next) => next,
            Err(e) => {
                return Err(ProcessError::Custom(e));
            },
        };
        let bytes: Vec<u8> = next.encode();
        let r = accounts[1].overwrite(bytes.as_slice());
        proof {
            let before = old(accounts).deep_view();
            assert(accounts.deep_view() =~= before.update(1, accounts[1]@));
        }
        r
    }

    /// The mint after a reward of `amount` times the base rate of
    /// `reward_type`, clamped to 64 bits, was added to its supply.
    ///
    /// Fails with `InvalidRewardType` on a type above 2, and with
    /// `AmountOverflow` where the new supply would leave 64 bits.
    fn mint(state: &TokenState, amount: u64, reward_type: u8) -> (r: Result<
        TokenState,
        ClaudCoinError,
    >)
        ensures
            r == minted(*state, amount, reward_type),
    {
        let base: u64 = match reward_type {
            0 => state.base_tool_reward,
            1 => state.base_resource_reward,
            2 => state.base_community_reward,
            _ => {
                return Err(ClaudCoinError::InvalidRewardType);
            },
        };
        let actual_reward: u64 = match amount.checked_mul(base) {
            Some(product) => product,
            None => u64::MAX,
        };
        let total_supply: u64 = match state.total_supply.checked_add(actual_reward) {
            Some(supply) => supply,
            None => {
                return Err(ClaudCoinError::AmountOverflow);
            },
        };
        Ok(
            TokenState {
                mint_authority: state.mint_authority,
                total_supply,
                decimals: state.decimals,
                is_initialized: state.is_initialized,
                base_tool_reward: state.base_tool_reward,
                base_resource_reward: state.base_resource_reward,
                base_community_reward: state.base_community_reward,
            },
        )
    }

    /// Records one use of a tool at the time that the host's clock tells.
    ///
    /// Fails with `NotEnoughAccountKeys` on fewer than three accounts. The
    /// clock is asked after that: where it fails, its failure is returned as
    /// `Clock`, and where it tells the time the command is decided as
    /// `record_tool_usage_at` decides it at that time.
    pub fn process_record_tool_usage(
        accounts: &mut Vec<Account>,
        tool_id: [u8; 32],
        complexity_score: u16,
        program_id: &[u8; 32],
    ) -> (r: Result<(), ProcessError>)
        ensures
            settles_at_some_time(
                r,
                old(accounts).deep_view(),
                final(accounts).deep_view(),
                complexity_score,
            ),
    {
        if accounts.len() < 3 {
            return Err(ProcessError::NotEnoughAccountKeys);
        }
        match unix_timestamp() {
            Ok(now) => Self::record_tool_usage_at(accounts, tool_id, complexity_score, now),
            Err(e) => Err(ProcessError::Clock(e)),
        }
    }

    /// Records one use of a tool at the time `now`, in seconds since the
    /// Unix epoch: counts the use, adds the score to the user's complexity,
    /// both wrapping at 64 bits, and notes the time. An empty stats slot
    /// receives new statistics of the user.
    ///
    /// Fails with `NotEnoughAccountKeys` on fewer than three accounts, with
    /// `MissingRequiredSignature` where the user did not sign, with
    /// `InvalidComplexityScore` on a score above 1000, with
    /// `InvalidAccountData` where the stats slot holds bytes that are not
    /// statistics, and with `ToolUsageTooFrequent` where the statistics were
    /// there before and `now` is less than 60 seconds after their last use.
    pub fn record_tool_usage_at(
        accounts: &mut Vec<Account>,
        tool_id: [u8; 32],
        complexity_score: u16,
        now: i64,
    ) -> (r: Result<(), ProcessError>)
        ensures
            settles(
                r,
                old(accounts).deep_view(),
                final(accounts).deep_view(),
                record_tool_usage_outcome(old(accounts).deep_view(), complexity_score, now),
            ),
    {
        if accounts.len() < 3 {
            return Err(ProcessError::NotEnoughAccountKeys);
        }
        if !accounts[0].is_signer {
            return Err(ProcessError::MissingRequiredSignature);
        }
        if complexity_score > MAX_COMPLEXITY_SCORE {
            return Err(ProcessError::Custom(ClaudCoinError::InvalidComplexityScore));
        }
        let (mut user_stats, created): (UserStats, bool) = match UserStats::find_or_default(
            accounts[2].data.as_slice(),
            &accounts[0].key,
        ) {
            Some(found) => found,
            None => {
                return Err(ProcessError::InvalidAccountData);
            },
        };
        if !created && (now as i128) - (user_stats.last_reward_time as i128) < (
        COOLDOWN_SECONDS as i128) {
            return Err(ProcessError::Custom(ClaudCoinError::ToolUsageTooFrequent));
        }
        user_stats.total_tool_uses = user_stats.total_tool_uses.wrapping_add(1);
        user_stats.total_complexity = user_stats.total_complexity.wrapping_add(
            complexity_score as u64,
        );
        user_stats.last_reward_time = now;
        let bytes: Vec<u8> = user_stats.encode();
        let r = accounts[2].store(bytes.as_slice());
        proof {
            let before = old(accounts).deep_view();
            assert(accounts.deep_view() =~= before.update(2, accounts[2]@));
            if r is Err {
                assert(accounts.deep_view() =~= before);
            }
        }
        r
    }

    /// Creates an achievement: asks the rent oracle among the accounts about
    /// the achievement slot's balance, then decides as
    /// `create_achievement_with_exemption` does.
    pub fn process_create_achievement(
        program_id: &[u8; 32],
        accounts: &mut Vec<Account>,
        id: [u8; 32],
        required_score: u64,
        reward_amount: u64,
    ) -> (r: Result<(), ProcessError>)
        ensures
            settles(
                r,
                old(accounts).deep_view(),
                final(accounts).deep_view(),
                process_create_achievement_outcome(
                    old(accounts).deep_view(),
                    id,
                    required_score,
                    reward_amount,
                ),
            ),
    {
        if accounts.len() < 3 {
            return Err(ProcessError::NotEnoughAccountKeys);
        }
        let answer: RentAnswer = check_rent(&accounts[2], accounts[1].lamports, Achievement::SIZE);
        Self::create_achievement_with_exemption(
            accounts,
            answer,
            id,
            required_score,
            reward_amount,
        )
    }

    /// Creates an achievement, given what came of asking the rent oracle
    /// about the achievement slot's balance: writes a new achievement, active
    /// and never claimed, over whatever the slot held. Any signer may create
    /// one, and an identifier may be used again.
    ///
    /// Fails, in this order, with `NotEnoughAccountKeys` on fewer than three
    /// accounts, with `InvalidArgument` where the third account is not the
    /// oracle, with `MissingRequiredSignature` where the authority did not
    /// sign, with `ArithmeticOverflow` where the oracle's rule leaves 64
    /// bits, with `NotRentExempt` where the balance is not exempt, and with
    /// `AccountDataTooSmall` where the slot has fewer than 57 bytes.
    pub fn create_achievement_with_exemption(
        accounts: &mut Vec<Account>,
        answer: RentAnswer,
        id: [u8; 32],
        required_score: u64,
        reward_amount: u64,
    ) -> (r: Result<(), ProcessError>)
        ensures
            settles(
                r,
                old(accounts).deep_view(),
                final(accounts).deep_view(),
                create_achievement_outcome(
                    old(accounts).deep_view(),
                    answer,
                    id,
                    required_score,
                    reward_amount,
                ),
            ),
    {
        if accounts.len() < 3 {
            return Err(ProcessError::NotEnoughAccountKeys);
        }
        let achievement: Achievement = Achievement::new(id, required_score, reward_amount);
        let bytes: Vec<u8> = achievement.encode();
        Self::create(accounts, answer, bytes.as_slice())
    }

    /// Claims an achievement: counts one more claim of it. The user's score
    /// is not held against the required score, the same user may claim
    /// again, and no reward is paid out.
    ///
    /// Fails with `NotEnoughAccountKeys` on fewer than three accounts, with
    /// `MissingRequiredSignature` where the user did not sign, with
    /// `InvalidAccountData` where the slot does not hold an achievement,
    /// with `AchievementNotActive` where the achievement is not active, with
    /// `AchievementNotFound` where it is not the one that the claim names,
    /// and with `AmountOverflow` where the count would leave 64 bits.
    pub fn process_claim_achievement(
        program_id: &[u8; 32],
        accounts: &mut Vec<Account>,
        achievement_id: [u8; 32],
    ) -> (r: Result<(), ProcessError>)
        ensures
            settles(
                r,
                old(accounts).deep_view(),
                final(accounts).deep_view(),
                claim_achievement_outcome(old(accounts).deep_view(), achievement_id),
            ),
    {
        if accounts.len() < 3 {
            return Err(ProcessError::NotEnoughAccountKeys);
        }
        if !accounts[0].is_signer {
            return Err(ProcessError::MissingRequiredSignature);
        }
        let mut achievement: Achievement = match Achievement::decode(accounts[2].data.as_slice()) {
            Some(achievement) => achievement,
            None => {
                return Err(ProcessError::InvalidAccountData);
            },
        };
        if !achievement.is_active {
            return Err(ProcessError::Custom(ClaudCoinError::AchievementNotActive));
        }
        if !bytes32_eq(&achievement.id, &achievement_id) {
            return Err(ProcessError::Custom(ClaudCoinError::AchievementNotFound));
        }
        achievement.times_claimed = match achievement.times_claimed.checked_add(1) {
            Some(count) => count,
            None => {
                return Err(ProcessError::Custom(ClaudCoinError::AmountOverflow));
            },
        };
        let bytes: Vec<u8> = achievement.encode();
        let r = accounts[2].overwrite(bytes.as_slice());
        proof {
            let before = old(accounts).deep_view();
            assert(accounts.deep_view() =~= before.update(2, accounts[2]@));
        }
        r
    }
}

} // verus!
