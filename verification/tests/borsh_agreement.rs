use borsh::BorshDeserialize;
use claud_coin::state::{Achievement, TokenState, UserAchievements, UserStats};

type MintFields = ([u8; 32], u64, u8, bool, u64, u64, u64);
type StatsFields = ([u8; 32], u64, u64, u64, i64);
type AchievementFields = ([u8; 32], u64, u64, bool, u64);
type LedgerFields = ([u8; 32], Vec<[u8; 32]>, Vec<(String, u64)>);

fn id(seed: u8) -> [u8; 32] {
    let mut out = [0u8; 32];
    for (i, byte) in out.iter_mut().enumerate() {
        *byte = seed.wrapping_mul(31).wrapping_add(i as u8);
    }
    out
}

#[test]
fn token_state_bytes_are_those_of_borsh() {
    for value in [0u64, 1, 1000, u64::MAX] {
        let mint = TokenState {
            mint_authority: id(value as u8),
            total_supply: value,
            decimals: 9,
            is_initialized: value % 2 == 0,
            base_tool_reward: 100,
            base_resource_reward: u64::MAX - value,
            base_community_reward: 200,
        };
        let fields: MintFields = (
            mint.mint_authority,
            mint.total_supply,
            mint.decimals,
            mint.is_initialized,
            mint.base_tool_reward,
            mint.base_resource_reward,
            mint.base_community_reward,
        );
        let bytes = borsh::to_vec(&fields).unwrap();
        assert_eq!(mint.encode(), bytes);
        assert_eq!(TokenState::decode(&bytes), Some(mint));
    }
}

#[test]
fn user_stats_bytes_are_those_of_borsh() {
    for time in [i64::MIN, -1, 0, 61, i64::MAX] {
        let stats = UserStats {
            user: id(time as u8),
            total_tool_uses: time as u64,
            total_complexity: 510,
            total_rewards: u64::MAX,
            last_reward_time: time,
        };
        let fields: StatsFields = (
            stats.user,
            stats.total_tool_uses,
            stats.total_complexity,
            stats.total_rewards,
            stats.last_reward_time,
        );
        let bytes = borsh::to_vec(&fields).unwrap();
        assert_eq!(stats.encode(), bytes);
        assert_eq!(UserStats::decode(&bytes), Some(stats));
    }
}

#[test]
fn achievement_bytes_are_those_of_borsh() {
    for count in [0u64, 1, u64::MAX] {
        let achievement = Achievement {
            id: id(count as u8),
            required_score: 100,
            reward_amount: 50,
            is_active: count != 1,
            times_claimed: count,
        };
        let fields: AchievementFields = (
            achievement.id,
            achievement.required_score,
            achievement.reward_amount,
            achievement.is_active,
            achievement.times_claimed,
        );
        let bytes = borsh::to_vec(&fields).unwrap();
        assert_eq!(achievement.encode(), bytes);
        assert_eq!(Achievement::decode(&bytes), Some(achievement));
    }
}

#[test]
fn ledger_bytes_are_those_of_borsh() {
    let ledger = UserAchievements {
        user: id(1),
        claimed_achievements: vec![id(2), id(3), id(4)],
        scores: vec![
            ("tools".to_string(), 510),
            (String::new(), 0),
            ("\u{00e9}\u{4e2d}\u{1F600}".to_string(), u64::MAX),
        ],
    };
    let fields: LedgerFields =
        (ledger.user, ledger.claimed_achievements.clone(), ledger.scores.clone());
    let bytes = borsh::to_vec(&fields).unwrap();
    assert_eq!(ledger.encode(), Some(bytes.clone()));
    assert_eq!(UserAchievements::decode(&bytes), Some(ledger));
}

#[test]
fn decoding_fails_where_borsh_fails() {
    let mint = TokenState::new(id(1)).encode();
    let mut cases: Vec<Vec<u8>> = vec![vec![], mint[..65].to_vec(), mint.clone()];
    let mut longer = mint.clone();
    longer.push(0);
    cases.push(longer);
    for flag in [0u8, 1, 2, 255] {
        let mut changed = mint.clone();
        changed[41] = flag;
        cases.push(changed);
    }
    for bytes in cases {
        let by_borsh = MintFields::try_from_slice(&bytes).ok();
        let by_library = TokenState::decode(&bytes).map(|mint| {
            (
                mint.mint_authority,
                mint.total_supply,
                mint.decimals,
                mint.is_initialized,
                mint.base_tool_reward,
                mint.base_resource_reward,
                mint.base_community_reward,
            )
        });
        assert_eq!(by_library, by_borsh);
    }
}

#[test]
fn ledger_decoding_fails_where_borsh_fails() {
    let ledger = UserAchievements {
        user: id(1),
        claimed_achievements: vec![id(2)],
        scores: vec![("\u{00e9}".to_string(), 7), ("b".to_string(), 8)],
    };
    let bytes = ledger.encode().unwrap();
    let mut cases: Vec<Vec<u8>> = (0..=bytes.len()).map(|end| bytes[..end].to_vec()).collect();
    for place in 0..bytes.len() {
        for change in [1u8, 0x80, 0xff] {
            let mut changed = bytes.clone();
            changed[place] ^= change;
            cases.push(changed);
        }
    }
    let mut longer = bytes.clone();
    longer.push(0);
    cases.push(longer);
    for bytes in cases {
        let by_borsh = LedgerFields::try_from_slice(&bytes).ok();
        let by_library = UserAchievements::decode(&bytes)
            .map(|ledger| (ledger.user, ledger.claimed_achievements, ledger.scores));
        assert_eq!(by_library, by_borsh);
    }
}
