use claud_coin::state::{Achievement, TokenState, UserAchievements, UserStats};

fn id(seed: u8) -> [u8; 32] {
    let mut out = [0u8; 32];
    for (i, byte) in out.iter_mut().enumerate() {
        *byte = seed.wrapping_add(i as u8);
    }
    out
}

#[test]
fn record_sizes_are_66_64_and_57() {
    assert_eq!(TokenState::SIZE, 66);
    assert_eq!(UserStats::SIZE, 64);
    assert_eq!(Achievement::SIZE, 57);
}

#[test]
fn a_new_mint_has_no_supply_nine_decimals_and_the_base_rates() {
    let mint = TokenState::new(id(1));
    assert_eq!(
        mint,
        TokenState {
            mint_authority: id(1),
            total_supply: 0,
            decimals: 9,
            is_initialized: true,
            base_tool_reward: 100,
            base_resource_reward: 50,
            base_community_reward: 200,
        }
    );
}

#[test]
fn token_state_bytes_are_laid_out_field_by_field() {
    let mint = TokenState {
        mint_authority: id(1),
        total_supply: 0x0102_0304_0506_0708,
        decimals: 9,
        is_initialized: true,
        base_tool_reward: 100,
        base_resource_reward: 50,
        base_community_reward: 200,
    };
    let mut expected = id(1).to_vec();
    expected.extend_from_slice(&[8, 7, 6, 5, 4, 3, 2, 1]);
    expected.push(9);
    expected.push(1);
    expected.extend_from_slice(&[100, 0, 0, 0, 0, 0, 0, 0]);
    expected.extend_from_slice(&[50, 0, 0, 0, 0, 0, 0, 0]);
    expected.extend_from_slice(&[200, 0, 0, 0, 0, 0, 0, 0]);
    assert_eq!(mint.encode(), expected);
    assert_eq!(mint.encode().len(), 66);
    assert_eq!(TokenState::decode(&expected), Some(mint));
}

#[test]
fn token_state_round_trips_at_the_ends_of_the_range() {
    for value in [0u64, 1, u64::MAX - 1, u64::MAX] {
        for flag in [false, true] {
            for decimals in [0u8, 9, 255] {
                let mint = TokenState {
                    mint_authority: id(value as u8),
                    total_supply: value,
                    decimals,
                    is_initialized: flag,
                    base_tool_reward: value,
                    base_resource_reward: u64::MAX - value,
                    base_community_reward: value / 2,
                };
                assert_eq!(TokenState::decode(&mint.encode()), Some(mint));
            }
        }
    }
}

#[test]
fn token_state_decode_wants_exactly_66_bytes() {
    let bytes = TokenState::new(id(0)).encode();
    assert_eq!(TokenState::decode(&bytes[..65]), None);
    assert_eq!(TokenState::decode(&[]), None);
    let mut longer = bytes.clone();
    longer.push(0);
    assert_eq!(TokenState::decode(&longer), None);
}

#[test]
fn token_state_decode_refuses_a_boolean_that_is_neither_0_nor_1() {
    let mut bytes = TokenState::new(id(0)).encode();
    bytes[41] = 2;
    assert_eq!(TokenState::decode(&bytes), None);
    bytes[41] = 255;
    assert_eq!(TokenState::decode(&bytes), None);
    bytes[41] = 0;
    assert_eq!(TokenState::decode(&bytes).map(|mint| mint.is_initialized), Some(false));
}

#[test]
fn user_stats_bytes_are_laid_out_field_by_field() {
    let stats = UserStats {
        user: id(7),
        total_tool_uses: 2,
        total_complexity: 510,
        total_rewards: 0,
        last_reward_time: 61,
    };
    let mut expected = id(7).to_vec();
    expected.extend_from_slice(&2u64.to_le_bytes());
    expected.extend_from_slice(&510u64.to_le_bytes());
    expected.extend_from_slice(&0u64.to_le_bytes());
    expected.extend_from_slice(&61i64.to_le_bytes());
    assert_eq!(stats.encode(), expected);
    assert_eq!(stats.encode().len(), 64);
    assert_eq!(UserStats::decode(&expected), Some(stats));
}

#[test]
fn user_stats_time_is_stored_in_twos_complement() {
    for time in [i64::MIN, i64::MIN + 1, -61, -1, 0, 1, 60, i64::MAX - 1, i64::MAX] {
        let stats = UserStats {
            user: id(1),
            total_tool_uses: u64::MAX,
            total_complexity: 0,
            total_rewards: u64::MAX,
            last_reward_time: time,
        };
        let bytes = stats.encode();
        assert_eq!(&bytes[56..], &time.to_le_bytes()[..]);
        assert_eq!(UserStats::decode(&bytes), Some(stats));
    }
}

#[test]
fn user_stats_decode_wants_exactly_64_bytes() {
    assert_eq!(UserStats::decode(&[0; 63]), None);
    assert_eq!(UserStats::decode(&[0; 65]), None);
    assert_eq!(UserStats::decode(&[0; 64]), Some(UserStats::new([0; 32])));
}

#[test]
fn new_user_stats_are_all_zero() {
    assert_eq!(
        UserStats::new(id(3)),
        UserStats {
            user: id(3),
            total_tool_uses: 0,
            total_complexity: 0,
            total_rewards: 0,
            last_reward_time: 0,
        }
    );
}

#[test]
fn find_or_default_makes_new_stats_for_an_empty_slot() {
    assert_eq!(UserStats::find_or_default(&[], &id(3)), Some((UserStats::new(id(3)), true)));
}

#[test]
fn find_or_default_reads_what_a_slot_holds() {
    let stats = UserStats {
        user: id(4),
        total_tool_uses: 1,
        total_complexity: 500,
        total_rewards: 0,
        last_reward_time: 0,
    };
    assert_eq!(UserStats::find_or_default(&stats.encode(), &id(9)), Some((stats, false)));
    assert_eq!(UserStats::find_or_default(&[1, 2, 3], &id(9)), None);
}

#[test]
fn achievement_bytes_are_laid_out_field_by_field() {
    let achievement = Achievement {
        id: id(5),
        required_score: 100,
        reward_amount: 50,
        is_active: true,
        times_claimed: 3,
    };
    let mut expected = id(5).to_vec();
    expected.extend_from_slice(&100u64.to_le_bytes());
    expected.extend_from_slice(&50u64.to_le_bytes());
    expected.push(1);
    expected.extend_from_slice(&3u64.to_le_bytes());
    assert_eq!(achievement.encode(), expected);
    assert_eq!(achievement.encode().len(), 57);
    assert_eq!(Achievement::decode(&expected), Some(achievement));
}

#[test]
fn achievement_round_trips_at_the_ends_of_the_range() {
    for value in [0u64, 1, u64::MAX - 1, u64::MAX] {
        for flag in [false, true] {
            let achievement = Achievement {
                id: id(value as u8),
                required_score: value,
                reward_amount: u64::MAX - value,
                is_active: flag,
                times_claimed: value,
            };
            assert_eq!(Achievement::decode(&achievement.encode()), Some(achievement));
        }
    }
}

#[test]
fn achievement_decode_refuses_malformed_bytes() {
    let mut bytes = Achievement::new(id(1), 1, 1).encode();
    assert_eq!(Achievement::decode(&bytes[..56]), None);
    bytes[48] = 7;
    assert_eq!(Achievement::decode(&bytes), None);
    bytes[48] = 1;
    bytes.push(0);
    assert_eq!(Achievement::decode(&bytes), None);
}

#[test]
fn a_new_achievement_is_active_and_unclaimed() {
    assert_eq!(
        Achievement::new(id(2), 100, 50),
        Achievement {
            id: id(2),
            required_score: 100,
            reward_amount: 50,
            is_active: true,
            times_claimed: 0,
        }
    );
}

#[test]
fn an_empty_ledger_is_the_identity_and_two_zero_counts() {
    let ledger =
        UserAchievements { user: id(1), claimed_achievements: vec![], scores: vec![] };
    let mut expected = id(1).to_vec();
    expected.extend_from_slice(&[0; 8]);
    assert_eq!(ledger.encode(), Some(expected.clone()));
    assert_eq!(UserAchievements::decode(&expected), Some(ledger));
}

#[test]
fn ledger_bytes_carry_counts_and_lengths() {
    let ledger = UserAchievements {
        user: id(1),
        claimed_achievements: vec![id(10), id(20)],
        scores: vec![("tools".to_string(), 510), ("é".to_string(), u64::MAX)],
    };
    let mut expected = id(1).to_vec();
    expected.extend_from_slice(&[2, 0, 0, 0]);
    expected.extend_from_slice(&id(10));
    expected.extend_from_slice(&id(20));
    expected.extend_from_slice(&[2, 0, 0, 0]);
    expected.extend_from_slice(&[5, 0, 0, 0]);
    expected.extend_from_slice(b"tools");
    expected.extend_from_slice(&510u64.to_le_bytes());
    expected.extend_from_slice(&[2, 0, 0, 0]);
    expected.extend_from_slice(&[0xc3, 0xa9]);
    expected.extend_from_slice(&u64::MAX.to_le_bytes());
    assert_eq!(ledger.encode(), Some(expected.clone()));
    assert_eq!(UserAchievements::decode(&expected), Some(ledger));
}

#[test]
fn ledger_round_trips() {
    let ledger = UserAchievements {
        user: id(200),
        claimed_achievements: (0..40).map(id).collect(),
        scores: vec![
            (String::new(), 0),
            ("a".repeat(300), 1),
            ("score \u{1F600} \u{00e9}\u{4e2d}".to_string(), u64::MAX),
        ],
    };
    let bytes = ledger.encode().unwrap();
    assert_eq!(UserAchievements::decode(&bytes), Some(ledger));
}

#[test]
fn ledger_decode_refuses_bytes_that_end_too_early() {
    let ledger = UserAchievements {
        user: id(1),
        claimed_achievements: vec![id(10)],
        scores: vec![("tools".to_string(), 510)],
    };
    let bytes = ledger.encode().unwrap();
    for end in 0..bytes.len() {
        assert_eq!(UserAchievements::decode(&bytes[..end]), None);
    }
}

#[test]
fn ledger_decode_refuses_bytes_behind_the_last_score() {
    let ledger = UserAchievements {
        user: id(1),
        claimed_achievements: vec![id(10)],
        scores: vec![("tools".to_string(), 510)],
    };
    let mut bytes = ledger.encode().unwrap();
    bytes.push(0);
    assert_eq!(UserAchievements::decode(&bytes), None);
}

#[test]
fn ledger_decode_refuses_a_name_that_is_not_utf8() {
    let mut bytes = id(1).to_vec();
    bytes.extend_from_slice(&[0, 0, 0, 0]);
    bytes.extend_from_slice(&[1, 0, 0, 0]);
    bytes.extend_from_slice(&[2, 0, 0, 0]);
    bytes.extend_from_slice(&[0xc3, 0x28]);
    bytes.extend_from_slice(&7u64.to_le_bytes());
    assert_eq!(UserAchievements::decode(&bytes), None);
    bytes[44] = 0xc3;
    bytes[45] = 0xa9;
    assert_eq!(
        UserAchievements::decode(&bytes),
        Some(UserAchievements {
            user: id(1),
            claimed_achievements: vec![],
            scores: vec![("é".to_string(), 7)],
        })
    );
}

#[test]
fn ledger_decode_refuses_a_count_beyond_the_bytes() {
    let mut bytes = id(1).to_vec();
    bytes.extend_from_slice(&[0xff, 0xff, 0xff, 0xff]);
    bytes.extend_from_slice(&[0; 64]);
    assert_eq!(UserAchievements::decode(&bytes), None);
    let mut bytes = id(1).to_vec();
    bytes.extend_from_slice(&[0, 0, 0, 0]);
    bytes.extend_from_slice(&[1, 0, 0, 0]);
    bytes.extend_from_slice(&[0xff, 0xff, 0xff, 0xff]);
    bytes.extend_from_slice(&[0; 16]);
    assert_eq!(UserAchievements::decode(&bytes), None);
}
