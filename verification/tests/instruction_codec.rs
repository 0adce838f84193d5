use claud_coin::error::ProcessError;
use claud_coin::instruction::ClaudCoinInstruction;

fn id(seed: u8) -> [u8; 32] {
    let mut out = [0u8; 32];
    for (i, byte) in out.iter_mut().enumerate() {
        *byte = seed.wrapping_add(i as u8);
    }
    out
}

#[test]
fn unpack_initialize_reads_the_tag_alone() {
    assert_eq!(ClaudCoinInstruction::unpack(&[0]), Ok(ClaudCoinInstruction::Initialize));
    assert_eq!(ClaudCoinInstruction::unpack(&[0, 7, 7]), Ok(ClaudCoinInstruction::Initialize));
}

#[test]
fn unpack_refuses_an_empty_buffer() {
    assert_eq!(ClaudCoinInstruction::unpack(&[]), Err(ProcessError::InvalidInstructionData));
}

#[test]
fn unpack_refuses_an_unknown_tag() {
    assert_eq!(ClaudCoinInstruction::unpack(&[5]), Err(ProcessError::InvalidInstructionData));
    assert_eq!(ClaudCoinInstruction::unpack(&[255; 64]), Err(ProcessError::InvalidInstructionData));
}

#[test]
fn unpack_mint_reward_reads_amount_and_type() {
    let bytes = [1, 0x0a, 0, 0, 0, 0, 0, 0, 0, 2];
    assert_eq!(
        ClaudCoinInstruction::unpack(&bytes),
        Ok(ClaudCoinInstruction::MintReward { amount: 10, reward_type: 2 })
    );
    let bytes = [1, 0x08, 0x07, 0x06, 0x05, 0x04, 0x03, 0x02, 0x01, 9];
    assert_eq!(
        ClaudCoinInstruction::unpack(&bytes),
        Ok(ClaudCoinInstruction::MintReward { amount: 0x0102_0304_0506_0708, reward_type: 9 })
    );
}

#[test]
fn unpack_mint_reward_needs_nine_bytes_behind_the_tag() {
    assert_eq!(ClaudCoinInstruction::unpack(&[1]), Err(ProcessError::InvalidInstructionData));
    assert_eq!(
        ClaudCoinInstruction::unpack(&[1, 1, 2, 3, 4, 5, 6, 7]),
        Err(ProcessError::InvalidInstructionData)
    );
    assert_eq!(
        ClaudCoinInstruction::unpack(&[1, 1, 2, 3, 4, 5, 6, 7, 8]),
        Err(ProcessError::InvalidInstructionData)
    );
}

#[test]
fn unpack_mint_reward_at_the_ends_of_the_range() {
    let mut bytes = vec![1u8];
    bytes.extend_from_slice(&[0xff; 8]);
    bytes.push(0xff);
    assert_eq!(
        ClaudCoinInstruction::unpack(&bytes),
        Ok(ClaudCoinInstruction::MintReward { amount: u64::MAX, reward_type: 255 })
    );
    let bytes = [1u8, 0, 0, 0, 0, 0, 0, 0, 0, 0];
    assert_eq!(
        ClaudCoinInstruction::unpack(&bytes),
        Ok(ClaudCoinInstruction::MintReward { amount: 0, reward_type: 0 })
    );
}

#[test]
fn unpack_record_tool_usage_reads_tool_and_score() {
    let mut bytes = vec![2u8];
    bytes.extend_from_slice(&id(3));
    bytes.extend_from_slice(&[0xf4, 0x01]);
    assert_eq!(
        ClaudCoinInstruction::unpack(&bytes),
        Ok(ClaudCoinInstruction::RecordToolUsage { tool_id: id(3), complexity_score: 500 })
    );
    let mut bytes = vec![2u8];
    bytes.extend_from_slice(&id(0));
    bytes.extend_from_slice(&[0xff, 0xff]);
    assert_eq!(
        ClaudCoinInstruction::unpack(&bytes),
        Ok(ClaudCoinInstruction::RecordToolUsage { tool_id: id(0), complexity_score: u16::MAX })
    );
}

#[test]
fn unpack_record_tool_usage_fails_on_a_short_buffer() {
    assert_eq!(ClaudCoinInstruction::unpack(&[2]), Err(ProcessError::InvalidInstructionData));
    assert_eq!(ClaudCoinInstruction::unpack(&[2; 10]), Err(ProcessError::InvalidInstructionData));
    assert_eq!(ClaudCoinInstruction::unpack(&[2; 33]), Err(ProcessError::InvalidInstructionData));
    assert_eq!(ClaudCoinInstruction::unpack(&[2; 34]), Err(ProcessError::InvalidInstructionData));
    assert!(ClaudCoinInstruction::unpack(&[2; 35]).is_ok());
}

#[test]
fn unpack_create_achievement_reads_three_fields() {
    let mut bytes = vec![3u8];
    bytes.extend_from_slice(&id(9));
    bytes.extend_from_slice(&100u64.to_le_bytes());
    bytes.extend_from_slice(&50u64.to_le_bytes());
    assert_eq!(
        ClaudCoinInstruction::unpack(&bytes),
        Ok(ClaudCoinInstruction::CreateAchievement {
            id: id(9),
            required_score: 100,
            reward_amount: 50
        })
    );
}

#[test]
fn unpack_create_achievement_fails_on_a_short_buffer() {
    assert_eq!(ClaudCoinInstruction::unpack(&[3]), Err(ProcessError::InvalidInstructionData));
    assert_eq!(ClaudCoinInstruction::unpack(&[3; 33]), Err(ProcessError::InvalidInstructionData));
    assert_eq!(ClaudCoinInstruction::unpack(&[3; 41]), Err(ProcessError::InvalidInstructionData));
    assert_eq!(ClaudCoinInstruction::unpack(&[3; 48]), Err(ProcessError::InvalidInstructionData));
    assert!(ClaudCoinInstruction::unpack(&[3; 49]).is_ok());
}

#[test]
fn unpack_claim_achievement_reads_the_identifier() {
    let mut bytes = vec![4u8];
    bytes.extend_from_slice(&id(200));
    assert_eq!(
        ClaudCoinInstruction::unpack(&bytes),
        Ok(ClaudCoinInstruction::ClaimAchievement { achievement_id: id(200) })
    );
    bytes.push(1);
    assert_eq!(
        ClaudCoinInstruction::unpack(&bytes),
        Ok(ClaudCoinInstruction::ClaimAchievement { achievement_id: id(200) })
    );
    assert_eq!(ClaudCoinInstruction::unpack(&[4; 32]), Err(ProcessError::InvalidInstructionData));
}

#[test]
fn unpack_amount_reads_eight_bytes_lowest_first() {
    assert_eq!(ClaudCoinInstruction::unpack_amount(&[1, 0, 0, 0, 0, 0, 0, 0]), Ok(1));
    assert_eq!(ClaudCoinInstruction::unpack_amount(&[0, 1, 0, 0, 0, 0, 0, 0, 9, 9]), Ok(256));
    assert_eq!(ClaudCoinInstruction::unpack_amount(&[0xff; 8]), Ok(u64::MAX));
    assert_eq!(
        ClaudCoinInstruction::unpack_amount(&[0; 7]),
        Err(ProcessError::InvalidInstructionData)
    );
}

#[test]
fn unpack_u64_agrees_with_the_standard_library() {
    for value in [0u64, 1, 255, 256, 65_535, 1 << 32, 0x0123_4567_89ab_cdef, u64::MAX - 1, u64::MAX] {
        assert_eq!(ClaudCoinInstruction::unpack_u64(&value.to_le_bytes()), Ok(value));
    }
    assert_eq!(ClaudCoinInstruction::unpack_u64(&[]), Err(ProcessError::InvalidInstructionData));
}

#[test]
fn unpack_bytes32_takes_the_first_32_bytes() {
    let mut bytes = id(5).to_vec();
    assert_eq!(ClaudCoinInstruction::unpack_bytes32(&bytes), Ok(id(5)));
    bytes.push(77);
    assert_eq!(ClaudCoinInstruction::unpack_bytes32(&bytes), Ok(id(5)));
    assert_eq!(
        ClaudCoinInstruction::unpack_bytes32(&bytes[..31]),
        Err(ProcessError::InvalidInstructionData)
    );
}

#[test]
fn pack_writes_the_wire_form() {
    assert_eq!(ClaudCoinInstruction::Initialize.pack(), vec![0]);
    assert_eq!(
        ClaudCoinInstruction::MintReward { amount: 258, reward_type: 1 }.pack(),
        vec![1, 2, 1, 0, 0, 0, 0, 0, 0, 1]
    );
    let mut expected = vec![2u8];
    expected.extend_from_slice(&id(1));
    expected.extend_from_slice(&[0xe8, 0x03]);
    assert_eq!(
        ClaudCoinInstruction::RecordToolUsage { tool_id: id(1), complexity_score: 1000 }.pack(),
        expected
    );
    let mut expected = vec![3u8];
    expected.extend_from_slice(&id(2));
    expected.extend_from_slice(&u64::MAX.to_le_bytes());
    expected.extend_from_slice(&7u64.to_le_bytes());
    assert_eq!(
        ClaudCoinInstruction::CreateAchievement {
            id: id(2),
            required_score: u64::MAX,
            reward_amount: 7
        }
        .pack(),
        expected
    );
    let mut expected = vec![4u8];
    expected.extend_from_slice(&id(3));
    assert_eq!(ClaudCoinInstruction::ClaimAchievement { achievement_id: id(3) }.pack(), expected);
}

#[test]
fn pack_then_unpack_gives_the_command_back() {
    let commands = [
        ClaudCoinInstruction::Initialize,
        ClaudCoinInstruction::MintReward { amount: 0, reward_type: 0 },
        ClaudCoinInstruction::MintReward { amount: u64::MAX, reward_type: u8::MAX },
        ClaudCoinInstruction::RecordToolUsage { tool_id: id(0), complexity_score: 0 },
        ClaudCoinInstruction::RecordToolUsage { tool_id: id(77), complexity_score: u16::MAX },
        ClaudCoinInstruction::CreateAchievement { id: id(4), required_score: 0, reward_amount: 0 },
        ClaudCoinInstruction::CreateAchievement {
            id: id(250),
            required_score: u64::MAX,
            reward_amount: u64::MAX,
        },
        ClaudCoinInstruction::ClaimAchievement { achievement_id: id(128) },
    ];
    for command in commands {
        assert_eq!(ClaudCoinInstruction::unpack(&command.pack()), Ok(command));
    }
}
