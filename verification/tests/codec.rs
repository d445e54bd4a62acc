use trade_ledger::{ProgramError, TradeInstruction, TradeRecord, TradeType};

fn sample_record() -> TradeRecord {
    TradeRecord {
        user_id: [1u8; 16],
        asset_symbol: "BTC".to_string(),
        trade_type: TradeType::Buy,
        quantity: 100000000,
        price: 4500000,
        timestamp: 1234567890,
    }
}

fn sample_instruction() -> TradeInstruction {
    TradeInstruction::RecordTrade {
        user_id: [1u8; 16],
        asset_symbol: "BTC".to_string(),
        trade_type: TradeType::Buy,
        quantity: 100000000,
        price: 4500000,
        timestamp: 1234567890,
    }
}

fn sample_record_bytes() -> Vec<u8> {
    let mut bytes = vec![1u8; 16];
    bytes.extend_from_slice(&[3, 0, 0, 0, b'B', b'T', b'C']);
    bytes.push(0);
    bytes.extend_from_slice(&[0x00, 0xe1, 0xf5, 0x05, 0, 0, 0, 0]);
    bytes.extend_from_slice(&[0x20, 0xaa, 0x44, 0x00, 0, 0, 0, 0]);
    bytes.extend_from_slice(&[0xd2, 0x02, 0x96, 0x49, 0, 0, 0, 0]);
    bytes
}

fn instruction_with(
    user_id: [u8; 16],
    asset_symbol: &str,
    trade_type: TradeType,
    quantity: u64,
    price: u64,
    timestamp: i64,
) -> TradeInstruction {
    TradeInstruction::RecordTrade {
        user_id,
        asset_symbol: asset_symbol.to_string(),
        trade_type,
        quantity,
        price,
        timestamp,
    }
}

#[test]
fn record_encoding_has_the_documented_layout() {
    let bytes = sample_record().encode().unwrap();
    assert_eq!(bytes.len(), 48);
    assert_eq!(bytes, sample_record_bytes());
}

#[test]
fn instruction_encoding_is_the_tag_and_the_record() {
    let bytes = sample_instruction().encode().unwrap();
    let mut expected = vec![0u8];
    expected.extend_from_slice(&sample_record_bytes());
    assert_eq!(bytes, expected);
}

#[test]
fn every_field_is_encoded_in_little_endian() {
    let mut user_id = [0u8; 16];
    for (i, b) in user_id.iter_mut().enumerate() {
        *b = 0xa0 + i as u8;
    }
    let record = TradeRecord {
        user_id,
        asset_symbol: "é€".to_string(),
        trade_type: TradeType::Sell,
        quantity: 0x0102030405060708,
        price: u64::MAX,
        timestamp: -2,
    };
    let mut expected = user_id.to_vec();
    expected.extend_from_slice(&[5, 0, 0, 0, 0xc3, 0xa9, 0xe2, 0x82, 0xac]);
    expected.push(1);
    expected.extend_from_slice(&[8, 7, 6, 5, 4, 3, 2, 1]);
    expected.extend_from_slice(&[0xff; 8]);
    expected.extend_from_slice(&[0xfe, 0xff, 0xff, 0xff, 0xff, 0xff, 0xff, 0xff]);
    assert_eq!(record.encode().unwrap(), expected);

    let (decoded, used) = TradeRecord::decode_prefix(&expected).unwrap();
    assert_eq!(used, expected.len());
    assert_eq!(decoded, record);
}

#[test]
fn extreme_timestamps_keep_their_sign() {
    for timestamp in [i64::MIN, -1, 0, 1, i64::MAX] {
        let record = TradeRecord { timestamp, ..sample_record() };
        let bytes = record.encode().unwrap();
        assert_eq!(&bytes[40..48], &timestamp.to_le_bytes());
        assert_eq!(TradeRecord::decode(&bytes).unwrap().timestamp, timestamp);
    }
}

#[test]
fn encoding_agrees_with_borsh_on_the_same_fields() {
    let record = sample_record();
    let as_tuple = (
        record.user_id,
        record.asset_symbol.clone(),
        0u8,
        record.quantity,
        record.price,
        record.timestamp,
    );
    assert_eq!(record.encode().unwrap(), borsh::to_vec(&as_tuple).unwrap());

    let with_tag = (0u8, as_tuple);
    assert_eq!(sample_instruction().encode().unwrap(), borsh::to_vec(&with_tag).unwrap());

    let fields: ([u8; 16], String, u8, u64, u64, i64) =
        borsh::from_slice(&record.encode().unwrap()).unwrap();
    assert_eq!(fields, ([1u8; 16], "BTC".to_string(), 0, 100000000, 4500000, 1234567890));
}

#[test]
fn decode_gives_back_what_was_encoded() {
    let instructions = vec![
        sample_instruction(),
        instruction_with([0u8; 16], "", TradeType::Buy, 0, 0, 0),
        instruction_with([0xff; 16], "ETH", TradeType::Sell, u64::MAX, u64::MAX, i64::MIN),
        instruction_with([3u8; 16], "日本円/USD", TradeType::Sell, 1, 2, i64::MAX),
        instruction_with([4u8; 16], &"X".repeat(1000), TradeType::Buy, 7, 8, -9),
    ];
    for instruction in instructions {
        let bytes = instruction.encode().unwrap();
        assert_eq!(TradeInstruction::decode(&bytes), Ok(instruction));
    }
}

#[test]
fn record_decode_gives_back_what_was_encoded() {
    let record = sample_record();
    let bytes = record.encode().unwrap();
    assert_eq!(TradeRecord::decode(&bytes), Some(record));
}

#[test]
fn decoded_bytes_encode_to_themselves() {
    let mut bytes = vec![0u8];
    bytes.extend_from_slice(&sample_record_bytes());
    bytes[17 + 4] = b'X';
    bytes[17 + 7] = 1;
    bytes[17 + 8] = 0x99;
    let instruction = TradeInstruction::decode(&bytes).unwrap();
    assert_eq!(
        instruction,
        instruction_with([1u8; 16], "XTC", TradeType::Sell, 100000153, 4500000, 1234567890)
    );
    assert_eq!(instruction.encode().unwrap(), bytes);
}

#[test]
fn every_truncation_is_refused() {
    let bytes = sample_instruction().encode().unwrap();
    for kept in 0..bytes.len() {
        assert_eq!(
            TradeInstruction::decode(&bytes[..kept]),
            Err(ProgramError::InvalidInstructionData),
            "kept {kept} bytes"
        );
    }
    let record = sample_record().encode().unwrap();
    for kept in 0..record.len() {
        assert_eq!(TradeRecord::decode(&record[..kept]), None);
        assert_eq!(TradeRecord::decode_prefix(&record[..kept]), None);
    }
}

#[test]
fn bytes_left_over_are_refused() {
    let mut bytes = sample_instruction().encode().unwrap();
    bytes.push(0);
    assert_eq!(TradeInstruction::decode(&bytes), Err(ProgramError::InvalidInstructionData));

    let mut record = sample_record().encode().unwrap();
    record.push(0);
    assert_eq!(TradeRecord::decode(&record), None);
    assert_eq!(TradeRecord::decode_prefix(&record), Some((sample_record(), 48)));
}

#[test]
fn unknown_instruction_tag_is_refused() {
    let mut bytes = sample_instruction().encode().unwrap();
    for tag in [1u8, 2, 0x7f, 0xff] {
        bytes[0] = tag;
        assert_eq!(TradeInstruction::decode(&bytes), Err(ProgramError::InvalidInstructionData));
    }
}

#[test]
fn unknown_trade_type_is_refused() {
    let mut bytes = sample_instruction().encode().unwrap();
    for tag in [2u8, 3, 0x80, 0xff] {
        bytes[1 + 16 + 4 + 3] = tag;
        assert_eq!(TradeInstruction::decode(&bytes), Err(ProgramError::InvalidInstructionData));
    }
    bytes[1 + 16 + 4 + 3] = 1;
    assert_eq!(
        TradeInstruction::decode(&bytes),
        Ok(instruction_with([1u8; 16], "BTC", TradeType::Sell, 100000000, 4500000, 1234567890))
    );
}

#[test]
fn symbol_that_is_not_utf8_is_refused() {
    let mut bytes = sample_instruction().encode().unwrap();
    bytes[1 + 16 + 4] = 0xff;
    assert_eq!(TradeInstruction::decode(&bytes), Err(ProgramError::InvalidInstructionData));

    let mut bytes = sample_instruction().encode().unwrap();
    bytes[1 + 16 + 4 + 2] = 0xc3;
    assert_eq!(TradeInstruction::decode(&bytes), Err(ProgramError::InvalidInstructionData));
}

#[test]
fn wrong_length_prefix_is_refused() {
    let good = sample_instruction().encode().unwrap();
    for prefix in [0u32, 2, 4, 27, 28, 1 << 16, u32::MAX] {
        let mut bytes = good.clone();
        bytes[17..21].copy_from_slice(&prefix.to_le_bytes());
        assert_eq!(
            TradeInstruction::decode(&bytes),
            Err(ProgramError::InvalidInstructionData),
            "prefix {prefix}"
        );
    }
}

#[test]
fn empty_symbol_is_accepted() {
    let instruction = instruction_with([5u8; 16], "", TradeType::Buy, 1, 2, 3);
    let bytes = instruction.encode().unwrap();
    assert_eq!(bytes.len(), 1 + 45);
    assert_eq!(&bytes[17..21], &[0, 0, 0, 0]);
    assert_eq!(TradeInstruction::decode(&bytes), Ok(instruction));
}

#[test]
fn decode_prefix_ignores_what_follows_the_record() {
    let mut bytes = sample_record_bytes();
    bytes.extend_from_slice(&[0xab; 100]);
    let (record, used) = TradeRecord::decode_prefix(&bytes).unwrap();
    assert_eq!(used, 48);
    assert_eq!(record, sample_record());
}

#[test]
fn trade_type_tags() {
    assert_eq!(TradeType::Buy.tag(), 0);
    assert_eq!(TradeType::Sell.tag(), 1);
    assert_eq!(TradeType::from_tag(0), Some(TradeType::Buy));
    assert_eq!(TradeType::from_tag(1), Some(TradeType::Sell));
    assert_eq!(TradeType::from_tag(2), None);
    assert_eq!(TradeType::from_tag(255), None);
}

#[test]
fn corrupted_bytes_never_decode_to_something_else_silently() {
    let good = sample_instruction().encode().unwrap();
    for at in 0..good.len() {
        for flip in [0x01u8, 0x80, 0xff] {
            let mut bytes = good.clone();
            bytes[at] ^= flip;
            match TradeInstruction::decode(&bytes) {
                Ok(instruction) => assert_eq!(instruction.encode().unwrap(), bytes),
                Err(e) => assert_eq!(e, ProgramError::InvalidInstructionData),
            }
        }
    }
}
