use alloy::primitives::{keccak256, Address as AlloyAddress, B256, I256, U256 as AlloyU256};
use alloy::sol_types::{sol_data, SolType, SolValue, TopicList};
use univ4_indexer::block::Log;
use univ4_indexer::events::{
    address_from_word, clear_high_bytes, copy_word, event_row, extend_sign, field_string,
    pool_manager_address, DecodedEvent, EventKind, EventLayout, FieldType, FieldValue, LogPlace,
};
use univ4_indexer::storage::writer::IntoClickhouseValue;
use univ4_indexer::primitives::{Address, FixedBytes};

const AT: &str = "2024-05-06 07:08:09";

fn words(seed: u64, count: usize) -> Vec<[u8; 32]> {
    let mut state = seed.wrapping_mul(0x9e37_79b9_7f4a_7c15).wrapping_add(1);
    let mut out = Vec::new();
    for n in 0..count {
        let mut word = [0u8; 32];
        for byte in word.iter_mut() {
            state = state.wrapping_mul(6364136223846793005).wrapping_add(1442695040888963407);
            *byte = (state >> 56) as u8;
        }
        match n % 4 {
            1 => word[..16].fill(0),
            2 => word[..16].fill(0xff),
            3 => word[..29].fill(0),
            _ => {}
        }
        out.push(word);
    }
    out
}

fn place() -> LogPlace {
    LogPlace {
        block_number: 100,
        transaction_hash: FixedBytes::new([0x77; 32]),
        transaction_index: 3,
        log_index: 5,
    }
}

fn initialize_log(data: Vec<u8>) -> Log {
    let mut currency0 = [0u8; 32];
    currency0[12..].fill(0x11);
    let mut currency1 = [0u8; 32];
    currency1[12..].fill(0x22);
    Log {
        address: pool_manager_address(),
        topics: vec![
            EventKind::Initialize.signature_hash(),
            FixedBytes::new([0xaa; 32]),
            FixedBytes::new(currency0),
            FixedBytes::new(currency1),
        ],
        data,
    }
}

fn initialize_data() -> Vec<u8> {
    let fee = alloy::primitives::aliases::U24::from(3000u32);
    let tick_spacing = alloy::primitives::aliases::I24::try_from(60i32).unwrap();
    let hooks = AlloyAddress::ZERO;
    let price = alloy::primitives::aliases::U160::from(1u128 << 96);
    let tick = alloy::primitives::aliases::I24::try_from(0i32).unwrap();
    (fee, tick_spacing, hooks, price, tick).abi_encode_sequence()
}

#[test]
fn signature_hashes_are_the_keccak_of_the_signatures() {
    let pairs = [
        (
            EventKind::Initialize,
            "Initialize(bytes32,address,address,uint24,int24,address,uint160,int24)",
        ),
        (
            EventKind::ModifyLiquidity,
            "ModifyLiquidity(bytes32,address,int24,int24,int256,bytes32)",
        ),
        (
            EventKind::Swap,
            "Swap(bytes32,address,int128,int128,uint160,uint128,int24,uint24)",
        ),
        (EventKind::Donate, "Donate(bytes32,address,uint256,uint256)"),
    ];
    for (kind, signature) in pairs {
        assert_eq!(kind.signature_hash().bytes, keccak256(signature.as_bytes()).0);
    }
}

#[test]
fn pool_manager_is_the_known_contract() {
    let expected: AlloyAddress = "0x000000000004444c5dc75cB358380D2e3dE08A90".parse().unwrap();
    assert_eq!(pool_manager_address().bytes, expected.into_array());
}

#[test]
fn layouts_follow_the_event_declarations() {
    assert_eq!(EventKind::Initialize.indexed_types().len(), 3);
    assert_eq!(EventKind::Initialize.data_types().len(), 5);
    assert_eq!(EventKind::ModifyLiquidity.indexed_types().len(), 2);
    assert_eq!(EventKind::ModifyLiquidity.data_types().len(), 4);
    assert_eq!(EventKind::Swap.indexed_types().len(), 2);
    assert_eq!(EventKind::Swap.data_types().len(), 6);
    assert_eq!(EventKind::Donate.indexed_types().len(), 2);
    assert_eq!(EventKind::Donate.data_types().len(), 2);
    assert_eq!(FieldType::Uint24.byte_width(), 3);
    assert_eq!(FieldType::Int24.byte_width(), 3);
    assert_eq!(FieldType::Uint128.byte_width(), 16);
    assert_eq!(FieldType::Int128.byte_width(), 16);
    assert_eq!(FieldType::Uint160.byte_width(), 20);
    assert_eq!(FieldType::Address.byte_width(), 20);
    assert_eq!(FieldType::Uint256.byte_width(), 32);
    assert_eq!(FieldType::Int256.byte_width(), 32);
    assert_eq!(FieldType::Bytes32.byte_width(), 32);
}

#[test]
fn word_helpers_keep_the_low_bytes() {
    let mut word = [0u8; 32];
    for (i, byte) in word.iter_mut().enumerate() {
        *byte = (i as u8) | 0x80;
    }
    let cleared = clear_high_bytes(&word, 3);
    assert_eq!(&cleared[..29], &[0u8; 29]);
    assert_eq!(&cleared[29..], &word[29..]);
    assert_eq!(clear_high_bytes(&word, 32), word);
    let extended = extend_sign(&word, 3);
    assert_eq!(&extended[..29], &[0xffu8; 29]);
    assert_eq!(&extended[29..], &word[29..]);
    word[29] = 0x7f;
    let extended = extend_sign(&word, 3);
    assert_eq!(&extended[..29], &[0u8; 29]);
    assert_eq!(extend_sign(&word, 32), word);
    assert_eq!(address_from_word(&word).bytes, word[12..]);
    let data: Vec<u8> = (0..96).map(|i| i as u8).collect();
    let expected: Vec<u8> = (32..64).map(|i| i as u8).collect();
    assert_eq!(copy_word(&data, 1).to_vec(), expected);
}

#[test]
fn field_texts_agree_with_the_abi_decoder() {
    for word in words(7, 64) {
        assert_eq!(
            field_string(FieldType::Uint24, &word),
            <sol_data::Uint<24> as SolType>::abi_decode(&word).unwrap().to_string()
        );
        assert_eq!(
            field_string(FieldType::Int24, &word),
            <sol_data::Int<24> as SolType>::abi_decode(&word).unwrap().to_string()
        );
        assert_eq!(
            field_string(FieldType::Uint128, &word),
            <sol_data::Uint<128> as SolType>::abi_decode(&word).unwrap().to_string()
        );
        assert_eq!(
            field_string(FieldType::Int128, &word),
            <sol_data::Int<128> as SolType>::abi_decode(&word).unwrap().to_string()
        );
        assert_eq!(
            field_string(FieldType::Uint160, &word),
            <sol_data::Uint<160> as SolType>::abi_decode(&word).unwrap().to_string()
        );
        assert_eq!(
            field_string(FieldType::Uint256, &word),
            <sol_data::Uint<256> as SolType>::abi_decode(&word).unwrap().to_string()
        );
        assert_eq!(
            field_string(FieldType::Int256, &word),
            <sol_data::Int<256> as SolType>::abi_decode(&word).unwrap().to_string()
        );
        assert_eq!(
            field_string(FieldType::Address, &word),
            <sol_data::Address as SolType>::abi_decode(&word).unwrap().to_checksum(Some(1))
        );
        assert_eq!(
            field_string(FieldType::Bytes32, &word),
            <sol_data::FixedBytes<32> as SolType>::abi_decode(&word).unwrap().to_string()
        );
    }
}

#[test]
fn field_texts_of_chosen_words() {
    let mut word = [0u8; 32];
    word[30] = 0x0b;
    word[31] = 0xb8;
    assert_eq!(field_string(FieldType::Uint24, &word), "3000");
    assert_eq!(field_string(FieldType::Int24, &word), "3000");
    word[0] = 0xff;
    assert_eq!(field_string(FieldType::Uint24, &word), "3000");
    assert_eq!(field_string(FieldType::Uint128, &word), "3000");
    assert_eq!(field_string(FieldType::Int256, &word).starts_with('-'), true);
    let minus_sixty = I256::try_from(-60i64).unwrap().to_be_bytes::<32>();
    assert_eq!(field_string(FieldType::Int24, &minus_sixty), "-60");
    assert_eq!(field_string(FieldType::Int128, &minus_sixty), "-60");
    assert_eq!(field_string(FieldType::Int256, &minus_sixty), "-60");
    assert_eq!(field_string(FieldType::Uint24, &minus_sixty), "16777156");
    let mut least = [0u8; 32];
    least[29] = 0x80;
    assert_eq!(field_string(FieldType::Int24, &least), "-8388608");
    assert_eq!(field_string(FieldType::Uint24, &least), "8388608");
    assert_eq!(
        field_string(FieldType::Uint256, &AlloyU256::MAX.to_be_bytes::<32>()),
        AlloyU256::MAX.to_string()
    );
}

#[test]
fn initialize_log_gives_the_pool_row() {
    let layout = EventLayout::of(EventKind::Initialize);
    let row = layout.row_of(&place(), &initialize_log(initialize_data()), AT).unwrap();
    let currency0 = AlloyAddress::repeat_byte(0x11).to_checksum(Some(1));
    let currency1 = AlloyAddress::repeat_byte(0x22).to_checksum(Some(1));
    let manager = pool_manager_address().to_checksum();
    let expected: Vec<String> = vec![
        "100".to_string(),
        format!("0x{}", "77".repeat(32)),
        "3".to_string(),
        "5".to_string(),
        manager,
        format!("0x{}", "aa".repeat(32)),
        currency0,
        currency1,
        "3000".to_string(),
        "60".to_string(),
        "0x0000000000000000000000000000000000000000".to_string(),
        "79228162514264337593543950336".to_string(),
        "0".to_string(),
        AT.to_string(),
    ];
    assert_eq!(row, expected);
}

#[test]
fn logs_of_other_emitters_or_events_give_no_row() {
    let layout = EventLayout::of(EventKind::Initialize);
    let mut other_emitter = initialize_log(initialize_data());
    other_emitter.address = Address::new([0x01; 20]);
    assert!(layout.row_of(&place(), &other_emitter, AT).is_none());
    let mut other_event = initialize_log(initialize_data());
    other_event.topics[0] = EventKind::Swap.signature_hash();
    assert!(layout.row_of(&place(), &other_event, AT).is_none());
    let mut no_topics = initialize_log(initialize_data());
    no_topics.topics.clear();
    assert!(layout.row_of(&place(), &no_topics, AT).is_none());
    for kind in [EventKind::ModifyLiquidity, EventKind::Swap, EventKind::Donate] {
        let layout = EventLayout::of(kind);
        assert!(layout.row_of(&place(), &initialize_log(initialize_data()), AT).is_none());
    }
}

#[test]
fn logs_that_do_not_decode_give_no_row() {
    let layout = EventLayout::of(EventKind::Initialize);
    let mut short = initialize_data();
    short.pop();
    assert_eq!(short.len(), 159);
    assert!(layout.row_of(&place(), &initialize_log(short), AT).is_none());
    assert!(layout.row_of(&place(), &initialize_log(Vec::new()), AT).is_none());
    let mut few_topics = initialize_log(initialize_data());
    few_topics.topics.pop();
    assert!(layout.row_of(&place(), &few_topics, AT).is_none());
    let mut many_topics = initialize_log(initialize_data());
    many_topics.topics.push(FixedBytes::new([0u8; 32]));
    assert!(layout.row_of(&place(), &many_topics, AT).is_none());
    let mut long = initialize_data();
    long.extend_from_slice(&[0xee; 40]);
    let with_more = layout.row_of(&place(), &initialize_log(long), AT).unwrap();
    let exact = layout.row_of(&place(), &initialize_log(initialize_data()), AT).unwrap();
    assert_eq!(with_more, exact);
}

#[test]
fn rows_agree_with_the_abi_decoder_on_any_payload() {
    type Data = (
        sol_data::Int<24>,
        sol_data::Int<24>,
        sol_data::Int<256>,
        sol_data::FixedBytes<32>,
    );
    type Topics = (sol_data::FixedBytes<32>, sol_data::FixedBytes<32>, sol_data::Address);
    let layout = EventLayout::of(EventKind::ModifyLiquidity);
    for seed in 0..40u64 {
        let source = words(seed, 8);
        let length = (seed as usize * 7) % 160;
        let data: Vec<u8> = source.iter().flatten().copied().take(length).collect();
        let topic_count = 1 + (seed as usize % 4);
        let mut topics = vec![EventKind::ModifyLiquidity.signature_hash()];
        for word in source.iter().take(topic_count - 1) {
            topics.push(FixedBytes::new(*word));
        }
        let log = Log { address: pool_manager_address(), topics, data: data.clone() };
        let row = layout.row_of(&place(), &log, AT);
        let outside_topics =
            <Topics as TopicList>::detokenize(log.topics.iter().map(|t| B256::new(t.bytes)));
        let outside_data = <Data as SolType>::abi_decode_sequence(&data);
        match (outside_topics, outside_data) {
            (Ok((_, id, sender)), Ok((lower, upper, delta, salt))) => {
                let row = row.unwrap();
                assert_eq!(row.len(), 12);
                assert_eq!(row[5], id.to_string());
                assert_eq!(row[6], sender.to_checksum(Some(1)));
                assert_eq!(row[7], lower.to_string());
                assert_eq!(row[8], upper.to_string());
                assert_eq!(row[9], delta.to_string());
                assert_eq!(row[10], salt.to_string());
                assert_eq!(row[11], AT);
            }
            _ => assert!(row.is_none()),
        }
    }
}

#[test]
fn swap_and_donate_rows_have_their_fields() {
    let mut sender = [0u8; 32];
    sender[12..].fill(0x33);
    let topics = |kind: EventKind| {
        vec![kind.signature_hash(), FixedBytes::new([0xbb; 32]), FixedBytes::new(sender)]
    };
    let swap_data = (
        -5i128,
        7i128,
        alloy::primitives::aliases::U160::from(1u128 << 96),
        9u128,
        alloy::primitives::aliases::I24::try_from(-3i32).unwrap(),
        alloy::primitives::aliases::U24::from(500u32),
    )
        .abi_encode_sequence();
    let swap = Log { address: pool_manager_address(), topics: topics(EventKind::Swap), data: swap_data };
    let row = EventLayout::of(EventKind::Swap).row_of(&place(), &swap, AT).unwrap();
    assert_eq!(row.len(), 14);
    assert_eq!(row[5], format!("0x{}", "bb".repeat(32)));
    assert_eq!(row[6], AlloyAddress::repeat_byte(0x33).to_checksum(Some(1)));
    assert_eq!(&row[7..13], ["-5", "7", "79228162514264337593543950336", "9", "-3", "500"]);
    let donate_data = (AlloyU256::from(11u64), AlloyU256::MAX).abi_encode_sequence();
    let donate = Log {
        address: pool_manager_address(),
        topics: topics(EventKind::Donate),
        data: donate_data,
    };
    let row = EventLayout::of(EventKind::Donate).row_of(&place(), &donate, AT).unwrap();
    assert_eq!(row.len(), 10);
    assert_eq!(row[7], "11");
    assert_eq!(row[8], AlloyU256::MAX.to_string());
    assert_eq!(row[9], AT);
}

#[test]
fn decoding_gives_typed_values() {
    let mut word = [0xffu8; 32];
    word[29] = 0x00;
    word[30] = 0x0b;
    word[31] = 0xb8;
    match FieldValue::decode(FieldType::Uint24, &word) {
        FieldValue::Uint(value) => {
            let mut expected = [0u8; 32];
            expected[30] = 0x0b;
            expected[31] = 0xb8;
            assert_eq!(value.bytes, expected);
        }
        other => panic!("not an unsigned integer: {:?}", other),
    }
    match FieldValue::decode(FieldType::Int24, &word) {
        FieldValue::Signed(value) => {
            let mut expected = [0u8; 32];
            expected[30] = 0x0b;
            expected[31] = 0xb8;
            assert_eq!(value.bytes, expected);
        }
        other => panic!("not a signed integer: {:?}", other),
    }
    match FieldValue::decode(FieldType::Int128, &word) {
        FieldValue::Signed(value) => {
            let mut expected = [0xffu8; 32];
            expected[16..].copy_from_slice(&word[16..]);
            assert_eq!(value.bytes, expected);
        }
        other => panic!("not a signed integer: {:?}", other),
    }
    match FieldValue::decode(FieldType::Address, &word) {
        FieldValue::Address(value) => assert_eq!(value.bytes, word[12..]),
        other => panic!("not an address: {:?}", other),
    }
    match FieldValue::decode(FieldType::Bytes32, &word) {
        FieldValue::Bytes32(value) => assert_eq!(value.bytes, word),
        other => panic!("not a 32-byte value: {:?}", other),
    }
    for field in [
        FieldType::Bytes32,
        FieldType::Address,
        FieldType::Uint24,
        FieldType::Uint128,
        FieldType::Uint160,
        FieldType::Uint256,
        FieldType::Int24,
        FieldType::Int128,
        FieldType::Int256,
    ] {
        assert_eq!(FieldValue::decode(field, &word).into_ch_value(), field_string(field, &word));
    }
}

#[test]
fn decoding_a_log_gives_the_event() {
    let layout = EventLayout::of(EventKind::Initialize);
    let event = layout.decode(&initialize_log(initialize_data())).unwrap();
    assert!(matches!(event.kind, EventKind::Initialize));
    assert_eq!(event.fields.len(), 8);
    assert!(matches!(event.fields[0], FieldValue::Bytes32(id) if id.bytes == [0xaa; 32]));
    assert!(matches!(event.fields[1], FieldValue::Address(a) if a.bytes == [0x11; 20]));
    assert!(matches!(event.fields[2], FieldValue::Address(a) if a.bytes == [0x22; 20]));
    assert!(matches!(event.fields[3], FieldValue::Uint(_)));
    assert!(matches!(event.fields[4], FieldValue::Signed(_)));
    assert!(matches!(event.fields[5], FieldValue::Address(a) if a.bytes == [0u8; 20]));
    assert!(matches!(event.fields[6], FieldValue::Uint(_)));
    assert!(matches!(event.fields[7], FieldValue::Signed(_)));
    assert_eq!(
        event.texts()[3..],
        ["3000", "60", "0x0000000000000000000000000000000000000000", "79228162514264337593543950336", "0"]
    );
    let mut other = initialize_log(initialize_data());
    other.address = Address::new([9; 20]);
    assert!(layout.decode(&other).is_some());
    other.topics[0] = EventKind::Donate.signature_hash();
    assert!(layout.decode(&other).is_none());
    assert!(EventLayout::of(EventKind::Donate).decode(&other).is_none());
}

#[test]
fn an_event_row_has_origin_fields_and_time() {
    let event = DecodedEvent {
        kind: EventKind::Donate,
        fields: vec![
            FieldValue::decode(FieldType::Bytes32, &[1u8; 32]),
            FieldValue::decode(FieldType::Uint256, &[0u8; 32]),
        ],
    };
    let row = event_row(&place(), &Address::new([0u8; 20]), &event, AT);
    assert_eq!(
        row,
        vec![
            "100".to_string(),
            format!("0x{}", "77".repeat(32)),
            "3".to_string(),
            "5".to_string(),
            "0x0000000000000000000000000000000000000000".to_string(),
            format!("0x{}", "01".repeat(32)),
            "0".to_string(),
            AT.to_string(),
        ]
    );
    let far = LogPlace {
        block_number: u64::MAX,
        transaction_hash: FixedBytes::new([0; 32]),
        transaction_index: 0,
        log_index: 0,
    };
    let row = event_row(&far, &Address::new([0u8; 20]), &event, AT);
    assert_eq!(row[0], (u64::MAX as i64).to_string());
}

#[test]
fn a_log_fails_only_where_it_matches_and_does_not_decode() {
    let layout = EventLayout::of(EventKind::Initialize);
    assert!(!layout.fails_to_decode(&initialize_log(initialize_data())));
    assert!(layout.fails_to_decode(&initialize_log(Vec::new())));
    let mut few_topics = initialize_log(initialize_data());
    few_topics.topics.truncate(2);
    assert!(layout.fails_to_decode(&few_topics));
    let mut other_emitter = initialize_log(Vec::new());
    other_emitter.address = Address::new([1; 20]);
    assert!(!layout.fails_to_decode(&other_emitter));
    let mut other_event = initialize_log(Vec::new());
    other_event.topics[0] = EventKind::Swap.signature_hash();
    assert!(!layout.fails_to_decode(&other_event));
    let mut no_topics = initialize_log(Vec::new());
    no_topics.topics.clear();
    assert!(!layout.fails_to_decode(&no_topics));
    assert!(!EventLayout::of(EventKind::Donate).fails_to_decode(&initialize_log(Vec::new())));
}

#[test]
fn address_fields_have_the_shape_of_a_checksum_text() {
    for word in words(11, 32) {
        let text = field_string(FieldType::Address, &word);
        assert_eq!(text.len(), 42);
        assert!(text.starts_with("0x"));
        assert_eq!(
            text.to_ascii_lowercase(),
            format!("0x{}", alloy::primitives::hex::encode(&word[12..]))
        );
    }
}
