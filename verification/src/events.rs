//! The events of the pool manager: which logs belong to an event family, how
//! the fields lie in a log's topics and payload, and the text of each field.
//!
//! A log belongs to a family when the pool manager emitted it and its first
//! topic is the family's signature hash. Its indexed fields are the topics
//! after the first, one word each; its other fields are the leading 32-byte
//! words of the payload. A word holds more bits than most field types: the
//! bits above the type's width are not looked at.
use crate::block::{Log, LogSpec};
use crate::primitives::{
    address_checksum, be_value, is_checksum_text, lemma_be_value_bound,
    lemma_be_value_of_filling, lemma_be_value_of_parts, lemma_checksum_text_reads_back,
    signed_be_value, Address, FixedBytes, Signed, Uint,
};
use crate::storage::writer::IntoClickhouseValue;
use crate::text::{
    decimal_digits, decimal_text, decimal_value, hex_text, hex_value, lower_case,
    lemma_decimal_digits_read_back, lemma_decimal_text_reads_back, lemma_hex_text_reads_back,
    signed_decimal_value, texts,
};
use vstd::arithmetic::power::{lemma_pow_adds, lemma_pow_positive, pow};
use vstd::prelude::*;

verus! {

/// An event family.
#[derive(Debug, Clone, Copy)]
pub enum EventKind {
    /// `Initialize(bytes32 indexed id, address indexed currency0, address
    /// indexed currency1, uint24 fee, int24 tickSpacing, address hooks,
    /// uint160 sqrtPriceX96, int24 tick)`
    Initialize,
    /// `ModifyLiquidity(bytes32 indexed id, address indexed sender, int24
    /// tickLower, int24 tickUpper, int256 liquidityDelta, bytes32 salt)`
    ModifyLiquidity,
    /// `Swap(bytes32 indexed id, address indexed sender, int128 amount0,
    /// int128 amount1, uint160 sqrtPriceX96, uint128 liquidity, int24 tick,
    /// uint24 fee)`
    Swap,
    /// `Donate(bytes32 indexed id, address indexed sender, uint256 amount0,
    /// uint256 amount1)`
    Donate,
}

/// The type of an event field.
#[derive(Debug, Clone, Copy)]
pub enum FieldType {
    Bytes32,
    Address,
    Uint24,
    Uint128,
    Uint160,
    Uint256,
    Int24,
    Int128,
    Int256,
}

/// The value of an event field.
#[derive(Debug, Clone, Copy)]
pub enum FieldValue {
    Bytes32(FixedBytes),
    Address(Address),
    Uint(Uint),
    Signed(Signed),
}

/// An event that was read from a log: its family and the values of its
/// fields, the indexed ones first.
#[derive(Debug)]
pub struct DecodedEvent {
    pub kind: EventKind,
    pub fields: Vec<FieldValue>,
}

/// The address of the pool manager.
pub open spec fn pool_manager() -> Seq<u8> {
    seq![
        0x00u8, 0x00u8, 0x00u8, 0x00u8, 0x00u8, 0x04u8, 0x44u8, 0x4cu8, 0x5du8, 0xc7u8,
        0x5cu8, 0xb3u8, 0x58u8, 0x38u8, 0x0du8, 0x2eu8, 0x3du8, 0xe0u8, 0x8au8, 0x90u8,
    ]
}

/// The address of the pool manager.
pub fn pool_manager_address() -> (address: Address)
    ensures
        address.bytes@ == pool_manager(),
{
    let bytes: [u8; 20] = [
        0x00, 0x00, 0x00, 0x00, 0x00, 0x04, 0x44, 0x4c, 0x5d, 0xc7,
        0x5c, 0xb3, 0x58, 0x38, 0x0d, 0x2e, 0x3d, 0xe0, 0x8a, 0x90,
    ];
    Address { bytes }
}

impl FieldType {
    /// The number of low bytes of a word that the type reads.
    pub open spec fn width(self) -> int {
        match self {
            FieldType::Bytes32 => 32,
            FieldType::Address => 20,
            FieldType::Uint24 => 3,
            FieldType::Uint128 => 16,
            FieldType::Uint160 => 20,
            FieldType::Uint256 => 32,
            FieldType::Int24 => 3,
            FieldType::Int128 => 16,
            FieldType::Int256 => 32,
        }
    }

    /// The number of low bytes of a word that the type reads.
    pub fn byte_width(&self) -> (width: usize)
        ensures
            width == self.width(),
            1 <= width <= 32,
    {
        match self {
            FieldType::Bytes32 => 32,
            FieldType::Address => 20,
            FieldType::Uint24 => 3,
            FieldType::Uint128 => 16,
            FieldType::Uint160 => 20,
            FieldType::Uint256 => 32,
            FieldType::Int24 => 3,
            FieldType::Int128 => 16,
            FieldType::Int256 => 32,
        }
    }
}

impl EventKind {
    /// The number of values in a row of the event: five that say where the
    /// log was found, one for each field, and the time of processing.
    pub open spec fn width(self) -> nat {
        6 + self.indexed().len() + self.data().len()
    }

    /// The number of values in a row of the event.
    pub fn row_width(&self) -> (width: usize)
        ensures
            width == self.width(),
    {
        match self {
            EventKind::Initialize => 14,
            EventKind::ModifyLiquidity => 12,
            EventKind::Swap => 14,
            EventKind::Donate => 10,
        }
    }

    /// The Keccak-256 hash of the event's signature.
    pub open spec fn signature(self) -> Seq<u8> {
        match self {
            EventKind::Initialize => seq![
                0xddu8, 0x46u8, 0x6eu8, 0x67u8, 0x4eu8, 0xa5u8, 0x57u8, 0xf5u8, 0x62u8, 0x95u8,
                0xe2u8, 0xd0u8, 0x21u8, 0x8au8, 0x12u8, 0x5eu8, 0xa4u8, 0xb4u8, 0xf0u8, 0xf6u8,
                0xf3u8, 0x30u8, 0x7bu8, 0x95u8, 0xf8u8, 0x5eu8, 0x61u8, 0x10u8, 0x83u8, 0x8du8,
                0x64u8, 0x38u8,
            ],
            EventKind::ModifyLiquidity => seq![
                0xf2u8, 0x08u8, 0xf4u8, 0x91u8, 0x27u8, 0x82u8, 0xfdu8, 0x25u8, 0xc7u8, 0xf1u8,
                0x14u8, 0xcau8, 0x37u8, 0x23u8, 0xa2u8, 0xd5u8, 0xddu8, 0x6fu8, 0x3bu8, 0xccu8,
                0x3au8, 0xc8u8, 0xdbu8, 0x5au8, 0xf6u8, 0x3bu8, 0xaau8, 0x85u8, 0xf7u8, 0x11u8,
                0xd5u8, 0xecu8,
            ],
            EventKind::Swap => seq![
                0x40u8, 0xe9u8, 0xceu8, 0xcbu8, 0x9fu8, 0x5fu8, 0x1fu8, 0x1cu8, 0x5bu8, 0x9cu8,
                0x97u8, 0xdeu8, 0xc2u8, 0x91u8, 0x7bu8, 0x7eu8, 0xe9u8, 0x2eu8, 0x57u8, 0xbau8,
                0x55u8, 0x63u8, 0x70u8, 0x8du8, 0xacu8, 0xa9u8, 0x4du8, 0xd8u8, 0x4au8, 0xd7u8,
                0x11u8, 0x2fu8,
            ],
            EventKind::Donate => seq![
                0x29u8, 0xefu8, 0x05u8, 0xcau8, 0xafu8, 0xf9u8, 0x40u8, 0x4bu8, 0x7cu8, 0xb6u8,
                0xd1u8, 0xc0u8, 0xe9u8, 0xbbu8, 0xaeu8, 0x9eu8, 0xaau8, 0x7au8, 0xb2u8, 0x54u8,
                0x1fu8, 0xebu8, 0xa1u8, 0xa9u8, 0xc4u8, 0x24u8, 0x85u8, 0x94u8, 0xc0u8, 0x81u8,
                0x56u8, 0xcbu8,
            ],
        }
    }

    /// The types of the indexed fields, in the order of the topics after the
    /// first.
    pub open spec fn indexed(self) -> Seq<FieldType> {
        match self {
            EventKind::Initialize => seq![
                FieldType::Bytes32,
                FieldType::Address,
                FieldType::Address,
            ],
            _ => seq![FieldType::Bytes32, FieldType::Address],
        }
    }

    /// The types of the fields in the payload, in order.
    pub open spec fn data(self) -> Seq<FieldType> {
        match self {
            EventKind::Initialize => seq![
                FieldType::Uint24,
                FieldType::Int24,
                FieldType::Address,
                FieldType::Uint160,
                FieldType::Int24,
            ],
            EventKind::ModifyLiquidity => seq![
                FieldType::Int24,
                FieldType::Int24,
                FieldType::Int256,
                FieldType::Bytes32,
            ],
            EventKind::Swap => seq![
                FieldType::Int128,
                FieldType::Int128,
                FieldType::Uint160,
                FieldType::Uint128,
                FieldType::Int24,
                FieldType::Uint24,
            ],
            EventKind::Donate => seq![FieldType::Uint256, FieldType::Uint256],
        }
    }

    /// The Keccak-256 hash of the event's signature.
    pub fn signature_hash(&self) -> (hash: FixedBytes)
        ensures
            hash.bytes@ == self.signature(),
    {
        let bytes: [u8; 32] = match self {
            EventKind::Initialize => [
                0xdd, 0x46, 0x6e, 0x67, 0x4e, 0xa5, 0x57, 0xf5, 0x62, 0x95, 0xe2, 0xd0, 0x21,
                0x8a, 0x12, 0x5e, 0xa4, 0xb4, 0xf0, 0xf6, 0xf3, 0x30, 0x7b, 0x95, 0xf8, 0x5e,
                0x61, 0x10, 0x83, 0x8d, 0x64, 0x38,
            ],
            EventKind::ModifyLiquidity => [
                0xf2, 0x08, 0xf4, 0x91, 0x27, 0x82, 0xfd, 0x25, 0xc7, 0xf1, 0x14, 0xca, 0x37,
                0x23, 0xa2, 0xd5, 0xdd, 0x6f, 0x3b, 0xcc, 0x3a, 0xc8, 0xdb, 0x5a, 0xf6, 0x3b,
                0xaa, 0x85, 0xf7, 0x11, 0xd5, 0xec,
            ],
            EventKind::Swap => [
                0x40, 0xe9, 0xce, 0xcb, 0x9f, 0x5f, 0x1f, 0x1c, 0x5b, 0x9c, 0x97, 0xde, 0xc2,
                0x91, 0x7b, 0x7e, 0xe9, 0x2e, 0x57, 0xba, 0x55, 0x63, 0x70, 0x8d, 0xac, 0xa9,
                0x4d, 0xd8, 0x4a, 0xd7, 0x11, 0x2f,
            ],
            EventKind::Donate => [
                0x29, 0xef, 0x05, 0xca, 0xaf, 0xf9, 0x40, 0x4b, 0x7c, 0xb6, 0xd1, 0xc0, 0xe9,
                0xbb, 0xae, 0x9e, 0xaa, 0x7a, 0xb2, 0x54, 0x1f, 0xeb, 0xa1, 0xa9, 0xc4, 0x24,
                0x85, 0x94, 0xc0, 0x81, 0x56, 0xcb,
            ],
        };
        FixedBytes { bytes }
    }

    /// The types of the indexed fields.
    pub fn indexed_types(&self) -> (types: Vec<FieldType>)
        ensures
            types@ == self.indexed(),
    {
        let mut types: Vec<FieldType> = Vec::new();
        types.push(FieldType::Bytes32);
        types.push(FieldType::Address);
        match self {
            EventKind::Initialize => {
                types.push(FieldType::Address);
            },
            _ => {},
        }
        types
    }

    /// The types of the fields in the payload.
    pub fn data_types(&self) -> (types: Vec<FieldType>)
        ensures
            types@ == self.data(),
    {
        let mut types: Vec<FieldType> = Vec::new();
        match self {
            EventKind::Initialize => {
                types.push(FieldType::Uint24);
                types.push(FieldType::Int24);
                types.push(FieldType::Address);
                types.push(FieldType::Uint160);
                types.push(FieldType::Int24);
            },
            EventKind::ModifyLiquidity => {
                types.push(FieldType::Int24);
                types.push(FieldType::Int24);
                types.push(FieldType::Int256);
                types.push(FieldType::Bytes32);
            },
            EventKind::Swap => {
                types.push(FieldType::Int128);
                types.push(FieldType::Int128);
                types.push(FieldType::Uint160);
                types.push(FieldType::Uint128);
                types.push(FieldType::Int24);
                types.push(FieldType::Uint24);
            },
            EventKind::Donate => {
                types.push(FieldType::Uint256);
                types.push(FieldType::Uint256);
            },
        }
        types
    }
}

/// The 32-byte word of `data` at position `index`.
pub open spec fn word_at(data: Seq<u8>, index: int) -> Seq<u8> {
    data.subrange(32 * index, 32 * index + 32)
}

/// The word with everything above its `kept` low bytes set to zero.
pub open spec fn unsigned_word(word: Seq<u8>, kept: int) -> Seq<u8> {
    Seq::new(32, |i: int| if i < 32 - kept { 0u8 } else { word[i] })
}

/// The word with everything above its `kept` low bytes set to the sign of
/// those bytes.
pub open spec fn signed_word(word: Seq<u8>, kept: int) -> Seq<u8> {
    Seq::new(
        32,
        |i: int|
            if i < 32 - kept {
                if word[32 - kept] >= 128 {
                    255u8
                } else {
                    0u8
                }
            } else {
                word[i]
            },
    )
}

/// The address in the low 20 bytes of a word.
pub open spec fn address_of_word(word: Seq<u8>) -> Seq<u8> {
    word.subrange(12, 32)
}

/// The text of the field of type `field` that `word` holds: a 32-byte value
/// in full hex, an address with its checksum for chain id 1, an integer in
/// decimal.
pub open spec fn field_text(field: FieldType, word: Seq<u8>) -> Seq<char> {
    match field {
        FieldType::Bytes32 => "0x"@ + hex_text(word),
        FieldType::Address => address_checksum(address_of_word(word), 1),
        FieldType::Uint24 | FieldType::Uint128 | FieldType::Uint160 | FieldType::Uint256 => {
            decimal_digits(be_value(unsigned_word(word, field.width())))
        },
        FieldType::Int24 | FieldType::Int128 | FieldType::Int256 => decimal_text(
            signed_be_value(signed_word(word, field.width())),
        ),
    }
}

/// The word with everything above its `kept` low bytes set to zero.
pub fn clear_high_bytes(word: &[u8; 32], kept: usize) -> (out: [u8; 32])
    requires
        1 <= kept <= 32,
    ensures
        out@ == unsigned_word(word@, kept as int),
{
    let mut out: [u8; 32] = [0u8; 32];
    let mut i: usize = 32 - kept;
    while i < 32
        invariant
            1 <= kept <= 32,
            32 - kept <= i <= 32,
            forall|k: int| 0 <= k < 32 - kept ==> out@[k] == 0,
            forall|k: int| 32 - kept <= k < i ==> out@[k] == word@[k],
        decreases 32 - i,
    {
        out[i] = word[i];
        i += 1;
    }
    out
}

/// The word with everything above its `kept` low bytes set to the sign of
/// those bytes.
pub fn extend_sign(word: &[u8; 32], kept: usize) -> (out: [u8; 32])
    requires
        1 <= kept <= 32,
    ensures
        out@ == signed_word(word@, kept as int),
{
    let fill: u8 = if word[32 - kept] >= 128 { 255 } else { 0 };
    let mut out: [u8; 32] = [fill; 32];
    let mut i: usize = 32 - kept;
    while i < 32
        invariant
            1 <= kept <= 32,
            32 - kept <= i <= 32,
            forall|k: int| 0 <= k < 32 - kept ==> out@[k] == fill,
            forall|k: int| 32 - kept <= k < i ==> out@[k] == word@[k],
        decreases 32 - i,
    {
        out[i] = word[i];
        i += 1;
    }
    out
}

/// The address in the low 20 bytes of a word.
pub fn address_from_word(word: &[u8; 32]) -> (address: Address)
    ensures
        address.bytes@ == address_of_word(word@),
{
    let mut bytes: [u8; 20] = [0u8; 20];
    let mut i: usize = 0;
    while i < 20
        invariant
            i <= 20,
            forall|k: int| 0 <= k < i ==> bytes@[k] == word@[k + 12],
        decreases 20 - i,
    {
        bytes[i] = word[i + 12];
        i += 1;
    }
    Address { bytes }
}

/// The 32-byte word of `data` at position `index`.
pub fn copy_word(data: &Vec<u8>, index: usize) -> (out: [u8; 32])
    requires
        32 * (index + 1) <= data.len(),
    ensures
        out@ == word_at(data@, index as int),
{
    let mut out: [u8; 32] = [0u8; 32];
    let start: usize = 32 * index;
    let mut i: usize = 0;
    while i < 32
        invariant
            i <= 32,
            start == 32 * index,
            start + 32 <= data.len(),
            forall|k: int| 0 <= k < i ==> out@[k] == data@[start + k],
        decreases 32 - i,
    {
        out[i] = data[start + i];
        i += 1;
    }
    out
}

impl FieldValue {
    /// The text of the value: a 32-byte value in full hex, an address with
    /// its checksum for chain id 1, an integer in decimal.
    pub open spec fn text(&self) -> Seq<char> {
        match *self {
            FieldValue::Bytes32(value) => value.text(),
            FieldValue::Address(value) => value.text(),
            FieldValue::Uint(value) => decimal_digits(value.value()),
            FieldValue::Signed(value) => decimal_text(value.value()),
        }
    }

    /// Whether this is the value of the field of type `field` that `word`
    /// holds: the word itself, the address in its low 20 bytes, or the
    /// integer in as many low bytes as the type is wide.
    pub open spec fn read_from(&self, field: FieldType, word: Seq<u8>) -> bool {
        match field {
            FieldType::Bytes32 => *self matches FieldValue::Bytes32(value) && value.bytes@ == word,
            FieldType::Address => *self matches FieldValue::Address(value) && value.bytes@
                == address_of_word(word),
            FieldType::Uint24 | FieldType::Uint128 | FieldType::Uint160 | FieldType::Uint256 => {
                *self matches FieldValue::Uint(value) && value.bytes@ == unsigned_word(
                    word,
                    field.width(),
                )
            },
            FieldType::Int24 | FieldType::Int128 | FieldType::Int256 => {
                *self matches FieldValue::Signed(value) && value.bytes@ == signed_word(
                    word,
                    field.width(),
                )
            },
        }
    }

    /// The value of the field of type `field` that `word` holds.
    pub fn decode(field: FieldType, word: &[u8; 32]) -> (value: FieldValue)
        ensures
            value.read_from(field, word@),
            value.text() == field_text(field, word@),
    {
        match field {
            FieldType::Bytes32 => FieldValue::Bytes32(FixedBytes::new(*word)),
            FieldType::Address => FieldValue::Address(address_from_word(word)),
            FieldType::Uint24 | FieldType::Uint128 | FieldType::Uint160 | FieldType::Uint256 => {
                let kept = field.byte_width();
                FieldValue::Uint(Uint::from_be_bytes(clear_high_bytes(word, kept)))
            },
            FieldType::Int24 | FieldType::Int128 | FieldType::Int256 => {
                let kept = field.byte_width();
                FieldValue::Signed(Signed::from_be_bytes(extend_sign(word, kept)))
            },
        }
    }
}

impl IntoClickhouseValue for FieldValue {
    open spec fn ch_text(&self) -> Seq<char> {
        self.text()
    }

    fn into_ch_value(&self) -> (text: String) {
        match self {
            FieldValue::Bytes32(value) => value.into_ch_value(),
            FieldValue::Address(value) => value.into_ch_value(),
            FieldValue::Uint(value) => value.into_ch_value(),
            FieldValue::Signed(value) => value.into_ch_value(),
        }
    }
}

/// The text of the field of type `field` that `word` holds. The text of an
/// address has the shape of a checksum text of the address in the word.
pub fn field_string(field: FieldType, word: &[u8; 32]) -> (text: String)
    ensures
        text@ == field_text(field, word@),
        field is Address ==> is_checksum_text(text@, address_of_word(word@)),
{
    match FieldValue::decode(field, word) {
        FieldValue::Address(address) => address.to_checksum(),
        value => value.into_ch_value(),
    }
}

/// Whether the log belongs to the family: the pool manager emitted it and its
/// first topic is the family's signature hash.
pub open spec fn log_matches(kind: EventKind, log: LogSpec) -> bool {
    &&& log.address == pool_manager()
    &&& log.topics.len() > 0
    &&& log.topics[0] == kind.signature()
}

/// Whether the log decodes as the family's event: its topics are the
/// signature hash and one topic for each indexed field, and its payload
/// holds a word for each of the other fields.
pub open spec fn log_decodes(kind: EventKind, log: LogSpec) -> bool {
    &&& log.topics.len() == kind.indexed().len() + 1
    &&& log.topics[0] == kind.signature()
    &&& log.data.len() >= 32 * kind.data().len()
}

/// Whether the log belongs to the family and does not decode as its event:
/// such a log is passed over, and yields no row.
pub open spec fn log_fails(kind: EventKind, log: LogSpec) -> bool {
    log_matches(kind, log) && !log_decodes(kind, log)
}

/// The word that holds the field at position `at` of the family's event:
/// for an indexed field the topic behind the signature hash, for any other
/// the word of the payload.
pub open spec fn field_word(kind: EventKind, log: LogSpec, at: int) -> Seq<u8> {
    if at < kind.indexed().len() {
        log.topics[at + 1]
    } else {
        word_at(log.data, at - kind.indexed().len())
    }
}

/// The types of the family's fields, the indexed ones first.
pub open spec fn field_types(kind: EventKind) -> Seq<FieldType> {
    kind.indexed() + kind.data()
}

/// The texts of the values.
pub open spec fn value_texts(values: Seq<FieldValue>) -> Seq<Seq<char>> {
    Seq::new(values.len(), |i: int| values[i].text())
}

/// The texts of the indexed fields.
pub open spec fn indexed_texts(types: Seq<FieldType>, topics: Seq<Seq<u8>>) -> Seq<Seq<char>> {
    Seq::new(types.len(), |k: int| field_text(types[k], topics[k + 1]))
}

/// The texts of the fields in the payload.
pub open spec fn data_texts(types: Seq<FieldType>, data: Seq<u8>) -> Seq<Seq<char>> {
    Seq::new(types.len(), |k: int| field_text(types[k], word_at(data, k)))
}

/// The texts of the event's fields: the indexed ones, then the others.
pub open spec fn event_texts(kind: EventKind, log: LogSpec) -> Seq<Seq<char>> {
    indexed_texts(kind.indexed(), log.topics) + data_texts(kind.data(), log.data)
}

/// Where a log was found: the block's number, the transaction's hash and
/// position in the block, and the log's position in the receipt.
pub struct LogPlace {
    pub block_number: u64,
    pub transaction_hash: FixedBytes,
    pub transaction_index: usize,
    pub log_index: usize,
}

/// The columns that say where a row comes from: block number, transaction
/// hash, transaction index, log index, and the emitter's address.
pub open spec fn origin_texts(
    block_number: u64,
    transaction_hash: Seq<u8>,
    transaction_index: usize,
    log_index: usize,
    address: Seq<u8>,
) -> Seq<Seq<char>> {
    seq![
        decimal_text((block_number as i64) as int),
        "0x"@ + hex_text(transaction_hash),
        decimal_text((transaction_index as i64) as int),
        decimal_text((log_index as i64) as int),
        address_checksum(address, 1),
    ]
}

/// The row of a log for an event family, if the log yields one: the log
/// belongs to the family and has the shape of its event. The row holds the
/// origin columns, the event's fields, and the processing time.
pub open spec fn log_row(
    kind: EventKind,
    block_number: u64,
    transaction_hash: Seq<u8>,
    transaction_index: usize,
    log_index: usize,
    log: LogSpec,
    processed_at: Seq<char>,
) -> Option<Seq<Seq<char>>> {
    if log_matches(kind, log) && log_decodes(kind, log) {
        Some(
            origin_texts(
                block_number,
                transaction_hash,
                transaction_index,
                log_index,
                log.address,
            ) + event_texts(kind, log) + seq![processed_at],
        )
    } else {
        None
    }
}

/// An integer field is read within the range of its type, whatever the word
/// holds above the type's width: an unsigned integer of `w` bytes is the
/// number in the low `w` bytes of the word and lies below `256^w`, and a
/// signed one lies from `-256^w / 2` up to but not including `256^w / 2`.
#[verifier::spinoff_prover]
pub proof fn lemma_integer_field_in_range(field: FieldType, word: Seq<u8>)
    requires
        word.len() == 32,
    ensures
        match field {
            FieldType::Uint24 | FieldType::Uint128 | FieldType::Uint160 | FieldType::Uint256 => {
                be_value(unsigned_word(word, field.width())) == be_value(
                    word.skip(32 - field.width()),
                ) && be_value(unsigned_word(word, field.width())) < pow(
                    256,
                    field.width() as nat,
                )
            },
            FieldType::Int24 | FieldType::Int128 | FieldType::Int256 => {
                -pow(256, field.width() as nat) <= 2 * signed_be_value(
                    signed_word(word, field.width()),
                ) < pow(256, field.width() as nat)
            },
            _ => true,
        },
{
    let width = field.width();
    let low = word.skip(32 - width);
    let above = (32 - width) as nat;
    match field {
        FieldType::Uint24 | FieldType::Uint128 | FieldType::Uint160 | FieldType::Uint256 => {
            let zeros = Seq::new(above, |i: int| 0u8);
            assert(unsigned_word(word, width) =~= zeros + low);
            lemma_be_value_of_parts(zeros, low);
            lemma_be_value_of_filling(zeros, 0);
            lemma_be_value_bound(low);
            assert(0 * pow(256, low.len()) == 0) by (nonlinear_arith);
        },
        FieldType::Int24 | FieldType::Int128 | FieldType::Int256 => {
            let fill = if word[32 - width] >= 128 {
                255u8
            } else {
                0u8
            };
            let filling = Seq::new(above, |i: int| fill);
            let all = signed_word(word, width);
            assert(all =~= filling + low);
            lemma_be_value_of_parts(filling, low);
            lemma_be_value_of_filling(filling, fill);
            let first = seq![low[0]];
            let rest = low.skip(1);
            assert(low =~= first + rest);
            lemma_be_value_of_parts(first, rest);
            lemma_be_value_bound(rest);
            assert(first.drop_last() =~= Seq::<u8>::empty());
            assert(be_value(Seq::<u8>::empty()) == 0);
            assert(be_value(first) == low[0] as nat);
            let unit = pow(256, rest.len());
            lemma_pow_positive(256, rest.len());
            assert(pow(256, width as nat) == 256 * unit) by {
                reveal(pow);
            }
            lemma_pow_adds(256, above, width as nat);
            assert(all[0] == if above == 0 {
                low[0]
            } else {
                fill
            });
            let body = be_value(rest) as int;
            let head = low[0] as int;
            if word[32 - width] >= 128 {
                assert(signed_be_value(all) == be_value(all) - pow(256, 32));
                assert((pow(256, above) - 1) * (256 * unit) + (head * unit + body) - pow(256, above)
                    * (256 * unit) == head * unit + body - 256 * unit) by (nonlinear_arith);
                assert(2 * (head * unit + body - 256 * unit) >= -(256 * unit)) by (nonlinear_arith)
                    requires
                        head >= 128,
                        body >= 0,
                        unit > 0,
                ;
                assert(2 * (head * unit + body - 256 * unit) < 256 * unit) by (nonlinear_arith)
                    requires
                        head <= 255,
                        body < unit,
                        unit > 0,
                ;
            } else {
                assert(signed_be_value(all) == be_value(all));
                assert(0 * (256 * unit) == 0) by (nonlinear_arith);
                assert(2 * (head * unit + body) < 256 * unit) by (nonlinear_arith)
                    requires
                        0 <= head < 128,
                        0 <= body < unit,
                        unit > 0,
                ;
                assert(head * unit + body >= 0) by (nonlinear_arith)
                    requires
                        0 <= head,
                        0 <= body,
                        unit > 0,
                ;
            }
        },
        _ => {},
    }
}

/// Whether `word` is the encoding of an unsigned integer of `kept` bytes:
/// everything above those bytes is zero.
pub open spec fn encodes_unsigned(word: Seq<u8>, kept: int) -> bool {
    &&& word.len() == 32
    &&& forall|i: int| 0 <= i < 32 - kept ==> word[i] == 0
}

/// Whether `word` is the encoding of a signed integer of `kept` bytes:
/// everything above those bytes repeats their sign.
pub open spec fn encodes_signed(word: Seq<u8>, kept: int) -> bool {
    &&& word.len() == 32
    &&& forall|i: int|
        0 <= i < 32 - kept ==> #[trigger] word[i] == if word[32 - kept] >= 128 {
            255u8
        } else {
            0u8
        }
}

/// A field of a valid encoding keeps its value through decoding and
/// adapting. The text of an unsigned field reads back as the number that the
/// word encodes, the text of a signed field as the signed number that it
/// encodes, and the text of a 32-byte field as the word itself. The text of
/// an address, which `field_string` gives in the shape of a checksum text,
/// reads back as the address in the word.
pub proof fn lemma_field_text_reads_back(field: FieldType, word: Seq<u8>)
    requires
        word.len() == 32,
    ensures
        match field {
            FieldType::Bytes32 => field_text(field, word).subrange(0, 2) == "0x"@ && hex_value(
                field_text(field, word).skip(2),
            ) == word,
            FieldType::Address => is_checksum_text(field_text(field, word), address_of_word(word))
                ==> hex_value(lower_case(field_text(field, word)).skip(2)) == address_of_word(
                word,
            ),
            FieldType::Uint24 | FieldType::Uint128 | FieldType::Uint160 | FieldType::Uint256 => {
                encodes_unsigned(word, field.width()) ==> decimal_value(field_text(field, word))
                    == be_value(word)
            },
            FieldType::Int24 | FieldType::Int128 | FieldType::Int256 => {
                encodes_signed(word, field.width()) ==> signed_decimal_value(
                    field_text(field, word),
                ) == signed_be_value(word)
            },
        },
{
    match field {
        FieldType::Bytes32 => {
            reveal_strlit("0x");
            lemma_hex_text_reads_back(word);
            assert(("0x"@ + hex_text(word)).skip(2) =~= hex_text(word));
        },
        FieldType::Address => {
            if is_checksum_text(field_text(field, word), address_of_word(word)) {
                lemma_checksum_text_reads_back(field_text(field, word), address_of_word(word));
            }
        },
        FieldType::Uint24 | FieldType::Uint128 | FieldType::Uint160 | FieldType::Uint256 => {
            if encodes_unsigned(word, field.width()) {
                assert(unsigned_word(word, field.width()) =~= word);
                lemma_decimal_digits_read_back(be_value(word));
            }
        },
        FieldType::Int24 | FieldType::Int128 | FieldType::Int256 => {
            if encodes_signed(word, field.width()) {
                assert(signed_word(word, field.width()) =~= word);
                lemma_decimal_text_reads_back(signed_be_value(word));
            }
        },
    }
}

/// A log that the pool manager did not emit, or whose first topic is not
/// the signature hash of the event family, yields no row for that family,
/// wherever it is found.
pub proof fn lemma_unmatched_log_yields_no_row(
    kind: EventKind,
    block_number: u64,
    transaction_hash: Seq<u8>,
    transaction_index: usize,
    log_index: usize,
    log: LogSpec,
    processed_at: Seq<char>,
)
    requires
        !log_matches(kind, log),
    ensures
        log_row(
            kind,
            block_number,
            transaction_hash,
            transaction_index,
            log_index,
            log,
            processed_at,
        ) is None,
{
}

/// A row of a log starts with the number of the log's block, and ends with
/// the time of processing, which is its only column that depends on that
/// time.
pub proof fn lemma_row_shape(
    kind: EventKind,
    block_number: u64,
    transaction_hash: Seq<u8>,
    transaction_index: usize,
    log_index: usize,
    log: LogSpec,
    processed_at: Seq<char>,
    another_time: Seq<char>,
)
    ensures
        match log_row(
            kind,
            block_number,
            transaction_hash,
            transaction_index,
            log_index,
            log,
            processed_at,
        ) {
            Some(row) => {
                &&& row.len() == 6 + kind.indexed().len() + kind.data().len()
                &&& row[0] == decimal_text((block_number as i64) as int)
                &&& row.last() == processed_at
                &&& log_row(
                    kind,
                    block_number,
                    transaction_hash,
                    transaction_index,
                    log_index,
                    log,
                    another_time,
                ) matches Some(other) && other.drop_last() == row.drop_last()
            },
            None => log_row(
                kind,
                block_number,
                transaction_hash,
                transaction_index,
                log_index,
                log,
                another_time,
            ) is None,
        },
{
    let origin = origin_texts(
        block_number,
        transaction_hash,
        transaction_index,
        log_index,
        log.address,
    );
    let fields = event_texts(kind, log);
    if log_matches(kind, log) && log_decodes(kind, log) {
        assert((origin + fields + seq![processed_at]).drop_last() =~= origin + fields);
        assert((origin + fields + seq![another_time]).drop_last() =~= origin + fields);
    }
}

/// The views of an optional row.
pub open spec fn optional_row(row: Option<Vec<String>>) -> Option<Seq<Seq<char>>> {
    match row {
        Some(held) => Some(texts(held@)),
        None => None,
    }
}

impl DecodedEvent {
    /// Whether this is the family's event that the log holds: each field,
    /// the indexed ones first, read from its word.
    pub open spec fn read_from(&self, kind: EventKind, log: LogSpec) -> bool {
        &&& self.kind == kind
        &&& self.fields@.len() == field_types(kind).len()
        &&& forall|i: int|
            0 <= i < self.fields@.len() ==> (#[trigger] self.fields@[i]).read_from(
                field_types(kind)[i],
                field_word(kind, log, i),
            )
    }

    /// The texts of the event's fields, in order.
    pub fn texts(&self) -> (list: Vec<String>)
        ensures
            texts(list@) == value_texts(self.fields@),
    {
        let mut list: Vec<String> = Vec::new();
        let mut i: usize = 0;
        while i < self.fields.len()
            invariant
                i <= self.fields.len(),
                list@.len() == i,
                forall|k: int| 0 <= k < i ==> list@[k]@ == self.fields@[k].text(),
            decreases self.fields.len() - i,
        {
            list.push(self.fields[i].into_ch_value());
            i += 1;
        }
        list
    }
}

/// The layout of an event family, at hand for reading many logs: its
/// signature hash, the types of its fields, and the emitter.
pub struct EventLayout {
    kind: EventKind,
    signature: FixedBytes,
    indexed: Vec<FieldType>,
    data: Vec<FieldType>,
    emitter: Address,
}

impl EventLayout {
    #[verifier::type_invariant]
    spec fn well_formed(&self) -> bool {
        &&& self.signature.bytes@ == self.kind.signature()
        &&& self.indexed@ == self.kind.indexed()
        &&& self.data@ == self.kind.data()
        &&& self.emitter.bytes@ == pool_manager()
    }

    /// The event family.
    pub closed spec fn family(&self) -> EventKind {
        self.kind
    }

    /// The layout of an event family.
    pub fn of(kind: EventKind) -> (layout: EventLayout)
        ensures
            layout.family() == kind,
    {
        EventLayout {
            kind,
            signature: kind.signature_hash(),
            indexed: kind.indexed_types(),
            data: kind.data_types(),
            emitter: pool_manager_address(),
        }
    }

    /// The event family.
    pub fn kind(&self) -> (kind: EventKind)
        ensures
            kind == self.family(),
    {
        self.kind
    }

    /// Reads the log as the family's event, if it decodes as one.
    pub fn decode(&self, log: &Log) -> (event: Option<DecodedEvent>)
        ensures
            event is Some <==> log_decodes(self.family(), log@),
            event matches Some(read) ==> read.read_from(self.family(), log@) && value_texts(
                read.fields@,
            ) == event_texts(self.family(), log@),
    {
        proof {
            use_type_invariant(self);
        }
        if log.topics.len() != self.indexed.len() + 1 {
            return None;
        }
        if !log.topics[0].same_as(&self.signature) {
            return None;
        }
        if log.data.len() / 32 < self.data.len() {
            return None;
        }
        let ghost kind = self.kind;
        let ghost types = field_types(kind);
        let mut fields: Vec<FieldValue> = Vec::new();
        let mut i: usize = 0;
        while i < self.indexed.len()
            invariant
                i <= self.indexed.len(),
                self.well_formed(),
                kind == self.kind,
                types == field_types(kind),
                log.topics.len() == self.indexed.len() + 1,
                fields@.len() == i,
                forall|k: int|
                    0 <= k < i ==> (#[trigger] fields@[k]).read_from(
                        types[k],
                        field_word(kind, log@, k),
                    ) && fields@[k].text() == field_text(types[k], field_word(kind, log@, k)),
            decreases self.indexed.len() - i,
        {
            fields.push(FieldValue::decode(self.indexed[i], &log.topics[i + 1].bytes));
            i += 1;
        }
        let mut j: usize = 0;
        while j < self.data.len()
            invariant
                j <= self.data.len(),
                self.well_formed(),
                kind == self.kind,
                types == field_types(kind),
                log.data.len() / 32 >= self.data.len(),
                fields@.len() == self.indexed.len() + j,
                forall|k: int|
                    0 <= k < fields@.len() ==> (#[trigger] fields@[k]).read_from(
                        types[k],
                        field_word(kind, log@, k),
                    ) && fields@[k].text() == field_text(types[k], field_word(kind, log@, k)),
            decreases self.data.len() - j,
        {
            let word = copy_word(&log.data, j);
            fields.push(FieldValue::decode(self.data[j], &word));
            j += 1;
        }
        Some(DecodedEvent { kind: self.kind, fields })
    }

    /// Whether the log belongs to the family and does not decode as its
    /// event.
    pub fn fails_to_decode(&self, log: &Log) -> (fails: bool)
        ensures
            fails == log_fails(self.family(), log@),
    {
        proof {
            use_type_invariant(self);
        }
        if !log.address.same_as(&self.emitter) {
            return false;
        }
        if log.topics.len() == 0 {
            return false;
        }
        if !log.topics[0].same_as(&self.signature) {
            return false;
        }
        self.decode(log).is_none()
    }

    /// The row of `log`, found at `place`, if the log yields one: the log
    /// belongs to the family and decodes as its event. A log that belongs to
    /// the family and does not decode is passed over.
    pub fn row_of(&self, place: &LogPlace, log: &Log, processed_at: &str) -> (row: Option<
        Vec<String>,
    >)
        ensures
            optional_row(row) == log_row(
                self.family(),
                place.block_number,
                place.transaction_hash.bytes@,
                place.transaction_index,
                place.log_index,
                log@,
                processed_at@,
            ),
    {
        proof {
            use_type_invariant(self);
        }
        if !log.address.same_as(&self.emitter) {
            return None;
        }
        if log.topics.len() == 0 {
            return None;
        }
        if !log.topics[0].same_as(&self.signature) {
            return None;
        }
        match self.decode(log) {
            Some(event) => Some(event_row(place, &log.address, &event, processed_at)),
            None => None,
        }
    }
}

/// The row of an event: where its log was found and who emitted it, the
/// event's fields, and the time of processing.
pub fn event_row(
    place: &LogPlace,
    emitter: &Address,
    event: &DecodedEvent,
    processed_at: &str,
) -> (row: Vec<String>)
    ensures
        texts(row@) == origin_texts(
            place.block_number,
            place.transaction_hash.bytes@,
            place.transaction_index,
            place.log_index,
            emitter.bytes@,
        ) + value_texts(event.fields@) + seq![processed_at@],
{
    let mut row: Vec<String> = Vec::new();
    row.push((place.block_number as i64).into_ch_value());
    row.push(place.transaction_hash.into_ch_value());
    row.push((place.transaction_index as i64).into_ch_value());
    row.push((place.log_index as i64).into_ch_value());
    row.push(emitter.into_ch_value());
    let mut fields = event.texts();
    row.append(&mut fields);
    row.push(processed_at.into_ch_value());
    row
}

} // verus!
