//! The chain's value types as plain bytes, and their canonical text forms.
//!
//! The text forms come from the crates that define the wire types (alloy,
//! primitive-types, chrono); each call into them stands behind one function
//! here whose contract is taken on trust.
use crate::text::{
    decimal_digits, decimal_text, hex_text, hex_value, lemma_hex_text_reads_back, lower_case,
};
use vstd::arithmetic::power::{lemma_pow0, pow};
use vstd::prelude::*;

verus! {

/// A 160-bit account address.
#[derive(Debug, Clone, Copy)]
pub struct Address {
    pub bytes: [u8; 20],
}

/// A 32-byte value (a hash, a pool id, a salt), shown as full hex.
#[derive(Debug, Clone, Copy)]
pub struct FixedBytes {
    pub bytes: [u8; 32],
}

/// An unsigned integer of up to 256 bits, big-endian.
#[derive(Debug, Clone, Copy)]
pub struct Uint {
    pub bytes: [u8; 32],
}

/// A signed integer of up to 256 bits, big-endian two's complement.
#[derive(Debug, Clone, Copy)]
pub struct Signed {
    pub bytes: [u8; 32],
}

/// A 32-byte hash, shown in the short form of its first and last two bytes.
#[derive(Debug, Clone, Copy)]
pub struct H256 {
    pub bytes: [u8; 32],
}

/// An unsigned 256-bit integer, big-endian.
#[derive(Debug, Clone, Copy)]
pub struct U256 {
    pub bytes: [u8; 32],
}

/// A point in time with second resolution that the UTC calendar of chrono can
/// represent.
#[derive(Debug, Clone, Copy)]
pub struct DateTime {
    seconds: i64,
}

/// The number that big-endian bytes stand for.
pub open spec fn be_value(bytes: Seq<u8>) -> nat
    decreases bytes.len(),
{
    if bytes.len() == 0 {
        0
    } else {
        be_value(bytes.drop_last()) * 256 + bytes.last() as nat
    }
}

/// The number that big-endian two's complement bytes stand for.
pub open spec fn signed_be_value(bytes: Seq<u8>) -> int {
    if bytes.len() > 0 && bytes[0] >= 128 {
        be_value(bytes) - pow(256, bytes.len())
    } else {
        be_value(bytes) as int
    }
}

/// Big-endian bytes stand for a number below 256 to the power of their count.
pub proof fn lemma_be_value_bound(bytes: Seq<u8>)
    ensures
        be_value(bytes) < pow(256, bytes.len()),
    decreases bytes.len(),
{
    if bytes.len() == 0 {
        lemma_pow0(256);
    } else {
        lemma_be_value_bound(bytes.drop_last());
        let shorter = pow(256, bytes.drop_last().len());
        assert(pow(256, bytes.len()) == 256 * shorter) by {
            reveal(pow);
        }
    }
}

/// The number of bytes put together: the number of the head, shifted by the
/// length of the tail, and the number of the tail.
pub proof fn lemma_be_value_of_parts(head: Seq<u8>, tail: Seq<u8>)
    ensures
        be_value(head + tail) == be_value(head) * pow(256, tail.len()) + be_value(tail),
    decreases tail.len(),
{
    if tail.len() == 0 {
        lemma_pow0(256);
    } else {
        lemma_be_value_of_parts(head, tail.drop_last());
        assert((head + tail).drop_last() =~= head + tail.drop_last());
        let shorter = pow(256, tail.drop_last().len());
        assert(pow(256, tail.len()) == 256 * shorter) by {
            reveal(pow);
        }
        let a = be_value(head) as int;
        let b = be_value(tail.drop_last()) as int;
        assert((a * shorter + b) * 256 == a * (256 * shorter) + b * 256) by (nonlinear_arith);
    }
}

/// Bytes that are all `fill` stand for `fill` times the number of as many
/// bytes of one: zero for zeros, and for bytes of 255 the greatest number of
/// their count.
pub proof fn lemma_be_value_of_filling(bytes: Seq<u8>, fill: u8)
    requires
        fill == 0 || fill == 255,
        forall|i: int| 0 <= i < bytes.len() ==> bytes[i] == fill,
    ensures
        fill == 0 ==> be_value(bytes) == 0,
        fill == 255 ==> be_value(bytes) == pow(256, bytes.len()) - 1,
    decreases bytes.len(),
{
    if bytes.len() == 0 {
        lemma_pow0(256);
    } else {
        lemma_be_value_of_filling(bytes.drop_last(), fill);
        let shorter = pow(256, bytes.drop_last().len());
        assert(pow(256, bytes.len()) == 256 * shorter) by {
            reveal(pow);
        }
    }
}

/// The checksum-cased text of an address for a chain id, as
/// `Address::to_checksum` of alloy gives it with `Some(chain_id)`: `0x` and 40
/// hex digits whose case is taken from a Keccak-256 hash.
pub uninterp spec fn address_checksum(bytes: Seq<u8>, chain_id: u64) -> Seq<char>;

/// The text of the UTC time `seconds` after the epoch in the given format, as
/// chrono formats `DateTime::from_timestamp(seconds, 0)` with it; `None`
/// where chrono has no such time.
pub uninterp spec fn utc_text(seconds: i64, format: Seq<char>) -> Option<Seq<char>>;

/// The format of a time in a row: `YYYY-MM-DD HH:MM:SS`.
pub open spec fn timestamp_format() -> Seq<char> {
    "%Y-%m-%d %H:%M:%S"@
}

/// Whether the text has the shape of the checksum text of the address with
/// these bytes: `0x` and two hex digits for each byte, which in lower case
/// are the hex digits of the bytes.
pub open spec fn is_checksum_text(text: Seq<char>, bytes: Seq<u8>) -> bool {
    &&& text.len() == 2 + 2 * bytes.len()
    &&& text.subrange(0, 2) == "0x"@
    &&& lower_case(text) == "0x"@ + hex_text(bytes)
}

/// A checksum text reads back as the address: its hex digits, taken in lower
/// case, are the bytes.
pub proof fn lemma_checksum_text_reads_back(text: Seq<char>, bytes: Seq<u8>)
    requires
        is_checksum_text(text, bytes),
    ensures
        hex_value(lower_case(text).skip(2)) == bytes,
{
    reveal_strlit("0x");
    lemma_hex_text_reads_back(bytes);
    assert(("0x"@ + hex_text(bytes)).skip(2) =~= hex_text(bytes));
}

/// The view of an optional string.
pub open spec fn optional_text(text: Option<String>) -> Option<Seq<char>> {
    match text {
        Some(held) => Some(held@),
        None => None,
    }
}

/// The short form of a 32-byte hash: `0x`, the first two bytes in hex, an
/// ellipsis, the last two bytes in hex.
pub open spec fn short_hash(bytes: Seq<u8>) -> Seq<char> {
    "0x"@ + hex_text(bytes.subrange(0, 2)) + "\u{2026}"@ + hex_text(bytes.subrange(30, 32))
}

/// Calls `Address::to_checksum` of alloy with `Some(chain_id)`. Trusted: the
/// result is the checksum text that this library names `address_checksum`;
/// it is `0x` and 40 hex digits, and only the case of the letters among them
/// differs from the lower-case hex of the bytes.
#[verifier::external_body]
pub(crate) fn checksum_of_address(bytes: &[u8; 20], chain_id: u64) -> (text: String)
    ensures
        text@ == address_checksum(bytes@, chain_id),
        is_checksum_text(text@, bytes@),
{
    alloy::primitives::Address::new(*bytes).to_checksum(Some(chain_id))
}

/// Calls `to_string` on alloy's `FixedBytes<32>`. Trusted: its `Display`
/// writes `0x` and every byte as two lower-case hex digits.
#[verifier::external_body]
pub(crate) fn text_of_fixed_bytes(bytes: &[u8; 32]) -> (text: String)
    ensures
        text@ == "0x"@ + hex_text(bytes@),
{
    alloy::primitives::FixedBytes::<32>::new(*bytes).to_string()
}

/// Calls `to_string` on alloy's `Uint<256, 4>`. Trusted: its `Display` writes
/// the value in decimal without padding.
#[verifier::external_body]
pub(crate) fn text_of_uint(bytes: &[u8; 32]) -> (text: String)
    ensures
        text@ == decimal_digits(be_value(bytes@)),
{
    alloy::primitives::U256::from_be_bytes(*bytes).to_string()
}

/// Calls `to_string` on alloy's `Signed<256, 4>`. Trusted: its `Display`
/// writes a minus sign for a negative value, then the magnitude in decimal.
#[verifier::external_body]
pub(crate) fn text_of_signed(bytes: &[u8; 32]) -> (text: String)
    ensures
        text@ == decimal_text(signed_be_value(bytes@)),
{
    alloy::primitives::I256::from_be_bytes(*bytes).to_string()
}

/// Calls `hex::encode_prefixed` of alloy. Trusted: the result is `0x` and
/// every byte as two lower-case hex digits.
#[verifier::external_body]
pub(crate) fn prefixed_hex(bytes: &[u8]) -> (text: String)
    ensures
        text@ == "0x"@ + hex_text(bytes@),
{
    alloy::primitives::hex::encode_prefixed(bytes)
}

/// Calls `to_string` on `H256` of primitive-types. Trusted: its `Display`
/// writes the short form.
#[verifier::external_body]
pub(crate) fn text_of_h256(bytes: &[u8; 32]) -> (text: String)
    ensures
        text@ == short_hash(bytes@),
{
    primitive_types::H256(*bytes).to_string()
}

/// Calls `to_string` on `U256` of primitive-types. Trusted: its `Display`
/// writes the value in decimal without padding.
#[verifier::external_body]
pub(crate) fn text_of_u256(bytes: &[u8; 32]) -> (text: String)
    ensures
        text@ == decimal_digits(be_value(bytes@)),
{
    primitive_types::U256::from_big_endian(bytes).to_string()
}

/// Calls `DateTime::from_timestamp` of chrono and formats the result with
/// `format`. Trusted: the outcome is what this library names `utc_text`.
/// chrono panics on a format that it cannot read, so only the format of a
/// time in a row is let in.
#[verifier::external_body]
pub(crate) fn text_of_utc_seconds(seconds: i64, format: &str) -> (text: Option<String>)
    requires
        format@ == timestamp_format(),
    ensures
        optional_text(text) == utc_text(seconds, format@),
{
    match chrono::DateTime::from_timestamp(seconds, 0) {
        Some(time) => Some(time.format(format).to_string()),
        None => None,
    }
}

/// Calls `Utc::now` of chrono and takes its whole seconds. Trusted: chrono
/// can represent the second that it has just returned, in the format of a
/// time in a row. The call panics inside chrono where the machine's clock
/// reads a time before 1970 or beyond chrono's calendar; no argument decides
/// that, so no caller can rule it out.
#[verifier::external_body]
pub(crate) fn utc_seconds_now() -> (seconds: i64)
    ensures
        utc_text(seconds, timestamp_format()) is Some,
{
    chrono::Utc::now().timestamp()
}

/// Whether two byte strings are equal.
pub fn bytes_eq(a: &[u8], b: &[u8]) -> (same: bool)
    ensures
        same == (a@ == b@),
{
    if a.len() != b.len() {
        return false;
    }
    let mut i: usize = 0;
    while i < a.len()
        invariant
            i <= a.len(),
            a.len() == b.len(),
            forall|k: int| 0 <= k < i ==> a@[k] == b@[k],
        decreases a.len() - i,
    {
        if a[i] != b[i] {
            return false;
        }
        i += 1;
    }
    assert(a@ =~= b@);
    true
}

impl Address {
    /// The address with these bytes.
    pub fn new(bytes: [u8; 20]) -> (address: Address)
        ensures
            address.bytes == bytes,
    {
        Address { bytes }
    }

    /// The checksum-cased text, for chain id 1.
    pub open spec fn text(&self) -> Seq<char> {
        address_checksum(self.bytes@, 1)
    }

    /// The checksum-cased text, for chain id 1: `0x` and 40 hex digits that
    /// read back as the address.
    pub fn to_checksum(&self) -> (text: String)
        ensures
            text@ == self.text(),
            is_checksum_text(text@, self.bytes@),
    {
        checksum_of_address(&self.bytes, 1)
    }

    /// Whether both addresses hold the same bytes.
    pub fn same_as(&self, other: &Address) -> (same: bool)
        ensures
            same == (self.bytes@ == other.bytes@),
    {
        bytes_eq(self.bytes.as_slice(), other.bytes.as_slice())
    }
}

impl FixedBytes {
    /// The value with these bytes.
    pub fn new(bytes: [u8; 32]) -> (value: FixedBytes)
        ensures
            value.bytes == bytes,
    {
        FixedBytes { bytes }
    }

    /// `0x` and 64 lower-case hex digits.
    pub open spec fn text(&self) -> Seq<char> {
        "0x"@ + hex_text(self.bytes@)
    }

    /// Whether both values hold the same bytes.
    pub fn same_as(&self, other: &FixedBytes) -> (same: bool)
        ensures
            same == (self.bytes@ == other.bytes@),
    {
        bytes_eq(self.bytes.as_slice(), other.bytes.as_slice())
    }
}

impl Uint {
    /// The integer with these big-endian bytes.
    pub fn from_be_bytes(bytes: [u8; 32]) -> (value: Uint)
        ensures
            value.bytes == bytes,
    {
        Uint { bytes }
    }

    /// The number held.
    pub open spec fn value(&self) -> nat {
        be_value(self.bytes@)
    }
}

impl Signed {
    /// The integer with these big-endian two's complement bytes.
    pub fn from_be_bytes(bytes: [u8; 32]) -> (value: Signed)
        ensures
            value.bytes == bytes,
    {
        Signed { bytes }
    }

    /// The number held.
    pub open spec fn value(&self) -> int {
        signed_be_value(self.bytes@)
    }
}

impl H256 {
    /// The hash with these bytes.
    pub fn new(bytes: [u8; 32]) -> (hash: H256)
        ensures
            hash.bytes == bytes,
    {
        H256 { bytes }
    }
}

impl U256 {
    /// The integer with these big-endian bytes.
    pub fn from_big_endian(bytes: [u8; 32]) -> (value: U256)
        ensures
            value.bytes == bytes,
    {
        U256 { bytes }
    }

    /// The number held.
    pub open spec fn value(&self) -> nat {
        be_value(self.bytes@)
    }
}

impl DateTime {
    #[verifier::type_invariant]
    spec fn representable(self) -> bool {
        utc_text(self.seconds, timestamp_format()) is Some
    }

    /// The seconds since the epoch.
    pub closed spec fn seconds(self) -> i64 {
        self.seconds
    }

    /// The text of this time in the format `YYYY-MM-DD HH:MM:SS`.
    pub open spec fn text(self) -> Seq<char> {
        utc_text(self.seconds(), timestamp_format())->0
    }

    /// The time `seconds` after the epoch, if the calendar reaches it.
    pub fn from_timestamp(seconds: i64) -> (time: Option<DateTime>)
        ensures
            time is Some <==> utc_text(seconds, timestamp_format()) is Some,
            time matches Some(held) ==> held.seconds() == seconds,
    {
        match text_of_utc_seconds(seconds, "%Y-%m-%d %H:%M:%S") {
            Some(_) => Some(DateTime { seconds }),
            None => None,
        }
    }

    /// The present time, to the second.
    pub fn now() -> (time: DateTime)
        ensures
            utc_text(time.seconds(), timestamp_format()) is Some,
    {
        DateTime { seconds: utc_seconds_now() }
    }

    /// The seconds since the epoch.
    pub fn timestamp(&self) -> (seconds: i64)
        ensures
            seconds == self.seconds(),
            utc_text(seconds, timestamp_format()) is Some,
    {
        proof {
            use_type_invariant(self);
        }
        self.seconds
    }

    /// The text `YYYY-MM-DD HH:MM:SS` of this time.
    pub fn format(&self) -> (text: String)
        ensures
            text@ == self.text(),
    {
        proof {
            use_type_invariant(self);
        }
        match text_of_utc_seconds(self.seconds, "%Y-%m-%d %H:%M:%S") {
            Some(text) => text,
            None => String::new(),
        }
    }
}

} // verus!
