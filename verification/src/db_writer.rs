//! The table writer over the definitions of `table_definitions`, and the
//! text form of each value, with a fixed text for a value that is absent.
use crate::primitives::{
    is_checksum_text, prefixed_hex, short_hash, text_of_fixed_bytes, text_of_h256, text_of_signed, text_of_u256,
    text_of_uint, Address, DateTime, FixedBytes, Signed, Uint, H256, U256,
};
use crate::sql::{fill_revert_template, revert_text, TableSpec};
use crate::storage::BulkInsert;
use crate::table_definitions::TableDefinition;
use crate::text::{
    decimal_digits, decimal_text, flag_string, flag_text, hex_text, row_texts, signed_decimal,
    texts,
};
use vstd::prelude::*;

verus! {

/// The rows collected for one table, committed at once.
pub struct DbWriter {
    table: TableDefinition,
    records: Vec<Vec<String>>,
}

impl DbWriter {
    /// The table that this writer is bound to.
    pub closed spec fn table(&self) -> TableSpec {
        self.table@
    }

    /// The rows collected so far, oldest first.
    pub closed spec fn rows(&self) -> Seq<Seq<Seq<char>>> {
        row_texts(self.records@)
    }

    /// An empty batch bound to `table`.
    pub fn new(table: TableDefinition) -> (writer: Self)
        ensures
            writer.table() == table@,
            writer.rows() == Seq::<Seq<Seq<char>>>::empty(),
    {
        let writer = DbWriter { table, records: Vec::new() };
        writer
    }

    /// Adds one row at the end of the batch.
    pub fn write_record(&mut self, record: Vec<String>)
        ensures
            final(self).table() == old(self).table(),
            final(self).rows() == old(self).rows().push(texts(record@)),
    {
        self.records.push(record);
    }

    /// Ends the batch. An empty batch asks for nothing to be sent; any other
    /// asks for one bulk insert of all its rows, in order, into its table.
    pub fn finish(self) -> (insert: Option<BulkInsert>)
        ensures
            self.rows().len() == 0 ==> insert is None,
            self.rows().len() > 0 ==> insert is Some,
            insert matches Some(batch) ==> batch.table@ == self.table().name && row_texts(
                batch.rows@,
            ) == self.rows(),
    {
        if self.records.len() == 0 {
            return None;
        }
        Some(BulkInsert { table: self.table.name, rows: self.records })
    }

    /// The statement that deletes the rows of the given blocks from this
    /// writer's table, whatever the batch holds. Without a block there is
    /// nothing to delete and no statement to send.
    pub fn revert(&self, block_numbers: &[i64]) -> (sql: Option<String>)
        ensures
            block_numbers@.len() == 0 ==> sql is None,
            block_numbers@.len() > 0 ==> sql is Some,
            sql matches Some(text) ==> text@ == revert_text(self.table().name, block_numbers@),
    {
        if block_numbers.len() == 0 {
            return None;
        }
        let template = self.table.revert_statement();
        Some(fill_revert_template(template.as_str(), block_numbers))
    }
}

/// A value of the chain with a canonical text form for the store.
pub trait EthereumValue {
    /// The text form.
    spec fn clickhouse_text(&self) -> Seq<char>;

    /// The text form.
    fn to_clickhouse_value(&self) -> (text: String)
        ensures
            text@ == self.clickhouse_text(),
    ;
}

impl EthereumValue for H256 {
    open spec fn clickhouse_text(&self) -> Seq<char> {
        short_hash(self.bytes@)
    }

    fn to_clickhouse_value(&self) -> (text: String) {
        text_of_h256(&self.bytes)
    }
}

impl EthereumValue for U256 {
    open spec fn clickhouse_text(&self) -> Seq<char> {
        decimal_digits(self.value())
    }

    fn to_clickhouse_value(&self) -> (text: String) {
        text_of_u256(&self.bytes)
    }
}

impl EthereumValue for Address {
    open spec fn clickhouse_text(&self) -> Seq<char> {
        self.text()
    }

    fn to_clickhouse_value(&self) -> (text: String)
        ensures
            is_checksum_text(text@, self.bytes@),
    {
        self.to_checksum()
    }
}

impl EthereumValue for Option<String> {
    open spec fn clickhouse_text(&self) -> Seq<char> {
        match *self {
            Some(held) => held@,
            None => ""@,
        }
    }

    fn to_clickhouse_value(&self) -> (text: String) {
        match self {
            Some(held) => held.clone(),
            None => String::from_str(""),
        }
    }
}

impl<'a> EthereumValue for Option<&'a str> {
    open spec fn clickhouse_text(&self) -> Seq<char> {
        match *self {
            Some(held) => held@,
            None => ""@,
        }
    }

    fn to_clickhouse_value(&self) -> (text: String) {
        match self {
            Some(held) => String::from_str(*held),
            None => String::from_str(""),
        }
    }
}

impl EthereumValue for Option<i64> {
    open spec fn clickhouse_text(&self) -> Seq<char> {
        match *self {
            Some(held) => decimal_text(held as int),
            None => "0"@,
        }
    }

    fn to_clickhouse_value(&self) -> (text: String) {
        match self {
            Some(held) => signed_decimal(*held as i128),
            None => String::from_str("0"),
        }
    }
}

impl EthereumValue for Option<i32> {
    open spec fn clickhouse_text(&self) -> Seq<char> {
        match *self {
            Some(held) => decimal_text(held as int),
            None => "0"@,
        }
    }

    fn to_clickhouse_value(&self) -> (text: String) {
        match self {
            Some(held) => signed_decimal(*held as i128),
            None => String::from_str("0"),
        }
    }
}

impl EthereumValue for Option<bool> {
    open spec fn clickhouse_text(&self) -> Seq<char> {
        match *self {
            Some(held) => flag_text(held),
            None => "0"@,
        }
    }

    fn to_clickhouse_value(&self) -> (text: String) {
        match self {
            Some(held) => flag_string(*held),
            None => String::from_str("0"),
        }
    }
}

impl EthereumValue for Option<DateTime> {
    open spec fn clickhouse_text(&self) -> Seq<char> {
        match *self {
            Some(held) => held.text(),
            None => "1970-01-01 00:00:00"@,
        }
    }

    fn to_clickhouse_value(&self) -> (text: String) {
        match self {
            Some(held) => held.format(),
            None => String::from_str("1970-01-01 00:00:00"),
        }
    }
}

impl EthereumValue for Option<Address> {
    open spec fn clickhouse_text(&self) -> Seq<char> {
        match *self {
            Some(held) => held.text(),
            None => ""@,
        }
    }

    fn to_clickhouse_value(&self) -> (text: String) {
        match self {
            Some(held) => held.to_checksum(),
            None => String::from_str(""),
        }
    }
}

impl EthereumValue for Option<H256> {
    open spec fn clickhouse_text(&self) -> Seq<char> {
        match *self {
            Some(held) => short_hash(held.bytes@),
            None => ""@,
        }
    }

    fn to_clickhouse_value(&self) -> (text: String) {
        match self {
            Some(held) => text_of_h256(&held.bytes),
            None => String::from_str(""),
        }
    }
}

impl EthereumValue for Option<U256> {
    open spec fn clickhouse_text(&self) -> Seq<char> {
        match *self {
            Some(held) => decimal_digits(held.value()),
            None => "0"@,
        }
    }

    fn to_clickhouse_value(&self) -> (text: String) {
        match self {
            Some(held) => text_of_u256(&held.bytes),
            None => String::from_str("0"),
        }
    }
}

impl EthereumValue for Option<FixedBytes> {
    open spec fn clickhouse_text(&self) -> Seq<char> {
        match *self {
            Some(held) => held.text(),
            None => ""@,
        }
    }

    fn to_clickhouse_value(&self) -> (text: String) {
        match self {
            Some(held) => text_of_fixed_bytes(&held.bytes),
            None => String::from_str(""),
        }
    }
}

impl<'a> EthereumValue for Option<&'a FixedBytes> {
    open spec fn clickhouse_text(&self) -> Seq<char> {
        match *self {
            Some(held) => held.text(),
            None => ""@,
        }
    }

    fn to_clickhouse_value(&self) -> (text: String) {
        match self {
            Some(held) => text_of_fixed_bytes(&held.bytes),
            None => String::from_str(""),
        }
    }
}

impl EthereumValue for Option<Uint> {
    open spec fn clickhouse_text(&self) -> Seq<char> {
        match *self {
            Some(held) => decimal_digits(held.value()),
            None => "0"@,
        }
    }

    fn to_clickhouse_value(&self) -> (text: String) {
        match self {
            Some(held) => text_of_uint(&held.bytes),
            None => String::from_str("0"),
        }
    }
}

impl EthereumValue for Vec<u8> {
    open spec fn clickhouse_text(&self) -> Seq<char> {
        "0x"@ + hex_text(self@)
    }

    fn to_clickhouse_value(&self) -> (text: String) {
        prefixed_hex(self.as_slice())
    }
}

impl EthereumValue for [u8] {
    open spec fn clickhouse_text(&self) -> Seq<char> {
        "0x"@ + hex_text(self@)
    }

    fn to_clickhouse_value(&self) -> (text: String) {
        prefixed_hex(self)
    }
}

impl EthereumValue for String {
    open spec fn clickhouse_text(&self) -> Seq<char> {
        self@
    }

    fn to_clickhouse_value(&self) -> (text: String) {
        self.clone()
    }
}

impl EthereumValue for str {
    open spec fn clickhouse_text(&self) -> Seq<char> {
        self@
    }

    fn to_clickhouse_value(&self) -> (text: String) {
        String::from_str(self)
    }
}

impl EthereumValue for i64 {
    open spec fn clickhouse_text(&self) -> Seq<char> {
        decimal_text(*self as int)
    }

    fn to_clickhouse_value(&self) -> (text: String) {
        signed_decimal(*self as i128)
    }
}

impl EthereumValue for i32 {
    open spec fn clickhouse_text(&self) -> Seq<char> {
        decimal_text(*self as int)
    }

    fn to_clickhouse_value(&self) -> (text: String) {
        signed_decimal(*self as i128)
    }
}

impl EthereumValue for bool {
    open spec fn clickhouse_text(&self) -> Seq<char> {
        flag_text(*self)
    }

    fn to_clickhouse_value(&self) -> (text: String) {
        flag_string(*self)
    }
}

impl EthereumValue for DateTime {
    open spec fn clickhouse_text(&self) -> Seq<char> {
        self.text()
    }

    fn to_clickhouse_value(&self) -> (text: String) {
        self.format()
    }
}

impl EthereumValue for FixedBytes {
    open spec fn clickhouse_text(&self) -> Seq<char> {
        self.text()
    }

    fn to_clickhouse_value(&self) -> (text: String) {
        text_of_fixed_bytes(&self.bytes)
    }
}

impl EthereumValue for Uint {
    open spec fn clickhouse_text(&self) -> Seq<char> {
        decimal_digits(self.value())
    }

    fn to_clickhouse_value(&self) -> (text: String) {
        text_of_uint(&self.bytes)
    }
}

impl EthereumValue for Signed {
    open spec fn clickhouse_text(&self) -> Seq<char> {
        decimal_text(self.value())
    }

    fn to_clickhouse_value(&self) -> (text: String) {
        text_of_signed(&self.bytes)
    }
}

impl<T: EthereumValue + ?Sized> EthereumValue for &T {
    open spec fn clickhouse_text(&self) -> Seq<char> {
        (**self).clickhouse_text()
    }

    fn to_clickhouse_value(&self) -> (text: String) {
        (**self).to_clickhouse_value()
    }
}

} // verus!
