//! The batched table writer and the text form of each value that goes into
//! a row.
use crate::primitives::{
    is_checksum_text, prefixed_hex, text_of_fixed_bytes, text_of_h256, text_of_signed, text_of_u256, text_of_uint,
    short_hash, Address, DateTime, FixedBytes, Signed, Uint, H256, U256,
};
use crate::schema::Table;
use crate::sql::{fill_revert_template, revert_text, TableSpec};
use crate::storage::BulkInsert;
use crate::text::{
    decimal_digits, decimal_text, flag_string, flag_text, hex_text, row_texts, signed_decimal,
    texts, unsigned_decimal,
};
use vstd::prelude::*;

verus! {

/// The rows collected for one table, committed at once.
pub struct ClickhouseWriter {
    table: Table,
    records: Vec<Vec<String>>,
}

impl ClickhouseWriter {
    /// The table that this writer is bound to.
    pub closed spec fn table(&self) -> TableSpec {
        self.table@
    }

    /// The rows collected so far, oldest first.
    pub closed spec fn rows(&self) -> Seq<Seq<Seq<char>>> {
        row_texts(self.records@)
    }

    /// An empty batch bound to `table`.
    pub fn new(table: Table) -> (writer: Self)
        ensures
            writer.table() == table@,
            writer.rows() == Seq::<Seq<Seq<char>>>::empty(),
    {
        let writer = ClickhouseWriter { table, records: Vec::with_capacity(1024) };
        writer
    }

    /// Adds one row at the end of the batch.
    pub fn write_record(&mut self, record: Vec<String>)
        ensures
            final(self).table() == old(self).table(),
            final(self).rows() == old(self).rows().push(texts(record@)),
    {
        self.records.push(record);
    }

    /// The number of rows collected so far.
    pub fn len(&self) -> (count: usize)
        ensures
            count == self.rows().len(),
    {
        self.records.len()
    }

    /// Ends the batch. An empty batch asks for nothing to be sent; any other
    /// asks for one bulk insert of all its rows, in order, into its table.
    pub fn finish(self) -> (insert: Option<BulkInsert>)
        ensures
            self.rows().len() == 0 ==> insert is None,
            self.rows().len() > 0 ==> insert is Some,
            insert matches Some(batch) ==> batch.table@ == self.table().name && row_texts(
                batch.rows@,
            ) == self.rows(),
    {
        if self.records.len() == 0 {
            return None;
        }
        Some(BulkInsert { table: self.table.name, rows: self.records })
    }

    /// The statement that deletes the rows of the given blocks from this
    /// writer's table, whatever the batch holds. Without a block there is
    /// nothing to delete and no statement to send.
    pub fn revert(&self, block_numbers: &[i64]) -> (sql: Option<String>)
        ensures
            block_numbers@.len() == 0 ==> sql is None,
            block_numbers@.len() > 0 ==> sql is Some,
            sql matches Some(text) ==> text@ == revert_text(self.table().name, block_numbers@),
    {
        if block_numbers.len() == 0 {
            return None;
        }
        let template = self.table.revert_statement();
        Some(fill_revert_template(template.as_str(), block_numbers))
    }
}

/// A value with a canonical text form for the store.
pub trait IntoClickhouseValue {
    /// The text form.
    spec fn ch_text(&self) -> Seq<char>;

    /// The text form.
    fn into_ch_value(&self) -> (text: String)
        ensures
            text@ == self.ch_text(),
    ;
}

impl IntoClickhouseValue for String {
    open spec fn ch_text(&self) -> Seq<char> {
        self@
    }

    fn into_ch_value(&self) -> (text: String) {
        self.clone()
    }
}

impl<'a> IntoClickhouseValue for &'a str {
    open spec fn ch_text(&self) -> Seq<char> {
        self@
    }

    fn into_ch_value(&self) -> (text: String) {
        String::from_str(*self)
    }
}

impl IntoClickhouseValue for i64 {
    open spec fn ch_text(&self) -> Seq<char> {
        decimal_text(*self as int)
    }

    fn into_ch_value(&self) -> (text: String) {
        signed_decimal(*self as i128)
    }
}

impl IntoClickhouseValue for i32 {
    open spec fn ch_text(&self) -> Seq<char> {
        decimal_text(*self as int)
    }

    fn into_ch_value(&self) -> (text: String) {
        signed_decimal(*self as i128)
    }
}

impl IntoClickhouseValue for i128 {
    open spec fn ch_text(&self) -> Seq<char> {
        decimal_text(*self as int)
    }

    fn into_ch_value(&self) -> (text: String) {
        signed_decimal(*self)
    }
}

impl IntoClickhouseValue for u128 {
    open spec fn ch_text(&self) -> Seq<char> {
        decimal_digits(*self as nat)
    }

    fn into_ch_value(&self) -> (text: String) {
        unsigned_decimal(*self)
    }
}

impl IntoClickhouseValue for bool {
    open spec fn ch_text(&self) -> Seq<char> {
        flag_text(*self)
    }

    fn into_ch_value(&self) -> (text: String) {
        flag_string(*self)
    }
}

impl IntoClickhouseValue for DateTime {
    open spec fn ch_text(&self) -> Seq<char> {
        self.text()
    }

    fn into_ch_value(&self) -> (text: String) {
        self.format()
    }
}

impl IntoClickhouseValue for H256 {
    open spec fn ch_text(&self) -> Seq<char> {
        short_hash(self.bytes@)
    }

    fn into_ch_value(&self) -> (text: String) {
        text_of_h256(&self.bytes)
    }
}

impl IntoClickhouseValue for U256 {
    open spec fn ch_text(&self) -> Seq<char> {
        decimal_digits(self.value())
    }

    fn into_ch_value(&self) -> (text: String) {
        text_of_u256(&self.bytes)
    }
}

impl IntoClickhouseValue for Address {
    open spec fn ch_text(&self) -> Seq<char> {
        self.text()
    }

    fn into_ch_value(&self) -> (text: String)
        ensures
            is_checksum_text(text@, self.bytes@),
    {
        self.to_checksum()
    }
}

impl IntoClickhouseValue for FixedBytes {
    open spec fn ch_text(&self) -> Seq<char> {
        self.text()
    }

    fn into_ch_value(&self) -> (text: String) {
        text_of_fixed_bytes(&self.bytes)
    }
}

impl IntoClickhouseValue for Uint {
    open spec fn ch_text(&self) -> Seq<char> {
        decimal_digits(self.value())
    }

    fn into_ch_value(&self) -> (text: String) {
        text_of_uint(&self.bytes)
    }
}

impl IntoClickhouseValue for Signed {
    open spec fn ch_text(&self) -> Seq<char> {
        decimal_text(self.value())
    }

    fn into_ch_value(&self) -> (text: String) {
        text_of_signed(&self.bytes)
    }
}

impl<T: IntoClickhouseValue + ?Sized> IntoClickhouseValue for &T {
    open spec fn ch_text(&self) -> Seq<char> {
        (**self).ch_text()
    }

    fn into_ch_value(&self) -> (text: String) {
        (**self).into_ch_value()
    }
}

impl IntoClickhouseValue for Vec<u8> {
    open spec fn ch_text(&self) -> Seq<char> {
        "0x"@ + hex_text(self@)
    }

    fn into_ch_value(&self) -> (text: String) {
        prefixed_hex(self.as_slice())
    }
}

impl IntoClickhouseValue for [u8] {
    open spec fn ch_text(&self) -> Seq<char> {
        "0x"@ + hex_text(self@)
    }

    fn into_ch_value(&self) -> (text: String) {
        prefixed_hex(self)
    }
}

} // verus!
