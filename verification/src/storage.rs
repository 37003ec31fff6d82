//! What goes to the store: the statements that set the tables up, and the
//! bulk inserts that the table writers hand over.
use crate::schema::{definitions, table_specs, Table};
use crate::sql::{create_table_text, TableSpec};
use crate::text::{decimal_text, row_texts, signed_decimal, str_eq, texts};
use vstd::prelude::*;

pub mod writer;

verus! {

/// One bulk insert: all rows of a batch, for one table.
#[derive(Debug)]
pub struct BulkInsert {
    pub table: &'static str,
    pub rows: Vec<Vec<String>>,
}

/// The rows that a commit reports as written once its insert, if any, has
/// succeeded: none without an insert.
pub open spec fn rows_of(insert: Option<BulkInsert>) -> nat {
    match insert {
        Some(batch) => batch.rows@.len(),
        None => 0,
    }
}

/// The result of a commit. Without an insert nothing was sent and no row was
/// written; a failure of the insert is handed on and no row counts as
/// written; otherwise every row of the batch was written.
pub fn commit_result(insert: &Option<BulkInsert>, failure: Option<String>) -> (result: Result<
    usize,
    String,
>)
    ensures
        match result {
            Ok(records) => (insert is None || failure is None) && records == rows_of(*insert),
            Err(error) => insert is Some && failure == Some(error),
        },
{
    match insert {
        None => Ok(0),
        Some(batch) => match failure {
            None => Ok(batch.rows.len()),
            Some(error) => Err(error),
        },
    }
}

/// Whether the decimal text `block` is that of one of `blocks`.
pub open spec fn names_one_of(block: Seq<char>, blocks: Seq<i64>) -> bool {
    exists|k: int| 0 <= k < blocks.len() && block == decimal_text(#[trigger] blocks[k] as int)
}

/// Whether a revert of `blocks` deletes `row`: the row's first column, the
/// block number, is that of one of them.
pub open spec fn reverted_row(row: Seq<Seq<char>>, blocks: Seq<i64>) -> bool {
    row.len() > 0 && names_one_of(row[0], blocks)
}

/// The rows of a table that a revert of `blocks` leaves, in their order.
pub open spec fn after_revert(rows: Seq<Seq<Seq<char>>>, blocks: Seq<i64>) -> Seq<
    Seq<Seq<char>>,
>
    decreases rows.len(),
{
    if rows.len() == 0 {
        Seq::empty()
    } else if reverted_row(rows.last(), blocks) {
        after_revert(rows.drop_last(), blocks)
    } else {
        after_revert(rows.drop_last(), blocks).push(rows.last())
    }
}

/// Whether a revert of `block_numbers` deletes `row`.
pub fn is_reverted(row: &Vec<String>, block_numbers: &[i64]) -> (gone: bool)
    ensures
        gone == reverted_row(texts(row@), block_numbers@),
{
    if row.len() == 0 {
        return false;
    }
    let mut k: usize = 0;
    while k < block_numbers.len()
        invariant
            k <= block_numbers.len(),
            row@.len() > 0,
            forall|j: int|
                0 <= j < k ==> row@[0]@ != decimal_text(#[trigger] block_numbers@[j] as int),
        decreases block_numbers.len() - k,
    {
        let number = signed_decimal(block_numbers[k] as i128);
        if str_eq(row[0].as_str(), number.as_str()) {
            return true;
        }
        k += 1;
    }
    false
}

/// The rows of a table that a revert of `block_numbers` leaves, in their
/// order: what the delete statement of `revert` does to a table that holds
/// `rows`.
pub fn rows_after_revert(rows: Vec<Vec<String>>, block_numbers: &[i64]) -> (left: Vec<
    Vec<String>,
>)
    ensures
        row_texts(left@) == after_revert(row_texts(rows@), block_numbers@),
{
    let ghost all = row_texts(rows@);
    let mut kept: Vec<Vec<String>> = Vec::new();
    for row in it: rows
        invariant
            all == row_texts(it.seq()),
            row_texts(kept@) == after_revert(all.take(it.index() as int), block_numbers@),
    {
        let ghost done = it.index() as int;
        proof {
            assert(all.take(done + 1).drop_last() =~= all.take(done));
        }
        if !is_reverted(&row, block_numbers) {
            kept.push(row);
        }
    }
    assert(all.take(all.len() as int) =~= all);
    kept
}

/// The statements that set up `tables`: for each table in order, its
/// create-table statement and then its index statements, of which there are
/// none.
pub open spec fn setup_statements(tables: Seq<TableSpec>) -> Seq<Seq<char>> {
    Seq::new(tables.len(), |i: int| create_table_text(tables[i]))
}

/// The statements that set up `tables`, in the order to run them.
pub fn statements_for(tables: &Vec<Table>) -> (statements: Vec<String>)
    ensures
        texts(statements@) == setup_statements(table_specs(tables@)),
{
    let mut statements: Vec<String> = Vec::new();
    let mut i: usize = 0;
    while i < tables.len()
        invariant
            i <= tables.len(),
            statements@.len() == i,
            texts(statements@) =~= setup_statements(table_specs(tables@).take(i as int)),
        decreases tables.len() - i,
    {
        let ghost before = statements@;
        statements.push(tables[i].create_table_sql());
        let mut indexes = tables[i].create_index_statements();
        statements.append(&mut indexes);
        proof {
            assert forall|k: int| 0 <= k < statements@.len() implies texts(statements@)[k]
                == setup_statements(table_specs(tables@).take(i as int + 1))[k] by {
                if k < i {
                    assert(texts(before)[k] == setup_statements(
                        table_specs(tables@).take(i as int),
                    )[k]);
                }
            }
        }
        i += 1;
    }
    statements
}

/// The statements that set up every table of the catalogue, in the order to
/// run them.
pub fn init_statements() -> (statements: Vec<String>)
    ensures
        texts(statements@) == setup_statements(crate::schema::catalogue()),
{
    let tables = definitions();
    statements_for(&tables)
}

} // verus!
