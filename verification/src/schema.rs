//! The table catalogue: the definitions of the tables that the indexer writes
//! to, and the SQL statements that each definition yields.
use crate::sql::{
    column_specs, create_table_statement, create_table_text, revert_template, revert_template_of,
    ColumnSpec, SqlColumn, TableSpec,
};
use crate::text::str_eq;
use vstd::prelude::*;

pub mod types;

verus! {

/// A table: its name, its columns in declaration order, and its secondary
/// indexes.
#[derive(Debug)]
pub struct Table {
    pub name: &'static str,
    pub columns: Vec<Column>,
    pub indexes: Vec<&'static str>,
}

/// A column: its name, its semantic type, and whether it may be null or is
/// part of the key.
#[derive(Debug, Clone, Copy)]
pub struct Column {
    pub name: &'static str,
    pub sql_type: &'static str,
    pub nullable: bool,
    pub primary_key: bool,
}

/// The views of a sequence of string slices.
pub open spec fn slice_texts(items: Seq<&'static str>) -> Seq<Seq<char>> {
    Seq::new(items.len(), |i: int| items[i]@)
}

impl View for Column {
    type V = ColumnSpec;

    open spec fn view(&self) -> ColumnSpec {
        ColumnSpec {
            name: self.name@,
            sql_type: self.sql_type@,
            nullable: self.nullable,
            primary_key: self.primary_key,
        }
    }
}

impl SqlColumn for Column {
    open spec fn column_spec(&self) -> ColumnSpec {
        self@
    }

    fn column_name(&self) -> (name: &'static str) {
        self.name
    }

    fn column_type(&self) -> (sql_type: &'static str) {
        self.sql_type
    }

    fn is_nullable(&self) -> (nullable: bool) {
        self.nullable
    }

    fn is_primary_key(&self) -> (key: bool) {
        self.primary_key
    }
}

impl View for Table {
    type V = TableSpec;

    open spec fn view(&self) -> TableSpec {
        TableSpec {
            name: self.name@,
            columns: column_specs(self.columns@),
            indexes: slice_texts(self.indexes@),
            partition_by: None,
        }
    }
}

impl Clone for Table {
    fn clone(&self) -> (copy: Self)
        ensures
            copy@ == self@,
    {
        let mut columns: Vec<Column> = Vec::new();
        let mut i: usize = 0;
        while i < self.columns.len()
            invariant
                i <= self.columns.len(),
                columns@ == self.columns@.take(i as int),
            decreases self.columns.len() - i,
        {
            columns.push(self.columns[i]);
            i += 1;
        }
        let mut indexes: Vec<&'static str> = Vec::new();
        let mut j: usize = 0;
        while j < self.indexes.len()
            invariant
                j <= self.indexes.len(),
                indexes@ == self.indexes@.take(j as int),
            decreases self.indexes.len() - j,
        {
            indexes.push(self.indexes[j]);
            j += 1;
        }
        assert(columns@ =~= self.columns@);
        assert(indexes@ =~= self.indexes@);
        Table { name: self.name, columns, indexes }
    }
}

impl Table {
    /// The statement that creates this table: each column with its native
    /// type, ordered by the key columns or, without any, by the block number.
    pub fn create_table_sql(&self) -> (sql: String)
        ensures
            sql@ == create_table_text(self@),
    {
        create_table_statement(self.name, &self.columns)
    }

    /// The statements that create this table's secondary indexes: none.
    pub fn create_index_statements(&self) -> (statements: Vec<String>)
        ensures
            statements@.len() == 0,
    {
        Vec::new()
    }

    /// Whether the table has a column for the block number.
    pub fn has_block_number_column(&self) -> (found: bool)
        ensures
            found == has_block_number(self@),
    {
        let mut i: usize = 0;
        while i < self.columns.len()
            invariant
                i <= self.columns.len(),
                forall|k: int| 0 <= k < i ==> self.columns@[k]@.name != "block_number"@,
            decreases self.columns.len() - i,
        {
            if str_eq(self.columns[i].name, "block_number") {
                assert(self@.columns[i as int].name == "block_number"@);
                return true;
            }
            i += 1;
        }
        false
    }

    /// The statement that deletes the rows of given blocks, with `{}` in
    /// place of the list of block numbers.
    pub fn revert_statement(&self) -> (sql: String)
        ensures
            sql@ == revert_template(self@.name),
    {
        revert_template_of(self.name)
    }
}

/// A column of the pools table that is neither nullable nor part of the key.
pub open spec fn plain_column(name: Seq<char>, sql_type: Seq<char>) -> ColumnSpec {
    ColumnSpec { name, sql_type, nullable: false, primary_key: false }
}

/// The columns of the pools table.
pub open spec fn pools_columns() -> Seq<ColumnSpec> {
    seq![
        plain_column("block_number"@, "BIGINT"@),
        plain_column("transaction_hash"@, "VARCHAR"@),
        plain_column("transaction_index"@, "BIGINT"@),
        plain_column("log_index"@, "BIGINT"@),
        plain_column("log_address"@, "VARCHAR"@),
        ColumnSpec {
            name: "pool_id"@,
            sql_type: "VARCHAR"@,
            nullable: false,
            primary_key: true,
        },
        plain_column("currency0"@, "VARCHAR"@),
        plain_column("currency1"@, "VARCHAR"@),
        plain_column("fee"@, "VARCHAR"@),
        plain_column("tick_spacing"@, "VARCHAR"@),
        plain_column("hooks"@, "VARCHAR"@),
        plain_column("sqrt_price_x96"@, "VARCHAR"@),
        plain_column("tick"@, "VARCHAR"@),
        plain_column("updated_at"@, "TIMESTAMP WITH TIME ZONE"@),
    ]
}

/// The pools table.
pub open spec fn pools_table() -> TableSpec {
    TableSpec {
        name: "uni_v4_pools"@,
        columns: pools_columns(),
        indexes: Seq::empty(),
        partition_by: None,
    }
}

/// The catalogue: the pools table.
pub open spec fn catalogue() -> Seq<TableSpec> {
    seq![pools_table()]
}

/// Whether the table has a column for the block number, by which its rows
/// are ordered where it has no key, and by which they are retracted.
pub open spec fn has_block_number(table: TableSpec) -> bool {
    exists|i: int|
        0 <= i < table.columns.len() && (#[trigger] table.columns[i]).name == "block_number"@
}

/// Every table of the catalogue has a column for the block number.
pub proof fn lemma_catalogue_has_block_number()
    ensures
        forall|i: int| 0 <= i < catalogue().len() ==> has_block_number(#[trigger] catalogue()[i]),
{
    assert(pools_table().columns[0].name == "block_number"@);
}

/// The first table of `tables` named `name`, if any.
pub open spec fn find_table(tables: Seq<TableSpec>, name: Seq<char>) -> Option<TableSpec>
    decreases tables.len(),
{
    if tables.len() == 0 {
        None
    } else if tables[0].name == name {
        Some(tables[0])
    } else {
        find_table(tables.drop_first(), name)
    }
}

/// The plain values of a sequence of tables.
pub open spec fn table_specs(tables: Seq<Table>) -> Seq<TableSpec> {
    Seq::new(tables.len(), |i: int| tables[i]@)
}

/// The plain value of an optional table.
pub open spec fn optional_spec(table: Option<Table>) -> Option<TableSpec> {
    match table {
        Some(found) => Some(found@),
        None => None,
    }
}

fn column(name: &'static str, sql_type: &'static str, primary_key: bool) -> (made: Column)
    ensures
        made@ == (ColumnSpec { name: name@, sql_type: sql_type@, nullable: false, primary_key }),
{
    Column { name, sql_type, nullable: false, primary_key }
}

/// The definitions of all tables, in catalogue order.
pub fn definitions() -> (tables: Vec<Table>)
    ensures
        table_specs(tables@) == catalogue(),
{
    let mut columns: Vec<Column> = Vec::new();
    columns.push(column("block_number", "BIGINT", false));
    columns.push(column("transaction_hash", "VARCHAR", false));
    columns.push(column("transaction_index", "BIGINT", false));
    columns.push(column("log_index", "BIGINT", false));
    columns.push(column("log_address", "VARCHAR", false));
    columns.push(column("pool_id", "VARCHAR", true));
    columns.push(column("currency0", "VARCHAR", false));
    columns.push(column("currency1", "VARCHAR", false));
    columns.push(column("fee", "VARCHAR", false));
    columns.push(column("tick_spacing", "VARCHAR", false));
    columns.push(column("hooks", "VARCHAR", false));
    columns.push(column("sqrt_price_x96", "VARCHAR", false));
    columns.push(column("tick", "VARCHAR", false));
    columns.push(column("updated_at", "TIMESTAMP WITH TIME ZONE", false));
    assert(column_specs(columns@) =~= pools_columns());
    let table = Table { name: "uni_v4_pools", columns, indexes: Vec::new() };
    assert(table@.indexes =~= Seq::<Seq<char>>::empty());
    let mut tables: Vec<Table> = Vec::new();
    tables.push(table);
    tables
}

/// The first of `tables` named `name`, if any.
pub fn find(tables: &Vec<Table>, name: &str) -> (found: Option<Table>)
    ensures
        optional_spec(found) == find_table(table_specs(tables@), name@),
{
    let ghost specs = table_specs(tables@);
    let mut i: usize = 0;
    assert(specs.skip(0) =~= specs);
    while i < tables.len()
        invariant
            i <= tables.len(),
            specs == table_specs(tables@),
            find_table(specs, name@) == find_table(specs.skip(i as int), name@),
        decreases tables.len() - i,
    {
        proof {
            assert(specs.skip(i as int).drop_first() =~= specs.skip(i as int + 1));
        }
        if str_eq(tables[i].name, name) {
            return Some(tables[i].clone());
        }
        i += 1;
    }
    None
}

/// The definition of the table named `name`, if the catalogue has one.
pub fn get(name: &str) -> (found: Option<Table>)
    ensures
        optional_spec(found) == find_table(catalogue(), name@),
{
    let tables = definitions();
    find(&tables, name)
}

} // verus!
