//! Table definitions keyed by name, with the columns that each table declares
//! and the SQL statements that a definition yields.
use crate::schema::{catalogue, find_table, pools_columns, slice_texts};
use crate::sql::{
    column_specs, create_table_statement, create_table_text, revert_template, revert_template_of,
    ColumnSpec, SqlColumn, TableSpec,
};
use crate::text::str_eq;
use vstd::prelude::*;

verus! {

/// A table: its name, its columns in declaration order, and its secondary
/// indexes.
#[derive(Debug)]
pub struct TableDefinition {
    pub name: &'static str,
    pub columns: Vec<ColumnDefinition>,
    pub indexes: Vec<&'static str>,
}

/// A column: its name, its semantic type, and whether it may be null or is
/// part of the key.
#[derive(Debug, Clone, Copy)]
pub struct ColumnDefinition {
    pub name: &'static str,
    pub sql_type: &'static str,
    pub nullable: bool,
    pub primary_key: bool,
}

impl View for ColumnDefinition {
    type V = ColumnSpec;

    open spec fn view(&self) -> ColumnSpec {
        ColumnSpec {
            name: self.name@,
            sql_type: self.sql_type@,
            nullable: self.nullable,
            primary_key: self.primary_key,
        }
    }
}

impl SqlColumn for ColumnDefinition {
    open spec fn column_spec(&self) -> ColumnSpec {
        self@
    }

    fn column_name(&self) -> (name: &'static str) {
        self.name
    }

    fn column_type(&self) -> (sql_type: &'static str) {
        self.sql_type
    }

    fn is_nullable(&self) -> (nullable: bool) {
        self.nullable
    }

    fn is_primary_key(&self) -> (key: bool) {
        self.primary_key
    }
}

impl View for TableDefinition {
    type V = TableSpec;

    open spec fn view(&self) -> TableSpec {
        TableSpec {
            name: self.name@,
            columns: column_specs(self.columns@),
            indexes: slice_texts(self.indexes@),
            partition_by: None,
        }
    }
}

impl Clone for TableDefinition {
    fn clone(&self) -> (copy: Self)
        ensures
            copy@ == self@,
    {
        let mut columns: Vec<ColumnDefinition> = Vec::new();
        let mut i: usize = 0;
        while i < self.columns.len()
            invariant
                i <= self.columns.len(),
                columns@ == self.columns@.take(i as int),
            decreases self.columns.len() - i,
        {
            columns.push(self.columns[i]);
            i += 1;
        }
        let mut indexes: Vec<&'static str> = Vec::new();
        let mut j: usize = 0;
        while j < self.indexes.len()
            invariant
                j <= self.indexes.len(),
                indexes@ == self.indexes@.take(j as int),
            decreases self.indexes.len() - j,
        {
            indexes.push(self.indexes[j]);
            j += 1;
        }
        assert(columns@ =~= self.columns@);
        assert(indexes@ =~= self.indexes@);
        TableDefinition { name: self.name, columns, indexes }
    }
}

impl TableDefinition {
    /// The statement that creates this table: each column with its native
    /// type, ordered by the key columns or, without any, by the block number.
    pub fn create_table_sql(&self) -> (sql: String)
        ensures
            sql@ == create_table_text(self@),
    {
        create_table_statement(self.name, &self.columns)
    }

    /// The statements that create this table's secondary indexes: none.
    pub fn create_index_statements(&self) -> (statements: Vec<String>)
        ensures
            statements@.len() == 0,
    {
        Vec::new()
    }

    /// The statement that deletes the rows of given blocks, with `{}` in
    /// place of the list of block numbers.
    pub fn revert_statement(&self) -> (sql: String)
        ensures
            sql@ == revert_template(self@.name),
    {
        revert_template_of(self.name)
    }
}

/// The plain values of a sequence of tables.
pub open spec fn table_specs(tables: Seq<TableDefinition>) -> Seq<TableSpec> {
    Seq::new(tables.len(), |i: int| tables[i]@)
}

/// The plain value of an optional table.
pub open spec fn optional_spec(table: Option<TableDefinition>) -> Option<TableSpec> {
    match table {
        Some(found) => Some(found@),
        None => None,
    }
}

fn column(name: &'static str, sql_type: &'static str, primary_key: bool) -> (made: ColumnDefinition)
    ensures
        made@ == (ColumnSpec { name: name@, sql_type: sql_type@, nullable: false, primary_key }),
{
    ColumnDefinition { name, sql_type, nullable: false, primary_key }
}

/// The definitions of all tables, in catalogue order.
pub fn get_table_definitions() -> (tables: Vec<TableDefinition>)
    ensures
        table_specs(tables@) == catalogue(),
{
    let mut columns: Vec<ColumnDefinition> = Vec::new();
    columns.push(column("block_number", "BIGINT", false));
    columns.push(column("transaction_hash", "VARCHAR", false));
    columns.push(column("transaction_index", "BIGINT", false));
    columns.push(column("log_index", "BIGINT", false));
    columns.push(column("log_address", "VARCHAR", false));
    columns.push(column("pool_id", "VARCHAR", true));
    columns.push(column("currency0", "VARCHAR", false));
    columns.push(column("currency1", "VARCHAR", false));
    columns.push(column("fee", "VARCHAR", false));
    columns.push(column("tick_spacing", "VARCHAR", false));
    columns.push(column("hooks", "VARCHAR", false));
    columns.push(column("sqrt_price_x96", "VARCHAR", false));
    columns.push(column("tick", "VARCHAR", false));
    columns.push(column("updated_at", "TIMESTAMP WITH TIME ZONE", false));
    assert(column_specs(columns@) =~= pools_columns());
    let table = TableDefinition { name: "uni_v4_pools", columns, indexes: Vec::new() };
    assert(table@.indexes =~= Seq::<Seq<char>>::empty());
    let mut tables: Vec<TableDefinition> = Vec::new();
    tables.push(table);
    tables
}

/// The first of `tables` named `name`, if any.
pub fn find_definition(tables: &Vec<TableDefinition>, name: &str) -> (found: Option<
    TableDefinition,
>)
    ensures
        optional_spec(found) == find_table(table_specs(tables@), name@),
{
    let ghost specs = table_specs(tables@);
    let mut i: usize = 0;
    assert(specs.skip(0) =~= specs);
    while i < tables.len()
        invariant
            i <= tables.len(),
            specs == table_specs(tables@),
            find_table(specs, name@) == find_table(specs.skip(i as int), name@),
        decreases tables.len() - i,
    {
        proof {
            assert(specs.skip(i as int).drop_first() =~= specs.skip(i as int + 1));
        }
        if str_eq(tables[i].name, name) {
            return Some(tables[i].clone());
        }
        i += 1;
    }
    None
}

/// The definition of the table named `name`, if the catalogue has one.
pub fn get_table_definition(name: &str) -> (found: Option<TableDefinition>)
    ensures
        optional_spec(found) == find_table(catalogue(), name@),
{
    let tables = get_table_definitions();
    find_definition(&tables, name)
}

/// The definition of the table named `name`, if the catalogue has one.
pub fn get_table(name: &str) -> (found: Option<TableDefinition>)
    ensures
        optional_spec(found) == find_table(catalogue(), name@),
{
    get_table_definition(name)
}

} // verus!
