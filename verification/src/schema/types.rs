//! Table definitions with an optional partition expression, the store's own
//! type names, and explicit storage settings.
use crate::schema::slice_texts;
use crate::sql::{
    column_specs, create_partitioned_table_statement, create_partitioned_table_text,
    revert_template, revert_template_of, ColumnSpec, SqlColumn, TableSpec,
};
use vstd::prelude::*;

verus! {

/// A table: its name, its columns in declaration order, its secondary
/// indexes, and the expression it is partitioned by, if any.
#[derive(Debug)]
pub struct Table {
    pub name: &'static str,
    pub columns: Vec<Column>,
    pub indexes: Vec<&'static str>,
    pub partition_by: Option<&'static str>,
}

/// A column: its name, its semantic or native type, and whether it may be
/// null or is part of the key.
#[derive(Debug, Clone, Copy)]
pub struct Column {
    pub name: &'static str,
    pub sql_type: &'static str,
    pub nullable: bool,
    pub primary_key: bool,
}

impl View for Column {
    type V = ColumnSpec;

    open spec fn view(&self) -> ColumnSpec {
        ColumnSpec {
            name: self.name@,
            sql_type: self.sql_type@,
            nullable: self.nullable,
            primary_key: self.primary_key,
        }
    }
}

impl SqlColumn for Column {
    open spec fn column_spec(&self) -> ColumnSpec {
        self@
    }

    fn column_name(&self) -> (name: &'static str) {
        self.name
    }

    fn column_type(&self) -> (sql_type: &'static str) {
        self.sql_type
    }

    fn is_nullable(&self) -> (nullable: bool) {
        self.nullable
    }

    fn is_primary_key(&self) -> (key: bool) {
        self.primary_key
    }
}

impl View for Table {
    type V = TableSpec;

    open spec fn view(&self) -> TableSpec {
        TableSpec {
            name: self.name@,
            columns: column_specs(self.columns@),
            indexes: slice_texts(self.indexes@),
            partition_by: match self.partition_by {
                Some(expression) => Some(expression@),
                None => None,
            },
        }
    }
}

impl Clone for Table {
    fn clone(&self) -> (copy: Self)
        ensures
            copy@ == self@,
    {
        let mut columns: Vec<Column> = Vec::new();
        let mut i: usize = 0;
        while i < self.columns.len()
            invariant
                i <= self.columns.len(),
                columns@ == self.columns@.take(i as int),
            decreases self.columns.len() - i,
        {
            columns.push(self.columns[i]);
            i += 1;
        }
        let mut indexes: Vec<&'static str> = Vec::new();
        let mut j: usize = 0;
        while j < self.indexes.len()
            invariant
                j <= self.indexes.len(),
                indexes@ == self.indexes@.take(j as int),
            decreases self.indexes.len() - j,
        {
            indexes.push(self.indexes[j]);
            j += 1;
        }
        assert(columns@ =~= self.columns@);
        assert(indexes@ =~= self.indexes@);
        Table { name: self.name, columns, indexes, partition_by: self.partition_by }
    }
}

impl Table {
    /// The statement that creates this table: each column with its native
    /// type, partitioned where an expression is given, ordered by the key
    /// columns or, without any, by the block number, with the storage
    /// settings.
    pub fn create_table_sql(&self) -> (sql: String)
        ensures
            sql@ == create_partitioned_table_text(self@),
    {
        create_partitioned_table_statement(self.name, &self.columns, self.partition_by)
    }

    /// The statements that create this table's secondary indexes: none.
    pub fn create_index_statements(&self) -> (statements: Vec<String>)
        ensures
            statements@.len() == 0,
    {
        Vec::new()
    }

    /// The statement that deletes the rows of given blocks, with `{}` in
    /// place of the list of block numbers.
    pub fn revert_statement(&self) -> (sql: String)
        ensures
            sql@ == revert_template(self@.name),
    {
        revert_template_of(self.name)
    }
}

} // verus!
