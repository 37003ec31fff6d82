//! The SQL text that the table catalogue produces, defined over `Seq<char>`,
//! and the executable builders that are proved to produce it.
use crate::text::{
    brace_free, decimal_text, join, join_strings, lemma_substitute_one, signed_decimal, str_eq,
    substitute, substitute_placeholders, texts,
};
use vstd::prelude::*;

verus! {

/// What a column definition says, as plain values.
pub struct ColumnSpec {
    pub name: Seq<char>,
    pub sql_type: Seq<char>,
    pub nullable: bool,
    pub primary_key: bool,
}

/// What a table definition says, as plain values.
pub struct TableSpec {
    pub name: Seq<char>,
    pub columns: Seq<ColumnSpec>,
    pub indexes: Seq<Seq<char>>,
    pub partition_by: Option<Seq<char>>,
}

/// A column definition that the SQL builders can read.
pub trait SqlColumn {
    spec fn column_spec(&self) -> ColumnSpec;

    fn column_name(&self) -> (name: &'static str)
        ensures
            name@ == self.column_spec().name,
    ;

    fn column_type(&self) -> (sql_type: &'static str)
        ensures
            sql_type@ == self.column_spec().sql_type,
    ;

    fn is_nullable(&self) -> (nullable: bool)
        ensures
            nullable == self.column_spec().nullable,
    ;

    fn is_primary_key(&self) -> (key: bool)
        ensures
            key == self.column_spec().primary_key,
    ;
}

/// The plain values of a sequence of column definitions.
pub open spec fn column_specs<C: SqlColumn>(columns: Seq<C>) -> Seq<ColumnSpec> {
    Seq::new(columns.len(), |i: int| columns[i].column_spec())
}

/// The store's native type for a declared semantic type. Unknown types are
/// stored as `String`.
pub open spec fn native_type(sql_type: Seq<char>) -> Seq<char> {
    if sql_type == "BIGINT"@ {
        "Int64"@
    } else if sql_type == "INTEGER"@ {
        "Int32"@
    } else if sql_type == "SMALLINT"@ {
        "Int16"@
    } else if sql_type == "TEXT"@ || sql_type == "VARCHAR"@ {
        "String"@
    } else if sql_type == "BOOLEAN"@ {
        "Bool"@
    } else if sql_type == "DOUBLE PRECISION"@ {
        "Float64"@
    } else if sql_type == "REAL"@ {
        "Float32"@
    } else if sql_type == "TIMESTAMP WITH TIME ZONE"@ || sql_type == "TIMESTAMP"@ {
        "DateTime"@
    } else if sql_type == "DATE"@ {
        "Date"@
    } else {
        "String"@
    }
}

/// Whether `sql_type` is one of the semantic types that `native_type` maps.
pub open spec fn is_semantic_type(sql_type: Seq<char>) -> bool {
    ||| sql_type == "BIGINT"@
    ||| sql_type == "INTEGER"@
    ||| sql_type == "SMALLINT"@
    ||| sql_type == "TEXT"@
    ||| sql_type == "VARCHAR"@
    ||| sql_type == "BOOLEAN"@
    ||| sql_type == "DOUBLE PRECISION"@
    ||| sql_type == "REAL"@
    ||| sql_type == "TIMESTAMP WITH TIME ZONE"@
    ||| sql_type == "TIMESTAMP"@
    ||| sql_type == "DATE"@
}

/// As `native_type`, and the store's own type names pass through.
pub open spec fn native_type_extended(sql_type: Seq<char>) -> Seq<char> {
    if is_semantic_type(sql_type) {
        native_type(sql_type)
    } else if sql_type == "UInt32"@ {
        "UInt32"@
    } else if sql_type == "UInt64"@ {
        "UInt64"@
    } else if sql_type == "Int32"@ {
        "Int32"@
    } else if sql_type == "Int64"@ {
        "Int64"@
    } else if sql_type == "FixedString(66)"@ {
        "FixedString(66)"@
    } else if sql_type == "FixedString(40)"@ {
        "FixedString(40)"@
    } else if sql_type == "DateTime64(3, 'UTC')"@ {
        "DateTime64(3, 'UTC')"@
    } else if sql_type == "Decimal(38,0)"@ {
        "Decimal(38, 0)"@
    } else {
        "String"@
    }
}

/// The native type of a column under the chosen mapping.
pub open spec fn mapped_type(sql_type: Seq<char>, extended: bool) -> Seq<char> {
    if extended {
        native_type_extended(sql_type)
    } else {
        native_type(sql_type)
    }
}

/// One column of a create-table statement: the name, a space, and the native
/// type, inside `Nullable(..)` where the column is nullable.
pub open spec fn column_line(column: ColumnSpec, extended: bool) -> Seq<char> {
    let native = mapped_type(column.sql_type, extended);
    if column.nullable {
        column.name + " "@ + "Nullable("@ + native + ")"@
    } else {
        column.name + " "@ + native
    }
}

/// The lines of all columns, in declaration order.
pub open spec fn column_lines(columns: Seq<ColumnSpec>, extended: bool) -> Seq<Seq<char>> {
    Seq::new(columns.len(), |i: int| column_line(columns[i], extended))
}

/// The names of the key columns, in declaration order.
pub open spec fn key_names(columns: Seq<ColumnSpec>) -> Seq<Seq<char>>
    decreases columns.len(),
{
    if columns.len() == 0 {
        Seq::empty()
    } else if columns.last().primary_key {
        key_names(columns.drop_last()).push(columns.last().name)
    } else {
        key_names(columns.drop_last())
    }
}

/// The engine clause: ordered by the key columns, or by the block number
/// where no column is a key.
pub open spec fn engine_clause(keys: Seq<Seq<char>>) -> Seq<char> {
    if keys.len() == 0 {
        "ENGINE = MergeTree() ORDER BY block_number"@
    } else {
        "ENGINE = MergeTree() ORDER BY ("@ + join(keys, ", "@) + ")"@
    }
}

/// The ordering key: the key columns, or the block number where there are none.
pub open spec fn order_key(keys: Seq<Seq<char>>) -> Seq<char> {
    if keys.len() == 0 {
        "block_number"@
    } else {
        join(keys, ", "@)
    }
}

/// The engine clause with an optional partition expression and the storage
/// settings.
pub open spec fn partitioned_engine_clause(
    keys: Seq<Seq<char>>,
    partition_by: Option<Seq<char>>,
) -> Seq<char> {
    let partition = match partition_by {
        Some(expression) => "PARTITION BY "@ + expression + " "@,
        None => Seq::<char>::empty(),
    };
    "ENGINE = MergeTree() "@ + partition + "ORDER BY ("@ + order_key(keys)
        + ") SETTINGS index_granularity = 8192, compress = 'LZ4'"@
}

/// A create-table statement from its parts.
pub open spec fn create_statement(
    name: Seq<char>,
    lines: Seq<Seq<char>>,
    engine: Seq<char>,
) -> Seq<char> {
    "CREATE TABLE IF NOT EXISTS "@ + name + " (\n    "@ + join(lines, ",\n    "@) + "\n) "@
        + engine
}

/// The create-table statement of a table whose keys order it.
pub open spec fn create_table_text(table: TableSpec) -> Seq<char> {
    create_statement(
        table.name,
        column_lines(table.columns, false),
        engine_clause(key_names(table.columns)),
    )
}

/// The create-table statement of a table with the extended type mapping, an
/// optional partition expression and the storage settings.
pub open spec fn create_partitioned_table_text(table: TableSpec) -> Seq<char> {
    create_statement(
        table.name,
        column_lines(table.columns, true),
        partitioned_engine_clause(key_names(table.columns), table.partition_by),
    )
}

/// The delete statement of a table with `{}` where the block numbers go.
pub open spec fn revert_template(name: Seq<char>) -> Seq<char> {
    "ALTER TABLE "@ + name + " DELETE WHERE block_number IN ({})"@
}

/// The decimal texts of block numbers.
pub open spec fn block_texts(blocks: Seq<i64>) -> Seq<Seq<char>> {
    Seq::new(blocks.len(), |i: int| decimal_text(blocks[i] as int))
}

/// The block numbers in decimal, separated by a comma and a space.
pub open spec fn block_list(blocks: Seq<i64>) -> Seq<char> {
    join(block_texts(blocks), ", "@)
}

/// The statement that deletes the rows of `blocks` from the table `name`:
/// the table's delete statement with the list of block numbers in place of
/// `{}`.
pub open spec fn revert_text(name: Seq<char>, blocks: Seq<i64>) -> Seq<char> {
    substitute(revert_template(name), block_list(blocks))
}

/// The statement that deletes the rows of given blocks from a table whose
/// name holds no opening brace names the table and lists the blocks:
/// `ALTER TABLE name DELETE WHERE block_number IN (list)`.
pub proof fn lemma_revert_text(name: Seq<char>, blocks: Seq<i64>)
    requires
        brace_free(name),
    ensures
        revert_text(name, blocks) == "ALTER TABLE "@ + name + " DELETE WHERE block_number IN ("@
            + block_list(blocks) + ")"@,
{
    reveal_strlit("ALTER TABLE ");
    reveal_strlit(" DELETE WHERE block_number IN ({})");
    reveal_strlit(" DELETE WHERE block_number IN (");
    reveal_strlit(")");
    let head = "ALTER TABLE "@ + name + " DELETE WHERE block_number IN ("@;
    let tail = ")"@;
    assert(revert_template(name) =~= head + seq!['{', '}'] + tail);
    lemma_substitute_one(head, tail, block_list(blocks));
}

/// The store's native type name for a declared semantic type.
pub fn native_type_name(sql_type: &str, extended: bool) -> (native: &'static str)
    ensures
        native@ == mapped_type(sql_type@, extended),
{
    if str_eq(sql_type, "BIGINT") {
        "Int64"
    } else if str_eq(sql_type, "INTEGER") {
        "Int32"
    } else if str_eq(sql_type, "SMALLINT") {
        "Int16"
    } else if str_eq(sql_type, "TEXT") || str_eq(sql_type, "VARCHAR") {
        "String"
    } else if str_eq(sql_type, "BOOLEAN") {
        "Bool"
    } else if str_eq(sql_type, "DOUBLE PRECISION") {
        "Float64"
    } else if str_eq(sql_type, "REAL") {
        "Float32"
    } else if str_eq(sql_type, "TIMESTAMP WITH TIME ZONE") || str_eq(sql_type, "TIMESTAMP") {
        "DateTime"
    } else if str_eq(sql_type, "DATE") {
        "Date"
    } else if !extended {
        "String"
    } else if str_eq(sql_type, "UInt32") {
        "UInt32"
    } else if str_eq(sql_type, "UInt64") {
        "UInt64"
    } else if str_eq(sql_type, "Int32") {
        "Int32"
    } else if str_eq(sql_type, "Int64") {
        "Int64"
    } else if str_eq(sql_type, "FixedString(66)") {
        "FixedString(66)"
    } else if str_eq(sql_type, "FixedString(40)") {
        "FixedString(40)"
    } else if str_eq(sql_type, "DateTime64(3, 'UTC')") {
        "DateTime64(3, 'UTC')"
    } else if str_eq(sql_type, "Decimal(38,0)") {
        "Decimal(38, 0)"
    } else {
        "String"
    }
}

/// The line of one column.
pub fn column_line_of<C: SqlColumn>(column: &C, extended: bool) -> (line: String)
    ensures
        line@ == column_line(column.column_spec(), extended),
{
    let native = native_type_name(column.column_type(), extended);
    let mut line = String::from_str(column.column_name());
    line.append(" ");
    if column.is_nullable() {
        line.append("Nullable(");
        line.append(native);
        line.append(")");
    } else {
        line.append(native);
    }
    line
}

/// The column lines and the key names of a list of columns.
pub fn lines_and_keys<C: SqlColumn>(columns: &Vec<C>, extended: bool) -> (parts: (
    Vec<String>,
    Vec<String>,
))
    ensures
        texts(parts.0@) == column_lines(column_specs(columns@), extended),
        texts(parts.1@) == key_names(column_specs(columns@)),
{
    let mut lines: Vec<String> = Vec::new();
    let mut keys: Vec<String> = Vec::new();
    let ghost specs = column_specs(columns@);
    let mut i: usize = 0;
    while i < columns.len()
        invariant
            i <= columns.len(),
            specs == column_specs(columns@),
            lines@.len() == i,
            texts(lines@) =~= column_lines(specs.take(i as int), extended),
            texts(keys@) =~= key_names(specs.take(i as int)),
        decreases columns.len() - i,
    {
        let column = &columns[i];
        proof {
            assert(specs.take(i as int + 1).drop_last() =~= specs.take(i as int));
        }
        let ghost lines_before = lines@;
        lines.push(column_line_of(column, extended));
        if column.is_primary_key() {
            keys.push(String::from_str(column.column_name()));
        }
        proof {
            assert forall|k: int| 0 <= k < lines@.len() implies texts(lines@)[k] == column_lines(
                specs.take(i as int + 1),
                extended,
            )[k] by {
                if k < i {
                    assert(texts(lines_before)[k] == column_lines(specs.take(i as int), extended)[k]);
                }
            }
        }
        i += 1;
    }
    assert(specs.take(columns.len() as int) =~= specs);
    (lines, keys)
}

/// The create-table statement from its parts.
pub fn assemble_create_statement(name: &str, lines: &Vec<String>, engine: &str) -> (sql: String)
    ensures
        sql@ == create_statement(name@, texts(lines@), engine@),
{
    let mut sql = String::from_str("CREATE TABLE IF NOT EXISTS ");
    sql.append(name);
    sql.append(" (\n    ");
    let body = join_strings(lines, ",\n    ");
    sql.append(body.as_str());
    sql.append("\n) ");
    sql.append(engine);
    sql
}

/// The create-table statement of a table whose keys order it.
pub fn create_table_statement<C: SqlColumn>(name: &str, columns: &Vec<C>) -> (sql: String)
    ensures
        sql@ == create_statement(
            name@,
            column_lines(column_specs(columns@), false),
            engine_clause(key_names(column_specs(columns@))),
        ),
{
    let (lines, keys) = lines_and_keys(columns, false);
    let engine = if keys.len() == 0 {
        String::from_str("ENGINE = MergeTree() ORDER BY block_number")
    } else {
        let mut engine = String::from_str("ENGINE = MergeTree() ORDER BY (");
        let joined = join_strings(&keys, ", ");
        engine.append(joined.as_str());
        engine.append(")");
        engine
    };
    assemble_create_statement(name, &lines, engine.as_str())
}

/// The create-table statement with the extended type mapping, an optional
/// partition expression and the storage settings.
pub fn create_partitioned_table_statement<C: SqlColumn>(
    name: &str,
    columns: &Vec<C>,
    partition_by: Option<&'static str>,
) -> (sql: String)
    ensures
        sql@ == create_statement(
            name@,
            column_lines(column_specs(columns@), true),
            partitioned_engine_clause(
                key_names(column_specs(columns@)),
                match partition_by {
                    Some(expression) => Some(expression@),
                    None => None,
                },
            ),
        ),
{
    let (lines, keys) = lines_and_keys(columns, true);
    let order_by = if keys.len() == 0 {
        String::from_str("block_number")
    } else {
        join_strings(&keys, ", ")
    };
    let mut engine = String::from_str("ENGINE = MergeTree() ");
    match partition_by {
        Some(expression) => {
            engine.append("PARTITION BY ");
            engine.append(expression);
            engine.append(" ");
        },
        None => {},
    }
    engine.append("ORDER BY (");
    engine.append(order_by.as_str());
    engine.append(") SETTINGS index_granularity = 8192, compress = 'LZ4'");
    assemble_create_statement(name, &lines, engine.as_str())
}

/// The delete statement of a table with `{}` where the block numbers go.
pub fn revert_template_of(name: &str) -> (sql: String)
    ensures
        sql@ == revert_template(name@),
{
    let mut sql = String::from_str("ALTER TABLE ");
    sql.append(name);
    sql.append(" DELETE WHERE block_number IN ({})");
    sql
}

/// The block numbers in decimal, separated by a comma and a space.
pub fn block_list_of(blocks: &[i64]) -> (list: String)
    ensures
        list@ == block_list(blocks@),
{
    let mut numbers: Vec<String> = Vec::new();
    let mut i: usize = 0;
    while i < blocks.len()
        invariant
            i <= blocks.len(),
            numbers@.len() == i,
            texts(numbers@) =~= block_texts(blocks@.take(i as int)),
        decreases blocks.len() - i,
    {
        let ghost before = numbers@;
        numbers.push(signed_decimal(blocks[i] as i128));
        proof {
            assert forall|k: int| 0 <= k < numbers@.len() implies texts(numbers@)[k] == block_texts(
                blocks@.take(i as int + 1),
            )[k] by {
                if k < i {
                    assert(texts(before)[k] == block_texts(blocks@.take(i as int))[k]);
                }
            }
        }
        i += 1;
    }
    assert(blocks@.take(blocks.len() as int) =~= blocks@);
    join_strings(&numbers, ", ")
}

/// The delete statement `template` with the list of `blocks` in place of `{}`.
pub fn fill_revert_template(template: &str, blocks: &[i64]) -> (sql: String)
    ensures
        sql@ == substitute(template@, block_list(blocks@)),
{
    let list = block_list_of(blocks);
    substitute_placeholders(template, list.as_str())
}

} // verus!
