//! Where the store is reached, and the statements that set up the tables of
//! `table_definitions`.
use crate::schema::catalogue;
use crate::storage::setup_statements;
use crate::table_definitions::{get_table_definitions, table_specs, TableDefinition};
use crate::text::texts;
use vstd::prelude::*;

verus! {

/// The address of the store where none is configured.
pub open spec fn default_url() -> Seq<char> {
    "http://localhost:8123"@
}

/// The database where none is configured.
pub open spec fn default_database() -> Seq<char> {
    "default"@
}

/// The configured text, or `fallback` where nothing is configured.
pub open spec fn configured_or(configured: Option<String>, fallback: Seq<char>) -> Seq<char> {
    match configured {
        Some(text) => text@,
        None => fallback,
    }
}

/// The address and the database to connect to: what is configured, and the
/// local server and the default database where nothing is.
pub fn connection_settings(url: Option<String>, database: Option<String>) -> (target: (
    String,
    String,
))
    ensures
        target.0@ == configured_or(url, default_url()),
        target.1@ == configured_or(database, default_database()),
{
    let address = match url {
        Some(text) => text,
        None => String::from_str("http://localhost:8123"),
    };
    let name = match database {
        Some(text) => text,
        None => String::from_str("default"),
    };
    (address, name)
}

/// The statements that set up `tables`, in the order to run them.
pub fn statements_for(tables: &Vec<TableDefinition>) -> (statements: Vec<String>)
    ensures
        texts(statements@) == setup_statements(table_specs(tables@)),
{
    let mut statements: Vec<String> = Vec::new();
    let mut i: usize = 0;
    while i < tables.len()
        invariant
            i <= tables.len(),
            statements@.len() == i,
            texts(statements@) =~= setup_statements(table_specs(tables@).take(i as int)),
        decreases tables.len() - i,
    {
        let ghost before = statements@;
        statements.push(tables[i].create_table_sql());
        let mut indexes = tables[i].create_index_statements();
        statements.append(&mut indexes);
        proof {
            assert forall|k: int| 0 <= k < statements@.len() implies texts(statements@)[k]
                == setup_statements(table_specs(tables@).take(i as int + 1))[k] by {
                if k < i {
                    assert(texts(before)[k] == setup_statements(
                        table_specs(tables@).take(i as int),
                    )[k]);
                }
            }
        }
        i += 1;
    }
    statements
}

/// The statements that set up every table of the catalogue, in the order to
/// run them.
pub fn create_statements() -> (statements: Vec<String>)
    ensures
        texts(statements@) == setup_statements(catalogue()),
{
    let tables = get_table_definitions();
    statements_for(&tables)
}

} // verus!
