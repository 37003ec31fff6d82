//! Block-event indexing for the Uniswap v4 pool manager.
//!
//! For each block the indexer runs one processor for each event family. A
//! processor scans the logs of the block's receipts, keeps the logs that the
//! pool manager emitted with the family's signature, decodes them, and turns
//! each event into a row of text values for the family's table. The rows of
//! one processor and one block form a batch that is committed as one bulk
//! insert. When the chain reorganizes, the rows of given blocks are retracted
//! from every table.
//!
//! The library computes; it sends nothing. It hands out the inserts and the
//! statements to send, and takes back what became of them.
//!
//! - `text`: decimal and hexadecimal text, joining, substitution.
//! - `primitives`: the chain's value types and their text forms.
//! - `sql`, `schema`, `table_definitions`: table definitions and the
//!   statements they yield.
//! - `storage`, `db_writer`: batched table writers and value adapters.
//! - `block`, `events`, `processors`: block data, event layouts, and the
//!   processors.
//! - `indexer`, `report`: the registered processors, the tasks of a block,
//!   and the block's summary.
//! - `utils`: connection settings and table setup.
pub mod block;
pub mod db_writer;
pub mod events;
pub mod indexer;
pub mod primitives;
pub mod processors;
pub mod report;
pub mod schema;
pub mod sql;
pub mod storage;
pub mod table_definitions;
pub mod text;
pub mod utils;
