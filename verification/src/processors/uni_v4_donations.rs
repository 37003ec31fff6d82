//! Donations: one row for each `Donate` event of the pool manager.
use crate::block::{block_spec, EthereumBlockData};
use crate::events::EventKind;
use crate::indexer::ProcessingComponents;
use crate::processors::{block_rows, process_event_logs};
use crate::storage::writer::ClickhouseWriter;
use vstd::prelude::*;

verus! {

/// Writes a row for every donation in the block: where the event was found,
/// the pool's id, the sender, the two amounts, and the processing time.
pub fn process_uni_v4_donations(
    block_data: &EthereumBlockData,
    components: ProcessingComponents,
    writer: &mut ClickhouseWriter,
)
    ensures
        final(writer).table() == old(writer).table(),
        final(writer).rows() == old(writer).rows() + block_rows(
            EventKind::Donate,
            block_spec(*block_data),
            components.processed_at.text(),
        ),
{
    process_event_logs(EventKind::Donate, block_data, &components.processed_at, writer)
}

} // verus!
