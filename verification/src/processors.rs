//! The event processors: each scans the logs of one block for one event
//! family and writes a row for every log that yields one.
use crate::block::{block_spec, BlockSpec, EthereumBlockData, LogSpec};
use crate::events::{
    lemma_row_shape, log_fails, log_matches, log_row, EventKind, EventLayout, LogPlace,
};
use crate::primitives::DateTime;
use crate::storage::writer::ClickhouseWriter;
use crate::storage::after_revert;
use crate::text::decimal_text;
use vstd::prelude::*;

pub mod uni_v4_donations;
pub mod uni_v4_modify_liquidity;
pub mod uni_v4_pools;
pub mod uni_v4_swaps;

verus! {

/// The rows of the logs of one receipt, in the order of the logs.
pub open spec fn receipt_rows(
    kind: EventKind,
    block_number: u64,
    transaction_hash: Seq<u8>,
    transaction_index: usize,
    logs: Seq<LogSpec>,
    processed_at: Seq<char>,
) -> Seq<Seq<Seq<char>>>
    decreases logs.len(),
{
    if logs.len() == 0 {
        Seq::empty()
    } else {
        let earlier = receipt_rows(
            kind,
            block_number,
            transaction_hash,
            transaction_index,
            logs.drop_last(),
            processed_at,
        );
        match log_row(
            kind,
            block_number,
            transaction_hash,
            transaction_index,
            (logs.len() - 1) as usize,
            logs.last(),
            processed_at,
        ) {
            Some(row) => earlier.push(row),
            None => earlier,
        }
    }
}

/// The number of transactions that have a receipt at their position.
pub open spec fn paired(block: BlockSpec) -> int {
    if block.transactions.len() <= block.receipts.len() {
        block.transactions.len() as int
    } else {
        block.receipts.len() as int
    }
}

/// The rows of the first `count` transactions of a block.
pub open spec fn rows_of_first(
    kind: EventKind,
    block: BlockSpec,
    count: int,
    processed_at: Seq<char>,
) -> Seq<Seq<Seq<char>>>
    decreases count,
{
    if count <= 0 {
        Seq::empty()
    } else {
        rows_of_first(kind, block, count - 1, processed_at) + receipt_rows(
            kind,
            block.number,
            block.transactions[count - 1],
            (count - 1) as usize,
            block.receipts[count - 1],
            processed_at,
        )
    }
}

/// The rows of a block for an event family: transaction by transaction, each
/// paired with the receipt at its position, and log by log.
pub open spec fn block_rows(kind: EventKind, block: BlockSpec, processed_at: Seq<char>) -> Seq<
    Seq<Seq<char>>,
> {
    rows_of_first(kind, block, paired(block), processed_at)
}

/// Whether two lists of rows are the same but for the time of processing,
/// the last column of each row.
pub open spec fn same_but_time(a: Seq<Seq<Seq<char>>>, b: Seq<Seq<Seq<char>>>) -> bool {
    &&& a.len() == b.len()
    &&& forall|i: int|
        0 <= i < a.len() ==> (#[trigger] a[i]).len() == b[i].len() && a[i].drop_last()
            == b[i].drop_last()
}

/// Whether every row has the decimal text of `block_number` as its first
/// column.
pub open spec fn rows_of_block(rows: Seq<Seq<Seq<char>>>, block_number: i64) -> bool {
    forall|i: int|
        0 <= i < rows.len() ==> (#[trigger] rows[i]).len() > 0 && rows[i][0] == decimal_text(
            block_number as int,
        )
}

/// The rows of a receipt are rows of its block, and another time of
/// processing changes nothing but their last column.
pub proof fn lemma_receipt_rows(
    kind: EventKind,
    block_number: u64,
    transaction_hash: Seq<u8>,
    transaction_index: usize,
    logs: Seq<LogSpec>,
    processed_at: Seq<char>,
    another_time: Seq<char>,
)
    ensures
        rows_of_block(
            receipt_rows(
                kind,
                block_number,
                transaction_hash,
                transaction_index,
                logs,
                processed_at,
            ),
            block_number as i64,
        ),
        same_but_time(
            receipt_rows(
                kind,
                block_number,
                transaction_hash,
                transaction_index,
                logs,
                processed_at,
            ),
            receipt_rows(
                kind,
                block_number,
                transaction_hash,
                transaction_index,
                logs,
                another_time,
            ),
        ),
    decreases logs.len(),
{
    if logs.len() > 0 {
        lemma_receipt_rows(
            kind,
            block_number,
            transaction_hash,
            transaction_index,
            logs.drop_last(),
            processed_at,
            another_time,
        );
        lemma_row_shape(
            kind,
            block_number,
            transaction_hash,
            transaction_index,
            (logs.len() - 1) as usize,
            logs.last(),
            processed_at,
            another_time,
        );
    }
}

/// The rows of the first transactions of a block are rows of that block, and
/// another time of processing changes nothing but their last column.
pub proof fn lemma_rows_of_first(
    kind: EventKind,
    block: BlockSpec,
    count: int,
    processed_at: Seq<char>,
    another_time: Seq<char>,
)
    ensures
        rows_of_block(rows_of_first(kind, block, count, processed_at), block.number as i64),
        same_but_time(
            rows_of_first(kind, block, count, processed_at),
            rows_of_first(kind, block, count, another_time),
        ),
    decreases count,
{
    if count > 0 {
        lemma_rows_of_first(kind, block, count - 1, processed_at, another_time);
        lemma_receipt_rows(
            kind,
            block.number,
            block.transactions[count - 1],
            (count - 1) as usize,
            block.receipts[count - 1],
            processed_at,
            another_time,
        );
    }
}

/// Every row of a block starts with the block's number, and the time of
/// processing shows in the last column of a row and nowhere else.
pub proof fn lemma_block_rows(
    kind: EventKind,
    block: BlockSpec,
    processed_at: Seq<char>,
    another_time: Seq<char>,
)
    ensures
        rows_of_block(block_rows(kind, block, processed_at), block.number as i64),
        same_but_time(
            block_rows(kind, block, processed_at),
            block_rows(kind, block, another_time),
        ),
{
    lemma_rows_of_first(kind, block, paired(block), processed_at, another_time);
}

/// Every row of a block has one value for each column that its event family
/// fills: six that say where and when, and one for each field of the event.
/// A row of the pools has as many values as the pools table has columns.
pub proof fn lemma_rows_have_a_value_for_each_column(
    kind: EventKind,
    block: BlockSpec,
    processed_at: Seq<char>,
)
    ensures
        forall|i: int|
            0 <= i < block_rows(kind, block, processed_at).len() ==> (#[trigger] block_rows(
                kind,
                block,
                processed_at,
            )[i]).len() == 6 + kind.indexed().len() + kind.data().len(),
        kind == EventKind::Initialize ==> 6 + kind.indexed().len() + kind.data().len()
            == crate::schema::pools_columns().len(),
{
    lemma_first_rows_have_a_value_for_each_column(kind, block, paired(block), processed_at);
}

/// As `lemma_rows_have_a_value_for_each_column`, for the first transactions
/// of a block.
pub proof fn lemma_first_rows_have_a_value_for_each_column(
    kind: EventKind,
    block: BlockSpec,
    count: int,
    processed_at: Seq<char>,
)
    ensures
        forall|i: int|
            0 <= i < rows_of_first(kind, block, count, processed_at).len() ==> (
            #[trigger] rows_of_first(kind, block, count, processed_at)[i]).len() == 6
                + kind.indexed().len() + kind.data().len(),
    decreases count,
{
    if count > 0 {
        lemma_first_rows_have_a_value_for_each_column(kind, block, count - 1, processed_at);
        lemma_receipt_rows_have_a_value_for_each_column(
            kind,
            block.number,
            block.transactions[count - 1],
            (count - 1) as usize,
            block.receipts[count - 1],
            processed_at,
        );
        let earlier = rows_of_first(kind, block, count - 1, processed_at);
        let here = receipt_rows(
            kind,
            block.number,
            block.transactions[count - 1],
            (count - 1) as usize,
            block.receipts[count - 1],
            processed_at,
        );
        assert forall|i: int| 0 <= i < (earlier + here).len() implies (#[trigger] (earlier
            + here)[i]).len() == 6 + kind.indexed().len() + kind.data().len() by {
            if i < earlier.len() {
                assert((earlier + here)[i] == earlier[i]);
            } else {
                assert((earlier + here)[i] == here[i - earlier.len()]);
            }
        }
    }
}

/// As `lemma_rows_have_a_value_for_each_column`, for one receipt.
pub proof fn lemma_receipt_rows_have_a_value_for_each_column(
    kind: EventKind,
    block_number: u64,
    transaction_hash: Seq<u8>,
    transaction_index: usize,
    logs: Seq<LogSpec>,
    processed_at: Seq<char>,
)
    ensures
        forall|i: int|
            0 <= i < receipt_rows(
                kind,
                block_number,
                transaction_hash,
                transaction_index,
                logs,
                processed_at,
            ).len() ==> (#[trigger] receipt_rows(
                kind,
                block_number,
                transaction_hash,
                transaction_index,
                logs,
                processed_at,
            )[i]).len() == 6 + kind.indexed().len() + kind.data().len(),
    decreases logs.len(),
{
    if logs.len() > 0 {
        lemma_receipt_rows_have_a_value_for_each_column(
            kind,
            block_number,
            transaction_hash,
            transaction_index,
            logs.drop_last(),
            processed_at,
        );
        lemma_row_shape(
            kind,
            block_number,
            transaction_hash,
            transaction_index,
            (logs.len() - 1) as usize,
            logs.last(),
            processed_at,
            processed_at,
        );
        let earlier = receipt_rows(
            kind,
            block_number,
            transaction_hash,
            transaction_index,
            logs.drop_last(),
            processed_at,
        );
        let rows = receipt_rows(
            kind,
            block_number,
            transaction_hash,
            transaction_index,
            logs,
            processed_at,
        );
        assert forall|i: int| 0 <= i < rows.len() implies (#[trigger] rows[i]).len() == 6
            + kind.indexed().len() + kind.data().len() by {
            if i < earlier.len() {
                assert(rows[i] == earlier[i]);
            }
        }
    }
}

/// Logs that do not belong to an event family yield no row: where no log of
/// a receipt belongs to the family, the receipt has no rows.
pub proof fn lemma_receipt_without_matching_logs(
    kind: EventKind,
    block_number: u64,
    transaction_hash: Seq<u8>,
    transaction_index: usize,
    logs: Seq<LogSpec>,
    processed_at: Seq<char>,
)
    requires
        forall|l: int| 0 <= l < logs.len() ==> !log_matches(kind, #[trigger] logs[l]),
    ensures
        receipt_rows(
            kind,
            block_number,
            transaction_hash,
            transaction_index,
            logs,
            processed_at,
        ) == Seq::<Seq<Seq<char>>>::empty(),
    decreases logs.len(),
{
    if logs.len() > 0 {
        lemma_receipt_without_matching_logs(
            kind,
            block_number,
            transaction_hash,
            transaction_index,
            logs.drop_last(),
            processed_at,
        );
    }
}

/// Logs that do not belong to an event family yield no row: where no log of
/// a block belongs to the family, the block has no rows for it.
pub proof fn lemma_block_without_matching_logs(
    kind: EventKind,
    block: BlockSpec,
    processed_at: Seq<char>,
)
    requires
        forall|t: int, l: int|
            0 <= t < block.receipts.len() && 0 <= l < block.receipts[t].len() ==> !log_matches(
                kind,
                #[trigger] block.receipts[t][l],
            ),
    ensures
        block_rows(kind, block, processed_at) == Seq::<Seq<Seq<char>>>::empty(),
{
    lemma_first_without_matching_logs(kind, block, paired(block), processed_at);
}

/// As `lemma_block_without_matching_logs`, for the first transactions of a
/// block.
pub proof fn lemma_first_without_matching_logs(
    kind: EventKind,
    block: BlockSpec,
    count: int,
    processed_at: Seq<char>,
)
    requires
        count <= paired(block),
        forall|t: int, l: int|
            0 <= t < block.receipts.len() && 0 <= l < block.receipts[t].len() ==> !log_matches(
                kind,
                #[trigger] block.receipts[t][l],
            ),
    ensures
        rows_of_first(kind, block, count, processed_at) == Seq::<Seq<Seq<char>>>::empty(),
    decreases count,
{
    if count > 0 {
        lemma_first_without_matching_logs(kind, block, count - 1, processed_at);
        let logs = block.receipts[count - 1];
        lemma_receipt_without_matching_logs(
            kind,
            block.number,
            block.transactions[count - 1],
            (count - 1) as usize,
            logs,
            processed_at,
        );
    }
}

/// A revert works on each part of a table by itself.
pub proof fn lemma_after_revert_of_parts(
    first: Seq<Seq<Seq<char>>>,
    second: Seq<Seq<Seq<char>>>,
    blocks: Seq<i64>,
)
    ensures
        after_revert(first + second, blocks) == after_revert(first, blocks) + after_revert(
            second,
            blocks,
        ),
    decreases second.len(),
{
    if second.len() == 0 {
    } else {
        lemma_after_revert_of_parts(first, second.drop_last(), blocks);
        assert((first + second).drop_last() =~= first + second.drop_last());
    }
}

/// A revert of blocks leaves no row of one of them.
pub proof fn lemma_after_revert_of_block(
    rows: Seq<Seq<Seq<char>>>,
    block_number: i64,
    blocks: Seq<i64>,
)
    requires
        rows_of_block(rows, block_number),
        blocks.contains(block_number),
    ensures
        after_revert(rows, blocks) == Seq::<Seq<Seq<char>>>::empty(),
    decreases rows.len(),
{
    if rows.len() > 0 {
        lemma_after_revert_of_block(rows.drop_last(), block_number, blocks);
    }
}

/// Sameness but for the time of processing holds part by part.
pub proof fn lemma_same_but_time_of_parts(
    a: Seq<Seq<Seq<char>>>,
    b: Seq<Seq<Seq<char>>>,
    c: Seq<Seq<Seq<char>>>,
    d: Seq<Seq<Seq<char>>>,
)
    requires
        same_but_time(a, c),
        same_but_time(b, d),
    ensures
        same_but_time(a + b, c + d),
{
}

/// A revert is a true retraction. Take a table that holds the rows of two
/// blocks beside rows of other blocks. Reverting the two blocks and
/// processing them again gives the table that processing them once gave, row
/// for row, but for the times of processing, whatever time each block had in
/// either run.
pub proof fn lemma_revert_then_reprocess(
    kind: EventKind,
    first: BlockSpec,
    second: BlockSpec,
    others: Seq<Seq<Seq<char>>>,
    first_at: Seq<char>,
    second_at: Seq<char>,
    first_again_at: Seq<char>,
    second_again_at: Seq<char>,
)
    requires
        after_revert(others, seq![first.number as i64, second.number as i64]) == others,
    ensures
        ({
            let blocks = seq![first.number as i64, second.number as i64];
            let once = others + block_rows(kind, first, first_at) + block_rows(
                kind,
                second,
                second_at,
            );
            let again = after_revert(once, blocks) + block_rows(kind, first, first_again_at)
                + block_rows(kind, second, second_again_at);
            same_but_time(again, once)
        }),
{
    let blocks = seq![first.number as i64, second.number as i64];
    let one = block_rows(kind, first, first_at);
    let two = block_rows(kind, second, second_at);
    let one_again = block_rows(kind, first, first_again_at);
    let two_again = block_rows(kind, second, second_again_at);
    lemma_block_rows(kind, first, first_at, first_again_at);
    lemma_block_rows(kind, second, second_at, second_again_at);
    lemma_block_rows(kind, first, first_again_at, first_at);
    lemma_block_rows(kind, second, second_again_at, second_at);
    assert(blocks[0] == first.number as i64);
    assert(blocks[1] == second.number as i64);
    lemma_after_revert_of_block(one, first.number as i64, blocks);
    lemma_after_revert_of_block(two, second.number as i64, blocks);
    lemma_after_revert_of_parts(others, one, blocks);
    lemma_after_revert_of_parts(others + one, two, blocks);
    assert(after_revert(others + one + two, blocks) =~= others);
    assert(same_but_time(others, others));
    lemma_same_but_time_of_parts(others, one_again, others, one);
    lemma_same_but_time_of_parts(others + one_again, two_again, others + one, two);
}

/// The positions in a receipt of the logs that belong to an event family
/// and do not decode as its event, each with the position of the receipt's
/// transaction.
pub open spec fn receipt_failures(
    kind: EventKind,
    transaction_index: usize,
    logs: Seq<LogSpec>,
) -> Seq<(usize, usize)>
    decreases logs.len(),
{
    if logs.len() == 0 {
        Seq::empty()
    } else if log_fails(kind, logs.last()) {
        receipt_failures(kind, transaction_index, logs.drop_last()).push(
            (transaction_index, (logs.len() - 1) as usize),
        )
    } else {
        receipt_failures(kind, transaction_index, logs.drop_last())
    }
}

/// The places of the failing logs of the first `count` transactions of a
/// block.
pub open spec fn failures_of_first(kind: EventKind, block: BlockSpec, count: int) -> Seq<
    (usize, usize),
>
    decreases count,
{
    if count <= 0 {
        Seq::empty()
    } else {
        failures_of_first(kind, block, count - 1) + receipt_failures(
            kind,
            (count - 1) as usize,
            block.receipts[count - 1],
        )
    }
}

/// The places of the logs of a block that belong to an event family and do
/// not decode as its event: the position of the transaction and the position
/// of the log in its receipt, in the order of the scan.
pub open spec fn block_failures(kind: EventKind, block: BlockSpec) -> Seq<(usize, usize)> {
    failures_of_first(kind, block, paired(block))
}

/// The places of the logs of a block that the processor of an event family
/// passes over because they do not decode. The processor writes no row for
/// them; the caller may report them.
pub fn undecoded_logs(kind: EventKind, block_data: &EthereumBlockData) -> (places: Vec<
    (usize, usize),
>)
    ensures
        places@ == block_failures(kind, block_spec(*block_data)),
{
    let layout = EventLayout::of(kind);
    let block = &block_data.0;
    let receipts = &block_data.1;
    let count = if block.transactions.len() <= receipts.len() {
        block.transactions.len()
    } else {
        receipts.len()
    };
    let ghost spec = block_spec(*block_data);
    let mut places: Vec<(usize, usize)> = Vec::new();
    let mut t: usize = 0;
    assert(places@ =~= failures_of_first(kind, spec, 0));
    while t < count
        invariant
            t <= count,
            count == paired(spec),
            spec == block_spec(*block_data),
            receipts == &block_data.1,
            layout.family() == kind,
            places@ == failures_of_first(kind, spec, t as int),
        decreases count - t,
    {
        let receipt = &receipts[t];
        let ghost logs = spec.receipts[t as int];
        let ghost done = places@;
        assert(logs == receipt@);
        assert(places@ =~= done + receipt_failures(kind, t, logs.take(0)));
        let mut l: usize = 0;
        while l < receipt.logs.len()
            invariant
                l <= receipt.logs.len(),
                logs == receipt@,
                layout.family() == kind,
                places@ == done + receipt_failures(kind, t, logs.take(l as int)),
            decreases receipt.logs.len() - l,
        {
            let ghost before = receipt_failures(kind, t, logs.take(l as int));
            proof {
                assert(logs.take(l as int + 1).drop_last() =~= logs.take(l as int));
                assert(logs.take(l as int + 1).last() == receipt.logs@[l as int]@);
            }
            if layout.fails_to_decode(&receipt.logs[l]) {
                places.push((t, l));
                assert(places@ =~= done + before.push((t, l)));
            }
            l += 1;
        }
        proof {
            assert(logs.take(receipt.logs.len() as int) =~= logs);
            assert(places@ =~= failures_of_first(kind, spec, t as int) + receipt_failures(
                kind,
                t,
                logs,
            ));
        }
        t += 1;
    }
    places
}

/// Every log of a receipt that belongs to an event family gives a row or is
/// among the failures, and never both: the rows and the failures together
/// are as many as the logs that belong to the family.
pub proof fn lemma_matching_logs_are_accounted_for(
    kind: EventKind,
    block_number: u64,
    transaction_hash: Seq<u8>,
    transaction_index: usize,
    logs: Seq<LogSpec>,
    processed_at: Seq<char>,
)
    ensures
        receipt_rows(
            kind,
            block_number,
            transaction_hash,
            transaction_index,
            logs,
            processed_at,
        ).len() + receipt_failures(kind, transaction_index, logs).len() == logs.filter(
            |log: LogSpec| log_matches(kind, log),
        ).len(),
    decreases logs.len(),
{
    let matching = |log: LogSpec| log_matches(kind, log);
    if logs.len() == 0 {
        assert(logs.filter(matching) =~= Seq::<LogSpec>::empty()) by {
            reveal(Seq::filter);
        }
    } else {
        lemma_matching_logs_are_accounted_for(
            kind,
            block_number,
            transaction_hash,
            transaction_index,
            logs.drop_last(),
            processed_at,
        );
        assert(logs.filter(matching) == if matching(logs.last()) {
            logs.drop_last().filter(matching).push(logs.last())
        } else {
            logs.drop_last().filter(matching)
        }) by {
            reveal(Seq::filter);
        }
    }
}

/// Writes the rows of a block for an event family, in order, at the end of
/// the writer's batch.
pub fn process_event_logs(
    kind: EventKind,
    block_data: &EthereumBlockData,
    processed_at: &DateTime,
    writer: &mut ClickhouseWriter,
)
    ensures
        final(writer).table() == old(writer).table(),
        final(writer).rows() == old(writer).rows() + block_rows(
            kind,
            block_spec(*block_data),
            processed_at.text(),
        ),
{
    let layout = EventLayout::of(kind);
    let stamp = processed_at.format();
    let block = &block_data.0;
    let receipts = &block_data.1;
    let count = if block.transactions.len() <= receipts.len() {
        block.transactions.len()
    } else {
        receipts.len()
    };
    let ghost spec = block_spec(*block_data);
    let ghost initial = writer.rows();
    let ghost table = writer.table();
    let mut t: usize = 0;
    while t < count
        invariant
            t <= count,
            count == paired(spec),
            spec == block_spec(*block_data),
            block == &block_data.0,
            receipts == &block_data.1,
            layout.family() == kind,
            writer.table() == table,
            writer.rows() == initial + rows_of_first(kind, spec, t as int, stamp@),
        decreases count - t,
    {
        let transaction = &block.transactions[t];
        let receipt = &receipts[t];
        let ghost logs = spec.receipts[t as int];
        let ghost done = writer.rows();
        let mut l: usize = 0;
        while l < receipt.logs.len()
            invariant
                l <= receipt.logs.len(),
                logs == receipt@,
                layout.family() == kind,
                spec.number == block.number,
                writer.table() == table,
                writer.rows() == done + receipt_rows(
                    kind,
                    spec.number,
                    transaction.hash.bytes@,
                    t,
                    logs.take(l as int),
                    stamp@,
                ),
            decreases receipt.logs.len() - l,
        {
            let place = LogPlace {
                block_number: block.number,
                transaction_hash: transaction.hash,
                transaction_index: t,
                log_index: l,
            };
            proof {
                assert(logs.take(l as int + 1).drop_last() =~= logs.take(l as int));
            }
            match layout.row_of(&place, &receipt.logs[l], stamp.as_str()) {
                Some(row) => {
                    writer.write_record(row);
                },
                None => {},
            }
            l += 1;
        }
        proof {
            assert(logs.take(receipt.logs.len() as int) =~= logs);
        }
        t += 1;
    }
}

} // verus!
