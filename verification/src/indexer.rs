//! The indexer: the registered processors, what they do with a block, and
//! how the outcome of a block is summed up.
use crate::block::{block_spec, BlockSpec, EthereumBlockData};
use crate::events::EventKind;
use crate::primitives::{timestamp_format, utc_text, DateTime};
use crate::processors::{
    block_failures, block_rows, lemma_rows_have_a_value_for_each_column, process_event_logs,
    undecoded_logs,
};
use crate::schema::{definitions, find, find_table, table_specs, Table};
use crate::sql::{revert_text, TableSpec};
use crate::storage::writer::ClickhouseWriter;
use crate::report::{records_of, total_records, OutcomeSpec, ResultSpec, TaskOutcome, TaskResult};
use crate::storage::{commit_result, rows_of, BulkInsert};
use crate::text::{row_texts, str_eq};
use vstd::pervasive::unreached;
use vstd::prelude::*;

verus! {

/// What the processors of one block share: the time of processing.
#[derive(Debug, Clone, Copy)]
pub struct ProcessingComponents {
    pub processed_at: DateTime,
}

/// A registered processor as plain values: the table it writes to, its name
/// in reports, and the event family it looks for.
pub struct ProcessorSpec {
    pub table_name: Seq<char>,
    pub processor_name: Seq<char>,
    pub kind: EventKind,
}

struct ProcessorInfo {
    table_name: &'static str,
    processor_name: &'static str,
    kind: EventKind,
}

impl View for ProcessorInfo {
    type V = ProcessorSpec;

    closed spec fn view(&self) -> ProcessorSpec {
        ProcessorSpec {
            table_name: self.table_name@,
            processor_name: self.processor_name@,
            kind: self.kind,
        }
    }
}

impl ProcessorInfo {
    fn new(table_name: &'static str, processor_name: &'static str, kind: EventKind) -> (info:
        Self)
        ensures
            info@ == (ProcessorSpec {
                table_name: table_name@,
                processor_name: processor_name@,
                kind,
            }),
    {
        ProcessorInfo { table_name, processor_name, kind }
    }
}

/// The registered processors, in the order of their registration, and the
/// tables that they may write to.
pub struct Indexer {
    processors: Vec<ProcessorInfo>,
    tables: Vec<Table>,
}

/// What one processor asks to be sent for one block.
#[derive(Debug)]
pub struct ProcessorTask {
    pub processor_name: &'static str,
    pub insert: Option<BulkInsert>,
}

/// The statement that retracts given blocks from one table.
#[derive(Debug)]
pub struct RevertStatement {
    pub table: &'static str,
    pub sql: String,
}

/// The event family that is written to the table named `table_name`, if
/// there is a processor for that table.
pub open spec fn kind_of_table(table_name: Seq<char>) -> Option<EventKind> {
    if table_name == "uni_v4_pools"@ {
        Some(EventKind::Initialize)
    } else if table_name == "uni_v4_swaps"@ {
        Some(EventKind::Swap)
    } else if table_name == "uni_v4_modify_liquidity"@ {
        Some(EventKind::ModifyLiquidity)
    } else if table_name == "uni_v4_donations"@ {
        Some(EventKind::Donate)
    } else {
        None
    }
}

/// The processors after one more registration: with a processor for the
/// table at the end, or unchanged where there is no processor for it.
pub open spec fn with_processor(
    processors: Seq<ProcessorSpec>,
    table_name: Seq<char>,
    processor_name: Seq<char>,
) -> Seq<ProcessorSpec> {
    match kind_of_table(table_name) {
        Some(kind) => processors.push(ProcessorSpec { table_name, processor_name, kind }),
        None => processors,
    }
}

/// The processors that a new indexer starts with: Pools, Swaps,
/// ModifyLiquidity and Donations, in that order, each for its table.
pub open spec fn standard_processors() -> Seq<ProcessorSpec> {
    seq![
        ProcessorSpec {
            table_name: "uni_v4_pools"@,
            processor_name: "Pools"@,
            kind: EventKind::Initialize,
        },
        ProcessorSpec {
            table_name: "uni_v4_swaps"@,
            processor_name: "Swaps"@,
            kind: EventKind::Swap,
        },
        ProcessorSpec {
            table_name: "uni_v4_modify_liquidity"@,
            processor_name: "ModifyLiquidity"@,
            kind: EventKind::ModifyLiquidity,
        },
        ProcessorSpec {
            table_name: "uni_v4_donations"@,
            processor_name: "Donations"@,
            kind: EventKind::Donate,
        },
    ]
}

/// The names of the processors.
pub open spec fn processor_names(processors: Seq<ProcessorSpec>) -> Seq<Seq<char>> {
    Seq::new(processors.len(), |i: int| processors[i].processor_name)
}

/// The names of the processors' tables.
pub open spec fn table_names(processors: Seq<ProcessorSpec>) -> Seq<Seq<char>> {
    Seq::new(processors.len(), |i: int| processors[i].table_name)
}

/// The views of a sequence of string slices.
pub open spec fn name_texts(names: Seq<&'static str>) -> Seq<Seq<char>> {
    Seq::new(names.len(), |i: int| names[i]@)
}

/// The names without repetition, each at the place where it comes first.
pub open spec fn distinct(names: Seq<Seq<char>>) -> Seq<Seq<char>>
    decreases names.len(),
{
    if names.len() == 0 {
        Seq::empty()
    } else {
        let earlier = distinct(names.drop_last());
        if earlier.contains(names.last()) {
            earlier
        } else {
            earlier.push(names.last())
        }
    }
}

/// Whether `tables` serves the processor: it holds a table of the
/// processor's table name, and that table has as many columns as a row of
/// the processor's event has values.
pub open spec fn serves(tables: Seq<TableSpec>, processor: ProcessorSpec) -> bool {
    find_table(tables, processor.table_name) matches Some(table) && table.columns.len()
        == processor.kind.width()
}

/// The table names of the processors that `tables` does not serve, in the
/// order of the processors.
pub open spec fn unserved(processors: Seq<ProcessorSpec>, tables: Seq<TableSpec>) -> Seq<
    Seq<char>,
>
    decreases processors.len(),
{
    if processors.len() == 0 {
        Seq::empty()
    } else if serves(tables, processors.last()) {
        unserved(processors.drop_last(), tables)
    } else {
        unserved(processors.drop_last(), tables).push(processors.last().table_name)
    }
}

/// Whether `tables` serves every processor.
pub open spec fn all_served(processors: Seq<ProcessorSpec>, tables: Seq<TableSpec>) -> bool {
    forall|i: int| 0 <= i < processors.len() ==> serves(tables, #[trigger] processors[i])
}

/// The rows that a task asks to be sent.
pub open spec fn task_rows(task: ProcessorTask) -> Seq<Seq<Seq<char>>> {
    match task.insert {
        Some(batch) => row_texts(batch.rows@),
        None => Seq::empty(),
    }
}

/// Whether every row has `columns` values.
pub open spec fn rows_fit(rows: Seq<Seq<Seq<char>>>, columns: nat) -> bool {
    forall|r: int| 0 <= r < rows.len() ==> (#[trigger] rows[r]).len() == columns
}

/// Whether `task` is what `processor` asks to be sent for `block`: under the
/// processor's name, the rows of the block for its event family, as one
/// insert into its table, or no insert where there is no row. Each row has
/// one value for each column of the processor's table among `tables`.
pub open spec fn task_of(
    task: ProcessorTask,
    processor: ProcessorSpec,
    tables: Seq<TableSpec>,
    block: BlockSpec,
    processed_at: Seq<char>,
) -> bool {
    &&& task.processor_name@ == processor.processor_name
    &&& task_rows(task) == block_rows(processor.kind, block, processed_at)
    &&& (task.insert is None <==> block_rows(processor.kind, block, processed_at).len() == 0)
    &&& (task.insert matches Some(batch) ==> batch.table@ == processor.table_name)
    &&& find_table(tables, processor.table_name) matches Some(table) && rows_fit(
        task_rows(task),
        table.columns.len(),
    )
}

/// Whether `tasks` holds, for each processor in order, what it asks to be
/// sent for `block`.
pub open spec fn tasks_of(
    tasks: Seq<ProcessorTask>,
    processors: Seq<ProcessorSpec>,
    tables: Seq<TableSpec>,
    block: BlockSpec,
    processed_at: Seq<char>,
) -> bool {
    &&& tasks.len() == processors.len()
    &&& forall|i: int|
        0 <= i < tasks.len() ==> task_of(
            #[trigger] tasks[i],
            processors[i],
            tables,
            block,
            processed_at,
        )
}

/// What a task comes to once its commit has ended: a failure where its
/// insert was sent and failed, and otherwise its rows as written, none
/// without an insert.
pub open spec fn finished_outcome(
    task: ProcessorTask,
    failure: Option<String>,
    seconds: Seq<char>,
) -> OutcomeSpec {
    if task.insert is Some && failure is Some {
        OutcomeSpec::Failed { error: failure->0@ }
    } else {
        OutcomeSpec::Written { records: rows_of(task.insert), seconds }
    }
}

/// The statements as plain values: the table and the text of each.
pub open spec fn statement_specs(statements: Seq<RevertStatement>) -> Seq<(Seq<char>, Seq<char>)> {
    Seq::new(statements.len(), |i: int| (statements[i].table@, statements[i].sql@))
}

/// For each table, the statement that deletes the rows of `blocks` from it.
/// Without a block there is nothing to delete and no statement.
pub open spec fn revert_plan(tables: Seq<Seq<char>>, blocks: Seq<i64>) -> Seq<(
    Seq<char>,
    Seq<char>,
)> {
    if blocks.len() == 0 {
        Seq::empty()
    } else {
        Seq::new(tables.len(), |i: int| (tables[i], revert_text(tables[i], blocks)))
    }
}

/// Whether `tasks` holds what the processors ask to be sent for `block` at
/// some time of processing that the calendar reaches.
pub open spec fn block_processed(
    tasks: Seq<ProcessorTask>,
    processors: Seq<ProcessorSpec>,
    tables: Seq<TableSpec>,
    block: BlockSpec,
) -> bool {
    exists|seconds: i64|
        (#[trigger] utc_text(seconds, timestamp_format())) is Some && tasks_of(
            tasks,
            processors,
            tables,
            block,
            utc_text(seconds, timestamp_format())->0,
        )
}

/// The rows that tasks ask to be sent, in all.
pub open spec fn rows_asked(tasks: Seq<ProcessorTask>) -> nat
    decreases tasks.len(),
{
    if tasks.len() == 0 {
        0
    } else {
        rows_asked(tasks.drop_last()) + task_rows(tasks.last()).len()
    }
}

/// The count of a block is the sum of what its processors committed. Where
/// the commit of every task succeeds, the rows written in all are the rows
/// that the tasks asked to be sent.
pub proof fn lemma_total_of_committed_tasks(
    tasks: Seq<ProcessorTask>,
    results: Seq<ResultSpec>,
    seconds: Seq<Seq<char>>,
)
    requires
        results.len() == tasks.len(),
        seconds.len() == tasks.len(),
        forall|i: int|
            0 <= i < tasks.len() ==> (#[trigger] results[i]).outcome == finished_outcome(
                tasks[i],
                None,
                seconds[i],
            ),
    ensures
        total_records(results) == rows_asked(tasks),
    decreases tasks.len(),
{
    if tasks.len() > 0 {
        let last = tasks.len() - 1;
        assert forall|i: int| 0 <= i < tasks.drop_last().len() implies (
        #[trigger] results.drop_last()[i]).outcome == finished_outcome(
            tasks.drop_last()[i],
            None,
            seconds.drop_last()[i],
        ) by {
            assert(results.drop_last()[i] == results[i]);
        }
        lemma_total_of_committed_tasks(
            tasks.drop_last(),
            results.drop_last(),
            seconds.drop_last(),
        );
        assert(results[last].outcome == finished_outcome(tasks[last], None, seconds[last]));
        assert(records_of(results.last()) == task_rows(tasks.last()).len());
    }
}

/// Each of the four table names has its own event family.
pub proof fn lemma_kinds_of_tables()
    ensures
        kind_of_table("uni_v4_pools"@) == Some(EventKind::Initialize),
        kind_of_table("uni_v4_swaps"@) == Some(EventKind::Swap),
        kind_of_table("uni_v4_modify_liquidity"@) == Some(EventKind::ModifyLiquidity),
        kind_of_table("uni_v4_donations"@) == Some(EventKind::Donate),
{
    reveal_strlit("uni_v4_pools");
    reveal_strlit("uni_v4_swaps");
    reveal_strlit("uni_v4_modify_liquidity");
    reveal_strlit("uni_v4_donations");
    assert("uni_v4_swaps"@[7] != "uni_v4_pools"@[7]);
    assert("uni_v4_modify_liquidity"@.len() != "uni_v4_pools"@.len());
}

/// A table that is found under a name has that name.
pub proof fn lemma_found_table_has_name(tables: Seq<TableSpec>, name: Seq<char>)
    ensures
        find_table(tables, name) matches Some(table) ==> table.name == name,
    decreases tables.len(),
{
    if tables.len() > 0 && tables[0].name != name {
        lemma_found_table_has_name(tables.drop_first(), name);
    }
}

/// No processor is unserved exactly when every processor is served.
pub proof fn lemma_unserved_empty(processors: Seq<ProcessorSpec>, tables: Seq<TableSpec>)
    ensures
        unserved(processors, tables).len() == 0 <==> all_served(processors, tables),
    decreases processors.len(),
{
    if processors.len() > 0 {
        lemma_unserved_empty(processors.drop_last(), tables);
        if all_served(processors, tables) {
            assert(serves(tables, processors[processors.len() - 1]));
            assert forall|i: int| 0 <= i < processors.drop_last().len() implies serves(
                tables,
                #[trigger] processors.drop_last()[i],
            ) by {
                assert(processors.drop_last()[i] == processors[i]);
            }
        }
        if unserved(processors, tables).len() == 0 {
            assert forall|i: int| 0 <= i < processors.len() implies serves(
                tables,
                #[trigger] processors[i],
            ) by {
                if i < processors.len() - 1 {
                    assert(processors.drop_last()[i] == processors[i]);
                }
            }
        }
    }
}

/// The event family that is written to the table named `table_name`, if
/// there is a processor for that table.
pub fn kind_for_table(table_name: &str) -> (kind: Option<EventKind>)
    ensures
        kind == kind_of_table(table_name@),
{
    if str_eq(table_name, "uni_v4_pools") {
        Some(EventKind::Initialize)
    } else if str_eq(table_name, "uni_v4_swaps") {
        Some(EventKind::Swap)
    } else if str_eq(table_name, "uni_v4_modify_liquidity") {
        Some(EventKind::ModifyLiquidity)
    } else if str_eq(table_name, "uni_v4_donations") {
        Some(EventKind::Donate)
    } else {
        None
    }
}

impl ProcessorTask {
    /// What the task came to once its commit has ended: with `failure`
    /// where the insert failed, after `seconds` seconds.
    pub fn finished(&self, failure: Option<String>, seconds: String) -> (result: TaskResult)
        ensures
            result.processor_name == self.processor_name,
            result.outcome@ == finished_outcome(*self, failure, seconds@),
    {
        let outcome = match commit_result(&self.insert, failure) {
            Ok(records) => TaskOutcome::Written { records, seconds },
            Err(error) => TaskOutcome::Failed { error },
        };
        TaskResult { processor_name: self.processor_name, outcome }
    }
}

impl Indexer {
    /// The registered processors, in the order of their registration.
    pub closed spec fn processors(&self) -> Seq<ProcessorSpec> {
        Seq::new(self.processors@.len(), |i: int| self.processors@[i]@)
    }

    /// The tables that the processors may write to.
    pub closed spec fn tables(&self) -> Seq<TableSpec> {
        table_specs(self.tables@)
    }

    /// Whether every processor's table is among the indexer's tables.
    pub open spec fn tables_found(&self) -> bool {
        forall|i: int|
            0 <= i < self.processors().len() ==> find_table(
                self.tables(),
                #[trigger] table_names(self.processors())[i],
            ) is Some
    }

    /// Whether every processor's table is among the indexer's tables, with
    /// as many columns as the processor's rows have values.
    pub open spec fn resolved(&self) -> bool {
        all_served(self.processors(), self.tables())
    }

    /// A resolved indexer has every processor's table among its tables.
    pub proof fn lemma_resolved_tables_found(&self)
        requires
            self.resolved(),
        ensures
            self.tables_found(),
    {
        assert forall|i: int| 0 <= i < self.processors().len() implies find_table(
            self.tables(),
            #[trigger] table_names(self.processors())[i],
        ) is Some by {
            assert(serves(self.tables(), self.processors()[i]));
        }
    }

    /// An indexer with the standard processors over the catalogue's tables.
    pub fn new() -> (indexer: Self)
        ensures
            indexer.processors() == standard_processors(),
            indexer.tables() == crate::schema::catalogue(),
    {
        Indexer::with_tables(definitions())
    }

    /// An indexer with the standard processors over the given tables.
    pub fn with_tables(tables: Vec<Table>) -> (indexer: Self)
        ensures
            indexer.processors() == standard_processors(),
            indexer.tables() == table_specs(tables@),
    {
        let mut indexer = Indexer { processors: Vec::new(), tables };
        indexer.add_processor("uni_v4_pools", "Pools");
        indexer.add_processor("uni_v4_swaps", "Swaps");
        indexer.add_processor("uni_v4_modify_liquidity", "ModifyLiquidity");
        indexer.add_processor("uni_v4_donations", "Donations");
        proof {
            lemma_kinds_of_tables();
        }
        indexer
    }

    /// Registers the processor for the table named `table_name` under the
    /// name `processor_name`. Nothing is registered where there is no
    /// processor for that table.
    pub fn add_processor(&mut self, table_name: &'static str, processor_name: &'static str)
        ensures
            final(self).processors() == with_processor(
                old(self).processors(),
                table_name@,
                processor_name@,
            ),
            final(self).tables() == old(self).tables(),
    {
        match kind_for_table(table_name) {
            Some(kind) => {
                self.processors.push(ProcessorInfo::new(table_name, processor_name, kind));
            },
            None => {},
        }
    }

    /// The names of the registered processors, in order.
    pub fn list_processors(&self) -> (names: Vec<&'static str>)
        ensures
            names@.len() == self.processors().len(),
            name_texts(names@) == processor_names(self.processors()),
    {
        let mut names: Vec<&'static str> = Vec::new();
        let mut i: usize = 0;
        while i < self.processors.len()
            invariant
                i <= self.processors.len(),
                names@.len() == i,
                forall|k: int| 0 <= k < i ==> names@[k]@ == self.processors@[k]@.processor_name,
            decreases self.processors.len() - i,
        {
            names.push(self.processors[i].processor_name);
            i += 1;
        }
        names
    }

    /// The table names of the processors that the indexer's tables do not
    /// serve, in the order of the processors: the table is not among them,
    /// or has another number of columns than the processor's rows have
    /// values. The indexer is resolved exactly when there is none.
    pub fn unresolved_tables(&self) -> (names: Vec<&'static str>)
        ensures
            name_texts(names@) == unserved(self.processors(), self.tables()),
            names@.len() == 0 <==> self.resolved(),
    {
        let ghost all = self.processors();
        let mut names: Vec<&'static str> = Vec::new();
        let mut i: usize = 0;
        assert(name_texts(names@) =~= unserved(all.take(0), self.tables()));
        while i < self.processors.len()
            invariant
                i <= self.processors.len(),
                all == self.processors(),
                name_texts(names@) == unserved(all.take(i as int), self.tables()),
            decreases self.processors.len() - i,
        {
            let processor = &self.processors[i];
            let ghost before = names@;
            proof {
                assert(all.take(i as int + 1).drop_last() =~= all.take(i as int));
                assert(all.take(i as int + 1).last() == processor@);
            }
            let served = match find(&self.tables, processor.table_name) {
                Some(table) => table.columns.len() == processor.kind.row_width(),
                None => false,
            };
            if !served {
                names.push(processor.table_name);
                assert(name_texts(names@) =~= name_texts(before).push(processor@.table_name));
            }
            i += 1;
        }
        proof {
            assert(all.take(self.processors.len() as int) =~= all);
            lemma_unserved_empty(all, self.tables());
        }
        names
    }

    /// The number of registered processors.
    pub fn processor_count(&self) -> (count: usize)
        ensures
            count == self.processors().len(),
    {
        self.processors.len()
    }

    /// What the processor at `index` asks to be sent for one block. The
    /// processor works on a batch of its own, bound to its table, which the
    /// indexer's tables have to hold with the columns of the processor's
    /// rows; what it asks for depends on no other processor.
    pub fn run_processor(
        &self,
        index: usize,
        block_data: &EthereumBlockData,
        components: ProcessingComponents,
    ) -> (task: ProcessorTask)
        requires
            index < self.processors().len(),
            serves(self.tables(), self.processors()[index as int]),
        ensures
            task_of(
                task,
                self.processors()[index as int],
                self.tables(),
                block_spec(*block_data),
                components.processed_at.text(),
            ),
    {
        let processor = &self.processors[index];
        proof {
            lemma_found_table_has_name(self.tables(), processor@.table_name);
            lemma_rows_have_a_value_for_each_column(
                processor@.kind,
                block_spec(*block_data),
                components.processed_at.text(),
            );
        }
        let table = match find(&self.tables, processor.table_name) {
            Some(table) => table,
            None => unreached(),
        };
        let mut writer = ClickhouseWriter::new(table);
        process_event_logs(processor.kind, block_data, &components.processed_at, &mut writer);
        let insert = writer.finish();
        ProcessorTask { processor_name: processor.processor_name, insert }
    }

    /// The places of the logs of one block that the processor at `index`
    /// passes over because they carry its event's signature and do not
    /// decode: the position of the transaction and the position of the log
    /// in its receipt.
    pub fn undecoded_logs(&self, index: usize, block_data: &EthereumBlockData) -> (places: Vec<
        (usize, usize),
    >)
        requires
            index < self.processors().len(),
        ensures
            places@ == block_failures(
                self.processors()[index as int].kind,
                block_spec(*block_data),
            ),
    {
        undecoded_logs(self.processors[index].kind, block_data)
    }

    /// What each processor asks to be sent for one block: the tasks of the
    /// processors, in the order of their registration.
    pub fn process_block_data(
        &self,
        block_data: &EthereumBlockData,
        components: ProcessingComponents,
    ) -> (tasks: Vec<ProcessorTask>)
        requires
            self.resolved(),
        ensures
            tasks_of(
                tasks@,
                self.processors(),
                self.tables(),
                block_spec(*block_data),
                components.processed_at.text(),
            ),
    {
        let ghost block = block_spec(*block_data);
        let ghost stamp = components.processed_at.text();
        let mut tasks: Vec<ProcessorTask> = Vec::new();
        let mut i: usize = 0;
        while i < self.processors.len()
            invariant
                i <= self.processors.len(),
                self.resolved(),
                self.processors@.len() == self.processors().len(),
                block == block_spec(*block_data),
                stamp == components.processed_at.text(),
                tasks@.len() == i,
                forall|k: int|
                    0 <= k < i ==> task_of(
                        #[trigger] tasks@[k],
                        self.processors()[k],
                        self.tables(),
                        block,
                        stamp,
                    ),
            decreases self.processors.len() - i,
        {
            assert(serves(self.tables(), self.processors()[i as int]));
            let task = self.run_processor(i, block_data, components);
            tasks.push(task);
            i += 1;
        }
        tasks
    }

    /// What each processor asks to be sent for each block: one list of tasks
    /// for every block, in the order of the blocks. The time of processing is
    /// read once for every block.
    pub fn process_blocks(&self, blocks_and_receipts: &Vec<EthereumBlockData>) -> (plans: Vec<
        Vec<ProcessorTask>,
    >)
        requires
            self.resolved(),
        ensures
            plans@.len() == blocks_and_receipts@.len(),
            forall|b: int|
                0 <= b < plans@.len() ==> block_processed(
                    (#[trigger] plans@[b])@,
                    self.processors(),
                    self.tables(),
                    block_spec(blocks_and_receipts@[b]),
                ),
    {
        let mut plans: Vec<Vec<ProcessorTask>> = Vec::new();
        let mut b: usize = 0;
        while b < blocks_and_receipts.len()
            invariant
                b <= blocks_and_receipts.len(),
                self.resolved(),
                plans@.len() == b,
                forall|k: int|
                    0 <= k < b ==> block_processed(
                        (#[trigger] plans@[k])@,
                        self.processors(),
                        self.tables(),
                        block_spec(blocks_and_receipts@[k]),
                    ),
            decreases blocks_and_receipts.len() - b,
        {
            let components = ProcessingComponents { processed_at: DateTime::now() };
            let tasks = self.process_block_data(&blocks_and_receipts[b], components);
            plans.push(tasks);
            b += 1;
        }
        plans
    }

    /// The statements that retract the given blocks: one for every table
    /// that a processor is registered for, in the order in which the tables
    /// are first registered, and none at all where no block is given. Every
    /// processor's table has to be among the indexer's tables.
    pub fn revert_blocks(&self, block_numbers: &[i64]) -> (statements: Vec<RevertStatement>)
        requires
            self.tables_found(),
        ensures
            statement_specs(statements@) == revert_plan(
                distinct(table_names(self.processors())),
                block_numbers@,
            ),
    {
        let ghost all = table_names(self.processors());
        let mut statements: Vec<RevertStatement> = Vec::new();
        if block_numbers.len() == 0 {
            assert(statement_specs(statements@) =~= Seq::<(Seq<char>, Seq<char>)>::empty());
            return statements;
        }
        let mut i: usize = 0;
        assert(statement_specs(statements@) =~= revert_plan(
            distinct(all.take(0)),
            block_numbers@,
        ));
        while i < self.processors.len()
            invariant
                i <= self.processors.len(),
                self.tables_found(),
                block_numbers@.len() > 0,
                all == table_names(self.processors()),
                statement_specs(statements@) == revert_plan(
                    distinct(all.take(i as int)),
                    block_numbers@,
                ),
            decreases self.processors.len() - i,
        {
            let name = self.processors[i].table_name;
            let ghost earlier = distinct(all.take(i as int));
            let ghost before = statements@;
            proof {
                assert(all.take(i as int + 1).drop_last() =~= all.take(i as int));
                assert(all.take(i as int + 1).last() == name@);
                assert(statement_specs(before).len() == earlier.len());
            }
            let mut seen = false;
            let mut k: usize = 0;
            while k < statements.len()
                invariant
                    k <= statements.len(),
                    statements@ == before,
                    before.len() == earlier.len(),
                    block_numbers@.len() > 0,
                    statement_specs(before) == revert_plan(earlier, block_numbers@),
                    seen <==> exists|j: int| 0 <= j < k && earlier[j] == name@,
                decreases statements.len() - k,
            {
                proof {
                    assert(statement_specs(before)[k as int].0 == earlier[k as int]);
                }
                if str_eq(statements[k].table, name) {
                    seen = true;
                }
                k += 1;
            }
            if !seen {
                proof {
                    assert(all[i as int] == name@);
                    lemma_found_table_has_name(self.tables(), name@);
                }
                let table = match find(&self.tables, name) {
                    Some(table) => table,
                    None => unreached(),
                };
                let writer = ClickhouseWriter::new(table);
                let sql = match writer.revert(block_numbers) {
                    Some(sql) => sql,
                    None => unreached(),
                };
                statements.push(RevertStatement { table: name, sql });
                proof {
                    assert(statement_specs(statements@) =~= revert_plan(
                        earlier.push(name@),
                        block_numbers@,
                    )) by {
                        assert forall|j: int| 0 <= j < statements@.len() implies statement_specs(
                            statements@,
                        )[j] == revert_plan(earlier.push(name@), block_numbers@)[j] by {
                            if j < before.len() {
                                assert(statement_specs(before)[j] == revert_plan(
                                    earlier,
                                    block_numbers@,
                                )[j]);
                            }
                        }
                    }
                }
            }
            i += 1;
        }
        assert(all.take(self.processors.len() as int) =~= all);
        statements
    }
}

} // verus!
