//! The outcome of a block: what each processor's task came to, and the two
//! lines that sum a block up, one for what was written and one for what
//! failed.
use crate::primitives::optional_text;
use crate::text::{decimal_digits, join, join_strings, push_decimal, texts};
use vstd::prelude::*;
use vstd::utf8::encode_utf8;

verus! {

/// What a processor's task came to.
#[derive(Debug)]
pub enum TaskOutcome {
    /// The batch was committed: the rows written, and the seconds it took,
    /// as text.
    Written { records: usize, seconds: String },
    /// The processor or its commit failed, with the error's text.
    Failed { error: String },
    /// The task ended without an outcome.
    Lost,
}

/// What the task of the processor named `processor_name` came to.
#[derive(Debug)]
pub struct TaskResult {
    pub processor_name: &'static str,
    pub outcome: TaskOutcome,
}

/// The sum of a block: the line on what was written, which every block
/// has; the line on what failed, if anything did; and the number of rows
/// written.
#[derive(Debug)]
pub struct BlockSummary {
    pub processed: String,
    pub failures: Option<String>,
    pub total_records: u128,
}

/// An outcome as plain values.
pub enum OutcomeSpec {
    Written { records: nat, seconds: Seq<char> },
    Failed { error: Seq<char> },
    Lost,
}

/// A result as plain values.
pub struct ResultSpec {
    pub name: Seq<char>,
    pub outcome: OutcomeSpec,
}

/// One event of the line on what was written: the processor's name and the
/// event's text.
pub struct EntrySpec {
    pub name: Seq<char>,
    pub text: Seq<char>,
}

impl View for TaskOutcome {
    type V = OutcomeSpec;

    open spec fn view(&self) -> OutcomeSpec {
        match *self {
            TaskOutcome::Written { records, seconds } => OutcomeSpec::Written {
                records: records as nat,
                seconds: seconds@,
            },
            TaskOutcome::Failed { error } => OutcomeSpec::Failed { error: error@ },
            TaskOutcome::Lost => OutcomeSpec::Lost,
        }
    }
}

impl View for TaskResult {
    type V = ResultSpec;

    open spec fn view(&self) -> ResultSpec {
        ResultSpec { name: self.processor_name@, outcome: self.outcome@ }
    }
}

/// The plain values of a sequence of results.
pub open spec fn result_specs(results: Seq<TaskResult>) -> Seq<ResultSpec> {
    Seq::new(results.len(), |i: int| results[i]@)
}

/// The text of a written batch: `name(records, seconds s)`.
pub open spec fn event_text(name: Seq<char>, records: nat, seconds: Seq<char>) -> Seq<char> {
    name + "("@ + decimal_digits(records) + ", "@ + seconds + "s)"@
}

/// The text of a failure: `name: error`.
pub open spec fn failure_text(name: Seq<char>, error: Seq<char>) -> Seq<char> {
    name + ": "@ + error
}

/// The events of the written batches, in the order of the results.
pub open spec fn written_entries(results: Seq<ResultSpec>) -> Seq<EntrySpec>
    decreases results.len(),
{
    if results.len() == 0 {
        Seq::empty()
    } else {
        let earlier = written_entries(results.drop_last());
        match results.last().outcome {
            OutcomeSpec::Written { records, seconds } => earlier.push(
                EntrySpec {
                    name: results.last().name,
                    text: event_text(results.last().name, records, seconds),
                },
            ),
            _ => earlier,
        }
    }
}

/// The texts of the failures, in the order of the results.
pub open spec fn failure_texts(results: Seq<ResultSpec>) -> Seq<Seq<char>>
    decreases results.len(),
{
    if results.len() == 0 {
        Seq::empty()
    } else {
        let earlier = failure_texts(results.drop_last());
        match results.last().outcome {
            OutcomeSpec::Failed { error } => earlier.push(
                failure_text(results.last().name, error),
            ),
            _ => earlier,
        }
    }
}

/// The rows that a result counts as written: those of a written batch, none
/// of a failure or a lost task.
pub open spec fn records_of(result: ResultSpec) -> nat {
    match result.outcome {
        OutcomeSpec::Written { records, .. } => records,
        _ => 0,
    }
}

/// The rows written in all: the sum over the results.
pub open spec fn total_records(results: Seq<ResultSpec>) -> nat
    decreases results.len(),
{
    if results.len() == 0 {
        0
    } else {
        total_records(results.drop_last()) + records_of(results.last())
    }
}

/// Whether `a` comes before `b` or equals it, byte by byte.
pub open spec fn lex_le(a: Seq<u8>, b: Seq<u8>) -> bool
    decreases a.len(),
{
    if a.len() == 0 {
        true
    } else if b.len() == 0 {
        false
    } else if a[0] != b[0] {
        a[0] < b[0]
    } else {
        lex_le(a.skip(1), b.skip(1))
    }
}

/// The order of names: that of their UTF-8 bytes.
pub open spec fn name_le(a: Seq<char>, b: Seq<char>) -> bool {
    lex_le(encode_utf8(a), encode_utf8(b))
}

/// `sorted` with `entry` put after the last entry whose name is not greater.
pub open spec fn insert_by_name(sorted: Seq<EntrySpec>, entry: EntrySpec) -> Seq<EntrySpec>
    decreases sorted.len(),
{
    if sorted.len() == 0 {
        seq![entry]
    } else if name_le(sorted.last().name, entry.name) {
        sorted.push(entry)
    } else {
        insert_by_name(sorted.drop_last(), entry).push(sorted.last())
    }
}

/// The entries in the order of their names; entries of one name keep their
/// order.
pub open spec fn sort_by_name(entries: Seq<EntrySpec>) -> Seq<EntrySpec>
    decreases entries.len(),
{
    if entries.len() == 0 {
        Seq::empty()
    } else {
        insert_by_name(sort_by_name(entries.drop_last()), entries.last())
    }
}

/// The texts of the entries.
pub open spec fn entry_texts(entries: Seq<EntrySpec>) -> Seq<Seq<char>> {
    Seq::new(entries.len(), |i: int| entries[i].text)
}

/// What every line of the indexer starts with.
pub open spec fn line_prefix() -> Seq<char> {
    "exex{id=\"univ4-exex-indexer\"}: "@
}

/// The line on what was written for a block: the events in the order of
/// the processors' names, and the number of rows in all. Every block has
/// the line; where nothing was written it lists no event and counts no row.
pub open spec fn processed_line(block_number: u64, results: Seq<ResultSpec>) -> Seq<char> {
    line_prefix() + "Block "@ + decimal_digits(block_number as nat) + " processed - Events: ["@
        + join(entry_texts(sort_by_name(written_entries(results))), ", "@)
        + "], Total records: "@ + decimal_digits(total_records(results))
}

/// The line on what was written for a block on which nothing was written.
pub open spec fn idle_line(block_number: u64) -> Seq<char> {
    line_prefix() + "Block "@ + decimal_digits(block_number as nat)
        + " processed - Events: [], Total records: 0"@
}

/// Where no task of a block wrote, the block's line lists no event and
/// counts no row, whatever failed.
pub proof fn lemma_line_of_nothing_written(block_number: u64, results: Seq<ResultSpec>)
    requires
        forall|i: int|
            0 <= i < results.len() ==> !((#[trigger] results[i]).outcome is Written),
    ensures
        written_entries(results).len() == 0,
        total_records(results) == 0,
        processed_line(block_number, results) == idle_line(block_number),
    decreases results.len(),
{
    if results.len() > 0 {
        assert forall|i: int| 0 <= i < results.drop_last().len() implies !((
        #[trigger] results.drop_last()[i]).outcome is Written) by {
            assert(results.drop_last()[i] == results[i]);
        }
        lemma_line_of_nothing_written(block_number, results.drop_last());
        assert(!(results[results.len() - 1].outcome is Written));
    }
    let none = Seq::<EntrySpec>::empty();
    assert(written_entries(results) =~= none);
    assert(entry_texts(sort_by_name(none)) =~= Seq::<Seq<char>>::empty());
    reveal_strlit(" processed - Events: [");
    reveal_strlit("], Total records: ");
    reveal_strlit(" processed - Events: [], Total records: 0");
    assert(decimal_digits(0) =~= seq!['0']);
    assert(" processed - Events: ["@ + Seq::<char>::empty() + "], Total records: "@ + seq!['0']
        =~= " processed - Events: [], Total records: 0"@);
    assert(processed_line(block_number, results) =~= idle_line(block_number));
}

/// The line on what failed for a block, if anything did: the failures in
/// the order of the results.
pub open spec fn failures_line(block_number: u64, results: Seq<ResultSpec>) -> Option<
    Seq<char>,
> {
    let failures = failure_texts(results);
    if failures.len() == 0 {
        None
    } else {
        Some(
            line_prefix() + "Block "@ + decimal_digits(block_number as nat) + " failures - "@
                + join(failures, ", "@),
        )
    }
}

/// The entry that goes to position `at` is the one that `insert_by_name`
/// puts there: every entry before it has a name that is not greater than the
/// one just before it, and every entry from `at` on has a greater name.
pub proof fn lemma_insert_position(sorted: Seq<EntrySpec>, entry: EntrySpec, at: int)
    requires
        0 <= at <= sorted.len(),
        at > 0 ==> name_le(sorted[at - 1].name, entry.name),
        forall|k: int| at <= k < sorted.len() ==> !name_le(#[trigger] sorted[k].name, entry.name),
    ensures
        insert_by_name(sorted, entry) == sorted.insert(at, entry),
    decreases sorted.len(),
{
    if sorted.len() == 0 {
    } else if at == sorted.len() {
    } else {
        let shorter = sorted.drop_last();
        lemma_insert_position(shorter, entry, at);
    }
}

/// Whether every entry's name is not greater than that of any later entry.
pub open spec fn ordered_by_name(entries: Seq<EntrySpec>) -> bool {
    forall|i: int, j: int|
        0 <= i < j < entries.len() ==> name_le(
            (#[trigger] entries[i]).name,
            (#[trigger] entries[j]).name,
        )
}

/// Whether every entry's name is not greater than `name`.
pub open spec fn bounded_by_name(entries: Seq<EntrySpec>, name: Seq<char>) -> bool {
    forall|i: int| 0 <= i < entries.len() ==> name_le((#[trigger] entries[i]).name, name)
}

/// Of two byte strings one is not greater than the other.
pub proof fn lemma_lex_le_total(a: Seq<u8>, b: Seq<u8>)
    ensures
        lex_le(a, b) || lex_le(b, a),
    decreases a.len(),
{
    if a.len() > 0 && b.len() > 0 && a[0] == b[0] {
        lemma_lex_le_total(a.skip(1), b.skip(1));
    }
}

/// The order of byte strings is transitive.
pub proof fn lemma_lex_le_transitive(a: Seq<u8>, b: Seq<u8>, c: Seq<u8>)
    requires
        lex_le(a, b),
        lex_le(b, c),
    ensures
        lex_le(a, c),
    decreases a.len(),
{
    if a.len() > 0 && b.len() > 0 && c.len() > 0 && a[0] == b[0] && b[0] == c[0] {
        lemma_lex_le_transitive(a.skip(1), b.skip(1), c.skip(1));
    }
}

/// What bounds the entries and the new entry bounds the entries after the
/// new one is put in.
pub proof fn lemma_insert_bounded(sorted: Seq<EntrySpec>, entry: EntrySpec, name: Seq<char>)
    requires
        bounded_by_name(sorted, name),
        name_le(entry.name, name),
    ensures
        bounded_by_name(insert_by_name(sorted, entry), name),
        insert_by_name(sorted, entry).len() == sorted.len() + 1,
    decreases sorted.len(),
{
    if sorted.len() > 0 && !name_le(sorted.last().name, entry.name) {
        let shorter = sorted.drop_last();
        lemma_insert_bounded(shorter, entry, name);
    }
}

/// Putting an entry into ordered entries keeps them ordered.
pub proof fn lemma_insert_keeps_order(sorted: Seq<EntrySpec>, entry: EntrySpec)
    requires
        ordered_by_name(sorted),
    ensures
        ordered_by_name(insert_by_name(sorted, entry)),
    decreases sorted.len(),
{
    if sorted.len() == 0 {
    } else if name_le(sorted.last().name, entry.name) {
        let last = sorted.last();
        assert forall|i: int, j: int| 0 <= i < j < sorted.push(entry).len() implies name_le(
            (#[trigger] sorted.push(entry)[i]).name,
            (#[trigger] sorted.push(entry)[j]).name,
        ) by {
            if j == sorted.len() && i < sorted.len() - 1 {
                lemma_lex_le_transitive(
                    encode_utf8(sorted[i].name),
                    encode_utf8(last.name),
                    encode_utf8(entry.name),
                );
            } else if j < sorted.len() {
            }
        }
    } else {
        let shorter = sorted.drop_last();
        let last = sorted.last();
        lemma_insert_keeps_order(shorter, entry);
        lemma_lex_le_total(encode_utf8(last.name), encode_utf8(entry.name));
        lemma_insert_bounded(shorter, entry, last.name);
    }
}

/// Putting an entry in adds that entry and nothing else.
pub proof fn lemma_insert_keeps_entries(sorted: Seq<EntrySpec>, entry: EntrySpec)
    ensures
        insert_by_name(sorted, entry).to_multiset() == sorted.to_multiset().insert(entry),
    decreases sorted.len(),
{
    broadcast use vstd::seq_lib::to_multiset_build;

    if sorted.len() == 0 {
        assert(sorted.push(entry) =~= seq![entry]);
    } else if name_le(sorted.last().name, entry.name) {
    } else {
        let shorter = sorted.drop_last();
        lemma_insert_keeps_entries(shorter, entry);
        assert(shorter.push(sorted.last()) =~= sorted);
    }
}

/// The events of a block's line are in the order of the processors' names:
/// sorting puts every entry before every entry of a greater name, and it
/// neither drops nor adds nor repeats an entry.
pub proof fn lemma_sort_by_name(entries: Seq<EntrySpec>)
    ensures
        ordered_by_name(sort_by_name(entries)),
        sort_by_name(entries).to_multiset() == entries.to_multiset(),
        sort_by_name(entries).len() == entries.len(),
    decreases entries.len(),
{
    broadcast use vstd::seq_lib::to_multiset_build;

    if entries.len() > 0 {
        let shorter = entries.drop_last();
        lemma_sort_by_name(shorter);
        lemma_insert_keeps_order(sort_by_name(shorter), entries.last());
        lemma_insert_keeps_entries(sort_by_name(shorter), entries.last());
        assert(shorter.push(entries.last()) =~= entries);
        sort_by_name(entries).to_multiset_ensures();
        entries.to_multiset_ensures();
    } else {
        assert(sort_by_name(entries) =~= entries);
    }
}

/// The result at `at` with a failure in place of its outcome.
pub open spec fn with_failure(results: Seq<ResultSpec>, at: int, error: Seq<char>) -> Seq<
    ResultSpec,
> {
    results.update(at, ResultSpec { name: results[at].name, outcome: OutcomeSpec::Failed { error } })
}

/// The rows written in all are those of the earlier results and those of
/// the later ones.
pub proof fn lemma_total_of_parts(first: Seq<ResultSpec>, second: Seq<ResultSpec>)
    ensures
        total_records(first + second) == total_records(first) + total_records(second),
    decreases second.len(),
{
    if second.len() == 0 {
    } else {
        lemma_total_of_parts(first, second.drop_last());
        assert((first + second).drop_last() =~= first + second.drop_last());
    }
}

/// A failure is isolated. Where the task of one processor fails, the rows
/// that every other processor's task wrote count as before, and the rows
/// written in all fall by those of the failed task and by no more.
pub proof fn lemma_failure_is_isolated(results: Seq<ResultSpec>, at: int, error: Seq<char>)
    requires
        0 <= at < results.len(),
    ensures
        forall|i: int|
            0 <= i < results.len() && i != at ==> records_of(
                #[trigger] with_failure(results, at, error)[i],
            ) == records_of(results[i]),
        total_records(with_failure(results, at, error)) + records_of(results[at])
            == total_records(results),
{
    let failed = with_failure(results, at, error);
    let before = results.take(at);
    let after = results.skip(at + 1);
    assert(results =~= before + seq![results[at]] + after);
    assert(failed =~= before + seq![failed[at]] + after);
    lemma_total_of_parts(before + seq![results[at]], after);
    lemma_total_of_parts(before, seq![results[at]]);
    lemma_total_of_parts(before + seq![failed[at]], after);
    lemma_total_of_parts(before, seq![failed[at]]);
    assert(seq![results[at]].drop_last() =~= Seq::<ResultSpec>::empty());
    assert(seq![failed[at]].drop_last() =~= Seq::<ResultSpec>::empty());
}

/// Whether `a` comes before `b` or equals it in the order of names.
pub fn name_not_greater(a: &str, b: &str) -> (le: bool)
    ensures
        le == name_le(a@, b@),
{
    let x = a.as_bytes();
    let y = b.as_bytes();
    let mut i: usize = 0;
    assert(x@.skip(0) =~= x@);
    assert(y@.skip(0) =~= y@);
    while i < x.len() && i < y.len()
        invariant
            i <= x.len(),
            i <= y.len(),
            x@ == encode_utf8(a@),
            y@ == encode_utf8(b@),
            name_le(a@, b@) == lex_le(x@.skip(i as int), y@.skip(i as int)),
        decreases x.len() - i,
    {
        proof {
            assert(x@.skip(i as int).skip(1) =~= x@.skip(i as int + 1));
            assert(y@.skip(i as int).skip(1) =~= y@.skip(i as int + 1));
        }
        if x[i] != y[i] {
            return x[i] < y[i];
        }
        i += 1;
    }
    i == x.len()
}

/// The text of a written batch: `name(records, seconds s)`.
pub fn event_string(name: &str, records: usize, seconds: &str) -> (text: String)
    ensures
        text@ == event_text(name@, records as nat, seconds@),
{
    let mut text = String::from_str(name);
    text.append("(");
    push_decimal(&mut text, records as u128);
    text.append(", ");
    text.append(seconds);
    text.append("s)");
    text
}

/// The text of a failure: `name: error`.
pub fn failure_string(name: &str, error: &str) -> (text: String)
    ensures
        text@ == failure_text(name@, error@),
{
    let mut text = String::from_str(name);
    text.append(": ");
    text.append(error);
    text
}

/// The entries that two lists of equal length hold: a name and a text at
/// each position.
pub open spec fn entries_of(names: Seq<&'static str>, rendered: Seq<String>) -> Seq<EntrySpec> {
    Seq::new(names.len(), |i: int| EntrySpec { name: names[i]@, text: rendered[i]@ })
}

/// Puts an entry into lists that are kept in the order of the names.
fn insert_entry(
    names: &mut Vec<&'static str>,
    rendered: &mut Vec<String>,
    name: &'static str,
    text: String,
)
    requires
        old(names)@.len() == old(rendered)@.len(),
    ensures
        final(names)@.len() == final(rendered)@.len(),
        final(names)@.len() == old(names)@.len() + 1,
        entries_of(final(names)@, final(rendered)@) == insert_by_name(
            entries_of(old(names)@, old(rendered)@),
            EntrySpec { name: name@, text: text@ },
        ),
{
    let ghost sorted = entries_of(names@, rendered@);
    let ghost entry = EntrySpec { name: name@, text: text@ };
    let mut at: usize = names.len();
    while at > 0 && !name_not_greater(names[at - 1], name)
        invariant
            at <= names@.len(),
            names@.len() == rendered@.len(),
            sorted == entries_of(names@, rendered@),
            forall|k: int| at <= k < sorted.len() ==> !name_le(#[trigger] sorted[k].name, name@),
        decreases at,
    {
        at -= 1;
    }
    proof {
        lemma_insert_position(sorted, entry, at as int);
    }
    names.insert(at, name);
    rendered.insert(at, text);
}

/// Sums a block up from the results of its tasks. Every block has a line on
/// what was written, whatever its tasks came to.
pub fn summarize_block(block_number: u64, results: &Vec<TaskResult>) -> (summary: BlockSummary)
    ensures
        summary.processed@ == processed_line(block_number, result_specs(results@)),
        optional_text(summary.failures) == failures_line(block_number, result_specs(results@)),
        summary.total_records == total_records(result_specs(results@)),
{
    let ghost specs = result_specs(results@);
    let mut names: Vec<&'static str> = Vec::new();
    let mut rendered: Vec<String> = Vec::new();
    let mut failed: Vec<String> = Vec::new();
    let mut total: u128 = 0;
    let mut i: usize = 0;
    while i < results.len()
        invariant
            i <= results.len(),
            specs == result_specs(results@),
            names@.len() == rendered@.len(),
            names@.len() == written_entries(specs.take(i as int)).len(),
            entries_of(names@, rendered@) == sort_by_name(written_entries(specs.take(i as int))),
            texts(failed@) == failure_texts(specs.take(i as int)),
            total == total_records(specs.take(i as int)),
            total <= i * 0x1_0000_0000_0000_0000,
        decreases results.len() - i,
    {
        let result = &results[i];
        proof {
            assert(specs.take(i as int + 1).drop_last() =~= specs.take(i as int));
        }
        match &result.outcome {
            TaskOutcome::Written { records, seconds } => {
                let text = event_string(result.processor_name, *records, seconds.as_str());
                proof {
                    let earlier = written_entries(specs.take(i as int));
                    let entry = EntrySpec { name: result@.name, text: text@ };
                    assert(earlier.push(entry).drop_last() =~= earlier);
                }
                insert_entry(&mut names, &mut rendered, result.processor_name, text);
                total = total + *records as u128;
            },
            TaskOutcome::Failed { error } => {
                failed.push(failure_string(result.processor_name, error.as_str()));
            },
            TaskOutcome::Lost => {},
        }
        i += 1;
    }
    assert(specs.take(results.len() as int) =~= specs);
    let ghost sorted = sort_by_name(written_entries(specs));
    let mut processed = String::from_str("exex{id=\"univ4-exex-indexer\"}: ");
    processed.append("Block ");
    push_decimal(&mut processed, block_number as u128);
    processed.append(" processed - Events: [");
    let events = join_strings(&rendered, ", ");
    assert(texts(rendered@) =~= entry_texts(sorted));
    processed.append(events.as_str());
    processed.append("], Total records: ");
    push_decimal(&mut processed, total);
    let failures = if failed.len() == 0 {
        None
    } else {
        let mut line = String::from_str("exex{id=\"univ4-exex-indexer\"}: ");
        line.append("Block ");
        push_decimal(&mut line, block_number as u128);
        line.append(" failures - ");
        let listed = join_strings(&failed, ", ");
        line.append(listed.as_str());
        Some(line)
    };
    BlockSummary { processed, failures, total_records: total }
}

} // verus!
