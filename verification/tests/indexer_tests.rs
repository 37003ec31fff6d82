use alloy::primitives::Address as AlloyAddress;
use alloy::sol_types::SolValue;
use univ4_indexer::block::{EthereumBlock, EthereumBlockData, Log, Receipt, Transaction};
use univ4_indexer::db_writer::DbWriter;
use univ4_indexer::events::{pool_manager_address, EventKind};
use univ4_indexer::indexer::{kind_for_table, Indexer, ProcessingComponents};
use univ4_indexer::primitives::{Address, DateTime, FixedBytes};
use univ4_indexer::processors::{process_event_logs, undecoded_logs};
use univ4_indexer::processors::uni_v4_donations::process_uni_v4_donations;
use univ4_indexer::processors::uni_v4_modify_liquidity::process_uni_v4_modify_liquidity;
use univ4_indexer::processors::uni_v4_pools::process_uni_v4_pools;
use univ4_indexer::processors::uni_v4_swaps::process_uni_v4_swaps;
use univ4_indexer::report::{name_not_greater, summarize_block, TaskOutcome, TaskResult};
use univ4_indexer::schema::{definitions, get, Column, Table};
use univ4_indexer::storage::writer::ClickhouseWriter;
use univ4_indexer::storage::{commit_result, is_reverted, rows_after_revert, BulkInsert};
use univ4_indexer::table_definitions::get_table_definition;

fn components() -> ProcessingComponents {
    ProcessingComponents { processed_at: DateTime::from_timestamp(1_700_000_000).unwrap() }
}

fn table_of(name: &'static str, columns: usize) -> Table {
    let mut list = vec![Column {
        name: "block_number",
        sql_type: "BIGINT",
        nullable: false,
        primary_key: false,
    }];
    while list.len() < columns {
        list.push(Column { name: "value", sql_type: "VARCHAR", nullable: false, primary_key: false });
    }
    Table { name, columns: list, indexes: vec![] }
}

fn all_tables() -> Vec<Table> {
    let mut tables = definitions();
    tables.push(table_of("uni_v4_swaps", 14));
    tables.push(table_of("uni_v4_modify_liquidity", 12));
    tables.push(table_of("uni_v4_donations", 10));
    tables
}

fn word_of_address(fill: u8) -> FixedBytes {
    let mut word = [0u8; 32];
    word[12..].fill(fill);
    FixedBytes::new(word)
}

fn initialize_log(id: u8, fee: u32) -> Log {
    let data = (
        alloy::primitives::aliases::U24::from(fee),
        alloy::primitives::aliases::I24::try_from(60i32).unwrap(),
        AlloyAddress::ZERO,
        alloy::primitives::aliases::U160::from(1u128 << 96),
        alloy::primitives::aliases::I24::try_from(0i32).unwrap(),
    )
        .abi_encode_sequence();
    Log {
        address: pool_manager_address(),
        topics: vec![
            EventKind::Initialize.signature_hash(),
            FixedBytes::new([id; 32]),
            word_of_address(0x11),
            word_of_address(0x22),
        ],
        data,
    }
}

fn donate_log(amount: u64) -> Log {
    let data = (
        alloy::primitives::U256::from(amount),
        alloy::primitives::U256::from(amount + 1),
    )
        .abi_encode_sequence();
    Log {
        address: pool_manager_address(),
        topics: vec![
            EventKind::Donate.signature_hash(),
            FixedBytes::new([0xcc; 32]),
            word_of_address(0x33),
        ],
        data,
    }
}

fn stray_log() -> Log {
    Log {
        address: Address::new([0x99; 20]),
        topics: vec![EventKind::Initialize.signature_hash()],
        data: vec![0u8; 160],
    }
}

fn block(number: u64, receipts: Vec<Vec<Log>>) -> EthereumBlockData {
    let transactions = (0..receipts.len())
        .map(|i| Transaction { hash: FixedBytes::new([i as u8 + 1; 32]) })
        .collect();
    (
        EthereumBlock { number, transactions },
        receipts.into_iter().map(|logs| Receipt { logs }).collect(),
    )
}

fn rows_of(insert: Option<BulkInsert>) -> Vec<Vec<String>> {
    match insert {
        Some(batch) => batch.rows,
        None => Vec::new(),
    }
}

#[test]
fn block_with_one_initialize_log_gives_one_pools_row() {
    let data = block(100, vec![vec![initialize_log(0xaa, 3000)]]);
    let mut writer = ClickhouseWriter::new(get("uni_v4_pools").unwrap());
    process_uni_v4_pools(&data, components(), &mut writer);
    assert_eq!(writer.len(), 1);
    let insert = writer.finish().unwrap();
    assert_eq!(insert.table, "uni_v4_pools");
    assert_eq!(insert.rows.len(), 1);
    let row = &insert.rows[0];
    assert_eq!(row.len(), 14);
    assert_eq!(row[0], "100");
    assert_eq!(row[1], format!("0x{}", "01".repeat(32)));
    assert_eq!(row[2], "0");
    assert_eq!(row[3], "0");
    assert_eq!(row[4], pool_manager_address().to_checksum());
    assert_eq!(row[5], format!("0x{}", "aa".repeat(32)));
    assert_eq!(row[6], AlloyAddress::repeat_byte(0x11).to_checksum(Some(1)));
    assert_eq!(row[7], AlloyAddress::repeat_byte(0x22).to_checksum(Some(1)));
    assert_eq!(row[8], "3000");
    assert_eq!(row[9], "60");
    assert_eq!(row[10], "0x0000000000000000000000000000000000000000");
    assert_eq!(row[11], "79228162514264337593543950336");
    assert_eq!(row[12], "0");
    assert_eq!(row[13], "2023-11-14 22:13:20");
}

#[test]
fn rows_come_in_the_order_of_transactions_and_logs() {
    let data = block(
        7,
        vec![
            vec![stray_log(), initialize_log(1, 100)],
            vec![],
            vec![initialize_log(2, 200), donate_log(5), initialize_log(3, 300)],
        ],
    );
    let mut writer = ClickhouseWriter::new(get("uni_v4_pools").unwrap());
    process_uni_v4_pools(&data, components(), &mut writer);
    let rows = rows_of(writer.finish());
    let places: Vec<(&str, &str, &str)> =
        rows.iter().map(|r| (r[2].as_str(), r[3].as_str(), r[8].as_str())).collect();
    assert_eq!(places, vec![("0", "1", "100"), ("2", "0", "200"), ("2", "2", "300")]);
    assert!(rows.iter().all(|r| r[0] == "7"));
    assert_eq!(rows[1][1], format!("0x{}", "03".repeat(32)));
}

#[test]
fn receipts_without_a_transaction_are_not_read() {
    let mut data = block(7, vec![vec![initialize_log(1, 100)], vec![initialize_log(2, 200)]]);
    data.0.transactions.truncate(1);
    let mut writer = ClickhouseWriter::new(get("uni_v4_pools").unwrap());
    process_uni_v4_pools(&data, components(), &mut writer);
    assert_eq!(writer.len(), 1);
    let mut data = block(7, vec![vec![initialize_log(1, 100)], vec![initialize_log(2, 200)]]);
    data.1.truncate(1);
    let mut writer = ClickhouseWriter::new(get("uni_v4_pools").unwrap());
    process_uni_v4_pools(&data, components(), &mut writer);
    assert_eq!(writer.len(), 1);
}

#[test]
fn logs_that_match_no_processor_give_no_row_anywhere() {
    let mut unknown_event = initialize_log(1, 100);
    unknown_event.topics[0] = FixedBytes::new([0x5a; 32]);
    let mut no_topics = initialize_log(1, 100);
    no_topics.topics.clear();
    let data = block(9, vec![vec![stray_log(), unknown_event, no_topics]]);
    for kind in [
        EventKind::Initialize,
        EventKind::ModifyLiquidity,
        EventKind::Swap,
        EventKind::Donate,
    ] {
        let mut writer = ClickhouseWriter::new(get("uni_v4_pools").unwrap());
        process_event_logs(kind, &data, &components().processed_at, &mut writer);
        assert_eq!(writer.len(), 0);
        assert!(writer.finish().is_none());
    }
}

#[test]
fn each_processor_reads_its_own_events() {
    let data = block(9, vec![vec![initialize_log(1, 100), donate_log(5), donate_log(6)]]);
    let table = || get("uni_v4_pools").unwrap();
    let mut pools = ClickhouseWriter::new(table());
    process_uni_v4_pools(&data, components(), &mut pools);
    assert_eq!(pools.len(), 1);
    let mut donations = ClickhouseWriter::new(table());
    process_uni_v4_donations(&data, components(), &mut donations);
    assert_eq!(donations.len(), 2);
    let rows = rows_of(donations.finish());
    assert_eq!(rows[0][7], "5");
    assert_eq!(rows[0][8], "6");
    assert_eq!(rows[1][3], "2");
    let mut swaps = ClickhouseWriter::new(table());
    process_uni_v4_swaps(&data, components(), &mut swaps);
    assert_eq!(swaps.len(), 0);
    let mut changes = ClickhouseWriter::new(table());
    process_uni_v4_modify_liquidity(&data, components(), &mut changes);
    assert_eq!(changes.len(), 0);
}

#[test]
fn processors_add_to_what_a_writer_holds() {
    let data = block(9, vec![vec![initialize_log(1, 100)]]);
    let mut writer = ClickhouseWriter::new(get("uni_v4_pools").unwrap());
    writer.write_record(vec!["kept".to_string()]);
    process_uni_v4_pools(&data, components(), &mut writer);
    let rows = rows_of(writer.finish());
    assert_eq!(rows.len(), 2);
    assert_eq!(rows[0], vec!["kept".to_string()]);
    assert_eq!(rows[1][8], "100");
}

#[test]
fn writer_collects_rows_and_commits_once() {
    let mut writer = ClickhouseWriter::new(get("uni_v4_pools").unwrap());
    assert_eq!(writer.len(), 0);
    writer.write_record(vec!["a".to_string(), "b".to_string()]);
    writer.write_record(vec![]);
    writer.write_record(vec!["c".to_string()]);
    assert_eq!(writer.len(), 3);
    let insert = writer.finish().unwrap();
    assert_eq!(insert.table, "uni_v4_pools");
    assert_eq!(
        insert.rows,
        vec![vec!["a".to_string(), "b".to_string()], vec![], vec!["c".to_string()]]
    );
    assert_eq!(commit_result(&Some(insert), None), Ok(3));
}

#[test]
fn empty_batch_sends_nothing_and_reports_no_row() {
    let writer = ClickhouseWriter::new(get("uni_v4_pools").unwrap());
    let insert = writer.finish();
    assert!(insert.is_none());
    assert_eq!(commit_result(&insert, None), Ok(0));
    assert_eq!(commit_result(&insert, Some("unused".to_string())), Ok(0));
    let writer = DbWriter::new(get_table_definition("uni_v4_pools").unwrap());
    assert!(writer.finish().is_none());
}

#[test]
fn failed_insert_reports_the_error_and_no_row() {
    let insert = Some(BulkInsert { table: "t", rows: vec![vec!["1".to_string()]] });
    assert_eq!(commit_result(&insert, Some("broken pipe".to_string())), Err("broken pipe".to_string()));
}

#[test]
fn revert_statement_lists_the_blocks() {
    let writer = ClickhouseWriter::new(get("uni_v4_pools").unwrap());
    assert_eq!(
        writer.revert(&[100]).unwrap(),
        "ALTER TABLE uni_v4_pools DELETE WHERE block_number IN (100)"
    );
    assert_eq!(
        writer.revert(&[99, 100, -3]).unwrap(),
        "ALTER TABLE uni_v4_pools DELETE WHERE block_number IN (99, 100, -3)"
    );
    assert_eq!(
        writer.revert(&[i64::MAX, i64::MIN]).unwrap(),
        "ALTER TABLE uni_v4_pools DELETE WHERE block_number IN (9223372036854775807, -9223372036854775808)"
    );
    let odd = ClickhouseWriter::new(Table { name: "a{}b", columns: vec![], indexes: vec![] });
    assert_eq!(
        odd.revert(&[1, 2]).unwrap(),
        "ALTER TABLE a1, 2b DELETE WHERE block_number IN (1, 2)"
    );
}

#[test]
fn revert_of_no_block_sends_nothing() {
    let writer = ClickhouseWriter::new(get("uni_v4_pools").unwrap());
    assert!(writer.revert(&[]).is_none());
    let writer = DbWriter::new(get_table_definition("uni_v4_pools").unwrap());
    assert!(writer.revert(&[]).is_none());
    let indexer = Indexer::with_tables(all_tables());
    assert!(indexer.revert_blocks(&[]).is_empty());
}

#[test]
fn db_writer_does_what_the_table_writer_does() {
    let mut writer = DbWriter::new(get_table_definition("uni_v4_pools").unwrap());
    writer.write_record(vec!["x".to_string()]);
    assert_eq!(
        writer.revert(&[5, 6]).unwrap(),
        "ALTER TABLE uni_v4_pools DELETE WHERE block_number IN (5, 6)"
    );
    let insert = writer.finish().unwrap();
    assert_eq!(insert.table, "uni_v4_pools");
    assert_eq!(insert.rows, vec![vec!["x".to_string()]]);
}

#[test]
fn revert_leaves_the_rows_of_other_blocks() {
    let row = |block: &str, id: &str| vec![block.to_string(), id.to_string()];
    let rows = vec![row("99", "a"), row("100", "b"), row("101", "c"), row("100", "d")];
    assert_eq!(rows_after_revert(rows.clone(), &[100]), vec![row("99", "a"), row("101", "c")]);
    assert_eq!(rows_after_revert(rows.clone(), &[]), rows);
    assert_eq!(rows_after_revert(rows.clone(), &[7, 8]), rows);
    assert_eq!(rows_after_revert(rows.clone(), &[101, 99, 100]), Vec::<Vec<String>>::new());
    assert_eq!(
        rows_after_revert(vec![vec![], row("-5", "e"), row("5", "f")], &[-5]),
        vec![vec![], row("5", "f")]
    );
}

#[test]
fn a_row_is_reverted_by_its_block_number() {
    let row = vec!["100".to_string(), "x".to_string()];
    assert!(is_reverted(&row, &[100]));
    assert!(is_reverted(&row, &[1, 100, 2]));
    assert!(!is_reverted(&row, &[]));
    assert!(!is_reverted(&row, &[10, 1000, -100]));
    assert!(!is_reverted(&Vec::new(), &[100]));
    assert!(!is_reverted(&vec!["0100".to_string()], &[100]));
    assert!(is_reverted(&vec!["-7".to_string()], &[-7]));
}

#[test]
fn revert_then_reprocess_gives_the_rows_of_processing_once() {
    let first = block(100, vec![vec![initialize_log(1, 100), initialize_log(2, 200)]]);
    let second = block(101, vec![vec![initialize_log(3, 300)]]);
    let earlier = block(99, vec![vec![initialize_log(9, 900)]]);
    let run = |blocks: &[&EthereumBlockData], at: i64, table: &mut Vec<Vec<String>>| {
        for data in blocks {
            let mut writer = ClickhouseWriter::new(get("uni_v4_pools").unwrap());
            let components =
                ProcessingComponents { processed_at: DateTime::from_timestamp(at).unwrap() };
            process_uni_v4_pools(data, components, &mut writer);
            table.extend(rows_of(writer.finish()));
        }
    };
    let mut once = Vec::new();
    run(&[&earlier, &first, &second], 1_700_000_000, &mut once);
    let mut again = rows_after_revert(once.clone(), &[100, 101]);
    assert_eq!(again.len(), 1);
    run(&[&first, &second], 1_800_000_000, &mut again);
    assert_eq!(again.len(), once.len());
    for (new, old) in again.iter().zip(once.iter()) {
        assert_eq!(new[..13], old[..13]);
    }
    assert_ne!(again[1][13], once[1][13]);
    assert_eq!(again[0], once[0]);
}

#[test]
fn new_indexer_has_the_four_processors() {
    let indexer = Indexer::new();
    assert_eq!(indexer.list_processors(), vec!["Pools", "Swaps", "ModifyLiquidity", "Donations"]);
    assert_eq!(
        indexer.unresolved_tables(),
        vec!["uni_v4_swaps", "uni_v4_modify_liquidity", "uni_v4_donations"]
    );
    let indexer = Indexer::with_tables(all_tables());
    assert_eq!(indexer.list_processors(), vec!["Pools", "Swaps", "ModifyLiquidity", "Donations"]);
    assert!(indexer.unresolved_tables().is_empty());
    assert!(Indexer::with_tables(Vec::new()).unresolved_tables().len() == 4);
}

#[test]
fn a_table_of_another_width_does_not_serve_its_processor() {
    let mut tables = definitions();
    tables.push(table_of("uni_v4_swaps", 14));
    tables.push(table_of("uni_v4_modify_liquidity", 11));
    tables.push(table_of("uni_v4_donations", 1));
    let indexer = Indexer::with_tables(tables);
    assert_eq!(indexer.unresolved_tables(), vec!["uni_v4_modify_liquidity", "uni_v4_donations"]);
    let narrow = vec![table_of("uni_v4_pools", 13)];
    assert_eq!(Indexer::with_tables(narrow).unresolved_tables().len(), 4);
    assert_eq!(EventKind::Initialize.row_width(), 14);
    assert_eq!(EventKind::ModifyLiquidity.row_width(), 12);
    assert_eq!(EventKind::Swap.row_width(), 14);
    assert_eq!(EventKind::Donate.row_width(), 10);
}

#[test]
fn every_row_of_a_task_has_a_value_for_each_column_of_its_table() {
    let tables = all_tables();
    let indexer = Indexer::with_tables(all_tables());
    let mut liquidity = initialize_log(1, 100);
    liquidity.topics = vec![
        EventKind::ModifyLiquidity.signature_hash(),
        FixedBytes::new([0xdd; 32]),
        word_of_address(0x44),
    ];
    liquidity.data = vec![0u8; 128];
    let mut swap = donate_log(1);
    swap.topics[0] = EventKind::Swap.signature_hash();
    swap.data = vec![0u8; 192];
    let data = block(42, vec![vec![initialize_log(1, 100), donate_log(5), liquidity, swap]]);
    let tasks = indexer.process_block_data(&data, components());
    for task in tasks {
        let batch = task.insert.unwrap();
        let table = tables.iter().find(|table| table.name == batch.table).unwrap();
        assert_eq!(batch.rows.len(), 1);
        assert!(batch.rows.iter().all(|row| row.len() == table.columns.len()));
    }
}

#[test]
fn logs_that_do_not_decode_are_told_apart_from_logs_of_others() {
    let mut short = initialize_log(1, 100);
    short.data.truncate(100);
    let mut few_topics = initialize_log(2, 100);
    few_topics.topics.pop();
    let mut short_donation = donate_log(5);
    short_donation.data.clear();
    let data = block(
        9,
        vec![
            vec![stray_log(), short, initialize_log(3, 300)],
            vec![],
            vec![donate_log(6), few_topics, short_donation],
        ],
    );
    assert_eq!(undecoded_logs(EventKind::Initialize, &data), vec![(0, 1), (2, 1)]);
    assert_eq!(undecoded_logs(EventKind::Donate, &data), vec![(2, 2)]);
    assert!(undecoded_logs(EventKind::Swap, &data).is_empty());
    let indexer = Indexer::with_tables(all_tables());
    assert_eq!(indexer.undecoded_logs(0, &data), vec![(0, 1), (2, 1)]);
    assert!(indexer.undecoded_logs(1, &data).is_empty());
    assert!(indexer.undecoded_logs(2, &data).is_empty());
    assert_eq!(indexer.undecoded_logs(3, &data), vec![(2, 2)]);
    let tasks = indexer.process_block_data(&data, components());
    assert_eq!(tasks[0].insert.as_ref().unwrap().rows.len(), 1);
    assert_eq!(tasks[3].insert.as_ref().unwrap().rows.len(), 1);
    let mut unpaired = block(9, vec![vec![initialize_log(1, 1)], vec![initialize_log(2, 2)]]);
    unpaired.1[1].logs[0].data.clear();
    assert_eq!(undecoded_logs(EventKind::Initialize, &unpaired), vec![(1, 0)]);
    unpaired.0.transactions.truncate(1);
    assert!(undecoded_logs(EventKind::Initialize, &unpaired).is_empty());
}

#[test]
fn processors_are_registered_by_table_name() {
    assert!(matches!(kind_for_table("uni_v4_pools"), Some(EventKind::Initialize)));
    assert!(matches!(kind_for_table("uni_v4_swaps"), Some(EventKind::Swap)));
    assert!(matches!(
        kind_for_table("uni_v4_modify_liquidity"),
        Some(EventKind::ModifyLiquidity)
    ));
    assert!(matches!(kind_for_table("uni_v4_donations"), Some(EventKind::Donate)));
    assert!(kind_for_table("uni_v4_other").is_none());
    assert!(kind_for_table("").is_none());
    let mut indexer = Indexer::with_tables(all_tables());
    indexer.add_processor("unknown_table", "Nothing");
    assert_eq!(indexer.list_processors().len(), 4);
    indexer.add_processor("uni_v4_pools", "PoolsAgain");
    assert_eq!(
        indexer.list_processors(),
        vec!["Pools", "Swaps", "ModifyLiquidity", "Donations", "PoolsAgain"]
    );
}

#[test]
fn a_block_gives_one_task_for_each_processor() {
    let indexer = Indexer::with_tables(all_tables());
    let data = block(
        42,
        vec![vec![initialize_log(1, 100), donate_log(5)], vec![donate_log(6), stray_log()]],
    );
    let tasks = indexer.process_block_data(&data, components());
    assert_eq!(tasks.len(), 4);
    let names: Vec<&str> = tasks.iter().map(|t| t.processor_name).collect();
    assert_eq!(names, vec!["Pools", "Swaps", "ModifyLiquidity", "Donations"]);
    let pools = tasks[0].insert.as_ref().unwrap();
    assert_eq!(pools.table, "uni_v4_pools");
    assert_eq!(pools.rows.len(), 1);
    assert!(tasks[1].insert.is_none());
    assert!(tasks[2].insert.is_none());
    let donations = tasks[3].insert.as_ref().unwrap();
    assert_eq!(donations.table, "uni_v4_donations");
    assert_eq!(donations.rows.len(), 2);
    assert_eq!(donations.rows[1][2], "1");
    assert!(donations.rows.iter().all(|r| r[9] == "2023-11-14 22:13:20"));
}

#[test]
fn a_processor_runs_by_itself() {
    let indexer = Indexer::with_tables(all_tables());
    assert_eq!(indexer.processor_count(), 4);
    assert_eq!(Indexer::new().processor_count(), 4);
    let data = block(42, vec![vec![initialize_log(1, 100), donate_log(5)]]);
    let all = indexer.process_block_data(&data, components());
    for index in 0..indexer.processor_count() {
        let alone = indexer.run_processor(index, &data, components());
        assert_eq!(alone.processor_name, all[index].processor_name);
        assert_eq!(
            alone.insert.as_ref().map(|batch| (batch.table, batch.rows.clone())),
            all[index].insert.as_ref().map(|batch| (batch.table, batch.rows.clone()))
        );
    }
    let only_pools = {
        let mut indexer = Indexer::with_tables(definitions());
        assert_eq!(indexer.unresolved_tables().len(), 3);
        indexer.add_processor("uni_v4_pools", "More");
        indexer
    };
    assert_eq!(only_pools.processor_count(), 5);
    let first = only_pools.run_processor(0, &data, components());
    let last = only_pools.run_processor(4, &data, components());
    assert_eq!(first.processor_name, "Pools");
    assert_eq!(last.processor_name, "More");
    assert_eq!(first.insert.unwrap().rows, last.insert.unwrap().rows);
}

#[test]
fn blocks_are_processed_one_by_one_in_their_order() {
    let indexer = Indexer::with_tables(all_tables());
    let blocks = vec![
        block(1, vec![vec![initialize_log(1, 100)]]),
        block(2, vec![]),
        block(3, vec![vec![donate_log(5)], vec![initialize_log(2, 200)]]),
    ];
    let plans = indexer.process_blocks(&blocks);
    assert_eq!(plans.len(), 3);
    assert!(plans.iter().all(|tasks| tasks.len() == 4));
    assert_eq!(plans[0][0].insert.as_ref().unwrap().rows[0][0], "1");
    assert!(plans[1].iter().all(|task| task.insert.is_none()));
    assert_eq!(plans[2][0].insert.as_ref().unwrap().rows[0][0], "3");
    assert_eq!(plans[2][3].insert.as_ref().unwrap().rows.len(), 1);
    assert!(indexer.process_blocks(&Vec::new()).is_empty());
}

#[test]
fn revert_blocks_gives_one_statement_for_each_table() {
    let mut indexer = Indexer::with_tables(all_tables());
    indexer.add_processor("uni_v4_pools", "PoolsAgain");
    let statements = indexer.revert_blocks(&[100, 101]);
    let listed: Vec<(&str, &str)> =
        statements.iter().map(|s| (s.table, s.sql.as_str())).collect();
    assert_eq!(
        listed,
        vec![
            ("uni_v4_pools", "ALTER TABLE uni_v4_pools DELETE WHERE block_number IN (100, 101)"),
            ("uni_v4_swaps", "ALTER TABLE uni_v4_swaps DELETE WHERE block_number IN (100, 101)"),
            (
                "uni_v4_modify_liquidity",
                "ALTER TABLE uni_v4_modify_liquidity DELETE WHERE block_number IN (100, 101)"
            ),
            (
                "uni_v4_donations",
                "ALTER TABLE uni_v4_donations DELETE WHERE block_number IN (100, 101)"
            ),
        ]
    );
    assert_eq!(indexer.revert_blocks(&[7]).len(), 4);
    assert_eq!(
        indexer.revert_blocks(&[7])[0].sql,
        "ALTER TABLE uni_v4_pools DELETE WHERE block_number IN (7)"
    );
}

#[test]
fn task_results_follow_the_commit() {
    let indexer = Indexer::with_tables(all_tables());
    let data = block(42, vec![vec![initialize_log(1, 100), initialize_log(2, 100)]]);
    let tasks = indexer.process_block_data(&data, components());
    let written = tasks[0].finished(None, "0.25".to_string());
    assert_eq!(written.processor_name, "Pools");
    assert!(matches!(
        &written.outcome,
        TaskOutcome::Written { records: 2, seconds } if seconds == "0.25"
    ));
    let failed = tasks[0].finished(Some("timeout".to_string()), "0.25".to_string());
    assert!(matches!(&failed.outcome, TaskOutcome::Failed { error } if error == "timeout"));
    let nothing = tasks[1].finished(None, "0.00".to_string());
    assert!(matches!(&nothing.outcome, TaskOutcome::Written { records: 0, .. }));
    let nothing = tasks[1].finished(Some("never sent".to_string()), "0.00".to_string());
    assert!(matches!(&nothing.outcome, TaskOutcome::Written { records: 0, .. }));
}

fn written(name: &'static str, records: usize, seconds: &str) -> TaskResult {
    TaskResult {
        processor_name: name,
        outcome: TaskOutcome::Written { records, seconds: seconds.to_string() },
    }
}

fn failed(name: &'static str, error: &str) -> TaskResult {
    TaskResult { processor_name: name, outcome: TaskOutcome::Failed { error: error.to_string() } }
}

#[test]
fn summary_lists_events_by_name_and_sums_the_rows() {
    let results = vec![
        written("Pools", 2, "0.01"),
        written("Swaps", 10, "0.20"),
        written("ModifyLiquidity", 0, "0.00"),
        written("Donations", 1, "1.50"),
    ];
    let summary = summarize_block(123, &results);
    assert_eq!(
        summary.processed,
        "exex{id=\"univ4-exex-indexer\"}: Block 123 processed - Events: [Donations(1, 1.50s), ModifyLiquidity(0, 0.00s), Pools(2, 0.01s), Swaps(10, 0.20s)], Total records: 13"
    );
    assert!(summary.failures.is_none());
    assert_eq!(summary.total_records, 13);
}

#[test]
fn summary_reports_failures_apart() {
    let results = vec![
        written("Pools", 2, "0.01"),
        failed("Swaps", "connection reset"),
        TaskResult { processor_name: "ModifyLiquidity", outcome: TaskOutcome::Lost },
        failed("Donations", "table is read-only"),
    ];
    let summary = summarize_block(7, &results);
    assert_eq!(
        summary.processed,
        "exex{id=\"univ4-exex-indexer\"}: Block 7 processed - Events: [Pools(2, 0.01s)], Total records: 2"
    );
    assert_eq!(
        summary.failures.unwrap(),
        "exex{id=\"univ4-exex-indexer\"}: Block 7 failures - Swaps: connection reset, Donations: table is read-only"
    );
    assert_eq!(summary.total_records, 2);
}

#[test]
fn every_block_has_its_line_even_where_nothing_was_written() {
    let idle = "exex{id=\"univ4-exex-indexer\"}: Block 7 processed - Events: [], Total records: 0";
    let summary = summarize_block(7, &Vec::new());
    assert_eq!(summary.processed, idle);
    assert!(summary.failures.is_none());
    assert_eq!(summary.total_records, 0);
    let summary = summarize_block(
        7,
        &vec![TaskResult { processor_name: "Pools", outcome: TaskOutcome::Lost }],
    );
    assert_eq!(summary.processed, idle);
    assert!(summary.failures.is_none());
    let summary = summarize_block(7, &vec![failed("Pools", "x"), failed("Swaps", "y")]);
    assert_eq!(summary.processed, idle);
    assert_eq!(summary.total_records, 0);
    let summary = summarize_block(7, &vec![written("Pools", 0, "0.00")]);
    assert_eq!(
        summary.processed,
        "exex{id=\"univ4-exex-indexer\"}: Block 7 processed - Events: [Pools(0, 0.00s)], Total records: 0"
    );
    let summary = summarize_block(u64::MAX, &vec![failed("Pools", "x")]);
    assert_eq!(
        summary.processed,
        "exex{id=\"univ4-exex-indexer\"}: Block 18446744073709551615 processed - Events: [], Total records: 0"
    );
    assert_eq!(
        summary.failures.unwrap(),
        "exex{id=\"univ4-exex-indexer\"}: Block 18446744073709551615 failures - Pools: x"
    );
}

#[test]
fn a_failure_leaves_the_counts_of_the_other_processors() {
    let all_fine = vec![written("Pools", 2, "0.01"), written("Swaps", 10, "0.20"), written("Donations", 1, "0.10")];
    let one_failed = vec![written("Pools", 2, "0.01"), failed("Swaps", "boom"), written("Donations", 1, "0.10")];
    let fine = summarize_block(5, &all_fine);
    let partly = summarize_block(5, &one_failed);
    assert_eq!(fine.total_records, 13);
    assert_eq!(partly.total_records, 3);
    let line = partly.processed;
    assert!(line.contains("Pools(2, 0.01s)"));
    assert!(line.contains("Donations(1, 0.10s)"));
    assert!(!line.contains("Swaps"));
}

#[test]
fn events_of_one_name_keep_their_order() {
    let results = vec![
        written("b", 1, "1"),
        written("a", 2, "2"),
        written("b", 3, "3"),
        written("", 4, "4"),
        written("a", 5, "5"),
        written("B", 6, "6"),
        written("ab", 7, "7"),
    ];
    let summary = summarize_block(1, &results);
    assert_eq!(
        summary.processed,
        "exex{id=\"univ4-exex-indexer\"}: Block 1 processed - Events: [(4, 4s), B(6, 6s), a(2, 2s), a(5, 5s), ab(7, 7s), b(1, 1s), b(3, 3s)], Total records: 28"
    );
}

#[test]
fn names_are_ordered_as_strings_are() {
    let names = ["", "a", "A", "ab", "b", "Pools", "Swaps", "caf\u{e9}", "cafe", "\u{1f600}", "z"];
    for a in names {
        for b in names {
            assert_eq!(name_not_greater(a, b), a <= b);
        }
    }
}
