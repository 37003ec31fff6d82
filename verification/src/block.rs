//! What the indexer reads of a block: its number, the hashes of its
//! transactions, and the logs of their receipts.
use crate::primitives::{Address, FixedBytes};
use vstd::prelude::*;

verus! {

/// An event record: who emitted it, its indexed topics, and its payload.
#[derive(Debug)]
pub struct Log {
    pub address: Address,
    pub topics: Vec<FixedBytes>,
    pub data: Vec<u8>,
}

/// The result of one transaction: its logs, in order.
#[derive(Debug)]
pub struct Receipt {
    pub logs: Vec<Log>,
}

/// A transaction, known by its hash.
#[derive(Debug, Clone, Copy)]
pub struct Transaction {
    pub hash: FixedBytes,
}

/// A block: its number and its transactions, in order.
#[derive(Debug)]
pub struct EthereumBlock {
    pub number: u64,
    pub transactions: Vec<Transaction>,
}

/// The receipts of a block; the receipt at a position belongs to the
/// transaction at that position.
pub type EthereumReceipts = Vec<Receipt>;

/// A block with its receipts.
pub type EthereumBlockData = (EthereumBlock, EthereumReceipts);

/// A log as plain values.
pub struct LogSpec {
    pub address: Seq<u8>,
    pub topics: Seq<Seq<u8>>,
    pub data: Seq<u8>,
}

/// A block with its receipts as plain values.
pub struct BlockSpec {
    pub number: u64,
    pub transactions: Seq<Seq<u8>>,
    pub receipts: Seq<Seq<LogSpec>>,
}

/// The bytes of each topic.
pub open spec fn topic_bytes(topics: Seq<FixedBytes>) -> Seq<Seq<u8>> {
    Seq::new(topics.len(), |i: int| topics[i].bytes@)
}

impl View for Log {
    type V = LogSpec;

    open spec fn view(&self) -> LogSpec {
        LogSpec {
            address: self.address.bytes@,
            topics: topic_bytes(self.topics@),
            data: self.data@,
        }
    }
}

/// The plain values of each log.
pub open spec fn log_specs(logs: Seq<Log>) -> Seq<LogSpec> {
    Seq::new(logs.len(), |i: int| logs[i]@)
}

impl View for Receipt {
    type V = Seq<LogSpec>;

    open spec fn view(&self) -> Seq<LogSpec> {
        log_specs(self.logs@)
    }
}

/// The hash of each transaction.
pub open spec fn transaction_hashes(transactions: Seq<Transaction>) -> Seq<Seq<u8>> {
    Seq::new(transactions.len(), |i: int| transactions[i].hash.bytes@)
}

/// The logs of each receipt.
pub open spec fn receipt_specs(receipts: Seq<Receipt>) -> Seq<Seq<LogSpec>> {
    Seq::new(receipts.len(), |i: int| receipts[i]@)
}

/// A block with its receipts as plain values.
pub open spec fn block_spec(data: EthereumBlockData) -> BlockSpec {
    BlockSpec {
        number: data.0.number,
        transactions: transaction_hashes(data.0.transactions@),
        receipts: receipt_specs(data.1@),
    }
}

} // verus!
