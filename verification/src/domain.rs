//! The normalized records: a block and the transactions embedded in it.

use vstd::prelude::*;

verus! {

/// A block in the normalized schema. Hashes, addresses and byte strings are
/// held as `0x`-prefixed lowercase hexadecimal text, wei-scale numbers as
/// decimal text.
#[derive(Debug, Clone)]
pub struct Block {
    pub number: u64,
    pub hash: String,
    pub parent_hash: String,
    pub nonce: String,
    pub sha3_uncles: String,
    pub logs_bloom: String,
    pub transactions_root: String,
    pub state_root: String,
    pub receipts_root: String,
    pub miner: String,
    pub difficulty: String,
    pub total_difficulty: Option<String>,
    pub size: u64,
    pub extra_data: String,
    pub gas_limit: u64,
    pub gas_used: u64,
    pub timestamp: u64,
    pub transaction_count: u64,
    pub base_fee_per_gas: Option<u64>,
    pub withdrawals_root: Option<String>,
    pub blob_gas_used: Option<u64>,
    pub excess_blob_gas: Option<u64>,
    pub transactions: Vec<Transaction>,
}

/// A transaction in the normalized schema, carrying the timestamp of the
/// block that holds it.
#[derive(Debug, Clone)]
pub struct Transaction {
    pub hash: String,
    pub nonce: u64,
    pub block_hash: Option<String>,
    pub block_number: Option<u64>,
    pub transaction_index: Option<u64>,
    pub from_address: String,
    pub to_address: Option<String>,
    pub value: String,
    pub gas: u64,
    pub gas_price: String,
    pub input: String,
    pub block_timestamp: u64,
    pub max_fee_per_gas: Option<u64>,
    pub max_priority_fee_per_gas: Option<u64>,
    pub transaction_type: Option<u64>,
    pub max_fee_per_blob_gas: Option<u64>,
    pub blob_versioned_hashes: Vec<String>,
}

impl Block {
    /// A block counts its embedded transactions, and each of them carries
    /// the block's timestamp.
    pub open spec fn wf(&self) -> bool {
        &&& self.transaction_count == self.transactions@.len()
        &&& forall|i: int|
            0 <= i < self.transactions@.len() ==> (#[trigger] self.transactions@[i]).block_timestamp
                == self.timestamp
    }
}

} // verus!
