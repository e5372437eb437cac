//! From the provider's records to the normalized schema, and from there to
//! rows of text.

use crate::domain::{Block, Transaction};
use crate::providers::{ProviderBlock, ProviderTransaction};
use crate::text::{
    decimal_text, hex_string, hex_text, join_comma, join_text, parse_u64, parse_u64_text, texts,
    u64_to_string,
};
use vstd::prelude::*;

verus! {

/// A field that every delivered block must carry was absent.
#[derive(Debug, Clone, Copy, PartialEq, Eq, Structural)]
pub enum MappingError {
    MissingNumber,
    MissingHash,
    MissingNonce,
    MissingLogsBloom,
    MissingMiner,
    MissingSize,
}

/// The number that four 64-bit limbs stand for, least significant first.
pub open spec fn u256_value(limbs: Seq<u64>) -> nat
    recommends
        limbs.len() == 4,
{
    (limbs[0] as nat) + (limbs[1] as nat) * 0x1_0000_0000_0000_0000nat + (limbs[2] as nat)
        * 0x1_0000_0000_0000_0000_0000_0000_0000_0000nat + (limbs[3] as nat)
        * 0x1_0000_0000_0000_0000_0000_0000_0000_0000_0000_0000_0000_0000nat
}

/// The first required field that `raw` lacks, if it lacks one. The order is
/// number, hash, nonce, logs bloom, miner, size.
pub open spec fn missing_field(raw: ProviderBlock) -> Option<MappingError> {
    if raw.number is None {
        Some(MappingError::MissingNumber)
    } else if raw.hash is None {
        Some(MappingError::MissingHash)
    } else if raw.nonce is None {
        Some(MappingError::MissingNonce)
    } else if raw.logs_bloom is None {
        Some(MappingError::MissingLogsBloom)
    } else if raw.author is None {
        Some(MappingError::MissingMiner)
    } else if raw.size is None {
        Some(MappingError::MissingSize)
    } else {
        None
    }
}

/// The texts of the entries that are present, in order.
pub open spec fn present_texts(entries: Seq<Option<String>>) -> Seq<Seq<char>>
    decreases entries.len(),
{
    if entries.len() == 0 {
        Seq::empty()
    } else {
        match entries.last() {
            Some(s) => present_texts(entries.drop_last()).push(s@),
            None => present_texts(entries.drop_last()),
        }
    }
}

/// The text of an optional string: empty where it is absent.
pub open spec fn text_or_empty(o: Option<String>) -> Seq<char> {
    match o {
        Some(s) => s@,
        None => Seq::empty(),
    }
}

/// The decimal text of an optional number: empty where it is absent.
pub open spec fn decimal_or_empty(o: Option<u64>) -> Seq<char> {
    match o {
        Some(n) => decimal_text(n as nat),
        None => Seq::empty(),
    }
}

/// Whether `t` is the normalized form of `raw` inside a block stamped `ts`.
pub open spec fn transaction_maps_to(raw: ProviderTransaction, ts: u64, t: Transaction) -> bool {
    &&& t.hash@ == hex_text(raw.hash@)
    &&& t.nonce == raw.nonce
    &&& match raw.block_hash {
        Some(h) => t.block_hash matches Some(s) && s@ == hex_text(h@),
        None => t.block_hash is None,
    }
    &&& t.block_number == raw.block_number
    &&& t.transaction_index == raw.transaction_index
    &&& t.from_address@ == hex_text(raw.from@)
    &&& match raw.to {
        Some(a) => t.to_address matches Some(s) && s@ == hex_text(a@),
        None => t.to_address is None,
    }
    &&& t.value@ == decimal_text(u256_value(raw.value@))
    &&& t.gas == raw.gas
    &&& t.gas_price@ == match raw.gas_price {
        Some(p) => decimal_text(u256_value(p@)),
        None => decimal_text(0),
    }
    &&& t.input@ == hex_text(raw.input@)
    &&& t.block_timestamp == ts
    &&& t.max_fee_per_gas == raw.max_fee_per_gas
    &&& t.max_priority_fee_per_gas == raw.max_priority_fee_per_gas
    &&& t.transaction_type == raw.transaction_type
    &&& t.max_fee_per_blob_gas == match raw.max_fee_per_blob_gas {
        Some(s) => parse_u64_text(s@),
        None => None,
    }
    &&& texts(t.blob_versioned_hashes@) == present_texts(raw.blob_versioned_hashes@)
}

/// Whether `b` is the normalized form of `raw`, which lacks no required
/// field.
pub open spec fn block_maps_to(raw: ProviderBlock, b: Block) -> bool {
    &&& raw.number == Some(b.number)
    &&& raw.hash matches Some(h) && b.hash@ == hex_text(h@)
    &&& b.parent_hash@ == hex_text(raw.parent_hash@)
    &&& raw.nonce matches Some(n) && b.nonce@ == hex_text(n@)
    &&& b.sha3_uncles@ == hex_text(raw.uncles_hash@)
    &&& raw.logs_bloom matches Some(l) && b.logs_bloom@ == hex_text(l@)
    &&& b.transactions_root@ == hex_text(raw.transactions_root@)
    &&& b.state_root@ == hex_text(raw.state_root@)
    &&& b.receipts_root@ == hex_text(raw.receipts_root@)
    &&& raw.author matches Some(a) && b.miner@ == hex_text(a@)
    &&& b.difficulty@ == decimal_text(u256_value(raw.difficulty@))
    &&& match raw.total_difficulty {
        Some(d) => b.total_difficulty matches Some(s) && s@ == decimal_text(u256_value(d@)),
        None => b.total_difficulty is None,
    }
    &&& raw.size == Some(b.size)
    &&& b.extra_data@ == hex_text(raw.extra_data@)
    &&& b.gas_limit == raw.gas_limit
    &&& b.gas_used == raw.gas_used
    &&& b.timestamp == raw.timestamp
    &&& b.transaction_count == raw.transactions@.len()
    &&& b.base_fee_per_gas == raw.base_fee_per_gas
    &&& match raw.withdrawals_root {
        Some(w) => b.withdrawals_root matches Some(s) && s@ == hex_text(w@),
        None => b.withdrawals_root is None,
    }
    &&& b.blob_gas_used == raw.blob_gas_used
    &&& b.excess_blob_gas == raw.excess_blob_gas
    &&& b.transactions@.len() == raw.transactions@.len()
    &&& forall|i: int|
        0 <= i < raw.transactions@.len() ==> transaction_maps_to(
            #[trigger] raw.transactions@[i],
            raw.timestamp,
            b.transactions@[i],
        )
}

/// The 22 cells of a block's row, in column order.
pub open spec fn block_row(b: Block) -> Seq<Seq<char>> {
    seq![
        decimal_text(b.number as nat),
        b.hash@,
        b.parent_hash@,
        b.nonce@,
        b.sha3_uncles@,
        b.logs_bloom@,
        b.transactions_root@,
        b.state_root@,
        b.receipts_root@,
        b.miner@,
        b.difficulty@,
        text_or_empty(b.total_difficulty),
        decimal_text(b.size as nat),
        b.extra_data@,
        decimal_text(b.gas_limit as nat),
        decimal_text(b.gas_used as nat),
        decimal_text(b.timestamp as nat),
        decimal_text(b.transaction_count as nat),
        decimal_or_empty(b.base_fee_per_gas),
        text_or_empty(b.withdrawals_root),
        decimal_or_empty(b.blob_gas_used),
        decimal_or_empty(b.excess_blob_gas),
    ]
}

/// The 17 cells of a transaction's row, in column order.
pub open spec fn transaction_row(t: Transaction) -> Seq<Seq<char>> {
    seq![
        t.hash@,
        decimal_text(t.nonce as nat),
        text_or_empty(t.block_hash),
        decimal_or_empty(t.block_number),
        decimal_or_empty(t.transaction_index),
        t.from_address@,
        text_or_empty(t.to_address),
        t.value@,
        decimal_text(t.gas as nat),
        t.gas_price@,
        t.input@,
        decimal_text(t.block_timestamp as nat),
        decimal_or_empty(t.max_fee_per_gas),
        decimal_or_empty(t.max_priority_fee_per_gas),
        decimal_or_empty(t.transaction_type),
        decimal_or_empty(t.max_fee_per_blob_gas),
        join_text(texts(t.blob_versioned_hashes@), seq![',']),
    ]
}

/// Calls the `Display` impl of `ethers::types::U256` on the number whose
/// limbs are given, through `to_string`. The contract claims what that impl
/// writes when no width or flag is set: `0` for zero, and otherwise the
/// decimal digits, most significant first, with no leading zero.
#[verifier::external_body]
fn u256_to_decimal(limbs: &[u64; 4]) -> (s: String)
    ensures
        s@ == decimal_text(u256_value(limbs@)),
{
    ethers::types::U256(*limbs).to_string()
}

fn optional_hash(h: &Option<[u8; 32]>) -> (r: Option<String>)
    ensures
        match *h {
            Some(b) => r matches Some(s) && s@ == hex_text(b@),
            None => r is None,
        },
{
    match h {
        Some(b) => Some(hex_string(b.as_slice())),
        None => None,
    }
}

fn optional_address(a: &Option<[u8; 20]>) -> (r: Option<String>)
    ensures
        match *a {
            Some(b) => r matches Some(s) && s@ == hex_text(b@),
            None => r is None,
        },
{
    match a {
        Some(b) => Some(hex_string(b.as_slice())),
        None => None,
    }
}

fn present_strings(entries: &Vec<Option<String>>) -> (r: Vec<String>)
    ensures
        texts(r@) == present_texts(entries@),
{
    let mut r: Vec<String> = Vec::new();
    let mut i: usize = 0;
    proof {
        assert(entries@.take(0) =~= Seq::<Option<String>>::empty());
        assert(texts(r@) =~= present_texts(entries@.take(0)));
    }
    while i < entries.len()
        invariant
            i <= entries.len(),
            texts(r@) == present_texts(entries@.take(i as int)),
        decreases entries.len() - i,
    {
        let ghost before = r@;
        proof {
            assert(entries@.take(i + 1).drop_last() =~= entries@.take(i as int));
        }
        match &entries[i] {
            Some(s) => {
                r.push(s.clone());
                proof {
                    assert(texts(r@) =~= texts(before).push(s@));
                }
            },
            None => {},
        }
        i += 1;
    }
    proof {
        assert(entries@.take(entries@.len() as int) =~= entries@);
    }
    r
}

/// Normalizes one transaction of a block whose timestamp is
/// `block_timestamp`.
pub fn ethers_transaction_to_transaction(
    ethers_tx: &ProviderTransaction,
    block_timestamp: u64,
) -> (t: Transaction)
    ensures
        transaction_maps_to(*ethers_tx, block_timestamp, t),
{
    let zero: [u64; 4] = [0, 0, 0, 0];
    let gas_price = match &ethers_tx.gas_price {
        Some(p) => u256_to_decimal(p),
        None => {
            assert(u256_value(zero@) == 0);
            u256_to_decimal(&zero)
        },
    };
    let max_fee_per_blob_gas = match &ethers_tx.max_fee_per_blob_gas {
        Some(s) => parse_u64(s.as_str()),
        None => None,
    };
    Transaction {
        hash: hex_string(ethers_tx.hash.as_slice()),
        nonce: ethers_tx.nonce,
        block_hash: optional_hash(&ethers_tx.block_hash),
        block_number: ethers_tx.block_number,
        transaction_index: ethers_tx.transaction_index,
        from_address: hex_string(ethers_tx.from.as_slice()),
        to_address: optional_address(&ethers_tx.to),
        value: u256_to_decimal(&ethers_tx.value),
        gas: ethers_tx.gas,
        gas_price,
        input: hex_string(ethers_tx.input.as_slice()),
        block_timestamp,
        max_fee_per_gas: ethers_tx.max_fee_per_gas,
        max_priority_fee_per_gas: ethers_tx.max_priority_fee_per_gas,
        transaction_type: ethers_tx.transaction_type,
        max_fee_per_blob_gas,
        blob_versioned_hashes: present_strings(&ethers_tx.blob_versioned_hashes),
    }
}

/// Normalizes a delivered block together with its transactions. Fails, with
/// the first missing field, exactly when a required field is absent.
pub fn ethers_block_to_block(ethers_block: &ProviderBlock) -> (r: Result<Block, MappingError>)
    ensures
        match r {
            Ok(b) => missing_field(*ethers_block) is None && block_maps_to(*ethers_block, b)
                && b.wf(),
            Err(e) => missing_field(*ethers_block) == Some(e),
        },
{
    let number = match ethers_block.number {
        Some(n) => n,
        None => { return Err(MappingError::MissingNumber); },
    };
    let hash = match &ethers_block.hash {
        Some(h) => hex_string(h.as_slice()),
        None => { return Err(MappingError::MissingHash); },
    };
    let nonce = match &ethers_block.nonce {
        Some(n) => hex_string(n.as_slice()),
        None => { return Err(MappingError::MissingNonce); },
    };
    let logs_bloom = match &ethers_block.logs_bloom {
        Some(l) => hex_string(l.as_slice()),
        None => { return Err(MappingError::MissingLogsBloom); },
    };
    let miner = match &ethers_block.author {
        Some(a) => hex_string(a.as_slice()),
        None => { return Err(MappingError::MissingMiner); },
    };
    let size = match ethers_block.size {
        Some(s) => s,
        None => { return Err(MappingError::MissingSize); },
    };
    let total_difficulty = match &ethers_block.total_difficulty {
        Some(d) => Some(u256_to_decimal(d)),
        None => None,
    };
    let timestamp = ethers_block.timestamp;
    let mut transactions: Vec<Transaction> = Vec::new();
    let mut i: usize = 0;
    while i < ethers_block.transactions.len()
        invariant
            i <= ethers_block.transactions.len(),
            transactions@.len() == i,
            timestamp == ethers_block.timestamp,
            forall|j: int|
                0 <= j < i ==> transaction_maps_to(
                    #[trigger] ethers_block.transactions@[j],
                    timestamp,
                    transactions@[j],
                ),
        decreases ethers_block.transactions.len() - i,
    {
        let t = ethers_transaction_to_transaction(&ethers_block.transactions[i], timestamp);
        transactions.push(t);
        i += 1;
    }
    let b = Block {
        number,
        hash,
        parent_hash: hex_string(ethers_block.parent_hash.as_slice()),
        nonce,
        sha3_uncles: hex_string(ethers_block.uncles_hash.as_slice()),
        logs_bloom,
        transactions_root: hex_string(ethers_block.transactions_root.as_slice()),
        state_root: hex_string(ethers_block.state_root.as_slice()),
        receipts_root: hex_string(ethers_block.receipts_root.as_slice()),
        miner,
        difficulty: u256_to_decimal(&ethers_block.difficulty),
        total_difficulty,
        size,
        extra_data: hex_string(ethers_block.extra_data.as_slice()),
        gas_limit: ethers_block.gas_limit,
        gas_used: ethers_block.gas_used,
        timestamp,
        transaction_count: ethers_block.transactions.len() as u64,
        base_fee_per_gas: ethers_block.base_fee_per_gas,
        withdrawals_root: optional_hash(&ethers_block.withdrawals_root),
        blob_gas_used: ethers_block.blob_gas_used,
        excess_blob_gas: ethers_block.excess_blob_gas,
        transactions,
    };
    proof {
        assert forall|j: int| 0 <= j < b.transactions@.len() implies (#[trigger] b.transactions@[j]).block_timestamp
            == b.timestamp by {
            assert(transaction_maps_to(ethers_block.transactions@[j], timestamp, b.transactions@[j]));
        }
    }
    Ok(b)
}

fn optional_string(o: &Option<String>) -> (s: String)
    ensures
        s@ == text_or_empty(*o),
{
    match o {
        Some(v) => v.clone(),
        None => String::new(),
    }
}

fn optional_decimal(o: Option<u64>) -> (s: String)
    ensures
        s@ == decimal_or_empty(o),
{
    match o {
        Some(n) => u64_to_string(n),
        None => String::new(),
    }
}

/// The row of a block: 22 cells in column order, an absent optional field
/// as an empty cell.
pub fn block_to_csv_row(block: &Block) -> (row: Vec<String>)
    ensures
        texts(row@) == block_row(*block),
        row@.len() == 22,
{
    let mut row: Vec<String> = Vec::new();
    row.push(u64_to_string(block.number));
    row.push(block.hash.clone());
    row.push(block.parent_hash.clone());
    row.push(block.nonce.clone());
    row.push(block.sha3_uncles.clone());
    row.push(block.logs_bloom.clone());
    row.push(block.transactions_root.clone());
    row.push(block.state_root.clone());
    row.push(block.receipts_root.clone());
    row.push(block.miner.clone());
    row.push(block.difficulty.clone());
    row.push(optional_string(&block.total_difficulty));
    row.push(u64_to_string(block.size));
    row.push(block.extra_data.clone());
    row.push(u64_to_string(block.gas_limit));
    row.push(u64_to_string(block.gas_used));
    row.push(u64_to_string(block.timestamp));
    row.push(u64_to_string(block.transaction_count));
    row.push(optional_decimal(block.base_fee_per_gas));
    row.push(optional_string(&block.withdrawals_root));
    row.push(optional_decimal(block.blob_gas_used));
    row.push(optional_decimal(block.excess_blob_gas));
    assert(texts(row@) =~= block_row(*block));
    row
}

/// The rows of a block: its own, and one for each of its transactions in
/// their order.
pub fn block_to_rows(block: &Block) -> (rows: (Vec<String>, Vec<Vec<String>>))
    ensures
        texts(rows.0@) == block_row(*block),
        rows.0@.len() == 22,
        rows.1@.len() == block.transactions@.len(),
        block.wf() ==> rows.1@.len() == block.transaction_count,
        forall|i: int|
            0 <= i < rows.1@.len() ==> texts((#[trigger] rows.1@[i])@) == transaction_row(
                block.transactions@[i],
            ) && rows.1@[i]@.len() == 17,
{
    let block_row = block_to_csv_row(block);
    let mut transaction_rows: Vec<Vec<String>> = Vec::new();
    let mut i: usize = 0;
    while i < block.transactions.len()
        invariant
            i <= block.transactions.len(),
            transaction_rows@.len() == i,
            forall|j: int|
                0 <= j < i ==> texts((#[trigger] transaction_rows@[j])@) == transaction_row(
                    block.transactions@[j],
                ) && transaction_rows@[j]@.len() == 17,
        decreases block.transactions.len() - i,
    {
        transaction_rows.push(transaction_to_csv_row(&block.transactions[i]));
        i += 1;
    }
    (block_row, transaction_rows)
}

/// In a well-formed block, the timestamp cell of every transaction row
/// equals the timestamp cell of the block's own row.
pub proof fn lemma_rows_share_timestamp(block: Block, i: int)
    requires
        block.wf(),
        0 <= i < block.transactions@.len(),
    ensures
        transaction_row(block.transactions@[i])[11] == block_row(block)[16],
{
}

/// The row of a transaction: 17 cells in column order, an absent optional
/// field as an empty cell, the blob hashes joined by commas in one cell.
pub fn transaction_to_csv_row(transaction: &Transaction) -> (row: Vec<String>)
    ensures
        texts(row@) == transaction_row(*transaction),
        row@.len() == 17,
{
    let mut row: Vec<String> = Vec::new();
    row.push(transaction.hash.clone());
    row.push(u64_to_string(transaction.nonce));
    row.push(optional_string(&transaction.block_hash));
    row.push(optional_decimal(transaction.block_number));
    row.push(optional_decimal(transaction.transaction_index));
    row.push(transaction.from_address.clone());
    row.push(optional_string(&transaction.to_address));
    row.push(transaction.value.clone());
    row.push(u64_to_string(transaction.gas));
    row.push(transaction.gas_price.clone());
    row.push(transaction.input.clone());
    row.push(u64_to_string(transaction.block_timestamp));
    row.push(optional_decimal(transaction.max_fee_per_gas));
    row.push(optional_decimal(transaction.max_priority_fee_per_gas));
    row.push(optional_decimal(transaction.transaction_type));
    row.push(optional_decimal(transaction.max_fee_per_blob_gas));
    row.push(join_comma(&transaction.blob_versioned_hashes));
    assert(texts(row@) =~= transaction_row(*transaction));
    row
}

} // verus!
