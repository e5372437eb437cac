use ethereum_etl::domain::{Block, Transaction};
use ethereum_etl::mappers::{
    block_to_csv_row, block_to_rows, ethers_block_to_block, ethers_transaction_to_transaction,
    transaction_to_csv_row, MappingError,
};
use ethereum_etl::providers::{ProviderBlock, ProviderTransaction};
use ethers::types::{Address, Bloom, Bytes, H256, H64, U256};

fn raw_transaction(seed: u8) -> ProviderTransaction {
    ProviderTransaction {
        hash: [seed; 32],
        nonce: 7,
        block_hash: Some([0x11; 32]),
        block_number: Some(100),
        transaction_index: Some(seed as u64),
        from: [0xaa; 20],
        to: Some([0xbb; 20]),
        value: [1_000_000_000_000_000_000, 0, 0, 0],
        gas: 21000,
        gas_price: Some([20_000_000_000, 0, 0, 0]),
        input: vec![0xde, 0xad, 0xbe, 0xef],
        max_fee_per_gas: Some(30_000_000_000),
        max_priority_fee_per_gas: Some(1_000_000_000),
        transaction_type: Some(2),
        max_fee_per_blob_gas: None,
        blob_versioned_hashes: vec![],
    }
}

fn raw_block(transactions: Vec<ProviderTransaction>) -> ProviderBlock {
    ProviderBlock {
        number: Some(100),
        hash: Some([0x11; 32]),
        parent_hash: [0x22; 32],
        nonce: Some([0, 0, 0, 0, 0, 0, 0, 0x42]),
        uncles_hash: [0x33; 32],
        logs_bloom: Some([0; 256]),
        transactions_root: [0x44; 32],
        state_root: [0x55; 32],
        receipts_root: [0x66; 32],
        author: Some([0x77; 20]),
        difficulty: [2, 0, 0, 0],
        total_difficulty: Some([0, 1, 0, 0]),
        size: Some(1234),
        extra_data: vec![0x01, 0x02],
        gas_limit: 30_000_000,
        gas_used: 21_000,
        timestamp: 1_700_000_000,
        base_fee_per_gas: Some(7),
        withdrawals_root: None,
        blob_gas_used: None,
        excess_blob_gas: None,
        transactions,
    }
}

fn normalized_transaction() -> Transaction {
    Transaction {
        hash: "0xabc".to_string(),
        nonce: 1,
        block_hash: Some("0xdef".to_string()),
        block_number: Some(5),
        transaction_index: Some(0),
        from_address: "0xfrom".to_string(),
        to_address: Some("0xto".to_string()),
        value: "1000".to_string(),
        gas: 21000,
        gas_price: "5".to_string(),
        input: "0x".to_string(),
        block_timestamp: 99,
        max_fee_per_gas: None,
        max_priority_fee_per_gas: None,
        transaction_type: Some(0),
        max_fee_per_blob_gas: None,
        blob_versioned_hashes: vec![],
    }
}

fn normalized_block() -> Block {
    Block {
        number: 5,
        hash: "0xh".to_string(),
        parent_hash: "0xp".to_string(),
        nonce: "0xn".to_string(),
        sha3_uncles: "0xu".to_string(),
        logs_bloom: "0xl".to_string(),
        transactions_root: "0xt".to_string(),
        state_root: "0xs".to_string(),
        receipts_root: "0xr".to_string(),
        miner: "0xm".to_string(),
        difficulty: "17".to_string(),
        total_difficulty: Some("1700".to_string()),
        size: 512,
        extra_data: "0xe".to_string(),
        gas_limit: 30,
        gas_used: 20,
        timestamp: 99,
        transaction_count: 1,
        base_fee_per_gas: Some(8),
        withdrawals_root: Some("0xw".to_string()),
        blob_gas_used: Some(1),
        excess_blob_gas: Some(2),
        transactions: vec![normalized_transaction()],
    }
}

#[test]
fn block_row_has_every_column_in_order() {
    let row = block_to_csv_row(&normalized_block());
    assert_eq!(
        row,
        vec![
            "5", "0xh", "0xp", "0xn", "0xu", "0xl", "0xt", "0xs", "0xr", "0xm", "17", "1700",
            "512", "0xe", "30", "20", "99", "1", "8", "0xw", "1", "2",
        ]
    );
}

#[test]
fn block_row_leaves_absent_fields_empty() {
    let mut block = normalized_block();
    block.total_difficulty = None;
    block.base_fee_per_gas = None;
    block.withdrawals_root = None;
    block.blob_gas_used = None;
    block.excess_blob_gas = None;
    let row = block_to_csv_row(&block);
    assert_eq!(row.len(), 22);
    assert_eq!(row[11], "");
    assert_eq!(row[18], "");
    assert_eq!(row[19], "");
    assert_eq!(row[20], "");
    assert_eq!(row[21], "");
}

#[test]
fn transaction_row_has_every_column_in_order() {
    let mut t = normalized_transaction();
    t.max_fee_per_gas = Some(11);
    t.max_priority_fee_per_gas = Some(12);
    t.max_fee_per_blob_gas = Some(13);
    t.blob_versioned_hashes = vec!["0x01".to_string(), "0x02".to_string()];
    let row = transaction_to_csv_row(&t);
    assert_eq!(
        row,
        vec![
            "0xabc", "1", "0xdef", "5", "0", "0xfrom", "0xto", "1000", "21000", "5", "0x", "99",
            "11", "12", "0", "13", "0x01,0x02",
        ]
    );
}

#[test]
fn contract_creation_has_an_empty_to_address() {
    let mut t = normalized_transaction();
    t.to_address = None;
    let row = transaction_to_csv_row(&t);
    assert_eq!(row.len(), 17);
    assert_eq!(row[6], "");
    assert_ne!(row[6], "null");
    assert_ne!(row[6], "None");
}

#[test]
fn unmined_transaction_has_empty_block_cells() {
    let mut t = normalized_transaction();
    t.block_hash = None;
    t.block_number = None;
    t.transaction_index = None;
    t.transaction_type = None;
    let row = transaction_to_csv_row(&t);
    assert_eq!(row[2], "");
    assert_eq!(row[3], "");
    assert_eq!(row[4], "");
    assert_eq!(row[14], "");
    assert_eq!(row[16], "");
}

#[test]
fn rows_of_a_block_share_its_timestamp() {
    let raw = raw_block(vec![raw_transaction(1), raw_transaction(2), raw_transaction(3)]);
    let block = ethers_block_to_block(&raw).unwrap();
    let (block_row, transaction_rows) = block_to_rows(&block);
    assert_eq!(transaction_rows.len() as u64, block.transaction_count);
    assert_eq!(transaction_rows.len(), 3);
    for row in &transaction_rows {
        assert_eq!(row[11], block_row[16]);
        assert_eq!(row[11], "1700000000");
    }
}

#[test]
fn block_maps_field_by_field() {
    let raw = raw_block(vec![raw_transaction(1)]);
    let block = ethers_block_to_block(&raw).unwrap();
    assert_eq!(block.number, 100);
    assert_eq!(block.hash, format!("0x{}", "11".repeat(32)));
    assert_eq!(block.parent_hash, format!("0x{}", "22".repeat(32)));
    assert_eq!(block.nonce, "0x0000000000000042");
    assert_eq!(block.sha3_uncles, format!("0x{}", "33".repeat(32)));
    assert_eq!(block.logs_bloom, format!("0x{}", "00".repeat(256)));
    assert_eq!(block.transactions_root, format!("0x{}", "44".repeat(32)));
    assert_eq!(block.state_root, format!("0x{}", "55".repeat(32)));
    assert_eq!(block.receipts_root, format!("0x{}", "66".repeat(32)));
    assert_eq!(block.miner, format!("0x{}", "77".repeat(20)));
    assert_eq!(block.difficulty, "2");
    assert_eq!(block.total_difficulty, Some("18446744073709551616".to_string()));
    assert_eq!(block.size, 1234);
    assert_eq!(block.extra_data, "0x0102");
    assert_eq!(block.gas_limit, 30_000_000);
    assert_eq!(block.gas_used, 21_000);
    assert_eq!(block.timestamp, 1_700_000_000);
    assert_eq!(block.transaction_count, 1);
    assert_eq!(block.base_fee_per_gas, Some(7));
    assert_eq!(block.withdrawals_root, None);
    assert_eq!(block.blob_gas_used, None);
    assert_eq!(block.excess_blob_gas, None);
    assert_eq!(block.transactions.len(), 1);
    assert_eq!(block.transactions[0].block_timestamp, 1_700_000_000);
}

#[test]
fn wide_numbers_are_rendered_in_decimal() {
    let mut raw = raw_block(vec![]);
    raw.difficulty = [u64::MAX, u64::MAX, u64::MAX, u64::MAX];
    raw.total_difficulty = Some([0, 0, 0, 0]);
    let block = ethers_block_to_block(&raw).unwrap();
    assert_eq!(
        block.difficulty,
        "115792089237316195423570985008687907853269984665640564039457584007913129639935"
    );
    assert_eq!(block.total_difficulty, Some("0".to_string()));
    let mut raw = raw_block(vec![]);
    raw.difficulty = [0, 0, 1, 0];
    let block = ethers_block_to_block(&raw).unwrap();
    assert_eq!(block.difficulty, "340282366920938463463374607431768211456");
    assert_eq!(block.difficulty, U256::from_dec_str(&block.difficulty).unwrap().to_string());
}

#[test]
fn hashes_are_rendered_as_the_provider_types_render_them() {
    let raw = raw_block(vec![raw_transaction(9)]);
    let block = ethers_block_to_block(&raw).unwrap();
    assert_eq!(block.hash, format!("{:#x}", H256(raw.hash.unwrap())));
    assert_eq!(block.nonce, format!("{:#x}", H64(raw.nonce.unwrap())));
    assert_eq!(block.miner, format!("{:#x}", Address::from(raw.author.unwrap())));
    assert_eq!(block.logs_bloom, format!("{:#x}", Bloom::from(raw.logs_bloom.unwrap())));
    assert_eq!(block.extra_data, format!("{:#x}", Bytes::from(raw.extra_data.clone())));
    assert_eq!(block.difficulty, U256(raw.difficulty).to_string());
    assert_eq!(block.transactions[0].value, U256(raw.transactions[0].value).to_string());
}

#[test]
fn missing_fields_are_reported_in_order() {
    let mut raw = raw_block(vec![]);
    raw.size = None;
    assert_eq!(ethers_block_to_block(&raw).unwrap_err(), MappingError::MissingSize);
    raw.author = None;
    assert_eq!(ethers_block_to_block(&raw).unwrap_err(), MappingError::MissingMiner);
    raw.logs_bloom = None;
    assert_eq!(ethers_block_to_block(&raw).unwrap_err(), MappingError::MissingLogsBloom);
    raw.nonce = None;
    assert_eq!(ethers_block_to_block(&raw).unwrap_err(), MappingError::MissingNonce);
    raw.hash = None;
    assert_eq!(ethers_block_to_block(&raw).unwrap_err(), MappingError::MissingHash);
    raw.number = None;
    assert_eq!(ethers_block_to_block(&raw).unwrap_err(), MappingError::MissingNumber);
}

#[test]
fn transaction_maps_field_by_field() {
    let t = ethers_transaction_to_transaction(&raw_transaction(5), 1234);
    assert_eq!(t.hash, format!("0x{}", "05".repeat(32)));
    assert_eq!(t.nonce, 7);
    assert_eq!(t.block_hash, Some(format!("0x{}", "11".repeat(32))));
    assert_eq!(t.block_number, Some(100));
    assert_eq!(t.transaction_index, Some(5));
    assert_eq!(t.from_address, format!("0x{}", "aa".repeat(20)));
    assert_eq!(t.to_address, Some(format!("0x{}", "bb".repeat(20))));
    assert_eq!(t.value, "1000000000000000000");
    assert_eq!(t.gas, 21000);
    assert_eq!(t.gas_price, "20000000000");
    assert_eq!(t.input, "0xdeadbeef");
    assert_eq!(t.block_timestamp, 1234);
    assert_eq!(t.max_fee_per_gas, Some(30_000_000_000));
    assert_eq!(t.max_priority_fee_per_gas, Some(1_000_000_000));
    assert_eq!(t.transaction_type, Some(2));
    assert_eq!(t.max_fee_per_blob_gas, None);
    assert!(t.blob_versioned_hashes.is_empty());
}

#[test]
fn absent_gas_price_is_zero() {
    let mut raw = raw_transaction(1);
    raw.gas_price = None;
    raw.to = None;
    raw.block_hash = None;
    let t = ethers_transaction_to_transaction(&raw, 1);
    assert_eq!(t.gas_price, "0");
    assert_eq!(t.to_address, None);
    assert_eq!(t.block_hash, None);
}

#[test]
fn blob_fields_come_from_the_text_found() {
    let mut raw = raw_transaction(1);
    raw.max_fee_per_blob_gas = Some("1000".to_string());
    raw.blob_versioned_hashes =
        vec![Some("0x01aa".to_string()), None, Some("0x01bb".to_string())];
    let t = ethers_transaction_to_transaction(&raw, 1);
    assert_eq!(t.max_fee_per_blob_gas, Some(1000));
    assert_eq!(t.blob_versioned_hashes, vec!["0x01aa".to_string(), "0x01bb".to_string()]);
    assert_eq!(transaction_to_csv_row(&t)[16], "0x01aa,0x01bb");
    raw.max_fee_per_blob_gas = Some("0x3e8".to_string());
    let t = ethers_transaction_to_transaction(&raw, 1);
    assert_eq!(t.max_fee_per_blob_gas, None);
}
