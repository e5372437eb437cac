use ethereum_etl::exporters::{
    block_columns, encode_rows, find_ragged, push_encoded, transaction_columns, CsvExporter,
    SinkWriteError, BLOCK_COLUMNS, TRANSACTION_COLUMNS,
};

fn row_of(width: usize, cell: &str) -> Vec<String> {
    let mut row = Vec::new();
    for _ in 0..width {
        row.push(cell.to_string());
    }
    row
}

#[test]
fn block_stream_has_its_columns() {
    assert_eq!(
        block_columns(),
        vec![
            "number", "hash", "parent_hash", "nonce", "sha3_uncles", "logs_bloom",
            "transactions_root", "state_root", "receipts_root", "miner", "difficulty",
            "total_difficulty", "size", "extra_data", "gas_limit", "gas_used", "timestamp",
            "transaction_count", "base_fee_per_gas", "withdrawals_root", "blob_gas_used",
            "excess_blob_gas",
        ]
    );
    assert_eq!(block_columns().len(), BLOCK_COLUMNS);
}

#[test]
fn transaction_stream_has_its_columns() {
    assert_eq!(
        transaction_columns(),
        vec![
            "hash", "nonce", "block_hash", "block_number", "transaction_index", "from_address",
            "to_address", "value", "gas", "gas_price", "input", "block_timestamp",
            "max_fee_per_gas", "max_priority_fee_per_gas", "transaction_type",
            "max_fee_per_blob_gas", "blob_versioned_hashes",
        ]
    );
    assert_eq!(transaction_columns().len(), TRANSACTION_COLUMNS);
}

#[test]
fn header_is_one_record_per_stream_that_is_on() {
    let out = CsvExporter::new(true, true).header().unwrap();
    assert_eq!(
        String::from_utf8(out.blocks.unwrap()).unwrap(),
        format!("{}\n", block_columns().join(","))
    );
    assert_eq!(
        String::from_utf8(out.transactions.unwrap()).unwrap(),
        format!("{}\n", transaction_columns().join(","))
    );
}

#[test]
fn stream_that_is_off_gets_no_header_and_no_rows() {
    let exporter = CsvExporter::new(false, false);
    let header = exporter.header().unwrap();
    assert!(header.blocks.is_none());
    assert!(header.transactions.is_none());
    let out = exporter
        .export_blocks_and_transactions(&vec![row_of(22, "x")], &vec![row_of(17, "y")])
        .unwrap();
    assert!(out.blocks.is_none());
    assert!(out.transactions.is_none());
    let out = exporter
        .export_blocks_and_transactions(&vec![row_of(3, "ragged")], &vec![row_of(1, "ragged")])
        .unwrap();
    assert!(out.blocks.is_none());
    assert!(out.transactions.is_none());
}

#[test]
fn one_stream_may_be_on_alone() {
    let exporter = CsvExporter::new(true, false);
    let header = exporter.header().unwrap();
    assert!(header.blocks.is_some());
    assert!(header.transactions.is_none());
    let out = exporter
        .export_blocks_and_transactions(&vec![row_of(22, "b")], &vec![row_of(5, "ignored")])
        .unwrap();
    assert_eq!(String::from_utf8(out.blocks.unwrap()).unwrap(), format!("{}\n", row_of(22, "b").join(",")));
    assert!(out.transactions.is_none());
}

#[test]
fn rows_are_encoded_in_order() {
    let exporter = CsvExporter::new(true, true);
    let mut first = row_of(17, "a");
    first[16] = "0x01,0x02".to_string();
    let second = row_of(17, "");
    let out = exporter
        .export_blocks_and_transactions(&vec![], &vec![first, second])
        .unwrap();
    assert_eq!(out.blocks.unwrap(), Vec::<u8>::new());
    assert_eq!(
        String::from_utf8(out.transactions.unwrap()).unwrap(),
        "a,a,a,a,a,a,a,a,a,a,a,a,a,a,a,a,\"0x01,0x02\"\n,,,,,,,,,,,,,,,,\n"
    );
}

#[test]
fn encoding_quotes_what_needs_quoting() {
    let rows = vec![
        vec!["a".to_string(), "b,c".to_string()],
        vec!["say \"hi\"".to_string(), "line\nbreak".to_string()],
    ];
    assert_eq!(
        String::from_utf8(encode_rows(&rows).unwrap()).unwrap(),
        "a,\"b,c\"\n\"say \"\"hi\"\"\",\"line\nbreak\"\n"
    );
    assert_eq!(encode_rows(&vec![]).unwrap(), Vec::<u8>::new());
}

#[test]
fn same_rows_twice_stand_twice() {
    let exporter = CsvExporter::new(true, false);
    let rows = vec![row_of(22, "r")];
    let once = exporter.export_blocks_and_transactions(&rows, &vec![]).unwrap().blocks.unwrap();
    let again = exporter.export_blocks_and_transactions(&rows, &vec![]).unwrap().blocks.unwrap();
    assert_eq!(once, again);
    let both = vec![row_of(22, "r"), row_of(22, "r")];
    let doubled = exporter.export_blocks_and_transactions(&both, &vec![]).unwrap().blocks.unwrap();
    let mut stream = once.clone();
    stream.extend_from_slice(&again);
    assert_eq!(doubled, stream);
}

#[test]
fn ragged_block_row_is_refused() {
    let exporter = CsvExporter::new(true, true);
    let r = exporter.export_blocks_and_transactions(
        &vec![row_of(22, "ok"), row_of(21, "short"), row_of(1, "shorter")],
        &vec![row_of(3, "also ragged")],
    );
    assert_eq!(
        r.unwrap_err(),
        SinkWriteError::UnequalLengths { expected_len: 22, len: 21, row: 1 }
    );
}

#[test]
fn ragged_transaction_row_is_refused() {
    let exporter = CsvExporter::new(true, true);
    let r = exporter
        .export_blocks_and_transactions(&vec![row_of(22, "ok")], &vec![row_of(18, "long")]);
    assert_eq!(
        r.unwrap_err(),
        SinkWriteError::UnequalLengths { expected_len: 17, len: 18, row: 0 }
    );
    let exporter = CsvExporter::new(false, true);
    let r = exporter
        .export_blocks_and_transactions(&vec![row_of(2, "unseen")], &vec![row_of(0, "")]);
    assert_eq!(
        r.unwrap_err(),
        SinkWriteError::UnequalLengths { expected_len: 17, len: 0, row: 0 }
    );
}

#[test]
fn find_ragged_gives_the_first() {
    assert_eq!(find_ragged(&vec![], 3), None);
    assert_eq!(find_ragged(&vec![row_of(3, "a"), row_of(3, "b")], 3), None);
    assert_eq!(find_ragged(&vec![row_of(3, "a"), row_of(2, "b"), row_of(1, "c")], 3), Some(1));
}

#[test]
fn push_encoded_appends_or_leaves_alone() {
    let mut out = vec![1u8, 2];
    assert_eq!(push_encoded(&mut out, Ok(vec![3, 4])), Ok(()));
    assert_eq!(out, vec![1, 2, 3, 4]);
    let failed = csv::Error::from(std::io::Error::new(std::io::ErrorKind::Other, "full"));
    assert_eq!(push_encoded(&mut out, Err(failed)), Err(SinkWriteError::Encoding));
    assert_eq!(out, vec![1, 2, 3, 4]);
}

#[test]
fn rows_of_the_right_width_are_always_taken() {
    let exporter = CsvExporter::new(true, true);
    let mut blocks = Vec::new();
    let mut transactions = Vec::new();
    for i in 0..50 {
        blocks.push(row_of(22, &format!("b{}", i)));
        transactions.push(row_of(17, &format!("t,\"{}\"\n", i)));
    }
    let out = exporter.export_blocks_and_transactions(&blocks, &transactions).unwrap();
    let block_text = String::from_utf8(out.blocks.unwrap()).unwrap();
    assert_eq!(block_text.lines().count(), 50);
    assert!(block_text.starts_with("b0,b0,"));
    assert!(block_text.ends_with(",b49\n"));
    let mut reader = csv::ReaderBuilder::new()
        .has_headers(false)
        .from_reader(out.transactions.as_deref().unwrap());
    let mut seen = 0;
    for record in reader.records() {
        let record = record.unwrap();
        assert_eq!(record.len(), 17);
        assert_eq!(&record[0], format!("t,\"{}\"\n", seen));
        seen += 1;
    }
    assert_eq!(seen, 50);
}

#[test]
fn header_never_fails() {
    for (blocks, transactions) in [(true, true), (true, false), (false, true), (false, false)] {
        let out = CsvExporter::new(blocks, transactions).header();
        assert!(out.is_ok());
        let out = out.unwrap();
        assert_eq!(out.blocks.is_some(), blocks);
        assert_eq!(out.transactions.is_some(), transactions);
    }
}

#[test]
fn rows_of_any_width_are_encoded() {
    let rows = vec![row_of(1, "a"), row_of(3, "b"), row_of(0, ""), row_of(2, "")];
    assert_eq!(String::from_utf8(encode_rows(&rows).unwrap()).unwrap(), "a\nb,b,b\n\"\"\n,\n");
}
