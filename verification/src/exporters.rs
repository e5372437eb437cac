//! The row sink: two streams of comma-separated rows, blocks and
//! transactions, each of which may be switched off.
//!
//! The exporter turns rows into the bytes to append to a stream; appending
//! them durably is left to its caller.

use crate::text::texts;
use vstd::prelude::*;

verus! {

/// `csv::Error`, the error of the `csv` crate.
#[verifier::external_type_specification]
#[verifier::external_body]
pub struct ExCsvError(csv::Error);

/// The number of columns of a block row.
pub const BLOCK_COLUMNS: usize = 22;

/// The number of columns of a transaction row.
pub const TRANSACTION_COLUMNS: usize = 17;

/// Why rows could not be appended to a stream.
#[derive(Debug, Clone, Copy, PartialEq, Eq, Structural)]
pub enum SinkWriteError {
    /// Row `row` of a call has `len` cells where its stream has
    /// `expected_len` columns.
    UnequalLengths { expected_len: usize, len: usize, row: usize },
    /// A record came back from the encoder as an error.
    Encoding,
    /// The bytes could not be appended durably.
    Io,
}

/// The bytes to append to each stream; `None` for a stream that is switched
/// off.
#[derive(Debug, Clone)]
pub struct SinkOutput {
    pub blocks: Option<Vec<u8>>,
    pub transactions: Option<Vec<u8>>,
}

/// The bytes that `csv::Writer`, in its default configuration, writes for
/// one record with the given fields.
pub uninterp spec fn csv_record_bytes(fields: Seq<Seq<char>>) -> Seq<u8>;

/// The texts of the cells of a list of rows.
pub open spec fn row_texts(rows: Seq<Vec<String>>) -> Seq<Seq<Seq<char>>> {
    Seq::new(rows.len(), |i: int| texts(rows[i]@))
}

/// The bytes of the given records, one after another.
pub open spec fn rows_bytes(rows: Seq<Seq<Seq<char>>>) -> Seq<u8>
    decreases rows.len(),
{
    if rows.len() == 0 {
        Seq::empty()
    } else {
        rows_bytes(rows.drop_last()) + csv_record_bytes(rows.last())
    }
}

/// The column names of the block stream.
pub open spec fn block_header() -> Seq<Seq<char>> {
    seq![
        "number"@,
        "hash"@,
        "parent_hash"@,
        "nonce"@,
        "sha3_uncles"@,
        "logs_bloom"@,
        "transactions_root"@,
        "state_root"@,
        "receipts_root"@,
        "miner"@,
        "difficulty"@,
        "total_difficulty"@,
        "size"@,
        "extra_data"@,
        "gas_limit"@,
        "gas_used"@,
        "timestamp"@,
        "transaction_count"@,
        "base_fee_per_gas"@,
        "withdrawals_root"@,
        "blob_gas_used"@,
        "excess_blob_gas"@,
    ]
}

/// The column names of the transaction stream.
pub open spec fn transaction_header() -> Seq<Seq<char>> {
    seq![
        "hash"@,
        "nonce"@,
        "block_hash"@,
        "block_number"@,
        "transaction_index"@,
        "from_address"@,
        "to_address"@,
        "value"@,
        "gas"@,
        "gas_price"@,
        "input"@,
        "block_timestamp"@,
        "max_fee_per_gas"@,
        "max_priority_fee_per_gas"@,
        "transaction_type"@,
        "max_fee_per_blob_gas"@,
        "blob_versioned_hashes"@,
    ]
}

/// Whether `row` is the first of `rows` whose number of cells is not
/// `width`.
pub open spec fn first_ragged(rows: Seq<Vec<String>>, width: nat, row: int) -> bool {
    &&& 0 <= row < rows.len()
    &&& rows[row]@.len() != width
    &&& forall|j: int| 0 <= j < row ==> (#[trigger] rows[j])@.len() == width
}

/// Whether every one of `rows` has `width` cells.
pub open spec fn all_of_width(rows: Seq<Vec<String>>, width: nat) -> bool {
    forall|j: int| 0 <= j < rows.len() ==> (#[trigger] rows[j])@.len() == width
}

/// What a stream yields for `rows` once they are encoded: nothing if it is
/// switched off, else their bytes.
pub open spec fn stream_output(enabled: bool, rows: Seq<Vec<String>>, out: Option<Vec<u8>>) -> bool {
    if enabled {
        out matches Some(bytes) && bytes@ == rows_bytes(row_texts(rows))
    } else {
        out is None
    }
}

/// Writes one record with a fresh `csv::Writer` over a byte vector
/// (`Writer::from_writer`, `write_record`, `flush`, `get_ref`) and hands the
/// bytes out. The contract claims that this succeeds: the first record of a
/// writer sets the number of fields that the writer expects, and writing
/// into a byte vector does not fail. It names what was written: the bytes
/// depend on the fields alone.
#[verifier::external_body]
fn encode_record(fields: &Vec<String>) -> (r: Result<Vec<u8>, csv::Error>)
    ensures
        r is Ok,
        r matches Ok(bytes) ==> bytes@ == csv_record_bytes(texts(fields@)),
{
    let mut writer = csv::Writer::from_writer(Vec::new());
    writer.write_record(fields)?;
    writer.flush()?;
    Ok(writer.get_ref().clone())
}

/// Appends an encoded record to `out`. Where the encoding failed, `out`
/// stays as it is.
pub fn push_encoded(out: &mut Vec<u8>, encoded: Result<Vec<u8>, csv::Error>) -> (r: Result<
    (),
    SinkWriteError,
>)
    ensures
        match encoded {
            Ok(bytes) => r is Ok && final(out)@ == old(out)@ + bytes@,
            Err(_) => r == Err::<(), SinkWriteError>(SinkWriteError::Encoding) && final(out)@
                == old(out)@,
        },
{
    match encoded {
        Ok(mut bytes) => {
            out.append(&mut bytes);
            Ok(())
        },
        Err(_) => Err(SinkWriteError::Encoding),
    }
}

/// The first of `rows` whose number of cells is not `width`, if there is
/// one.
pub fn find_ragged(rows: &Vec<Vec<String>>, width: usize) -> (r: Option<usize>)
    ensures
        match r {
            Some(row) => first_ragged(rows@, width as nat, row as int),
            None => all_of_width(rows@, width as nat),
        },
{
    let mut i: usize = 0;
    while i < rows.len()
        invariant
            i <= rows.len(),
            forall|j: int| 0 <= j < i ==> (#[trigger] rows@[j])@.len() == width,
        decreases rows.len() - i,
    {
        if rows[i].len() != width {
            return Some(i);
        }
        i += 1;
    }
    None
}

/// Encodes `rows`, one record each, in order. Rows of any width are
/// encoded, and the call always succeeds.
pub fn encode_rows(rows: &Vec<Vec<String>>) -> (r: Result<Vec<u8>, SinkWriteError>)
    ensures
        r matches Ok(bytes) && bytes@ == rows_bytes(row_texts(rows@)),
{
    let mut out: Vec<u8> = Vec::new();
    let mut i: usize = 0;
    proof {
        assert(row_texts(rows@.take(0)) =~= Seq::<Seq<Seq<char>>>::empty());
    }
    while i < rows.len()
        invariant
            i <= rows.len(),
            out@ == rows_bytes(row_texts(rows@.take(i as int))),
        decreases rows.len() - i,
    {
        let encoded = encode_record(&rows[i]);
        let pushed = push_encoded(&mut out, encoded);
        if pushed.is_err() {
            return Err(SinkWriteError::Encoding);
        }
        proof {
            let next = row_texts(rows@.take(i + 1));
            assert(next.drop_last() =~= row_texts(rows@.take(i as int)));
            assert(next.last() == texts(rows@[i as int]@));
        }
        i += 1;
    }
    proof {
        assert(rows@.take(rows@.len() as int) =~= rows@);
    }
    Ok(out)
}

/// Appending rows and then more rows yields the bytes of the first followed
/// by the bytes of the second. The sink keeps no record of what it has
/// seen: the same rows appended twice stand in the stream twice.
pub proof fn lemma_rows_bytes_concat(first: Seq<Seq<Seq<char>>>, second: Seq<Seq<Seq<char>>>)
    ensures
        rows_bytes(first + second) == rows_bytes(first) + rows_bytes(second),
    decreases second.len(),
{
    if second.len() == 0 {
        assert(first + second =~= first);
        assert(rows_bytes(first) + rows_bytes(second) =~= rows_bytes(first));
    } else {
        lemma_rows_bytes_concat(first, second.drop_last());
        assert((first + second).drop_last() =~= first + second.drop_last());
        assert((first + second).last() == second.last());
        assert(rows_bytes(first + second) =~= rows_bytes(first) + rows_bytes(second));
    }
}

/// The column names of the block stream.
pub fn block_columns() -> (row: Vec<String>)
    ensures
        texts(row@) == block_header(),
        row@.len() == BLOCK_COLUMNS,
{
    let mut row: Vec<String> = Vec::new();
    row.push(String::from_str("number"));
    row.push(String::from_str("hash"));
    row.push(String::from_str("parent_hash"));
    row.push(String::from_str("nonce"));
    row.push(String::from_str("sha3_uncles"));
    row.push(String::from_str("logs_bloom"));
    row.push(String::from_str("transactions_root"));
    row.push(String::from_str("state_root"));
    row.push(String::from_str("receipts_root"));
    row.push(String::from_str("miner"));
    row.push(String::from_str("difficulty"));
    row.push(String::from_str("total_difficulty"));
    row.push(String::from_str("size"));
    row.push(String::from_str("extra_data"));
    row.push(String::from_str("gas_limit"));
    row.push(String::from_str("gas_used"));
    row.push(String::from_str("timestamp"));
    row.push(String::from_str("transaction_count"));
    row.push(String::from_str("base_fee_per_gas"));
    row.push(String::from_str("withdrawals_root"));
    row.push(String::from_str("blob_gas_used"));
    row.push(String::from_str("excess_blob_gas"));
    assert(texts(row@) =~= block_header());
    row
}

/// The column names of the transaction stream.
pub fn transaction_columns() -> (row: Vec<String>)
    ensures
        texts(row@) == transaction_header(),
        row@.len() == TRANSACTION_COLUMNS,
{
    let mut row: Vec<String> = Vec::new();
    row.push(String::from_str("hash"));
    row.push(String::from_str("nonce"));
    row.push(String::from_str("block_hash"));
    row.push(String::from_str("block_number"));
    row.push(String::from_str("transaction_index"));
    row.push(String::from_str("from_address"));
    row.push(String::from_str("to_address"));
    row.push(String::from_str("value"));
    row.push(String::from_str("gas"));
    row.push(String::from_str("gas_price"));
    row.push(String::from_str("input"));
    row.push(String::from_str("block_timestamp"));
    row.push(String::from_str("max_fee_per_gas"));
    row.push(String::from_str("max_priority_fee_per_gas"));
    row.push(String::from_str("transaction_type"));
    row.push(String::from_str("max_fee_per_blob_gas"));
    row.push(String::from_str("blob_versioned_hashes"));
    assert(texts(row@) =~= transaction_header());
    row
}

/// The sink of an export: which of its two streams are switched on.
#[derive(Debug, Clone, Copy, PartialEq, Eq, Structural)]
pub struct CsvExporter {
    pub blocks_enabled: bool,
    pub transactions_enabled: bool,
}

impl CsvExporter {
    /// A sink whose block stream is on where `blocks_output` is set, and
    /// whose transaction stream is on where `transactions_output` is.
    pub fn new(blocks_output: bool, transactions_output: bool) -> (e: Self)
        ensures
            e.blocks_enabled == blocks_output,
            e.transactions_enabled == transactions_output,
    {
        CsvExporter { blocks_enabled: blocks_output, transactions_enabled: transactions_output }
    }

    /// The header of each stream that is on: its column names as one
    /// record. A stream that is off gets none. The call always succeeds.
    pub fn header(&self) -> (r: Result<SinkOutput, SinkWriteError>)
        ensures
            r is Ok,
            match r {
                Ok(out) => {
                    &&& if self.blocks_enabled {
                        out.blocks matches Some(bytes) && bytes@ == csv_record_bytes(block_header())
                    } else {
                        out.blocks is None
                    }
                    &&& if self.transactions_enabled {
                        out.transactions matches Some(bytes) && bytes@ == csv_record_bytes(
                            transaction_header(),
                        )
                    } else {
                        out.transactions is None
                    }
                },
                Err(_) => false,
            },
    {
        let blocks = if self.blocks_enabled {
            let mut bytes: Vec<u8> = Vec::new();
            let encoded = encode_record(&block_columns());
            let pushed = push_encoded(&mut bytes, encoded);
            if pushed.is_err() {
                return Err(SinkWriteError::Encoding);
            }
            Some(bytes)
        } else {
            None
        };
        let transactions = if self.transactions_enabled {
            let mut bytes: Vec<u8> = Vec::new();
            let encoded = encode_record(&transaction_columns());
            let pushed = push_encoded(&mut bytes, encoded);
            if pushed.is_err() {
                return Err(SinkWriteError::Encoding);
            }
            Some(bytes)
        } else {
            None
        };
        Ok(SinkOutput { blocks, transactions })
    }

    /// The bytes to append to each stream for the given rows: one record
    /// per row, in the order given. A stream that is off discards its rows
    /// unseen. The call succeeds exactly when every row of a stream that is
    /// on has as many cells as the stream has columns: else the first row
    /// that has not is reported, the block stream's before the transaction
    /// stream's, and nothing is yielded.
    pub fn export_blocks_and_transactions(
        &self,
        blocks: &Vec<Vec<String>>,
        transactions: &Vec<Vec<String>>,
    ) -> (r: Result<SinkOutput, SinkWriteError>)
        ensures
            r is Ok <==> (self.blocks_enabled ==> all_of_width(blocks@, BLOCK_COLUMNS as nat))
                && (self.transactions_enabled ==> all_of_width(
                transactions@,
                TRANSACTION_COLUMNS as nat,
            )),
            match r {
                Ok(out) => {
                    &&& self.blocks_enabled ==> all_of_width(blocks@, BLOCK_COLUMNS as nat)
                    &&& self.transactions_enabled ==> all_of_width(
                        transactions@,
                        TRANSACTION_COLUMNS as nat,
                    )
                    &&& stream_output(self.blocks_enabled, blocks@, out.blocks)
                    &&& stream_output(self.transactions_enabled, transactions@, out.transactions)
                },
                Err(SinkWriteError::UnequalLengths { expected_len, len, row }) => {
                    if self.blocks_enabled && !all_of_width(blocks@, BLOCK_COLUMNS as nat) {
                        &&& expected_len == BLOCK_COLUMNS
                        &&& first_ragged(blocks@, BLOCK_COLUMNS as nat, row as int)
                        &&& len == blocks@[row as int]@.len()
                    } else {
                        &&& self.transactions_enabled
                        &&& expected_len == TRANSACTION_COLUMNS
                        &&& first_ragged(transactions@, TRANSACTION_COLUMNS as nat, row as int)
                        &&& len == transactions@[row as int]@.len()
                    }
                },
                Err(SinkWriteError::Encoding) => false,
                Err(SinkWriteError::Io) => false,
            },
    {
        if self.blocks_enabled {
            if let Some(row) = find_ragged(blocks, BLOCK_COLUMNS) {
                return Err(
                    SinkWriteError::UnequalLengths {
                        expected_len: BLOCK_COLUMNS,
                        len: blocks[row].len(),
                        row,
                    },
                );
            }
        }
        if self.transactions_enabled {
            if let Some(row) = find_ragged(transactions, TRANSACTION_COLUMNS) {
                return Err(
                    SinkWriteError::UnequalLengths {
                        expected_len: TRANSACTION_COLUMNS,
                        len: transactions[row].len(),
                        row,
                    },
                );
            }
        }
        let block_bytes = if self.blocks_enabled {
            match encode_rows(blocks) {
                Ok(bytes) => Some(bytes),
                Err(_) => { return Err(SinkWriteError::Encoding); },
            }
        } else {
            None
        };
        let transaction_bytes = if self.transactions_enabled {
            match encode_rows(transactions) {
                Ok(bytes) => Some(bytes),
                Err(_) => { return Err(SinkWriteError::Encoding); },
            }
        } else {
            None
        };
        Ok(SinkOutput { blocks: block_bytes, transactions: transaction_bytes })
    }
}

} // verus!
