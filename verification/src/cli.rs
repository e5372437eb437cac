//! The command surface: the one command of the tool and its options.

use crate::exporters::CsvExporter;
use crate::jobs::{valid_config, ConfigError, ExportBlocksJob};
use crate::utils::TrackerState;
use vstd::prelude::*;

verus! {

/// The block that an export starts at where none is given.
pub const DEFAULT_START_BLOCK: u64 = 0;

/// The batch size where none is given.
pub const DEFAULT_BATCH_SIZE: u64 = 100;

/// The number of workers where none is given.
pub const DEFAULT_MAX_WORKERS: usize = 5;

/// The command line as a whole.
#[derive(Debug, Clone)]
pub struct Cli {
    pub command: Commands,
}

/// The commands of the tool.
#[derive(Debug, Clone)]
pub enum Commands {
    /// Exports the blocks from `start_block` to `end_block`, both
    /// included, and their transactions. A stream without an output path is
    /// switched off.
    ExportBlocksAndTransactions {
        start_block: u64,
        end_block: u64,
        batch_size: u64,
        provider_uri: String,
        max_workers: usize,
        blocks_output: Option<String>,
        transactions_output: Option<String>,
    },
}

impl Commands {
    /// An export up to `end_block` from the provider at `provider_uri`, with
    /// every other option at its default and both streams off.
    pub fn export_with_defaults(end_block: u64, provider_uri: String) -> (c: Commands)
        ensures
            c == (Commands::ExportBlocksAndTransactions {
                start_block: DEFAULT_START_BLOCK,
                end_block,
                batch_size: DEFAULT_BATCH_SIZE,
                provider_uri,
                max_workers: DEFAULT_MAX_WORKERS,
                blocks_output: None,
                transactions_output: None,
            }),
    {
        Commands::ExportBlocksAndTransactions {
            start_block: DEFAULT_START_BLOCK,
            end_block,
            batch_size: DEFAULT_BATCH_SIZE,
            provider_uri,
            max_workers: DEFAULT_MAX_WORKERS,
            blocks_output: None,
            transactions_output: None,
        }
    }

    /// The sink of the command: a stream is on exactly where its output
    /// path is given.
    pub fn exporter(&self) -> (e: CsvExporter)
        ensures
            match *self {
                Commands::ExportBlocksAndTransactions {
                    blocks_output,
                    transactions_output,
                    ..
                } => e.blocks_enabled == blocks_output.is_some() && e.transactions_enabled
                    == transactions_output.is_some(),
            },
    {
        match self {
            Commands::ExportBlocksAndTransactions { blocks_output, transactions_output, .. } => {
                CsvExporter::new(blocks_output.is_some(), transactions_output.is_some())
            },
        }
    }

    /// The job of the command, or what is wrong with its numbers.
    pub fn job(&self) -> (r: Result<ExportBlocksJob, ConfigError>)
        ensures
            match *self {
                Commands::ExportBlocksAndTransactions {
                    start_block,
                    end_block,
                    batch_size,
                    max_workers,
                    blocks_output,
                    transactions_output,
                    ..
                } => match r {
                    Ok(job) => {
                        &&& valid_config(start_block, end_block, batch_size, max_workers)
                        &&& job@.wf()
                        &&& job@.fresh()
                        &&& job@.start_block == start_block
                        &&& job@.end_block == end_block
                        &&& job@.batch_size == batch_size
                        &&& job@.max_workers == max_workers
                        &&& job@.exporter.blocks_enabled == blocks_output.is_some()
                        &&& job@.exporter.transactions_enabled == transactions_output.is_some()
                        &&& job@.progress.state == TrackerState::Idle
                    },
                    Err(e) => !valid_config(start_block, end_block, batch_size, max_workers) && e
                        == (if batch_size == 0 {
                        ConfigError::ZeroBatchSize
                    } else if max_workers == 0 {
                        ConfigError::ZeroWorkers
                    } else {
                        ConfigError::RangeTooLarge
                    }),
                },
            },
    {
        let exporter = self.exporter();
        match self {
            Commands::ExportBlocksAndTransactions {
                start_block,
                end_block,
                batch_size,
                max_workers,
                ..
            } => ExportBlocksJob::try_new(
                *start_block,
                *end_block,
                *batch_size,
                *max_workers,
                exporter,
            ),
        }
    }
}

} // verus!
