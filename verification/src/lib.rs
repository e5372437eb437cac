//! Batched export of blockchain blocks and transactions into tabular rows.

pub mod cli;
pub mod domain;
pub mod exporters;
pub mod jobs;
pub mod mappers;
pub mod providers;
pub mod text;
pub mod utils;
