//! Latency benchmarks for message channels: the experiment matrix, the names
//! of its trials, the fixture that each trial is measured with, and the
//! reduction of the recorded samples to comparison tables.
//!
//! Measuring and reducing are two runs. The driver walks through the matrix
//! and hands each trial, under its name and with its fixture, to a timing
//! engine, which records samples. The aggregation walks through the same
//! matrix, reads the samples of each trial back under the same name, and
//! gathers one cell per trial; only a whole set of cells makes a result tree,
//! and only a result tree makes the reports.

pub mod aggregation;
pub mod decimal;
pub mod error;
pub mod fixture;
pub mod matrix;
pub mod naming;
pub mod number;
pub mod report;
pub mod results;
pub mod samples;
pub mod text;
