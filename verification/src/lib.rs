//! Benchmark harness logic for regex matching engines.
//!
//! The crate holds the protocol of one benchmark run: what a benchmark
//! description must look like, which workload each model name stands for,
//! how result counts are derived from what a matcher reports, how samples
//! are collected, and how they are written out.
pub mod text;
pub mod engine;
pub mod model;
pub mod benchmark;
pub mod workload;
pub mod sampler;
pub mod report;
pub mod cli;
