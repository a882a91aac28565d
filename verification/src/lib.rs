//! Measurement core of a benchmark harness that compares two authenticated-tree
//! proof systems: reproducible input generation, size accounting, per-trial
//! bookkeeping, aggregation of trial measurements and rendering of result rows.
//!
//! The harness around this library times the proof systems and writes the
//! result log; the library decides what is measured, what a measurement
//! counts for, and what is written.

pub mod aggregate;
pub mod binary;
pub mod generator;
pub mod measure;
pub mod sink;
pub mod size;
pub mod text;
pub mod tree;
pub mod trial;
pub mod verkle;
