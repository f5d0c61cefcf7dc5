//! An ordered change-propagation pipeline: raw replication-log entries are
//! decoded into typed change events and applied, in log order, to a
//! namespace-mapped downstream document index.
//!
//! The crate holds the pipeline's logic: the document model, the operation
//! decoder, the dispatch planner with a downstream index model, and the
//! driver's checkpoint and retry policy. Opening the log and talking to the
//! real index over the network are left to the surrounding program.

pub mod config;
pub mod driver;
pub mod elastic;
pub mod oplog;
pub mod types;
pub mod value;
