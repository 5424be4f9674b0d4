//! A harness for benchmarking nearest-neighbour search: how a data set is cut
//! into shards, which configurations a sweep visits, how the recall of a search
//! is scored against an exhaustive scan, and how each result is named and
//! recorded. Every function here is verified against its contract.

pub mod distance;
pub mod error;
pub mod metric;
pub mod orchestrate;
pub mod recall;
pub mod report;
pub mod shard;
pub mod sweep;
pub mod text;
