//! Verified core of the LanceDB hybrid-search, I/O accounting and
//! observability helpers.

pub mod error;
pub mod hybrid;
pub mod io_stats;
pub mod lsm;
pub mod names;
pub mod profiling;
pub mod rerank;
pub mod text;
pub mod traceparent;
