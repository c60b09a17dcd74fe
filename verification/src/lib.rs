//! A Prometheus push gateway that merges pushed metrics instead of replacing
//! them: counters accumulate, histograms merge bucket-wise, gauges follow a
//! per-sample clear mode, and pushes can be routed across a consistent-hash
//! ring of peers.

pub mod aggregator;
pub mod clearmode;
pub mod clustering;
pub mod auth;
pub mod errors;
pub mod family;
pub mod ingest;
pub mod labels;
pub mod laws;
pub mod num;
pub mod parse;
pub mod pebble;
pub mod render;
pub mod value;

