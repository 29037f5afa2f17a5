//! A benchmark orchestration and verification core for a tabular storage
//! runtime: it plans a catalog of benchmark cases, drives warmup/measured
//! iterations with timing isolation, resolves SQL table dependencies
//! statically, aggregates scan instrumentation from a physical-plan tree,
//! checks case outcomes against declared assertions, and encodes a strictly
//! versioned result document.

pub mod assertions;
pub mod cli;
pub mod error;
pub mod manifests;
pub mod fixtures;
pub mod harness;
pub mod jsonval;
pub mod result_codec;
pub mod results;
pub mod scan_metrics;
pub mod sql_resolver;
pub mod sql_text;
pub mod storage;
pub mod strutil;
pub mod system;
pub mod suites;
