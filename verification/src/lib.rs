//! A local-first periodic job runner: jobs are kept in a byte-keyed store,
//! and a tick-driven scheduler decides which of them are due, lets them run
//! under a concurrency cap and records every outcome with exponential
//! backoff on failure.

pub mod cfg;
pub mod codec;
pub mod coremem;
pub mod format;
pub mod heartbeat;
pub mod job;
pub mod jobs;
pub mod json;
pub mod keys;
pub mod resolver;
pub mod runner;
pub mod scanner;
pub mod scheduler;
pub mod store;
pub mod trainer;
pub mod web;
