//! Depth-bounded crawl engine: the frontier of pending tasks, the set of
//! claimed URLs, the worker state machine, link extraction and the derivation
//! of storage paths.

pub mod task;
pub mod frontier;
pub mod visited;
pub mod text;
pub mod storage;
pub mod parser;
pub mod engine;
pub mod worker;
pub mod cli;
