//! Repository intelligence: scanning decisions, heuristic parsing, graph building,
//! incremental index planning and context packs, with their contracts proved.

pub mod text;
pub mod hash;
pub mod ids;
pub mod model;
pub mod order;
pub mod paths;
pub mod resolve;
pub mod store;
pub mod impact;
pub mod rows;
pub mod matchers;
pub mod parser;
pub mod config;
pub mod ingest;
pub mod graph;
pub mod export;
pub mod context;
pub mod commands;
pub mod queries;
pub mod report;
