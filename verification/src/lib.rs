//! Memoria: the verified core of a personal memory system that records
//! desktop activity, prepares its text for semantic indexing, groups it into
//! a timeline and links it in a knowledge graph.

pub mod external;
pub mod text;
pub mod processing;
pub mod storage;
pub mod metrics;
pub mod config;
pub mod timeline;
pub mod knowledge;
pub mod search;
pub mod embedding;
pub mod activity;
pub mod capture;
pub mod ipc;
