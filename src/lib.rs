//! Ingestion of inscription-program transactions into a relational store.
//!
//! The library holds the decisions of the pipeline: which transactions carry
//! an inscription record and what that record holds, how a worker reacts to
//! what its queue and its store hand it, how connection settings resolve, and
//! the conflict rule of the upsert that persists a record.
pub mod config;
pub mod encoding;
pub mod extract;
pub mod record;
pub mod store;
pub mod worker;
