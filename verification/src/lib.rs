//! Core of a job orchestrator for a rollup proving pipeline: the job record
//! and its lifecycle, an optimistic job store, delayed work queues, the
//! lifecycle engine and the discovery workers.

pub mod config;
pub mod consumer;
pub mod decimal;
pub mod errors;
pub mod handler;
pub mod laws;
pub mod lifecycle;
pub mod metadata;
pub mod queue;
pub mod store;
pub mod text;
pub mod types;
pub mod workers;
