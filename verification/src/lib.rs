//! Keeps a search index synchronised with a relational system of record.
//!
//! The library holds the decisions of the synchroniser: how pooled handles are
//! handed out, in which order nodes are tried, how a full re-index and an
//! incremental cycle proceed, how raw rows become entities, and when a schedule
//! is due. Network and database calls are left to the caller, which performs
//! each action the library asks for and reports what happened.

pub mod error;
pub mod utils_module;
pub mod models;
pub mod services;
pub mod repository;
pub mod configuration;
pub mod controller;
