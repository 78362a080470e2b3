//! Fleet version tracking: the data model of services and environments, field
//! extraction from status documents, and the deterministic aggregation of fetch
//! outcomes into an ordered report.

pub mod config;
pub mod extract;
pub mod json;
pub mod order;
pub mod runner;
pub mod timestamp;
pub mod types;
pub mod laws;
