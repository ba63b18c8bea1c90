//! An in-memory index of recent posts by author, fed by create and delete
//! events and queried by fan-out over a set of authors.

pub mod config;
pub mod post;
mod clock;
mod dash;
pub mod ordering;
pub mod retention;
pub mod store;
pub mod query;
pub mod service;
pub mod admission;
pub mod ingest;
pub mod filters;
pub mod stats;
pub mod worker;
