//! An in-memory user record store: validated CRUD over a concurrent map,
//! bulk ingestion pipelines, a bounded-retry composite operation, CSV
//! export/import, and operation statistics.

pub mod model;
pub mod types;
pub mod numfmt;
pub mod textops;
pub mod store;
pub mod sysgen;
pub mod par;
pub mod csvio;
pub mod service;
pub mod bulk;
pub mod retry;
pub mod csvport;
pub mod laws;
