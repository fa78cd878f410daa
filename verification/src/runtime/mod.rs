//! Execution runtime control plane: scheduling decisions, leases, retries and recovery.
pub mod api;
pub mod attempt;
pub mod benchmark;
pub mod clock;
pub mod models;
pub mod observability;
pub mod recovery;
pub mod repository;
pub mod retry;
pub mod scheduler;
pub mod schema;
pub mod store;
