//! Kernel: event log, reducer, snapshot, action, step, policy and driver.
pub mod event;
pub mod event_store;
pub mod reducer;
pub mod state;
pub mod policy;
pub mod snapshot;
pub mod step;
pub mod stubs;
pub mod driver;
pub mod timeline_fork;
pub mod graph_step;
