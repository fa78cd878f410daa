//! Verified core of a durable execution runtime for agent workloads.
use vstd::prelude::*;

pub mod agent;
pub mod graph;
pub mod hashing;
pub mod ids;
pub mod kernel;
pub mod paths;
pub mod plugins;
pub mod runtime;
pub mod sandbox;
pub mod spec;
pub mod text;

verus! {

} // verus!
