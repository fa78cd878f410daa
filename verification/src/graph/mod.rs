//! Graph execution support that does not need a compiled graph: node plugins.
pub mod plugin;
