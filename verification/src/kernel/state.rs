//! State trait for the kernel.
use vstd::prelude::*;

verus! {

/// Kernel state: cloneable and carrying a schema version for migrations.
pub trait KernelState: Clone {
    /// Schema version for state migration (1, 2, ...).
    fn version(&self) -> u32;
}

} // verus!
