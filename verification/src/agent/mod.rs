//! Agent state for the kernel and checkpoints for human-in-the-loop resume.
pub mod checkpoint;
pub mod step;
