//! What the manager decides of processes on Windows.

pub mod process;
