//! What the manager knows of the platform it runs on.

pub mod mount;
pub mod signal;
pub mod udev;
pub mod windows;
