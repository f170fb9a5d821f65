//! The manager: units, their states, and the operations on them.

pub mod deps;
pub mod laws;
pub mod ops;
pub mod socket;
pub mod state;
pub mod unit_type;
