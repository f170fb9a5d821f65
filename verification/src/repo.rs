//! The unit repository: typed unit definitions, their text form, and the
//! decisions of the store that keeps them.

pub mod domain;
pub mod error;
pub mod laws;
pub mod store;
