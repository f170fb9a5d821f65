//! Units: their files, interpreted.

pub mod parse;
pub mod value_laws;
pub mod values;
pub mod mount_path;
pub mod config;
pub mod accept;
pub mod laws;
