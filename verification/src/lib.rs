//! Unit management logic.

pub mod binary64;
pub mod calendar;
pub mod cli;
pub mod client;
pub mod control;
pub mod daemon;
pub mod dbus;
pub mod enable;
pub mod expand;
pub mod ipc;
pub mod json;
pub mod log;
pub mod manager;
pub mod names;
pub mod order;
pub mod paths;
pub mod platform;
pub mod repo;
pub mod specifier;
pub mod storage;
pub mod table;
pub mod text;
pub mod timespan;
pub mod tui;
pub mod unit;
