//! Verified core of a terminal system monitor: bounded sample histories,
//! the process table (sorting, filtering, selection), the keyboard state
//! machine, status texts and the parsing of process statistics.

pub mod text;
pub mod history;
pub mod process;
pub mod layout;
pub mod monitor;
pub mod laws;
pub mod key_laws;
