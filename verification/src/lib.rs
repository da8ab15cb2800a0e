//! A verified core for a real-time log viewer: parsing of log and
//! process-table lines, a process-name cache, and terminal layout.

pub mod record;
pub mod text;
pub mod parser;
pub mod data;
pub mod render;
