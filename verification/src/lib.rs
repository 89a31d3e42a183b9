//! A delayed span logger.
//!
//! Messages of a span are held back until the span has been running for a while, and from then
//! on only one child of a span may print at a time.

pub mod ambient;
pub mod call_laws;
pub mod color;
pub mod history;
pub mod history_laws;
pub mod laws;
pub mod level;
pub mod logger;
pub mod logger_laws;
pub mod model;
pub mod outside;
pub mod preservation;
pub mod print_laws;
pub mod recorder;
pub mod registry;
pub mod report_laws;
pub mod request_laws;
pub mod state;
pub mod text;
pub mod text_laws;
pub mod trace;
pub mod tree_laws;
