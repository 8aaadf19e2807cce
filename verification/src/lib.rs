//! Verified core of the BitVanes command-line ETL tool: file admission against an
//! idempotency manifest, pipeline configuration layering, format inference, chunk
//! bookkeeping and the terminal UI's state machine.

pub mod text;
pub mod hashing;
pub mod config;
pub mod paths;
pub mod format;
pub mod manifest;
pub mod chunks;
pub mod listing;
pub mod batch;
pub mod tui;
pub mod tui_laws;
pub mod display;
