//! Turns a declarative game description into checked solver input: typed
//! reads over a nested document, a grammar for bet-sizing strings,
//! assembly of the immutable tree and card configurations, and a memory
//! gate that must clear before the engine may commit its buffers.

pub mod config;
pub mod decimal;
pub mod document;
pub mod errors;
pub mod gate;
pub mod sizing;
