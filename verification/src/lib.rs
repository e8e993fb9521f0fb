//! Pruning configuration for a node: the command-line pruning arguments, the
//! receipts log filter syntax, and the prune configuration derived from them.

pub mod address;
pub mod args;
pub mod decimal;
pub mod laws;
pub mod receipts_log;
pub mod text;
pub mod types;
