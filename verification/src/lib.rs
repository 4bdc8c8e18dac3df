//! A structural fingerprint of a source-code repository: for every source
//! file the engine extracts declarations, computes per-declaration and
//! per-file content hashes, and folds them bottom-up into a single root
//! hash that changes exactly when the code's structural content changes.

pub mod analyze;
pub mod digest;
pub mod extract;
pub mod laws;
pub mod metrics;
pub mod parse;
pub mod records;
pub mod sort;
pub mod text;
pub mod tree;
