//! Incremental decoding of EBML-style tag streams.

pub mod vint;
pub mod payload;
pub mod tag;
pub mod reader;
pub mod laws;
pub mod schema;
