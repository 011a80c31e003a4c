//! A read-only query engine over database files in the SQLite 3 on-disk
//! format: file-header decoding, table B-tree traversal, record decoding,
//! a small SQL front-end, and SELECT evaluation with optional WHERE.
//!
//! The library works on in-memory bytes; reading the file from disk and
//! printing results are left to the surrounding application.

pub mod util;
pub mod header;
pub mod lexer;
pub mod parser;
pub mod expression;
pub mod query;
pub mod render;
pub mod schema;
pub mod database;
pub mod record;
pub mod syntax;
pub mod tree;
pub mod varint;
