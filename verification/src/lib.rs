//! An offline inspection library for JavaScript-engine heap snapshots.
//!
//! A snapshot is decoded once from a byte buffer into a [`dump::CoreDump`],
//! an immutable graph of nodes and directed edges with interned strings.
//! Queries over the snapshot arrive as expression trees, go through static
//! analysis, are rewritten into plan trees, and are executed against the
//! snapshot to produce values and streams.

pub mod ast;
pub mod breadth_first;
pub mod dump;
pub mod fun;
pub mod id_vec;
pub mod laws;
pub mod print;
pub mod query;
pub mod reader;
pub mod run;
pub mod shim;
pub mod stream;
pub mod value;
