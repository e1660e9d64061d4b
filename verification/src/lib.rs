//! A source-code symbol graph: identities, facts and edges kept in an
//! embedded key-value store, with queries over the stored graph.

pub mod annotations;
pub mod buildfiles;
pub mod cli;
pub mod commands;
pub mod cxx;
pub mod database;
pub mod discovery;
pub mod ingest;
pub mod json;
pub mod kv;
pub mod laws;
pub mod lsif;
pub mod models;
pub mod pattern;
pub mod records;
pub mod rust_scan;
pub mod rustlang;
pub mod scip;
pub mod stats;
pub mod scripts;
pub mod text;
pub mod viewer;
