//! Ingestion of structured files into uniform rows, and their delivery in
//! batches to a table of a backing store.
//!
//! Every function here works on plain values: the caller reads files and
//! talks to the store, the library decides what the bytes mean and what is
//! sent.

pub mod aggregate;
pub mod avro_format;
pub mod catalog;
pub mod csv_format;
pub mod display_row;
pub mod loader;
pub mod metadata;
pub mod pipeline;
pub mod query_parser;
pub mod reader;
pub mod row;
pub mod sink;
pub mod text;
