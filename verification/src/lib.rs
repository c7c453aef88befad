//! Encrypted indexing and search coordination: documents are stored under
//! encrypted identifiers in a key-value store, submitted to a full-text index,
//! and resolved back to their content when a phrase query matches them.

pub mod doc;
pub mod store;
pub mod ingest;
pub mod search;
pub mod corpus;
pub mod summary;
