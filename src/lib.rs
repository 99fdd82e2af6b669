//! Document chunking and embedding orchestration for an embedding service.
//!
//! The library splits documents into overlapping windows, flattens a batch
//! of documents into one inference call, reassembles the returned vectors per
//! document, resolves model identifiers against a model catalog and keeps the
//! currently active model.
pub mod chunking;
pub mod pipeline;
pub mod models;
pub mod state;
pub mod routes;
