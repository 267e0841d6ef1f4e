//! Ingestion of a text document into a vector collection.
//!
//! A document is cut into sections at blank lines, each section is handed
//! to an embedding service, and every vector that comes back becomes a point
//! with a fresh identifier. The crate holds the decisions of that process;
//! the calls to the services are made by the caller, who reports what came
//! back.

pub mod config;
pub mod ident;
pub mod number;
pub mod pipeline;
pub mod point;
pub mod response;
pub mod section;
pub mod text;
