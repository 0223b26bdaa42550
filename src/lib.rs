//! A small embeddable full-text search engine: a store of independent
//! indexes, each holding documents with a free-text `title` and a
//! hierarchical `category` facet, searched by a text query, a facet
//! filter, both, or neither.

pub mod engine;
pub mod ids;
pub mod laws;
pub mod model;
pub mod plan;
pub mod store;
