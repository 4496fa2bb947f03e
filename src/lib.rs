//! A desktop file-search daemon's indexing core: the path/facet codec, content
//! digests, text extraction, the document maintainer that keeps the index
//! consistent, and the decisions of the walker and the watcher.

pub mod analyzer;
pub mod config;
pub mod consistency;
pub mod digest;
pub mod document;
pub mod facet;
pub mod indexers;
pub mod maintainer;
pub mod paths;
pub mod record;
pub mod searcher;
pub mod text;
pub mod watcher;
