//! everythingKB core library: the logic of a personal knowledge base that compiles
//! documents into an Open Knowledge Format wiki.

pub mod classifier;
pub mod compile;
pub mod config;
pub mod convert;
pub mod exclusions;
pub mod index;
pub mod ingest;
pub mod kb;
pub mod llm;
pub mod metadata;
pub mod paths;
pub mod pdf;
pub mod privacy;
pub mod query;
pub mod registry;
pub mod scanner;
pub mod sessions;
pub mod text;
pub mod visualize;
pub mod wiki;
