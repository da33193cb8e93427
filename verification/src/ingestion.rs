//! The ingestion pipeline: recognising exports, expanding their archives,
//! parsing their files and linking their media.

pub mod detector;
pub mod extractor;
pub mod media_linker;
pub mod parser;
pub mod transcript;
