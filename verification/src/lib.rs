//! Index of personal-data exports: the rules by which export archives are
//! recognised, parsed, reconciled, linked to media and paged out again.

pub mod db;
pub mod downloader;
pub mod error;
pub mod export;
pub mod html;
pub mod ingestion;
pub mod json;
pub mod models;
pub mod pipeline;
pub mod reconcile;
pub mod search;
pub mod storage;
pub mod text;
pub mod timeline;
pub mod timestamps;
