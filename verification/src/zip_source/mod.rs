//! Fetching package sources: archive safety checks, file names, registry URLs
//! and the decisions taken on the outcome of external tools.
pub mod decompiler;
pub mod error;
pub mod file_extractors;
pub mod paths;
pub mod pypi;
pub mod registry;
pub mod tools;
