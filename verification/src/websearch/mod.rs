//! Web search without APIs: results, configuration, and merging the answers of several engines.
pub mod aggregate;
pub mod config;
pub mod engines;
pub mod pages;
pub mod search;
pub mod types;
