//! Llpha: a lightweight crawling toolkit with an ImgBB workflow, verified with Verus.
pub mod form;
pub mod ibb;
pub mod path;
pub mod plugin;
pub mod text;
pub mod websearch;
pub mod time;
pub mod url;
pub mod user_agents;
pub mod analysis;
pub mod collections;
pub mod config;
pub mod engine;
pub mod downloader;
pub mod error;
pub mod fake;
