//! Reading fetched content: a JSON model and HTML extraction.
pub mod extract;
pub mod html;
pub mod json;
