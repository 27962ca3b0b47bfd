//! Requests, retries, proxies and download planning.
pub mod headers;
pub mod progress;
pub mod proxy;
pub mod range;
pub mod request;
pub mod retry;
pub mod transfer;
