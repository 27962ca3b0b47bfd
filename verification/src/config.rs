//! Application settings: logging and request limits, with their defaults.
use vstd::prelude::*;

use crate::downloader::retry::{RetryPolicy, DEFAULT_MAX_RETRIES};
use crate::path::{file_name_of, parent_of, path_file_name, path_parent, strip_trailing_sep};
use crate::text::{chars_of, owned, string_of};
use crate::time::{duration_from_millis, duration_nanos};

verus! {

/// The settings file read at start-up.
pub const DEFAULT_CONFIG_PATH: &'static str = "config.toml";

/// The default number of requests in flight at once.
pub const DEFAULT_MAX_CONCURRENT_REQUESTS: usize = 16;

/// Where log lines go.
#[derive(Clone, Copy, Debug, PartialEq, Eq, Structural)]
pub enum LoggingTarget {
    Console,
    File,
}

/// How log lines are written.
#[derive(Clone, Copy, Debug, PartialEq, Eq, Structural)]
pub enum LoggingFormat {
    Console,
    Json,
}

impl Default for LoggingTarget {
    /// The console.
    fn default() -> (t: Self)
        ensures
            t == LoggingTarget::Console,
    {
        LoggingTarget::Console
    }
}

impl Default for LoggingFormat {
    /// Human-readable lines.
    fn default() -> (f: Self)
        ensures
            f == LoggingFormat::Console,
    {
        LoggingFormat::Console
    }
}

/// Logging settings.
#[derive(Clone, Debug, PartialEq, Eq)]
pub struct LoggingConfig {
    pub level: String,
    pub target: LoggingTarget,
    pub format: LoggingFormat,
    pub file_path: String,
    pub color: bool,
}

/// Request limits and retry settings.
#[derive(Clone, Copy, Debug, PartialEq, Eq, Structural)]
pub struct RequestConfig {
    pub max_concurrent_requests: usize,
    pub max_retries: usize,
    pub retry_base_delay_ms: u64,
    pub retry_max_delay_ms: u64,
    pub retry_jitter: bool,
}

/// All settings.
#[derive(Clone, Debug, PartialEq, Eq)]
pub struct AppConfig {
    pub logging: LoggingConfig,
    pub request: RequestConfig,
}

/// The default logging settings: level `info,llpha=debug`, colored console lines, and
/// `logs/llpha.log` as the file.
pub open spec fn default_logging(c: LoggingConfig) -> bool {
    &&& c.level@ == "info,llpha=debug"@
    &&& c.target == LoggingTarget::Console
    &&& c.format == LoggingFormat::Console
    &&& c.file_path@ == "logs/llpha.log"@
    &&& c.color
}

/// The default request settings: 16 requests at once, 3 retries, 300 ms to 5 s back-off
/// with jitter.
pub open spec fn default_request() -> RequestConfig {
    RequestConfig {
        max_concurrent_requests: DEFAULT_MAX_CONCURRENT_REQUESTS,
        max_retries: DEFAULT_MAX_RETRIES,
        retry_base_delay_ms: 300,
        retry_max_delay_ms: 5000,
        retry_jitter: true,
    }
}

impl Default for LoggingConfig {
    /// Level `info,llpha=debug`, colored console lines, `logs/llpha.log` as the file.
    fn default() -> (c: Self)
        ensures
            default_logging(c),
    {
        LoggingConfig {
            level: owned("info,llpha=debug"),
            target: LoggingTarget::Console,
            format: LoggingFormat::Console,
            file_path: owned("logs/llpha.log"),
            color: true,
        }
    }
}

impl Default for RequestConfig {
    /// 16 requests at once, 3 retries, 300 ms to 5 s back-off with jitter.
    fn default() -> (c: Self)
        ensures
            c == default_request(),
    {
        RequestConfig {
            max_concurrent_requests: DEFAULT_MAX_CONCURRENT_REQUESTS,
            max_retries: DEFAULT_MAX_RETRIES,
            retry_base_delay_ms: 300,
            retry_max_delay_ms: 5000,
            retry_jitter: true,
        }
    }
}

impl Default for AppConfig {
    /// The default logging and request settings.
    fn default() -> (c: Self)
        ensures
            default_logging(c.logging),
            c.request == default_request(),
    {
        AppConfig { logging: LoggingConfig::default(), request: RequestConfig::default() }
    }
}

impl RequestConfig {
    /// The retry policy of these settings: at most the default number of retries, and the
    /// configured delays and jitter.
    pub fn retry_policy(&self) -> (p: RetryPolicy)
        ensures
            p.max_retries == if self.max_retries < DEFAULT_MAX_RETRIES {
                self.max_retries
            } else {
                DEFAULT_MAX_RETRIES
            },
            duration_nanos(p.base_delay) == self.retry_base_delay_ms as nat * 1_000_000,
            duration_nanos(p.max_delay) == self.retry_max_delay_ms as nat * 1_000_000,
            p.jitter == self.retry_jitter,
    {
        let retries = if self.max_retries < DEFAULT_MAX_RETRIES {
            self.max_retries
        } else {
            DEFAULT_MAX_RETRIES
        };
        RetryPolicy::new(retries).with_base_delay(
            duration_from_millis(self.retry_base_delay_ms),
        ).with_max_delay(duration_from_millis(self.retry_max_delay_ms)).with_jitter(
            self.retry_jitter,
        )
    }
}

/// The directory of a log path: its parent, or `.` when it has none.
pub open spec fn log_dir(p: Seq<char>) -> Seq<char> {
    if path_parent(p).len() == 0 || strip_trailing_sep(p) == "/"@ {
        "."@
    } else {
        path_parent(p)
    }
}

/// The file name of a log path, or `llpha.log` when it has none.
pub open spec fn log_file_name(p: Seq<char>) -> Seq<char> {
    match path_file_name(p) {
        Some(n) => n,
        None => "llpha.log"@,
    }
}

/// Splits a log file path into its directory and its file name.
pub fn split_log_path(path: &str) -> (r: (String, String))
    ensures
        r.0@ == log_dir(path@),
        r.1@ == log_file_name(path@),
{
    let cs = chars_of(path);
    let parent = parent_of(&cs);
    let stripped_root = crate::path::is_root_after_strip(&cs);
    let dir = if parent.len() == 0 || stripped_root {
        owned(".")
    } else {
        string_of(&parent)
    };
    let name = match file_name_of(&cs) {
        Some(n) => string_of(&n),
        None => owned("llpha.log"),
    };
    (dir, name)
}

} // verus!
