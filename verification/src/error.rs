//! Reasons a library operation is refused.
use vstd::prelude::*;

verus! {

/// Reasons a library operation is refused.
#[derive(Clone, Copy, Debug, PartialEq, Eq, Structural)]
pub enum LlphaError {
    /// A header value holds a control character.
    InvalidHeaderValue,
    /// A header name is empty or holds a character that is not a token character.
    InvalidHeaderName,
    /// A random header strategy was given no profile.
    EmptyFakeProfiles,
    /// A search configuration has no base URL.
    SearchBaseUrlEmpty,
    /// A search configuration asks for zero results.
    SearchLimitZero,
    /// A search configuration allows zero pages.
    SearchMaxPagesZero,
    /// Some tasks of a pool failed.
    TaskFailures,
    /// Every engine of an aggregate search failed.
    AllEnginesFailed,
    /// A JSON document lacks a required non-empty string.
    JsonMissingString,
    /// A JSON document lacks a required array.
    JsonMissingArray,
    /// A URL could not be parsed.
    InvalidUrl,
    /// A CSS selector could not be parsed.
    InvalidSelector,
    /// A search mirror answered that it is rate limited.
    SearchRateLimited,
    /// A search API answer is not JSON of the expected shape.
    SearchInvalidJson,
    /// A search API answer has no usable result and reports engines that did not answer.
    SearchEnginesUnresponsive,
}

} // verus!
