//! Search configuration shared by every engine.
use std::time::Duration;
use vstd::prelude::*;

use crate::error::LlphaError;
use crate::text::owned;
use crate::time::{duration_from_secs, duration_nanos};

verus! {

/// The default number of results.
pub const DEFAULT_SEARCH_LIMIT: usize = 10;

/// The default number of pages fetched per query.
pub const DEFAULT_MAX_SEARCH_PAGES: usize = 5;

/// The default timeout of one search request: ten seconds.
pub fn default_search_timeout() -> (d: Duration)
    ensures
        duration_nanos(d) == 10_000_000_000,
{
    duration_from_secs(10)
}

/// The default timeout of an availability probe: three seconds.
pub fn default_search_ping_timeout() -> (d: Duration)
    ensures
        duration_nanos(d) == 3_000_000_000,
{
    duration_from_secs(3)
}

/// Where and how much to search.
#[derive(Debug)]
pub struct SearchConfig {
    pub base_urls: Vec<String>,
    pub limit: usize,
    pub timeout: Duration,
    pub max_pages: usize,
}

/// The base URLs as texts.
pub open spec fn urls_view(v: Seq<String>) -> Seq<Seq<char>> {
    v.map_values(|s: String| s@)
}

/// Why a configuration is unusable, checked in this order.
pub open spec fn config_error(c: SearchConfig) -> Option<LlphaError> {
    if c.base_urls@.len() == 0 {
        Some(LlphaError::SearchBaseUrlEmpty)
    } else if c.limit == 0 {
        Some(LlphaError::SearchLimitZero)
    } else if c.max_pages == 0 {
        Some(LlphaError::SearchMaxPagesZero)
    } else {
        None
    }
}

impl SearchConfig {
    /// One base URL, ten results, a ten-second timeout and five pages.
    pub fn new(default_base_url: &str) -> (c: Self)
        ensures
            urls_view(c.base_urls@) == seq![default_base_url@],
            c.limit == DEFAULT_SEARCH_LIMIT,
            duration_nanos(c.timeout) == 10_000_000_000,
            c.max_pages == DEFAULT_MAX_SEARCH_PAGES,
    {
        let mut base_urls: Vec<String> = Vec::new();
        base_urls.push(owned(default_base_url));
        let c = SearchConfig {
            base_urls,
            limit: DEFAULT_SEARCH_LIMIT,
            timeout: default_search_timeout(),
            max_pages: DEFAULT_MAX_SEARCH_PAGES,
        };
        assert(urls_view(c.base_urls@) =~= seq![default_base_url@]);
        c
    }

    /// Fails on an empty URL list, a zero limit or a zero page count.
    pub fn validate(&self) -> (r: Result<(), LlphaError>)
        ensures
            r == (match config_error(*self) {
                Some(e) => Err(e),
                None => Ok(()),
            }),
    {
        if self.base_urls.len() == 0 {
            return Err(LlphaError::SearchBaseUrlEmpty);
        }
        if self.limit == 0 {
            return Err(LlphaError::SearchLimitZero);
        }
        if self.max_pages == 0 {
            return Err(LlphaError::SearchMaxPagesZero);
        }
        Ok(())
    }

    /// A copy with the same settings.
    pub fn copy(&self) -> (c: Self)
        ensures
            urls_view(c.base_urls@) == urls_view(self.base_urls@),
            c.limit == self.limit,
            c.timeout == self.timeout,
            c.max_pages == self.max_pages,
    {
        let mut base_urls: Vec<String> = Vec::new();
        let mut i: usize = 0;
        while i < self.base_urls.len()
            invariant
                i <= self.base_urls@.len(),
                urls_view(base_urls@) == urls_view(self.base_urls@).take(i as int),
            decreases self.base_urls@.len() - i,
        {
            let u = self.base_urls[i].clone();
            let ghost before = urls_view(base_urls@);
            base_urls.push(u);
            assert(urls_view(base_urls@) =~= before.push(self.base_urls@[i as int]@));
            i = i + 1;
            assert(urls_view(base_urls@) =~= urls_view(self.base_urls@).take(i as int));
        }
        assert(urls_view(self.base_urls@).take(i as int) =~= urls_view(self.base_urls@));
        SearchConfig {
            base_urls,
            limit: self.limit,
            timeout: self.timeout,
            max_pages: self.max_pages,
        }
    }
}

/// Builds a [`SearchConfig`].
#[derive(Debug)]
pub struct SearchBuilder {
    config: SearchConfig,
}

impl SearchBuilder {
    /// A builder always holds a usable configuration: at least one URL, and a limit and a
    /// page count of at least one.
    #[verifier::type_invariant]
    spec fn always_builds(self) -> bool {
        config_error(self.config) is None
    }

    /// The configuration built so far.
    pub closed spec fn current(&self) -> SearchConfig {
        self.config
    }

    /// Starts from [`SearchConfig::new`].
    pub fn new(default_base_url: &str) -> (b: Self)
        ensures
            urls_view(b.current().base_urls@) == seq![default_base_url@],
            b.current().limit == DEFAULT_SEARCH_LIMIT,
            duration_nanos(b.current().timeout) == 10_000_000_000,
            b.current().max_pages == DEFAULT_MAX_SEARCH_PAGES,
    {
        let config = SearchConfig::new(default_base_url);
        assert(urls_view(config.base_urls@).len() == config.base_urls@.len());
        SearchBuilder { config }
    }

    /// Replaces the URL list by one URL.
    pub fn base_url(self, base_url: &str) -> (b: Self)
        ensures
            urls_view(b.current().base_urls@) == seq![base_url@],
            b.current().limit == self.current().limit,
            b.current().timeout == self.current().timeout,
            b.current().max_pages == self.current().max_pages,
    {
        proof {
            use_type_invariant(&self);
        }
        let mut config = self.config;
        let mut base_urls: Vec<String> = Vec::new();
        base_urls.push(owned(base_url));
        config.base_urls = base_urls;
        assert(urls_view(config.base_urls@) =~= seq![base_url@]);
        SearchBuilder { config }
    }

    /// Adds a fallback URL after the others.
    pub fn fallback_base_url(self, base_url: &str) -> (b: Self)
        ensures
            urls_view(b.current().base_urls@) == urls_view(self.current().base_urls@).push(
                base_url@,
            ),
            b.current().limit == self.current().limit,
            b.current().timeout == self.current().timeout,
            b.current().max_pages == self.current().max_pages,
    {
        proof {
            use_type_invariant(&self);
        }
        let mut config = self.config;
        let ghost before = urls_view(config.base_urls@);
        config.base_urls.push(owned(base_url));
        assert(urls_view(config.base_urls@) =~= before.push(base_url@));
        SearchBuilder { config }
    }

    /// Sets the number of results (at least one).
    pub fn limit(self, limit: usize) -> (b: Self)
        ensures
            b.current().limit == if limit == 0 {
                1
            } else {
                limit
            },
            b.current().base_urls == self.current().base_urls,
            b.current().timeout == self.current().timeout,
            b.current().max_pages == self.current().max_pages,
    {
        proof {
            use_type_invariant(&self);
        }
        let mut config = self.config;
        config.limit = if limit == 0 {
            1
        } else {
            limit
        };
        SearchBuilder { config }
    }

    /// Sets the timeout of one request.
    pub fn timeout(self, timeout: Duration) -> (b: Self)
        ensures
            b.current().timeout == timeout,
            b.current().base_urls == self.current().base_urls,
            b.current().limit == self.current().limit,
            b.current().max_pages == self.current().max_pages,
    {
        proof {
            use_type_invariant(&self);
        }
        let mut config = self.config;
        config.timeout = timeout;
        SearchBuilder { config }
    }

    /// Sets the number of pages (at least one).
    pub fn max_pages(self, max_pages: usize) -> (b: Self)
        ensures
            b.current().max_pages == if max_pages == 0 {
                1
            } else {
                max_pages
            },
            b.current().base_urls == self.current().base_urls,
            b.current().limit == self.current().limit,
            b.current().timeout == self.current().timeout,
    {
        proof {
            use_type_invariant(&self);
        }
        let mut config = self.config;
        config.max_pages = if max_pages == 0 {
            1
        } else {
            max_pages
        };
        SearchBuilder { config }
    }

    /// The configuration: a builder always builds, into a configuration that validates.
    pub fn build(self) -> (r: Result<SearchConfig, LlphaError>)
        ensures
            config_error(self.current()) is None,
            r == Ok::<SearchConfig, LlphaError>(self.current()),
    {
        proof {
            use_type_invariant(&self);
        }
        match self.config.validate() {
            Err(e) => Err(e),
            Ok(()) => Ok(self.config),
        }
    }
}

} // verus!
