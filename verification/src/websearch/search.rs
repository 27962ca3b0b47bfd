//! The paging loop of one engine's search, as a state that takes fetched pages.
use vstd::prelude::*;

use crate::text::{chars_of, decimal, owned, push_decimal, string_of};
use crate::url::opt_text;
use crate::websearch::aggregate::{has_url, take_distinct, ResultView};
use crate::websearch::config::SearchConfig;
use crate::websearch::pages::{engine_page_url, engine_page_url_spec};
use crate::error::LlphaError;
use crate::websearch::types::{results_view, SearchEngineKind, SearchPage, SearchPing, SearchResponse, SearchResult};

verus! {

/// What to fetch next: the page number, how many results are already kept, the base URL
/// in use, and the link to the next page that the previous page gave, if any.
#[derive(Clone, Debug)]
pub struct PageRequest {
    pub page_index: usize,
    pub offset: usize,
    pub base_url: String,
    pub next_url: Option<String>,
}

/// The state of a search between pages.
pub struct SearchProgress {
    results: Vec<SearchResult>,
    limit: usize,
    max_pages: usize,
    pages_fetched: usize,
    next_url: Option<String>,
    active_base_url: String,
    stopped: bool,
    absorbed: Ghost<Seq<ResultView>>,
}

impl SearchProgress {
    /// The results kept so far.
    pub closed spec fn kept(&self) -> Seq<ResultView> {
        results_view(self.results@)
    }

    /// Every result of the pages taken so far, in order.
    pub closed spec fn absorbed_view(&self) -> Seq<ResultView> {
        self.absorbed@
    }

    /// The number of pages taken.
    pub closed spec fn pages_view(&self) -> usize {
        self.pages_fetched
    }

    /// The result limit.
    pub closed spec fn limit_view(&self) -> usize {
        self.limit
    }

    /// The page limit.
    pub closed spec fn max_pages_view(&self) -> usize {
        self.max_pages
    }

    /// The base URL in use.
    pub closed spec fn base_url_view(&self) -> Seq<char> {
        self.active_base_url@
    }

    /// The link to the next page given by the last page.
    pub closed spec fn next_url_view(&self) -> Option<Seq<char>> {
        match self.next_url {
            Some(u) => Some(u@),
            None => None,
        }
    }

    /// The last page had no result and no link onward.
    pub closed spec fn stopped_view(&self) -> bool {
        self.stopped
    }

    /// No more page is fetched: the page limit or the result limit is reached, or the last
    /// page was empty with no link onward.
    pub open spec fn is_done(&self) -> bool {
        self.pages_view() >= self.max_pages_view() || self.kept().len() >= self.limit_view()
            || self.stopped_view()
    }

    /// A search of the configured engine, starting at its first base URL.
    pub fn start(config: &SearchConfig) -> (p: Self)
        requires
            config.base_urls@.len() > 0,
        ensures
            p.kept().len() == 0,
            p.absorbed_view().len() == 0,
            p.pages_view() == 0,
            p.limit_view() == config.limit,
            p.max_pages_view() == config.max_pages,
            p.base_url_view() == config.base_urls@[0]@,
            p.next_url_view() is None,
            !p.stopped_view(),
    {
        let p = SearchProgress {
            results: Vec::new(),
            limit: config.limit,
            max_pages: config.max_pages,
            pages_fetched: 0,
            next_url: None,
            active_base_url: config.base_urls[0].clone(),
            stopped: false,
            absorbed: Ghost(Seq::empty()),
        };
        assert(p.kept() =~= Seq::<ResultView>::empty());
        p
    }

    /// The next page to fetch, or `None` when the search is done.
    pub fn next_request(&self) -> (r: Option<PageRequest>)
        ensures
            self.is_done() <==> r is None,
            r matches Some(q) ==> {
                &&& q.page_index == self.pages_view()
                &&& q.offset == self.kept().len()
                &&& q.base_url@ == self.base_url_view()
                &&& match q.next_url {
                    Some(u) => self.next_url_view() == Some(u@),
                    None => self.next_url_view() is None,
                }
            },
    {
        if self.pages_fetched >= self.max_pages || self.results.len() >= self.limit
            || self.stopped {
            return None;
        }
        Some(
            PageRequest {
                page_index: self.pages_fetched,
                offset: self.results.len(),
                base_url: self.active_base_url.clone(),
                next_url: match &self.next_url {
                    Some(u) => Some(u.clone()),
                    None => None,
                },
            },
        )
    }

    fn url_kept(&self, url: &str) -> (b: bool)
        ensures
            b == has_url(self.kept(), url@),
    {
        let ghost v = self.kept();
        let mut i: usize = 0;
        while i < self.results.len()
            invariant
                i <= self.results@.len(),
                v == self.kept(),
                v == results_view(self.results@),
                forall|j: int| 0 <= j < i ==> v[j].1 != url@,
            decreases self.results@.len() - i,
        {
            if crate::text::str_eq(self.results[i].url.as_str(), url) {
                assert(v[i as int].1 == url@);
                return true;
            }
            i = i + 1;
        }
        false
    }

    /// Takes a fetched page and the base URL it came from: its results are kept in order,
    /// a URL seen before is skipped, and keeping stops at the limit; the page's link onward
    /// replaces the previous one; an empty page without a link ends the search.
    pub fn absorb(&mut self, base_url: String, page: SearchPage)
        requires
            !old(self).is_done(),
            old(self).kept() == take_distinct(old(self).absorbed_view(), old(self).limit_view() as nat),
        ensures
            final(self).absorbed_view() == old(self).absorbed_view() + results_view(page.results@),
            final(self).kept() == take_distinct(final(self).absorbed_view(), final(self).limit_view() as nat),
            final(self).pages_view() == old(self).pages_view() + 1,
            final(self).limit_view() == old(self).limit_view(),
            final(self).max_pages_view() == old(self).max_pages_view(),
            final(self).base_url_view() == base_url@,
            final(self).next_url_view() == (match page.next_url {
                Some(u) => Some(u@),
                None => None,
            }),
            final(self).stopped_view() == (page.next_url is None && page.results@.len() == 0),
    {
        let ghost a0 = self.absorbed@;
        let ghost pv = results_view(page.results@);
        let count = page.results.len();
        let mut i: usize = 0;
        while i < page.results.len()
            invariant
                i <= page.results@.len(),
                pv == results_view(page.results@),
                self.limit == old(self).limit,
                self.max_pages == old(self).max_pages,
                self.pages_fetched == old(self).pages_fetched,
                self.pages_fetched < self.max_pages,
                a0 == old(self).absorbed@,
                self.absorbed@ == a0 + pv.take(i as int),
                self.kept() == take_distinct(self.absorbed@, self.limit as nat),
            decreases page.results@.len() - i,
        {
            let r = &page.results[i];
            let ghost before = self.absorbed@;
            let ghost kept0 = self.kept();
            proof {
                self.absorbed = Ghost(before.push(r@));
                assert(a0 + pv.take(i as int + 1) =~= before.push(r@));
                assert(before.push(r@).drop_last() =~= before);
            }
            if self.results.len() < self.limit && !self.url_kept(r.url.as_str()) {
                self.results.push(r.copy());
                assert(self.kept() =~= kept0.push(r@));
            }
            i = i + 1;
        }
        assert(pv.take(i as int) =~= pv);
        self.pages_fetched = self.pages_fetched + 1;
        self.active_base_url = base_url;
        self.stopped = page.next_url.is_none() && count == 0;
        self.next_url = page.next_url;
    }

    /// The response once the search is done.
    pub fn finish(self, engine: SearchEngineKind, query: &str) -> (r: SearchResponse)
        ensures
            r.engine == engine,
            r.query@ == query@,
            results_view(r.results@) == self.kept(),
            r.pages_fetched == self.pages_view(),
    {
        SearchResponse {
            engine,
            query: owned(query),
            results: self.results,
            pages_fetched: self.pages_fetched,
        }
    }
}

/// The results kept from a list never exceed the limit and never repeat a URL.
pub proof fn lemma_take_distinct(s: Seq<ResultView>, limit: nat)
    ensures
        take_distinct(s, limit).len() <= limit || (limit == 0 && take_distinct(s, limit).len()
            == 0),
        forall|i: int, j: int|
            0 <= i < j < take_distinct(s, limit).len() ==> take_distinct(s, limit)[i].1
                != take_distinct(s, limit)[j].1,
    decreases s.len(),
{
    if s.len() > 0 {
        lemma_take_distinct(s.drop_last(), limit);
        let d = take_distinct(s.drop_last(), limit);
        if !(d.len() >= limit || has_url(d, s.last().1)) {
            let e = d.push(s.last());
            assert forall|i: int, j: int| 0 <= i < j < e.len() implies e[i].1 != e[j].1 by {
                if j == d.len() {
                    assert(e[i] == d[i]);
                }
            }
        }
    }
}


/// The message of a probe answered with a status other than 200; SearXNG instances name
/// themselves.
pub open spec fn ping_status_message(kind: SearchEngineKind, status: u16) -> Seq<char> {
    if kind == SearchEngineKind::SearxNg {
        "SearxNG ping 返回异常状态码: "@ + decimal(status as nat)
    } else {
        "搜索 ping 返回异常状态码: "@ + decimal(status as nat)
    }
}

/// The probe report of a base URL from its answer: unavailable when the status is not 200,
/// else available exactly when the page parsed, carrying the parser's message otherwise.
pub fn ping_from_answer(
    kind: SearchEngineKind,
    base_url: &str,
    status: u16,
    latency_ms: u128,
    parse_error: Option<String>,
) -> (p: SearchPing)
    ensures
        p.engine == kind,
        p.base_url@ == base_url@,
        p.status == Some(status),
        p.latency_ms == latency_ms,
        p.children@.len() == 0,
        status != 200 ==> !p.available && opt_text(p.error) == Some(ping_status_message(kind, status)),
        status == 200 ==> p.available == parse_error is None && opt_text(p.error) == opt_text(parse_error),
{
    if status != 200 {
        let mut msg = if kind == SearchEngineKind::SearxNg {
            chars_of("SearxNG ping 返回异常状态码: ")
        } else {
            chars_of("搜索 ping 返回异常状态码: ")
        };
        push_decimal(&mut msg, status as usize);
        return SearchPing::single(kind, false, owned(base_url), Some(status), latency_ms, Some(string_of(&msg)));
    }
    let available = parse_error.is_none();
    SearchPing::single(kind, available, owned(base_url), Some(status), latency_ms, parse_error)
}

/// The probe report of a base URL whose request failed: unavailable, with no status, the
/// time spent and the failure's message.
pub fn ping_from_failure(kind: SearchEngineKind, base_url: &str, latency_ms: u128, message: String) -> (p: SearchPing)
    ensures
        p.engine == kind,
        !p.available,
        p.base_url@ == base_url@,
        p.status is None,
        p.latency_ms == latency_ms,
        p.error == Some(message),
        p.children@.len() == 0,
{
    SearchPing::single(kind, false, owned(base_url), None, latency_ms, Some(message))
}

/// The message of an engine with no base URL to probe.
pub open spec fn no_base_url_message() -> Seq<char> {
    "搜索引擎未配置 base_url"@
}

/// The report of probing an engine's base URLs in turn, which stops at the first available
/// one: the last report taken, or, when none was taken, an unavailable report saying that
/// no base URL is configured.
pub fn ping_summary(kind: SearchEngineKind, last: Option<SearchPing>) -> (p: SearchPing)
    ensures
        last matches Some(l) ==> p == l,
        last is None ==> {
            &&& p.engine == kind
            &&& !p.available
            &&& p.base_url@.len() == 0
            &&& p.status is None
            &&& p.latency_ms == 0
            &&& opt_text(p.error) == Some(no_base_url_message())
        },
{
    match last {
        Some(l) => l,
        None => SearchPing::single(kind, false, String::new(), None, 0, Some(owned("搜索引擎未配置 base_url"))),
    }
}

/// The number of available reports.
pub open spec fn available_count(ps: Seq<SearchPing>) -> nat
    decreases ps.len(),
{
    if ps.len() == 0 {
        0
    } else {
        available_count(ps.drop_last()) + if ps.last().available {
            1nat
        } else {
            0nat
        }
    }
}

/// Whether enough mirrors answered: at least `goal` reports are available.
pub fn enough_available(pings: &Vec<SearchPing>, goal: usize) -> (b: bool)
    ensures
        b == (available_count(pings@) >= goal),
{
    let mut n: usize = 0;
    let mut i: usize = 0;
    while i < pings.len()
        invariant
            i <= pings@.len(),
            n == available_count(pings@.take(i as int)),
            n <= i,
        decreases pings@.len() - i,
    {
        proof {
            assert(pings@.take(i + 1).drop_last() =~= pings@.take(i as int));
        }
        if pings[i].available {
            n = n + 1;
        }
        i = i + 1;
    }
    assert(pings@.take(pings@.len() as int) =~= pings@);
    n >= goal
}

/// The base URL of the first available report, if any.
pub open spec fn first_available_url(ps: Seq<SearchPing>) -> Option<Seq<char>>
    decreases ps.len(),
{
    if ps.len() == 0 {
        None
    } else if ps[0].available {
        Some(ps[0].base_url@)
    } else {
        first_available_url(ps.drop_first())
    }
}

/// The base URLs a SearXNG search uses: all of them when there is at most one; otherwise
/// the first available mirror of the sorted probe reports, else the first configured one.
pub fn choose_base_urls(base_urls: &Vec<String>, sorted_pings: &Vec<SearchPing>) -> (r: Vec<String>)
    requires
        base_urls@.len() > 0,
    ensures
        base_urls@.len() <= 1 ==> r@ == base_urls@,
        base_urls@.len() > 1 ==> r@.len() == 1 && r@[0]@ == match first_available_url(sorted_pings@) {
            Some(u) => u,
            None => base_urls@[0]@,
        },
{
    if base_urls.len() <= 1 {
        return base_urls.clone();
    }
    let ghost ps = sorted_pings@;
    let mut i: usize = 0;
    assert(ps.skip(0) =~= ps);
    while i < sorted_pings.len()
        invariant
            i <= ps.len(),
            ps == sorted_pings@,
            base_urls@.len() > 1,
            first_available_url(ps) == first_available_url(ps.skip(i as int)),
        decreases ps.len() - i,
    {
        assert(ps.skip(i as int).drop_first() =~= ps.skip(i + 1));
        assert(ps.skip(i as int)[0] == ps[i as int]);
        if sorted_pings[i].available {
            return vec![sorted_pings[i].base_url.clone()];
        }
        i = i + 1;
    }
    assert(ps.skip(i as int).len() == 0);
    vec![base_urls[0].clone()]
}

/// Whether probing goes on: fewer than `max_candidates` instances probed so far and fewer
/// than `goal` of them available.
pub fn keep_probing(pings: &Vec<SearchPing>, max_candidates: usize, goal: usize) -> (b: bool)
    ensures
        b == (pings@.len() < max_candidates && available_count(pings@) < goal),
{
    pings.len() < max_candidates && !enough_available(pings, goal)
}

/// How many ways there are to fetch a requested page: the link given by the previous page,
/// if any, then every base URL.
pub open spec fn attempt_count(next_url: Option<String>, bases: nat) -> int {
    (if next_url is Some {
        1int
    } else {
        0int
    }) + bases
}

/// The number of ways to fetch a requested page.
pub fn page_attempt_count(request: &PageRequest, base_urls: &Vec<String>) -> (n: usize)
    requires
        base_urls@.len() < usize::MAX,
    ensures
        n == attempt_count(request.next_url, base_urls@.len()),
{
    match &request.next_url {
        Some(_) => base_urls.len() + 1,
        None => base_urls.len(),
    }
}

/// The `k`-th way to fetch a requested page, as (base URL, page URL): the link given by the
/// previous page under the base URL in use comes first; then each base URL in order, with the
/// engine's own URL for the page, refused when the base URL is no URL.
pub fn page_attempt(
    kind: SearchEngineKind,
    request: &PageRequest,
    base_urls: &Vec<String>,
    query: &str,
    limit: usize,
    k: usize,
) -> (r: Result<(String, String), LlphaError>)
    requires
        kind != SearchEngineKind::Aggregate,
        request.offset < usize::MAX,
        request.page_index < usize::MAX,
        k < attempt_count(request.next_url, base_urls@.len()),
    ensures
        request.next_url matches Some(u) ==> (k == 0 ==> (r matches Ok((b, p)) && b@
            == request.base_url@ && p@ == u@)),
        ({
            let j = k - attempt_count(request.next_url, 0);
            j >= 0 ==> match engine_page_url_spec(
                kind,
                base_urls@[j]@,
                query@,
                request.page_index as nat,
                request.offset as nat,
                limit as nat,
            ) {
                Some(u) => r matches Ok((b, p)) && b@ == base_urls@[j]@ && p@ == u,
                None => r == Err::<(String, String), LlphaError>(LlphaError::InvalidUrl),
            }
        }),
{
    let j = match &request.next_url {
        Some(u) => {
            if k == 0 {
                return Ok((request.base_url.clone(), u.clone()));
            }
            k - 1
        },
        None => k,
    };
    let base = base_urls[j].clone();
    match engine_page_url(kind, base.as_str(), query, request.page_index, request.offset, limit) {
        Ok(u) => Ok((base, u)),
        Err(e) => Err(e),
    }
}

} // verus!
