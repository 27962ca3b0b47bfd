//! The search pages of each engine: their URLs, the requests that fetch them, and the
//! results read out of them.
use std::time::Duration;
use vstd::prelude::*;

use crate::analysis::html::{
    attr_value, elements_view, html_select_document, html_select_nested, join_texts, nested_view,
    select_in_document, select_nested_in_document, ElementView, HtmlElement,
};
use crate::analysis::json::{entry_value, JsonValue};
use crate::downloader::headers::{base_headers_spec, browser_page_headers, insert_header, HTML_ACCEPT};
use crate::downloader::request::{insert_header_spec, valid_header_value, FetchRequest, HttpMethod};
use crate::error::LlphaError;
use crate::text::{
    chars_eq_ignore_case, chars_of, collapse_ws, collapse_ws_str, decimal, decimal_string,
    eq_ignore_case, lower_seq, owned, starts_with, str_starts_with, string_of, trim, trim_str,
};
use crate::time::{as_nanos, duration_nanos};
use crate::url::{
    join_url, opt_text, parse_url, query_value, replace_query_pairs_fit, set_url_path_fit, url_join,
    url_parse, url_set_path_fit, url_with_query_pairs_fit,
};
use super::config::default_search_ping_timeout;
use super::engines::{http_url, is_http_url, rate_limited};
use super::aggregate::ResultView;
use super::types::{results_view, SearchEngineKind, SearchPage, SearchResult};

verus! {

/// The default Bing results page.
pub const DEFAULT_BING_BASE_URL: &'static str = "https://www.bing.com/search";

/// The default DuckDuckGo HTML results page.
pub const DEFAULT_DUCKDUCKGO_BASE_URL: &'static str = "https://duckduckgo.com/html/";

/// A public SearXNG instance, used when no other instance is configured.
pub const DEFAULT_SEARXNG_BASE_URL: &'static str = "https://priv.au/";

/// The absolute form of a result link: nothing for a blank link or a `#` link, else the link
/// resolved against the page URL.
pub open spec fn absolute_url_spec(page_url: Seq<char>, href: Seq<char>) -> Option<Seq<char>> {
    if trim(href).len() == 0 || starts_with(href, "#"@) {
        None
    } else {
        url_join(page_url, href)
    }
}

/// Resolves a link of a search page against the page URL.
pub fn absolute_url(page_url: &str, href: &str) -> (r: Option<String>)
    ensures
        opt_text(r) == absolute_url_spec(page_url@, href@),
{
    let t = trim_str(href);
    if chars_of(t.as_str()).len() == 0 || str_starts_with(href, "#") {
        return None;
    }
    join_url(page_url, href)
}

/// Collapses the whitespace of a text: its words joined by single spaces.
pub fn normalize_space(value: &str) -> (r: String)
    ensures
        r@ == collapse_ws(value@),
{
    collapse_ws_str(value)
}

/// The texts of a list of string pairs.
pub open spec fn pair_texts(v: Seq<(String, String)>) -> Seq<(Seq<char>, Seq<char>)> {
    v.map_values(|e: (String, String)| (e.0@, e.1@))
}

/// A search URL: the base URL, with its path replaced by `default_path` when it is `/`, and
/// its query replaced by the pairs; nothing when the base is no URL.
pub open spec fn search_url_spec(base_url: Seq<char>, default_path: Seq<char>, pairs: Seq<(Seq<char>, Seq<char>)>) -> Option<Seq<char>> {
    match url_parse(base_url) {
        None => None,
        Some(u) => {
            let with_path = if u.4 == "/"@ {
                url_set_path_fit(u.0, default_path)
            } else {
                Some(u.0)
            };
            match with_path {
                None => None,
                Some(w) => url_with_query_pairs_fit(w, pairs),
            }
        },
    }
}

/// Builds a search URL from a base URL, a path for bare hosts and the query pairs.
fn search_url(base_url: &str, default_path: &str, pairs: &Vec<(String, String)>) -> (r: Result<String, LlphaError>)
    ensures
        match search_url_spec(base_url@, default_path@, pair_texts(pairs@)) {
            Some(u) => r matches Ok(x) && x@ == u,
            None => r == Err::<String, LlphaError>(LlphaError::InvalidUrl),
        },
{
    let u = match parse_url(base_url) {
        Some(u) => u,
        None => return Err(LlphaError::InvalidUrl),
    };
    let with_path = if crate::text::str_eq(u.path.as_str(), "/") {
        match set_url_path_fit(u.serialization.as_str(), default_path) {
            Some(w) => w,
            None => return Err(LlphaError::InvalidUrl),
        }
    } else {
        u.serialization.clone()
    };
    match replace_query_pairs_fit(with_path.as_str(), pairs) {
        Some(x) => Ok(x),
        None => Err(LlphaError::InvalidUrl),
    }
}

fn text_pair(k: &str, v: String) -> (p: (String, String))
    ensures
        p.0@ == k@,
        p.1@ == v@,
{
    (owned(k), v)
}

/// The query of a Bing page: the terms, the page size (at most 50) and the first result.
pub open spec fn bing_pairs(query: Seq<char>, limit: nat, offset: nat) -> Seq<(Seq<char>, Seq<char>)> {
    seq![
        ("q"@, query),
        ("count"@, decimal(if limit < 50 { limit } else { 50 })),
        ("first"@, decimal(offset + 1)),
    ]
}

/// The URL of a Bing results page; a bare host gets the path `/search`.
pub fn bing_page_url(base_url: &str, query: &str, limit: usize, offset: usize) -> (r: Result<String, LlphaError>)
    requires
        offset < usize::MAX,
    ensures
        match search_url_spec(base_url@, "/search"@, bing_pairs(query@, limit as nat, offset as nat)) {
            Some(u) => r matches Ok(x) && x@ == u,
            None => r == Err::<String, LlphaError>(LlphaError::InvalidUrl),
        },
{
    let count: usize = if limit < 50 { limit } else { 50 };
    let pairs = vec![
        text_pair("q", owned(query)),
        text_pair("count", decimal_string(count)),
        text_pair("first", decimal_string(offset + 1)),
    ];
    assert(pair_texts(pairs@) =~= bing_pairs(query@, limit as nat, offset as nat));
    search_url(base_url, "/search", &pairs)
}

/// The query of a DuckDuckGo page: the terms and the offset of the first result.
pub open spec fn duckduckgo_pairs(query: Seq<char>, offset: nat) -> Seq<(Seq<char>, Seq<char>)> {
    seq![("q"@, query), ("s"@, decimal(offset))]
}

/// The URL of a DuckDuckGo HTML results page; a bare host gets the path `/html/`.
pub fn duckduckgo_page_url(base_url: &str, query: &str, offset: usize) -> (r: Result<String, LlphaError>)
    ensures
        match search_url_spec(base_url@, "/html/"@, duckduckgo_pairs(query@, offset as nat)) {
            Some(u) => r matches Ok(x) && x@ == u,
            None => r == Err::<String, LlphaError>(LlphaError::InvalidUrl),
        },
{
    let pairs = vec![text_pair("q", owned(query)), text_pair("s", decimal_string(offset))];
    assert(pair_texts(pairs@) =~= duckduckgo_pairs(query@, offset as nat));
    search_url(base_url, "/html/", &pairs)
}

/// The query of a SearXNG API page: the terms, general results in any language as JSON,
/// safe search off, and the page number counted from one.
pub open spec fn searxng_pairs(query: Seq<char>, page_index: nat) -> Seq<(Seq<char>, Seq<char>)> {
    seq![
        ("q"@, query),
        ("categories"@, "general"@),
        ("language"@, "auto"@),
        ("format"@, "json"@),
        ("safesearch"@, "0"@),
        ("pageno"@, decimal(page_index + 1)),
    ]
}

/// The URL of a SearXNG JSON API page; a bare host gets the path `/search`.
pub fn searxng_page_url(base_url: &str, query: &str, page_index: usize) -> (r: Result<String, LlphaError>)
    requires
        page_index < usize::MAX,
    ensures
        match search_url_spec(base_url@, "/search"@, searxng_pairs(query@, page_index as nat)) {
            Some(u) => r matches Ok(x) && x@ == u,
            None => r == Err::<String, LlphaError>(LlphaError::InvalidUrl),
        },
{
    let pairs = vec![
        text_pair("q", owned(query)),
        text_pair("categories", owned("general")),
        text_pair("language", owned("auto")),
        text_pair("format", owned("json")),
        text_pair("safesearch", owned("0")),
        text_pair("pageno", decimal_string(page_index + 1)),
    ];
    assert(pair_texts(pairs@) =~= searxng_pairs(query@, page_index as nat));
    search_url(base_url, "/search", &pairs)
}

/// The URL of a page of an engine: Bing counts results from `offset`, DuckDuckGo skips
/// `offset` results, SearXNG counts pages from `page_index`; `None` when the base URL is no URL.
pub open spec fn engine_page_url_spec(
    kind: SearchEngineKind,
    base_url: Seq<char>,
    query: Seq<char>,
    page_index: nat,
    offset: nat,
    limit: nat,
) -> Option<Seq<char>> {
    match kind {
        SearchEngineKind::Bing => search_url_spec(base_url, "/search"@, bing_pairs(query, limit, offset)),
        SearchEngineKind::DuckDuckGo => search_url_spec(base_url, "/html/"@, duckduckgo_pairs(query, offset)),
        _ => search_url_spec(base_url, "/search"@, searxng_pairs(query, page_index)),
    }
}

/// The URL of a page of an engine (see [`engine_page_url_spec`]).
pub fn engine_page_url(
    kind: SearchEngineKind,
    base_url: &str,
    query: &str,
    page_index: usize,
    offset: usize,
    limit: usize,
) -> (r: Result<String, LlphaError>)
    requires
        offset < usize::MAX,
        page_index < usize::MAX,
        kind != SearchEngineKind::Aggregate,
    ensures
        match engine_page_url_spec(kind, base_url@, query@, page_index as nat, offset as nat, limit as nat) {
            Some(u) => r matches Ok(x) && x@ == u,
            None => r == Err::<String, LlphaError>(LlphaError::InvalidUrl),
        },
{
    match kind {
        SearchEngineKind::Bing => bing_page_url(base_url, query, limit, offset),
        SearchEngineKind::DuckDuckGo => duckduckgo_page_url(base_url, query, offset),
        _ => searxng_page_url(base_url, query, page_index),
    }
}

/// The timeout of an availability probe: the search timeout, capped at three seconds.
pub fn ping_timeout(timeout: Duration) -> (d: Duration)
    ensures
        duration_nanos(d) == if duration_nanos(timeout) <= 3_000_000_000 {
            duration_nanos(timeout)
        } else {
            3_000_000_000
        },
{
    let probe = default_search_ping_timeout();
    if as_nanos(&timeout) <= as_nanos(&probe) {
        timeout
    } else {
        probe
    }
}

/// The headers of a search page request: a browser's page headers with the base URL as
/// referer.
pub open spec fn page_headers_spec(base_url: Seq<char>) -> Seq<(Seq<char>, Seq<char>)> {
    base_headers_spec(base_url).push(("accept"@, HTML_ACCEPT@))
}

/// The GET request of a search page, with a browser's headers and the timeout; refused when
/// the base URL cannot stand in a header.
pub fn page_request(base_url: &str, page_url: &str, timeout: Duration) -> (r: Result<FetchRequest, LlphaError>)
    ensures
        r is Ok <==> valid_header_value(base_url@),
        r is Err ==> r == Err::<FetchRequest, LlphaError>(LlphaError::InvalidHeaderValue),
        r matches Ok(q) ==> {
            &&& q.method == HttpMethod::Get
            &&& q.url@ == page_url@
            &&& q.body is None
            &&& q.options.headers@ == page_headers_spec(base_url@)
            &&& q.options.timeout == Some(timeout)
            &&& q.options.follow_redirects
        },
{
    let headers = browser_page_headers(base_url)?;
    Ok(FetchRequest::get(page_url).with_headers(headers).with_timeout(timeout))
}

/// The accept header of the SearXNG JSON API.
pub const SEARXNG_API_ACCEPT: &'static str = "application/json";

/// The headers of a SearXNG API request: the page headers with `accept` replaced by JSON.
pub open spec fn searxng_headers_spec(base_url: Seq<char>) -> Seq<(Seq<char>, Seq<char>)> {
    insert_header_spec(page_headers_spec(base_url), "accept"@, SEARXNG_API_ACCEPT@)
}

/// The GET request of a SearXNG API page: the page URL as the parser writes it out, a
/// browser's headers asking for JSON, and the timeout.
pub fn searxng_api_request(base_url: &str, page_url: &str, timeout: Duration) -> (r: Result<FetchRequest, LlphaError>)
    ensures
        url_parse(page_url@) is None ==> r == Err::<FetchRequest, LlphaError>(LlphaError::InvalidUrl),
        url_parse(page_url@) is Some && !valid_header_value(base_url@) ==> r == Err::<FetchRequest, LlphaError>(LlphaError::InvalidHeaderValue),
        r matches Ok(q) ==> {
            &&& url_parse(page_url@) matches Some(u) && q.url@ == u.0
            &&& q.method == HttpMethod::Get
            &&& q.body is None
            &&& q.options.headers@ == searxng_headers_spec(base_url@)
            &&& q.options.timeout == Some(timeout)
            &&& q.options.follow_redirects
        },
        url_parse(page_url@) is Some && valid_header_value(base_url@) ==> r is Ok,
{
    let u = match parse_url(page_url) {
        Some(u) => u,
        None => return Err(LlphaError::InvalidUrl),
    };
    let mut headers = browser_page_headers(base_url)?;
    proof {
        reveal_strlit("accept");
        reveal_strlit("application/json");
        crate::downloader::headers::lemma_accept_json_valid();
    }
    let _ = insert_header(&mut headers, "accept", SEARXNG_API_ACCEPT);
    Ok(FetchRequest::get(u.serialization.as_str()).with_headers(headers).with_timeout(timeout))
}


/// The text of an element: its text nodes joined by spaces, with whitespace collapsed.
pub open spec fn element_text(e: ElementView) -> Seq<char> {
    collapse_ws(join_texts(e.1, " "@))
}

/// The text of the first element of a list, or nothing.
pub open spec fn first_element_text(es: Seq<ElementView>) -> Seq<char> {
    if es.len() > 0 {
        element_text(es[0])
    } else {
        Seq::empty()
    }
}

/// The `href` of the first element that has one.
pub open spec fn first_href(es: Seq<ElementView>) -> Option<Seq<char>>
    decreases es.len(),
{
    if es.len() == 0 {
        None
    } else {
        match attr_value(es[0].0, "href"@) {
            Some(h) => Some(h),
            None => first_href(es.drop_first()),
        }
    }
}

/// The results that `f` keeps among the indices below `n`, in order.
pub open spec fn kept_results(f: spec_fn(int) -> Option<ResultView>, n: int) -> Seq<ResultView>
    decreases n,
{
    if n <= 0 {
        Seq::empty()
    } else {
        let prev = kept_results(f, n - 1);
        match f(n - 1) {
            Some(r) => prev.push(r),
            None => prev,
        }
    }
}

/// How an engine turns a result link into the result URL and which URLs it drops.
#[derive(Clone, Copy, Debug, PartialEq, Eq, Structural)]
pub enum LinkStyle {
    /// The link is the result URL (Bing).
    Direct,
    /// The link is a redirect carrying the URL in `uddg`, and ad redirects are dropped
    /// (DuckDuckGo).
    DuckDuckGo,
}

/// The target of a DuckDuckGo redirect: the `uddg` query value, else the link itself.
pub open spec fn clean_duckduckgo_url_spec(raw: Seq<char>) -> Seq<char> {
    match url_parse(raw) {
        Some(u) => match query_value(u.6, "uddg"@) {
            Some(v) => v,
            None => raw,
        },
        None => raw,
    }
}

/// A DuckDuckGo ad redirect: host `duckduckgo.com` and path `/y.js` (ignoring case).
pub open spec fn duckduckgo_ad_spec(url: Seq<char>) -> bool {
    match url_parse(url) {
        Some(u) => u.3 == Some("duckduckgo.com"@) && eq_ignore_case(u.4, "/y.js"@),
        None => false,
    }
}

/// The result of one result block: the first title link gives the title and, resolved, the
/// URL; dropped when the link or its target is missing, the title is empty, the URL is not
/// HTTP or (for DuckDuckGo) an ad; the snippet is the text of the first snippet element.
pub open spec fn block_result(
    style: LinkStyle,
    page_url: Seq<char>,
    links: Seq<ElementView>,
    snippets: Seq<ElementView>,
) -> Option<ResultView> {
    if links.len() == 0 {
        None
    } else {
        let title = element_text(links[0]);
        match attr_value(links[0].0, "href"@) {
            None => None,
            Some(h) => match absolute_url_spec(page_url, h) {
                None => None,
                Some(raw) => {
                    let url = match style {
                        LinkStyle::Direct => raw,
                        LinkStyle::DuckDuckGo => clean_duckduckgo_url_spec(raw),
                    };
                    if title.len() == 0 || !http_url(url) || (style == LinkStyle::DuckDuckGo
                        && duckduckgo_ad_spec(url)) {
                        None
                    } else {
                        Some((title, url, first_element_text(snippets)))
                    }
                },
            },
        }
    }
}

/// The results of the result blocks of a page; `titles` and `snippets` hold each block with
/// its title links and its snippet elements.
pub open spec fn page_results(
    style: LinkStyle,
    page_url: Seq<char>,
    titles: Seq<(ElementView, Seq<ElementView>)>,
    snippets: Seq<(ElementView, Seq<ElementView>)>,
) -> Seq<ResultView> {
    kept_results(
        |i: int|
            block_result(
                style,
                page_url,
                titles[i].1,
                if i < snippets.len() {
                    snippets[i].1
                } else {
                    Seq::empty()
                },
            ),
        titles.len() as int,
    )
}

/// Reads the result from a block's title links and snippet elements.
fn read_block(style: LinkStyle, page_url: &str, links: &Vec<HtmlElement>, snippets: &[HtmlElement]) -> (r: Option<SearchResult>)
    ensures
        match block_result(style, page_url@, elements_view(links@), elements_view(snippets@)) {
            Some(v) => r matches Some(x) && x@ == v,
            None => r is None,
        },
{
    if links.len() == 0 {
        return None;
    }
    assert(elements_view(links@)[0] == links@[0]@);
    let title = string_of(&crate::text::collapse_ws_chars(&links[0].joined_text(" ")));
    let href = match links[0].attr("href") {
        Some(h) => h,
        None => return None,
    };
    let raw = match absolute_url(page_url, href.as_str()) {
        Some(x) => x,
        None => return None,
    };
    let url = match style {
        LinkStyle::Direct => raw,
        LinkStyle::DuckDuckGo => clean_duckduckgo_url(raw.as_str()),
    };
    if chars_of(title.as_str()).len() == 0 || !is_http_url(url.as_str()) {
        return None;
    }
    if style == LinkStyle::DuckDuckGo && is_duckduckgo_ad_url(url.as_str()) {
        return None;
    }
    let snippet = if snippets.len() > 0 {
        assert(elements_view(snippets@)[0] == snippets@[0]@);
        string_of(&crate::text::collapse_ws_chars(&snippets[0].joined_text(" ")))
    } else {
        String::new()
    };
    Some(SearchResult { title, url, snippet })
}

/// Reads the results of the result blocks of a page.
fn read_blocks(
    style: LinkStyle,
    page_url: &str,
    titles: &Vec<(HtmlElement, Vec<HtmlElement>)>,
    snippets: &Vec<(HtmlElement, Vec<HtmlElement>)>,
) -> (r: Vec<SearchResult>)
    ensures
        results_view(r@) == page_results(style, page_url@, nested_view(titles@), nested_view(snippets@)),
{
    let ghost tv = nested_view(titles@);
    let ghost sv = nested_view(snippets@);
    let ghost f = |i: int|
        block_result(
            style,
            page_url@,
            tv[i].1,
            if i < sv.len() {
                sv[i].1
            } else {
                Seq::empty()
            },
        );
    let empty: Vec<HtmlElement> = Vec::new();
    let mut out: Vec<SearchResult> = Vec::new();
    let mut i: usize = 0;
    while i < titles.len()
        invariant
            i <= titles@.len(),
            tv == nested_view(titles@),
            sv == nested_view(snippets@),
            empty@.len() == 0,
            f == (|i: int|
                block_result(
                    style,
                    page_url@,
                    tv[i].1,
                    if i < sv.len() {
                        sv[i].1
                    } else {
                        Seq::empty()
                    },
                )),
            results_view(out@) == kept_results(f, i as int),
        decreases titles@.len() - i,
    {
        assert(tv[i as int].1 == elements_view(titles@[i as int].1@));
        let sn: &Vec<HtmlElement> = if i < snippets.len() {
            assert(sv[i as int].1 == elements_view(snippets@[i as int].1@));
            &snippets[i].1
        } else {
            assert(elements_view(empty@) =~= Seq::<ElementView>::empty());
            &empty
        };
        let item = read_block(style, page_url, &titles[i].1, sn);
        match item {
            Some(x) => {
                let ghost before = out@;
                out.push(x);
                assert(results_view(out@) =~= results_view(before).push(x@));
            },
            None => {},
        }
        i = i + 1;
    }
    out
}

/// Reads the target of a DuckDuckGo redirect.
pub fn clean_duckduckgo_url(raw_url: &str) -> (r: String)
    ensures
        r@ == clean_duckduckgo_url_spec(raw_url@),
{
    match parse_url(raw_url) {
        Some(u) => match u.query_value("uddg") {
            Some(v) => v,
            None => owned(raw_url),
        },
        None => owned(raw_url),
    }
}

/// Whether a URL is a DuckDuckGo ad redirect.
pub fn is_duckduckgo_ad_url(url: &str) -> (b: bool)
    ensures
        b == duckduckgo_ad_spec(url@),
{
    match parse_url(url) {
        Some(u) => {
            let host_ok = match &u.domain {
                Some(d) => crate::text::str_eq(d.as_str(), "duckduckgo.com"),
                None => false,
            };
            proof {
                reveal_strlit("duckduckgo.com");
            }
            host_ok && chars_eq_ignore_case(&chars_of(u.path.as_str()), &chars_of("/y.js"))
        },
        None => false,
    }
}

/// The resolved `href` of the first next-page link that has one.
pub open spec fn next_link_spec(nexts: Seq<ElementView>, page_url: Seq<char>) -> Option<Seq<char>> {
    match first_href(nexts) {
        Some(h) => absolute_url_spec(page_url, h),
        None => None,
    }
}

fn next_link(nexts: &Vec<HtmlElement>, page_url: &str) -> (r: Option<String>)
    ensures
        opt_text(r) == next_link_spec(elements_view(nexts@), page_url@),
{
    let ghost ev = elements_view(nexts@);
    let mut i: usize = 0;
    assert(ev.skip(0) =~= ev);
    while i < nexts.len()
        invariant
            i <= nexts@.len(),
            ev == elements_view(nexts@),
            first_href(ev) == first_href(ev.skip(i as int)),
        decreases nexts@.len() - i,
    {
        assert(ev.skip(i as int).drop_first() =~= ev.skip(i + 1));
        assert(ev.skip(i as int)[0] == nexts@[i as int]@);
        match nexts[i].attr("href") {
            Some(h) => return absolute_url(page_url, h.as_str()),
            None => {},
        }
        i = i + 1;
    }
    assert(ev.skip(i as int).len() == 0);
    None
}

/// The Bing selectors: result blocks, title links, snippets and next-page links.
pub const BING_RESULT_SELECTOR: &'static str = "li.b_algo";
pub const BING_TITLE_SELECTOR: &'static str = "h2 a";
pub const BING_SNIPPET_SELECTOR: &'static str = ".b_caption p, p";
pub const BING_NEXT_SELECTOR: &'static str = "a.sb_pagN, a[title='Next page'], a[aria-label='Next page']";

/// What a Bing results page holds: its results and its next-page link.
pub open spec fn bing_page_spec(html: Seq<char>, page_url: Seq<char>) -> Result<(Seq<ResultView>, Option<Seq<char>>), LlphaError> {
    match (
        html_select_nested(html, BING_RESULT_SELECTOR@, BING_TITLE_SELECTOR@),
        html_select_nested(html, BING_RESULT_SELECTOR@, BING_SNIPPET_SELECTOR@),
        html_select_document(html, BING_NEXT_SELECTOR@),
    ) {
        (Some(titles), Some(snippets), Some(nexts)) => Ok(
            (
                page_results(LinkStyle::Direct, page_url, titles, snippets),
                next_link_spec(nexts, page_url),
            ),
        ),
        _ => Err(LlphaError::InvalidSelector),
    }
}

/// Reads the results and the next-page link of a Bing results page.
pub fn parse_bing_page(html: &str, page_url: &str) -> (r: Result<SearchPage, LlphaError>)
    ensures
        match bing_page_spec(html@, page_url@) {
            Ok((rs, next)) => r matches Ok(p) && results_view(p.results@) == rs && opt_text(p.next_url) == next,
            Err(e) => r == Err::<SearchPage, LlphaError>(e),
        },
{
    let titles = select_nested_in_document(html, BING_RESULT_SELECTOR, BING_TITLE_SELECTOR);
    let snippets = select_nested_in_document(html, BING_RESULT_SELECTOR, BING_SNIPPET_SELECTOR);
    let nexts = select_in_document(html, BING_NEXT_SELECTOR);
    match (titles, snippets, nexts) {
        (Some(t), Some(s), Some(n)) => {
            let results = read_blocks(LinkStyle::Direct, page_url, &t, &s);
            let next_url = next_link(&n, page_url);
            Ok(SearchPage::new(results, next_url))
        },
        _ => Err(LlphaError::InvalidSelector),
    }
}

/// The DuckDuckGo selectors: result blocks, title links, snippets and next-page links.
pub const DUCKDUCKGO_RESULT_SELECTOR: &'static str = ".result";
pub const DUCKDUCKGO_TITLE_SELECTOR: &'static str = "a.result__a, h2 a";
pub const DUCKDUCKGO_SNIPPET_SELECTOR: &'static str = ".result__snippet, .result__body";
pub const DUCKDUCKGO_NEXT_SELECTOR: &'static str = "a.result--more__btn, a[rel='next']";

/// The named inputs of a form, each with its value (empty when it has none).
pub open spec fn form_inputs(es: Seq<ElementView>) -> Seq<(Seq<char>, Seq<char>)>
    decreases es.len(),
{
    if es.len() == 0 {
        Seq::empty()
    } else {
        let prev = form_inputs(es.drop_last());
        match attr_value(es.last().0, "name"@) {
            Some(n) => prev.push(
                (
                    n,
                    match attr_value(es.last().0, "value"@) {
                        Some(v) => v,
                        None => Seq::empty(),
                    },
                ),
            ),
            None => prev,
        }
    }
}

/// Whether some input is named `s` or `nextParams`.
pub open spec fn has_paging_input(inputs: Seq<(Seq<char>, Seq<char>)>) -> bool {
    exists|j: int| 0 <= j < inputs.len() && ((#[trigger] inputs[j]).0 == "s"@ || inputs[j].0 == "nextParams"@)
}

/// The next-page URL a form gives: its action (`/html/` when it has none) resolved against
/// the page, with its named inputs as the query; nothing when the form has no paging input.
pub open spec fn form_next_url(form: (ElementView, Seq<ElementView>), page_url: Seq<char>) -> Option<Seq<char>> {
    let action = match attr_value(form.0.0, "action"@) {
        Some(a) => a,
        None => "/html/"@,
    };
    match url_join(page_url, action) {
        None => None,
        Some(u) => {
            let inputs = form_inputs(form.1);
            if has_paging_input(inputs) {
                url_with_query_pairs_fit(u, inputs)
            } else {
                None
            }
        },
    }
}

/// The next-page URL of the first form that gives one.
pub open spec fn first_form_url(forms: Seq<(ElementView, Seq<ElementView>)>, page_url: Seq<char>) -> Option<Seq<char>>
    decreases forms.len(),
{
    if forms.len() == 0 {
        None
    } else {
        match form_next_url(forms[0], page_url) {
            Some(u) => Some(u),
            None => first_form_url(forms.drop_first(), page_url),
        }
    }
}

/// The next-page URL of a DuckDuckGo page's paging form, when there is one.
pub open spec fn next_form_spec(html: Seq<char>, page_url: Seq<char>) -> Option<Seq<char>> {
    match html_select_nested(html, "form"@, "input"@) {
        Some(forms) => first_form_url(forms, page_url),
        None => None,
    }
}

fn read_form_inputs(inputs: &Vec<HtmlElement>) -> (r: Vec<(String, String)>)
    ensures
        pair_texts(r@) == form_inputs(elements_view(inputs@)),
{
    let ghost ev = elements_view(inputs@);
    let mut out: Vec<(String, String)> = Vec::new();
    let mut i: usize = 0;
    while i < inputs.len()
        invariant
            i <= inputs@.len(),
            ev == elements_view(inputs@),
            pair_texts(out@) == form_inputs(ev.take(i as int)),
        decreases inputs@.len() - i,
    {
        proof {
            assert(ev.take(i + 1).drop_last() =~= ev.take(i as int));
            assert(ev.take(i + 1).last() == inputs@[i as int]@);
        }
        match inputs[i].attr("name") {
            Some(n) => {
                let v = match inputs[i].attr("value") {
                    Some(v) => v,
                    None => String::new(),
                };
                let ghost before = out@;
                out.push((n, v));
                assert(pair_texts(out@) =~= pair_texts(before).push((out@.last().0@, out@.last().1@)));
            },
            None => {},
        }
        i = i + 1;
    }
    assert(ev.take(inputs@.len() as int) =~= ev);
    out
}

fn has_paging(inputs: &Vec<(String, String)>) -> (b: bool)
    ensures
        b == has_paging_input(pair_texts(inputs@)),
{
    let ghost pv = pair_texts(inputs@);
    let mut i: usize = 0;
    while i < inputs.len()
        invariant
            i <= inputs@.len(),
            pv == pair_texts(inputs@),
            forall|j: int| 0 <= j < i ==> !((#[trigger] pv[j]).0 == "s"@ || pv[j].0 == "nextParams"@),
        decreases inputs@.len() - i,
    {
        assert(pv[i as int] == (inputs@[i as int].0@, inputs@[i as int].1@));
        if crate::text::str_eq(inputs[i].0.as_str(), "s") || crate::text::str_eq(inputs[i].0.as_str(), "nextParams") {
            return true;
        }
        i = i + 1;
    }
    false
}

fn form_url(form: &(HtmlElement, Vec<HtmlElement>), page_url: &str) -> (r: Option<String>)
    ensures
        opt_text(r) == form_next_url((form.0@, elements_view(form.1@)), page_url@),
{
    let action = match form.0.attr("action") {
        Some(a) => a,
        None => owned("/html/"),
    };
    let joined = match join_url(page_url, action.as_str()) {
        Some(u) => u,
        None => return None,
    };
    let inputs = read_form_inputs(&form.1);
    if has_paging(&inputs) {
        replace_query_pairs_fit(joined.as_str(), &inputs)
    } else {
        None
    }
}

/// Reads the next-page URL of a DuckDuckGo page's paging form.
fn parse_next_form(html: &str, page_url: &str) -> (r: Option<String>)
    ensures
        opt_text(r) == next_form_spec(html@, page_url@),
{
    let forms = match select_nested_in_document(html, "form", "input") {
        Some(f) => f,
        None => return None,
    };
    let ghost fv = nested_view(forms@);
    let mut i: usize = 0;
    assert(fv.skip(0) =~= fv);
    while i < forms.len()
        invariant
            i <= forms@.len(),
            fv == nested_view(forms@),
            html_select_nested(html@, "form"@, "input"@) == Some(fv),
            first_form_url(fv, page_url@) == first_form_url(fv.skip(i as int), page_url@),
        decreases forms@.len() - i,
    {
        assert(fv.skip(i as int).drop_first() =~= fv.skip(i + 1));
        assert(fv.skip(i as int)[0] == (forms@[i as int].0@, elements_view(forms@[i as int].1@)));
        match form_url(&forms[i], page_url) {
            Some(u) => return Some(u),
            None => {},
        }
        i = i + 1;
    }
    assert(fv.skip(i as int).len() == 0);
    None
}

/// What a DuckDuckGo results page holds: its results, and the next-page link, else the
/// paging form's URL.
pub open spec fn duckduckgo_page_spec(html: Seq<char>, page_url: Seq<char>) -> Result<(Seq<ResultView>, Option<Seq<char>>), LlphaError> {
    match (
        html_select_nested(html, DUCKDUCKGO_RESULT_SELECTOR@, DUCKDUCKGO_TITLE_SELECTOR@),
        html_select_nested(html, DUCKDUCKGO_RESULT_SELECTOR@, DUCKDUCKGO_SNIPPET_SELECTOR@),
        html_select_document(html, DUCKDUCKGO_NEXT_SELECTOR@),
    ) {
        (Some(titles), Some(snippets), Some(nexts)) => Ok(
            (
                page_results(LinkStyle::DuckDuckGo, page_url, titles, snippets),
                match next_link_spec(nexts, page_url) {
                    Some(u) => Some(u),
                    None => next_form_spec(html, page_url),
                },
            ),
        ),
        _ => Err(LlphaError::InvalidSelector),
    }
}

/// Reads the results and the next-page URL of a DuckDuckGo HTML results page.
pub fn parse_duckduckgo_page(html: &str, page_url: &str) -> (r: Result<SearchPage, LlphaError>)
    ensures
        match duckduckgo_page_spec(html@, page_url@) {
            Ok((rs, next)) => r matches Ok(p) && results_view(p.results@) == rs && opt_text(p.next_url) == next,
            Err(e) => r == Err::<SearchPage, LlphaError>(e),
        },
{
    let titles = select_nested_in_document(html, DUCKDUCKGO_RESULT_SELECTOR, DUCKDUCKGO_TITLE_SELECTOR);
    let snippets = select_nested_in_document(html, DUCKDUCKGO_RESULT_SELECTOR, DUCKDUCKGO_SNIPPET_SELECTOR);
    let nexts = select_in_document(html, DUCKDUCKGO_NEXT_SELECTOR);
    match (titles, snippets, nexts) {
        (Some(t), Some(s), Some(n)) => {
            let results = read_blocks(LinkStyle::DuckDuckGo, page_url, &t, &s);
            let next_url = match next_link(&n, page_url) {
                Some(u) => Some(u),
                None => parse_next_form(html, page_url),
            };
            Ok(SearchPage::new(results, next_url))
        },
        _ => Err(LlphaError::InvalidSelector),
    }
}


/// A result of the SearXNG JSON API: its title, URL and content, each absent, null or a
/// string.
pub type ApiItem = (Option<Seq<char>>, Option<Seq<char>>, Option<Seq<char>>);

/// An optional text field: absent or null is nothing, a string is its text; `None` (refused)
/// for any other value.
pub open spec fn text_field(v: Option<JsonValue>) -> Option<Option<Seq<char>>> {
    match v {
        None => Some(None),
        Some(JsonValue::Null) => Some(None),
        Some(JsonValue::String(s)) => Some(Some(s@)),
        Some(_) => None,
    }
}

/// The fields of one API result, from an object (other keys ignored) or from an array of
/// exactly three fields; `None` for any other shape.
pub open spec fn api_item(v: JsonValue) -> Option<ApiItem> {
    match v {
        JsonValue::Object(es) => match (
            text_field(entry_value(es@, "title"@)),
            text_field(entry_value(es@, "url"@)),
            text_field(entry_value(es@, "content"@)),
        ) {
            (Some(t), Some(u), Some(c)) => Some((t, u, c)),
            _ => None,
        },
        JsonValue::Array(xs) => if xs@.len() == 3 {
            match (text_field(Some(xs@[0])), text_field(Some(xs@[1])), text_field(Some(xs@[2]))) {
                (Some(t), Some(u), Some(c)) => Some((t, u, c)),
                _ => None,
            }
        } else {
            None
        },
        _ => None,
    }
}

/// The fields of every API result, or `None` when one has another shape.
pub open spec fn api_items(xs: Seq<JsonValue>) -> Option<Seq<ApiItem>>
    decreases xs.len(),
{
    if xs.len() == 0 {
        Some(Seq::empty())
    } else {
        match (api_items(xs.drop_last()), api_item(xs.last())) {
            (Some(prev), Some(it)) => Some(prev.push(it)),
            _ => None,
        }
    }
}

/// The results list of an answer: an array, or nothing when absent.
pub open spec fn results_field(v: Option<JsonValue>) -> Option<Seq<ApiItem>> {
    match v {
        None => Some(Seq::empty()),
        Some(JsonValue::Array(xs)) => api_items(xs@),
        Some(_) => None,
    }
}

/// The number of unresponsive engines of an answer: an array, or none when absent.
pub open spec fn unresponsive_field(v: Option<JsonValue>) -> Option<nat> {
    match v {
        None => Some(0),
        Some(JsonValue::Array(xs)) => Some(xs@.len()),
        Some(_) => None,
    }
}

/// An API answer read as `{results, unresponsive_engines}`: from an object, or from an array
/// of at most two fields in that order; `None` for any other shape.
pub open spec fn api_answer(v: JsonValue) -> Option<(Seq<ApiItem>, nat)> {
    let fields = match v {
        JsonValue::Object(es) => Some((entry_value(es@, "results"@), entry_value(es@, "unresponsive_engines"@))),
        JsonValue::Array(xs) => if xs@.len() <= 2 {
            Some((
                if xs@.len() >= 1 { Some(xs@[0]) } else { None },
                if xs@.len() >= 2 { Some(xs@[1]) } else { None },
            ))
        } else {
            None
        },
        _ => None,
    };
    match fields {
        None => None,
        Some((r, u)) => match (results_field(r), unresponsive_field(u)) {
            (Some(items), Some(n)) => Some((items, n)),
            _ => None,
        },
    }
}

/// A result URL still on the SearXNG instance: same domain as the page and a path under
/// `/search`.
pub open spec fn internal_url_spec(page_url: Seq<char>, url: Seq<char>) -> bool {
    match (url_parse(page_url), url_parse(url)) {
        (Some(p), Some(r)) => p.3 == r.3 && starts_with(r.4, "/search"@),
        _ => false,
    }
}

/// The search result of an API result: its whitespace-collapsed URL, which must be HTTP and
/// off the instance; its collapsed title, or the URL when that is empty; its collapsed
/// content.
pub open spec fn api_result(item: ApiItem, page_url: Seq<char>) -> Option<ResultView> {
    match item.1 {
        None => None,
        Some(raw) => {
            let url = collapse_ws(raw);
            if !http_url(url) || internal_url_spec(page_url, url) {
                None
            } else {
                let title = match item.0 {
                    Some(t) => if collapse_ws(t).len() > 0 {
                        collapse_ws(t)
                    } else {
                        url
                    },
                    None => url,
                };
                let snippet = match item.2 {
                    Some(c) => collapse_ws(c),
                    None => Seq::empty(),
                };
                Some((title, url, snippet))
            }
        },
    }
}

/// What a SearXNG API answer gives: refused when the body reports rate limiting, when it is
/// not JSON of the expected shape, or when no result is usable and some engines did not
/// answer; otherwise its usable results and no next page.
pub open spec fn searxng_answer_spec(body: Seq<char>, json: Option<JsonValue>, page_url: Seq<char>) -> Result<Seq<ResultView>, LlphaError> {
    if rate_limited(body) {
        Err(LlphaError::SearchRateLimited)
    } else {
        match json {
            None => Err(LlphaError::SearchInvalidJson),
            Some(v) => match api_answer(v) {
                None => Err(LlphaError::SearchInvalidJson),
                Some((items, n)) => {
                    let rs = kept_results(|i: int| api_result(items[i], page_url), items.len() as int);
                    if rs.len() == 0 && n > 0 {
                        Err(LlphaError::SearchEnginesUnresponsive)
                    } else {
                        Ok(rs)
                    }
                },
            },
        }
    }
}

fn read_text_field(v: Option<&JsonValue>) -> (r: Option<Option<String>>)
    ensures
        match text_field(match v { Some(x) => Some(*x), None => None }) {
            Some(o) => r matches Some(x) && opt_text(x) == o,
            None => r is None,
        },
{
    match v {
        None => Some(None),
        Some(JsonValue::Null) => Some(None),
        Some(JsonValue::String(s)) => Some(Some(s.clone())),
        Some(_) => None,
    }
}

/// An API item as owned texts.
type ItemTexts = (Option<String>, Option<String>, Option<String>);

fn read_api_item(v: &JsonValue) -> (r: Option<ItemTexts>)
    ensures
        match api_item(*v) {
            Some(it) => r matches Some(x) && opt_text(x.0) == it.0 && opt_text(x.1) == it.1 && opt_text(x.2) == it.2,
            None => r is None,
        },
{
    match v {
        JsonValue::Object(_) => {
            let t = read_text_field(v.get("title"))?;
            let u = read_text_field(v.get("url"))?;
            let c = read_text_field(v.get("content"))?;
            Some((t, u, c))
        },
        JsonValue::Array(xs) => {
            if xs.len() != 3 {
                return None;
            }
            let t = read_text_field(Some(&xs[0]))?;
            let u = read_text_field(Some(&xs[1]))?;
            let c = read_text_field(Some(&xs[2]))?;
            Some((t, u, c))
        },
        _ => None,
    }
}

/// Whether a result URL is still on the SearXNG instance.
pub fn is_internal_url(page_url: &str, result_url: &str) -> (b: bool)
    ensures
        b == internal_url_spec(page_url@, result_url@),
{
    let p = match parse_url(page_url) {
        Some(p) => p,
        None => return false,
    };
    let r = match parse_url(result_url) {
        Some(r) => r,
        None => return false,
    };
    let same_domain = match (&p.domain, &r.domain) {
        (Some(a), Some(b)) => crate::text::str_eq(a.as_str(), b.as_str()),
        (None, None) => true,
        _ => false,
    };
    same_domain && str_starts_with(r.path.as_str(), "/search")
}

fn convert_api_item(item: &ItemTexts, page_url: &str) -> (r: Option<SearchResult>)
    ensures
        match api_result((opt_text(item.0), opt_text(item.1), opt_text(item.2)), page_url@) {
            Some(v) => r matches Some(x) && x@ == v,
            None => r is None,
        },
{
    let raw = match &item.1 {
        Some(u) => u,
        None => return None,
    };
    let url = normalize_space(raw.as_str());
    if !is_http_url(url.as_str()) || is_internal_url(page_url, url.as_str()) {
        return None;
    }
    let title = match &item.0 {
        Some(t) => {
            let n = normalize_space(t.as_str());
            if chars_of(n.as_str()).len() > 0 {
                n
            } else {
                url.clone()
            }
        },
        None => url.clone(),
    };
    let snippet = match &item.2 {
        Some(c) => normalize_space(c.as_str()),
        None => String::new(),
    };
    Some(SearchResult { title, url, snippet })
}

fn read_api_items(xs: &Vec<JsonValue>) -> (r: Option<Vec<ItemTexts>>)
    ensures
        match api_items(xs@) {
            Some(its) => r matches Some(v) && v@.len() == its.len() && forall|k: int|
                0 <= k < its.len() ==> (opt_text(#[trigger] v@[k].0), opt_text(v@[k].1), opt_text(v@[k].2)) == its[k],
            None => r is None,
        },
{
    let mut out: Vec<ItemTexts> = Vec::new();
    let mut i: usize = 0;
    while i < xs.len()
        invariant
            i <= xs@.len(),
            api_items(xs@.take(i as int)) matches Some(its) && out@.len() == its.len() && forall|k: int|
                0 <= k < its.len() ==> (opt_text(#[trigger] out@[k].0), opt_text(out@[k].1), opt_text(out@[k].2)) == its[k],
        decreases xs@.len() - i,
    {
        proof {
            assert(xs@.take(i + 1).drop_last() =~= xs@.take(i as int));
            assert(xs@.take(i + 1).last() == xs@[i as int]);
        }
        let it = match read_api_item(&xs[i]) {
            Some(it) => it,
            None => {
                proof {
                    assert(api_items(xs@.take(i + 1)) is None);
                    lemma_api_items_prefix_none(xs@, i + 1);
                }
                return None;
            },
        };
        out.push(it);
        i = i + 1;
    }
    assert(xs@.take(xs@.len() as int) =~= xs@);
    Some(out)
}

/// Once a prefix of the results has a bad shape, so has the whole list.
proof fn lemma_api_items_prefix_none(xs: Seq<JsonValue>, n: int)
    requires
        0 <= n <= xs.len(),
        api_items(xs.take(n)) is None,
    ensures
        api_items(xs) is None,
    decreases xs.len() - n,
{
    if n < xs.len() {
        assert(xs.take(n + 1).drop_last() =~= xs.take(n));
        lemma_api_items_prefix_none(xs, n + 1);
    } else {
        assert(xs.take(n) =~= xs);
    }
}

fn read_results_field(v: Option<&JsonValue>) -> (r: Option<Vec<ItemTexts>>)
    ensures
        match results_field(match v { Some(x) => Some(*x), None => None }) {
            Some(its) => r matches Some(w) && w@.len() == its.len() && forall|k: int|
                0 <= k < its.len() ==> (opt_text(#[trigger] w@[k].0), opt_text(w@[k].1), opt_text(w@[k].2)) == its[k],
            None => r is None,
        },
{
    match v {
        None => Some(Vec::new()),
        Some(JsonValue::Array(xs)) => read_api_items(xs),
        Some(_) => None,
    }
}

fn read_unresponsive_field(v: Option<&JsonValue>) -> (r: Option<usize>)
    ensures
        match unresponsive_field(match v { Some(x) => Some(*x), None => None }) {
            Some(n) => r matches Some(k) && k == n,
            None => r is None,
        },
{
    match v {
        None => Some(0),
        Some(JsonValue::Array(xs)) => Some(xs.len()),
        Some(_) => None,
    }
}

/// Reads the results of a SearXNG JSON API answer. `json` is the body as parsed by a JSON
/// parser (`None` when it is not JSON); `body` is the raw text, checked for rate limiting
/// first.
pub fn parse_searxng_api_response(body: &str, json: Option<&JsonValue>, page_url: &str) -> (r: Result<SearchPage, LlphaError>)
    ensures
        match searxng_answer_spec(body@, match json { Some(x) => Some(*x), None => None }, page_url@) {
            Ok(rs) => r matches Ok(p) && results_view(p.results@) == rs && p.next_url is None,
            Err(e) => r == Err::<SearchPage, LlphaError>(e),
        },
{
    if super::engines::is_rate_limited_response(body) {
        return Err(LlphaError::SearchRateLimited);
    }
    let v = match json {
        Some(v) => v,
        None => return Err(LlphaError::SearchInvalidJson),
    };
    let (results_v, unresponsive_v) = match v {
        JsonValue::Object(_) => (v.get("results"), v.get("unresponsive_engines")),
        JsonValue::Array(xs) => {
            if xs.len() > 2 {
                return Err(LlphaError::SearchInvalidJson);
            }
            let a = if xs.len() >= 1 { Some(&xs[0]) } else { None };
            let b = if xs.len() >= 2 { Some(&xs[1]) } else { None };
            (a, b)
        },
        _ => return Err(LlphaError::SearchInvalidJson),
    };
    let items = match read_results_field(results_v) {
        Some(x) => x,
        None => return Err(LlphaError::SearchInvalidJson),
    };
    let unresponsive = match read_unresponsive_field(unresponsive_v) {
        Some(n) => n,
        None => return Err(LlphaError::SearchInvalidJson),
    };
    proof {
        let rv = match results_v {
            Some(x) => Some(*x),
            None => None,
        };
        let uv = match unresponsive_v {
            Some(x) => Some(*x),
            None => None,
        };
        assert(api_answer(*v) == match (results_field(rv), unresponsive_field(uv)) {
            (Some(a), Some(n)) => Some((a, n)),
            _ => None,
        });
        assert(api_answer(*v) matches Some((_, n)) && n == unresponsive);
    }
    let ghost its = match api_answer(*v) {
        Some((x, _)) => x,
        None => Seq::empty(),
    };
    let ghost f = |i: int| api_result(its[i], page_url@);
    let mut results: Vec<SearchResult> = Vec::new();
    let mut i: usize = 0;
    while i < items.len()
        invariant
            i <= items@.len(),
            items@.len() == its.len(),
            forall|k: int| 0 <= k < its.len() ==> (opt_text(#[trigger] items@[k].0), opt_text(items@[k].1), opt_text(items@[k].2)) == its[k],
            f == (|i: int| api_result(its[i], page_url@)),
            results_view(results@) == kept_results(f, i as int),
        decreases items@.len() - i,
    {
        assert((opt_text(items@[i as int].0), opt_text(items@[i as int].1), opt_text(items@[i as int].2)) == its[i as int]);
        match convert_api_item(&items[i], page_url) {
            Some(x) => {
                let ghost before = results@;
                results.push(x);
                assert(results_view(results@) =~= results_view(before).push(x@));
            },
            None => {},
        }
        i = i + 1;
    }
    if results.len() == 0 && unresponsive > 0 {
        return Err(LlphaError::SearchEnginesUnresponsive);
    }
    Ok(SearchPage::new(results, None))
}


/// The request that fetches a page of an engine: the SearXNG JSON API request for SearXNG,
/// the browser page request for the others.
pub fn engine_page_request(kind: SearchEngineKind, base_url: &str, page_url: &str, timeout: Duration) -> (r: Result<FetchRequest, LlphaError>)
    requires
        kind != SearchEngineKind::Aggregate,
    ensures
        kind == SearchEngineKind::SearxNg ==> match r {
            Ok(q) => url_parse(page_url@) matches Some(u) && q.url@ == u.0 && q.options.headers@ == searxng_headers_spec(base_url@)
                && q.options.timeout == Some(timeout) && q.method == HttpMethod::Get,
            Err(e) => e == LlphaError::InvalidUrl || e == LlphaError::InvalidHeaderValue,
        },
        kind != SearchEngineKind::SearxNg ==> match r {
            Ok(q) => q.url@ == page_url@ && q.options.headers@ == page_headers_spec(base_url@)
                && q.options.timeout == Some(timeout) && q.method == HttpMethod::Get,
            Err(e) => e == LlphaError::InvalidHeaderValue && !valid_header_value(base_url@),
        },
{
    match kind {
        SearchEngineKind::SearxNg => searxng_api_request(base_url, page_url, timeout),
        _ => page_request(base_url, page_url, timeout),
    }
}

/// Reads a fetched page of an engine. `json` is the body parsed as JSON, which only the
/// SearXNG API reads.
pub fn parse_engine_page(kind: SearchEngineKind, body: &str, json: Option<&JsonValue>, page_url: &str) -> (r: Result<SearchPage, LlphaError>)
    requires
        kind != SearchEngineKind::Aggregate,
    ensures
        kind == SearchEngineKind::Bing ==> match bing_page_spec(body@, page_url@) {
            Ok((rs, next)) => r matches Ok(p) && results_view(p.results@) == rs && opt_text(p.next_url) == next,
            Err(e) => r == Err::<SearchPage, LlphaError>(e),
        },
        kind == SearchEngineKind::DuckDuckGo ==> match duckduckgo_page_spec(body@, page_url@) {
            Ok((rs, next)) => r matches Ok(p) && results_view(p.results@) == rs && opt_text(p.next_url) == next,
            Err(e) => r == Err::<SearchPage, LlphaError>(e),
        },
        kind == SearchEngineKind::SearxNg ==> match searxng_answer_spec(body@, match json { Some(x) => Some(*x), None => None }, page_url@) {
            Ok(rs) => r matches Ok(p) && results_view(p.results@) == rs && p.next_url is None,
            Err(e) => r == Err::<SearchPage, LlphaError>(e),
        },
{
    match kind {
        SearchEngineKind::Bing => parse_bing_page(body, page_url),
        SearchEngineKind::DuckDuckGo => parse_duckduckgo_page(body, page_url),
        _ => parse_searxng_api_response(body, json, page_url),
    }
}

} // verus!
