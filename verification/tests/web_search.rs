use std::time::Duration;

use llpha::analysis::json::JsonValue;
use llpha::downloader::request::HttpMethod;
use llpha::error::LlphaError;
use llpha::websearch::pages::{
    absolute_url, bing_page_url, clean_duckduckgo_url, duckduckgo_page_url, is_duckduckgo_ad_url,
    is_internal_url, normalize_space, page_request, parse_bing_page, parse_duckduckgo_page,
    parse_searxng_api_response, ping_timeout, searxng_api_request, searxng_page_url,
    DEFAULT_SEARXNG_BASE_URL,
};

fn to_json(v: &serde_json::Value) -> JsonValue {
    match v {
        serde_json::Value::Null => JsonValue::Null,
        serde_json::Value::Bool(b) => JsonValue::Bool(*b),
        serde_json::Value::Number(n) => JsonValue::Number(n.as_u64()),
        serde_json::Value::String(s) => JsonValue::String(s.clone()),
        serde_json::Value::Array(xs) => JsonValue::Array(xs.iter().map(to_json).collect()),
        serde_json::Value::Object(m) => {
            JsonValue::Object(m.iter().map(|(k, x)| (k.clone(), to_json(x))).collect())
        }
    }
}

fn parse_api(body: &str, page_url: &str) -> Result<llpha::websearch::types::SearchPage, LlphaError> {
    let json = serde_json::from_str::<serde_json::Value>(body).ok().map(|v| to_json(&v));
    parse_searxng_api_response(body, json.as_ref(), page_url)
}

#[test]
fn bing_page_url_builds_query() {
    let url = bing_page_url("https://www.bing.com/search", "rust async", 5, 0).unwrap();

    assert!(url.contains("q=rust+async") || url.contains("q=rust%20async"));
    assert!(url.contains("count=5"));
    assert!(url.contains("first=1"));
}

#[test]
fn bing_page_url_caps_count_and_adds_path() {
    let url = bing_page_url("https://www.bing.com/", "rust", 80, 10).unwrap();

    assert_eq!(url, "https://www.bing.com/search?q=rust&count=50&first=11");
    assert_eq!(bing_page_url("not a url", "rust", 5, 0), Err(LlphaError::InvalidUrl));
}

#[test]
fn bing_parser_extracts_results() {
    let html = r#"
        <html><body>
            <ol>
                <li class="b_algo">
                    <h2><a href="https://example.com/rust">Rust Lang</a></h2>
                    <div class="b_caption"><p>Rust language site.</p></div>
                </li>
            </ol>
            <a class="sb_pagN" href="/search?q=rust&first=11">Next</a>
        </body></html>
    "#;

    let page = parse_bing_page(html, "https://www.bing.com/search?q=rust").unwrap();

    assert_eq!(page.results.len(), 1);
    assert_eq!(page.results[0].title, "Rust Lang");
    assert_eq!(page.results[0].url, "https://example.com/rust");
    assert_eq!(page.results[0].snippet, "Rust language site.");
    assert!(page.next_url.unwrap().starts_with("https://www.bing.com/search"));
}

#[test]
fn bing_parser_skips_blocks_without_title() {
    let html = r#"
        <ol>
            <li class="b_algo"><h2><a href="https://example.com/a">  </a></h2></li>
            <li class="b_algo"><p>no link</p></li>
        </ol>
    "#;

    let page = parse_bing_page(html, "https://www.bing.com/search?q=rust").unwrap();

    assert!(page.results.is_empty());
    assert_eq!(page.next_url, None);
}

#[test]
fn duckduckgo_page_url_builds_query() {
    let url = duckduckgo_page_url("https://html.duckduckgo.com/html/", "rust async", 10).unwrap();

    assert!(url.contains("q=rust+async") || url.contains("q=rust%20async"));
    assert!(url.contains("s=10"));
}

#[test]
fn duckduckgo_parser_extracts_results() {
    let html = r#"
        <html><body>
            <div class="result">
                <h2><a class="result__a" href="/l/?uddg=https%3A%2F%2Fexample.com%2Frust">Rust Lang</a></h2>
                <a class="result__snippet">Rust language site.</a>
            </div>
            <form class="next_form" action="/html/">
                <input type="hidden" name="q" value="rust">
                <input type="hidden" name="s" value="30">
            </form>
        </body></html>
    "#;

    let page = parse_duckduckgo_page(html, "https://duckduckgo.com/html/?q=rust").unwrap();

    assert_eq!(page.results.len(), 1);
    assert_eq!(page.results[0].title, "Rust Lang");
    assert_eq!(page.results[0].url, "https://example.com/rust");
    assert!(page.next_url.unwrap().starts_with("https://duckduckgo.com/html/"));
}

#[test]
fn duckduckgo_next_form_carries_its_inputs() {
    let html = r#"
        <form action="/html/"><input name="q" value="rust"><input name="s" value="30"></form>
    "#;

    let page = parse_duckduckgo_page(html, "https://duckduckgo.com/html/?q=rust").unwrap();

    assert_eq!(page.next_url, Some("https://duckduckgo.com/html/?q=rust&s=30".to_string()));
}

#[test]
fn duckduckgo_parser_skips_ad_results() {
    let html = r#"
        <html><body>
            <div class="result">
                <h2><a class="result__a" href="/y.js?u3=https%3A%2F%2Fexample.com%2Fad">Ad Result</a></h2>
                <a class="result__snippet">ad</a>
            </div>
            <div class="result">
                <h2><a class="result__a" href="/l/?uddg=https%3A%2F%2Fexample.com%2Forganic">Organic Result</a></h2>
                <a class="result__snippet">organic</a>
            </div>
        </body></html>
    "#;

    let page = parse_duckduckgo_page(html, "https://duckduckgo.com/html/?q=rust").unwrap();

    assert_eq!(page.results.len(), 1);
    assert_eq!(page.results[0].title, "Organic Result");
}

#[test]
fn duckduckgo_redirect_and_ad_helpers() {
    assert_eq!(
        clean_duckduckgo_url("https://duckduckgo.com/l/?uddg=https%3A%2F%2Fexample.com%2Fx"),
        "https://example.com/x"
    );
    assert_eq!(clean_duckduckgo_url("https://example.com/plain"), "https://example.com/plain");
    assert!(is_duckduckgo_ad_url("https://duckduckgo.com/Y.JS?u3=x"));
    assert!(!is_duckduckgo_ad_url("https://example.com/y.js"));
}

#[test]
fn searxng_page_url_builds_query() {
    let url = searxng_page_url(DEFAULT_SEARXNG_BASE_URL, "rust async", 1).unwrap();

    assert!(url.contains("q=rust+async") || url.contains("q=rust%20async"));
    assert!(url.contains("categories=general"));
    assert!(url.contains("format=json"));
    assert!(url.contains("pageno=2"));
    assert!(url.starts_with("https://priv.au/search?"));
}

#[test]
fn searxng_page_request_uses_json_api() {
    let page_url = searxng_page_url(DEFAULT_SEARXNG_BASE_URL, "rust async", 0).unwrap();
    let request = searxng_api_request(DEFAULT_SEARXNG_BASE_URL, &page_url, Duration::from_secs(10)).unwrap();

    assert_eq!(request.method, HttpMethod::Get);
    assert!(request.url.contains("q=rust+async") || request.url.contains("q=rust%20async"));
    assert!(request.url.contains("format=json"));
    assert!(request.body.is_none());
    assert_eq!(request.options.headers.get("accept").unwrap(), "application/json");
    assert_eq!(request.options.timeout, Some(Duration::from_secs(10)));
}

#[test]
fn page_request_uses_browser_headers_and_timeout() {
    let request = page_request("https://www.bing.com/", "https://www.bing.com/search?q=a", Duration::from_secs(2)).unwrap();

    assert_eq!(request.url, "https://www.bing.com/search?q=a");
    assert_eq!(request.options.headers.get("referer").unwrap(), "https://www.bing.com/");
    assert_eq!(request.options.timeout, Some(Duration::from_secs(2)));
    assert_eq!(ping_timeout(Duration::from_secs(10)), Duration::from_secs(3));
    assert_eq!(ping_timeout(Duration::from_secs(1)), Duration::from_secs(1));
}

#[test]
fn searxng_api_parser_extracts_results() {
    let body = r#"
        {
          "query": "rust",
          "results": [
            {
              "title": " Rust Lang ",
              "url": "https://example.com/rust",
              "content": " Rust language site. "
            }
          ],
          "unresponsive_engines": []
        }
    "#;

    let page = parse_api(body, "https://searxng.website/search?q=rust").unwrap();

    assert_eq!(page.results.len(), 1);
    assert_eq!(page.results[0].title, "Rust Lang");
    assert_eq!(page.results[0].url, "https://example.com/rust");
    assert_eq!(page.results[0].snippet, "Rust language site.");
    assert!(page.next_url.is_none());
}

#[test]
fn searxng_api_parser_skips_internal_results() {
    let body = r#"
        {
          "results": [
            {
              "title": "Internal",
              "url": "https://searxng.website/search?q=rust",
              "content": ""
            },
            {
              "title": "",
              "url": "https://example.com/rust",
              "content": ""
            }
          ]
        }
    "#;

    let page = parse_api(body, "https://searxng.website/search?q=rust").unwrap();

    assert_eq!(page.results.len(), 1);
    assert_eq!(page.results[0].title, "https://example.com/rust");
    assert_eq!(page.results[0].url, "https://example.com/rust");
}

#[test]
fn searxng_api_parser_rejects_html_page() {
    let html = r#"
        <html><head><meta name="endpoint" content="index"></head>
        <body><form id="search" method="POST" action="/search"></form></body></html>
    "#;

    let err = parse_api(html, "https://searxng.website/search?q=rust").unwrap_err();

    assert_eq!(err, LlphaError::SearchInvalidJson);
}

#[test]
fn searxng_api_parser_reports_rate_limits_and_unresponsive_engines() {
    assert_eq!(
        parse_api("Too Many Requests", "https://searxng.website/search?q=rust"),
        Err(LlphaError::SearchRateLimited)
    );
    assert_eq!(
        parse_api(r#"{"results": [], "unresponsive_engines": [["google", "timeout"]]}"#, "https://searxng.website/search"),
        Err(LlphaError::SearchEnginesUnresponsive)
    );
    assert_eq!(
        parse_api(r#"{"results": [{"title": 5}]}"#, "https://searxng.website/search"),
        Err(LlphaError::SearchInvalidJson)
    );
}

#[test]
fn link_helpers_resolve_and_collapse() {
    assert_eq!(absolute_url("https://example.com/a/b", "../c"), Some("https://example.com/c".to_string()));
    assert_eq!(absolute_url("https://example.com/a/b", "#top"), None);
    assert_eq!(absolute_url("https://example.com/a/b", "   "), None);
    assert_eq!(normalize_space("  a \n b\t c "), "a b c");
    assert!(is_internal_url("https://searxng.website/search?q=a", "https://searxng.website/search/x"));
    assert!(!is_internal_url("https://searxng.website/search?q=a", "https://example.com/search"));
}
