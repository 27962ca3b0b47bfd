use std::time::Duration;

use llpha::analysis::extract::{ExtractResult, HtmlExtractor, Link};
use llpha::analysis::json::{required_json_array, required_json_item_string, required_json_string, JsonValue};
use llpha::config::{split_log_path, AppConfig, LoggingFormat, LoggingTarget, DEFAULT_MAX_CONCURRENT_REQUESTS};
use llpha::downloader::headers::{
    browser_form_headers, browser_page_headers, image_download_headers, FORM_CONTENT_TYPE,
    HTML_ACCEPT, IMAGE_ACCEPT, JSON_ACCEPT,
};
use llpha::downloader::proxy::{InMemoryProxyPool, ProxyPool};
use llpha::downloader::request::{DownloadResponse, FetchRequest, FetchResponse, HeaderList, HttpMethod, RequestOptions};
use llpha::downloader::retry::RetryPolicy;
use llpha::engine::action::{Action, ActionKind};
use llpha::engine::generator::{ActionGenerator, LinkActionGenerator};
use llpha::engine::graph::TaskGraph;
use llpha::engine::page::{Page, PageBody};
use llpha::engine::scheduler::{InMemoryScheduler, Scheduler};
use llpha::engine::task::{Task, TaskId, TaskKind, TaskStatus};
use llpha::engine::workflow::{EngineReport, WorkflowEngine, DEFAULT_MAX_STEPS};
use llpha::plugin::PluginRegistry;
use llpha::fake::{browser_profiles, HeaderFakeStrategy, RandomHeaderFakeStrategy, StaticHeaderFakeStrategy};
use llpha::websearch::aggregate::{merge_result_groups, AggregateSearch};
use llpha::websearch::engines::sort_ping_results;
use llpha::websearch::types::{SearchEngineKind, SearchPing, SearchResult};

fn text(v: &str) -> JsonValue {
    JsonValue::String(v.to_string())
}

fn obj(entries: Vec<(&str, JsonValue)>) -> JsonValue {
    JsonValue::Object(entries.into_iter().map(|(k, v)| (k.to_string(), v)).collect())
}

fn result(title: &str, url: &str) -> SearchResult {
    SearchResult { title: title.to_string(), url: url.to_string(), snippet: String::new() }
}

#[test]
fn proxy_pool_round_robins_values() {
    let mut pool = InMemoryProxyPool::new(vec![
        "http://127.0.0.1:1001".to_string(),
        "http://127.0.0.1:1002".to_string(),
    ]);

    assert_eq!(pool.next_proxy().unwrap(), Some("http://127.0.0.1:1001".to_string()));
    assert_eq!(pool.next_proxy().unwrap(), Some("http://127.0.0.1:1002".to_string()));
    assert_eq!(pool.next_proxy().unwrap(), Some("http://127.0.0.1:1001".to_string()));
}

#[test]
fn proxy_pool_can_be_empty() {
    let mut pool = InMemoryProxyPool::new(vec![]);

    assert!(pool.is_empty());
    assert_eq!(pool.next_proxy().unwrap(), None);
}

#[test]
fn retry_policy_detects_retryable_status() {
    let policy = RetryPolicy::default();

    assert_eq!(policy.max_retries, 3);
    assert!(policy.should_retry_status(429));
    assert!(policy.should_retry_status(500));
    assert!(!policy.should_retry_status(404));
}

#[test]
fn retry_delay_is_capped() {
    let policy = RetryPolicy::new(3)
        .with_base_delay(Duration::from_secs(2))
        .with_max_delay(Duration::from_secs(3))
        .with_jitter(false);

    assert_eq!(policy.delay_for_attempt(3), Duration::from_secs(3));
}

#[test]
fn retry_delay_doubles_without_jitter() {
    let policy = RetryPolicy::new(5)
        .with_base_delay(Duration::from_millis(100))
        .with_max_delay(Duration::from_secs(10))
        .with_jitter(false);

    assert_eq!(policy.delay_for_attempt(0), Duration::from_millis(100));
    assert_eq!(policy.delay_for_attempt(2), Duration::from_millis(400));
}

#[test]
fn browser_page_headers_include_html_accept() {
    let headers = browser_page_headers("https://example.com").unwrap();

    assert_eq!(headers.get("accept").unwrap(), HTML_ACCEPT);
    assert!(headers.contains_key("user-agent"));
    assert!(headers.contains_key("referer"));
}

#[test]
fn browser_form_headers_include_ajax_headers() {
    let headers = browser_form_headers("https://example.com/page", "https://example.com").unwrap();

    assert_eq!(headers.get("accept").unwrap(), JSON_ACCEPT);
    assert_eq!(headers.get("content-type").unwrap(), FORM_CONTENT_TYPE);
    assert_eq!(headers.get("origin").unwrap(), "https://example.com");
    assert_eq!(headers.get("x-requested-with").unwrap(), "XMLHttpRequest");
}

#[test]
fn image_download_headers_include_image_accept() {
    let headers = image_download_headers("https://example.com/album").unwrap();

    assert_eq!(headers.get("accept").unwrap(), IMAGE_ACCEPT);
    assert_eq!(headers.get("referer").unwrap(), "https://example.com/album");
}

#[test]
fn header_values_with_line_breaks_are_refused() {
    assert!(browser_page_headers("https://example.com\r\nx").is_err());
}

#[test]
fn request_options_can_set_timeout() {
    let options = RequestOptions::default().with_timeout(Duration::from_secs(3));

    assert_eq!(options.timeout, Some(Duration::from_secs(3)));
    assert!(options.follow_redirects);
}

#[test]
fn fetch_request_can_build_get() {
    let request = FetchRequest::get("https://example.com");

    assert_eq!(request.method, HttpMethod::Get);
    assert_eq!(request.url, "https://example.com");
    assert!(request.body.is_none());
}

#[test]
fn fetch_request_can_disable_redirects() {
    let request = FetchRequest::get("https://example.com").without_redirects();

    assert!(!request.options.follow_redirects);
}

#[test]
fn download_response_can_parse_suggested_file_name() {
    let mut headers = HeaderList::new();
    headers.insert("content-disposition", "attachment; filename=\"report.pdf\"").unwrap();
    let response = DownloadResponse {
        url: "https://example.com/report.pdf".to_string(),
        status: 200,
        headers,
        bytes: vec![1, 2, 3],
    };

    assert_eq!(response.suggested_file_name(), Some("report.pdf".to_string()));
    assert_eq!(response.len(), 3);
}

#[test]
fn follow_link_action_generates_child_task() {
    let parent = Task::fetch("https://example.com").with_id(TaskId(1)).with_priority(3);
    let action = Action::follow_link("https://example.com/docs").with_priority_delta(2);
    let task = action.to_task(&parent).unwrap();

    assert_eq!(task.kind, TaskKind::Fetch);
    assert_eq!(task.depth, 1);
    assert_eq!(task.parent_id, Some(TaskId(1)));
    assert_eq!(task.priority, 5);
}

#[test]
fn action_aliases_create_common_actions() {
    assert_eq!(Action::fetch("https://example.com").kind, ActionKind::FollowLink);
    assert_eq!(Action::api("https://example.com/api").kind, ActionKind::CallApi);
    assert_eq!(Action::download("https://example.com/file.pdf").kind, ActionKind::DownloadFile);
}

#[test]
fn link_generator_resolves_relative_links() {
    let generator = LinkActionGenerator::new();
    let page = Page {
        task_id: TaskId(1),
        url: "https://example.com/a/index.html".to_string(),
        status: 200,
        headers: HeaderList::new(),
        mime: None,
        body: PageBody::Text(String::new()),
        extract: Some(ExtractResult {
            title: None,
            text: String::new(),
            links: vec![Link { text: "Docs".to_string(), href: "../docs".to_string() }],
        }),
    };

    let actions = generator.generate(&Task::fetch("https://example.com"), &page).unwrap();

    assert_eq!(actions[0].target, Some("https://example.com/docs".to_string()));
}

#[test]
fn graph_assigns_ids_and_tracks_edges() {
    let mut graph = TaskGraph::new();
    let parent = graph.insert_task(Task::fetch("https://example.com"));
    let child = graph.insert_task(Task::fetch("https://example.com/docs"));

    graph.add_edge(parent.id, child.id, ActionKind::FollowLink);

    assert_eq!(parent.id, TaskId(1));
    assert_eq!(child.id, TaskId(2));
    assert_eq!(graph.node_count(), 2);
    assert_eq!(graph.edge_count(), 1);
}

#[test]
fn page_can_be_created_from_response() {
    let response = FetchResponse {
        url: "https://example.com".to_string(),
        status: 200,
        headers: HeaderList::new(),
        body: "hello".to_string(),
    };
    let page = Page::from_response(TaskId(1), response);

    assert_eq!(page.task_id, TaskId(1));
    assert_eq!(page.body.as_text(), Some("hello"));
    assert!(page.is_success());
}

#[test]
fn scheduler_pops_high_priority_first() {
    let mut scheduler = InMemoryScheduler::new();
    scheduler.push(Task::fetch("https://example.com/a").with_id(TaskId(1))).unwrap();
    scheduler
        .push(Task::fetch("https://example.com/b").with_id(TaskId(2)).with_priority(10))
        .unwrap();

    let next = scheduler.next().unwrap();

    assert_eq!(next.id, TaskId(2));
}

#[test]
fn scheduler_dedupes_by_fingerprint() {
    let mut scheduler = InMemoryScheduler::new();

    assert!(scheduler.push(Task::fetch("https://example.com").with_id(TaskId(1))).unwrap());
    assert!(!scheduler.push(Task::fetch("https://example.com").with_id(TaskId(2))).unwrap());
}

#[test]
fn scheduler_respects_max_concurrency() {
    let mut scheduler = InMemoryScheduler::new().with_max_concurrency(1);
    scheduler.push(Task::fetch("https://example.com/a").with_id(TaskId(1))).unwrap();
    scheduler.push(Task::fetch("https://example.com/b").with_id(TaskId(2))).unwrap();

    let first = scheduler.next().unwrap();

    assert_eq!(scheduler.running_len(), 1);
    assert_eq!(scheduler.available_slots(), 0);
    assert!(scheduler.next().is_none());

    scheduler.mark_succeeded(first.id);

    assert_eq!(scheduler.running_len(), 0);
    assert!(scheduler.next().is_some());
}

#[test]
fn task_fetch_uses_pending_defaults() {
    let task = Task::fetch("https://example.com");

    assert_eq!(task.kind, TaskKind::Fetch);
    assert_eq!(task.status, TaskStatus::Pending);
    assert!(task.id.is_unassigned());
}

#[test]
fn task_fingerprint_is_stable() {
    let task = Task::fetch("https://example.com");

    assert_eq!(task.fingerprint(), "Fetch:GET:https://example.com");
}

#[test]
fn task_post_sets_method_and_body() {
    let task = Task::post("https://example.com/api", "{}");

    assert_eq!(task.method, HttpMethod::Post);
    assert_eq!(task.body.as_deref(), Some("{}"));
}

#[test]
fn static_header_fake_strategy_adds_headers() {
    let strategy = StaticHeaderFakeStrategy::default();
    let request = strategy.apply(FetchRequest::get("https://example.com")).unwrap();

    assert!(request.options.headers.contains_key("user-agent"));
    assert!(request.options.headers.contains_key("accept-language"));
}

#[test]
fn browser_profiles_have_multiple_choices() {
    let profiles = browser_profiles();

    assert!(profiles.len() >= 6);
    assert!(profiles.iter().any(|profile| profile.user_agent.contains("Firefox")));
    assert!(profiles.iter().any(|profile| profile.user_agent.contains("Mobile")));
}

#[test]
fn random_header_fake_strategy_adds_browser_headers() {
    let strategy = RandomHeaderFakeStrategy::default();
    let request = strategy.apply(FetchRequest::get("https://example.com")).unwrap();

    assert!(request.options.headers.contains_key("user-agent"));
    assert!(request.options.headers.contains_key("accept-encoding"));
    assert!(request.options.headers.contains_key("connection"));
}

#[test]
fn random_header_fake_strategy_rejects_empty_profiles() {
    let strategy = RandomHeaderFakeStrategy::new(vec![]);

    assert!(strategy.is_err());
}

#[test]
fn split_log_path_handles_nested_path() {
    let (dir, file_name) = split_log_path("target/logs/llpha.log");

    assert_eq!(dir, "target/logs");
    assert_eq!(file_name, "llpha.log");
}

#[test]
fn split_log_path_handles_plain_file_name() {
    let (dir, file_name) = split_log_path("llpha.log");

    assert_eq!(dir, ".");
    assert_eq!(file_name, "llpha.log");
}

#[test]
fn config_defaults_match_documented_values() {
    let config = AppConfig::default();

    assert_eq!(config.logging.target, LoggingTarget::Console);
    assert_eq!(config.logging.format, LoggingFormat::Console);
    assert_eq!(config.logging.level, "info,llpha=debug");
    assert_eq!(config.logging.file_path, "logs/llpha.log");
    assert!(config.logging.color);
    assert_eq!(config.request.max_concurrent_requests, DEFAULT_MAX_CONCURRENT_REQUESTS);
    assert_eq!(config.request.max_retries, 3);
}

#[test]
fn required_json_string_reads_trimmed_value() {
    let value = obj(vec![("album", obj(vec![("name", text(" demo "))]))]);

    assert_eq!(required_json_string(&value, "/album/name").unwrap(), "demo");
}

#[test]
fn required_json_string_rejects_empty_value() {
    let value = obj(vec![("album", obj(vec![("name", text(" "))]))]);

    assert!(required_json_string(&value, "/album/name").is_err());
}

#[test]
fn required_json_array_reads_array() {
    let value = obj(vec![("contents", JsonValue::Array(vec![obj(vec![("filename", text("one.jpg"))])]))]);

    assert_eq!(required_json_array(&value, "/contents").unwrap().len(), 1);
}

#[test]
fn required_json_item_string_reads_field() {
    let item = obj(vec![("url", text(" https://example.com/a.jpg "))]);

    assert_eq!(required_json_item_string(&item, "url").unwrap(), "https://example.com/a.jpg");
}

#[test]
fn json_pointer_reads_array_index_and_escapes() {
    let value = obj(vec![
        ("a/b", text("slash")),
        ("list", JsonValue::Array(vec![text("zero"), text("one")])),
    ]);

    assert_eq!(value.pointer("/a~1b").and_then(|v| v.as_str()), Some("slash"));
    assert_eq!(value.pointer("/list/1").and_then(|v| v.as_str()), Some("one"));
    assert!(value.pointer("/list/01").is_none());
    assert!(value.pointer("list").is_none());
}

#[test]
fn html_extractor_extracts_title_text_and_links() {
    let html = r#"
        <html>
            <head><title> Llpha Demo </title></head>
            <body>
                <h1>Hello</h1>
                <a href="/docs"> Docs </a>
            </body>
        </html>
    "#;

    let result = HtmlExtractor::new().extract(html).unwrap();

    assert_eq!(result.title, Some("Llpha Demo".to_string()));
    assert!(result.text.contains("Hello"));
    assert_eq!(result.links, vec![Link { text: "Docs".to_string(), href: "/docs".to_string() }]);
}

#[test]
fn aggregate_search_uses_default_engines() {
    let search = AggregateSearch::builder().limit(20).build().unwrap();

    assert_eq!(search.engine_count(), 3);
    assert_eq!(
        search.engine_kinds(),
        vec![SearchEngineKind::SearxNg, SearchEngineKind::DuckDuckGo, SearchEngineKind::Bing]
    );
}

#[test]
fn aggregate_results_merge_by_round_robin() {
    let first = vec![result("a1", "https://example.com/a1"), result("a2", "https://example.com/a2")];
    let second = vec![
        result("b1", "https://example.com/b1"),
        result("a2 duplicate", "https://example.com/a2"),
    ];

    let results = merge_result_groups(vec![first, second], 10);

    assert_eq!(
        results.iter().map(|result| result.title.as_str()).collect::<Vec<_>>(),
        vec!["a1", "b1", "a2"]
    );
}

#[test]
fn aggregate_results_respect_limit() {
    let first = vec![result("a1", "https://example.com/a1"), result("a2", "https://example.com/a2")];
    let second = vec![result("b1", "https://example.com/b1")];

    let results = merge_result_groups(vec![first, second], 2);

    assert_eq!(results.iter().map(|r| r.title.as_str()).collect::<Vec<_>>(), vec!["a1", "b1"]);
}

#[test]
fn searxng_ping_results_sort_available_first() {
    let pings = vec![
        (
            0,
            SearchPing::single(
                SearchEngineKind::SearxNg,
                false,
                "https://first.example/search".to_string(),
                Some(429),
                10,
                Some("limited".to_string()),
            ),
        ),
        (
            1,
            SearchPing::single(
                SearchEngineKind::SearxNg,
                true,
                "https://second.example/search".to_string(),
                Some(200),
                20,
                None,
            ),
        ),
        (
            2,
            SearchPing::single(
                SearchEngineKind::SearxNg,
                true,
                "https://third.example/search".to_string(),
                Some(200),
                5,
                None,
            ),
        ),
    ];

    let sorted = sort_ping_results(pings);

    assert_eq!(
        sorted.iter().map(|ping| ping.base_url.as_str()).collect::<Vec<_>>(),
        vec![
            "https://third.example/search",
            "https://second.example/search",
            "https://first.example/search",
        ]
    );
}

#[test]
fn workflow_engine_records_children_of_a_successful_task() {
    let mut engine = WorkflowEngine::builder().max_concurrency(2).build();
    assert_eq!(engine.add_seed(Task::fetch("https://example.com/")).unwrap(), true);
    assert_eq!(engine.add_seed(Task::fetch("https://example.com/")).unwrap(), false);

    let report = EngineReport::default();
    let seed = engine.next_task(&report, 0).unwrap();
    assert_eq!(seed.target, "https://example.com/");
    assert_eq!(engine.graph().get(seed.id).unwrap().task.status, TaskStatus::Running);

    let actions = vec![
        Action::follow_link("https://example.com/a"),
        Action::follow_link("https://example.com/b"),
        Action::follow_link("https://example.com/a"),
    ];
    let report = engine.record_success(&seed, &actions, report).unwrap();
    assert_eq!(report.processed_tasks, 1);
    assert_eq!(report.generated_tasks, 2);
    assert_eq!(report.failed_tasks, 0);
    assert_eq!(engine.graph().edge_count(), 2);
    assert_eq!(engine.graph().node_count(), 5);
    assert_eq!(engine.graph().get(seed.id).unwrap().task.status, TaskStatus::Succeeded);

    let child = engine.next_task(&report, 0).unwrap();
    assert_eq!(child.parent_id, Some(seed.id));
    assert_eq!(child.depth, 1);
    let report = engine.record_failure(&child, report);
    assert_eq!(report.processed_tasks, 2);
    assert_eq!(report.failed_tasks, 1);
    assert_eq!(engine.graph().get(child.id).unwrap().task.status, TaskStatus::Failed);
}

#[test]
fn workflow_engine_stops_at_the_step_limit() {
    let mut engine = WorkflowEngine::builder().max_steps(1).max_concurrency(4).build();
    engine.add_seed(Task::fetch("https://example.com/1")).unwrap();
    engine.add_seed(Task::fetch("https://example.com/2")).unwrap();
    let report = EngineReport::default();
    assert!(engine.next_task(&report, 0).is_some());
    assert!(engine.next_task(&report, 1).is_none());
    let done = EngineReport { processed_tasks: 1, generated_tasks: 0, failed_tasks: 0 };
    assert!(engine.next_task(&done, 0).is_none());
}

#[test]
fn workflow_engine_defaults() {
    let engine = WorkflowEngine::new();
    assert_eq!(engine.graph().node_count(), 0);
    assert_eq!(engine.plugin_registry().len(), 0);
    assert_eq!(engine.plugin_context().name, "llpha-engine");
    assert_eq!(DEFAULT_MAX_STEPS, 128);
    let engine = WorkflowEngine::builder().plugin_registry(PluginRegistry::new()).build();
    assert!(engine.plugin_registry().is_empty());
}

#[test]
fn header_list_reads_back_the_last_insert() {
    let mut headers = HeaderList::new();
    headers.insert("Accept", "text/html").unwrap();
    headers.insert("X-Trace", "1").unwrap();
    headers.insert("accept", "application/json").unwrap();
    assert_eq!(headers.get("ACCEPT"), Some("application/json".to_string()));
    assert_eq!(headers.get("x-trace"), Some("1".to_string()));
    assert_eq!(headers.len(), 2);
    assert!(headers.insert("bad name", "v").is_err());
    assert_eq!(headers.len(), 2);
}

#[test]
fn string_map_reads_back_the_last_insert() {
    let mut map = llpha::collections::StringMap::new();
    map.insert("a".to_string(), "1".to_string());
    map.insert("b".to_string(), "2".to_string());
    map.insert("a".to_string(), "3".to_string());
    assert_eq!(map.get("a"), Some("3"));
    assert_eq!(map.get("b"), Some("2"));
    assert_eq!(map.get("c"), None);
    assert_eq!(map.len(), 2);
}

#[test]
fn retry_delays_never_shrink() {
    let policy = RetryPolicy::new(6).with_base_delay(Duration::from_millis(100)).with_max_delay(Duration::from_secs(2));
    let delays: Vec<Duration> = (0..8).map(|a| policy.delay_for_attempt(a)).collect();
    assert_eq!(delays[0], Duration::from_millis(150));
    assert_eq!(delays[1], Duration::from_millis(250));
    for pair in delays.windows(2) {
        assert!(pair[0] <= pair[1]);
    }
    assert_eq!(delays[7], Duration::from_secs(2));
}
