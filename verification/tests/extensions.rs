use llpha::downloader::progress::DownloadProgressEvent;
use llpha::downloader::retry::{AttemptOutcome, RetryPolicy, RetryStep};
use llpha::downloader::transfer::{PartStep, RangedDownload, SingleDownload};
use llpha::downloader::range::{build_download_parts, build_part_paths, download_probe, parse_u64_text, range_header_value};
use llpha::downloader::request::{FetchRequest, HeaderList};
use llpha::engine::action::ActionKind;
use llpha::engine::graph::TaskGraph;
use llpha::engine::task::{Task, TaskId, TaskStatus};
use llpha::engine::workflow::WorkflowEngine;
use llpha::error::LlphaError;
use llpha::fake::{browser_profiles, FakeProfile, HeaderFakeStrategy, RandomHeaderFakeStrategy};
use llpha::ibb::album::IbbAlbumUrl;
use llpha::ibb::profile::IbbProfileUrl;
use llpha::ibb::ImgbbError;
use llpha::url::UrlParts;
use llpha::ibb::name_generator::{AlbumFileNameGenerator, AlbumFileNameMode, FileNameParts};
use llpha::ibb::options::IbbSpiderOptions;
use llpha::ibb::utils::sanitize_path_segment;
use llpha::plugin::{Plugin, PluginContext, PluginRegistry};
use llpha::user_agents::{user_agents, UserAgentTable};
use llpha::websearch::search::{
    choose_base_urls, enough_available, keep_probing, page_attempt, page_attempt_count, ping_from_answer,
    ping_from_failure, ping_summary, PageRequest,
};
use llpha::websearch::types::{SearchEngineKind, SearchPing};

struct RenamePlugin;

impl Plugin for RenamePlugin {
    fn name(&self) -> &str {
        "rename"
    }

    fn before_request(&self, _context: &PluginContext, mut request: FetchRequest) -> Result<FetchRequest, LlphaError> {
        request.url = "https://example.com/changed".to_string();
        Ok(request)
    }
}

struct RefusingPlugin;

impl Plugin for RefusingPlugin {
    fn name(&self) -> &str {
        "refuse"
    }

    fn before_request(&self, _context: &PluginContext, _request: FetchRequest) -> Result<FetchRequest, LlphaError> {
        Err(LlphaError::InvalidUrl)
    }
}

#[test]
fn plugin_registry_applies_before_request_hooks() {
    let mut registry = PluginRegistry::new();
    registry.register(RenamePlugin);

    let request = registry
        .apply_before_request(&PluginContext::default(), FetchRequest::get("https://example.com"))
        .unwrap();

    assert_eq!(request.url, "https://example.com/changed");
}

#[test]
fn plugin_registry_stops_at_refusal_and_passes_through_when_empty() {
    let empty = PluginRegistry::new();
    assert!(empty.is_empty());
    let request = empty
        .apply_before_request(&PluginContext::default(), FetchRequest::get("https://example.com"))
        .unwrap();
    assert_eq!(request.url, "https://example.com");

    let mut registry = PluginRegistry::new();
    registry.register(RefusingPlugin);
    registry.register(RenamePlugin);
    assert_eq!(registry.len(), 2);
    let result = registry.apply_before_request(&PluginContext::default(), FetchRequest::get("https://example.com"));
    assert_eq!(result.err(), Some(LlphaError::InvalidUrl));
}

const SAMPLE: &str = "mozilla\tMozilla/5.0 (X11; Linux x86_64) Firefox/120.0\r\nie\tMozilla/4.0 (compatible; MSIE 6.0)\nbroken line\n\tno-name\nempty\t\nmozilla\tMozilla/5.0 (Windows NT 10.0) Firefox/121.0\nlast\tMozilla/5.0 Last";

#[test]
fn user_agent_table_reads_tab_separated_lines() {
    let table = UserAgentTable::parse(SAMPLE);

    assert_eq!(table.user_agent_count(), 3);
    assert!(!table.user_agent_is_empty());
    assert_eq!(table.get("ie"), Some("Mozilla/4.0 (compatible; MSIE 6.0)".to_string()));
    assert_eq!(table.get_user_agent("last"), Some("Mozilla/5.0 Last".to_string()));
    assert!(table.has_user_agent("mozilla"));
    assert!(!table.has_user_agent("broken line"));
    assert!(!table.has_user_agent("empty"));
}

#[test]
fn user_agent_table_keeps_the_later_value_of_a_name() {
    let table = user_agents(SAMPLE);

    assert_eq!(table.get("mozilla"), Some("Mozilla/5.0 (Windows NT 10.0) Firefox/121.0".to_string()));
}

#[test]
fn user_agent_names_and_values_line_up() {
    let table = UserAgentTable::parse(SAMPLE);
    let names = table.user_agent_names();
    let values = table.user_agent_values();

    assert_eq!(names, vec!["mozilla".to_string(), "ie".to_string(), "last".to_string()]);
    assert!(names.iter().any(|name| name == "ie"));
    assert!(values.iter().any(|value| value.contains("Firefox")));
    for (name, value) in names.iter().zip(values.iter()) {
        assert_eq!(table.get(name).as_ref(), Some(value));
    }
}

#[test]
fn user_agent_table_of_empty_text_is_empty() {
    let table = UserAgentTable::parse("");

    assert!(table.user_agent_is_empty());
    assert_eq!(table.get("mozilla"), None);
}

#[test]
fn spider_options_default_to_current_directory() {
    let options = IbbSpiderOptions::default();
    assert_eq!(options.base_path, ".");
    assert_eq!(options.file_name_mode, AlbumFileNameMode::PreserveOriginal);

    let options = options.with_base_path("downloads").with_file_name_pattern("{count}");
    assert_eq!(options.base_path, "downloads");
    assert_eq!(options.file_name_mode, AlbumFileNameMode::CountPattern("{count}".to_string()));
}

fn ping(url: &str, available: bool) -> SearchPing {
    SearchPing::single(SearchEngineKind::SearxNg, available, url.to_string(), Some(200), 1, None)
}

#[test]
fn ping_helpers_report_answers() {
    let bad = ping_from_answer(SearchEngineKind::Bing, "https://b.example", 503, 7, None);
    assert!(!bad.available);
    assert_eq!(bad.error, Some("搜索 ping 返回异常状态码: 503".to_string()));

    let unparsed = ping_from_answer(SearchEngineKind::Bing, "https://b.example", 200, 7, Some("bad page".to_string()));
    assert!(!unparsed.available);
    assert_eq!(unparsed.error, Some("bad page".to_string()));

    let good = ping_from_answer(SearchEngineKind::Bing, "https://b.example", 200, 7, None);
    assert!(good.available);
    assert_eq!(good.latency_ms, 7);

    let failed = ping_from_failure(SearchEngineKind::Bing, "https://b.example", 12, "timeout".to_string());
    assert_eq!(failed.latency_ms, 12);
    assert!(!failed.available);
    assert_eq!(failed.status, None);

    let none = ping_summary(SearchEngineKind::Bing, None);
    assert_eq!(none.error, Some("搜索引擎未配置 base_url".to_string()));
    assert_eq!(ping_summary(SearchEngineKind::Bing, Some(good)).base_url, "https://b.example");
}

#[test]
fn mirror_choice_takes_first_available() {
    let urls = vec!["https://a.example/".to_string(), "https://b.example/".to_string()];
    let pings = vec![ping("https://b.example/", true), ping("https://a.example/", false)];

    assert_eq!(choose_base_urls(&urls, &pings), vec!["https://b.example/".to_string()]);
    assert_eq!(choose_base_urls(&urls, &vec![ping("https://a.example/", false)]), vec!["https://a.example/".to_string()]);
    assert_eq!(choose_base_urls(&vec!["https://only/".to_string()], &pings), vec!["https://only/".to_string()]);
    assert!(enough_available(&pings, 1));
    assert!(!enough_available(&pings, 2));
}

#[test]
fn decimal_text_parses_like_std() {
    for text in ["0", "42", "+7", "18446744073709551615", "18446744073709551616", "", "+", "-1", " 1", "1a", "007"] {
        assert_eq!(parse_u64_text(text), text.parse::<u64>().ok(), "{text}");
    }
}

#[test]
fn download_probe_reads_head_answers() {
    let get = FetchRequest::get("https://example.com/file");
    let probe = download_probe(&get, Some("2048"), Some("Bytes"));
    assert_eq!(probe.content_length, Some(2048));
    assert!(probe.accepts_ranges);

    let probe = download_probe(&get, Some("n/a"), Some("none"));
    assert_eq!(probe.content_length, None);
    assert!(!probe.accepts_ranges);

    let post = FetchRequest::post("https://example.com/file", "x");
    let probe = download_probe(&post, Some("2048"), Some("bytes"));
    assert_eq!(probe.content_length, None);
    assert!(!probe.accepts_ranges);
}

struct BoostPlugin;

impl Plugin for BoostPlugin {
    fn name(&self) -> &str {
        "boost"
    }

    fn before_task(&self, _context: &PluginContext, mut task: Task) -> Result<Task, LlphaError> {
        task.priority = 7;
        Ok(task)
    }
}

struct VetoTaskPlugin;

impl Plugin for VetoTaskPlugin {
    fn name(&self) -> &str {
        "veto"
    }

    fn before_task(&self, _context: &PluginContext, _task: Task) -> Result<Task, LlphaError> {
        Err(LlphaError::InvalidUrl)
    }
}

#[test]
fn workflow_engine_hands_new_tasks_to_plugins() {
    let mut registry = PluginRegistry::new();
    registry.register(BoostPlugin);
    let mut engine = WorkflowEngine::builder().plugin_registry(registry).build();
    assert!(engine.add_seed(Task::fetch("https://example.com/")).unwrap());
    let stored = engine.graph().get(llpha::engine::task::TaskId(1)).unwrap();
    assert_eq!(stored.task.priority, 7);

    let mut registry = PluginRegistry::new();
    registry.register(VetoTaskPlugin);
    let mut engine = WorkflowEngine::builder().plugin_registry(registry).build();
    assert_eq!(engine.add_seed(Task::fetch("https://example.com/")).unwrap_err(), LlphaError::InvalidUrl);
    assert_eq!(engine.graph().node_count(), 0);
}

#[test]
fn download_parts_tile_the_file() {
    let total: u64 = 12 * 1024 * 1024 + 5;
    let parts = build_download_parts(total, 8);
    assert_eq!(parts.len(), 3);
    assert_eq!(parts[0].start_byte, 0);
    for pair in parts.windows(2) {
        assert!(pair[0].start_byte <= pair[0].end_byte);
        assert_eq!(pair[1].start_byte, pair[0].end_byte + 1);
    }
    assert_eq!(parts[2].end_byte, total - 1);
    assert_eq!(range_header_value(&parts[0]), "bytes=0-4194305");

    let small = build_download_parts(10, 8);
    assert_eq!(small.len(), 1);
    assert_eq!((small[0].start_byte, small[0].end_byte), (0, 9));

    let limited = build_download_parts(40 * 1024 * 1024, 2);
    assert_eq!(limited.len(), 2);
    assert_eq!(limited[1].end_byte, 40 * 1024 * 1024 - 1);

    let paths = build_part_paths("out/file.bin", 2);
    assert_eq!(paths.len(), 2);
    assert_ne!(paths[0], paths[1]);
}

#[test]
fn single_download_reports_and_records() {

    let refused = SingleDownload::begin("https://e.com/a", "out/a", 404, HeaderList::new(), None);
    let saved = refused.err().unwrap();
    assert_eq!((saved.status, saved.bytes_written), (404, 0));

    let (mut d, started) = SingleDownload::begin("https://e.com/a", "out/a", 200, HeaderList::new(), Some(10)).ok().unwrap();
    assert_eq!(started.event, DownloadProgressEvent::Started);
    assert_eq!(started.downloaded_bytes, 0);
    assert_eq!(d.advance(4).downloaded_bytes, 4);
    let step = d.advance(6);
    assert_eq!((step.downloaded_bytes, step.event), (10, DownloadProgressEvent::Advanced));
    let (finished, saved) = d.finish(200, HeaderList::new());
    assert_eq!(finished.event, DownloadProgressEvent::Finished);
    assert_eq!((saved.status, saved.bytes_written, saved.path.as_str()), (200, 10, "out/a"));
}

#[test]
fn ranged_download_plans_requests_and_cleanup() {

    let total: u64 = 12 * 1024 * 1024;
    let (mut d, started) = RangedDownload::start("https://e.com/f", "out/f.bin", total, 8);
    assert_eq!(started.total_bytes, Some(total));
    assert_eq!(d.part_count(), 3);
    let request = d.part_request(&FetchRequest::get("https://e.com/f"), 1);
    assert_eq!(request.options.headers.get("range"), Some("bytes=4194304-8388607".to_string()));
    assert_eq!(request.options.headers.get("accept-encoding"), Some("identity".to_string()));
    assert!(RangedDownload::part_answer_ok(206));
    assert!(!RangedDownload::part_answer_ok(200));
    assert_eq!(
        d.part_started(1).event,
        DownloadProgressEvent::PartStarted { part_index: 1, start_byte: 4194304, end_byte: 8388607 }
    );
    assert_eq!(d.advance(100).downloaded_bytes, 100);
    let policy = RetryPolicy::new(2);
    assert!(matches!(d.on_part_failure(&policy, 0), PartStep::Retry(_)));
    match d.on_part_failure(&policy, 2) {
        PartStep::Abort(paths) => assert_eq!(paths, d.part_paths()),
        PartStep::Retry(_) => panic!("expected abort"),
    }
    let (finished, saved) = d.finish(HeaderList::new());
    assert_eq!((finished.downloaded_bytes, finished.event), (total, DownloadProgressEvent::Finished));
    assert_eq!((saved.status, saved.bytes_written as u64), (200, total));
}

#[test]
fn download_retries_follow_the_policy() {
    let policy = RetryPolicy::new(2);
    assert_eq!(policy.after_download_attempt(0, AttemptOutcome::Response(200)), RetryStep::Accept);
    assert_eq!(policy.after_download_attempt(0, AttemptOutcome::Response(404)), RetryStep::GiveUp);
    assert!(matches!(policy.after_download_attempt(0, AttemptOutcome::Response(503)), RetryStep::Wait(_)));
    assert_eq!(policy.after_download_attempt(2, AttemptOutcome::Response(503)), RetryStep::GiveUp);
    assert_eq!(policy.after_download_attempt(2, AttemptOutcome::Failed), RetryStep::GiveUp);
}

#[test]
fn random_strategies_and_their_clones_are_never_empty() {
    let default_strategy = RandomHeaderFakeStrategy::default();
    assert!(!default_strategy.is_empty());
    assert_eq!(default_strategy.len(), browser_profiles().len());
    let copy = default_strategy.clone();
    assert!(!copy.is_empty());
    assert_eq!(copy.len(), default_strategy.len());

    let single = RandomHeaderFakeStrategy::new(vec![FakeProfile::default()]).unwrap();
    let single_copy = single.clone();
    assert_eq!(single_copy.len(), 1);
    let request = single_copy.apply(FetchRequest::get("https://example.com")).unwrap();
    assert!(request.options.headers.contains_key("user-agent"));
}

#[test]
fn profile_clone_keeps_every_header() {
    let profile = FakeProfile::default().with_extra_header("dnt", "1");
    let copy = profile.clone();
    assert_eq!(copy, profile);
    assert_eq!(copy.extra_headers.last().unwrap().0, "dnt");
}

#[test]
fn clean_segments_are_safe_and_stable() {
    let cleaned = sanitize_path_segment("  ./a:b*c?. ");
    assert_eq!(cleaned, "_a_b_c_");
    assert_eq!(sanitize_path_segment(&cleaned), cleaned);
    assert_eq!(sanitize_path_segment(" .. "), "");
    let tabbed = sanitize_path_segment("x\ty<z>|");
    assert_eq!(tabbed, "x_y_z__");
    assert_eq!(sanitize_path_segment(&tabbed), tabbed);
}

#[test]
fn generated_paths_never_repeat() {
    let mut generator =
        AlbumFileNameGenerator::new("llpha-missing-dir", "album", AlbumFileNameMode::default()).unwrap();
    let mut seen: Vec<String> = Vec::new();
    for _ in 0..5 {
        let path = generator.next_path("same.png").unwrap();
        assert!(path.starts_with("llpha-missing-dir"));
        assert!(path.ends_with(".png"));
        assert!(!seen.contains(&path));
        seen.push(path);
    }
    assert!(generator.next_path("   ").is_err());
}

fn url_parts(serialization: &str, host: &str, path: &str, query: Option<&str>, pairs: &[(&str, &str)]) -> UrlParts {
    UrlParts {
        serialization: serialization.to_string(),
        scheme: "https".to_string(),
        host: Some(host.to_string()),
        port: None,
        domain: Some(host.to_string()),
        path: path.to_string(),
        query: query.map(|q| q.to_string()),
        query_pairs: pairs.iter().map(|(k, v)| (k.to_string(), v.to_string())).collect(),
    }
}

#[test]
fn album_from_parsed_parts() {
    let parts = url_parts("https://www.ibb.co/album/XYZ//extra", "www.ibb.co", "/album/XYZ//extra", None, &[]);
    let album = IbbAlbumUrl::from_parts(&parts).unwrap();
    assert_eq!(album.id, "XYZ");
    assert_eq!(album.normalized_url, "https://ibb.co/album/XYZ/");

    let other_host = url_parts("https://example.com/album/XYZ", "example.com", "/album/XYZ", None, &[]);
    assert_eq!(IbbAlbumUrl::from_parts(&other_host), Err(ImgbbError::NotIbbHost));
    let no_album = url_parts("https://ibb.co/image/XYZ", "ibb.co", "/image/XYZ", None, &[]);
    assert_eq!(IbbAlbumUrl::from_parts(&no_album), Err(ImgbbError::NotAlbumUrl));
}

#[test]
fn profile_from_parsed_parts() {
    let parts = url_parts(
        "https://demo.imgbb.com/albums?sort=date_desc&list=albums",
        "demo.imgbb.com",
        "/albums",
        Some("sort=date_desc&list=albums"),
        &[("sort", "date_desc"), ("list", "albums")],
    );
    let profile = IbbProfileUrl::from_parts(parts).unwrap();
    assert_eq!(profile.normalized_url, "https://demo.imgbb.com/albums?list=albums&sort=date_desc");
    assert_eq!(profile.origin, "https://demo.imgbb.com");
    assert_eq!(profile.sort.as_deref(), Some("date_desc"));

    let images = url_parts(
        "https://demo.imgbb.com/albums?list=images",
        "demo.imgbb.com",
        "/albums",
        Some("list=images"),
        &[("list", "images")],
    );
    assert_eq!(IbbProfileUrl::from_parts(images).err(), Some(ImgbbError::UnsupportedList));
    let elsewhere = url_parts("https://ibb.co/albums", "ibb.co", "/albums", None, &[]);
    assert_eq!(IbbProfileUrl::from_parts(elsewhere).err(), Some(ImgbbError::NotProfileHost));
}

#[test]
fn user_agent_table_clone_keeps_entries() {
    let mut table = UserAgentTable::new();
    table.insert("a".to_string(), "A".to_string());
    table.insert("b".to_string(), "B".to_string());
    table.insert("a".to_string(), "C".to_string());
    let copy = table.clone();
    assert_eq!(copy.user_agent_count(), 2);
    assert_eq!(copy.get("a"), Some("C".to_string()));
    assert_eq!(copy.user_agent_names(), vec!["a".to_string(), "b".to_string()]);
}

#[test]
fn graph_clone_keeps_tasks_edges_and_numbering() {
    let mut graph = TaskGraph::new();
    let parent = graph.insert_task(Task::fetch("https://example.com"));
    let child = graph.insert_task(Task::fetch("https://example.com/a"));
    graph.add_edge(parent.id, child.id, ActionKind::FollowLink);
    graph.set_status(child.id, TaskStatus::Succeeded);
    let mut copy = graph.clone();
    assert_eq!(copy.node_count(), 2);
    assert_eq!(copy.edge_count(), 1);
    assert_eq!(copy.get(child.id).unwrap().task.status, TaskStatus::Succeeded);
    let third = copy.insert_task(Task::fetch("https://example.com/b"));
    assert_eq!(third.id, TaskId(3));
    assert_eq!(graph.node_count(), 2);
}

#[test]
fn searxng_probe_names_the_engine() {
    let bad = ping_from_answer(SearchEngineKind::SearxNg, "https://s.example", 502, 3, None);
    assert_eq!(bad.error, Some("SearxNG ping 返回异常状态码: 502".to_string()));
}

#[test]
fn probing_stops_at_the_goal_or_the_limit() {
    let mut pings = Vec::new();
    assert!(keep_probing(&pings, 3, 1));
    pings.push(ping("https://a.example/", false));
    assert!(keep_probing(&pings, 3, 1));
    pings.push(ping("https://b.example/", true));
    assert!(!keep_probing(&pings, 3, 1));
    assert!(keep_probing(&pings, 3, 2));
    pings.push(ping("https://c.example/", false));
    assert!(!keep_probing(&pings, 3, 2));
}

#[test]
fn page_attempts_try_the_link_then_each_base_url() {
    let bases = vec!["https://a.example/".to_string(), "https://b.example/".to_string()];
    let request = PageRequest {
        page_index: 1,
        offset: 10,
        base_url: "https://a.example/".to_string(),
        next_url: Some("https://a.example/search?q=x&pageno=2".to_string()),
    };
    assert_eq!(page_attempt_count(&request, &bases), 3);
    let first = page_attempt(SearchEngineKind::SearxNg, &request, &bases, "x", 10, 0).unwrap();
    assert_eq!(first, ("https://a.example/".to_string(), "https://a.example/search?q=x&pageno=2".to_string()));
    let second = page_attempt(SearchEngineKind::SearxNg, &request, &bases, "x", 10, 2).unwrap();
    assert_eq!(second.0, "https://b.example/");
    assert!(second.1.starts_with("https://b.example/search?"));
    assert!(second.1.contains("pageno=2"));

    let plain = PageRequest { next_url: None, ..request };
    assert_eq!(page_attempt_count(&plain, &bases), 2);
    assert_eq!(page_attempt(SearchEngineKind::SearxNg, &plain, &bases, "x", 10, 0).unwrap().0, "https://a.example/");
    let broken = vec!["not a url".to_string()];
    assert_eq!(page_attempt(SearchEngineKind::SearxNg, &plain, &broken, "x", 10, 0), Err(LlphaError::InvalidUrl));
}

#[test]
fn naming_takes_the_first_free_path_given_the_disk() {
    let directory = std::path::PathBuf::from("downloads");
    let nothing_on_disk = |_: &str| false;
    let mut generator =
        AlbumFileNameGenerator::new("downloads", "demo album", AlbumFileNameMode::default()).unwrap();
    let first = generator.next_path_with("a:b.jpg", &nothing_on_disk).unwrap();
    assert_eq!(std::path::PathBuf::from(first), directory.join("a_b.jpg"));
    let second = generator.next_path_with("a:b.jpg", &nothing_on_disk).unwrap();
    assert_eq!(std::path::PathBuf::from(second), directory.join("a_b_1.jpg"));

    let taken = directory.join("x.jpg").to_string_lossy().to_string();
    let on_disk = move |p: &str| p == taken;
    let mut fresh = AlbumFileNameGenerator::new("downloads", "demo album", AlbumFileNameMode::default()).unwrap();
    let path = fresh.next_path_with("x.jpg", &on_disk).unwrap();
    assert_eq!(std::path::PathBuf::from(path), directory.join("x_1.jpg"));
}

#[test]
fn counting_names_use_the_next_free_number_given_the_disk() {
    let directory = std::path::PathBuf::from("downloads");
    let nothing_on_disk = |_: &str| false;
    let mode = AlbumFileNameMode::CountPattern("{album}_{count}_{name}".to_string());
    let mut generator = AlbumFileNameGenerator::new("downloads", "demo/album", mode).unwrap();
    let first = generator.next_path_with("a:b.jpg", &nothing_on_disk).unwrap();
    assert_eq!(std::path::PathBuf::from(first), directory.join("demo_album_1_a_b.jpg"));
    let second = generator.next_path_with("other.png", &nothing_on_disk).unwrap();
    assert_eq!(std::path::PathBuf::from(second), directory.join("demo_album_2_other.png"));

    let busy = directory.join("demo_album_3_c.png").to_string_lossy().to_string();
    let on_disk = move |p: &str| p == busy;
    let third = generator.next_path_with("c.png", &on_disk).unwrap();
    assert_eq!(std::path::PathBuf::from(third), directory.join("demo_album_4_c.png"));
    assert!(generator.next_path_with("  ", &nothing_on_disk).is_err());
}

#[test]
fn candidates_and_taking_follow_the_answers() {
    let mut generator =
        AlbumFileNameGenerator::new("downloads", "demo", AlbumFileNameMode::default()).unwrap();
    let parts = FileNameParts::parse("pic.png").unwrap();
    let plain = generator.candidate_path(&parts, 0).unwrap();
    let third = generator.candidate_path(&parts, 2).unwrap();
    assert!(plain.ends_with("pic.png"));
    assert!(third.ends_with("pic_2.png"));
    assert!(!generator.take_candidate(&plain, true));
    assert!(generator.take_candidate(&plain, false));
    assert!(!generator.take_candidate(&plain, false));
}
