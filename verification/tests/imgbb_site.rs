use std::path::PathBuf;

use llpha::analysis::json::JsonValue;
use llpha::ibb::album::{
    build_download_plan, build_selected_download_plan, extract_album_author_url,
    normalize_author_albums_url, parse_album_images, IbbAlbumDetail, IbbAlbumUrl,
};
use llpha::ibb::login::{
    accept_login_answer, auth_redirect_answered, auth_redirect_headers, authenticated_profile,
    build_cookie_header, build_login_body, build_profile_url, check_login_input, extract_auth_redirect_url, extract_json_api_url,
    extract_login_auth_token, extract_owner_id, extract_set_cookies, has_sign_in_entry,
    merge_set_cookies, parse_set_cookie, upsert_cookie, IbbAuthenticatedProfile, IbbLoginSession,
};
use llpha::ibb::manage::{
    mime_from_path, normalize_image_management_id, origin_from_url, IbbAlbumPrivacy,
};
use llpha::ibb::manage_response::{find_id, find_image_id, find_url};
use llpha::ibb::name_generator::{AlbumFileNameGenerator, AlbumFileNameMode};
use llpha::ibb::profile::{extract_next_seek, parse_profile_albums, IbbProfileAlbum, IbbProfileUrl};
use llpha::ibb::session::{
    apply_cli_logging_defaults, privacy_arg_to_model, resolve_credentials, resolve_profile_url,
    IbbPrivacyArg,
};
use llpha::ibb::utils::extract_auth_token;
use llpha::ibb::ImgbbError;
use llpha::config::AppConfig;

fn s(v: &str) -> JsonValue {
    JsonValue::String(v.to_string())
}

fn obj(entries: Vec<(&str, JsonValue)>) -> JsonValue {
    JsonValue::Object(entries.into_iter().map(|(k, v)| (k.to_string(), v)).collect())
}

fn sample_album_json() -> JsonValue {
    obj(vec![
        ("album", obj(vec![("name", s("demo/album"))])),
        (
            "contents",
            JsonValue::Array(vec![
                obj(vec![
                    ("id_encoded", s("IMG123")),
                    ("filename", s("a:b.jpg")),
                    ("url", s("https://i.ibb.co/a.jpg")),
                    ("thumb", obj(vec![("url", s("https://i.ibb.co/thumb/a.jpg"))])),
                ]),
                obj(vec![
                    ("image", obj(vec![("id_encoded", s("IMG456"))])),
                    ("filename", s("a:b.jpg")),
                    ("url", s("https://i.ibb.co/a-copy.jpg")),
                    ("medium", obj(vec![("url", s("https://i.ibb.co/medium/a-copy.jpg"))])),
                ]),
            ]),
        ),
    ])
}

fn sample_album_detail() -> IbbAlbumDetail {
    IbbAlbumDetail {
        url: "https://ibb.co/album/ABC123/".to_string(),
        title: "demo/album".to_string(),
        author_url: Some("https://beautif11.imgbb.com/albums".to_string()),
        images: parse_album_images(&sample_album_json()).unwrap(),
    }
}

fn sample_album_html(author_url: &str) -> String {
    format!(
        r#"
        <div id="album">
            <div class="content-width">
                <div></div>
                <div>
                    <div class="header-content-left">
                        <div>
                            <div><a href="{author_url}">author</a></div>
                        </div>
                    </div>
                </div>
            </div>
        </div>
        "#
    )
}

fn sample_profile_html() -> &'static str {
    r#"
    <div id="list-most-recent">
        <div class="pad-content-listing">
            <div class="list-item c8" data-type="album" data-name="demo album">
                <div class="list-item-image fixed-size">
                    <a href="https://ibb.co/album/ABC123">
                        <img src="https://i.ibb.co/cover.jpg">
                    </a>
                </div>
            </div>
        </div>
        <button data-action="load-more" data-seek="next-seek">Load more</button>
    </div>
    "#
}

fn sample_session() -> IbbLoginSession {
    IbbLoginSession {
        login_subject: "demo".to_string(),
        redirect_url: "https://ibb.co/auth?login=demo".to_string(),
        profile: IbbAuthenticatedProfile {
            url: "https://demo.imgbb.com/".to_string(),
            json_url: "https://demo.imgbb.com/json".to_string(),
            auth_token: "token".to_string(),
            owner_id: "owner".to_string(),
        },
        cookies: vec![],
        cookie_header: "LID=demo".to_string(),
    }
}

#[test]
fn album_url_normalizes_input() {
    let album = IbbAlbumUrl::parse("ibb.co/album/ABC123").unwrap();

    assert_eq!(album.id, "ABC123");
    assert_eq!(album.normalized_url, "https://ibb.co/album/ABC123/");
    assert_eq!(album.embeds_path(), "/album/ABC123/embeds");
}

#[test]
fn download_plan_uses_current_dir_by_default() {
    let plan = build_download_plan(
        ".",
        &sample_album_json(),
        AlbumFileNameMode::default(),
        "https://ibb.co/album/ABC123/",
        None,
    )
    .unwrap();

    assert_eq!(PathBuf::from(&plan.directory), PathBuf::from(".").join("demo_album"));
    assert_eq!(
        PathBuf::from(&plan.files[0].path),
        PathBuf::from(".").join("demo_album").join("a_b.jpg")
    );
    assert_eq!(
        PathBuf::from(&plan.files[1].path),
        PathBuf::from(".").join("demo_album").join("a_b_1.jpg")
    );
}

#[test]
fn download_plan_accepts_base_path() {
    let plan = build_download_plan(
        "downloads",
        &sample_album_json(),
        AlbumFileNameMode::default(),
        "https://ibb.co/album/ABC123/",
        None,
    )
    .unwrap();

    assert_eq!(PathBuf::from(&plan.directory), PathBuf::from("downloads").join("demo_album"));
    assert_eq!(
        PathBuf::from(&plan.files[0].path),
        PathBuf::from("downloads").join("demo_album").join("a_b.jpg")
    );
}

#[test]
fn download_plan_accepts_count_pattern() {
    let plan = build_download_plan(
        "downloads",
        &sample_album_json(),
        AlbumFileNameMode::CountPattern("{album}_{count}_{name}".to_string()),
        "https://ibb.co/album/ABC123/",
        None,
    )
    .unwrap();

    assert_eq!(
        PathBuf::from(&plan.files[0].path),
        PathBuf::from("downloads").join("demo_album").join("demo_album_1_a_b.jpg")
    );
    assert_eq!(
        PathBuf::from(&plan.files[1].path),
        PathBuf::from("downloads").join("demo_album").join("demo_album_2_a_b.jpg")
    );
}

#[test]
fn album_images_parse_from_json() {
    let images = parse_album_images(&sample_album_json()).unwrap();

    assert_eq!(images.len(), 2);
    assert_eq!(images[0].id, "IMG123");
    assert_eq!(images[1].id, "IMG456");
    assert_eq!(images[0].filename, "a:b.jpg");
    assert_eq!(images[0].image_url, "https://i.ibb.co/a.jpg");
    assert_eq!(images[0].thumbnail_url, Some("https://i.ibb.co/thumb/a.jpg".to_string()));
    assert_eq!(images[1].thumbnail_url, Some("https://i.ibb.co/medium/a-copy.jpg".to_string()));
    assert_eq!(images[0].sort_index, 0);
}

#[test]
fn selected_download_plan_keeps_selected_images() {
    let detail = sample_album_detail();
    let plan = build_selected_download_plan(
        "downloads",
        &detail,
        &vec![detail.images[1].id.clone()],
        AlbumFileNameMode::CountPattern("{count}_{name}".to_string()),
        None,
    )
    .unwrap();

    assert_eq!(plan.files.len(), 1);
    assert_eq!(plan.files[0].url, "https://i.ibb.co/a-copy.jpg");
    assert_eq!(
        PathBuf::from(&plan.files[0].path),
        PathBuf::from("downloads").join("demo_album").join("1_a_b.jpg")
    );
}

#[test]
fn selected_download_plan_refuses_empty_selection() {
    let detail = sample_album_detail();
    let plan = build_selected_download_plan(
        "downloads",
        &detail,
        &vec![],
        AlbumFileNameMode::default(),
        None,
    );

    assert!(matches!(plan, Err(ImgbbError::NoImageSelected)));
}

#[test]
fn selected_download_plan_refuses_unknown_images() {
    let detail = sample_album_detail();
    let plan = build_selected_download_plan(
        "downloads",
        &detail,
        &vec!["NOPE".to_string()],
        AlbumFileNameMode::default(),
        None,
    );

    assert!(matches!(plan, Err(ImgbbError::SelectionNotInAlbum)));
}

#[test]
fn download_plan_requires_album_name() {
    let json = obj(vec![("contents", JsonValue::Array(vec![]))]);
    let plan = build_download_plan("downloads", &json, AlbumFileNameMode::default(), "https://ibb.co/album/A/", None);

    assert!(matches!(plan, Err(ImgbbError::JsonField)));
}

#[test]
fn album_author_url_appends_albums_suffix() {
    let author_url = extract_album_author_url(
        &sample_album_html("https://beautif11.imgbb.com/"),
        "https://ibb.co/album/ABC123/",
    )
    .unwrap();

    assert_eq!(author_url, Some("https://beautif11.imgbb.com/albums".to_string()));
}

#[test]
fn album_author_url_keeps_existing_albums_suffix() {
    let author_url = extract_album_author_url(
        &sample_album_html("https://beautif11.imgbb.com/albums"),
        "https://ibb.co/album/ABC123/",
    )
    .unwrap();

    assert_eq!(author_url, Some("https://beautif11.imgbb.com/albums".to_string()));
}

#[test]
fn login_body_contains_required_fields() {
    let body = build_login_body("token value", "demo-user", "demo pass");

    assert!(body.contains("auth_token=token+value"));
    assert!(body.contains("login-subject=demo-user"));
    assert!(body.contains("password=demo+pass"));
}

#[test]
fn ok_login_response_without_redirect_is_accepted() {
    assert_eq!(extract_auth_redirect_url(200, None).unwrap(), None);
}

#[test]
fn login_redirect_must_point_to_ibb_auth() {
    assert_eq!(
        extract_auth_redirect_url(302, Some("https://ibb.co/auth?login=abc")).unwrap(),
        Some("https://ibb.co/auth?login=abc".to_string())
    );
    assert_eq!(
        extract_auth_redirect_url(302, Some("https://imgbb.com/login")),
        Err(ImgbbError::UnexpectedRedirect)
    );
    assert_eq!(extract_auth_redirect_url(403, None), Err(ImgbbError::LoginFailed));
}

#[test]
fn login_answer_requires_lid_cookie() {
    let with_lid = extract_set_cookies(&["LID=abc; path=/".to_string()]);
    let without = extract_set_cookies(&["PHPSESSID=x".to_string()]);

    assert_eq!(accept_login_answer(200, None, &with_lid), Ok(None));
    assert_eq!(accept_login_answer(200, None, &without), Err(ImgbbError::MissingLoginCookie));
}

#[test]
fn login_input_is_trimmed_and_required() {
    assert_eq!(check_login_input("  demo ", "pw").unwrap(), "demo");
    assert_eq!(check_login_input("  ", "pw"), Err(ImgbbError::EmptyCredentials));
    assert_eq!(check_login_input("demo", ""), Err(ImgbbError::EmptyCredentials));
}

#[test]
fn login_auth_token_can_be_extracted_from_hidden_input() {
    let html = r#"<form><input type="hidden" name="auth_token" value="login-token"></form>"#;

    assert_eq!(extract_login_auth_token(html).unwrap(), "login-token");
}

#[test]
fn login_auth_token_prefers_script_value_and_reports_missing() {
    let html = r#"<script>PF.obj.config.auth_token="script-token";</script><input name="auth_token" value="form">"#;

    assert_eq!(extract_login_auth_token(html).unwrap(), "script-token");
    assert_eq!(extract_login_auth_token("<p>none</p>"), Err(ImgbbError::LoginTokenMissing));
    assert_eq!(
        extract_login_auth_token(r#"<input name="auth_token" value="">"#),
        Err(ImgbbError::LoginTokenEmpty)
    );
}

#[test]
fn profile_url_can_be_built_from_username() {
    assert_eq!(build_profile_url("Laull9").unwrap(), "https://laull9.imgbb.com/");
    assert!(build_profile_url("demo@example.com").is_err());
}

#[test]
fn profile_url_refuses_unsupported_characters() {
    assert_eq!(build_profile_url("a b"), Err(ImgbbError::UnsupportedUsername));
    assert_eq!(build_profile_url("a@b"), Err(ImgbbError::EmailLoginUnsupported));
}

#[test]
fn sign_in_entry_can_be_detected() {
    assert!(has_sign_in_entry(r#"<li id="top-bar-signin">Sign in</li>"#));
    assert!(!has_sign_in_entry(r#"<li id="top-bar-user">Account</li>"#));
}

#[test]
fn json_api_url_can_be_extracted() {
    let html = r#"<script>PF.obj.config.json_api="https://demo.imgbb.com/json";</script>"#;

    assert_eq!(extract_json_api_url(html), Some("https://demo.imgbb.com/json".to_string()));
}

#[test]
fn owner_id_can_be_extracted() {
    let html = r#"CHV.obj.resource={"user":{"name":"Demo","id":"OWNER123"}}"#;

    assert_eq!(extract_owner_id(html).unwrap(), "OWNER123");
}

#[test]
fn owner_id_errors_are_distinguished() {
    assert_eq!(extract_owner_id("nothing"), Err(ImgbbError::OwnerIdMissing));
    assert_eq!(extract_owner_id(r#""id":"open"#), Err(ImgbbError::OwnerIdMalformed));
    assert_eq!(extract_owner_id(r#""id":"  ""#), Err(ImgbbError::OwnerIdEmpty));
}

#[test]
fn authenticated_profile_reads_signed_in_page() {
    let html = r#"<script>PF.obj.config.auth_token="tok";</script>CHV.obj.resource={"user":{"id":"OWN"}}"#;
    let profile = authenticated_profile("https://demo.imgbb.com/", 200, html).unwrap();

    assert_eq!(profile.url, "https://demo.imgbb.com/");
    assert_eq!(profile.json_url, "https://demo.imgbb.com/json");
    assert_eq!(profile.auth_token, "tok");
    assert_eq!(profile.owner_id, "OWN");
    assert_eq!(
        authenticated_profile("https://demo.imgbb.com/", 200, r#"<li id="top-bar-signin">"#),
        Err(ImgbbError::NotLoggedIn)
    );
    assert_eq!(authenticated_profile("https://demo.imgbb.com/", 500, html), Err(ImgbbError::RequestFailed));
}

#[test]
fn lid_cookie_can_be_parsed_from_set_cookie() {
    let cookie = parse_set_cookie(
        "LID=abc123; expires=Fri, 25 Jun 2027 14:25:34 GMT; Max-Age=31536000; path=/; domain=.imgbb.com; secure; HttpOnly; SameSite=None",
    )
    .unwrap();

    assert_eq!(cookie.name, "LID");
    assert_eq!(cookie.value, "abc123");
    assert_eq!(cookie.domain, Some(".imgbb.com".to_string()));
    assert_eq!(cookie.path, Some("/".to_string()));
    assert_eq!(cookie.max_age, Some("31536000".to_string()));
    assert_eq!(cookie.same_site, Some("None".to_string()));
    assert!(cookie.secure);
    assert!(cookie.http_only);
}

#[test]
fn set_cookie_without_pair_is_skipped() {
    assert_eq!(parse_set_cookie("novalue"), None);
}

#[test]
fn cookie_header_joins_cookie_pairs() {
    let cookies = extract_set_cookies(&[
        "PHPSESSID=session-id; path=/".to_string(),
        "LID=lid-id; path=/".to_string(),
    ]);

    assert_eq!(build_cookie_header(&cookies), "PHPSESSID=session-id; LID=lid-id");
}

#[test]
fn later_cookie_replaces_same_key() {
    let mut cookies = extract_set_cookies(&["LID=old; path=/".to_string()]);
    upsert_cookie(&mut cookies, parse_set_cookie("LID=new; path=/").unwrap());
    merge_set_cookies(&mut cookies, &["PHPSESSID=s".to_string()]);

    assert_eq!(build_cookie_header(&cookies), "LID=new; PHPSESSID=s");
}

#[test]
fn album_privacy_converts_to_form_value() {
    assert_eq!(IbbAlbumPrivacy::Password.as_form_value(), "password");
    assert_eq!(IbbAlbumPrivacy::Private.as_form_value(), "private");
    assert_eq!(IbbAlbumPrivacy::Public.as_form_value(), "public");
}

#[test]
fn mime_can_be_detected_from_path() {
    assert_eq!(mime_from_path("demo.png"), "image/png");
    assert_eq!(mime_from_path("demo.jpg"), "image/jpeg");
    assert_eq!(mime_from_path("demo.bin"), "application/octet-stream");
}

#[test]
fn origin_can_be_detected_from_referer() {
    assert_eq!(origin_from_url("https://ibb.co/album/ABC123").unwrap(), "https://ibb.co");
    assert_eq!(
        origin_from_url("https://demo.imgbb.com/albums?list=albums").unwrap(),
        "https://demo.imgbb.com"
    );
}

#[test]
fn image_management_id_accepts_direct_image_url() {
    assert_eq!(normalize_image_management_id("https://i.ibb.co/ABC123/demo.jpg"), "ABC123");
    assert_eq!(normalize_image_management_id("https://ibb.co/IMG456"), "IMG456");
    assert_eq!(normalize_image_management_id("IMG789"), "IMG789");
}

#[test]
fn report_helpers_extract_nested_values() {
    let value = obj(vec![
        ("status_code", JsonValue::Number(Some(200))),
        (
            "album",
            obj(vec![("id_encoded", s("ABC123")), ("url", s("https://ibb.co/album/ABC123"))]),
        ),
    ]);

    assert_eq!(find_id(&value), Some("ABC123".to_string()));
    assert_eq!(find_url(&value), Some("https://ibb.co/album/ABC123".to_string()));
}

#[test]
fn image_id_helper_ignores_album_id_priority() {
    let value = obj(vec![
        ("status_code", JsonValue::Number(Some(200))),
        ("album_id", s("ALBUM123")),
        ("image", obj(vec![("image_id", s("IMAGE123"))])),
    ]);

    assert_eq!(find_image_id(&value), Some("IMAGE123".to_string()));
}

#[test]
fn preserved_mode_deduplicates_planned_names() {
    let directory = PathBuf::from("downloads");
    let mut generator =
        AlbumFileNameGenerator::new("downloads", "demo album", AlbumFileNameMode::default()).unwrap();

    assert_eq!(PathBuf::from(generator.next_path("a:b.jpg").unwrap()), directory.join("a_b.jpg"));
    assert_eq!(PathBuf::from(generator.next_path("a:b.jpg").unwrap()), directory.join("a_b_1.jpg"));
}

#[test]
fn count_pattern_uses_placeholders_and_keeps_extension() {
    let directory = PathBuf::from("downloads");
    let mut generator = AlbumFileNameGenerator::new(
        "downloads",
        "demo/album",
        AlbumFileNameMode::CountPattern("{album}_{count}_{name}".to_string()),
    )
    .unwrap();

    assert_eq!(
        PathBuf::from(generator.next_path("a:b.jpg").unwrap()),
        directory.join("demo_album_1_a_b.jpg")
    );
    assert_eq!(
        PathBuf::from(generator.next_path("other.png").unwrap()),
        directory.join("demo_album_2_other.png")
    );
}

#[test]
fn count_pattern_requires_count_placeholder() {
    let result = AlbumFileNameGenerator::new(
        "downloads",
        "demo",
        AlbumFileNameMode::CountPattern("{album}_{name}".to_string()),
    );

    assert!(result.is_err());
}

#[test]
fn count_pattern_rejects_unknown_placeholder() {
    let result = AlbumFileNameGenerator::new(
        "downloads",
        "demo",
        AlbumFileNameMode::CountPattern("{count}_{size}".to_string()),
    );

    assert!(matches!(result, Err(ImgbbError::UnknownPlaceholder)));
}

#[test]
fn profile_url_normalizes_album_list() {
    let profile = IbbProfileUrl::parse("beautif11.imgbb.com/").unwrap();

    assert_eq!(profile.normalized_url, "https://beautif11.imgbb.com/albums?list=albums");
    assert_eq!(profile.origin, "https://beautif11.imgbb.com");
    assert_eq!(profile.json_url, "https://beautif11.imgbb.com/json");
}

#[test]
fn profile_url_keeps_sort_param() {
    let profile =
        IbbProfileUrl::parse("https://beautif11.imgbb.com/albums?list=albums&sort=name_asc").unwrap();
    let body = profile.build_albums_json_body("token", 3, "seek-value");

    assert!(body.contains("list=albums"));
    assert!(body.contains("sort=name_asc"));
    assert!(body.contains("page=3"));
    assert!(body.contains("seek=seek-value"));
}

#[test]
fn profile_albums_parse_from_html() {
    let albums = parse_profile_albums(sample_profile_html()).unwrap();

    assert_eq!(
        albums,
        vec![IbbProfileAlbum {
            name: "demo album".to_string(),
            url: "https://ibb.co/album/ABC123".to_string(),
            cover_url: Some("https://i.ibb.co/cover.jpg".to_string()),
        }]
    );
}

#[test]
fn next_seek_parse_from_load_more_button() {
    assert_eq!(extract_next_seek(sample_profile_html()), Some("next-seek".to_string()));
}

#[test]
fn auth_token_can_be_extracted() {
    let html = r#"<script>PF.obj.config.auth_token="token-123";</script>"#;

    assert_eq!(extract_auth_token(html).unwrap(), "token-123");
}

#[test]
fn privacy_arg_converts_to_model() {
    assert_eq!(privacy_arg_to_model(IbbPrivacyArg::Password), IbbAlbumPrivacy::Password);
}

#[test]
fn cli_logging_defaults_to_warn() {
    let mut config = AppConfig::default();
    config.logging.level = "info".to_string();

    apply_cli_logging_defaults(&mut config);

    assert_eq!(config.logging.level, "warn");
}

#[test]
fn credentials_are_optional() {
    let credentials = resolve_credentials(None, None).unwrap();

    assert!(credentials.is_none());
}

#[test]
fn credentials_must_come_in_pairs() {
    assert_eq!(resolve_credentials(Some("demo".to_string()), None), Err(ImgbbError::IncompleteCredentials));
    assert_eq!(
        resolve_credentials(Some(" demo ".to_string()), Some("pw".to_string())).unwrap(),
        Some(("demo".to_string(), "pw".to_string()))
    );
}

#[test]
fn profile_url_falls_back_to_session() {
    let session = sample_session();

    assert_eq!(resolve_profile_url(None, Some(&session)).unwrap(), "https://demo.imgbb.com/");
    assert_eq!(resolve_profile_url(None, None), Err(ImgbbError::ProfileUrlMissing));
}

#[test]
fn author_albums_url_drops_fragment_and_resolves_relative_links() {
    assert_eq!(
        normalize_author_albums_url("https://ibb.co/album/ABC123/", "https://demo.imgbb.com/#top").unwrap(),
        "https://demo.imgbb.com/albums"
    );
    assert_eq!(
        normalize_author_albums_url("https://demo.imgbb.com/x/", "/albums/").unwrap(),
        "https://demo.imgbb.com/albums/"
    );
}

#[test]
fn auth_redirect_carries_cookies_and_accepts_redirects() {
    let with_cookie = auth_redirect_headers("LID=abc").unwrap();
    assert_eq!(with_cookie.get("cookie"), Some("LID=abc".to_string()));
    assert_eq!(with_cookie.get("referer"), Some("https://imgbb.com/login".to_string()));
    let without = auth_redirect_headers("").unwrap();
    assert_eq!(without.get("cookie"), None);
    assert!(auth_redirect_headers("bad\nvalue").is_err());
    assert!(auth_redirect_answered(200));
    assert!(auth_redirect_answered(302));
    assert!(!auth_redirect_answered(404));
    assert!(!auth_redirect_answered(199));
}

#[test]
fn later_cookie_of_same_name_wins_whatever_its_domain() {
    let mut cookies = extract_set_cookies(&[
        "LID=old; domain=imgbb.com; path=/".to_string(),
        "PHPSESSID=s".to_string(),
    ]);
    upsert_cookie(&mut cookies, parse_set_cookie("LID=new; domain=ibb.co; path=/x").unwrap());
    assert_eq!(cookies.len(), 2);
    assert_eq!(build_cookie_header(&cookies), "LID=new; PHPSESSID=s");
    assert_eq!(cookies[0].domain.as_deref(), Some("ibb.co"));
}

#[test]
fn selected_download_plan_accepts_image_urls() {
    let detail = sample_album_detail();
    let url = detail.images[1].image_url.clone();
    assert_ne!(detail.images[1].id, url);
    let plan = build_selected_download_plan(
        "downloads",
        &detail,
        &vec![url.clone()],
        AlbumFileNameMode::default(),
        None,
    )
    .unwrap();
    assert_eq!(plan.files.len(), 1);
    assert_eq!(plan.files[0].url, url);
}
