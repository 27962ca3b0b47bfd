//! Managing an ImgBB account: the forms and headers of album and image operations, and the
//! reading of their answers.
use vstd::prelude::*;

use crate::analysis::json::{json_get, JsonValue};
use crate::downloader::headers::{DEFAULT_ACCEPT_LANGUAGE, DEFAULT_BROWSER_USER_AGENT};
use crate::downloader::request::HeaderList;
use crate::fake::{headers_from_pairs, insert_all, pairs_view};
use crate::form::{form_encode, form_pairs, pair_views};
use crate::ibb::album::{image_id_from_url, image_id_in_url};
use crate::ibb::manage_response::{find_by_keys, find_id, find_url, keys_of, KeySet};
use crate::ibb::ImgbbError;
use crate::path::{file_name_of, file_stem_and_extension, path_file_name, split_file_name};
use crate::text::{chars_of, decimal, lower_chars, lower_seq, owned, push_decimal, push_str, str_eq, string_of, trim, trim_str};
use crate::url::{opt_text, parse_url, url_parse};

verus! {

/// The JSON API of ImgBB.
pub const IBB_JSON_URL: &'static str = "https://ibb.co/json";

/// The Accept header of form requests.
pub const FORM_ACCEPT: &'static str = "application/json, text/javascript, */*; q=0.01";

/// The Accept header of uploads.
pub const UPLOAD_ACCEPT: &'static str = "application/json";

/// The content type of URL-encoded forms.
pub const FORM_URLENCODED: &'static str = "application/x-www-form-urlencoded; charset=UTF-8";

/// Who may see a new album.
#[derive(Clone, Copy, Debug, PartialEq, Eq, Structural)]
pub enum IbbAlbumPrivacy {
    Public,
    Private,
    Password,
}

impl IbbAlbumPrivacy {
    /// The value of the privacy form field.
    pub fn as_form_value(&self) -> (s: &'static str)
        ensures
            s@ == match *self {
                IbbAlbumPrivacy::Public => "public"@,
                IbbAlbumPrivacy::Private => "private"@,
                IbbAlbumPrivacy::Password => "password"@,
            },
    {
        match self {
            IbbAlbumPrivacy::Public => "public",
            IbbAlbumPrivacy::Private => "private",
            IbbAlbumPrivacy::Password => "password",
        }
    }
}

/// What a new album is made of.
#[derive(Clone, Debug, PartialEq, Eq)]
pub struct IbbCreateAlbumInput {
    pub name: String,
    pub description: Option<String>,
    pub privacy: IbbAlbumPrivacy,
    pub password: Option<String>,
}

/// What to change of an image.
#[derive(Clone, Debug, PartialEq, Eq)]
pub struct IbbEditImageInput {
    pub image_id: String,
    pub title: Option<String>,
    pub description: Option<String>,
    pub album_id: Option<String>,
    pub new_album: bool,
}

/// The answer of a management request.
#[derive(Debug)]
pub struct IbbApiReport {
    pub status_code: u64,
    pub id: Option<String>,
    pub url: Option<String>,
    pub raw: JsonValue,
}

/// An optional text, or empty.
pub open spec fn or_empty(o: Option<String>) -> Seq<char> {
    match o {
        Some(s) => s@,
        None => Seq::empty(),
    }
}

fn owned_or_empty(o: &Option<String>) -> (r: String)
    ensures
        r@ == or_empty(*o),
{
    match o {
        Some(s) => s.clone(),
        None => String::new(),
    }
}

/// The fields of the form that creates an album, or why it is refused: a blank name, or a
/// password album without a password.
pub open spec fn create_album_form(token: Seq<char>, input: IbbCreateAlbumInput) -> Result<Seq<(Seq<char>, Seq<char>)>, ImgbbError> {
    if trim(input.name@).len() == 0 {
        Err(ImgbbError::EmptyAlbumName)
    } else if input.privacy == IbbAlbumPrivacy::Password && !(input.password matches Some(p) && trim(p@).len() > 0) {
        Err(ImgbbError::PasswordRequired)
    } else {
        let head = seq![
            ("auth_token"@, token),
            ("pathname"@, "/"@),
            ("action"@, "create-album"@),
            ("type"@, "album"@),
            ("album[name]"@, trim(input.name@)),
            ("album[description]"@, or_empty(input.description)),
            (
                "album[privacy]"@,
                match input.privacy {
                    IbbAlbumPrivacy::Public => "public"@,
                    IbbAlbumPrivacy::Private => "private"@,
                    IbbAlbumPrivacy::Password => "password"@,
                },
            ),
            ("album[new]"@, "true"@),
        ];
        Ok(match input.password {
            Some(p) => head.push(("album[password]"@, p@)),
            None => head,
        })
    }
}

/// Builds the fields of the form that creates an album.
pub fn create_album_fields(auth_token: &str, input: &IbbCreateAlbumInput) -> (r: Result<Vec<(String, String)>, ImgbbError>)
    ensures
        match create_album_form(auth_token@, *input) {
            Ok(f) => r matches Ok(v) && pairs_view(v@) == f,
            Err(e) => r == Err::<Vec<(String, String)>, ImgbbError>(e),
        },
{
    let name = trim_str(input.name.as_str());
    if name.as_str().is_empty() {
        return Err(ImgbbError::EmptyAlbumName);
    }
    if input.privacy == IbbAlbumPrivacy::Password {
        let ok = match &input.password {
            Some(p) => !trim_str(p.as_str()).as_str().is_empty(),
            None => false,
        };
        if !ok {
            return Err(ImgbbError::PasswordRequired);
        }
    }
    let mut v: Vec<(String, String)> = Vec::new();
    v.push((owned("auth_token"), owned(auth_token)));
    v.push((owned("pathname"), owned("/")));
    v.push((owned("action"), owned("create-album")));
    v.push((owned("type"), owned("album")));
    v.push((owned("album[name]"), name));
    v.push((owned("album[description]"), owned_or_empty(&input.description)));
    v.push((owned("album[privacy]"), owned(input.privacy.as_form_value())));
    v.push((owned("album[new]"), owned("true")));
    match &input.password {
        Some(p) => v.push((owned("album[password]"), p.clone())),
        None => {},
    }
    assert(pairs_view(v@) =~= create_album_form(auth_token@, *input)->Ok_0);
    Ok(v)
}

/// The id an image is managed by: the id in its URL, or the trimmed input itself.
pub open spec fn management_id(input: Seq<char>) -> Seq<char> {
    match image_id_in_url(trim(input)) {
        Some(id) => id,
        None => trim(input),
    }
}

/// Reads the id of an image from an id or from one of its URLs.
pub fn normalize_image_management_id(input: &str) -> (r: String)
    ensures
        r@ == management_id(input@),
{
    let t = trim_str(input);
    match image_id_from_url(t.as_str()) {
        Some(id) => id,
        None => t,
    }
}

/// The fields of the form that deletes an image, or why it is refused.
pub open spec fn delete_image_form(token: Seq<char>, image_id: Seq<char>) -> Result<Seq<(Seq<char>, Seq<char>)>, ImgbbError> {
    let id = management_id(image_id);
    if id.len() == 0 {
        Err(ImgbbError::EmptyImageId)
    } else {
        Ok(seq![
            ("auth_token"@, token),
            ("pathname"@, "/"@),
            ("action"@, "delete"@),
            ("single"@, "true"@),
            ("delete"@, "image"@),
            ("deleting[id]"@, id),
        ])
    }
}

/// Builds the fields of the form that deletes an image.
pub fn delete_image_fields(auth_token: &str, image_id: &str) -> (r: Result<Vec<(String, String)>, ImgbbError>)
    ensures
        match delete_image_form(auth_token@, image_id@) {
            Ok(f) => r matches Ok(v) && pairs_view(v@) == f,
            Err(e) => r == Err::<Vec<(String, String)>, ImgbbError>(e),
        },
{
    let id = normalize_image_management_id(image_id);
    if id.as_str().is_empty() {
        return Err(ImgbbError::EmptyImageId);
    }
    let mut v: Vec<(String, String)> = Vec::new();
    v.push((owned("auth_token"), owned(auth_token)));
    v.push((owned("pathname"), owned("/")));
    v.push((owned("action"), owned("delete")));
    v.push((owned("single"), owned("true")));
    v.push((owned("delete"), owned("image")));
    v.push((owned("deleting[id]"), id));
    assert(pairs_view(v@) =~= delete_image_form(auth_token@, image_id@)->Ok_0);
    Ok(v)
}

/// The fields of the form that deletes an album, or why it is refused.
pub open spec fn delete_album_form(token: Seq<char>, album_id: Seq<char>) -> Result<Seq<(Seq<char>, Seq<char>)>, ImgbbError> {
    if trim(album_id).len() == 0 {
        Err(ImgbbError::EmptyAlbumId)
    } else {
        Ok(seq![
            ("auth_token"@, token),
            ("pathname"@, "/"@),
            ("action"@, "delete"@),
            ("single"@, "true"@),
            ("delete"@, "album"@),
            ("deleting[id]"@, trim(album_id)),
        ])
    }
}

/// Builds the fields of the form that deletes an album.
pub fn delete_album_fields(auth_token: &str, album_id: &str) -> (r: Result<Vec<(String, String)>, ImgbbError>)
    ensures
        match delete_album_form(auth_token@, album_id@) {
            Ok(f) => r matches Ok(v) && pairs_view(v@) == f,
            Err(e) => r == Err::<Vec<(String, String)>, ImgbbError>(e),
        },
{
    let id = trim_str(album_id);
    if id.as_str().is_empty() {
        return Err(ImgbbError::EmptyAlbumId);
    }
    let mut v: Vec<(String, String)> = Vec::new();
    v.push((owned("auth_token"), owned(auth_token)));
    v.push((owned("pathname"), owned("/")));
    v.push((owned("action"), owned("delete")));
    v.push((owned("single"), owned("true")));
    v.push((owned("delete"), owned("album")));
    v.push((owned("deleting[id]"), id));
    assert(pairs_view(v@) =~= delete_album_form(auth_token@, album_id@)->Ok_0);
    Ok(v)
}

/// Builds the fields of the form that removes the profile background.
pub fn delete_background_fields(auth_token: &str, owner_id: &str) -> (v: Vec<(String, String)>)
    ensures
        pairs_view(v@) == seq![
            ("auth_token"@, auth_token@),
            ("pathname"@, "/"@),
            ("action"@, "delete"@),
            ("delete"@, "background"@),
            ("owner"@, owner_id@),
        ],
{
    let mut v: Vec<(String, String)> = Vec::new();
    v.push((owned("auth_token"), owned(auth_token)));
    v.push((owned("pathname"), owned("/")));
    v.push((owned("action"), owned("delete")));
    v.push((owned("delete"), owned("background")));
    v.push((owned("owner"), owned(owner_id)));
    assert(pairs_view(v@) =~= seq![
        ("auth_token"@, auth_token@),
        ("pathname"@, "/"@),
        ("action"@, "delete"@),
        ("delete"@, "background"@),
        ("owner"@, owner_id@),
    ]);
    v
}

/// The fields of the form that edits an image, or why it is refused.
pub open spec fn edit_image_form(token: Seq<char>, owner: Seq<char>, input: IbbEditImageInput) -> Result<Seq<(Seq<char>, Seq<char>)>, ImgbbError> {
    let id = management_id(input.image_id@);
    if id.len() == 0 {
        Err(ImgbbError::EmptyImageId)
    } else {
        let head = seq![
            ("auth_token"@, token),
            ("pathname"@, "/"@),
            ("action"@, "edit"@),
            ("edit"@, "image"@),
            ("single"@, "true"@),
            ("owner"@, owner),
            ("editing[id]"@, id),
            ("editing[description]"@, or_empty(input.description)),
            ("editing[title]"@, or_empty(input.title)),
            ("editing[new_album]"@, if input.new_album { "true"@ } else { "false"@ }),
        ];
        Ok(match input.album_id {
            Some(a) => head.push(("editing[album_id]"@, a@)),
            None => head,
        })
    }
}

/// Builds the fields of the form that edits an image.
pub fn edit_image_fields(auth_token: &str, owner_id: &str, input: &IbbEditImageInput) -> (r: Result<Vec<(String, String)>, ImgbbError>)
    ensures
        match edit_image_form(auth_token@, owner_id@, *input) {
            Ok(f) => r matches Ok(v) && pairs_view(v@) == f,
            Err(e) => r == Err::<Vec<(String, String)>, ImgbbError>(e),
        },
{
    let id = normalize_image_management_id(input.image_id.as_str());
    if id.as_str().is_empty() {
        return Err(ImgbbError::EmptyImageId);
    }
    let mut v: Vec<(String, String)> = Vec::new();
    v.push((owned("auth_token"), owned(auth_token)));
    v.push((owned("pathname"), owned("/")));
    v.push((owned("action"), owned("edit")));
    v.push((owned("edit"), owned("image")));
    v.push((owned("single"), owned("true")));
    v.push((owned("owner"), owned(owner_id)));
    v.push((owned("editing[id]"), id));
    v.push((owned("editing[description]"), owned_or_empty(&input.description)));
    v.push((owned("editing[title]"), owned_or_empty(&input.title)));
    v.push((owned("editing[new_album]"), owned(if input.new_album { "true" } else { "false" })));
    match &input.album_id {
        Some(a) => v.push((owned("editing[album_id]"), a.clone())),
        None => {},
    }
    assert(pairs_view(v@) =~= edit_image_form(auth_token@, owner_id@, *input)->Ok_0);
    Ok(v)
}

/// The text fields of an upload into an album (the file goes in a `source` part of its
/// own), or why it is refused.
pub open spec fn upload_album_form(timestamp: nat, token: Seq<char>, owner: Seq<char>, album_id: Seq<char>) -> Result<Seq<(Seq<char>, Seq<char>)>, ImgbbError> {
    if trim(album_id).len() == 0 {
        Err(ImgbbError::EmptyAlbumId)
    } else {
        Ok(seq![
            ("type"@, "file"@),
            ("action"@, "upload"@),
            ("timestamp"@, decimal(timestamp)),
            ("auth_token"@, token),
            ("owner"@, owner),
            ("album"@, trim(album_id)),
            ("album_id"@, trim(album_id)),
        ])
    }
}

/// Builds the text fields of an upload into an album.
pub fn upload_album_fields(timestamp: usize, auth_token: &str, owner_id: &str, album_id: &str) -> (r: Result<Vec<(String, String)>, ImgbbError>)
    ensures
        match upload_album_form(timestamp as nat, auth_token@, owner_id@, album_id@) {
            Ok(f) => r matches Ok(v) && pairs_view(v@) == f,
            Err(e) => r == Err::<Vec<(String, String)>, ImgbbError>(e),
        },
{
    let id = trim_str(album_id);
    if id.as_str().is_empty() {
        return Err(ImgbbError::EmptyAlbumId);
    }
    let mut ts: Vec<char> = Vec::new();
    push_decimal(&mut ts, timestamp);
    let mut v: Vec<(String, String)> = Vec::new();
    v.push((owned("type"), owned("file")));
    v.push((owned("action"), owned("upload")));
    v.push((owned("timestamp"), string_of(&ts)));
    v.push((owned("auth_token"), owned(auth_token)));
    v.push((owned("owner"), owned(owner_id)));
    v.push((owned("album"), id.clone()));
    v.push((owned("album_id"), id));
    assert(pairs_view(v@) =~= upload_album_form(timestamp as nat, auth_token@, owner_id@, album_id@)->Ok_0);
    Ok(v)
}

/// The album page of an album id: `https://ibb.co/album/<trimmed id>`.
pub fn album_page_url(album_id: &str) -> (r: String)
    ensures
        r@ == "https://ibb.co/album/"@ + trim(album_id@),
{
    let mut out: Vec<char> = Vec::new();
    push_str(&mut out, "https://ibb.co/album/");
    let t = trim_str(album_id);
    push_str(&mut out, t.as_str());
    string_of(&out)
}

/// Builds the text fields of a profile background upload.
pub fn upload_background_fields(owner_id: &str, auth_token: &str) -> (v: Vec<(String, String)>)
    ensures
        pairs_view(v@) == seq![
            ("action"@, "upload"@),
            ("type"@, "file"@),
            ("what"@, "background"@),
            ("owner"@, owner_id@),
            ("auth_token"@, auth_token@),
        ],
{
    let mut v: Vec<(String, String)> = Vec::new();
    v.push((owned("action"), owned("upload")));
    v.push((owned("type"), owned("file")));
    v.push((owned("what"), owned("background")));
    v.push((owned("owner"), owned(owner_id)));
    v.push((owned("auth_token"), owned(auth_token)));
    assert(pairs_view(v@) =~= seq![
        ("action"@, "upload"@),
        ("type"@, "file"@),
        ("what"@, "background"@),
        ("owner"@, owner_id@),
        ("auth_token"@, auth_token@),
    ]);
    v
}

/// The URL-encoded body of a form.
pub fn build_form_body(fields: &Vec<(String, String)>) -> (r: String)
    ensures
        r@ == form_pairs(pair_views(fields@)),
{
    form_encode(fields.as_slice())
}

/// The MIME type of an image file, told by its extension (ignoring case); other files are
/// `application/octet-stream`.
pub open spec fn mime_of_extension(ext: Option<Seq<char>>) -> Seq<char> {
    match ext {
        Some(e) => {
            let l = lower_seq(e);
            if l == "jpg"@ || l == "jpeg"@ {
                "image/jpeg"@
            } else if l == "png"@ {
                "image/png"@
            } else if l == "gif"@ {
                "image/gif"@
            } else if l == "webp"@ {
                "image/webp"@
            } else if l == "avif"@ {
                "image/avif"@
            } else if l == "bmp"@ {
                "image/bmp"@
            } else if l == "svg"@ {
                "image/svg+xml"@
            } else {
                "application/octet-stream"@
            }
        },
        None => "application/octet-stream"@,
    }
}

/// The extension of a path's file name, as `Path::extension` gives it.
pub open spec fn path_extension(p: Seq<char>) -> Option<Seq<char>> {
    match path_file_name(p) {
        Some(n) => split_file_name(n).1,
        None => None,
    }
}

/// The MIME type of a file, told by its extension.
pub fn mime_from_path(file_path: &str) -> (r: &'static str)
    ensures
        r@ == mime_of_extension(path_extension(file_path@)),
{
    let cs = chars_of(file_path);
    let name = match file_name_of(&cs) {
        Some(n) => n,
        None => return "application/octet-stream",
    };
    let (_, ext) = file_stem_and_extension(&name);
    let e = match ext {
        Some(e) => e,
        None => return "application/octet-stream",
    };
    let l = string_of(&lower_chars(&e));
    let s = l.as_str();
    if str_eq(s, "jpg") || str_eq(s, "jpeg") {
        "image/jpeg"
    } else if str_eq(s, "png") {
        "image/png"
    } else if str_eq(s, "gif") {
        "image/gif"
    } else if str_eq(s, "webp") {
        "image/webp"
    } else if str_eq(s, "avif") {
        "image/avif"
    } else if str_eq(s, "bmp") {
        "image/bmp"
    } else if str_eq(s, "svg") {
        "image/svg+xml"
    } else {
        "application/octet-stream"
    }
}

/// The origin of a URL: scheme, host, and the port when it is not the default one.
pub open spec fn origin_of(input: Seq<char>) -> Result<Seq<char>, ImgbbError> {
    match url_parse(input) {
        None => Err(ImgbbError::InvalidUrl),
        Some(u) => match u.2 {
            None => Err(ImgbbError::InvalidUrl),
            Some(host) => Ok(
                u.1 + "://"@ + host + match u.7 {
                    Some(p) => ":"@ + decimal(p as nat),
                    None => Seq::empty(),
                },
            ),
        },
    }
}

/// The origin of a URL, for the `Origin` header.
pub fn origin_from_url(input: &str) -> (r: Result<String, ImgbbError>)
    ensures
        match origin_of(input@) {
            Ok(o) => r matches Ok(x) && x@ == o,
            Err(e) => r == Err::<String, ImgbbError>(e),
        },
{
    let u = match parse_url(input) {
        Some(u) => u,
        None => return Err(ImgbbError::InvalidUrl),
    };
    let host = match &u.host {
        Some(h) => h,
        None => return Err(ImgbbError::InvalidUrl),
    };
    let mut out: Vec<char> = Vec::new();
    push_str(&mut out, u.scheme.as_str());
    push_str(&mut out, "://");
    push_str(&mut out, host.as_str());
    match u.port {
        Some(p) => {
            push_str(&mut out, ":");
            push_decimal(&mut out, p as usize);
        },
        None => {},
    }
    Ok(string_of(&out))
}

/// The base headers of an authenticated request: user agent, language and cookie.
pub open spec fn base_pairs(cookie: Seq<char>) -> Seq<(Seq<char>, Seq<char>)> {
    seq![
        ("user-agent"@, DEFAULT_BROWSER_USER_AGENT@),
        ("accept-language"@, DEFAULT_ACCEPT_LANGUAGE@),
        ("cookie"@, cookie),
    ]
}

/// The headers of an authenticated page request.
pub open spec fn page_pairs(cookie: Seq<char>, referer: Seq<char>) -> Seq<(Seq<char>, Seq<char>)> {
    base_pairs(cookie) + seq![
        ("referer"@, referer),
        ("accept"@, "text/html,application/xhtml+xml,application/xml;q=0.9,*/*;q=0.8"@),
    ]
}

/// The headers of an authenticated form or upload request.
pub open spec fn form_pairs_for(cookie: Seq<char>, referer: Seq<char>, origin: Seq<char>, accept: Seq<char>, urlencoded: bool) -> Seq<(Seq<char>, Seq<char>)> {
    let head = base_pairs(cookie) + seq![("referer"@, referer), ("origin"@, origin), ("accept"@, accept)];
    let with_type = if urlencoded {
        head.push(("content-type"@, FORM_URLENCODED@))
    } else {
        head
    };
    with_type.push(("x-requested-with"@, "XMLHttpRequest"@))
}

fn pair(n: &str, v: &str) -> (p: (String, String))
    ensures
        p.0@ == n@ && p.1@ == v@,
{
    (owned(n), owned(v))
}

/// The headers of an authenticated page request.
pub fn page_headers(cookie_header: &str, referer: &str) -> (r: Result<HeaderList, ImgbbError>)
    ensures
        match insert_all(Seq::empty(), page_pairs(cookie_header@, referer@), 5) {
            Ok(h) => r matches Ok(x) && x@ == h,
            Err(_) => r == Err::<HeaderList, ImgbbError>(ImgbbError::InvalidHeader),
        },
{
    let mut v: Vec<(String, String)> = Vec::new();
    v.push(pair("user-agent", DEFAULT_BROWSER_USER_AGENT));
    v.push(pair("accept-language", DEFAULT_ACCEPT_LANGUAGE));
    v.push(pair("cookie", cookie_header));
    v.push(pair("referer", referer));
    v.push(pair("accept", "text/html,application/xhtml+xml,application/xml;q=0.9,*/*;q=0.8"));
    assert(pairs_view(v@) =~= page_pairs(cookie_header@, referer@));
    match headers_from_pairs(&v) {
        Ok(h) => Ok(h),
        Err(_) => Err(ImgbbError::InvalidHeader),
    }
}

/// The headers of an authenticated form or upload request; the origin is read from the
/// referer.
pub fn form_headers(cookie_header: &str, referer: &str, accept: &str, urlencoded: bool) -> (r: Result<HeaderList, ImgbbError>)
    ensures
        match origin_of(referer@) {
            Err(e) => r == Err::<HeaderList, ImgbbError>(e),
            Ok(o) => {
                let ps = form_pairs_for(cookie_header@, referer@, o, accept@, urlencoded);
                match insert_all(Seq::empty(), ps, ps.len() as int) {
                    Ok(h) => r matches Ok(x) && x@ == h,
                    Err(_) => r == Err::<HeaderList, ImgbbError>(ImgbbError::InvalidHeader),
                }
            },
        },
{
    let origin = match origin_from_url(referer) {
        Ok(o) => o,
        Err(e) => return Err(e),
    };
    let mut v: Vec<(String, String)> = Vec::new();
    v.push(pair("user-agent", DEFAULT_BROWSER_USER_AGENT));
    v.push(pair("accept-language", DEFAULT_ACCEPT_LANGUAGE));
    v.push(pair("cookie", cookie_header));
    v.push(pair("referer", referer));
    v.push(pair("origin", origin.as_str()));
    v.push(pair("accept", accept));
    if urlencoded {
        v.push(pair("content-type", FORM_URLENCODED));
    }
    v.push(pair("x-requested-with", "XMLHttpRequest"));
    assert(pairs_view(v@) =~= form_pairs_for(cookie_header@, referer@, origin@, accept@, urlencoded));
    match headers_from_pairs(&v) {
        Ok(h) => Ok(h),
        Err(_) => Err(ImgbbError::InvalidHeader),
    }
}

/// The status code an answer reports, else the HTTP status.
pub open spec fn reported_status(raw: JsonValue, http_status: u16) -> u64 {
    match json_get(raw, "status_code"@) {
        Some(JsonValue::Number(Some(n))) => n,
        _ => http_status as u64,
    }
}

/// Reads the answer of a management request: refused when the HTTP status is not 2xx or
/// the reported status code is not 200; otherwise the code, the first id and URL found in
/// the answer, and the answer itself.
pub fn read_api_report(http_status: u16, raw: JsonValue) -> (r: Result<IbbApiReport, ImgbbError>)
    ensures
        !(200 <= http_status <= 299) ==> (r matches Err(e) && e == ImgbbError::RequestFailed),
        200 <= http_status <= 299 && reported_status(raw, http_status) != 200 ==> (r matches Err(e)
            && e == ImgbbError::ApiStatus),
        200 <= http_status <= 299 && reported_status(raw, http_status) == 200 ==> (r matches Ok(rep)
            && rep.status_code == 200 && opt_text(rep.id) == find_by_keys(raw, keys_of(KeySet::AnyId))
            && opt_text(rep.url) == find_by_keys(raw, keys_of(KeySet::AnyUrl)) && rep.raw == raw),
{
    if !(200 <= http_status && http_status <= 299) {
        return Err(ImgbbError::RequestFailed);
    }
    let status_code: u64 = match raw.get("status_code") {
        Some(v) => match v.as_u64() {
            Some(n) => n,
            None => http_status as u64,
        },
        None => http_status as u64,
    };
    if status_code != 200 {
        return Err(ImgbbError::ApiStatus);
    }
    let id = find_id(&raw);
    let url = find_url(&raw);
    Ok(IbbApiReport { status_code, id, url, raw })
}

} // verus!
