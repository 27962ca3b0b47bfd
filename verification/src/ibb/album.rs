//! ImgBB albums: their URLs, the images their JSON lists, and the plan to download them.
use vstd::prelude::*;

use crate::analysis::html::{attr_value, elements_view, html_select_document, select_in_document};
use crate::analysis::json::{
    json_get, json_pointer, json_str, nonempty_trimmed, required_json_array,
    required_json_item_string, required_json_string, JsonValue,
};
use crate::downloader::headers::{image_download_headers, insert_header};
use crate::downloader::request::{insert_header_spec, valid_header_name, valid_header_value, HeaderList, SavedDownload};
use crate::engine::task_pool::TaskPoolReport;
use crate::form::{form_encode, form_pairs, pair_views};
use crate::ibb::manage_response::{find_by_keys, find_image_id, keys_of, KeySet};
use crate::ibb::name_generator::{
    all_taken, candidate, candidate_limit, file_name_parts, first_free, mode_error, rendered,
    AlbumFileNameGenerator, AlbumFileNameMode,
};
use crate::ibb::utils::{normalize_url_input, normalized_url_input, sanitize_path_segment, sanitize_segment};
use crate::ibb::ImgbbError;
use crate::path::{join_path_str, path_join};
use crate::text::{
    chars_of, ends_with, owned, push_str, split_char, split_char_ranges, str_eq, string_of,
    sub_vec, trim, trim_str, range_pieces, lower_seq,
};
use crate::url::{
    clear_url_fragment, join_url, opt_text, parse_url, path_segments, set_url_path_fit, url_join,
    url_parse, url_set_path_fit, url_without_fragment, UrlParts, UrlView,
};

verus! {

/// The endpoint of the ImgBB JSON API.
pub const IBB_API_URL: &'static str = "https://ibb.co/json";

/// The origin of ImgBB pages.
pub const IBB_ORIGIN: &'static str = "https://ibb.co";

/// An album URL reduced to its id and its canonical form.
#[derive(Clone, Debug, PartialEq, Eq)]
pub struct IbbAlbumUrl {
    pub id: String,
    pub normalized_url: String,
}

/// The non-empty segments of a path, in order.
pub open spec fn nonempty_segments(segs: Seq<Seq<char>>) -> Seq<Seq<char>>
    decreases segs.len(),
{
    if segs.len() == 0 {
        Seq::empty()
    } else if segs.last().len() == 0 {
        nonempty_segments(segs.drop_last())
    } else {
        nonempty_segments(segs.drop_last()).push(segs.last())
    }
}

/// The album id of a parsed URL, or why it is not an album URL.
pub open spec fn album_id_of_parts(u: UrlView) -> Result<Seq<char>, ImgbbError> {
    let host = match u.2 {
        Some(h) => h,
        None => Seq::empty(),
    };
    if !(host == "ibb.co"@ || host == "www.ibb.co"@) {
        Err(ImgbbError::NotIbbHost)
    } else {
        match path_segments(u) {
            None => Err(ImgbbError::NotAlbumUrl),
            Some(segs) => {
                let s = nonempty_segments(segs);
                if s.len() >= 2 && s[0] == "album"@ {
                    Ok(s[1])
                } else {
                    Err(ImgbbError::NotAlbumUrl)
                }
            },
        }
    }
}

/// The album id of an album URL, or why it is not one.
pub open spec fn album_id_of(input: Seq<char>) -> Result<Seq<char>, ImgbbError> {
    match url_parse(normalized_url_input(input)) {
        None => Err(ImgbbError::InvalidUrl),
        Some(u) => album_id_of_parts(u),
    }
}

/// The canonical URL of an album.
pub open spec fn album_url_of(id: Seq<char>) -> Seq<char> {
    "https://ibb.co/album/"@ + id + "/"@
}

/// The non-empty segments of the path of a parsed URL, in order.
fn url_nonempty_segments(u: &UrlParts) -> (r: Option<Vec<String>>)
    ensures
        match path_segments(u@) {
            None => r is None,
            Some(segs) => r matches Some(v) && v@.map_values(|s: String| s@) == nonempty_segments(segs),
        },
{
    let p = chars_of(u.path.as_str());
    if p.len() == 0 || p[0] != '/' {
        return None;
    }
    let rest = sub_vec(&p, 1, p.len());
    assert(rest@ =~= u@.4.drop_first());
    let ranges = split_char_ranges(&rest, '/');
    Some(collect_nonempty(&rest, &ranges))
}

fn collect_nonempty(rest: &Vec<char>, ranges: &Vec<(usize, usize)>) -> (r: Vec<String>)
    requires
        forall|k: int| 0 <= k < ranges@.len() ==> (#[trigger] ranges@[k]).0 <= ranges@[k].1 <= rest@.len(),
    ensures
        r@.map_values(|s: String| s@) == nonempty_segments(range_pieces(rest@, ranges@)),
{
    let ghost pieces = range_pieces(rest@, ranges@);
    let mut out: Vec<String> = Vec::new();
    let mut k: usize = 0;
    while k < ranges.len()
        invariant
            k <= ranges@.len(),
            pieces == range_pieces(rest@, ranges@),
            forall|j: int| 0 <= j < ranges@.len() ==> (#[trigger] ranges@[j]).0 <= ranges@[j].1 <= rest@.len(),
            out@.map_values(|s: String| s@) == nonempty_segments(pieces.take(k as int)),
        decreases ranges@.len() - k,
    {
        let (a, b) = ranges[k];
        assert(pieces.take(k + 1).drop_last() =~= pieces.take(k as int));
        assert(pieces.take(k + 1).last() == pieces[k as int]);
        if a < b {
            let piece = sub_vec(rest, a, b);
            let ghost before = out@.map_values(|s: String| s@);
            out.push(string_of(&piece));
            assert(out@.map_values(|s: String| s@) =~= before.push(pieces[k as int]));
        }
        k = k + 1;
    }
    assert(pieces.take(k as int) =~= pieces);
    out
}

impl IbbAlbumUrl {
    /// Reads an album URL (the scheme may be left out): it must be on `ibb.co` or
    /// `www.ibb.co` and its path must start with `album/<id>`.
    pub fn parse(input: &str) -> (r: Result<Self, ImgbbError>)
        ensures
            match album_id_of(input@) {
                Ok(id) => r matches Ok(a) && a.id@ == id && a.normalized_url@ == album_url_of(id),
                Err(e) => r == Err::<Self, ImgbbError>(e),
            },
    {
        let input = normalize_url_input(input);
        match parse_url(input.as_str()) {
            Some(u) => IbbAlbumUrl::from_parts(&u),
            None => Err(ImgbbError::InvalidUrl),
        }
    }

    /// Reads an album from a parsed URL: it must be on `ibb.co` or `www.ibb.co` and its path
    /// must start with `album/<id>`.
    pub fn from_parts(u: &UrlParts) -> (r: Result<Self, ImgbbError>)
        ensures
            match album_id_of_parts(u@) {
                Ok(id) => r matches Ok(a) && a.id@ == id && a.normalized_url@ == album_url_of(id),
                Err(e) => r == Err::<Self, ImgbbError>(e),
            },
    {
        proof {
            reveal_strlit("album");
        }
        let host = match &u.host {
            Some(h) => h.clone(),
            None => String::new(),
        };
        if !(str_eq(host.as_str(), "ibb.co") || str_eq(host.as_str(), "www.ibb.co")) {
            return Err(ImgbbError::NotIbbHost);
        }
        let segs = match url_nonempty_segments(&u) {
            Some(s) => s,
            None => return Err(ImgbbError::NotAlbumUrl),
        };
        if segs.len() < 2 || !str_eq(segs[0].as_str(), "album") {
            proof {
                if segs@.len() >= 2 {
                    assert(segs@.map_values(|s: String| s@)[0] == segs@[0]@);
                }
            }
            return Err(ImgbbError::NotAlbumUrl);
        }
        assert(segs@.map_values(|s: String| s@)[0] == segs@[0]@);
        assert(segs@.map_values(|s: String| s@)[1] == segs@[1]@);
        let id = segs[1].clone();
        let mut out: Vec<char> = Vec::new();
        push_str(&mut out, "https://ibb.co/album/");
        push_str(&mut out, id.as_str());
        push_str(&mut out, "/");
        Ok(IbbAlbumUrl { id, normalized_url: string_of(&out) })
    }

    /// The album's embeds page.
    pub fn embeds_url(&self) -> (r: String)
        ensures
            r@ == self.normalized_url@ + "embeds"@,
    {
        let mut out: Vec<char> = Vec::new();
        push_str(&mut out, self.normalized_url.as_str());
        push_str(&mut out, "embeds");
        string_of(&out)
    }

    /// The path of the album's embeds page.
    pub fn embeds_path(&self) -> (r: String)
        ensures
            r@ == "/album/"@ + self.id@ + "/embeds"@,
    {
        let mut out: Vec<char> = Vec::new();
        push_str(&mut out, "/album/");
        push_str(&mut out, self.id.as_str());
        push_str(&mut out, "/embeds");
        string_of(&out)
    }

    /// The form body that asks the JSON API for the album's contents.
    pub fn build_album_json_body(&self, auth_token: &str) -> (r: String)
        ensures
            r@ == form_pairs(
                seq![
                    ("action"@, "get-album-contents"@),
                    ("albumid"@, self.id@),
                    ("auth_token"@, auth_token@),
                    ("pathname"@, "/album/"@ + self.id@ + "/embeds"@),
                ],
            ),
    {
        let mut pairs: Vec<(String, String)> = Vec::new();
        pairs.push((owned("action"), owned("get-album-contents")));
        pairs.push((owned("albumid"), self.id.clone()));
        pairs.push((owned("auth_token"), owned(auth_token)));
        pairs.push((owned("pathname"), self.embeds_path()));
        assert(pair_views(pairs@) =~= seq![
            ("action"@, "get-album-contents"@),
            ("albumid"@, self.id@),
            ("auth_token"@, auth_token@),
            ("pathname"@, "/album/"@ + self.id@ + "/embeds"@),
        ]);
        form_encode(pairs.as_slice())
    }
}

/// The canonical URL of an album URL.
pub fn normalize_album_url(input_url: &str) -> (r: Result<String, ImgbbError>)
    ensures
        match album_id_of(input_url@) {
            Ok(id) => r matches Ok(u) && u@ == album_url_of(id),
            Err(e) => r == Err::<String, ImgbbError>(e),
        },
{
    match IbbAlbumUrl::parse(input_url) {
        Ok(a) => Ok(a.normalized_url),
        Err(e) => Err(e),
    }
}

/// The first path segment that is neither empty nor `album`.
pub open spec fn first_image_segment(segs: Seq<Seq<char>>) -> Option<Seq<char>>
    decreases segs.len(),
{
    if segs.len() == 0 {
        None
    } else if segs[0].len() > 0 && segs[0] != "album"@ {
        Some(segs[0])
    } else {
        first_image_segment(segs.drop_first())
    }
}

/// The image id in the URL of an image on an `ibb.co` host: its first path segment that
/// is neither empty nor `album`.
pub open spec fn image_id_in_url(input: Seq<char>) -> Option<Seq<char>> {
    match url_parse(input) {
        None => None,
        Some(u) => match u.2 {
            None => None,
            Some(host) => if !ends_with(host, "ibb.co"@) {
                None
            } else {
                match path_segments(u) {
                    None => None,
                    Some(segs) => first_image_segment(segs),
                }
            },
        },
    }
}

/// Reads the image id from the URL of an image.
pub fn image_id_from_url(input: &str) -> (r: Option<String>)
    ensures
        opt_text(r) == image_id_in_url(input@),
{
    proof {
        reveal_strlit("album");
    }
    let u = match parse_url(input) {
        Some(u) => u,
        None => return None,
    };
    let host = match &u.host {
        Some(h) => h,
        None => return None,
    };
    if !crate::text::chars_end_with(&chars_of(host.as_str()), &chars_of("ibb.co")) {
        return None;
    }
    let p = chars_of(u.path.as_str());
    if p.len() == 0 || p[0] != '/' {
        return None;
    }
    let rest = sub_vec(&p, 1, p.len());
    assert(rest@ =~= u@.4.drop_first());
    let ranges = split_char_ranges(&rest, '/');
    let ghost segs = split_char(rest@, '/');
    let mut k: usize = 0;
    assert(segs.skip(0) =~= segs);
    while k < ranges.len()
        invariant
            k <= ranges@.len(),
            segs == split_char(rest@, '/'),
            range_pieces(rest@, ranges@) == segs,
            forall|j: int| 0 <= j < ranges@.len() ==> (#[trigger] ranges@[j]).0 <= ranges@[j].1 <= rest@.len(),
            first_image_segment(segs) == first_image_segment(segs.skip(k as int)),
            image_id_in_url(input@) == first_image_segment(segs),
            "album"@.len() == 5,
        decreases ranges@.len() - k,
    {
        let (a, b) = ranges[k];
        let piece = sub_vec(&rest, a, b);
        assert(piece@ == segs[k as int]);
        assert(segs.skip(k as int)[0] == segs[k as int]);
        assert(segs.skip(k as int).drop_first() =~= segs.skip(k + 1));
        let ps = string_of(&piece);
        if piece.len() > 0 && !str_eq(ps.as_str(), "album") {
            return Some(ps);
        }
        k = k + 1;
    }
    assert(segs.skip(k as int).len() == 0);
    None
}

/// The URL of an image variant: the string under the key, or the `url` string of the object
/// under it; trimmed, and nothing when empty.
pub open spec fn variant_url(item: JsonValue, key: Seq<char>) -> Option<Seq<char>> {
    let raw = match json_get(item, key) {
        Some(JsonValue::String(s)) => Some(s@),
        Some(JsonValue::Object(es)) => json_str(crate::analysis::json::entry_value(es@, "url"@)),
        _ => None,
    };
    match raw {
        Some(u) => if trim(u).len() > 0 {
            Some(trim(u))
        } else {
            None
        },
        None => None,
    }
}

/// Reads the URL of an image variant.
pub fn optional_image_variant_url(item: &JsonValue, key: &str) -> (r: Option<String>)
    ensures
        opt_text(r) == variant_url(*item, key@),
{
    let v = match item.get(key) {
        Some(v) => v,
        None => return None,
    };
    let raw: Option<&str> = match v {
        JsonValue::String(s) => Some(s.as_str()),
        JsonValue::Object(_) => match v.get("url") {
            Some(u) => u.as_str(),
            None => None,
        },
        _ => None,
    };
    match raw {
        Some(u) => {
            let t = trim_str(u);
            if t.as_str().is_empty() {
                None
            } else {
                Some(t)
            }
        },
        None => None,
    }
}

/// One image of an album.
#[derive(Clone, Debug, PartialEq, Eq)]
pub struct IbbAlbumImage {
    pub id: String,
    pub filename: String,
    pub image_url: String,
    pub thumbnail_url: Option<String>,
    pub local_thumbnail_path: Option<String>,
    pub sort_index: usize,
}

/// An image as (id, file name, URL, thumbnail URL, position).
pub type ImageView = (Seq<char>, Seq<char>, Seq<char>, Option<Seq<char>>, nat);

/// The image described by the item at position `index` of an album's contents: its file
/// name and URL (both required), its id (found in the item, else read from its URL, else the
/// URL itself), and its thumbnail (`thumb`, else `display_url`, else `medium`).
pub open spec fn image_of(item: JsonValue, index: nat) -> Option<ImageView> {
    match (nonempty_trimmed(json_get(item, "filename"@)), nonempty_trimmed(json_get(item, "url"@))) {
        (Some(name), Some(url)) => Some(
            (
                match find_by_keys(item, keys_of(KeySet::ImageId)) {
                    Some(id) => id,
                    None => match image_id_in_url(url) {
                        Some(id) => id,
                        None => url,
                    },
                },
                name,
                url,
                match variant_url(item, "thumb"@) {
                    Some(t) => Some(t),
                    None => match variant_url(item, "display_url"@) {
                        Some(t) => Some(t),
                        None => variant_url(item, "medium"@),
                    },
                },
                index,
            ),
        ),
        _ => None,
    }
}

/// The thumbnail of an album image is its `thumb` URL whenever the item has a non-empty one,
/// whatever `display_url` and `medium` hold; without it, the `display_url`, and without that,
/// the `medium` URL.
pub proof fn law_thumbnail_is_the_thumb(item: JsonValue, index: nat)
    ensures
        image_of(item, index) matches Some(v) ==> {
            &&& json_get(item, "thumb"@) matches Some(JsonValue::Object(es)) ==> (json_str(
                crate::analysis::json::entry_value(es@, "url"@),
            ) matches Some(t) ==> (trim(t).len() > 0 ==> v.3 == Some(trim(t))))
            &&& json_get(item, "thumb"@) matches Some(JsonValue::String(t)) ==> (trim(t@).len() > 0
                ==> v.3 == Some(trim(t@)))
            &&& variant_url(item, "thumb"@) is None ==> (variant_url(item, "display_url"@) matches Some(
                d,
            ) ==> v.3 == Some(d))
            &&& variant_url(item, "thumb"@) is None && variant_url(item, "display_url"@) is None
                ==> v.3 == variant_url(item, "medium"@)
        },
{
}

/// An album item gives an image exactly when it has a non-empty file name and URL; the image
/// keeps that file name and URL, its position, and the id that the item gives when it gives
/// one.
pub proof fn law_image_keeps_its_fields(item: JsonValue, index: nat)
    ensures
        image_of(item, index) is Some <==> (nonempty_trimmed(json_get(item, "filename"@)) is Some
            && nonempty_trimmed(json_get(item, "url"@)) is Some),
        image_of(item, index) matches Some(v) ==> {
            &&& Some(v.1) == nonempty_trimmed(json_get(item, "filename"@))
            &&& Some(v.2) == nonempty_trimmed(json_get(item, "url"@))
            &&& v.4 == index
            &&& find_by_keys(item, keys_of(KeySet::ImageId)) matches Some(id) ==> v.0 == id
        },
{
}

impl IbbAlbumImage {
    /// The image as texts.
    pub open spec fn view_image(&self) -> ImageView {
        (self.id@, self.filename@, self.image_url@, opt_text(self.thumbnail_url), self.sort_index as nat)
    }
}

/// The images listed by an album's JSON, in order; refused when the contents are missing or
/// an item lacks its file name or URL.
pub fn parse_album_images(album_json: &JsonValue) -> (r: Result<Vec<IbbAlbumImage>, ImgbbError>)
    ensures
        match json_pointer(*album_json, "/contents"@) {
            Some(JsonValue::Array(items)) => match r {
                Ok(v) => v@.len() == items@.len() && forall|i: int|
                    0 <= i < v@.len() ==> image_of(items@[i], i as nat) == Some(
                        #[trigger] v@[i].view_image(),
                    ) && v@[i].local_thumbnail_path is None,
                Err(e) => e == ImgbbError::JsonField && exists|i: int|
                    0 <= i < items@.len() && image_of(#[trigger] items@[i], i as nat) is None,
            },
            _ => r == Err::<Vec<IbbAlbumImage>, ImgbbError>(ImgbbError::JsonField),
        },
{
    let contents = match required_json_array(album_json, "/contents") {
        Ok(c) => c,
        Err(_) => return Err(ImgbbError::JsonField),
    };
    let mut images: Vec<IbbAlbumImage> = Vec::new();
    let mut index: usize = 0;
    while index < contents.len()
        invariant
            index <= contents@.len(),
            json_pointer(*album_json, "/contents"@) == Some(JsonValue::Array(*contents)),
            images@.len() == index,
            forall|i: int|
                0 <= i < index ==> image_of(contents@[i], i as nat) == Some(
                    #[trigger] images@[i].view_image(),
                ) && images@[i].local_thumbnail_path is None,
        decreases contents@.len() - index,
    {
        let item = &contents[index];
        let filename = match required_json_item_string(item, "filename") {
            Ok(f) => f,
            Err(_) => return Err(ImgbbError::JsonField),
        };
        let image_url = match required_json_item_string(item, "url") {
            Ok(u) => u,
            Err(_) => return Err(ImgbbError::JsonField),
        };
        let id = match find_image_id(item) {
            Some(id) => id,
            None => match image_id_from_url(image_url.as_str()) {
                Some(id) => id,
                None => image_url.clone(),
            },
        };
        let thumbnail_url = match optional_image_variant_url(item, "thumb") {
            Some(t) => Some(t),
            None => match optional_image_variant_url(item, "display_url") {
                Some(t) => Some(t),
                None => optional_image_variant_url(item, "medium"),
            },
        };
        let img = IbbAlbumImage {
            id,
            filename,
            image_url,
            thumbnail_url,
            local_thumbnail_path: None,
            sort_index: index,
        };
        assert(image_of(contents@[index as int], index as nat) == Some(img.view_image()));
        images.push(img);
        index = index + 1;
    }
    Ok(images)
}

/// A path without its trailing `/` characters.
pub open spec fn trim_end_slashes(p: Seq<char>) -> Seq<char>
    decreases p.len(),
{
    if p.len() > 0 && p.last() == '/' {
        trim_end_slashes(p.drop_last())
    } else {
        p
    }
}

/// The path that an author URL gets: `albums` appended, unless it already ends in `/albums`.
pub open spec fn albums_path(path: Seq<char>) -> Option<Seq<char>> {
    let t = trim_end_slashes(path);
    if ends_with(t, "/albums"@) {
        None
    } else {
        Some(t + "/albums"@)
    }
}

/// The albums page of an author link found on an album page: the link resolved against
/// the album URL, `/albums` appended to its path unless it is there, and its fragment
/// dropped.
pub open spec fn author_albums_url(base: Seq<char>, href: Seq<char>) -> Result<Seq<char>, ImgbbError> {
    match url_join(base, href) {
        None => Err(ImgbbError::InvalidUrl),
        Some(joined) => match url_parse(joined) {
            None => Err(ImgbbError::InvalidUrl),
            Some(u) => {
                let with_path = match albums_path(u.4) {
                    None => Some(joined),
                    Some(p) => url_set_path_fit(joined, p),
                };
                match with_path {
                    None => Err(ImgbbError::InvalidUrl),
                    Some(w) => match url_without_fragment(w) {
                        None => Err(ImgbbError::InvalidUrl),
                        Some(f) => Ok(f),
                    },
                }
            },
        },
    }
}

/// Resolves an author link and points it at the author's album list.
pub fn normalize_author_albums_url(base_url: &str, href: &str) -> (r: Result<String, ImgbbError>)
    ensures
        match author_albums_url(base_url@, href@) {
            Ok(u) => r matches Ok(x) && x@ == u,
            Err(e) => r == Err::<String, ImgbbError>(e),
        },
{
    let joined = match join_url(base_url, href) {
        Some(j) => j,
        None => return Err(ImgbbError::InvalidUrl),
    };
    let u = match parse_url(joined.as_str()) {
        Some(u) => u,
        None => return Err(ImgbbError::InvalidUrl),
    };
    let p = chars_of(u.path.as_str());
    let mut n: usize = p.len();
    assert(p@.take(n as int) =~= p@);
    while n > 0 && p[n - 1] == '/'
        invariant
            n <= p@.len(),
            trim_end_slashes(p@) == trim_end_slashes(p@.take(n as int)),
        decreases n,
    {
        assert(p@.take(n as int).drop_last() =~= p@.take(n - 1));
        n = n - 1;
    }
    let t = sub_vec(&p, 0, n);
    assert(t@ =~= p@.take(n as int));
    assert(trim_end_slashes(p@) == t@);
    let with_path = if crate::text::chars_end_with(&t, &chars_of("/albums")) {
        Some(joined)
    } else {
        let mut np = t;
        crate::text::push_str(&mut np, "/albums");
        set_url_path_fit(joined.as_str(), string_of(&np).as_str())
    };
    let w = match with_path {
        Some(w) => w,
        None => return Err(ImgbbError::InvalidUrl),
    };
    match clear_url_fragment(w.as_str()) {
        Some(f) => Ok(f),
        None => Err(ImgbbError::InvalidUrl),
    }
}

/// Where an album page names its author.
pub const AUTHOR_LINK_SELECTOR: &'static str = "#album > div.content-width > div:nth-child(2) > div.header-content-left > div > div > a";

/// The author's albums page named by an album page, if it names one.
pub open spec fn album_author_url(html: Seq<char>, base: Seq<char>) -> Result<Option<Seq<char>>, ImgbbError> {
    match html_select_document(html, AUTHOR_LINK_SELECTOR@) {
        None => Err(ImgbbError::InvalidSelector),
        Some(es) => if es.len() == 0 {
            Ok(None)
        } else {
            match attr_value(es[0].0, "href"@) {
                None => Ok(None),
                Some(h) => match author_albums_url(base, h) {
                    Ok(u) => Ok(Some(u)),
                    Err(e) => Err(e),
                },
            }
        },
    }
}

/// Reads the author's albums page from an album page.
pub fn extract_album_author_url(html: &str, base_url: &str) -> (r: Result<Option<String>, ImgbbError>)
    ensures
        match album_author_url(html@, base_url@) {
            Ok(o) => r matches Ok(x) && opt_text(x) == o,
            Err(e) => r == Err::<Option<String>, ImgbbError>(e),
        },
{
    let els = match select_in_document(html, AUTHOR_LINK_SELECTOR) {
        Some(v) => v,
        None => return Err(ImgbbError::InvalidSelector),
    };
    if els.len() == 0 {
        return Ok(None);
    }
    assert(elements_view(els@)[0] == els@[0]@);
    match els[0].attr("href") {
        None => Ok(None),
        Some(h) => match normalize_author_albums_url(base_url, h.as_str()) {
            Ok(u) => Ok(Some(u)),
            Err(e) => Err(e),
        },
    }
}

/// The headers of an image download from an album, as entries.
pub open spec fn album_image_headers(album_url: Seq<char>, cookie_header: Option<Seq<char>>) -> Seq<(Seq<char>, Seq<char>)> {
    let base = crate::downloader::headers::base_headers_spec(album_url).push(("accept"@, crate::downloader::headers::IMAGE_ACCEPT@));
    match cookie_header {
        None => base,
        Some(c) => insert_header_spec(base, "cookie"@, c),
    }
}

/// The headers of an image download from an album: the image download headers with the
/// album as referer, and the session cookie when there is one.
pub fn image_headers_for_album(album_url: &str, cookie_header: Option<&str>) -> (r: Result<HeaderList, ImgbbError>)
    ensures
        r is Err <==> !valid_header_value(album_url@) || (cookie_header matches Some(c) && !valid_header_value(c@)),
        r is Err ==> r == Err::<HeaderList, ImgbbError>(ImgbbError::InvalidHeader),
        r matches Ok(h) ==> h@ == album_image_headers(album_url@, match cookie_header {
            Some(c) => Some(c@),
            None => None,
        }),
{
    let mut h = match image_download_headers(album_url) {
        Ok(h) => h,
        Err(_) => return Err(ImgbbError::InvalidHeader),
    };
    match cookie_header {
        Some(c) => {
            proof {
                reveal_strlit("cookie");
                assert(lower_seq("cookie"@) =~= "cookie"@);
                crate::downloader::headers::lemma_cookie_name_valid();
            }
            match insert_header(&mut h, "cookie", c) {
                Ok(()) => Ok(h),
                Err(_) => Err(ImgbbError::InvalidHeader),
            }
        },
        None => Ok(h),
    }
}

/// One file to download: from where, to where, with which headers.
#[derive(Clone, Debug)]
pub struct AlbumDownloadFile {
    pub url: String,
    pub path: String,
    pub headers: HeaderList,
}

/// The directory of an album and the files to download into it.
#[derive(Clone, Debug)]
pub struct AlbumDownloadPlan {
    pub directory: String,
    pub files: Vec<AlbumDownloadFile>,
}

/// No two files of the plan go to the same path.
pub open spec fn distinct_paths(files: Seq<AlbumDownloadFile>) -> bool {
    forall|i: int, j: int| 0 <= i < j < files.len() ==> files[i].path@ != files[j].path@
}

/// The paths of the files.
pub open spec fn plan_paths(files: Seq<AlbumDownloadFile>) -> Seq<Seq<char>> {
    files.map_values(|f: AlbumDownloadFile| f.path@)
}

/// Adds a file whose path the generator has just handed out.
proof fn lemma_push_distinct(files: Seq<AlbumDownloadFile>, f: AlbumDownloadFile, occupied: Seq<Seq<char>>)
    requires
        distinct_paths(files),
        plan_paths(files) == occupied,
        !occupied.contains(f.path@),
    ensures
        distinct_paths(files.push(f)),
        plan_paths(files.push(f)) == occupied.push(f.path@),
{
    assert(plan_paths(files.push(f)) =~= occupied.push(f.path@));
    assert forall|i: int, j: int| 0 <= i < j < files.push(f).len() implies files.push(f)[i].path@
        != files.push(f)[j].path@ by {
        if j == files.len() {
            assert(occupied[i] == files[i].path@);
        }
    }
}

/// The refusal of an album plan that comes before any file is named: a missing or blank
/// album name, a name that cleans to nothing, missing contents, an invalid naming mode, or
/// header values that cannot be sent.
pub open spec fn plan_precheck(
    album_json: JsonValue,
    mode: AlbumFileNameMode,
    album_url: Seq<char>,
    cookie_header: Option<Seq<char>>,
) -> Option<ImgbbError> {
    match nonempty_trimmed(json_pointer(album_json, "/album/name"@)) {
        None => Some(ImgbbError::JsonField),
        Some(name) => if sanitize_segment(name).len() == 0 {
            Some(ImgbbError::EmptyAlbumName)
        } else if !(json_pointer(album_json, "/contents"@) matches Some(JsonValue::Array(_))) {
            Some(ImgbbError::JsonField)
        } else if mode_error(mode) is Some {
            mode_error(mode)
        } else if !valid_header_value(album_url) || (cookie_header matches Some(c)
            && !valid_header_value(c)) {
            Some(ImgbbError::InvalidHeader)
        } else {
            None
        },
    }
}

/// One listed file has a non-empty URL and a file name that can stand on disk.
pub open spec fn item_usable(item: JsonValue) -> bool {
    &&& nonempty_trimmed(json_get(item, "url"@)) is Some
    &&& nonempty_trimmed(json_get(item, "filename"@)) matches Some(f) && file_name_parts(f) is Some
}

/// Every listed file is usable.
pub open spec fn items_usable(items: Seq<JsonValue>) -> bool {
    forall|i: int| 0 <= i < items.len() ==> #[trigger] item_usable(items[i])
}

/// A file name that, filled into the counting pattern of `mode` with some number, cleans to
/// nothing: the only way a counting name can be refused.
pub open spec fn renders_empty(mode: AlbumFileNameMode, album: Seq<char>, file_name: Seq<char>) -> bool {
    &&& mode matches AlbumFileNameMode::CountPattern(pat)
    &&& file_name_parts(file_name) matches Some((stem, _ext))
    &&& exists|c: nat| sanitize_segment(#[trigger] rendered(pat@, c, album, stem)).len() == 0
}

/// The disk checks reported every path that `mode` offers for some file name as taken: the
/// only way the names run out.
pub open spec fn names_ran_out(mode: AlbumFileNameMode) -> bool {
    exists|g: AlbumFileNameGenerator, stem: Seq<char>, ext: Option<Seq<char>>, on_disk: Seq<bool>|
        g.mode_view() == mode && #[trigger] all_taken(g, stem, ext, on_disk, on_disk.len() as int)
            && on_disk.len() == candidate_limit(g)
}

/// A file that could not be named: a counting name that cleans to nothing, or names that ran
/// out.
proof fn lemma_naming_refused(g: AlbumFileNameGenerator, name: Seq<char>, r: Result<String, ImgbbError>)
    requires
        file_name_parts(name) is None ==> r == Err::<String, ImgbbError>(ImgbbError::EmptyFileName),
        file_name_parts(name) matches Some((stem, ext)) ==> exists|on_disk: Seq<bool>|
            #[trigger] first_free(g, stem, ext, on_disk, r),
    ensures
        r == Err::<String, ImgbbError>(ImgbbError::EmptyRenderedName) ==> renders_empty(
            g.mode_view(),
            g.album_view(),
            name,
        ),
        r == Err::<String, ImgbbError>(ImgbbError::NamesExhausted) ==> names_ran_out(g.mode_view()),
{
    match file_name_parts(name) {
        None => {},
        Some((stem, ext)) => {
            let on_disk = choose|on_disk: Seq<bool>| #[trigger] first_free(g, stem, ext, on_disk, r);
            let n = on_disk.len() as int;
            if r == Err::<String, ImgbbError>(ImgbbError::EmptyRenderedName) {
                assert(candidate(g, stem, ext, n) is None);
                match g.mode_view() {
                    AlbumFileNameMode::CountPattern(pat) => {
                        let c = (g.next_count_view() + n) as nat;
                        assert(sanitize_segment(rendered(pat@, c, g.album_view(), stem)).len() == 0);
                    },
                    AlbumFileNameMode::PreserveOriginal => {},
                }
            }
            if r == Err::<String, ImgbbError>(ImgbbError::NamesExhausted) {
                assert(all_taken(g, stem, ext, on_disk, on_disk.len() as int));
            }
        },
    }
}

/// Plans the download of every file listed by an album's JSON into
/// `<base>/<cleaned album name>`: each file keeps its URL and gets its own path, named by
/// the mode; the album name and the contents are required.
pub fn build_download_plan(
    base_path: &str,
    album_json: &JsonValue,
    file_name_mode: AlbumFileNameMode,
    album_url: &str,
    cookie_header: Option<&str>,
) -> (r: Result<AlbumDownloadPlan, ImgbbError>)
    ensures
        nonempty_trimmed(json_pointer(*album_json, "/album/name"@)) is None ==> r == Err::<
            AlbumDownloadPlan,
            ImgbbError,
        >(ImgbbError::JsonField),
        nonempty_trimmed(json_pointer(*album_json, "/album/name"@)) matches Some(name) && sanitize_segment(name).len() == 0
            ==> r == Err::<AlbumDownloadPlan, ImgbbError>(ImgbbError::EmptyAlbumName),
        r matches Ok(plan) ==> {
            &&& nonempty_trimmed(json_pointer(*album_json, "/album/name"@)) matches Some(name)
                && plan.directory@ == path_join(base_path@, sanitize_segment(name))
            &&& json_pointer(*album_json, "/contents"@) matches Some(JsonValue::Array(items)) && {
                &&& plan.files@.len() == items@.len()
                &&& forall|i: int| 0 <= i < items@.len() ==> nonempty_trimmed(
                    json_get(#[trigger] items@[i], "url"@),
                ) == Some(plan.files@[i].url@)
            }
            &&& distinct_paths(plan.files@)
            &&& forall|i: int| 0 <= i < plan.files@.len() ==> (#[trigger] plan.files@[i]).headers@
                == album_image_headers(album_url@, match cookie_header {
                    Some(c) => Some(c@),
                    None => None,
                })
        },
        ({
            let cookie = match cookie_header {
                Some(c) => Some(c@),
                None => None,
            };
            &&& plan_precheck(*album_json, file_name_mode, album_url@, cookie) matches Some(e)
                ==> r == Err::<AlbumDownloadPlan, ImgbbError>(e)
            &&& r matches Err(e) ==> plan_precheck(*album_json, file_name_mode, album_url@, cookie)
                == Some(e) || e == ImgbbError::JsonField || e == ImgbbError::EmptyFileName
                || e == ImgbbError::NamesExhausted || e == ImgbbError::EmptyRenderedName
            &&& json_pointer(*album_json, "/contents"@) matches Some(JsonValue::Array(items)) ==> (
            (plan_precheck(*album_json, file_name_mode, album_url@, cookie) is None && items_usable(
                items@,
            )) ==> (r is Ok || r == Err::<AlbumDownloadPlan, ImgbbError>(ImgbbError::NamesExhausted)
                || r == Err::<AlbumDownloadPlan, ImgbbError>(ImgbbError::EmptyRenderedName)))
            &&& r == Err::<AlbumDownloadPlan, ImgbbError>(ImgbbError::EmptyRenderedName) ==> (
            json_pointer(*album_json, "/contents"@) matches Some(JsonValue::Array(items))
                && nonempty_trimmed(json_pointer(*album_json, "/album/name"@)) matches Some(name)
                && exists|i: int|
                0 <= i < items@.len() && (nonempty_trimmed(json_get(#[trigger] items@[i], "filename"@))
                    matches Some(f) && renders_empty(file_name_mode, sanitize_segment(name), f)))
            &&& r == Err::<AlbumDownloadPlan, ImgbbError>(ImgbbError::NamesExhausted) ==> names_ran_out(
                file_name_mode,
            )
        }),
{
    let ghost cookie = match cookie_header {
        Some(c) => Some(c@),
        None => None,
    };
    let name = match required_json_string(album_json, "/album/name") {
        Ok(n) => n,
        Err(_) => return Err(ImgbbError::JsonField),
    };
    let dir_name = sanitize_path_segment(name.as_str());
    if dir_name.as_str().is_empty() {
        return Err(ImgbbError::EmptyAlbumName);
    }
    let contents = match required_json_array(album_json, "/contents") {
        Ok(c) => c,
        Err(_) => return Err(ImgbbError::JsonField),
    };
    let directory = join_path_str(base_path, dir_name.as_str());
    let mut generator = match AlbumFileNameGenerator::new(directory.as_str(), name.as_str(), file_name_mode) {
        Ok(g) => g,
        Err(e) => return Err(e),
    };
    let headers = match image_headers_for_album(album_url, cookie_header) {
        Ok(h) => h,
        Err(e) => return Err(e),
    };
    let mut files: Vec<AlbumDownloadFile> = Vec::new();
    let mut index: usize = 0;
    assert(plan_paths(files@) =~= generator.occupied_view());
    while index < contents.len()
        invariant
            index <= contents@.len(),
            json_pointer(*album_json, "/contents"@) == Some(JsonValue::Array(*contents)),
            files@.len() == index,
            forall|i: int| 0 <= i < index ==> nonempty_trimmed(json_get(#[trigger] contents@[i], "url"@))
                == Some(files@[i].url@),
            distinct_paths(files@),
            plan_paths(files@) == generator.occupied_view(),
            nonempty_trimmed(json_pointer(*album_json, "/album/name"@)) == Some(name@),
            sanitize_segment(name@).len() > 0,
            generator.mode_view() == file_name_mode,
            generator.album_view() == sanitize_segment(name@),
            plan_precheck(*album_json, file_name_mode, album_url@, cookie) is None,
            cookie == match cookie_header {
                Some(c) => Some(c@),
                None => None,
            },
            headers@ == album_image_headers(album_url@, cookie),
            forall|i: int| 0 <= i < index ==> (#[trigger] files@[i]).headers@ == headers@,
        decreases contents@.len() - index,
    {
        let item = &contents[index];
        proof {
            if items_usable(contents@) {
                assert(item_usable(contents@[index as int]));
            }
        }
        let filename = match required_json_item_string(item, "filename") {
            Ok(f) => f,
            Err(_) => return Err(ImgbbError::JsonField),
        };
        let url = match required_json_item_string(item, "url") {
            Ok(u) => u,
            Err(_) => return Err(ImgbbError::JsonField),
        };
        let ghost occ = generator.occupied_view();
        let ghost before = generator;
        let named = generator.next_path(filename.as_str());
        let path = match named {
            Ok(p) => p,
            Err(e) => {
                proof {
                    lemma_naming_refused(before, filename@, named);
                    assert(nonempty_trimmed(json_get(contents@[index as int], "filename"@)) == Some(
                        filename@,
                    ));
                }
                return Err(e);
            },
        };
        let f = AlbumDownloadFile { url, path, headers: headers.copy() };
        proof {
            lemma_push_distinct(files@, f, occ);
        }
        files.push(f);
        index = index + 1;
    }
    Ok(AlbumDownloadPlan { directory, files })
}

/// An album read from its pages: its URL, title, author page and images.
#[derive(Clone, Debug, PartialEq, Eq)]
pub struct IbbAlbumDetail {
    pub url: String,
    pub title: String,
    pub author_url: Option<String>,
    pub images: Vec<IbbAlbumImage>,
}

fn contains_id(ids: &Vec<String>, id: &str) -> (b: bool)
    ensures
        b == ids@.map_values(|s: String| s@).contains(id@),
{
    let ghost v = ids@.map_values(|s: String| s@);
    let mut i: usize = 0;
    while i < ids.len()
        invariant
            i <= ids@.len(),
            v == ids@.map_values(|s: String| s@),
            forall|j: int| 0 <= j < i ==> v[j] != id@,
        decreases ids@.len() - i,
    {
        assert(v[i as int] == ids@[i as int]@);
        if str_eq(ids[i].as_str(), id) {
            return true;
        }
        i = i + 1;
    }
    false
}

/// The images chosen by their id or by their image URL, in album order.
pub open spec fn selected_images(images: Seq<IbbAlbumImage>, ids: Seq<Seq<char>>) -> Seq<IbbAlbumImage>
    decreases images.len(),
{
    if images.len() == 0 {
        Seq::empty()
    } else {
        let prev = selected_images(images.drop_last(), ids);
        if ids.contains(images.last().id@) || ids.contains(images.last().image_url@) {
            prev.push(images.last())
        } else {
            prev
        }
    }
}

/// A prefix never has more chosen images than the whole list.
proof fn lemma_selected_prefix(images: Seq<IbbAlbumImage>, ids: Seq<Seq<char>>, k: int)
    requires
        0 <= k <= images.len(),
    ensures
        selected_images(images.take(k), ids).len() <= selected_images(images, ids).len(),
    decreases images.len() - k,
{
    if k < images.len() {
        lemma_selected_prefix(images, ids, k + 1);
        assert(images.take(k + 1).drop_last() =~= images.take(k));
    } else {
        assert(images.take(k) =~= images);
    }
}

/// The chosen images of a prefix come first, in the same order, among those of the whole list.
proof fn lemma_selected_prefix_elems(images: Seq<IbbAlbumImage>, ids: Seq<Seq<char>>, k: int)
    requires
        0 <= k <= images.len(),
    ensures
        selected_images(images.take(k), ids).len() <= selected_images(images, ids).len(),
        forall|j: int| 0 <= j < selected_images(images.take(k), ids).len() ==> selected_images(images.take(k), ids)[j]
            == #[trigger] selected_images(images, ids)[j],
    decreases images.len() - k,
{
    if k < images.len() {
        lemma_selected_prefix_elems(images, ids, k + 1);
        assert(images.take(k + 1).drop_last() =~= images.take(k));
        let a = selected_images(images.take(k), ids);
        let b = selected_images(images.take(k + 1), ids);
        assert forall|j: int| 0 <= j < a.len() implies a[j] == #[trigger] selected_images(images, ids)[j] by {
            assert(b[j] == a[j]);
        }
    } else {
        assert(images.take(k) =~= images);
    }
}

/// Every chosen image has a file name that can stand on disk.
pub open spec fn chosen_names_usable(chosen: Seq<IbbAlbumImage>) -> bool {
    forall|i: int| 0 <= i < chosen.len() ==> file_name_parts((#[trigger] chosen[i]).filename@) is Some
}

/// Plans the download of the chosen images of an album into `<base>/<cleaned title>`;
/// refused when nothing is chosen or none of the chosen images is in the album.
pub fn build_selected_download_plan(
    base_path: &str,
    detail: &IbbAlbumDetail,
    image_ids: &Vec<String>,
    file_name_mode: AlbumFileNameMode,
    cookie_header: Option<&str>,
) -> (r: Result<AlbumDownloadPlan, ImgbbError>)
    ensures
        image_ids@.len() == 0 ==> r == Err::<AlbumDownloadPlan, ImgbbError>(ImgbbError::NoImageSelected),
        image_ids@.len() > 0 && sanitize_segment(detail.title@).len() == 0 ==> r == Err::<
            AlbumDownloadPlan,
            ImgbbError,
        >(ImgbbError::EmptyAlbumName),
        r matches Ok(plan) ==> {
            let chosen = selected_images(detail.images@, image_ids@.map_values(|s: String| s@));
            &&& plan.directory@ == path_join(base_path@, sanitize_segment(detail.title@))
            &&& plan.files@.len() == chosen.len() > 0
            &&& forall|i: int| 0 <= i < chosen.len() ==> plan.files@[i].url@ == (#[trigger] chosen[i]).image_url@
            &&& distinct_paths(plan.files@)
        },
        r is Err && image_ids@.len() > 0 && sanitize_segment(detail.title@).len() > 0
            && mode_error(file_name_mode) is None
            && valid_header_value(detail.url@) && (cookie_header matches Some(c) ==> valid_header_value(c@))
            && selected_images(detail.images@, image_ids@.map_values(|s: String| s@)).len() == 0
            ==> r == Err::<AlbumDownloadPlan, ImgbbError>(ImgbbError::SelectionNotInAlbum),
        ({
            let cookie = match cookie_header {
                Some(c) => Some(c@),
                None => None,
            };
            let chosen = selected_images(detail.images@, image_ids@.map_values(|s: String| s@));
            let ready = image_ids@.len() > 0 && sanitize_segment(detail.title@).len() > 0;
            let headers_ok = valid_header_value(detail.url@) && (cookie_header matches Some(c)
                ==> valid_header_value(c@));
            &&& ready && mode_error(file_name_mode) is Some ==> r == Err::<AlbumDownloadPlan, ImgbbError>(
                mode_error(file_name_mode)->0,
            )
            &&& ready && mode_error(file_name_mode) is None && !headers_ok ==> r == Err::<
                AlbumDownloadPlan,
                ImgbbError,
            >(ImgbbError::InvalidHeader)
            &&& r matches Ok(plan) ==> forall|i: int| 0 <= i < plan.files@.len() ==> (
            #[trigger] plan.files@[i]).headers@ == album_image_headers(detail.url@, cookie)
            &&& r matches Err(e) ==> e == ImgbbError::NoImageSelected || e == ImgbbError::EmptyAlbumName
                || mode_error(file_name_mode) == Some(e) || e == ImgbbError::InvalidHeader || e
                == ImgbbError::SelectionNotInAlbum || e == ImgbbError::EmptyFileName || e
                == ImgbbError::NamesExhausted || e == ImgbbError::EmptyRenderedName
            &&& r == Err::<AlbumDownloadPlan, ImgbbError>(ImgbbError::EmptyRenderedName) ==> exists|i: int|
                0 <= i < chosen.len() && renders_empty(
                    file_name_mode,
                    sanitize_segment(detail.title@),
                    (#[trigger] chosen[i]).filename@,
                )
            &&& r == Err::<AlbumDownloadPlan, ImgbbError>(ImgbbError::NamesExhausted) ==> names_ran_out(
                file_name_mode,
            )
            &&& (ready && mode_error(file_name_mode) is None && headers_ok && chosen.len() > 0
                && chosen_names_usable(chosen)) ==> (r is Ok || r == Err::<
                AlbumDownloadPlan,
                ImgbbError,
            >(ImgbbError::NamesExhausted) || r == Err::<AlbumDownloadPlan, ImgbbError>(
                ImgbbError::EmptyRenderedName,
            ))
        }),
{
    let ghost cookie = match cookie_header {
        Some(c) => Some(c@),
        None => None,
    };
    if image_ids.len() == 0 {
        return Err(ImgbbError::NoImageSelected);
    }
    let dir_name = sanitize_path_segment(detail.title.as_str());
    if dir_name.as_str().is_empty() {
        return Err(ImgbbError::EmptyAlbumName);
    }
    let directory = join_path_str(base_path, dir_name.as_str());
    let mut generator = match AlbumFileNameGenerator::new(directory.as_str(), detail.title.as_str(), file_name_mode) {
        Ok(g) => g,
        Err(e) => return Err(e),
    };
    let headers = match image_headers_for_album(detail.url.as_str(), cookie_header) {
        Ok(h) => h,
        Err(e) => return Err(e),
    };
    let ghost ids = image_ids@.map_values(|s: String| s@);
    let mut files: Vec<AlbumDownloadFile> = Vec::new();
    let mut k: usize = 0;
    assert(plan_paths(files@) =~= generator.occupied_view());
    while k < detail.images.len()
        invariant
            k <= detail.images@.len(),
            ids == image_ids@.map_values(|s: String| s@),
            ({
                let chosen = selected_images(detail.images@.take(k as int), ids);
                &&& files@.len() == chosen.len()
                &&& forall|i: int| 0 <= i < chosen.len() ==> files@[i].url@ == (#[trigger] chosen[i]).image_url@
            }),
            distinct_paths(files@),
            plan_paths(files@) == generator.occupied_view(),
            image_ids@.len() > 0,
            sanitize_segment(detail.title@).len() > 0,
            mode_error(file_name_mode) is None,
            generator.mode_view() == file_name_mode,
            generator.album_view() == sanitize_segment(detail.title@),
            valid_header_value(detail.url@),
            cookie_header matches Some(c) ==> valid_header_value(c@),
            cookie == match cookie_header {
                Some(c) => Some(c@),
                None => None,
            },
            headers@ == album_image_headers(detail.url@, cookie),
            forall|i: int| 0 <= i < files@.len() ==> (#[trigger] files@[i]).headers@ == headers@,
        decreases detail.images@.len() - k,
    {
        let image = &detail.images[k];
        assert(detail.images@.take(k + 1).drop_last() =~= detail.images@.take(k as int));
        assert(detail.images@.take(k + 1).last() == *image);
        if contains_id(image_ids, image.id.as_str()) || contains_id(image_ids, image.image_url.as_str()) {
            proof {
                lemma_selected_prefix(detail.images@, ids, k + 1);
                lemma_selected_prefix_elems(detail.images@, ids, k + 1);
                let pre = selected_images(detail.images@.take(k + 1), ids);
                assert(pre.len() > 0);
                assert(pre[files@.len() as int] == *image);
                assert(selected_images(detail.images@, ids)[files@.len() as int] == *image);
            }
            let ghost occ = generator.occupied_view();
            let ghost before = generator;
            let named = generator.next_path(image.filename.as_str());
            let path = match named {
                Ok(p) => p,
                Err(e) => {
                    proof {
                        lemma_naming_refused(before, image.filename@, named);
                        assert(selected_images(detail.images@, ids)[files@.len() as int] == *image);
                        let chosen = selected_images(detail.images@, ids);
                        if chosen_names_usable(chosen) {
                            assert(file_name_parts(chosen[files@.len() as int].filename@) is Some);
                        }
                    }
                    return Err(e);
                },
            };
            let f = AlbumDownloadFile { url: image.image_url.clone(), path, headers: headers.copy() };
            proof {
                lemma_push_distinct(files@, f, occ);
            }
            files.push(f);
        }
        k = k + 1;
    }
    assert(detail.images@.take(k as int) =~= detail.images@);
    if files.len() == 0 {
        return Err(ImgbbError::SelectionNotInAlbum);
    }
    Ok(AlbumDownloadPlan { directory, files })
}

/// What an album download produced.
#[derive(Clone, Debug, PartialEq, Eq)]
pub struct AlbumDownloadSummary {
    pub directory: String,
    pub downloaded_files: usize,
    pub bytes_written: usize,
}

/// The result of an album task.
#[derive(Clone, Debug, PartialEq, Eq)]
pub struct IbbSpiderReport {
    pub normalized_url: String,
    pub author_url: Option<String>,
    pub download_summary: AlbumDownloadSummary,
}

/// The total of the written bytes, capped at the largest `usize`.
pub open spec fn total_bytes(ds: Seq<SavedDownload>) -> nat
    decreases ds.len(),
{
    if ds.len() == 0 {
        0
    } else {
        let prev = total_bytes(ds.drop_last());
        if prev + ds.last().bytes_written > usize::MAX {
            usize::MAX as nat
        } else {
            (prev + ds.last().bytes_written) as nat
        }
    }
}

/// The bytes of a download summary add up every success, stopping at the largest `usize`:
/// nothing gives zero, one more success adds its bytes (capped), and the total is never below
/// the bytes of any one success.
pub proof fn law_total_bytes_adds_every_success(ds: Seq<SavedDownload>, d: SavedDownload)
    ensures
        total_bytes(Seq::<SavedDownload>::empty()) == 0,
        total_bytes(ds.push(d)) == if total_bytes(ds) + d.bytes_written > usize::MAX {
            usize::MAX as int
        } else {
            total_bytes(ds) + d.bytes_written
        },
        total_bytes(ds) <= usize::MAX,
        forall|i: int| 0 <= i < ds.len() ==> (#[trigger] ds[i]).bytes_written <= total_bytes(ds),
{
    assert(ds.push(d).drop_last() =~= ds);
    lemma_total_bytes_bounds(ds);
}

proof fn lemma_total_bytes_bounds(ds: Seq<SavedDownload>)
    ensures
        total_bytes(ds) <= usize::MAX,
        forall|i: int| 0 <= i < ds.len() ==> (#[trigger] ds[i]).bytes_written <= total_bytes(ds),
    decreases ds.len(),
{
    if ds.len() > 0 {
        let prev = ds.drop_last();
        lemma_total_bytes_bounds(prev);
        assert forall|i: int| 0 <= i < ds.len() implies (#[trigger] ds[i]).bytes_written <= total_bytes(ds) by {
            if i < ds.len() - 1 {
                assert(ds[i] == prev[i]);
            }
        }
    }
}

/// The message of an album download in which some files failed.
pub open spec fn download_failures_message(fs: Seq<Seq<char>>) -> Seq<char> {
    "部分文件下载失败:\n"@ + crate::engine::task_pool::joined_lines(fs)
}

/// Sums up the downloads of an album; refused with every failure listed when some failed.
pub fn collect_download_results(report: TaskPoolReport<SavedDownload>, directory: String) -> (r: Result<AlbumDownloadSummary, String>)
    ensures
        report.failures@.len() > 0 ==> (r matches Err(m) && m@ == download_failures_message(
            report.failures@.map_values(|s: String| s@),
        )),
        report.failures@.len() == 0 ==> (r matches Ok(s) && s.directory == directory
            && s.downloaded_files == report.successes@.len() && s.bytes_written == total_bytes(
            report.successes@,
        )),
{
    if report.failures.len() > 0 {
        let ghost fs = report.failures@.map_values(|s: String| s@);
        let mut out: Vec<char> = Vec::new();
        push_str(&mut out, "部分文件下载失败:\n");
        let ghost head = out@;
        let mut i: usize = 0;
        while i < report.failures.len()
            invariant
                i <= report.failures@.len(),
                fs == report.failures@.map_values(|s: String| s@),
                out@ == head + crate::engine::task_pool::joined_lines(fs.take(i as int)),
            decreases report.failures@.len() - i,
        {
            assert(fs.take(i + 1).drop_last() =~= fs.take(i as int));
            if i > 0 {
                push_str(&mut out, "\n");
            }
            push_str(&mut out, report.failures[i].as_str());
            i = i + 1;
            assert(i == 1 ==> fs.take(1) =~= seq![fs[0]]);
            assert(out@ =~= head + crate::engine::task_pool::joined_lines(fs.take(i as int)));
        }
        assert(fs.take(i as int) =~= fs);
        return Err(string_of(&out));
    }
    let mut files: usize = 0;
    let mut bytes: usize = 0;
    let mut i: usize = 0;
    while i < report.successes.len()
        invariant
            i <= report.successes@.len(),
            files == i,
            bytes == total_bytes(report.successes@.take(i as int)),
        decreases report.successes@.len() - i,
    {
        assert(report.successes@.take(i + 1).drop_last() =~= report.successes@.take(i as int));
        files = files + 1;
        bytes = bytes.saturating_add(report.successes[i].bytes_written);
        i = i + 1;
    }
    assert(report.successes@.take(i as int) =~= report.successes@);
    Ok(AlbumDownloadSummary { directory, downloaded_files: files, bytes_written: bytes })
}

/// What happened in an album download.
#[derive(Clone, Copy, Debug, PartialEq, Eq, Structural)]
pub enum IbbDownloadProgressEvent {
    TotalKnown,
    FileFinished,
}

/// The progress of an album download.
#[derive(Clone, Debug, PartialEq, Eq)]
pub struct IbbDownloadProgress {
    pub album_url: String,
    pub album_title: String,
    pub total_files: usize,
    pub finished_files: usize,
    pub downloaded_files: usize,
    pub bytes_written: usize,
    pub event: IbbDownloadProgressEvent,
}

impl IbbDownloadProgress {
    /// The report sent before the first file: the number of files is known.
    pub fn total_known(album_url: &str, album_title: &str, total_files: usize) -> (p: Self)
        ensures
            p.album_url@ == album_url@,
            p.album_title@ == album_title@,
            p.total_files == total_files,
            p.finished_files == 0,
            p.downloaded_files == 0,
            p.bytes_written == 0,
            p.event == IbbDownloadProgressEvent::TotalKnown,
    {
        IbbDownloadProgress {
            album_url: owned(album_url),
            album_title: owned(album_title),
            total_files,
            finished_files: 0,
            downloaded_files: 0,
            bytes_written: 0,
            event: IbbDownloadProgressEvent::TotalKnown,
        }
    }

    /// The report sent when a file is done: `finished` files are done so far, the last one
    /// with `bytes` bytes.
    pub fn file_finished(album_url: &str, album_title: &str, total_files: usize, finished: usize, bytes: usize) -> (p: Self)
        ensures
            p.album_url@ == album_url@,
            p.album_title@ == album_title@,
            p.total_files == total_files,
            p.finished_files == finished,
            p.downloaded_files == finished,
            p.bytes_written == bytes,
            p.event == IbbDownloadProgressEvent::FileFinished,
    {
        IbbDownloadProgress {
            album_url: owned(album_url),
            album_title: owned(album_title),
            total_files,
            finished_files: finished,
            downloaded_files: finished,
            bytes_written: bytes,
            event: IbbDownloadProgressEvent::FileFinished,
        }
    }
}

} // verus!
