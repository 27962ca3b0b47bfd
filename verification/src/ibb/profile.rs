//! A user's ImgBB site: its album list URL, the albums its pages list, and the walk through
//! its pages.
use vstd::prelude::*;

use crate::analysis::html::{attr_value, elements_view, html_select_fragment, select_in_fragment, ElementView};
use crate::analysis::json::{json_get, json_str, JsonValue};
use crate::form::{form_encode, form_pairs, pair_views};
use crate::ibb::utils::{normalize_url_input, normalized_url_input};
use crate::ibb::ImgbbError;
use crate::text::{decimal, decimal_string, ends_with, owned, push_str, str_eq, string_of, trim, trim_str, chars_of};
use crate::url::{opt_text, parse_url, query_value, set_url_path_fit, set_url_query_fit, url_parse, url_set_path_fit, url_set_query_fit, UrlParts, UrlView};

verus! {

/// One album listed on a user's site.
#[derive(Clone, Debug, PartialEq, Eq)]
pub struct IbbProfileAlbum {
    pub name: String,
    pub url: String,
    pub cover_url: Option<String>,
}

/// Every album of a user's site.
#[derive(Clone, Debug, PartialEq, Eq)]
pub struct IbbProfileReport {
    pub albums: Vec<IbbProfileAlbum>,
}

/// Albums found on one page of a user's site, or the last, empty report.
#[derive(Clone, Debug, PartialEq, Eq)]
pub struct IbbProfileBatch {
    pub page: usize,
    pub albums: Vec<IbbProfileAlbum>,
    pub finished: bool,
}

/// A user's album list URL and the values its JSON API needs.
#[derive(Clone, Debug, PartialEq, Eq)]
pub struct IbbProfileUrl {
    pub normalized_url: String,
    pub origin: String,
    pub json_url: String,
    pub pathname: String,
    pub list: String,
    pub sort: Option<String>,
}

/// The URL with the album list path: a root path becomes `/albums`.
pub open spec fn with_albums_path(u: UrlView) -> Option<UrlView> {
    if u.4 == "/"@ {
        match url_set_path_fit(u.0, "/albums"@) {
            Some(s) => url_parse(s),
            None => None,
        }
    } else {
        Some(u)
    }
}

/// The query of the album list: `list=albums`, then the sort order if one was given.
pub open spec fn list_query(sort: Option<Seq<char>>) -> Seq<char> {
    match sort {
        Some(s) => form_pairs(seq![("list"@, "albums"@), ("sort"@, s)]),
        None => form_pairs(seq![("list"@, "albums"@)]),
    }
}

/// What a parsed user site URL reads as: (normalized URL, origin, sort order), or why it is
/// refused.
pub open spec fn profile_url_of_parts(u0: UrlView) -> Result<(Seq<char>, Seq<char>, Option<Seq<char>>), ImgbbError> {
    let host = match u0.2 {
        Some(h) => h,
        None => Seq::empty(),
    };
    if !ends_with(host, ".imgbb.com"@) {
        Err(ImgbbError::NotProfileHost)
    } else {
        match with_albums_path(u0) {
            None => Err(ImgbbError::InvalidUrl),
            Some(u) => if u.4 != "/albums"@ {
                Err(ImgbbError::NotAlbumList)
            } else {
                let list = match query_value(u.6, "list"@) {
                    Some(l) => l,
                    None => "albums"@,
                };
                if list != "albums"@ {
                    Err(ImgbbError::UnsupportedList)
                } else {
                    let sort = query_value(u.6, "sort"@);
                    match url_set_query_fit(u.0, Some(list_query(sort))) {
                        None => Err(ImgbbError::InvalidUrl),
                        Some(n) => Ok((n, u.1 + "://"@ + host, sort)),
                    }
                }
            },
        }
    }
}

/// What a user site URL reads as: (normalized URL, origin, sort order), or why it is refused.
pub open spec fn profile_url_of(input: Seq<char>) -> Result<(Seq<char>, Seq<char>, Option<Seq<char>>), ImgbbError> {
    match url_parse(normalized_url_input(input)) {
        None => Err(ImgbbError::InvalidUrl),
        Some(u0) => profile_url_of_parts(u0),
    }
}

/// The form fields of a request for one more page of albums.
pub open spec fn albums_json_fields(
    list: Seq<char>,
    sort: Option<Seq<char>>,
    page: nat,
    seek: Seq<char>,
    token: Seq<char>,
    pathname: Seq<char>,
) -> Seq<(Seq<char>, Seq<char>)> {
    let head = match sort {
        Some(s) => seq![("list"@, list), ("sort"@, s)],
        None => seq![("list"@, list)],
    };
    head + seq![
        ("action"@, "list"@),
        ("page"@, decimal(page)),
        ("seek"@, seek),
        ("auth_token"@, token),
        ("pathname"@, pathname),
    ]
}

impl IbbProfileUrl {
    /// Reads a user's album list URL (the scheme may be left out): the host must end in
    /// `.imgbb.com`, the path must be `/` or `/albums`, and the list, if given, `albums`; the
    /// query is rebuilt as `list=albums` with the sort order kept.
    pub fn parse(input: &str) -> (r: Result<Self, ImgbbError>)
        ensures
            match profile_url_of(input@) {
                Ok((n, origin, sort)) => r matches Ok(p) && p.normalized_url@ == n && p.origin@
                    == origin && p.json_url@ == origin + "/json"@ && p.pathname@ == "/albums"@
                    && p.list@ == "albums"@ && opt_text(p.sort) == sort,
                Err(e) => r == Err::<Self, ImgbbError>(e),
            },
    {
        let input = normalize_url_input(input);
        match parse_url(input.as_str()) {
            Some(u0) => IbbProfileUrl::from_parts(u0),
            None => Err(ImgbbError::InvalidUrl),
        }
    }

    /// Reads a user's album list from a parsed URL: the host must end in `.imgbb.com`, the
    /// path must be `/` or `/albums`, and the list, if given, `albums`; the query is rebuilt as
    /// `list=albums` with the sort order kept.
    pub fn from_parts(u0: UrlParts) -> (r: Result<Self, ImgbbError>)
        ensures
            match profile_url_of_parts(u0@) {
                Ok((n, origin, sort)) => r matches Ok(p) && p.normalized_url@ == n && p.origin@
                    == origin && p.json_url@ == origin + "/json"@ && p.pathname@ == "/albums"@
                    && p.list@ == "albums"@ && opt_text(p.sort) == sort,
                Err(e) => r == Err::<Self, ImgbbError>(e),
            },
    {
        proof {
            reveal_strlit("/");
        }
        let host = match &u0.host {
            Some(h) => h.clone(),
            None => String::new(),
        };
        if !crate::text::chars_end_with(&chars_of(host.as_str()), &chars_of(".imgbb.com")) {
            return Err(ImgbbError::NotProfileHost);
        }
        let u = if str_eq(u0.path.as_str(), "/") {
            let s = match set_url_path_fit(u0.serialization.as_str(), "/albums") {
                Some(s) => s,
                None => return Err(ImgbbError::InvalidUrl),
            };
            match parse_url(s.as_str()) {
                Some(u) => u,
                None => return Err(ImgbbError::InvalidUrl),
            }
        } else {
            u0
        };
        if !str_eq(u.path.as_str(), "/albums") {
            return Err(ImgbbError::NotAlbumList);
        }
        let list = match u.query_value("list") {
            Some(l) => l,
            None => owned("albums"),
        };
        if !str_eq(list.as_str(), "albums") {
            return Err(ImgbbError::UnsupportedList);
        }
        let sort = u.query_value("sort");
        let mut pairs: Vec<(String, String)> = Vec::new();
        pairs.push((owned("list"), owned("albums")));
        match &sort {
            Some(s) => pairs.push((owned("sort"), s.clone())),
            None => {},
        }
        assert(pair_views(pairs@) =~= match opt_text(sort) {
            Some(s) => seq![("list"@, "albums"@), ("sort"@, s)],
            None => seq![("list"@, "albums"@)],
        });
        let query = form_encode(pairs.as_slice());
        let normalized = match set_url_query_fit(u.serialization.as_str(), Some(query.as_str())) {
            Some(n) => n,
            None => return Err(ImgbbError::InvalidUrl),
        };
        let mut origin: Vec<char> = Vec::new();
        push_str(&mut origin, u.scheme.as_str());
        push_str(&mut origin, "://");
        push_str(&mut origin, host.as_str());
        let origin = string_of(&origin);
        let mut json: Vec<char> = Vec::new();
        push_str(&mut json, origin.as_str());
        push_str(&mut json, "/json");
        Ok(IbbProfileUrl {
            normalized_url: normalized,
            origin,
            json_url: string_of(&json),
            pathname: owned("/albums"),
            list,
            sort,
        })
    }

    /// The form body that asks the JSON API for one more page of albums.
    pub fn build_albums_json_body(&self, auth_token: &str, page: usize, seek: &str) -> (r: String)
        ensures
            r@ == form_pairs(
                albums_json_fields(
                    self.list@,
                    opt_text(self.sort),
                    page as nat,
                    seek@,
                    auth_token@,
                    self.pathname@,
                ),
            ),
    {
        let mut pairs: Vec<(String, String)> = Vec::new();
        pairs.push((owned("list"), self.list.clone()));
        match &self.sort {
            Some(s) => pairs.push((owned("sort"), s.clone())),
            None => {},
        }
        pairs.push((owned("action"), owned("list")));
        pairs.push((owned("page"), decimal_string(page)));
        pairs.push((owned("seek"), owned(seek)));
        pairs.push((owned("auth_token"), owned(auth_token)));
        pairs.push((owned("pathname"), self.pathname.clone()));
        assert(pair_views(pairs@) =~= albums_json_fields(
            self.list@,
            opt_text(self.sort),
            page as nat,
            seek@,
            auth_token@,
            self.pathname@,
        ));
        form_encode(pairs.as_slice())
    }
}

/// The normalized album list URL of a user's site.
pub fn normalize_profile_url(input_url: &str) -> (r: Result<String, ImgbbError>)
    ensures
        match profile_url_of(input_url@) {
            Ok((n, _, _)) => r matches Ok(x) && x@ == n,
            Err(e) => r == Err::<String, ImgbbError>(e),
        },
{
    match IbbProfileUrl::parse(input_url) {
        Ok(p) => Ok(p.normalized_url),
        Err(e) => Err(e),
    }
}

/// The album items of a user's pages.
pub const ALBUM_ITEM_SELECTOR: &'static str = "div.list-item[data-type=\"album\"]";

/// The link of an album item.
pub const ALBUM_LINK_SELECTOR: &'static str = "div.list-item-image.fixed-size > a";

/// The cover of an album item.
pub const ALBUM_COVER_SELECTOR: &'static str = "div.list-item-image.fixed-size > a > img";

/// An attribute, trimmed, when it is not empty.
pub open spec fn trimmed_attr(attrs: Seq<(Seq<char>, Seq<char>)>, name: Seq<char>) -> Option<Seq<char>> {
    match attr_value(attrs, name) {
        Some(v) => if trim(v).len() > 0 {
            Some(trim(v))
        } else {
            None
        },
        None => None,
    }
}

/// The attribute of the first element of `html` that matches a selector.
pub open spec fn first_attr_in(html: Seq<char>, selector: Seq<char>, name: Seq<char>) -> Result<Option<Seq<char>>, ImgbbError> {
    match html_select_fragment(html, selector) {
        None => Err(ImgbbError::InvalidSelector),
        Some(es) => if es.len() == 0 {
            Ok(None)
        } else {
            Ok(attr_value(es[0].0, name))
        },
    }
}

/// The album an item describes: its trimmed name, its link and its cover, or nothing when
/// the name or the link is missing.
pub open spec fn album_of_item(e: ElementView) -> Result<Option<(Seq<char>, Seq<char>, Option<Seq<char>>)>, ImgbbError> {
    match trimmed_attr(e.0, "data-name"@) {
        None => Ok(None),
        Some(name) => match first_attr_in(e.2, ALBUM_LINK_SELECTOR@, "href"@) {
            Err(x) => Err(x),
            Ok(None) => Ok(None),
            Ok(Some(url)) => match first_attr_in(e.2, ALBUM_COVER_SELECTOR@, "src"@) {
                Err(x) => Err(x),
                Ok(cover) => Ok(Some((name, url, cover))),
            },
        },
    }
}

/// The albums of a list of items, in order.
pub open spec fn albums_of_items(es: Seq<ElementView>) -> Result<Seq<(Seq<char>, Seq<char>, Option<Seq<char>>)>, ImgbbError>
    decreases es.len(),
{
    if es.len() == 0 {
        Ok(Seq::empty())
    } else {
        match albums_of_items(es.drop_last()) {
            Err(x) => Err(x),
            Ok(prev) => match album_of_item(es.last()) {
                Err(x) => Err(x),
                Ok(None) => Ok(prev),
                Ok(Some(a)) => Ok(prev.push(a)),
            },
        }
    }
}

/// An album item that names an album: a non-empty trimmed `data-name` and an album link.
pub open spec fn is_listed_album(e: ElementView) -> bool {
    &&& trimmed_attr(e.0, "data-name"@) is Some
    &&& first_attr_in(e.2, ALBUM_LINK_SELECTOR@, "href"@) matches Ok(Some(_))
}

/// [`is_listed_album`] as a predicate.
pub open spec fn listed_album_pred() -> spec_fn(ElementView) -> bool {
    |e: ElementView| is_listed_album(e)
}

/// The album that a listed item names: its trimmed name, its link and its cover, if any.
pub open spec fn listed_album(e: ElementView) -> (Seq<char>, Seq<char>, Option<Seq<char>>) {
    (
        trimmed_attr(e.0, "data-name"@)->Some_0,
        first_attr_in(e.2, ALBUM_LINK_SELECTOR@, "href"@)->Ok_0->Some_0,
        match first_attr_in(e.2, ALBUM_COVER_SELECTOR@, "src"@) {
            Ok(c) => c,
            Err(_) => None,
        },
    )
}

proof fn lemma_albums_of_items(es: Seq<ElementView>)
    ensures
        albums_of_items(es) matches Ok(albums) ==> {
            let listed = es.filter(listed_album_pred());
            &&& albums.len() == listed.len()
            &&& forall|k: int| 0 <= k < listed.len() ==> albums[k] == listed_album(#[trigger] listed[k])
        },
    decreases es.len(),
{
    if es.len() > 0 {
        lemma_albums_of_items(es.drop_last());
        let pred = listed_album_pred();
        let e = es.last();
        reveal(Seq::filter);
        let prev = es.drop_last().filter(pred);
        assert(es.filter(pred) == if pred(e) {
            prev.push(e)
        } else {
            prev
        });
        match album_of_item(e) {
            Ok(Some(a)) => {
                assert(pred(e));
                assert(a == listed_album(e));
            },
            Ok(None) => {
                assert(!pred(e));
            },
            Err(_) => {},
        }
    }
}

/// Every album item of a page that has a non-empty trimmed name and an album link gives
/// one album, in page order, and nothing else does.
pub proof fn law_every_listed_album_is_kept(html: Seq<char>)
    ensures
        profile_albums_of(html) matches Ok(albums) ==> match html_select_fragment(
            html,
            ALBUM_ITEM_SELECTOR@,
        ) {
            Some(es) => {
                let listed = es.filter(listed_album_pred());
                &&& albums.len() == listed.len()
                &&& forall|k: int| 0 <= k < listed.len() ==> albums[k] == listed_album(#[trigger] listed[k])
            },
            None => false,
        },
{
    match html_select_fragment(html, ALBUM_ITEM_SELECTOR@) {
        Some(es) => lemma_albums_of_items(es),
        None => {},
    }
}

/// The albums listed by a page fragment.
pub open spec fn profile_albums_of(html: Seq<char>) -> Result<Seq<(Seq<char>, Seq<char>, Option<Seq<char>>)>, ImgbbError> {
    match html_select_fragment(html, ALBUM_ITEM_SELECTOR@) {
        None => Err(ImgbbError::InvalidSelector),
        Some(es) => albums_of_items(es),
    }
}

/// An album as texts.
pub open spec fn album_view(a: IbbProfileAlbum) -> (Seq<char>, Seq<char>, Option<Seq<char>>) {
    (a.name@, a.url@, opt_text(a.cover_url))
}

/// The views of a list of albums.
pub open spec fn albums_view(v: Seq<IbbProfileAlbum>) -> Seq<(Seq<char>, Seq<char>, Option<Seq<char>>)> {
    v.map_values(|a: IbbProfileAlbum| album_view(a))
}

fn first_attr(html: &str, selector: &str, name: &str) -> (r: Result<Option<String>, ImgbbError>)
    ensures
        match first_attr_in(html@, selector@, name@) {
            Ok(o) => r matches Ok(x) && opt_text(x) == o,
            Err(e) => r == Err::<Option<String>, ImgbbError>(e),
        },
{
    let es = match select_in_fragment(html, selector) {
        Some(v) => v,
        None => return Err(ImgbbError::InvalidSelector),
    };
    if es.len() == 0 {
        return Ok(None);
    }
    assert(elements_view(es@)[0] == es@[0]@);
    Ok(es[0].attr(name))
}

/// Reads the albums listed by a page of a user's site.
pub fn parse_profile_albums(html: &str) -> (r: Result<Vec<IbbProfileAlbum>, ImgbbError>)
    ensures
        match profile_albums_of(html@) {
            Ok(v) => r matches Ok(x) && albums_view(x@) == v,
            Err(e) => r == Err::<Vec<IbbProfileAlbum>, ImgbbError>(e),
        },
{
    let items = match select_in_fragment(html, ALBUM_ITEM_SELECTOR) {
        Some(v) => v,
        None => return Err(ImgbbError::InvalidSelector),
    };
    let ghost ev = elements_view(items@);
    let mut albums: Vec<IbbProfileAlbum> = Vec::new();
    let mut i: usize = 0;
    assert(ev.take(0) =~= Seq::<ElementView>::empty());
    assert(albums_view(albums@) =~= Seq::<(Seq<char>, Seq<char>, Option<Seq<char>>)>::empty());
    while i < items.len()
        invariant
            i <= items@.len(),
            ev == elements_view(items@),
            html_select_fragment(html@, ALBUM_ITEM_SELECTOR@) == Some(ev),
            albums_of_items(ev.take(i as int)) == Ok::<_, ImgbbError>(albums_view(albums@)),
        decreases items@.len() - i,
    {
        let item = &items[i];
        assert(ev.take(i + 1).drop_last() =~= ev.take(i as int));
        assert(ev.take(i + 1).last() == item@);
        let name = match item.attr("data-name") {
            Some(n) => {
                let t = trim_str(n.as_str());
                if t.as_str().is_empty() {
                    None
                } else {
                    Some(t)
                }
            },
            None => None,
        };
        match name {
            None => {},
            Some(name) => {
                let url = match first_attr(item.outer_html.as_str(), ALBUM_LINK_SELECTOR, "href") {
                    Ok(u) => u,
                    Err(e) => {
                        proof {
                            lemma_albums_err_stays(ev, i as int + 1);
                        }
                        return Err(e);
                    },
                };
                match url {
                    None => {},
                    Some(url) => {
                        let cover = match first_attr(item.outer_html.as_str(), ALBUM_COVER_SELECTOR, "src") {
                            Ok(c) => c,
                            Err(e) => {
                                proof {
                                    lemma_albums_err_stays(ev, i as int + 1);
                                }
                                return Err(e);
                            },
                        };
                        let a = IbbProfileAlbum { name, url, cover_url: cover };
                        let ghost before = albums_view(albums@);
                        albums.push(a);
                        assert(albums_view(albums@) =~= before.push(album_view(a)));
                    },
                }
            },
        }
        i = i + 1;
    }
    assert(ev.take(i as int) =~= ev);
    Ok(albums)
}

/// Once reading the items fails, reading more of them fails the same way.
proof fn lemma_albums_err_stays(es: Seq<ElementView>, k: int)
    requires
        0 <= k <= es.len(),
        albums_of_items(es.take(k)) is Err,
    ensures
        albums_of_items(es) == albums_of_items(es.take(k)),
    decreases es.len() - k,
{
    if k < es.len() {
        assert(es.take(k + 1).drop_last() =~= es.take(k));
        lemma_albums_err_stays(es, k + 1);
    } else {
        assert(es.take(k) =~= es);
    }
}

/// The "load more" button of a user's page.
pub const LOAD_MORE_SELECTOR: &'static str = "button[data-action=\"load-more\"]";

/// The "next page" link of a user's page.
pub const NEXT_PAGE_SELECTOR: &'static str = "a[data-pagination=\"next\"]";

/// The position of the next page: the `data-seek` of the "load more" button, else the
/// `seek` query value of the "next page" link.
pub open spec fn next_seek_of(html: Seq<char>) -> Option<Seq<char>> {
    match first_attr_in(html, LOAD_MORE_SELECTOR@, "data-seek"@) {
        Err(_) => None,
        Ok(Some(seek)) => Some(seek),
        Ok(None) => match first_attr_in(html, NEXT_PAGE_SELECTOR@, "href"@) {
            Ok(Some(href)) => match url_parse(href) {
                Some(u) => query_value(u.6, "seek"@),
                None => None,
            },
            _ => None,
        },
    }
}

/// Reads where the next page of albums starts.
pub fn extract_next_seek(html: &str) -> (r: Option<String>)
    ensures
        opt_text(r) == next_seek_of(html@),
{
    match first_attr(html, LOAD_MORE_SELECTOR, "data-seek") {
        Err(_) => None,
        Ok(Some(seek)) => Some(seek),
        Ok(None) => match first_attr(html, NEXT_PAGE_SELECTOR, "href") {
            Ok(Some(href)) => match parse_url(href.as_str()) {
                Some(u) => u.query_value("seek"),
                None => None,
            },
            _ => None,
        },
    }
}

/// Whether an API answer reports status code 200.
pub fn json_status_ok(response_json: &JsonValue) -> (b: bool)
    ensures
        b == (match json_get(*response_json, "status_code"@) {
            Some(JsonValue::Number(Some(n))) => n == 200,
            _ => false,
        }),
{
    match response_json.get("status_code") {
        Some(v) => match v.as_u64() {
            Some(n) => n == 200,
            None => false,
        },
        None => false,
    }
}

/// The URLs of a list of albums.
pub open spec fn album_urls(v: Seq<(Seq<char>, Seq<char>, Option<Seq<char>>)>) -> Seq<Seq<char>> {
    v.map_values(|a: (Seq<char>, Seq<char>, Option<Seq<char>>)| a.1)
}

/// The albums of a page whose URL was not seen before (nor earlier on the same page).
pub open spec fn unseen_albums(
    seen: Seq<Seq<char>>,
    page: Seq<(Seq<char>, Seq<char>, Option<Seq<char>>)>,
) -> Seq<(Seq<char>, Seq<char>, Option<Seq<char>>)>
    decreases page.len(),
{
    if page.len() == 0 {
        Seq::empty()
    } else {
        let prev = unseen_albums(seen, page.drop_last());
        if seen.contains(page.last().1) || album_urls(prev).contains(page.last().1) {
            prev
        } else {
            prev.push(page.last())
        }
    }
}

/// The albums that a page adds to a walk: each album of the page whose URL was not seen
/// before is kept once, as it first appears on the page; no album with a URL seen before is
/// kept, and no URL is kept twice.
pub proof fn law_new_albums_are_kept_once(
    seen: Seq<Seq<char>>,
    page: Seq<(Seq<char>, Seq<char>, Option<Seq<char>>)>,
)
    ensures
        forall|k: int|
            0 <= k < unseen_albums(seen, page).len() ==> !seen.contains(
                (#[trigger] unseen_albums(seen, page)[k]).1,
            ) && exists|j: int|
                0 <= j < page.len() && #[trigger] page[j] == unseen_albums(seen, page)[k] && forall|i: int|
                    0 <= i < j ==> page[i].1 != page[j].1,
        forall|k1: int, k2: int|
            0 <= k1 < k2 < unseen_albums(seen, page).len() ==> (#[trigger] unseen_albums(seen, page)[k1]).1
                != (#[trigger] unseen_albums(seen, page)[k2]).1,
        forall|j: int|
            0 <= j < page.len() && !seen.contains((#[trigger] page[j]).1) ==> album_urls(
                unseen_albums(seen, page),
            ).contains(page[j].1),
    decreases page.len(),
{
    if page.len() > 0 {
        let p = page.drop_last();
        let x = page.last();
        let n = page.len() - 1;
        law_new_albums_are_kept_once(seen, p);
        let prev = unseen_albums(seen, p);
        let r = unseen_albums(seen, page);
        let kept = !(seen.contains(x.1) || album_urls(prev).contains(x.1));
        assert(r == if kept {
            prev.push(x)
        } else {
            prev
        });
        assert forall|k: int| 0 <= k < r.len() implies !seen.contains((#[trigger] r[k]).1) && exists|j: int|
            0 <= j < page.len() && #[trigger] page[j] == r[k] && forall|i: int|
                0 <= i < j ==> page[i].1 != page[j].1 by {
            if k < prev.len() {
                assert(r[k] == prev[k]);
                let j = choose|j: int|
                    0 <= j < p.len() && #[trigger] p[j] == prev[k] && forall|i: int| 0 <= i < j ==> p[i].1 != p[j].1;
                assert(page[j] == p[j]);
                assert forall|i: int| 0 <= i < j implies page[i].1 != page[j].1 by {
                    assert(page[i] == p[i]);
                }
            } else {
                assert(kept && r[k] == x);
                assert(page[n] == x);
                assert forall|i: int| 0 <= i < n implies page[i].1 != page[n].1 by {
                    assert(page[i] == p[i]);
                    if page[i].1 == x.1 {
                        assert(!seen.contains(p[i].1));
                        assert(album_urls(prev).contains(p[i].1));
                    }
                }
            }
        }
        assert forall|k1: int, k2: int| 0 <= k1 < k2 < r.len() implies (#[trigger] r[k1]).1 != (#[trigger] r[k2]).1 by {
            if k2 < prev.len() {
                assert(r[k1] == prev[k1] && r[k2] == prev[k2]);
            } else {
                assert(r[k1] == prev[k1]);
                assert(album_urls(prev)[k1] == prev[k1].1);
            }
        }
        assert forall|j: int| 0 <= j < page.len() && !seen.contains((#[trigger] page[j]).1) implies album_urls(
            r,
        ).contains(page[j].1) by {
            if j < n {
                assert(page[j] == p[j]);
                assert(album_urls(prev).contains(p[j].1));
                let k = choose|k: int| 0 <= k < album_urls(prev).len() && album_urls(prev)[k] == p[j].1;
                assert(album_urls(r)[k] == album_urls(prev)[k]);
            } else {
                if kept {
                    assert(album_urls(r)[prev.len() as int] == x.1);
                }
            }
        }
    }
}

/// The walk through the pages of a user's site: the albums found so far, the next page
/// number and where it starts.
#[derive(Clone, Debug)]
pub struct ProfileCrawl {
    albums: Vec<IbbProfileAlbum>,
    first_page_count: usize,
    page: usize,
    seek: Option<String>,
    done: bool,
}

impl ProfileCrawl {
    /// The albums found so far.
    pub closed spec fn albums_spec(&self) -> Seq<(Seq<char>, Seq<char>, Option<Seq<char>>)> {
        albums_view(self.albums@)
    }

    /// How many albums the first page listed.
    pub closed spec fn first_count(&self) -> usize {
        self.first_page_count
    }

    /// The number of the next page.
    pub closed spec fn page_spec(&self) -> usize {
        self.page
    }

    /// Where the next page starts.
    pub closed spec fn seek_spec(&self) -> Option<Seq<char>> {
        opt_text(self.seek)
    }

    /// The walk is over.
    pub closed spec fn done_spec(&self) -> bool {
        self.done
    }

    /// Every album found after the first page has a URL found nowhere before it.
    pub open spec fn later_urls_fresh(&self) -> bool {
        let v = self.albums_spec();
        forall|i: int, j: int| 0 <= i < j < v.len() && j >= self.first_count() ==> v[i].1 != v[j].1
    }

    /// Starts from the first page: its albums (reported as page 1 when there are some) and
    /// where the second page starts.
    pub fn start(initial_html: &str) -> (r: Result<(Self, Option<IbbProfileBatch>), ImgbbError>)
        ensures
            match profile_albums_of(initial_html@) {
                Err(e) => r == Err::<(Self, Option<IbbProfileBatch>), ImgbbError>(e),
                Ok(v) => r matches Ok((c, b)) && {
                    &&& c.albums_spec() == v
                    &&& c.first_count() == v.len()
                    &&& c.page_spec() == 2
                    &&& c.seek_spec() == next_seek_of(initial_html@)
                    &&& !c.done_spec()
                    &&& c.later_urls_fresh()
                    &&& (v.len() == 0 ==> b is None)
                    &&& (v.len() > 0 ==> (b matches Some(batch) && batch.page == 1 && albums_view(
                        batch.albums@,
                    ) == v && !batch.finished))
                },
            },
    {
        let albums = match parse_profile_albums(initial_html) {
            Ok(a) => a,
            Err(e) => return Err(e),
        };
        let batch = if albums.len() > 0 {
            Some(IbbProfileBatch { page: 1, albums: copy_albums(&albums), finished: false })
        } else {
            None
        };
        let n = albums.len();
        Ok((ProfileCrawl { albums, first_page_count: n, page: 2, seek: extract_next_seek(initial_html), done: false }, batch))
    }

    /// The next page to ask for (its number and where it starts), or `None` when the walk
    /// is over or no non-empty start is known.
    pub fn next_request(&self) -> (r: Option<(usize, String)>)
        ensures
            match r {
                Some((page, seek)) => !self.done_spec() && page == self.page_spec() && self.seek_spec()
                    == Some(seek@) && seek@.len() > 0,
                None => self.done_spec() || !(self.seek_spec() matches Some(s) && s.len() > 0),
            },
    {
        if self.done {
            return None;
        }
        match &self.seek {
            Some(s) => {
                if s.as_str().is_empty() {
                    None
                } else {
                    Some((self.page, s.clone()))
                }
            },
            None => None,
        }
    }

    fn seen(&self, url: &str) -> (b: bool)
        ensures
            b == album_urls(self.albums_spec()).contains(url@),
    {
        let ghost v = album_urls(self.albums_spec());
        let mut i: usize = 0;
        while i < self.albums.len()
            invariant
                i <= self.albums@.len(),
                v == album_urls(self.albums_spec()),
                v.len() == self.albums@.len(),
                forall|j: int| 0 <= j < i ==> v[j] != url@,
            decreases self.albums@.len() - i,
        {
            assert(v[i as int] == self.albums@[i as int].url@);
            if str_eq(self.albums[i].url.as_str(), url) {
                return true;
            }
            i = i + 1;
        }
        false
    }

    /// Takes the API answer for the next page: its albums not seen before are added and
    /// reported; a page without albums, or without new ones, ends the walk; otherwise the
    /// page number advances and the answer's `seekEnd` tells where the next page starts.
    pub fn absorb(&mut self, response_json: &JsonValue) -> (r: Result<Option<IbbProfileBatch>, ImgbbError>)
        requires
            old(self).later_urls_fresh(),
        ensures
            final(self).later_urls_fresh(),
            final(self).first_count() == old(self).first_count(),
            ({
                let html = match json_str(json_get(*response_json, "html"@)) {
                    Some(h) => h,
                    None => Seq::empty(),
                };
                match profile_albums_of(html) {
                    Err(e) => r == Err::<Option<IbbProfileBatch>, ImgbbError>(e),
                    Ok(page) => {
                        let fresh = unseen_albums(album_urls(old(self).albums_spec()), page);
                        if fresh.len() == 0 {
                            &&& r == Ok::<Option<IbbProfileBatch>, ImgbbError>(None)
                            &&& final(self).done_spec()
                            &&& final(self).albums_spec() == old(self).albums_spec()
                        } else {
                            &&& r matches Ok(Some(b)) && b.page == old(self).page_spec() && albums_view(
                                b.albums@,
                            ) == fresh && !b.finished
                            &&& final(self).albums_spec() == old(self).albums_spec() + fresh
                            &&& final(self).page_spec() == (if old(self).page_spec() == usize::MAX {
                                usize::MAX
                            } else {
                                (old(self).page_spec() + 1) as usize
                            })
                            &&& final(self).seek_spec() == json_str(json_get(*response_json, "seekEnd"@))
                            &&& final(self).done_spec() == old(self).done_spec()
                        }
                    },
                }
            }),
    {
        let html = match response_json.get("html") {
            Some(v) => match v.as_str() {
                Some(h) => owned(h),
                None => String::new(),
            },
            None => String::new(),
        };
        let page_albums = match parse_profile_albums(html.as_str()) {
            Ok(a) => a,
            Err(e) => return Err(e),
        };
        let ghost seen0 = album_urls(self.albums_spec());
        let ghost a0 = self.albums_spec();
        let ghost pv = albums_view(page_albums@);
        let mut fresh: Vec<IbbProfileAlbum> = Vec::new();
        let mut i: usize = 0;
        while i < page_albums.len()
            invariant
                i <= page_albums@.len(),
                pv == albums_view(page_albums@),
                seen0 == album_urls(a0),
                a0 == old(self).albums_spec(),
                self.albums_spec() == a0 + albums_view(fresh@),
                albums_view(fresh@) == unseen_albums(seen0, pv.take(i as int)),
                self.first_count() == old(self).first_count(),
                self.page_spec() == old(self).page_spec(),
                self.seek_spec() == old(self).seek_spec(),
                self.done_spec() == old(self).done_spec(),
                self.later_urls_fresh(),
            decreases page_albums@.len() - i,
        {
            let a = &page_albums[i];
            assert(pv.take(i + 1).drop_last() =~= pv.take(i as int));
            assert(pv.take(i + 1).last() == album_view(*a));
            let ghost all0 = self.albums_spec();
            assert(album_urls(all0) =~= seen0 + album_urls(albums_view(fresh@)));
            proof {
                lemma_concat_contains(seen0, album_urls(albums_view(fresh@)), a.url@);
            }
            if !self.seen(a.url.as_str()) {
                let c = copy_album(a);
                let ghost fv = albums_view(fresh@);
                fresh.push(copy_album(a));
                self.albums.push(c);
                assert(albums_view(fresh@) =~= fv.push(album_view(*a)));
                assert(self.albums_spec() =~= all0.push(album_view(*a)));
                assert(self.albums_spec() =~= a0 + albums_view(fresh@));
                assert forall|p: int, q: int|
                    0 <= p < q < self.albums_spec().len() && q >= self.first_count() implies self.albums_spec()[p].1
                    != self.albums_spec()[q].1 by {
                    if q == all0.len() {
                        assert(album_urls(all0)[p] == all0[p].1);
                    }
                }
            }
            i = i + 1;
        }
        assert(pv.take(i as int) =~= pv);
        if fresh.len() == 0 {
            self.done = true;
            return Ok(None);
        }
        let batch = IbbProfileBatch { page: self.page, albums: fresh, finished: false };
        self.page = self.page.saturating_add(1);
        self.seek = match response_json.get("seekEnd") {
            Some(v) => match v.as_str() {
                Some(s) => Some(owned(s)),
                None => None,
            },
            None => None,
        };
        Ok(Some(batch))
    }

    /// Ends the walk: the last, empty report (numbered after the last page with albums) and
    /// every album found.
    pub fn finish(self) -> (r: (IbbProfileBatch, IbbProfileReport))
        ensures
            r.0.page == (if self.page_spec() <= 1 {
                1
            } else {
                self.page_spec() - 1
            }),
            r.0.albums@.len() == 0,
            r.0.finished,
            albums_view(r.1.albums@) == self.albums_spec(),
    {
        let page = if self.page <= 1 {
            1
        } else {
            self.page - 1
        };
        (IbbProfileBatch { page, albums: Vec::new(), finished: true }, IbbProfileReport { albums: self.albums })
    }
}

/// A text occurs in a concatenation when it occurs in one of the parts.
proof fn lemma_concat_contains(a: Seq<Seq<char>>, b: Seq<Seq<char>>, x: Seq<char>)
    ensures
        (a + b).contains(x) <==> (a.contains(x) || b.contains(x)),
{
    if a.contains(x) {
        let i = choose|i: int| 0 <= i < a.len() && a[i] == x;
        assert((a + b)[i] == x);
    }
    if b.contains(x) {
        let i = choose|i: int| 0 <= i < b.len() && b[i] == x;
        assert((a + b)[a.len() + i] == x);
    }
    if (a + b).contains(x) {
        let i = choose|i: int| 0 <= i < (a + b).len() && (a + b)[i] == x;
        if i < a.len() {
            assert(a[i] == x);
        } else {
            assert(b[i - a.len()] == x);
        }
    }
}

fn copy_album(a: &IbbProfileAlbum) -> (r: IbbProfileAlbum)
    ensures
        album_view(r) == album_view(*a),
{
    IbbProfileAlbum {
        name: a.name.clone(),
        url: a.url.clone(),
        cover_url: match &a.cover_url {
            Some(c) => Some(c.clone()),
            None => None,
        },
    }
}

fn copy_albums(v: &Vec<IbbProfileAlbum>) -> (r: Vec<IbbProfileAlbum>)
    ensures
        albums_view(r@) == albums_view(v@),
{
    let mut r: Vec<IbbProfileAlbum> = Vec::new();
    let mut i: usize = 0;
    while i < v.len()
        invariant
            i <= v@.len(),
            albums_view(r@) == albums_view(v@).take(i as int),
        decreases v@.len() - i,
    {
        let ghost before = albums_view(r@);
        r.push(copy_album(&v[i]));
        assert(albums_view(r@) =~= before.push(album_view(v@[i as int])));
        i = i + 1;
        assert(albums_view(r@) =~= albums_view(v@).take(i as int));
    }
    assert(albums_view(v@).take(i as int) =~= albums_view(v@));
    r
}

} // verus!
