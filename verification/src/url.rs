//! URLs, parsed and rebuilt by the `url` parser that `reqwest` re-exports.
use vstd::prelude::*;

use crate::text::split_char;

verus! {

/// The parts of a parsed URL that the library reads.
#[derive(Clone, Debug)]
pub struct UrlParts {
    /// The whole URL as the parser writes it out.
    pub serialization: String,
    pub scheme: String,
    pub host: Option<String>,
    /// The port when it is given and is not the scheme's default.
    pub port: Option<u16>,
    /// The host when it is a domain name rather than an IP address.
    pub domain: Option<String>,
    pub path: String,
    pub query: Option<String>,
    /// The query as decoded `application/x-www-form-urlencoded` pairs.
    pub query_pairs: Vec<(String, String)>,
}

/// The parts as texts: (serialization, scheme, host, domain, path, query, query pairs,
/// port).
pub type UrlView = (
    Seq<char>,
    Seq<char>,
    Option<Seq<char>>,
    Option<Seq<char>>,
    Seq<char>,
    Option<Seq<char>>,
    Seq<(Seq<char>, Seq<char>)>,
    Option<u16>,
);

/// An optional string as an optional text.
pub open spec fn opt_text(o: Option<String>) -> Option<Seq<char>> {
    match o {
        Some(s) => Some(s@),
        None => None,
    }
}

impl View for UrlParts {
    type V = UrlView;

    open spec fn view(&self) -> UrlView {
        (
            self.serialization@,
            self.scheme@,
            opt_text(self.host),
            opt_text(self.domain),
            self.path@,
            opt_text(self.query),
            self.query_pairs@.map_values(|e: (String, String)| (e.0@, e.1@)),
            self.port,
        )
    }
}

/// What `Url::parse` makes of a text, taken by its parts; `None` when it is no URL.
pub uninterp spec fn url_parse(input: Seq<char>) -> Option<UrlView>;

/// What `Url::parse(base)` joined with `href` by `Url::join` gives, written out.
pub uninterp spec fn url_join(base: Seq<char>, href: Seq<char>) -> Option<Seq<char>>;

/// The URL written out after `Url::set_path` on the parsed URL.
pub uninterp spec fn url_set_path(url: Seq<char>, path: Seq<char>) -> Option<Seq<char>>;

/// The URL written out after `Url::set_query` on the parsed URL.
pub uninterp spec fn url_set_query(url: Seq<char>, query: Option<Seq<char>>) -> Option<Seq<char>>;

/// The URL written out after `Url::set_fragment(None)` on the parsed URL.
pub uninterp spec fn url_without_fragment(url: Seq<char>) -> Option<Seq<char>>;

/// Parses a URL with `reqwest::Url::parse` and reads its parts (`as_str`, `scheme`,
/// `host_str`, `port`, `domain`, `path`, `query`, `query_pairs`). The contract
/// only names the result: the WHATWG parsing rules are not restated here.
#[verifier::external_body]
pub(crate) fn parse_url(input: &str) -> (r: Option<UrlParts>)
    ensures
        match url_parse(input@) {
            Some(v) => r matches Some(p) && p@ == v,
            None => r is None,
        },
{
    match reqwest::Url::parse(input) {
        Ok(u) => Some(UrlParts {
            serialization: u.as_str().to_string(),
            scheme: u.scheme().to_string(),
            host: u.host_str().map(|x| x.to_string()),
            port: u.port(),
            domain: u.domain().map(|x| x.to_string()),
            path: u.path().to_string(),
            query: u.query().map(|x| x.to_string()),
            query_pairs: u.query_pairs().map(|(k, v)| (k.into_owned(), v.into_owned())).collect(),
        }),
        Err(_) => None,
    }
}

/// Resolves `href` against `base` with `reqwest::Url::parse` and `Url::join`; `None` when
/// either step fails. The result is only named.
#[verifier::external_body]
pub(crate) fn join_url(base: &str, href: &str) -> (r: Option<String>)
    ensures
        opt_text(r) == url_join(base@, href@),
{
    match reqwest::Url::parse(base) {
        Ok(b) => match b.join(href) {
            Ok(u) => Some(u.to_string()),
            Err(_) => None,
        },
        Err(_) => None,
    }
}

/// Replaces the path of a URL with `Url::set_path`; `None` when the text is no URL. The
/// result is only named. `Url` keeps positions in `u32`, so the rewritten URL must stay below
/// 4 GiB: each character of the input and of the path takes at most 12 bytes once
/// percent-encoded, which `rewrite_fits` bounds.
#[verifier::external_body]
pub(crate) fn set_url_path(url: &str, path: &str) -> (r: Option<String>)
    requires
        rewrite_fits(url@.len(), path@.len()),
    ensures
        opt_text(r) == url_set_path(url@, path@),
{
    match reqwest::Url::parse(url) {
        Ok(mut u) => {
            u.set_path(path);
            Some(u.to_string())
        },
        Err(_) => None,
    }
}

/// Replaces the query of a URL with `Url::set_query`; `None` when the text is no URL. The
/// result is only named. The rewritten URL must stay below 4 GiB (see `rewrite_fits`).
#[verifier::external_body]
pub(crate) fn set_url_query(url: &str, query: Option<&str>) -> (r: Option<String>)
    requires
        rewrite_fits(
            url@.len(),
            match query {
                Some(q) => q@.len(),
                None => 0,
            },
        ),
    ensures
        opt_text(r) == url_set_query(
            url@,
            match query {
                Some(q) => Some(q@),
                None => None,
            },
        ),
{
    match reqwest::Url::parse(url) {
        Ok(mut u) => {
            u.set_query(query);
            Some(u.to_string())
        },
        Err(_) => None,
    }
}

/// Drops the fragment of a URL with `Url::set_fragment(None)`; `None` when the text is no
/// URL. The result is only named.
#[verifier::external_body]
pub(crate) fn clear_url_fragment(url: &str) -> (r: Option<String>)
    ensures
        opt_text(r) == url_without_fragment(url@),
{
    match reqwest::Url::parse(url) {
        Ok(mut u) => {
            u.set_fragment(None);
            Some(u.to_string())
        },
        Err(_) => None,
    }
}

/// The URL written out after `url.query_pairs_mut().clear().extend_pairs(pairs)` on the
/// parsed URL.
pub uninterp spec fn url_with_query_pairs(url: Seq<char>, pairs: Seq<(Seq<char>, Seq<char>)>) -> Option<Seq<char>>;

/// Replaces the query of a URL by form-encoded pairs with `Url::query_pairs_mut`, `clear`
/// and `extend_pairs`; `None` when the text is no URL. The result is only named. The
/// rewritten URL must stay below 4 GiB (see `rewrite_fits`).
#[verifier::external_body]
pub(crate) fn replace_query_pairs(url: &str, pairs: &Vec<(String, String)>) -> (r: Option<String>)
    requires
        rewrite_fits(url@.len(), pairs_len(pairs@.map_values(|e: (String, String)| (e.0@, e.1@)))),
    ensures
        opt_text(r) == url_with_query_pairs(url@, pairs@.map_values(|e: (String, String)| (e.0@, e.1@))),
{
    match reqwest::Url::parse(url) {
        Ok(mut u) => {
            u.query_pairs_mut().clear().extend_pairs(pairs.iter());
            Some(u.to_string())
        },
        Err(_) => None,
    }
}

/// A URL of `url_len` characters rewritten with `extra_len` more characters stays within the
/// `u32` positions of `Url`: every character takes at most 12 bytes percent-encoded, and 64
/// bytes are left for separators the parser adds.
pub open spec fn rewrite_fits(url_len: nat, extra_len: nat) -> bool {
    12 * url_len + 12 * extra_len + 64 <= u32::MAX
}

/// The characters that form-encoded pairs add: each key and value and two separators.
pub open spec fn pairs_len(pairs: Seq<(Seq<char>, Seq<char>)>) -> nat
    decreases pairs.len(),
{
    if pairs.len() == 0 {
        0
    } else {
        pairs_len(pairs.drop_last()) + pairs.last().0.len() + pairs.last().1.len() + 2
    }
}

proof fn lemma_pairs_len_prefix(pairs: Seq<(Seq<char>, Seq<char>)>, i: int)
    requires
        0 <= i <= pairs.len(),
    ensures
        pairs_len(pairs.take(i)) <= pairs_len(pairs),
    decreases pairs.len() - i,
{
    if i < pairs.len() {
        lemma_pairs_len_prefix(pairs, i + 1);
        assert(pairs.take(i + 1).drop_last() =~= pairs.take(i));
    } else {
        assert(pairs.take(i) =~= pairs);
    }
}

fn fits(url_len: usize, extra_len: u128) -> (b: bool)
    requires
        extra_len <= u32::MAX,
    ensures
        b == rewrite_fits(url_len as nat, extra_len as nat),
{
    (url_len as u128) * 12 + extra_len * 12 + 64 <= 4294967295u128
}

/// `Url::set_path` on a URL, refused when the result could outgrow `Url`'s positions.
pub open spec fn url_set_path_fit(url: Seq<char>, path: Seq<char>) -> Option<Seq<char>> {
    if rewrite_fits(url.len(), path.len()) {
        url_set_path(url, path)
    } else {
        None
    }
}

/// `Url::set_query` on a URL, refused when the result could outgrow `Url`'s positions.
pub open spec fn url_set_query_fit(url: Seq<char>, query: Option<Seq<char>>) -> Option<Seq<char>> {
    if rewrite_fits(
        url.len(),
        match query {
            Some(q) => q.len(),
            None => 0,
        },
    ) {
        url_set_query(url, query)
    } else {
        None
    }
}

/// The query of a URL replaced by pairs, refused when the result could outgrow `Url`'s
/// positions.
pub open spec fn url_with_query_pairs_fit(url: Seq<char>, pairs: Seq<(Seq<char>, Seq<char>)>) -> Option<Seq<char>> {
    if rewrite_fits(url.len(), pairs_len(pairs)) {
        url_with_query_pairs(url, pairs)
    } else {
        None
    }
}

/// Replaces the path of a URL, after checking that the result fits.
pub(crate) fn set_url_path_fit(url: &str, path: &str) -> (r: Option<String>)
    ensures
        opt_text(r) == url_set_path_fit(url@, path@),
{
    let ul = crate::text::chars_of(url).len();
    let pl = crate::text::chars_of(path).len();
    if pl as u128 > 4294967295u128 || !fits(ul, pl as u128) {
        return None;
    }
    set_url_path(url, path)
}

/// Replaces the query of a URL, after checking that the result fits.
pub(crate) fn set_url_query_fit(url: &str, query: Option<&str>) -> (r: Option<String>)
    ensures
        opt_text(r) == url_set_query_fit(
            url@,
            match query {
                Some(q) => Some(q@),
                None => None,
            },
        ),
{
    let ul = crate::text::chars_of(url).len();
    let ql: usize = match query {
        Some(q) => crate::text::chars_of(q).len(),
        None => 0,
    };
    if ql as u128 > 4294967295u128 || !fits(ul, ql as u128) {
        return None;
    }
    set_url_query(url, query)
}

/// Replaces the query of a URL by form-encoded pairs, after checking that the result fits.
pub(crate) fn replace_query_pairs_fit(url: &str, pairs: &Vec<(String, String)>) -> (r: Option<String>)
    ensures
        opt_text(r) == url_with_query_pairs_fit(url@, pairs@.map_values(|e: (String, String)| (e.0@, e.1@))),
{
    let ghost pv = pairs@.map_values(|e: (String, String)| (e.0@, e.1@));
    let ul = crate::text::chars_of(url).len();
    if !fits(ul, 0) {
        return None;
    }
    let mut total: u128 = 0;
    let mut i: usize = 0;
    while i < pairs.len()
        invariant
            i <= pairs@.len(),
            rewrite_fits(ul as nat, total as nat),
            pv == pairs@.map_values(|e: (String, String)| (e.0@, e.1@)),
            total == pairs_len(pv.take(i as int)),
            total <= u32::MAX,
            ul == url@.len(),
        decreases pairs@.len() - i,
    {
        let kl = crate::text::chars_of(pairs[i].0.as_str()).len();
        let vl = crate::text::chars_of(pairs[i].1.as_str()).len();
        proof {
            assert(pv.take(i + 1).drop_last() =~= pv.take(i as int));
            assert(pv.take(i + 1).last() == pv[i as int]);
            assert(pv[i as int] == (pairs@[i as int].0@, pairs@[i as int].1@));
        }
        let next: u128 = total + kl as u128 + vl as u128 + 2;
        if next > 4294967295u128 || !fits(ul, next) {
            proof {
                lemma_pairs_len_prefix(pv, i + 1);
            }
            return None;
        }
        total = next;
        i = i + 1;
    }
    assert(pv.take(i as int) =~= pv);
    replace_query_pairs(url, pairs)
}

/// `Url::path_segments`: the path after its leading `/`, split on `/`; none for a path that
/// does not start with `/`.
pub open spec fn path_segments(u: UrlView) -> Option<Seq<Seq<char>>> {
    if u.4.len() > 0 && u.4[0] == '/' {
        Some(split_char(u.4.drop_first(), '/'))
    } else {
        None
    }
}

/// The value of the first query pair with this key.
pub open spec fn query_value(pairs: Seq<(Seq<char>, Seq<char>)>, key: Seq<char>) -> Option<Seq<char>>
    decreases pairs.len(),
{
    if pairs.len() == 0 {
        None
    } else if pairs[0].0 == key {
        Some(pairs[0].1)
    } else {
        query_value(pairs.drop_first(), key)
    }
}

impl UrlParts {
    /// The value of the first query pair with this key.
    pub fn query_value(&self, key: &str) -> (r: Option<String>)
        ensures
            opt_text(r) == query_value(self@.6, key@),
    {
        let ghost pv = self@.6;
        let mut i: usize = 0;
        assert(pv.skip(0) =~= pv);
        while i < self.query_pairs.len()
            invariant
                i <= self.query_pairs@.len(),
                pv == self@.6,
                pv.len() == self.query_pairs@.len(),
                query_value(pv, key@) == query_value(pv.skip(i as int), key@),
            decreases self.query_pairs@.len() - i,
        {
            assert(pv.skip(i as int).drop_first() =~= pv.skip(i + 1));
            assert(pv.skip(i as int)[0] == pv[i as int]);
            assert(pv[i as int] == (self.query_pairs@[i as int].0@, self.query_pairs@[i as int].1@));
            if crate::text::str_eq(self.query_pairs[i].0.as_str(), key) {
                return Some(self.query_pairs[i].1.clone());
            }
            i = i + 1;
        }
        assert(pv.skip(i as int).len() == 0);
        None
    }
}

} // verus!
