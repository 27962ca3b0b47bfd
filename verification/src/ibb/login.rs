//! ImgBB login state: cookies, profile URLs and the values read from signed-in pages.
use vstd::prelude::*;

use super::utils::{auth_token_spec, extract_auth_token, quoted_after, quoted_value_after};
use crate::analysis::html::{attr_value, elements_view, html_select_document, select_in_document};
use crate::downloader::headers::{
    base_headers_spec, browser_page_headers, insert_header, HTML_ACCEPT,
};
use crate::downloader::request::{insert_header_spec, valid_header_name, valid_header_value, HeaderList};
use crate::error::LlphaError;
use super::ImgbbError;
use crate::form::{form_encode, form_pairs, pair, pair_views};
use crate::text::{
    char_is_ascii_alnum, chars_eq_ignore_case, chars_of, contains, eq_ignore_case, find_char,
    is_ascii_alnum, lower_chars, lower_seq, push_chars, push_str, range_pieces, seq_eq,
    split_char, split_char_ranges, split_once_char, split_once_chars, str_contains, string_of,
    sub_vec, trim, trim_chars, trim_str, str_starts_with, starts_with, owned, trim_back_by,
};

verus! {

/// One cookie from an ImgBB `Set-Cookie` header.
#[derive(Clone, Debug, PartialEq, Eq)]
pub struct IbbCookie {
    pub name: String,
    pub value: String,
    pub domain: Option<String>,
    pub path: Option<String>,
    pub expires: Option<String>,
    pub max_age: Option<String>,
    pub same_site: Option<String>,
    pub secure: bool,
    pub http_only: bool,
}

/// The mathematical content of an [`IbbCookie`].
pub struct CookieModel {
    pub name: Seq<char>,
    pub value: Seq<char>,
    pub domain: Option<Seq<char>>,
    pub path: Option<Seq<char>>,
    pub expires: Option<Seq<char>>,
    pub max_age: Option<Seq<char>>,
    pub same_site: Option<Seq<char>>,
    pub secure: bool,
    pub http_only: bool,
}

/// The character view of an optional string.
pub open spec fn opt_view(o: Option<String>) -> Option<Seq<char>> {
    match o {
        Some(s) => Some(s@),
        None => None,
    }
}

impl View for IbbCookie {
    type V = CookieModel;

    open spec fn view(&self) -> CookieModel {
        CookieModel {
            name: self.name@,
            value: self.value@,
            domain: opt_view(self.domain),
            path: opt_view(self.path),
            expires: opt_view(self.expires),
            max_age: opt_view(self.max_age),
            same_site: opt_view(self.same_site),
            secure: self.secure,
            http_only: self.http_only,
        }
    }
}

/// A cookie with a name and value and no attributes.
pub open spec fn base_cookie(name: Seq<char>, value: Seq<char>) -> CookieModel {
    CookieModel {
        name,
        value,
        domain: None,
        path: None,
        expires: None,
        max_age: None,
        same_site: None,
        secure: false,
        http_only: false,
    }
}

/// Applies one `;`-separated attribute of a `Set-Cookie` header.
pub open spec fn apply_cookie_attr(c: CookieModel, part: Seq<char>) -> CookieModel {
    let t = trim(part);
    if eq_ignore_case(t, "secure"@) {
        CookieModel { secure: true, ..c }
    } else if eq_ignore_case(t, "httponly"@) {
        CookieModel { http_only: true, ..c }
    } else {
        match split_once_char(t, '=') {
            None => c,
            Some((k, v)) => {
                let key = lower_seq(k);
                if key == "domain"@ {
                    CookieModel { domain: Some(v), ..c }
                } else if key == "path"@ {
                    CookieModel { path: Some(v), ..c }
                } else if key == "expires"@ {
                    CookieModel { expires: Some(v), ..c }
                } else if key == "max-age"@ {
                    CookieModel { max_age: Some(v), ..c }
                } else if key == "samesite"@ {
                    CookieModel { same_site: Some(v), ..c }
                } else {
                    c
                }
            },
        }
    }
}

/// Applies the attributes in order, later ones overriding earlier ones.
pub open spec fn apply_cookie_attrs(c: CookieModel, parts: Seq<Seq<char>>) -> CookieModel
    decreases parts.len(),
{
    if parts.len() == 0 {
        c
    } else {
        apply_cookie_attr(apply_cookie_attrs(c, parts.drop_last()), parts.last())
    }
}

/// What [`parse_set_cookie`] gives for a header value.
pub open spec fn set_cookie_spec(value: Seq<char>) -> Option<CookieModel> {
    let parts = split_char(value, ';');
    match split_once_char(trim(parts[0]), '=') {
        None => None,
        Some((name, v)) => Some(apply_cookie_attrs(base_cookie(name, v), parts.skip(1))),
    }
}

/// The attributes applied to a cookie set `Secure` exactly when one of them is `secure` (any
/// case) or it was set before, and `HttpOnly` exactly when one of them is `httponly` (any
/// case) or it was set before.
proof fn lemma_cookie_flags(c: CookieModel, parts: Seq<Seq<char>>)
    ensures
        apply_cookie_attrs(c, parts).secure == (c.secure || exists|i: int|
            0 <= i < parts.len() && eq_ignore_case(trim(#[trigger] parts[i]), "secure"@)),
        apply_cookie_attrs(c, parts).http_only == (c.http_only || exists|i: int|
            0 <= i < parts.len() && eq_ignore_case(trim(#[trigger] parts[i]), "httponly"@)),
    decreases parts.len(),
{
    reveal_strlit("secure");
    reveal_strlit("httponly");
    if parts.len() > 0 {
        let prev = parts.drop_last();
        lemma_cookie_flags(c, prev);
        let last = parts.last();
        assert(!(eq_ignore_case(trim(last), "secure"@) && eq_ignore_case(trim(last), "httponly"@))) by {
            if eq_ignore_case(trim(last), "secure"@) {
                assert(lower_seq(trim(last)).len() == 6);
                assert(lower_seq("httponly"@).len() == 8);
            }
        }
        if exists|i: int| 0 <= i < parts.len() && eq_ignore_case(trim(#[trigger] parts[i]), "secure"@) {
            let i = choose|i: int| 0 <= i < parts.len() && eq_ignore_case(trim(#[trigger] parts[i]), "secure"@);
            if i < parts.len() - 1 {
                assert(prev[i] == parts[i]);
            }
        }
        if exists|i: int| 0 <= i < prev.len() && eq_ignore_case(trim(#[trigger] prev[i]), "secure"@) {
            let i = choose|i: int| 0 <= i < prev.len() && eq_ignore_case(trim(#[trigger] prev[i]), "secure"@);
            assert(parts[i] == prev[i]);
        }
        if exists|i: int| 0 <= i < parts.len() && eq_ignore_case(trim(#[trigger] parts[i]), "httponly"@) {
            let i = choose|i: int| 0 <= i < parts.len() && eq_ignore_case(trim(#[trigger] parts[i]), "httponly"@);
            if i < parts.len() - 1 {
                assert(prev[i] == parts[i]);
            }
        }
        if exists|i: int| 0 <= i < prev.len() && eq_ignore_case(trim(#[trigger] prev[i]), "httponly"@) {
            let i = choose|i: int| 0 <= i < prev.len() && eq_ignore_case(trim(#[trigger] prev[i]), "httponly"@);
            assert(parts[i] == prev[i]);
        }
    }
}

/// A parsed `Set-Cookie` header is `Secure` exactly when one of its attributes (the
/// `;`-separated pieces after the name and value) is `secure` in any case, and `HttpOnly`
/// exactly when one is `httponly` in any case.
pub proof fn law_cookie_flags_follow_attributes(value: Seq<char>)
    ensures
        set_cookie_spec(value) matches Some(c) ==> {
            let parts = split_char(value, ';');
            &&& c.secure == exists|i: int|
                1 <= i < parts.len() && eq_ignore_case(trim(#[trigger] parts[i]), "secure"@)
            &&& c.http_only == exists|i: int|
                1 <= i < parts.len() && eq_ignore_case(trim(#[trigger] parts[i]), "httponly"@)
        },
{
    let parts = split_char(value, ';');
    lemma_split_nonempty(value, ';');
    match split_once_char(trim(parts[0]), '=') {
        None => {},
        Some((name, v)) => {
            let attrs = parts.skip(1);
            lemma_cookie_flags(base_cookie(name, v), attrs);
            if exists|i: int| 1 <= i < parts.len() && eq_ignore_case(trim(#[trigger] parts[i]), "secure"@) {
                let i = choose|i: int| 1 <= i < parts.len() && eq_ignore_case(trim(#[trigger] parts[i]), "secure"@);
                assert(attrs[i - 1] == parts[i]);
            }
            if exists|i: int| 0 <= i < attrs.len() && eq_ignore_case(trim(#[trigger] attrs[i]), "secure"@) {
                let i = choose|i: int| 0 <= i < attrs.len() && eq_ignore_case(trim(#[trigger] attrs[i]), "secure"@);
                assert(parts[i + 1] == attrs[i]);
            }
            if exists|i: int| 1 <= i < parts.len() && eq_ignore_case(trim(#[trigger] parts[i]), "httponly"@) {
                let i = choose|i: int| 1 <= i < parts.len() && eq_ignore_case(trim(#[trigger] parts[i]), "httponly"@);
                assert(attrs[i - 1] == parts[i]);
            }
            if exists|i: int| 0 <= i < attrs.len() && eq_ignore_case(trim(#[trigger] attrs[i]), "httponly"@) {
                let i = choose|i: int| 0 <= i < attrs.len() && eq_ignore_case(trim(#[trigger] attrs[i]), "httponly"@);
                assert(parts[i + 1] == attrs[i]);
            }
        },
    }
}

/// The key (lower-cased) and value of a `key=value` attribute of a `Set-Cookie` header;
/// nothing for the `Secure` and `HttpOnly` flags or a piece without `=`.
pub open spec fn attribute_pair(part: Seq<char>) -> Option<(Seq<char>, Seq<char>)> {
    let t = trim(part);
    if eq_ignore_case(t, "secure"@) || eq_ignore_case(t, "httponly"@) {
        None
    } else {
        match split_once_char(t, '=') {
            None => None,
            Some((k, v)) => Some((lower_seq(k), v)),
        }
    }
}

/// The value of the last attribute with this key, if any.
pub open spec fn last_attribute(parts: Seq<Seq<char>>, key: Seq<char>) -> Option<Seq<char>>
    decreases parts.len(),
{
    if parts.len() == 0 {
        None
    } else {
        match attribute_pair(parts.last()) {
            Some((k, v)) => if k == key {
                Some(v)
            } else {
                last_attribute(parts.drop_last(), key)
            },
            None => last_attribute(parts.drop_last(), key),
        }
    }
}

/// The value of a keyed attribute of a cookie: the last attribute with that key, else what
/// the cookie had.
proof fn lemma_cookie_values(c: CookieModel, parts: Seq<Seq<char>>)
    ensures
        apply_cookie_attrs(c, parts).domain == (match last_attribute(parts, "domain"@) {
            Some(v) => Some(v),
            None => c.domain,
        }),
        apply_cookie_attrs(c, parts).path == (match last_attribute(parts, "path"@) {
            Some(v) => Some(v),
            None => c.path,
        }),
        apply_cookie_attrs(c, parts).expires == (match last_attribute(parts, "expires"@) {
            Some(v) => Some(v),
            None => c.expires,
        }),
        apply_cookie_attrs(c, parts).max_age == (match last_attribute(parts, "max-age"@) {
            Some(v) => Some(v),
            None => c.max_age,
        }),
        apply_cookie_attrs(c, parts).same_site == (match last_attribute(parts, "samesite"@) {
            Some(v) => Some(v),
            None => c.same_site,
        }),
        apply_cookie_attrs(c, parts).name == c.name,
        apply_cookie_attrs(c, parts).value == c.value,
    decreases parts.len(),
{
    reveal_strlit("domain");
    reveal_strlit("path");
    reveal_strlit("expires");
    reveal_strlit("max-age");
    reveal_strlit("samesite");
    assert("domain"@[0] == 'd' && "path"@[0] == 'p' && "expires"@[0] == 'e' && "max-age"@[0] == 'm'
        && "samesite"@[0] == 's');
    assert("path"@.len() == 4 && "path"@[1] == 'a');
    assert("domain"@ != "path"@ && "domain"@ != "expires"@ && "domain"@ != "max-age"@ && "domain"@
        != "samesite"@);
    assert("path"@ != "expires"@ && "path"@ != "max-age"@ && "path"@ != "samesite"@);
    assert("expires"@ != "max-age"@ && "expires"@ != "samesite"@ && "max-age"@ != "samesite"@);
    if parts.len() > 0 {
        let prev = parts.drop_last();
        lemma_cookie_values(c, prev);
        let d = apply_cookie_attrs(c, prev);
        let t = trim(parts.last());
        if !(eq_ignore_case(t, "secure"@) || eq_ignore_case(t, "httponly"@)) {
            match split_once_char(t, '=') {
                None => {},
                Some((k, v)) => {
                    assert(apply_cookie_attr(d, parts.last()) == if lower_seq(k) == "domain"@ {
                        CookieModel { domain: Some(v), ..d }
                    } else if lower_seq(k) == "path"@ {
                        CookieModel { path: Some(v), ..d }
                    } else if lower_seq(k) == "expires"@ {
                        CookieModel { expires: Some(v), ..d }
                    } else if lower_seq(k) == "max-age"@ {
                        CookieModel { max_age: Some(v), ..d }
                    } else if lower_seq(k) == "samesite"@ {
                        CookieModel { same_site: Some(v), ..d }
                    } else {
                        d
                    });
                },
            }
        }
    }
}

/// A parsed `Set-Cookie` header keeps, for each of `Domain`, `Path`, `Expires`, `Max-Age` and
/// `SameSite`, the value of the last attribute with that key (in any case), and nothing when
/// there is none; its name and value are those of the first piece, split at the first `=`.
pub proof fn law_cookie_values_follow_attributes(value: Seq<char>)
    ensures
        set_cookie_spec(value) matches Some(c) ==> {
            let parts = split_char(value, ';');
            let attrs = parts.skip(1);
            &&& split_once_char(trim(parts[0]), '=') == Some((c.name, c.value))
            &&& c.domain == last_attribute(attrs, "domain"@)
            &&& c.path == last_attribute(attrs, "path"@)
            &&& c.expires == last_attribute(attrs, "expires"@)
            &&& c.max_age == last_attribute(attrs, "max-age"@)
            &&& c.same_site == last_attribute(attrs, "samesite"@)
        },
{
    let parts = split_char(value, ';');
    lemma_split_nonempty(value, ';');
    match split_once_char(trim(parts[0]), '=') {
        None => {},
        Some((name, v)) => {
            lemma_cookie_values(base_cookie(name, v), parts.skip(1));
        },
    }
}

/// Splitting always yields at least one piece.
proof fn lemma_split_nonempty(s: Seq<char>, c: char)
    ensures
        split_char(s, c).len() >= 1,
{
    reveal(split_char);
}

/// Whether a key equals a fixed lower-case attribute name.
fn key_is(key: &[char], name: &str) -> (r: bool)
    ensures
        r == (key@ == name@),
{
    let n = chars_of(name);
    seq_eq(key, &n)
}

/// Applies one attribute to an executable cookie.
fn apply_attr(cookie: &mut IbbCookie, part: &[char])
    ensures
        final(cookie)@ == apply_cookie_attr(old(cookie)@, part@),
{
    let t = trim_chars(part);
    if chars_eq_ignore_case(&t, &chars_of("secure")) {
        cookie.secure = true;
        return ;
    }
    if chars_eq_ignore_case(&t, &chars_of("httponly")) {
        cookie.http_only = true;
        return ;
    }
    match split_once_chars(&t, '=') {
        None => {},
        Some((k, v)) => {
            let key = lower_chars(&k);
            if key_is(&key, "domain") {
                cookie.domain = Some(string_of(&v));
            } else if key_is(&key, "path") {
                cookie.path = Some(string_of(&v));
            } else if key_is(&key, "expires") {
                cookie.expires = Some(string_of(&v));
            } else if key_is(&key, "max-age") {
                cookie.max_age = Some(string_of(&v));
            } else if key_is(&key, "samesite") {
                cookie.same_site = Some(string_of(&v));
            }
        },
    }
}

/// Parses one `Set-Cookie` header value; `None` when the first part has no `=`.
#[verifier::rlimit(80)]
pub fn parse_set_cookie(value: &str) -> (r: Option<IbbCookie>)
    ensures
        r matches Some(c) ==> set_cookie_spec(value@) == Some(c@),
        r is None ==> set_cookie_spec(value@) is None,
{
    let cs = chars_of(value);
    let ranges = split_char_ranges(&cs, ';');
    let ghost parts = split_char(cs@, ';');
    proof {
        lemma_split_nonempty(cs@, ';');
    }
    assert(ranges@.len() == parts.len());
    assert(range_pieces(cs@, ranges@)[0] == parts[0]);
    let first_raw = sub_vec(&cs, ranges[0].0, ranges[0].1);
    let first = trim_chars(&first_raw);
    let (name, v) = match split_once_chars(&first, '=') {
        None => return None,
        Some(p) => p,
    };
    let mut cookie = IbbCookie {
        name: string_of(&name),
        value: string_of(&v),
        domain: None,
        path: None,
        expires: None,
        max_age: None,
        same_site: None,
        secure: false,
        http_only: false,
    };
    let ghost base = base_cookie(name@, v@);
    assert(cookie@ == base);
    apply_attrs_from(&mut cookie, &cs, &ranges);
    Some(cookie)
}

/// Applies the attribute pieces `1..` of a split header to a cookie.
#[verifier::rlimit(30)]
fn apply_attrs_from(cookie: &mut IbbCookie, cs: &[char], ranges: &Vec<(usize, usize)>)
    requires
        ranges@.len() >= 1,
        forall|j: int| 0 <= j < ranges@.len() ==> (#[trigger] ranges@[j]).0 <= ranges@[j].1
            <= cs@.len(),
    ensures
        final(cookie)@ == apply_cookie_attrs(old(cookie)@, range_pieces(cs@, ranges@).skip(1)),
{
    let ghost parts = range_pieces(cs@, ranges@);
    let ghost base = cookie@;
    assert(parts.skip(1).take(0) =~= Seq::<Seq<char>>::empty());
    let mut k: usize = 1;
    while k < ranges.len()
        invariant
            1 <= k <= ranges@.len(),
            parts == range_pieces(cs@, ranges@),
            forall|j: int| 0 <= j < ranges@.len() ==> (#[trigger] ranges@[j]).0 <= ranges@[j].1
                <= cs@.len(),
            cookie@ == apply_cookie_attrs(base, parts.skip(1).take(k - 1)),
        decreases ranges@.len() - k,
    {
        let piece = sub_vec(cs, ranges[k].0, ranges[k].1);
        assert(piece@ == parts[k as int]);
        apply_attr(cookie, &piece);
        proof {
            let ps = parts.skip(1).take(k as int);
            assert(ps.drop_last() =~= parts.skip(1).take(k - 1));
            assert(ps.last() == parts[k as int]);
        }
        k = k + 1;
    }
    assert(parts.skip(1).take(k - 1) =~= parts.skip(1));
}

/// The cookie list after merging `c` into `s` from a given position on, where `placed`
/// says whether `c` already took the place of an earlier cookie of its name: the first cookie
/// named like `c` is replaced by `c`, later ones of that name are dropped, other cookies stay
/// in order, and `c` comes last when no cookie had its name.
pub open spec fn merge_named(s: Seq<CookieModel>, c: CookieModel, placed: bool) -> Seq<CookieModel>
    decreases s.len(),
{
    if s.len() == 0 {
        if placed {
            Seq::empty()
        } else {
            seq![c]
        }
    } else if s[0].name == c.name {
        if placed {
            merge_named(s.drop_first(), c, true)
        } else {
            seq![c] + merge_named(s.drop_first(), c, true)
        }
    } else {
        seq![s[0]] + merge_named(s.drop_first(), c, placed)
    }
}

/// The cookie list after [`upsert_cookie`]: cookies of the same name are merged and the
/// later one wins, at the place of the first of them (or last when there was none).
pub open spec fn upsert_spec(s: Seq<CookieModel>, c: CookieModel) -> Seq<CookieModel> {
    merge_named(s, c, false)
}

/// The views of a list of cookies.
pub open spec fn cookie_views(s: Seq<IbbCookie>) -> Seq<CookieModel> {
    s.map_values(|c: IbbCookie| c@)
}

/// What a merge keeps: exactly one cookie of `c`'s name, which is `c` (none when `c` was
/// already placed), and the other cookies of `s` in order.
proof fn lemma_merge_named(s: Seq<CookieModel>, c: CookieModel, placed: bool)
    ensures
        merge_named(s, c, placed).filter(|x: CookieModel| x.name != c.name) == s.filter(
            |x: CookieModel| x.name != c.name,
        ),
        merge_named(s, c, placed).filter(|x: CookieModel| x.name == c.name) == if placed {
            Seq::<CookieModel>::empty()
        } else {
            seq![c]
        },
    decreases s.len(),
{
    reveal(Seq::filter);
    let m = merge_named(s, c, placed);
    if s.len() == 0 {
        if placed {
            assert(m =~= Seq::<CookieModel>::empty());
        } else {
            assert(m == seq![c]);
            assert(m.drop_last() =~= Seq::<CookieModel>::empty());
        }
        assert(s =~= Seq::<CookieModel>::empty());
    } else {
        let rest = s.drop_first();
        let now = (s[0].name == c.name && !placed) || placed;
        lemma_merge_named(rest, c, now);
        lemma_filter_cons(s[0], rest, |x: CookieModel| x.name != c.name);
        lemma_filter_cons(s[0], rest, |x: CookieModel| x.name == c.name);
        assert(s =~= seq![s[0]] + rest);
        if s[0].name == c.name {
            if placed {
                assert(m == merge_named(rest, c, true));
            } else {
                lemma_filter_cons(c, merge_named(rest, c, true), |x: CookieModel| x.name != c.name);
                lemma_filter_cons(c, merge_named(rest, c, true), |x: CookieModel| x.name == c.name);
            }
        } else {
            lemma_filter_cons(s[0], merge_named(rest, c, placed), |x: CookieModel| x.name != c.name);
            lemma_filter_cons(s[0], merge_named(rest, c, placed), |x: CookieModel| x.name == c.name);
        }
    }
}

/// Filtering a sequence with a first element.
proof fn lemma_filter_cons(x: CookieModel, t: Seq<CookieModel>, p: spec_fn(CookieModel) -> bool)
    ensures
        (seq![x] + t).filter(p) == if p(x) {
            seq![x] + t.filter(p)
        } else {
            t.filter(p)
        },
{
    t.lemma_filter_prepend(x, p);
    if !p(x) {
        assert(Seq::<CookieModel>::empty() + t.filter(p) =~= t.filter(p));
    }
}

/// Merging two cookies of the same name leaves the list as merging only the later one: the
/// later response wins.
pub proof fn law_later_cookie_wins(s: Seq<CookieModel>, a: CookieModel, b: CookieModel)
    requires
        a.name == b.name,
    ensures
        upsert_spec(upsert_spec(s, a), b) == upsert_spec(s, b),
{
    lemma_later_wins(s, a, b, false);
}

proof fn lemma_later_wins(s: Seq<CookieModel>, a: CookieModel, b: CookieModel, placed: bool)
    requires
        a.name == b.name,
    ensures
        merge_named(merge_named(s, a, placed), b, placed) == merge_named(s, b, placed),
    decreases s.len(),
{
    if s.len() == 0 {
        if !placed {
            let t = seq![a];
            assert(t.drop_first() =~= Seq::<CookieModel>::empty());
            assert(t[0] == a);
            assert(merge_named(Seq::<CookieModel>::empty(), b, true) =~= Seq::<CookieModel>::empty());
            assert(merge_named(t, b, false) == seq![b] + Seq::<CookieModel>::empty());
            assert(seq![b] + Seq::<CookieModel>::empty() =~= seq![b]);
        }
    } else {
        let rest = s.drop_first();
        if s[0].name == a.name {
            lemma_later_wins(rest, a, b, true);
            if !placed {
                let t = seq![a] + merge_named(rest, a, true);
                assert(t[0] == a);
                assert(t.drop_first() =~= merge_named(rest, a, true));
            }
        } else {
            lemma_later_wins(rest, a, b, placed);
            let t = seq![s[0]] + merge_named(rest, a, placed);
            assert(t[0] == s[0]);
            assert(t.drop_first() =~= merge_named(rest, a, placed));
        }
    }
}

/// Merging the same cookie twice changes nothing the second time.
pub proof fn law_upsert_idempotent(s: Seq<CookieModel>, c: CookieModel)
    ensures
        upsert_spec(upsert_spec(s, c), c) == upsert_spec(s, c),
{
    law_later_cookie_wins(s, c, c);
}

/// After a merge the only cookie of `c`'s name is `c` (the later value wins), and the cookies
/// of other names are those of before, unchanged and in the same order.
pub proof fn law_upsert_then_lookup(s: Seq<CookieModel>, c: CookieModel)
    ensures
        upsert_spec(s, c).filter(|x: CookieModel| x.name == c.name) == seq![c],
        upsert_spec(s, c).filter(|x: CookieModel| x.name != c.name) == s.filter(
            |x: CookieModel| x.name != c.name,
        ),
{
    lemma_merge_named(s, c, false);
}

/// Merges a cookie into a list: cookies of the same name are merged and the later one wins,
/// taking the place of the first of them; a cookie of a new name comes last.
pub fn upsert_cookie(cookies: &mut Vec<IbbCookie>, cookie: IbbCookie)
    ensures
        cookie_views(final(cookies)@) == upsert_spec(cookie_views(old(cookies)@), cookie@),
{
    let ghost s = cookie_views(cookies@);
    let ghost cv = cookie@;
    let mut out: Vec<IbbCookie> = Vec::new();
    let mut placed = false;
    let mut i: usize = 0;
    assert(s.skip(0) =~= s);
    while i < cookies.len()
        invariant
            i <= cookies@.len(),
            s == cookie_views(cookies@),
            cv == cookie@,
            merge_named(s, cv, false) == cookie_views(out@) + merge_named(s.skip(i as int), cv, placed),
        decreases cookies@.len() - i,
    {
        assert(s[i as int] == cookies@[i as int]@);
        assert(s.skip(i as int)[0] == s[i as int]);
        assert(s.skip(i as int).drop_first() =~= s.skip(i + 1));
        let ghost before = cookie_views(out@);
        if crate::text::str_eq(cookies[i].name.as_str(), cookie.name.as_str()) {
            if !placed {
                out.push(cookie.clone_cookie());
                assert(cookie_views(out@) =~= before.push(cv));
                assert(before + (seq![cv] + merge_named(s.skip(i + 1), cv, true)) =~= before.push(cv)
                    + merge_named(s.skip(i + 1), cv, true));
                placed = true;
            }
        } else {
            out.push(cookies[i].clone_cookie());
            assert(cookie_views(out@) =~= before.push(s[i as int]));
            assert(before + (seq![s[i as int]] + merge_named(s.skip(i + 1), cv, placed)) =~= before.push(
                s[i as int],
            ) + merge_named(s.skip(i + 1), cv, placed));
        }
        i = i + 1;
    }
    assert(s.skip(i as int) =~= Seq::<CookieModel>::empty());
    let ghost before = cookie_views(out@);
    if !placed {
        out.push(cookie);
        assert(cookie_views(out@) =~= before.push(cv));
        assert(before + seq![cv] =~= before.push(cv));
    } else {
        assert(before + Seq::<CookieModel>::empty() =~= before);
    }
    *cookies = out;
}

/// `name=value` for one cookie.
pub open spec fn cookie_pair(c: CookieModel) -> Seq<char> {
    c.name + seq!['='] + c.value
}

/// The `Cookie` request header: cookies with a non-empty name, as `name=value` joined by `; `.
pub open spec fn cookie_header_spec(s: Seq<CookieModel>) -> Seq<char>
    decreases s.len(),
{
    if s.len() == 0 {
        Seq::empty()
    } else {
        let prev = cookie_header_spec(s.drop_last());
        let c = s.last();
        if c.name.len() == 0 {
            prev
        } else if prev.len() == 0 {
            cookie_pair(c)
        } else {
            prev + "; "@ + cookie_pair(c)
        }
    }
}

/// A header built from cookies is empty only when no cookie had a name.
proof fn lemma_cookie_header_empty(s: Seq<CookieModel>)
    ensures
        cookie_header_spec(s).len() == 0 <==> forall|j: int|
            0 <= j < s.len() ==> (#[trigger] s[j]).name.len() == 0,
    decreases s.len(),
{
    if s.len() > 0 {
        lemma_cookie_header_empty(s.drop_last());
        assert forall|j: int| 0 <= j < s.len() - 1 implies s.drop_last()[j] == #[trigger] s[j] by {}
    }
}

/// Builds the `Cookie` request header for later ImgBB requests.
pub fn build_cookie_header(cookies: &[IbbCookie]) -> (r: String)
    ensures
        r@ == cookie_header_spec(cookie_views(cookies@)),
{
    let ghost s = cookie_views(cookies@);
    let mut out: Vec<char> = Vec::new();
    let mut i: usize = 0;
    while i < cookies.len()
        invariant
            i <= cookies@.len(),
            s == cookie_views(cookies@),
            out@ == cookie_header_spec(s.take(i as int)),
        decreases cookies@.len() - i,
    {
        let c = &cookies[i];
        proof {
            assert(s.take(i + 1).drop_last() =~= s.take(i as int));
            assert(s.take(i + 1).last() == c@);
        }
        let name = chars_of(c.name.as_str());
        if name.len() > 0 {
            if out.len() > 0 {
                push_str(&mut out, "; ");
            }
            push_chars(&mut out, &name);
            out.push('=');
            push_str(&mut out, c.value.as_str());
        }
        i = i + 1;
        assert(out@ =~= cookie_header_spec(s.take(i as int)));
    }
    assert(s.take(cookies@.len() as int) =~= s);
    string_of(&out)
}

/// Whether some cookie in the list has the given name.
pub fn has_cookie_named(cookies: &[IbbCookie], name: &str) -> (r: bool)
    ensures
        r == exists|j: int| 0 <= j < cookies@.len() && (#[trigger] cookies@[j]).name@ == name@,
{
    let mut i: usize = 0;
    while i < cookies.len()
        invariant
            i <= cookies@.len(),
            forall|j: int| 0 <= j < i ==> (#[trigger] cookies@[j]).name@ != name@,
        decreases cookies@.len() - i,
    {
        if crate::text::str_eq(cookies[i].name.as_str(), name) {
            return true;
        }
        i = i + 1;
    }
    false
}

/// The profile URL for a user name: `https://{lower-case name}.imgbb.com/`, refusing e-mail
/// addresses and names with characters other than ASCII letters, digits and `-`.
pub open spec fn profile_url_spec(login_subject: Seq<char>) -> Result<Seq<char>, ImgbbError> {
    let username = lower_seq(trim(login_subject));
    if username.contains('@') {
        Err(ImgbbError::EmailLoginUnsupported)
    } else if !(forall|k: int|
        0 <= k < username.len() ==> is_ascii_alnum(#[trigger] username[k]) || username[k] == '-') {
        Err(ImgbbError::UnsupportedUsername)
    } else {
        Ok("https://"@ + username + ".imgbb.com/"@)
    }
}

/// Builds the profile URL of a user from the login name.
pub fn build_profile_url(login_subject: &str) -> (r: Result<String, ImgbbError>)
    ensures
        r matches Ok(v) ==> profile_url_spec(login_subject@) == Ok::<Seq<char>, ImgbbError>(v@),
        r matches Err(e) ==> profile_url_spec(login_subject@) == Err::<Seq<char>, ImgbbError>(e),
{
    let cs = chars_of(login_subject);
    let t = trim_chars(&cs);
    let username = lower_chars(&t);
    if find_char(&username, '@', 0).is_some() {
        proof {
            crate::text::lemma_find_char_from(username@, '@', 0);
        }
        return Err(ImgbbError::EmailLoginUnsupported);
    }
    proof {
        crate::text::lemma_find_char_from(username@, '@', 0);
    }
    let mut i: usize = 0;
    while i < username.len()
        invariant
            i <= username@.len(),
            username@ == lower_seq(trim(login_subject@)),
            forall|j: int| 0 <= j < username@.len() ==> username@[j] != '@',
            forall|k: int| 0 <= k < i ==> is_ascii_alnum(#[trigger] username@[k]) || username@[k]
                == '-',
        decreases username@.len() - i,
    {
        let c = username[i];
        if !(char_is_ascii_alnum(c) || c == '-') {
            proof {
                let u = lower_seq(trim(login_subject@));
                assert(u == username@);
                assert(!u.contains('@'));
                assert(!(is_ascii_alnum(u[i as int]) || u[i as int] == '-'));
                assert(!(forall|k: int|
                    0 <= k < u.len() ==> is_ascii_alnum(#[trigger] u[k]) || u[k] == '-'));
                assert(profile_url_spec(login_subject@) == Err::<Seq<char>, ImgbbError>(
                    ImgbbError::UnsupportedUsername,
                ));
            }
            return Err(ImgbbError::UnsupportedUsername);
        }
        i = i + 1;
    }
    let mut out = chars_of("https://");
    push_chars(&mut out, &username);
    push_str(&mut out, ".imgbb.com/");
    Ok(string_of(&out))
}

/// A page still shows the sign-in entry when it holds the sign-in element or the login link.
pub open spec fn sign_in_entry_spec(html: Seq<char>) -> bool {
    contains(html, "id=\"top-bar-signin\""@) || contains(html, "https://imgbb.com/login"@)
}

/// Whether the page still shows the sign-in entry.
pub fn has_sign_in_entry(html: &str) -> (r: bool)
    ensures
        r == sign_in_entry_spec(html@),
{
    str_contains(html, "id=\"top-bar-signin\"") || str_contains(html, "https://imgbb.com/login")
}

/// The marker in front of the page's JSON API URL.
pub open spec fn json_api_marker() -> Seq<char> {
    "PF.obj.config.json_api=\""@
}

/// The trimmed JSON API URL from a page script, when present and non-empty.
pub open spec fn json_api_url_spec(html: Seq<char>) -> Option<Seq<char>> {
    match quoted_after(html, json_api_marker()) {
        Some(Some(v)) => if trim(v).len() > 0 {
            Some(trim(v))
        } else {
            None
        },
        _ => None,
    }
}

/// Reads the user's JSON API URL from a page script.
pub fn extract_json_api_url(html: &str) -> (r: Option<String>)
    ensures
        r matches Some(v) ==> json_api_url_spec(html@) == Some(v@),
        r is None ==> json_api_url_spec(html@) is None,
{
    let h = chars_of(html);
    let m = chars_of("PF.obj.config.json_api=\"");
    match quoted_value_after(&h, &m) {
        Some(Some(v)) => {
            let t = trim_chars(&v);
            if t.len() > 0 {
                Some(string_of(&t))
            } else {
                None
            }
        },
        _ => None,
    }
}

/// The marker in front of the current user's owner ID.
pub open spec fn owner_id_marker() -> Seq<char> {
    "\"id\":\""@
}

/// What [`extract_owner_id`] gives for a page.
pub open spec fn owner_id_spec(html: Seq<char>) -> Result<Seq<char>, ImgbbError> {
    match quoted_after(html, owner_id_marker()) {
        None => Err(ImgbbError::OwnerIdMissing),
        Some(None) => Err(ImgbbError::OwnerIdMalformed),
        Some(Some(v)) => if trim(v).len() == 0 {
            Err(ImgbbError::OwnerIdEmpty)
        } else {
            Ok(trim(v))
        },
    }
}

/// Reads the current user's owner ID from a page's resource script.
pub fn extract_owner_id(html: &str) -> (r: Result<String, ImgbbError>)
    ensures
        r matches Ok(v) ==> owner_id_spec(html@) == Ok::<Seq<char>, ImgbbError>(v@),
        r matches Err(e) ==> owner_id_spec(html@) == Err::<Seq<char>, ImgbbError>(e),
{
    let h = chars_of(html);
    let m = chars_of("\"id\":\"");
    match quoted_value_after(&h, &m) {
        None => Err(ImgbbError::OwnerIdMissing),
        Some(None) => Err(ImgbbError::OwnerIdMalformed),
        Some(Some(v)) => {
            let t = trim_chars(&v);
            if t.len() == 0 {
                Err(ImgbbError::OwnerIdEmpty)
            } else {
                Ok(string_of(&t))
            }
        },
    }
}

/// The login form body: `auth_token`, `login-subject` and `password`, form-encoded.
pub open spec fn login_body_spec(auth_token: Seq<char>, login_subject: Seq<char>, password: Seq<
    char,
>) -> Seq<char> {
    form_pairs(
        seq![
            ("auth_token"@, auth_token),
            ("login-subject"@, login_subject),
            ("password"@, password),
        ],
    )
}

/// Builds the login form body.
pub fn build_login_body(auth_token: &str, login_subject: &str, password: &str) -> (r: String)
    ensures
        r@ == login_body_spec(auth_token@, login_subject@, password@),
{
    let pairs = vec![
        pair("auth_token", auth_token),
        pair("login-subject", login_subject),
        pair("password", password),
    ];
    let r = form_encode(&pairs);
    assert(pair_views(pairs@) =~= seq![
        ("auth_token"@, auth_token@),
        ("login-subject"@, login_subject@),
        ("password"@, password@),
    ]);
    r
}


/// Where the login form is posted.
pub const IMGBB_LOGIN_URL: &'static str = "https://imgbb.com/login";

/// The origin of the login form.
pub const IMGBB_ORIGIN: &'static str = "https://imgbb.com";

/// The only place a successful login may redirect to.
pub const IBB_AUTH_PREFIX: &'static str = "https://ibb.co/auth?login=";

/// The content type of the login form.
pub const LOGIN_FORM_CONTENT_TYPE: &'static str = "application/x-www-form-urlencoded";

/// The signed-in user's site, as read from the site's own pages.
#[derive(Clone, Debug, PartialEq, Eq)]
pub struct IbbAuthenticatedProfile {
    pub url: String,
    pub json_url: String,
    pub auth_token: String,
    pub owner_id: String,
}

/// An ImgBB session held in memory after a login.
#[derive(Clone, Debug, PartialEq, Eq)]
pub struct IbbLoginSession {
    pub login_subject: String,
    pub redirect_url: String,
    pub profile: IbbAuthenticatedProfile,
    pub cookies: Vec<IbbCookie>,
    pub cookie_header: String,
}

/// The login name to use: the trimmed name, when neither it nor the password is empty.
pub open spec fn login_input_spec(login_subject: Seq<char>, password: Seq<char>) -> Result<Seq<char>, ImgbbError> {
    if trim(login_subject).len() == 0 || password.len() == 0 {
        Err(ImgbbError::EmptyCredentials)
    } else {
        Ok(trim(login_subject))
    }
}

/// Checks the credentials of a login and returns the trimmed login name.
pub fn check_login_input(login_subject: &str, password: &str) -> (r: Result<String, ImgbbError>)
    ensures
        r matches Ok(v) ==> login_input_spec(login_subject@, password@) == Ok::<Seq<char>, ImgbbError>(v@),
        r matches Err(e) ==> login_input_spec(login_subject@, password@) == Err::<Seq<char>, ImgbbError>(e),
{
    let t = trim_str(login_subject);
    let p = chars_of(password);
    if chars_of(t.as_str()).len() == 0 || p.len() == 0 {
        Err(ImgbbError::EmptyCredentials)
    } else {
        Ok(t)
    }
}

/// What a login answer means: refused unless the status is 2xx or 3xx, and refused when it
/// redirects anywhere but the ibb.co authorisation page; otherwise the redirect, if any.
pub open spec fn login_redirect_spec(status: u16, location: Option<Seq<char>>) -> Result<Option<Seq<char>>, ImgbbError> {
    if !(200 <= status && status <= 399) {
        Err(ImgbbError::LoginFailed)
    } else {
        match location {
            Some(l) => if starts_with(l, IBB_AUTH_PREFIX@) {
                Ok(Some(l))
            } else {
                Err(ImgbbError::UnexpectedRedirect)
            },
            None => Ok(None),
        }
    }
}

/// Reads the authorisation redirect of a login answer from its status and `Location` header;
/// an answer of 200 without a redirect is accepted.
pub fn extract_auth_redirect_url(status: u16, location: Option<&str>) -> (r: Result<Option<String>, ImgbbError>)
    ensures
        match login_redirect_spec(status, match location { Some(l) => Some(l@), None => None }) {
            Ok(o) => r matches Ok(x) && opt_view(x) == o,
            Err(e) => r == Err::<Option<String>, ImgbbError>(e),
        },
{
    if !(200 <= status && status <= 399) {
        return Err(ImgbbError::LoginFailed);
    }
    match location {
        Some(l) => {
            if str_starts_with(l, IBB_AUTH_PREFIX) {
                Ok(Some(owned(l)))
            } else {
                Err(ImgbbError::UnexpectedRedirect)
            }
        },
        None => Ok(None),
    }
}

/// The cookies that a list of `Set-Cookie` values describes, skipping values that do not
/// parse.
pub open spec fn set_cookies_spec(values: Seq<Seq<char>>) -> Seq<CookieModel>
    decreases values.len(),
{
    if values.len() == 0 {
        Seq::empty()
    } else {
        let prev = set_cookies_spec(values.drop_last());
        match set_cookie_spec(values.last()) {
            Some(c) => prev.push(c),
            None => prev,
        }
    }
}

/// The texts of a list of strings.
pub open spec fn texts_view(v: Seq<String>) -> Seq<Seq<char>> {
    v.map_values(|s: String| s@)
}

/// Parses the `Set-Cookie` values of a response, in order.
pub fn extract_set_cookies(values: &[String]) -> (r: Vec<IbbCookie>)
    ensures
        cookie_views(r@) == set_cookies_spec(texts_view(values@)),
{
    let ghost vs = texts_view(values@);
    let mut out: Vec<IbbCookie> = Vec::new();
    let mut i: usize = 0;
    while i < values.len()
        invariant
            i <= values@.len(),
            vs == texts_view(values@),
            cookie_views(out@) == set_cookies_spec(vs.take(i as int)),
        decreases values@.len() - i,
    {
        proof {
            assert(vs.take(i + 1).drop_last() =~= vs.take(i as int));
            assert(vs.take(i + 1).last() == values@[i as int]@);
        }
        match parse_set_cookie(values[i].as_str()) {
            Some(c) => {
                let ghost before = out@;
                out.push(c);
                assert(cookie_views(out@) =~= cookie_views(before).push(c@));
            },
            None => {},
        }
        i = i + 1;
    }
    assert(vs.take(values@.len() as int) =~= vs);
    out
}

/// The cookie list after merging cookies one by one.
pub open spec fn merge_cookies_spec(s: Seq<CookieModel>, cs: Seq<CookieModel>) -> Seq<CookieModel>
    decreases cs.len(),
{
    if cs.len() == 0 {
        s
    } else {
        upsert_spec(merge_cookies_spec(s, cs.drop_last()), cs.last())
    }
}

/// Merges the cookies of a response's `Set-Cookie` values into a list, later values
/// replacing earlier cookies with the same name, domain and path.
pub fn merge_set_cookies(cookies: &mut Vec<IbbCookie>, values: &[String])
    ensures
        cookie_views(final(cookies)@) == merge_cookies_spec(
            cookie_views(old(cookies)@),
            set_cookies_spec(texts_view(values@)),
        ),
{
    let fresh = extract_set_cookies(values);
    let ghost base = cookie_views(cookies@);
    let ghost fv = cookie_views(fresh@);
    let mut i: usize = 0;
    while i < fresh.len()
        invariant
            i <= fresh@.len(),
            fv == cookie_views(fresh@),
            fv == set_cookies_spec(texts_view(values@)),
            base == cookie_views(old(cookies)@),
            cookie_views(cookies@) == merge_cookies_spec(base, fv.take(i as int)),
        decreases fresh@.len() - i,
    {
        proof {
            assert(fv.take(i + 1).drop_last() =~= fv.take(i as int));
            assert(fv.take(i + 1).last() == fresh@[i as int]@);
        }
        upsert_cookie(cookies, fresh[i].clone_cookie());
        i = i + 1;
    }
    assert(fv.take(fresh@.len() as int) =~= fv);
}

impl IbbCookie {
    /// A copy of the cookie.
    pub fn clone_cookie(&self) -> (c: IbbCookie)
        ensures
            c@ == self@,
    {
        IbbCookie {
            name: self.name.clone(),
            value: self.value.clone(),
            domain: self.domain.clone(),
            path: self.path.clone(),
            expires: self.expires.clone(),
            max_age: self.max_age.clone(),
            same_site: self.same_site.clone(),
            secure: self.secure,
            http_only: self.http_only,
        }
    }
}

/// Whether a cookie list holds a cookie of this name.
pub open spec fn has_cookie_spec(s: Seq<CookieModel>, name: Seq<char>) -> bool {
    exists|j: int| 0 <= j < s.len() && (#[trigger] s[j]).name == name
}

/// What a login answer leaves: the redirect, once the answer passed
/// [`login_redirect_spec`] and the cookies hold `LID`.
pub open spec fn login_answer_spec(status: u16, location: Option<Seq<char>>, cookies: Seq<CookieModel>) -> Result<Option<Seq<char>>, ImgbbError> {
    match login_redirect_spec(status, location) {
        Err(e) => Err(e),
        Ok(o) => if has_cookie_spec(cookies, "LID"@) {
            Ok(o)
        } else {
            Err(ImgbbError::MissingLoginCookie)
        },
    }
}

/// Checks the answer of the login form, whose cookies were already merged: its status,
/// its redirect and the `LID` cookie.
pub fn accept_login_answer(status: u16, location: Option<&str>, cookies: &[IbbCookie]) -> (r: Result<Option<String>, ImgbbError>)
    ensures
        match login_answer_spec(status, match location { Some(l) => Some(l@), None => None }, cookie_views(cookies@)) {
            Ok(o) => r matches Ok(x) && opt_view(x) == o,
            Err(e) => r == Err::<Option<String>, ImgbbError>(e),
        },
{
    let redirect = extract_auth_redirect_url(status, location)?;
    let has = has_cookie_named(cookies, "LID");
    proof {
        let s = cookie_views(cookies@);
        if has {
            let j = choose|j: int| 0 <= j < cookies@.len() && (#[trigger] cookies@[j]).name@ == "LID"@;
            assert(s[j].name == "LID"@);
        } else {
            assert forall|j: int| 0 <= j < s.len() implies (#[trigger] s[j]).name != "LID"@ by {
                assert(s[j] == cookies@[j]@);
            }
        }
    }
    if has {
        Ok(redirect)
    } else {
        Err(ImgbbError::MissingLoginCookie)
    }
}

/// The headers of the login form post: a browser's page headers for the login page, the
/// form content type, the origin, and the cookie header when it is not empty.
pub fn build_login_headers(cookie_header: &str) -> (r: Result<HeaderList, LlphaError>)
    ensures
        r matches Ok(h) ==> h@ == login_headers_spec(cookie_header@),
        r is Err ==> !valid_header_value(cookie_header@),
{
    proof {
        reveal_strlit("https://imgbb.com/login");
        reveal_strlit("application/x-www-form-urlencoded");
        reveal_strlit("https://imgbb.com");
        reveal_strlit("content-type");
        reveal_strlit("origin");
        reveal_strlit("cookie");
        lemma_fixed_header_values();
    }
    let mut headers = browser_page_headers(IMGBB_LOGIN_URL)?;
    insert_header(&mut headers, "content-type", LOGIN_FORM_CONTENT_TYPE)?;
    insert_header(&mut headers, "origin", IMGBB_ORIGIN)?;
    if chars_of(cookie_header).len() > 0 {
        insert_header(&mut headers, "cookie", cookie_header)?;
    }
    Ok(headers)
}

/// The login form headers as entries.
pub open spec fn login_headers_spec(cookie_header: Seq<char>) -> Seq<(Seq<char>, Seq<char>)> {
    let base = base_headers_spec(IMGBB_LOGIN_URL@).push(("accept"@, HTML_ACCEPT@));
    let h = insert_header_spec(
        insert_header_spec(base, "content-type"@, LOGIN_FORM_CONTENT_TYPE@),
        "origin"@,
        IMGBB_ORIGIN@,
    );
    if cookie_header.len() > 0 {
        insert_header_spec(h, "cookie"@, cookie_header)
    } else {
        h
    }
}

/// The headers that follow the sign-in redirect: a browser's page headers for the login
/// page, and the cookie header when it is not empty.
pub open spec fn auth_redirect_headers_spec(cookie_header: Seq<char>) -> Seq<(Seq<char>, Seq<char>)> {
    let base = base_headers_spec(IMGBB_LOGIN_URL@).push(("accept"@, HTML_ACCEPT@));
    if cookie_header.len() > 0 {
        insert_header_spec(base, "cookie"@, cookie_header)
    } else {
        base
    }
}

/// Builds the headers of the request that follows the sign-in redirect.
pub fn auth_redirect_headers(cookie_header: &str) -> (r: Result<HeaderList, LlphaError>)
    ensures
        r matches Ok(h) ==> h@ == auth_redirect_headers_spec(cookie_header@),
        r is Err <==> cookie_header@.len() > 0 && !valid_header_value(cookie_header@),
{
    proof {
        lemma_fixed_header_values();
    }
    let mut headers = browser_page_headers(IMGBB_LOGIN_URL)?;
    if chars_of(cookie_header).len() > 0 {
        insert_header(&mut headers, "cookie", cookie_header)?;
    }
    Ok(headers)
}

/// Whether the answer to the sign-in redirect lets the login go on: a success or a further
/// redirect.
pub fn auth_redirect_answered(status: u16) -> (b: bool)
    ensures
        b == (200 <= status && status <= 399),
{
    200 <= status && status <= 399
}

/// The fixed values of the login headers are fit for a header.
proof fn lemma_fixed_header_values()
    ensures
        valid_header_value(IMGBB_LOGIN_URL@),
        valid_header_value(LOGIN_FORM_CONTENT_TYPE@),
        valid_header_value(IMGBB_ORIGIN@),
        valid_header_name("content-type"@),
        valid_header_name("origin"@),
        valid_header_name("cookie"@),
        lower_seq("content-type"@) == "content-type"@,
        lower_seq("origin"@) == "origin"@,
        lower_seq("cookie"@) == "cookie"@,
{
    reveal_strlit("https://imgbb.com/login");
    reveal_strlit("application/x-www-form-urlencoded");
    reveal_strlit("https://imgbb.com");
    reveal_strlit("content-type");
    reveal_strlit("origin");
    reveal_strlit("cookie");
    assert(lower_seq("content-type"@) =~= "content-type"@);
    assert(lower_seq("origin"@) =~= "origin"@);
    assert(lower_seq("cookie"@) =~= "cookie"@);
}

/// The selector of the login page's hidden token field.
pub const LOGIN_TOKEN_SELECTOR: &'static str = "input[name=\"auth_token\"]";

/// What [`extract_login_auth_token`] gives for the login page: the script token when there is
/// one, else the `value` of the first hidden token field.
pub open spec fn login_token_spec(html: Seq<char>) -> Result<Seq<char>, ImgbbError> {
    match auth_token_spec(html) {
        Ok(t) => Ok(t),
        Err(_) => match html_select_document(html, LOGIN_TOKEN_SELECTOR@) {
            None => Err(ImgbbError::InvalidSelector),
            Some(es) => if es.len() == 0 {
                Err(ImgbbError::LoginTokenMissing)
            } else {
                match attr_value(es[0].0, "value"@) {
                    None => Err(ImgbbError::LoginTokenMissing),
                    Some(v) => if v.len() == 0 {
                        Err(ImgbbError::LoginTokenEmpty)
                    } else {
                        Ok(v)
                    },
                }
            },
        },
    }
}

/// Reads the `auth_token` of the login page, from its script or its hidden form field.
pub fn extract_login_auth_token(html: &str) -> (r: Result<String, ImgbbError>)
    ensures
        r matches Ok(v) ==> login_token_spec(html@) == Ok::<Seq<char>, ImgbbError>(v@),
        r matches Err(e) ==> login_token_spec(html@) == Err::<Seq<char>, ImgbbError>(e),
{
    if let Ok(t) = extract_auth_token(html) {
        return Ok(t);
    }
    let es = match select_in_document(html, LOGIN_TOKEN_SELECTOR) {
        Some(v) => v,
        None => return Err(ImgbbError::InvalidSelector),
    };
    if es.len() == 0 {
        return Err(ImgbbError::LoginTokenMissing);
    }
    assert(elements_view(es@)[0] == es@[0]@);
    match es[0].attr("value") {
        None => Err(ImgbbError::LoginTokenMissing),
        Some(v) => {
            if chars_of(v.as_str()).len() == 0 {
                Err(ImgbbError::LoginTokenEmpty)
            } else {
                Ok(v)
            }
        },
    }
}

/// Drops trailing `/` characters.
pub open spec fn trim_trailing_slashes(s: Seq<char>) -> Seq<char> {
    trim_back_by(s, |c: char| c == '/')
}

fn trim_trailing_slashes_of(v: &[char]) -> (r: Vec<char>)
    ensures
        r@ == trim_trailing_slashes(v@),
{
    let ghost p = |c: char| c == '/';
    let mut end: usize = v.len();
    assert(v@.take(end as int) =~= v@);
    while end > 0 && v[end - 1] == '/'
        invariant
            end <= v@.len(),
            p == (|c: char| c == '/'),
            trim_back_by(v@.take(end as int), p) == trim_back_by(v@, p),
        decreases end,
    {
        assert(v@.take(end as int).drop_last() =~= v@.take(end - 1));
        assert(v@.take(end as int).last() == v@[end - 1]);
        assert(p(v@.take(end as int).last()));
        assert(trim_back_by(v@.take(end as int), p) == trim_back_by(v@.take(end - 1), p));
        end = end - 1;
    }
    let r = sub_vec(v, 0, end);
    assert(r@ =~= v@.take(end as int));
    r
}

/// The signed-in profile that a user's page shows: refused when the page did not load or
/// still shows the sign-in entry; otherwise its token, owner ID and JSON API URL, the last
/// falling back to the site URL without trailing `/` followed by `/json`.
pub open spec fn authenticated_profile_spec(profile_url: Seq<char>, status: u16, html: Seq<char>) -> Result<(Seq<char>, Seq<char>, Seq<char>, Seq<char>), ImgbbError> {
    if !(200 <= status && status <= 299) {
        Err(ImgbbError::RequestFailed)
    } else if sign_in_entry_spec(html) {
        Err(ImgbbError::NotLoggedIn)
    } else {
        match auth_token_spec(html) {
            Err(e) => Err(e),
            Ok(token) => match owner_id_spec(html) {
                Err(e) => Err(e),
                Ok(owner) => {
                    let json_url = match json_api_url_spec(html) {
                        Some(u) => u,
                        None => trim_trailing_slashes(profile_url) + "/json"@,
                    };
                    Ok((profile_url, json_url, token, owner))
                },
            },
        }
    }
}

impl IbbAuthenticatedProfile {
    /// The profile as texts (url, JSON URL, token, owner).
    pub open spec fn texts(&self) -> (Seq<char>, Seq<char>, Seq<char>, Seq<char>) {
        (self.url@, self.json_url@, self.auth_token@, self.owner_id@)
    }
}

/// Reads the signed-in profile from the answer to a request for the user's own site.
pub fn authenticated_profile(profile_url: &str, status: u16, html: &str) -> (r: Result<IbbAuthenticatedProfile, ImgbbError>)
    ensures
        match authenticated_profile_spec(profile_url@, status, html@) {
            Ok(p) => r matches Ok(x) && x.texts() == p,
            Err(e) => r == Err::<IbbAuthenticatedProfile, ImgbbError>(e),
        },
{
    if !(200 <= status && status <= 299) {
        return Err(ImgbbError::RequestFailed);
    }
    if has_sign_in_entry(html) {
        return Err(ImgbbError::NotLoggedIn);
    }
    let auth_token = extract_auth_token(html)?;
    let owner_id = extract_owner_id(html)?;
    let json_url = match extract_json_api_url(html) {
        Some(u) => u,
        None => {
            let u = chars_of(profile_url);
            let mut t = trim_trailing_slashes_of(&u);
            push_str(&mut t, "/json");
            string_of(&t)
        },
    };
    Ok(IbbAuthenticatedProfile { url: owned(profile_url), json_url, auth_token, owner_id })
}

} // verus!
