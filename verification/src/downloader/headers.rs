//! Common browser request headers.
use vstd::prelude::*;

use super::request::{
    insert_header_spec, remove_header, valid_header_name, valid_header_value, HeaderList,
};
use crate::error::LlphaError;
use crate::text::lower_seq;

verus! {

/// The default desktop browser User-Agent.
pub const DEFAULT_BROWSER_USER_AGENT: &'static str = "Mozilla/5.0 (Macintosh; Intel Mac OS X 10_15_7) AppleWebKit/537.36 (KHTML, like Gecko) Chrome/148.0.0.0 Safari/537.36";

/// The default `Accept-Language`.
pub const DEFAULT_ACCEPT_LANGUAGE: &'static str = "zh-CN,zh;q=0.9";

/// `Accept` for HTML pages.
pub const HTML_ACCEPT: &'static str = "text/html,application/xhtml+xml,application/xml;q=0.9,*/*;q=0.8";

/// `Accept` for JSON endpoints.
pub const JSON_ACCEPT: &'static str = "application/json, text/javascript, */*; q=0.01";

/// `Accept` for images.
pub const IMAGE_ACCEPT: &'static str = "image/avif,image/webp,image/apng,image/svg+xml,image/*,*/*;q=0.8";

/// `Content-Type` for form posts.
pub const FORM_CONTENT_TYPE: &'static str = "application/x-www-form-urlencoded; charset=UTF-8";

/// Removing a name that is absent changes nothing.
proof fn lemma_remove_absent(s: Seq<(Seq<char>, Seq<char>)>, n: Seq<char>)
    requires
        forall|i: int| 0 <= i < s.len() ==> (#[trigger] s[i]).0 != n,
    ensures
        remove_header(s, n) == s,
    decreases s.len(),
{
    if s.len() > 0 {
        assert forall|i: int| 0 <= i < s.drop_last().len() implies (#[trigger] s.drop_last()[i]).0
            != n by {
            assert(s.drop_last()[i] == s[i]);
        }
        lemma_remove_absent(s.drop_last(), n);
        assert(s.drop_last().push(s.last()) =~= s);
    }
}

/// Appends a header whose lower-case name is not yet present; fails only on an invalid value.
fn push_new_header(h: &mut HeaderList, name: &str, value: &str) -> (r: Result<(), LlphaError>)
    requires
        valid_header_name(name@),
        lower_seq(name@) == name@,
        forall|i: int| 0 <= i < old(h)@.len() ==> (#[trigger] old(h)@[i]).0 != name@,
    ensures
        r is Ok <==> valid_header_value(value@),
        r is Err ==> r == Err::<(), LlphaError>(LlphaError::InvalidHeaderValue),
        r is Ok ==> final(h)@ == old(h)@.push((name@, value@)),
{
    proof {
        lemma_remove_absent(old(h)@, name@);
    }
    h.insert(name, value)
}

/// The base headers: User-Agent, Accept-Language and Referer.
pub open spec fn base_headers_spec(referer: Seq<char>) -> Seq<(Seq<char>, Seq<char>)> {
    seq![
        ("user-agent"@, DEFAULT_BROWSER_USER_AGENT@),
        ("accept-language"@, DEFAULT_ACCEPT_LANGUAGE@),
        ("referer"@, referer),
    ]
}

/// `cookie` is a valid, lower-case header name.
pub proof fn lemma_cookie_name_valid()
    ensures
        valid_header_name("cookie"@),
        lower_seq("cookie"@) == "cookie"@,
{
    reveal_strlit("cookie");
    assert(lower_seq("cookie"@) =~= "cookie"@);
}

/// `accept` is a valid, lower-case header name and `application/json` a valid value.
pub proof fn lemma_accept_json_valid()
    ensures
        valid_header_name("accept"@),
        lower_seq("accept"@) == "accept"@,
        valid_header_value("application/json"@),
{
    reveal_strlit("accept");
    reveal_strlit("application/json");
    assert(lower_seq("accept"@) =~= "accept"@);
}

/// Facts about the constant header names and values.
proof fn lemma_header_constants()
    ensures
        valid_header_name("user-agent"@),
        lower_seq("user-agent"@) == "user-agent"@,
        valid_header_name("accept-language"@),
        lower_seq("accept-language"@) == "accept-language"@,
        valid_header_name("referer"@),
        lower_seq("referer"@) == "referer"@,
        valid_header_name("accept"@),
        lower_seq("accept"@) == "accept"@,
        valid_header_name("content-type"@),
        lower_seq("content-type"@) == "content-type"@,
        valid_header_name("origin"@),
        lower_seq("origin"@) == "origin"@,
        valid_header_name("x-requested-with"@),
        lower_seq("x-requested-with"@) == "x-requested-with"@,
        valid_header_value(DEFAULT_BROWSER_USER_AGENT@),
        valid_header_value(DEFAULT_ACCEPT_LANGUAGE@),
        valid_header_value(HTML_ACCEPT@),
        valid_header_value(JSON_ACCEPT@),
        valid_header_value(IMAGE_ACCEPT@),
        valid_header_value(FORM_CONTENT_TYPE@),
        valid_header_value("XMLHttpRequest"@),
        "user-agent"@ != "accept-language"@,
        "user-agent"@ != "referer"@,
        "accept-language"@ != "referer"@,
        "accept"@ != "user-agent"@,
        "accept"@ != "accept-language"@,
        "accept"@ != "referer"@,
        "content-type"@ != "user-agent"@,
        "content-type"@ != "accept-language"@,
        "content-type"@ != "referer"@,
        "content-type"@ != "accept"@,
        "origin"@ != "user-agent"@,
        "origin"@ != "accept-language"@,
        "origin"@ != "referer"@,
        "origin"@ != "accept"@,
        "origin"@ != "content-type"@,
        "x-requested-with"@ != "user-agent"@,
        "x-requested-with"@ != "accept-language"@,
        "x-requested-with"@ != "referer"@,
        "x-requested-with"@ != "accept"@,
        "x-requested-with"@ != "content-type"@,
        "x-requested-with"@ != "origin"@,
{
    reveal_strlit("user-agent");
    reveal_strlit("accept-language");
    reveal_strlit("referer");
    reveal_strlit("accept");
    reveal_strlit("content-type");
    reveal_strlit("origin");
    reveal_strlit("x-requested-with");
    reveal_strlit("Mozilla/5.0 (Macintosh; Intel Mac OS X 10_15_7) AppleWebKit/537.36 (KHTML, like Gecko) Chrome/148.0.0.0 Safari/537.36");
    reveal_strlit("zh-CN,zh;q=0.9");
    reveal_strlit("text/html,application/xhtml+xml,application/xml;q=0.9,*/*;q=0.8");
    reveal_strlit("application/json, text/javascript, */*; q=0.01");
    reveal_strlit("image/avif,image/webp,image/apng,image/svg+xml,image/*,*/*;q=0.8");
    reveal_strlit("application/x-www-form-urlencoded; charset=UTF-8");
    reveal_strlit("XMLHttpRequest");
    assert(lower_seq("user-agent"@) =~= "user-agent"@);
    assert(lower_seq("accept-language"@) =~= "accept-language"@);
    assert(lower_seq("referer"@) =~= "referer"@);
    assert(lower_seq("accept"@) =~= "accept"@);
    assert(lower_seq("content-type"@) =~= "content-type"@);
    assert(lower_seq("origin"@) =~= "origin"@);
    assert(lower_seq("x-requested-with"@) =~= "x-requested-with"@);
    assert("accept"@ != "accept-language"@) by {
        assert("accept"@.len() != "accept-language"@.len());
    }
    assert("referer"@ != "origin"@) by {
        assert("referer"@[0] != "origin"@[0]);
    }
    assert("accept"@ != "origin"@) by {
        assert("accept"@[0] != "origin"@[0]);
    }
}

/// The base headers: User-Agent, Accept-Language and Referer; refused when the referer is not a
/// valid header value.
fn base_browser_headers(referer: &str) -> (r: Result<HeaderList, LlphaError>)
    ensures
        r is Ok <==> valid_header_value(referer@),
        r is Err ==> r == Err::<HeaderList, LlphaError>(LlphaError::InvalidHeaderValue),
        r matches Ok(h) ==> h@ == base_headers_spec(referer@),
{
    proof {
        lemma_header_constants();
    }
    let mut h = HeaderList::new();
    let _ = push_new_header(&mut h, "user-agent", DEFAULT_BROWSER_USER_AGENT);
    let _ = push_new_header(&mut h, "accept-language", DEFAULT_ACCEPT_LANGUAGE);
    match push_new_header(&mut h, "referer", referer) {
        Ok(()) => {
            assert(h@ =~= base_headers_spec(referer@));
            Ok(h)
        },
        Err(e) => Err(e),
    }
}

/// Headers for fetching an HTML page from a browser.
pub fn browser_page_headers(referer: &str) -> (r: Result<HeaderList, LlphaError>)
    ensures
        r is Ok <==> valid_header_value(referer@),
        r is Err ==> r == Err::<HeaderList, LlphaError>(LlphaError::InvalidHeaderValue),
        r matches Ok(h) ==> h@ == base_headers_spec(referer@).push(("accept"@, HTML_ACCEPT@)),
{
    proof {
        lemma_header_constants();
    }
    let mut h = base_browser_headers(referer)?;
    let _ = push_new_header(&mut h, "accept", HTML_ACCEPT);
    Ok(h)
}

/// Headers for a browser's form post to a JSON endpoint.
pub fn browser_form_headers(referer: &str, origin: &str) -> (r: Result<HeaderList, LlphaError>)
    ensures
        r is Ok <==> valid_header_value(referer@) && valid_header_value(origin@),
        r is Err ==> r == Err::<HeaderList, LlphaError>(LlphaError::InvalidHeaderValue),
        r matches Ok(h) ==> h@ == base_headers_spec(referer@).push(("accept"@, JSON_ACCEPT@)).push(
            ("content-type"@, FORM_CONTENT_TYPE@),
        ).push(("origin"@, origin@)).push(("x-requested-with"@, "XMLHttpRequest"@)),
{
    proof {
        lemma_header_constants();
    }
    let mut h = base_browser_headers(referer)?;
    let _ = push_new_header(&mut h, "accept", JSON_ACCEPT);
    let _ = push_new_header(&mut h, "content-type", FORM_CONTENT_TYPE);
    push_new_header(&mut h, "origin", origin)?;
    let _ = push_new_header(&mut h, "x-requested-with", "XMLHttpRequest");
    Ok(h)
}

/// Headers for downloading an image referred to by a page.
pub fn image_download_headers(referer: &str) -> (r: Result<HeaderList, LlphaError>)
    ensures
        r is Ok <==> valid_header_value(referer@),
        r is Err ==> r == Err::<HeaderList, LlphaError>(LlphaError::InvalidHeaderValue),
        r matches Ok(h) ==> h@ == base_headers_spec(referer@).push(("accept"@, IMAGE_ACCEPT@)),
{
    proof {
        lemma_header_constants();
    }
    let mut h = base_browser_headers(referer)?;
    let _ = push_new_header(&mut h, "accept", IMAGE_ACCEPT);
    Ok(h)
}

/// Stores a header value, replacing earlier values of the name.
pub fn insert_header(headers: &mut HeaderList, name: &str, value: &str) -> (r: Result<
    (),
    LlphaError,
>)
    ensures
        r is Ok <==> valid_header_name(name@) && valid_header_value(value@),
        r is Ok ==> final(headers)@ == insert_header_spec(old(headers)@, lower_seq(name@), value@),
        r is Err ==> final(headers)@ == old(headers)@,
{
    headers.insert(name, value)
}

} // verus!
