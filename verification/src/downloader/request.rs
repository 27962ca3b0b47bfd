//! Request and response descriptions, and the header list they carry.
use std::time::Duration;
use vstd::prelude::*;

use crate::error::LlphaError;
use crate::text::{
    chars_of, chars_start_with, is_ascii_alnum, lower_chars, lower_seq, push_chars, quote_pred,
    range_pieces, seq_eq, split_char, split_char_ranges, starts_with, string_of, string_of_range,
    sub_vec, trim, trim_bounds, trim_by, trim_chars, TrimSet,
};

verus! {

/// A character allowed in a header value: tab, or anything from space upward except DEL.
pub open spec fn is_header_value_char(c: char) -> bool {
    c == '\t' || (' ' <= c && c != '\u{7f}')
}

/// A value that `HeaderValue::from_str` accepts.
pub open spec fn valid_header_value(v: Seq<char>) -> bool {
    forall|i: int| 0 <= i < v.len() ==> is_header_value_char(#[trigger] v[i])
}

/// A token character of a header name.
pub open spec fn is_token_char(c: char) -> bool {
    is_ascii_alnum(c) || c == '!' || c == '#' || c == '$' || c == '%' || c == '&' || c == '\''
        || c == '*' || c == '+' || c == '-' || c == '.' || c == '^' || c == '_' || c == '`' || c
        == '|' || c == '~'
}

/// A name that `HeaderName::from_bytes` accepts.
pub open spec fn valid_header_name(n: Seq<char>) -> bool {
    n.len() > 0 && forall|i: int| 0 <= i < n.len() ==> is_token_char(#[trigger] n[i])
}

/// Checks a header value.
pub fn is_valid_header_value(v: &[char]) -> (r: bool)
    ensures
        r == valid_header_value(v@),
{
    let mut i: usize = 0;
    while i < v.len()
        invariant
            i <= v@.len(),
            forall|k: int| 0 <= k < i ==> is_header_value_char(#[trigger] v@[k]),
        decreases v@.len() - i,
    {
        let c = v[i];
        if !(c == '\t' || (' ' <= c && c != '\u{7f}')) {
            return false;
        }
        i = i + 1;
    }
    true
}

/// Checks a header name.
pub fn is_valid_header_name(n: &[char]) -> (r: bool)
    ensures
        r == valid_header_name(n@),
{
    if n.len() == 0 {
        return false;
    }
    let mut i: usize = 0;
    while i < n.len()
        invariant
            i <= n@.len(),
            forall|k: int| 0 <= k < i ==> is_token_char(#[trigger] n@[k]),
        decreases n@.len() - i,
    {
        let c = n[i];
        if !(crate::text::char_is_ascii_alnum(c) || c == '!' || c == '#' || c == '$' || c == '%'
            || c == '&' || c == '\'' || c == '*' || c == '+' || c == '-' || c == '.' || c == '^'
            || c == '_' || c == '`' || c == '|' || c == '~') {
            return false;
        }
        i = i + 1;
    }
    true
}

/// The entries left after removing every entry with the given name.
pub open spec fn remove_header(s: Seq<(Seq<char>, Seq<char>)>, name: Seq<char>) -> Seq<
    (Seq<char>, Seq<char>),
>
    decreases s.len(),
{
    if s.len() == 0 {
        s
    } else if s.last().0 == name {
        remove_header(s.drop_last(), name)
    } else {
        remove_header(s.drop_last(), name).push(s.last())
    }
}

/// The entries after inserting: earlier values of the name are dropped, the new one is last.
pub open spec fn insert_header_spec(
    s: Seq<(Seq<char>, Seq<char>)>,
    name: Seq<char>,
    value: Seq<char>,
) -> Seq<(Seq<char>, Seq<char>)> {
    remove_header(s, name).push((name, value))
}

/// The entries after storing the first `k` entries of `other`, in order.
pub open spec fn merge_header_lists(
    s: Seq<(Seq<char>, Seq<char>)>,
    other: Seq<(Seq<char>, Seq<char>)>,
    k: int,
) -> Seq<(Seq<char>, Seq<char>)>
    decreases k,
{
    if k <= 0 {
        s
    } else {
        let prev = merge_header_lists(s, other, k - 1);
        insert_header_spec(prev, other[k - 1].0, other[k - 1].1)
    }
}

/// The first value stored under a name.
pub open spec fn header_lookup(s: Seq<(Seq<char>, Seq<char>)>, name: Seq<char>) -> Option<
    Seq<char>,
>
    decreases s.len(),
{
    if s.len() == 0 {
        None
    } else if s[0].0 == name {
        Some(s[0].1)
    } else {
        header_lookup(s.drop_first(), name)
    }
}

/// Looking up a name after appending an entry: an earlier value wins, else the new entry
/// when it has that name.
proof fn lemma_lookup_push(t: Seq<(Seq<char>, Seq<char>)>, e: (Seq<char>, Seq<char>), k: Seq<char>)
    ensures
        header_lookup(t.push(e), k) == match header_lookup(t, k) {
            Some(v) => Some(v),
            None => if e.0 == k {
                Some(e.1)
            } else {
                None
            },
        },
    decreases t.len(),
{
    if t.len() > 0 {
        assert(t.push(e).drop_first() =~= t.drop_first().push(e));
        assert(t.push(e)[0] == t[0]);
        lemma_lookup_push(t.drop_first(), e, k);
    } else {
        assert(t.push(e).drop_first() =~= Seq::<(Seq<char>, Seq<char>)>::empty());
        assert(header_lookup(Seq::<(Seq<char>, Seq<char>)>::empty(), k) is None);
        assert(t.push(e)[0] == e);
    }
}

/// Removing a name leaves the values of every other name as they were.
proof fn lemma_lookup_remove(s: Seq<(Seq<char>, Seq<char>)>, n: Seq<char>, k: Seq<char>)
    ensures
        header_lookup(remove_header(s, n), k) == if k == n {
            None
        } else {
            header_lookup(s, k)
        },
    decreases s.len(),
{
    if s.len() > 0 {
        let dl = s.drop_last();
        lemma_lookup_remove(dl, n, k);
        assert(s =~= dl.push(s.last()));
        lemma_lookup_push(dl, s.last(), k);
        if s.last().0 != n {
            lemma_lookup_push(remove_header(dl, n), s.last(), k);
        }
    }
}

/// After a header is inserted, looking its name up gives the inserted value.
pub proof fn law_header_insert_then_lookup(s: Seq<(Seq<char>, Seq<char>)>, name: Seq<char>, value: Seq<char>)
    ensures
        header_lookup(insert_header_spec(s, name, value), name) == Some(value),
{
    lemma_lookup_remove(s, name, name);
    lemma_lookup_push(remove_header(s, name), (name, value), name);
}

/// Inserting a header leaves the value of every other name as it was.
pub proof fn law_header_insert_keeps_others(
    s: Seq<(Seq<char>, Seq<char>)>,
    name: Seq<char>,
    value: Seq<char>,
    other: Seq<char>,
)
    requires
        other != name,
    ensures
        header_lookup(insert_header_spec(s, name, value), other) == header_lookup(s, other),
{
    lemma_lookup_remove(s, name, other);
    lemma_lookup_push(remove_header(s, name), (name, value), other);
}

/// HTTP headers as an ordered list of lower-case names and values; a name appears at most
/// once after [`HeaderList::insert`].
#[derive(Clone, Debug)]
pub struct HeaderList {
    entries: Vec<(String, String)>,
}

impl View for HeaderList {
    type V = Seq<(Seq<char>, Seq<char>)>;

    closed spec fn view(&self) -> Seq<(Seq<char>, Seq<char>)> {
        self.entries@.map_values(|e: (String, String)| (e.0@, e.1@))
    }
}

impl HeaderList {
    /// An empty header list.
    pub fn new() -> (h: Self)
        ensures
            h@ == Seq::<(Seq<char>, Seq<char>)>::empty(),
    {
        let h = HeaderList { entries: Vec::new() };
        assert(h@ =~= Seq::<(Seq<char>, Seq<char>)>::empty());
        h
    }

    /// A copy with the same entries.
    pub fn copy(&self) -> (h: Self)
        ensures
            h@ == self@,
    {
        let mut entries: Vec<(String, String)> = Vec::new();
        let mut i: usize = 0;
        while i < self.entries.len()
            invariant
                i <= self.entries@.len(),
                self@.len() == self.entries@.len(),
                entries@.map_values(|e: (String, String)| (e.0@, e.1@)) == self@.take(i as int),
            decreases self.entries@.len() - i,
        {
            let k = self.entries[i].0.clone();
            let v = self.entries[i].1.clone();
            let ghost before = entries@.map_values(|e: (String, String)| (e.0@, e.1@));
            entries.push((k, v));
            assert(entries@.map_values(|e: (String, String)| (e.0@, e.1@)) =~= before.push(
                self@[i as int],
            ));
            i = i + 1;
            assert(entries@.map_values(|e: (String, String)| (e.0@, e.1@)) =~= self@.take(
                i as int,
            ));
        }
        assert(self@.take(self@.len() as int) =~= self@);
        HeaderList { entries }
    }

    /// The number of entries.
    pub fn len(&self) -> (n: usize)
        ensures
            n == self@.len(),
    {
        self.entries.len()
    }

    /// Whether the list is empty.
    pub fn is_empty(&self) -> (b: bool)
        ensures
            b == (self@.len() == 0),
    {
        self.entries.len() == 0
    }

    /// The entry at an index.
    pub fn entry(&self, i: usize) -> (e: (&str, &str))
        requires
            i < self@.len(),
        ensures
            e.0@ == self@[i as int].0,
            e.1@ == self@[i as int].1,
    {
        (self.entries[i].0.as_str(), self.entries[i].1.as_str())
    }

    /// Stores a value under a name (compared in lower case), replacing earlier values of that
    /// name; refused when the name or value is not a valid header name or value.
    pub fn insert(&mut self, name: &str, value: &str) -> (r: Result<(), LlphaError>)
        ensures
            r is Ok <==> valid_header_name(name@) && valid_header_value(value@),
            !valid_header_name(name@) ==> r == Err::<(), LlphaError>(
                LlphaError::InvalidHeaderName,
            ),
            valid_header_name(name@) && !valid_header_value(value@) ==> r == Err::<
                (),
                LlphaError,
            >(LlphaError::InvalidHeaderValue),
            r is Ok ==> final(self)@ == insert_header_spec(
                old(self)@,
                lower_seq(name@),
                value@,
            ),
            r is Err ==> final(self)@ == old(self)@,
    {
        let n = chars_of(name);
        if !is_valid_header_name(&n) {
            return Err(LlphaError::InvalidHeaderName);
        }
        let v = chars_of(value);
        if !is_valid_header_value(&v) {
            return Err(LlphaError::InvalidHeaderValue);
        }
        let lname = lower_chars(&n);
        self.remove_all(&lname);
        let ghost before = self@;
        self.entries.push((string_of(&lname), value.to_owned()));
        assert(self@ =~= before.push((lower_seq(name@), value@)));
        Ok(())
    }

    /// Stores every entry of `other`, in order, each replacing earlier values of its name.
    pub fn merge_from(&mut self, other: &HeaderList)
        ensures
            final(self)@ == merge_header_lists(old(self)@, other@, other@.len() as int),
    {
        let mut i: usize = 0;
        while i < other.entries.len()
            invariant
                i <= other.entries@.len(),
                other@.len() == other.entries@.len(),
                self@ == merge_header_lists(old(self)@, other@, i as int),
            decreases other.entries@.len() - i,
        {
            let n = chars_of(other.entries[i].0.as_str());
            self.remove_all(&n);
            let ghost before = self@;
            let e = (other.entries[i].0.clone(), other.entries[i].1.clone());
            self.entries.push(e);
            assert(other@[i as int] == (other.entries@[i as int].0@, other.entries@[i as int].1@));
            assert(self@ =~= before.push(other@[i as int]));
            i = i + 1;
        }
    }

    /// Removes every entry with the given name.
    fn remove_all(&mut self, name: &[char])
        ensures
            final(self)@ == remove_header(old(self)@, name@),
    {
        let ghost s = old(self)@;
        let mut kept: Vec<(String, String)> = Vec::new();
        let mut i: usize = 0;
        while i < self.entries.len()
            invariant
                i <= self.entries@.len(),
                s == self@,
                kept@.map_values(|e: (String, String)| (e.0@, e.1@)) == remove_header(
                    s.take(i as int),
                    name@,
                ),
            decreases self.entries@.len() - i,
        {
            let en = chars_of(self.entries[i].0.as_str());
            let ghost kv = kept@.map_values(|e: (String, String)| (e.0@, e.1@));
            proof {
                assert(s.take(i + 1).drop_last() =~= s.take(i as int));
                assert(s.take(i + 1).last() == s[i as int]);
                assert(s[i as int] == (self.entries@[i as int].0@, self.entries@[i as int].1@));
            }
            if !seq_eq(&en, name) {
                kept.push((self.entries[i].0.clone(), self.entries[i].1.clone()));
                assert(kept@.map_values(|e: (String, String)| (e.0@, e.1@)) =~= kv.push(
                    s[i as int],
                ));
            }
            i = i + 1;
        }
        assert(s.take(s.len() as int) =~= s);
        self.entries = kept;
    }

    /// The first value stored under a name (compared in lower case).
    pub fn get(&self, name: &str) -> (r: Option<String>)
        ensures
            r matches Some(v) ==> header_lookup(self@, lower_seq(name@)) == Some(v@),
            r is None ==> header_lookup(self@, lower_seq(name@)) is None,
    {
        let n = chars_of(name);
        let lname = lower_chars(&n);
        let mut i: usize = 0;
        assert(self@.skip(0) =~= self@);
        while i < self.entries.len()
            invariant
                i <= self@.len(),
                self@.len() == self.entries@.len(),
                lname@ == lower_seq(name@),
                header_lookup(self@, lname@) == header_lookup(self@.skip(i as int), lname@),
            decreases self.entries@.len() - i,
        {
            let en = chars_of(self.entries[i].0.as_str());
            proof {
                assert(self@.skip(i as int).drop_first() =~= self@.skip(i + 1));
                assert(self@.skip(i as int)[0] == (
                    self.entries@[i as int].0@,
                    self.entries@[i as int].1@,
                ));
            }
            if seq_eq(&en, &lname) {
                let v = self.entries[i].1.clone();
                assert(header_lookup(self@.skip(i as int), lname@) == Some(v@));
                return Some(v);
            }
            i = i + 1;
        }
        None
    }

    /// Whether some value is stored under a name.
    pub fn contains_key(&self, name: &str) -> (b: bool)
        ensures
            b == header_lookup(self@, lower_seq(name@)) is Some,
    {
        self.get(name).is_some()
    }
}

/// The HTTP method of a request.
#[derive(Clone, Copy, Debug, PartialEq, Eq, Structural)]
pub enum HttpMethod {
    Get,
    Post,
    Put,
    Patch,
    Delete,
    Head,
}

/// Per-request options.
#[derive(Clone, Debug)]
pub struct RequestOptions {
    pub timeout: Option<Duration>,
    pub headers: HeaderList,
    pub follow_redirects: bool,
}

impl RequestOptions {
    /// No timeout, no headers, redirects followed.
    pub fn new() -> (o: Self)
        ensures
            o.timeout is None,
            o.headers@.len() == 0,
            o.follow_redirects,
    {
        RequestOptions { timeout: None, headers: HeaderList::new(), follow_redirects: true }
    }

    /// A copy with the same settings.
    pub fn copy(&self) -> (o: Self)
        ensures
            o.timeout == self.timeout,
            o.headers@ == self.headers@,
            o.follow_redirects == self.follow_redirects,
    {
        RequestOptions {
            timeout: self.timeout,
            headers: self.headers.copy(),
            follow_redirects: self.follow_redirects,
        }
    }

    /// Sets the timeout.
    pub fn with_timeout(self, timeout: Duration) -> (o: Self)
        ensures
            o.timeout == Some(timeout),
            o.headers@ == self.headers@,
            o.follow_redirects == self.follow_redirects,
    {
        RequestOptions { timeout: Some(timeout), ..self }
    }

    /// Replaces the headers.
    pub fn with_headers(self, headers: HeaderList) -> (o: Self)
        ensures
            o.headers@ == headers@,
            o.timeout == self.timeout,
            o.follow_redirects == self.follow_redirects,
    {
        RequestOptions { headers, ..self }
    }

    /// Stops following redirects.
    pub fn without_redirects(self) -> (o: Self)
        ensures
            !o.follow_redirects,
            o.headers@ == self.headers@,
            o.timeout == self.timeout,
    {
        RequestOptions { follow_redirects: false, ..self }
    }
}

impl Default for RequestOptions {
    /// No timeout, no headers, redirects followed.
    fn default() -> (o: Self)
        ensures
            o.timeout is None,
            o.headers@.len() == 0,
            o.follow_redirects,
    {
        RequestOptions::new()
    }
}

/// A request about to be sent.
#[derive(Clone, Debug)]
pub struct FetchRequest {
    pub method: HttpMethod,
    pub url: String,
    pub body: Option<String>,
    pub options: RequestOptions,
}

impl FetchRequest {
    /// A GET request with default options.
    pub fn get(url: &str) -> (r: Self)
        ensures
            r.method == HttpMethod::Get,
            r.url@ == url@,
            r.body is None,
            r.options.timeout is None,
            r.options.headers@.len() == 0,
            r.options.follow_redirects,
    {
        FetchRequest {
            method: HttpMethod::Get,
            url: url.to_owned(),
            body: None,
            options: RequestOptions::new(),
        }
    }

    /// A POST request carrying a text body, with default options.
    pub fn post(url: &str, body: &str) -> (r: Self)
        ensures
            r.method == HttpMethod::Post,
            r.url@ == url@,
            r.body matches Some(b) && b@ == body@,
            r.options.timeout is None,
            r.options.headers@.len() == 0,
            r.options.follow_redirects,
    {
        FetchRequest {
            method: HttpMethod::Post,
            url: url.to_owned(),
            body: Some(body.to_owned()),
            options: RequestOptions::new(),
        }
    }

    /// Replaces the options.
    pub fn with_options(self, options: RequestOptions) -> (r: Self)
        ensures
            r.options.timeout == options.timeout,
            r.options.headers@ == options.headers@,
            r.options.follow_redirects == options.follow_redirects,
            r.method == self.method,
            r.url == self.url,
            r.body == self.body,
    {
        FetchRequest { options, ..self }
    }

    /// Replaces the headers.
    pub fn with_headers(self, headers: HeaderList) -> (r: Self)
        ensures
            r.options.headers@ == headers@,
            r.options.timeout == self.options.timeout,
            r.options.follow_redirects == self.options.follow_redirects,
            r.method == self.method,
            r.url == self.url,
            r.body == self.body,
    {
        let options = self.options.with_headers(headers);
        FetchRequest { options, ..self }
    }

    /// Sets the timeout.
    pub fn with_timeout(self, timeout: Duration) -> (r: Self)
        ensures
            r.options.timeout == Some(timeout),
            r.options.headers@ == self.options.headers@,
            r.options.follow_redirects == self.options.follow_redirects,
            r.method == self.method,
            r.url == self.url,
            r.body == self.body,
    {
        let options = self.options.with_timeout(timeout);
        FetchRequest { options, ..self }
    }

    /// Stops following redirects for this request.
    pub fn without_redirects(self) -> (r: Self)
        ensures
            !r.options.follow_redirects,
            r.options.headers@ == self.options.headers@,
            r.options.timeout == self.options.timeout,
            r.method == self.method,
            r.url == self.url,
            r.body == self.body,
    {
        let options = self.options.without_redirects();
        FetchRequest { options, ..self }
    }
}

/// A 2xx status.
pub open spec fn is_success_status(status: u16) -> bool {
    200 <= status && status <= 299
}

/// The status, headers and text body of a response.
#[derive(Clone, Debug)]
pub struct FetchResponse {
    pub url: String,
    pub status: u16,
    pub headers: HeaderList,
    pub body: String,
}

impl FetchResponse {
    /// Whether the status is 2xx.
    pub fn is_success(&self) -> (b: bool)
        ensures
            b == is_success_status(self.status),
    {
        200 <= self.status && self.status <= 299
    }
}

/// The status, headers and bytes of a download held in memory.
#[derive(Clone, Debug)]
pub struct DownloadResponse {
    pub url: String,
    pub status: u16,
    pub headers: HeaderList,
    pub bytes: Vec<u8>,
}

impl DownloadResponse {
    /// Whether the status is 2xx.
    pub fn is_success(&self) -> (b: bool)
        ensures
            b == is_success_status(self.status),
    {
        200 <= self.status && self.status <= 299
    }

    /// The number of bytes.
    pub fn len(&self) -> (n: usize)
        ensures
            n == self.bytes@.len(),
    {
        self.bytes.len()
    }

    /// Whether no byte was received.
    pub fn is_empty(&self) -> (b: bool)
        ensures
            b == (self.bytes@.len() == 0),
    {
        self.bytes.len() == 0
    }

    /// The file name that the `Content-Disposition` header suggests.
    pub fn suggested_file_name(&self) -> (r: Option<String>)
        ensures
            r matches Some(v) ==> (header_lookup(self.headers@, "content-disposition"@) matches Some(
                h,
            ) && content_disposition_file_name(h) == Some(v@)),
            r is None ==> (header_lookup(self.headers@, "content-disposition"@) matches Some(h)
                ==> content_disposition_file_name(h) is None),
    {
        let value = self.headers.get("content-disposition");
        proof {
            let n = "content-disposition"@;
            assert(lower_seq(n) =~= n) by {
                reveal_strlit("content-disposition");
            }
        }
        match value {
            None => None,
            Some(v) => parse_content_disposition_file_name(v.as_str()),
        }
    }
}

/// The result of a download written to a file.
#[derive(Clone, Debug)]
pub struct SavedDownload {
    pub url: String,
    pub status: u16,
    pub headers: HeaderList,
    pub path: String,
    pub bytes_written: usize,
}

impl SavedDownload {
    /// Whether the status is 2xx.
    pub fn is_success(&self) -> (b: bool)
        ensures
            b == is_success_status(self.status),
    {
        200 <= self.status && self.status <= 299
    }
}

/// The file name from the first `;`-separated part that starts with `filename=`, with
/// surrounding quotes removed.
pub open spec fn file_name_from_parts(parts: Seq<Seq<char>>) -> Option<Seq<char>>
    decreases parts.len(),
{
    if parts.len() == 0 {
        None
    } else {
        let t = trim(parts[0]);
        if starts_with(t, "filename="@) {
            Some(trim_by(t.skip(9), quote_pred()))
        } else {
            file_name_from_parts(parts.drop_first())
        }
    }
}

/// The file name named by a `Content-Disposition` header value.
pub open spec fn content_disposition_file_name(value: Seq<char>) -> Option<Seq<char>> {
    file_name_from_parts(split_char(value, ';'))
}

/// Reads the `filename` parameter of a `Content-Disposition` header value.
pub fn parse_content_disposition_file_name(value: &str) -> (r: Option<String>)
    ensures
        r matches Some(v) ==> content_disposition_file_name(value@) == Some(v@),
        r is None ==> content_disposition_file_name(value@) is None,
{
    let cs = chars_of(value);
    let ranges = split_char_ranges(&cs, ';');
    let ghost parts = split_char(cs@, ';');
    let prefix = chars_of("filename=");
    proof {
        reveal_strlit("filename=");
    }
    assert(prefix@.len() == 9);
    let mut k: usize = 0;
    assert(parts.skip(0) =~= parts);
    while k < ranges.len()
        invariant
            k <= ranges@.len(),
            prefix@ == "filename="@,
            prefix@.len() == 9,
            cs@ == value@,
            parts == split_char(cs@, ';'),
            range_pieces(cs@, ranges@) == parts,
            forall|j: int| 0 <= j < ranges@.len() ==> (#[trigger] ranges@[j]).0 <= ranges@[j].1
                <= cs@.len(),
            file_name_from_parts(parts) == file_name_from_parts(parts.skip(k as int)),
        decreases ranges@.len() - k,
    {
        let piece = sub_vec(&cs, ranges[k].0, ranges[k].1);
        assert(piece@ == parts[k as int]);
        let t = trim_chars(&piece);
        proof {
            assert(parts.skip(k as int)[0] == parts[k as int]);
            assert(parts.skip(k as int).drop_first() =~= parts.skip(k + 1));
        }
        if chars_start_with(&t, &prefix) {
            let rest = sub_vec(&t, 9, t.len());
            assert(rest@ =~= t@.skip(9));
            let (a, b) = trim_bounds(&rest, TrimSet::Quote);
            let name = string_of_range(&rest, a, b);
            proof {
                assert(starts_with(t@, "filename="@));
                assert(file_name_from_parts(parts.skip(k as int)) == Some(
                    trim_by(t@.skip(9), quote_pred()),
                ));
            }
            return Some(name);
        }
        k = k + 1;
    }
    None
}

} // verus!
