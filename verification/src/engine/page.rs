//! Pages: what a fetched task turns into before actions are drawn from it.
use vstd::prelude::*;

use crate::analysis::extract::{extract_spec, links_view, ExtractResult, HtmlExtractor};
use crate::downloader::request::{header_lookup, is_success_status, FetchResponse, HeaderList};
use crate::engine::task::{Task, TaskId};
use crate::error::LlphaError;
use crate::text::{chars_of, lower_seq, trim};

verus! {

/// The body of a page.
#[derive(Clone, Debug, PartialEq, Eq)]
pub enum PageBody {
    Text(String),
    Binary(Vec<u8>),
}

impl PageBody {
    /// The text of a text body.
    pub fn as_text(&self) -> (r: Option<&str>)
        ensures
            match *self {
                PageBody::Text(t) => r matches Some(s) && s@ == t@,
                PageBody::Binary(_) => r is None,
            },
    {
        match self {
            PageBody::Text(t) => Some(t.as_str()),
            PageBody::Binary(_) => None,
        }
    }
}

/// A fetched task: where it came from, the response, and what was extracted from it.
#[derive(Clone, Debug)]
pub struct Page {
    pub task_id: TaskId,
    pub url: String,
    pub status: u16,
    pub headers: HeaderList,
    pub mime: Option<String>,
    pub body: PageBody,
    pub extract: Option<ExtractResult>,
}

/// A header value that reads as text: visible ASCII and tabs only.
pub open spec fn visible_ascii(s: Seq<char>) -> bool {
    forall|i: int| 0 <= i < s.len() ==> (' ' <= #[trigger] s[i] <= '~' || s[i] == '\t')
}

/// The content type of a response, when it reads as text.
pub open spec fn mime_of(headers: Seq<(Seq<char>, Seq<char>)>) -> Option<Seq<char>> {
    match header_lookup(headers, "content-type"@) {
        Some(v) => if visible_ascii(v) {
            Some(v)
        } else {
            None
        },
        None => None,
    }
}

fn is_visible_ascii(s: &str) -> (b: bool)
    ensures
        b == visible_ascii(s@),
{
    let cs = chars_of(s);
    let mut i: usize = 0;
    while i < cs.len()
        invariant
            i <= cs@.len(),
            cs@ == s@,
            forall|j: int| 0 <= j < i ==> (' ' <= #[trigger] cs@[j] <= '~' || cs@[j] == '\t'),
        decreases cs@.len() - i,
    {
        let c = cs[i];
        if !((' ' <= c && c <= '~') || c == '\t') {
            return false;
        }
        i = i + 1;
    }
    true
}

impl Page {
    /// A text page made of a response.
    pub fn from_response(task_id: TaskId, response: FetchResponse) -> (p: Self)
        ensures
            p.task_id == task_id,
            p.url@ == response.url@,
            p.status == response.status,
            p.headers@ == response.headers@,
            crate::url::opt_text(p.mime) == mime_of(response.headers@),
            p.body matches PageBody::Text(t) && t@ == response.body@,
            p.extract is None,
    {
        proof {
            reveal_strlit("content-type");
        }
        let mime = match response.headers.get("content-type") {
            Some(v) => {
                assert(lower_seq("content-type"@) =~= "content-type"@);
                if is_visible_ascii(v.as_str()) {
                    Some(v)
                } else {
                    None
                }
            },
            None => {
                assert(lower_seq("content-type"@) =~= "content-type"@);
                None
            },
        };
        Page {
            task_id,
            url: response.url,
            status: response.status,
            headers: response.headers,
            mime,
            body: PageBody::Text(response.body),
            extract: None,
        }
    }

    /// Attaches an extraction result.
    pub fn with_extract(self, extract: ExtractResult) -> (p: Self)
        ensures
            p.extract == Some(extract),
            p.task_id == self.task_id,
            p.url == self.url,
            p.status == self.status,
            p.headers == self.headers,
            p.mime == self.mime,
            p.body == self.body,
    {
        Page { extract: Some(extract), ..self }
    }

    /// Whether the status is 2xx.
    pub fn is_success(&self) -> (b: bool)
        ensures
            b == is_success_status(self.status),
    {
        200 <= self.status && self.status <= 299
    }
}

/// The extraction result holds the given title, text and links.
pub open spec fn extracted(
    e: Option<ExtractResult>,
    x: (Option<Seq<char>>, Seq<char>, Seq<(Seq<char>, Seq<char>)>),
) -> bool {
    match e {
        Some(e) => crate::url::opt_text(e.title) == x.0 && e.text@ == x.1 && links_view(e.links@)
            == x.2,
        None => false,
    }
}

/// Turns a response into a page.
pub trait Parser {
    /// The page of a task's response.
    fn parse(&self, task: &Task, response: FetchResponse) -> Result<Page, LlphaError>;
}

/// The default parser: a text page, with the HTML extraction when the body is not blank.
#[derive(Clone, Copy, Debug, Default)]
pub struct HtmlParser {
    extractor: HtmlExtractor,
}

impl HtmlParser {
    /// A parser.
    pub fn new() -> (p: Self) {
        HtmlParser { extractor: HtmlExtractor::new() }
    }
}

impl Parser for HtmlParser {
    /// The text page of the response; a body that is not blank is also extracted, and the
    /// extraction's error is returned.
    fn parse(&self, task: &Task, response: FetchResponse) -> (r: Result<Page, LlphaError>)
        ensures
            trim(response.body@).len() == 0 ==> (r matches Ok(p) && p.extract is None
                && p.task_id == task.id && p.url@ == response.url@),
            trim(response.body@).len() > 0 ==> match extract_spec(response.body@) {
                Ok(x) => r matches Ok(p) && p.task_id == task.id && p.url@ == response.url@
                    && extracted(p.extract, x),
                Err(err) => r matches Err(e2) && e2 == err,
            },
            r matches Ok(p) ==> p.status == response.status && p.headers@ == response.headers@
                && (p.body matches PageBody::Text(t) && t@ == response.body@),
    {
        let body = response.body.clone();
        let page = Page::from_response(task.id, response);
        let t = crate::text::trim_str(body.as_str());
        if t.as_str().is_empty() {
            return Ok(page);
        }
        match self.extractor.extract(body.as_str()) {
            Ok(e) => Ok(page.with_extract(e)),
            Err(err) => Err(err),
        }
    }
}

} // verus!
