//! The title, visible text and links of an HTML page.
use vstd::prelude::*;

use crate::analysis::html::{attr_value, elements_view, join_texts, select_in_document, html_select_document, ElementView};
use crate::error::LlphaError;
use crate::text::{collapse_ws, collapse_ws_chars, string_of, trim, trim_str};

verus! {

/// A link of a page.
#[derive(Clone, Debug, PartialEq, Eq)]
pub struct Link {
    pub text: String,
    pub href: String,
}

/// What an HTML page holds: its title, its visible text and its links.
#[derive(Clone, Debug, PartialEq, Eq)]
pub struct ExtractResult {
    pub title: Option<String>,
    pub text: String,
    pub links: Vec<Link>,
}

/// Extracts titles, text and links from HTML.
#[derive(Clone, Copy, Debug, Default)]
pub struct HtmlExtractor;

/// The links of `a[href]` elements: the trimmed `href` when it is not empty, with the
/// element's text, spacing collapsed.
pub open spec fn links_of(es: Seq<ElementView>) -> Seq<(Seq<char>, Seq<char>)>
    decreases es.len(),
{
    if es.len() == 0 {
        Seq::empty()
    } else {
        let prev = links_of(es.drop_last());
        let e = es.last();
        match attr_value(e.0, "href"@) {
            Some(h) => if trim(h).len() > 0 {
                prev.push((collapse_ws(join_texts(e.1, " "@)), trim(h)))
            } else {
                prev
            },
            None => prev,
        }
    }
}

/// The text of the first element, its text nodes joined by spaces and spacing collapsed.
pub open spec fn first_text(es: Seq<ElementView>) -> Option<Seq<char>> {
    if es.len() == 0 {
        None
    } else {
        Some(collapse_ws(join_texts(es[0].1, " "@)))
    }
}

/// The title of a page from its `title` elements: the first one's text, when not empty.
pub open spec fn title_of(ts: Seq<ElementView>) -> Option<Seq<char>> {
    match first_text(ts) {
        Some(t) => if t.len() > 0 {
            Some(t)
        } else {
            None
        },
        None => None,
    }
}

/// The visible text of a page from its `body` elements: the first one's text, or nothing.
pub open spec fn text_of(bs: Seq<ElementView>) -> Seq<char> {
    match first_text(bs) {
        Some(t) => t,
        None => Seq::empty(),
    }
}

/// What [`HtmlExtractor::extract`] finds, or the error when a selector does not parse.
pub open spec fn extract_spec(html: Seq<char>) -> Result<(Option<Seq<char>>, Seq<char>, Seq<(Seq<char>, Seq<char>)>), LlphaError> {
    match (
        html_select_document(html, "title"@),
        html_select_document(html, "body"@),
        html_select_document(html, "a[href]"@),
    ) {
        (Some(ts), Some(bs), Some(ls)) => Ok((title_of(ts), text_of(bs), links_of(ls))),
        _ => Err(LlphaError::InvalidSelector),
    }
}

/// The views of the links.
pub open spec fn links_view(v: Seq<Link>) -> Seq<(Seq<char>, Seq<char>)> {
    v.map_values(|l: Link| (l.text@, l.href@))
}

impl HtmlExtractor {
    /// An extractor.
    pub fn new() -> (e: Self) {
        HtmlExtractor
    }

    /// The page's title (the first `title` element, when its text is not empty), its text
    /// (the first `body` element's) and its links, texts with spacing collapsed.
    pub fn extract(&self, html: &str) -> (r: Result<ExtractResult, LlphaError>)
        ensures
            match extract_spec(html@) {
                Ok(x) => r matches Ok(e) && crate::url::opt_text(e.title) == x.0 && e.text@
                    == x.1 && links_view(e.links@) == x.2,
                Err(err) => r matches Err(e2) && e2 == err,
            },
    {
        let title = match self.extract_title(html) {
            Ok(t) => t,
            Err(e) => return Err(e),
        };
        let text = match self.extract_text(html) {
            Ok(t) => t,
            Err(e) => return Err(e),
        };
        let links = match self.extract_links(html) {
            Ok(l) => l,
            Err(e) => return Err(e),
        };
        Ok(ExtractResult { title, text, links })
    }

    /// The text of the first `title` element, spacing collapsed, when it is not empty.
    fn extract_title(&self, html: &str) -> (r: Result<Option<String>, LlphaError>)
        ensures
            match html_select_document(html@, "title"@) {
                Some(ts) => r matches Ok(t) && crate::url::opt_text(t) == title_of(ts),
                None => r == Err::<Option<String>, LlphaError>(LlphaError::InvalidSelector),
            },
    {
        let titles = match select_in_document(html, "title") {
            Some(v) => v,
            None => return Err(LlphaError::InvalidSelector),
        };
        if titles.len() > 0 {
            assert(elements_view(titles@)[0] == titles@[0]@);
            let t = collapse_ws_chars(&titles[0].joined_text(" "));
            if t.len() > 0 {
                Ok(Some(string_of(&t)))
            } else {
                Ok(None)
            }
        } else {
            Ok(None)
        }
    }

    /// The text of the first `body` element, spacing collapsed, or nothing.
    fn extract_text(&self, html: &str) -> (r: Result<String, LlphaError>)
        ensures
            match html_select_document(html@, "body"@) {
                Some(bs) => r matches Ok(t) && t@ == text_of(bs),
                None => r == Err::<String, LlphaError>(LlphaError::InvalidSelector),
            },
    {
        let bodies = match select_in_document(html, "body") {
            Some(v) => v,
            None => return Err(LlphaError::InvalidSelector),
        };
        if bodies.len() > 0 {
            assert(elements_view(bodies@)[0] == bodies@[0]@);
            Ok(string_of(&collapse_ws_chars(&bodies[0].joined_text(" "))))
        } else {
            Ok(String::new())
        }
    }

    /// The links of the `a[href]` elements whose trimmed `href` is not empty, in page order.
    fn extract_links(&self, html: &str) -> (r: Result<Vec<Link>, LlphaError>)
        ensures
            match html_select_document(html@, "a[href]"@) {
                Some(ls) => r matches Ok(v) && links_view(v@) == links_of(ls),
                None => r == Err::<Vec<Link>, LlphaError>(LlphaError::InvalidSelector),
            },
    {
        let anchors = match select_in_document(html, "a[href]") {
            Some(v) => v,
            None => return Err(LlphaError::InvalidSelector),
        };
        let ghost lv = elements_view(anchors@);
        let mut links: Vec<Link> = Vec::new();
        let mut i: usize = 0;
        while i < anchors.len()
            invariant
                i <= anchors@.len(),
                lv == elements_view(anchors@),
                links_view(links@) == links_of(lv.take(i as int)),
            decreases anchors@.len() - i,
        {
            let e = &anchors[i];
            assert(lv.take(i + 1).drop_last() =~= lv.take(i as int));
            assert(lv.take(i + 1).last() == e@);
            match e.attr("href") {
                Some(h) => {
                    let th = trim_str(h.as_str());
                    if !th.as_str().is_empty() {
                        let t = string_of(&collapse_ws_chars(&e.joined_text(" ")));
                        let ghost before = links_view(links@);
                        links.push(Link { text: t, href: th });
                        assert(links_view(links@) =~= before.push((t@, th@)));
                    }
                },
                None => {},
            }
            i = i + 1;
        }
        assert(lv.take(i as int) =~= lv);
        Ok(links)
    }
}

} // verus!
