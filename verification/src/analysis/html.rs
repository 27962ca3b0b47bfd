//! HTML documents queried with CSS selectors through `scraper`.
use vstd::prelude::*;

verus! {

/// An element found by a selector: its attributes, its text nodes in order, and its HTML.
#[derive(Clone, Debug)]
pub struct HtmlElement {
    pub attrs: Vec<(String, String)>,
    pub texts: Vec<String>,
    pub outer_html: String,
}

/// An element as texts: (attributes, text nodes, HTML).
pub type ElementView = (Seq<(Seq<char>, Seq<char>)>, Seq<Seq<char>>, Seq<char>);

impl View for HtmlElement {
    type V = ElementView;

    open spec fn view(&self) -> ElementView {
        (
            self.attrs@.map_values(|e: (String, String)| (e.0@, e.1@)),
            self.texts@.map_values(|t: String| t@),
            self.outer_html@,
        )
    }
}

/// The views of a list of elements.
pub open spec fn elements_view(v: Seq<HtmlElement>) -> Seq<ElementView> {
    v.map_values(|e: HtmlElement| e@)
}

/// The elements of a whole document that match a selector, in document order, as
/// `scraper` finds them; `None` when the selector does not parse.
pub uninterp spec fn html_select_document(html: Seq<char>, selector: Seq<char>) -> Option<Seq<ElementView>>;

/// The same for an HTML fragment.
pub uninterp spec fn html_select_fragment(html: Seq<char>, selector: Seq<char>) -> Option<Seq<ElementView>>;

/// `scraper`'s reference to an element of a parsed document, carried as it is.
#[verifier::external_type_specification]
#[verifier::external_body]
pub struct ExElementRef<'a>(scraper::ElementRef<'a>);

/// One matched element read into plain values (`attrs`, `text`, `html`).
#[verifier::external_body]
fn element_of(e: scraper::ElementRef<'_>) -> HtmlElement {
    HtmlElement {
        attrs: e.value().attrs().map(|(k, v)| (k.to_string(), v.to_string())).collect(),
        texts: e.text().map(|t| t.to_string()).collect(),
        outer_html: e.html(),
    }
}

/// Parses a document with `scraper::Html::parse_document` and returns the elements that
/// `Selector::parse(selector)` matches. The result is only named.
#[verifier::external_body]
pub(crate) fn select_in_document(html: &str, selector: &str) -> (r: Option<Vec<HtmlElement>>)
    ensures
        match html_select_document(html@, selector@) {
            Some(es) => r matches Some(v) && elements_view(v@) == es,
            None => r is None,
        },
{
    let sel = match scraper::Selector::parse(selector) {
        Ok(s) => s,
        Err(_) => return None,
    };
    Some(scraper::Html::parse_document(html).select(&sel).map(element_of).collect())
}

/// Parses a fragment with `scraper::Html::parse_fragment` and returns the elements that
/// `Selector::parse(selector)` matches. The result is only named.
#[verifier::external_body]
pub(crate) fn select_in_fragment(html: &str, selector: &str) -> (r: Option<Vec<HtmlElement>>)
    ensures
        match html_select_fragment(html@, selector@) {
            Some(es) => r matches Some(v) && elements_view(v@) == es,
            None => r is None,
        },
{
    let sel = match scraper::Selector::parse(selector) {
        Ok(s) => s,
        Err(_) => return None,
    };
    Some(scraper::Html::parse_fragment(html).select(&sel).map(element_of).collect())
}

/// The elements of a whole document that match `outer`, each with the elements below it that
/// match `inner` (`ElementRef::select`), all in document order, as `scraper` finds them;
/// `None` when a selector does not parse.
pub uninterp spec fn html_select_nested(html: Seq<char>, outer: Seq<char>, inner: Seq<char>) -> Option<Seq<(ElementView, Seq<ElementView>)>>;

/// The views of a list of elements, each with its inner matches.
pub open spec fn nested_view(v: Seq<(HtmlElement, Vec<HtmlElement>)>) -> Seq<(ElementView, Seq<ElementView>)> {
    v.map_values(|e: (HtmlElement, Vec<HtmlElement>)| (e.0@, elements_view(e.1@)))
}

/// Parses a document with `scraper::Html::parse_document`, selects the elements matching
/// `outer`, and for each of them the elements below it matching `inner` with
/// `ElementRef::select`. The result is only named.
#[verifier::external_body]
pub(crate) fn select_nested_in_document(html: &str, outer: &str, inner: &str) -> (r: Option<Vec<(HtmlElement, Vec<HtmlElement>)>>)
    ensures
        match html_select_nested(html@, outer@, inner@) {
            Some(es) => r matches Some(v) && nested_view(v@) == es,
            None => r is None,
        },
{
    let (o, i) = match (scraper::Selector::parse(outer), scraper::Selector::parse(inner)) {
        (Ok(o), Ok(i)) => (o, i),
        _ => return None,
    };
    let doc = scraper::Html::parse_document(html);
    Some(doc.select(&o).map(|e| (element_of(e), e.select(&i).map(element_of).collect())).collect())
}

/// The value of the first attribute with this name.
pub open spec fn attr_value(attrs: Seq<(Seq<char>, Seq<char>)>, name: Seq<char>) -> Option<Seq<char>>
    decreases attrs.len(),
{
    if attrs.len() == 0 {
        None
    } else if attrs[0].0 == name {
        Some(attrs[0].1)
    } else {
        attr_value(attrs.drop_first(), name)
    }
}

/// The text nodes joined with a separator.
pub open spec fn join_texts(ts: Seq<Seq<char>>, sep: Seq<char>) -> Seq<char>
    decreases ts.len(),
{
    if ts.len() == 0 {
        Seq::empty()
    } else if ts.len() == 1 {
        ts[0]
    } else {
        join_texts(ts.drop_last(), sep) + sep + ts.last()
    }
}

impl HtmlElement {
    /// The value of the first attribute with this name.
    pub fn attr(&self, name: &str) -> (r: Option<String>)
        ensures
            crate::url::opt_text(r) == attr_value(self@.0, name@),
    {
        let ghost av = self@.0;
        let mut i: usize = 0;
        assert(av.skip(0) =~= av);
        while i < self.attrs.len()
            invariant
                i <= self.attrs@.len(),
                av == self@.0,
                av.len() == self.attrs@.len(),
                attr_value(av, name@) == attr_value(av.skip(i as int), name@),
            decreases self.attrs@.len() - i,
        {
            assert(av.skip(i as int).drop_first() =~= av.skip(i + 1));
            assert(av.skip(i as int)[0] == av[i as int]);
            assert(av[i as int] == (self.attrs@[i as int].0@, self.attrs@[i as int].1@));
            if crate::text::str_eq(self.attrs[i].0.as_str(), name) {
                return Some(self.attrs[i].1.clone());
            }
            i = i + 1;
        }
        assert(av.skip(i as int).len() == 0);
        None
    }

    /// The text nodes joined with a separator.
    pub fn joined_text(&self, sep: &str) -> (r: Vec<char>)
        ensures
            r@ == join_texts(self@.1, sep@),
    {
        let ghost tv = self@.1;
        let mut out: Vec<char> = Vec::new();
        let mut i: usize = 0;
        while i < self.texts.len()
            invariant
                i <= self.texts@.len(),
                tv == self@.1,
                tv.len() == self.texts@.len(),
                out@ == join_texts(tv.take(i as int), sep@),
            decreases self.texts@.len() - i,
        {
            let ghost before = tv.take(i as int);
            assert(tv.take(i + 1).drop_last() =~= before);
            assert(tv.take(i + 1).last() == self.texts@[i as int]@);
            if i > 0 {
                crate::text::push_str(&mut out, sep);
            }
            crate::text::push_str(&mut out, self.texts[i].as_str());
            i = i + 1;
            assert(i == 1 ==> tv.take(i as int) =~= seq![tv[0]]);
        }
        assert(tv.take(i as int) =~= tv);
        out
    }
}

} // verus!
