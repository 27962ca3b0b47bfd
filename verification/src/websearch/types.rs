//! Search results, responses and availability reports.
use vstd::prelude::*;

use crate::text::{decimal, push_decimal, push_str, string_of};

verus! {

/// The search engines that the library knows.
#[derive(Clone, Copy, Debug, PartialEq, Eq, Structural)]
pub enum SearchEngineKind {
    Aggregate,
    Bing,
    DuckDuckGo,
    SearxNg,
}

/// One search hit.
#[derive(Clone, Debug, PartialEq, Eq)]
pub struct SearchResult {
    pub title: String,
    pub url: String,
    pub snippet: String,
}

impl View for SearchResult {
    type V = (Seq<char>, Seq<char>, Seq<char>);

    open spec fn view(&self) -> (Seq<char>, Seq<char>, Seq<char>) {
        (self.title@, self.url@, self.snippet@)
    }
}

impl SearchResult {
    /// A copy with the same texts.
    pub fn copy(&self) -> (r: SearchResult)
        ensures
            r@ == self@,
    {
        SearchResult {
            title: self.title.clone(),
            url: self.url.clone(),
            snippet: self.snippet.clone(),
        }
    }
}

/// The views of a list of results.
pub open spec fn results_view(rs: Seq<SearchResult>) -> Seq<(Seq<char>, Seq<char>, Seq<char>)> {
    rs.map_values(|r: SearchResult| r@)
}

/// The answer to one query.
#[derive(Clone, Debug, PartialEq, Eq)]
pub struct SearchResponse {
    pub engine: SearchEngineKind,
    pub query: String,
    pub results: Vec<SearchResult>,
    pub pages_fetched: usize,
}

/// The text block of the result at position `i`: its number, title, URL and snippet on
/// separate lines.
pub open spec fn result_block(i: nat, r: (Seq<char>, Seq<char>, Seq<char>)) -> Seq<char> {
    decimal(i + 1) + ". "@ + r.0 + "\n"@ + r.1 + "\n"@ + r.2
}

/// The blocks of the first `k` results, separated by blank lines.
pub open spec fn results_text(rs: Seq<(Seq<char>, Seq<char>, Seq<char>)>, k: nat) -> Seq<char>
    decreases k,
{
    if k == 0 {
        Seq::empty()
    } else if k == 1 {
        result_block(0, rs[0])
    } else {
        results_text(rs, (k - 1) as nat) + "\n\n"@ + result_block((k - 1) as nat, rs[k - 1])
    }
}

/// `b` stands somewhere in `t`.
pub open spec fn appears_in(b: Seq<char>, t: Seq<char>) -> bool {
    exists|off: int| 0 <= off && off + b.len() <= t.len() && #[trigger] t.subrange(off, off + b.len()) == b
}

/// How a result is shown: `<number>. <title>`, then its URL, then its snippet, one per line.
pub open spec fn shown_result(i: int, r: (Seq<char>, Seq<char>, Seq<char>)) -> Seq<char> {
    decimal((i + 1) as nat) + ". "@ + r.0 + "\n"@ + r.1 + "\n"@ + r.2
}

/// The text of the first `k` results starts with the first shown result and ends with the
/// last one.
proof fn lemma_text_ends(rs: Seq<(Seq<char>, Seq<char>, Seq<char>)>, k: nat)
    requires
        1 <= k <= rs.len(),
    ensures
        results_text(rs, k).len() >= shown_result(k - 1, rs[k - 1]).len(),
        results_text(rs, k).subrange(
            results_text(rs, k).len() - shown_result(k - 1, rs[k - 1]).len(),
            results_text(rs, k).len() as int,
        ) == shown_result(k - 1, rs[k - 1]),
        results_text(rs, k).len() >= shown_result(0, rs[0]).len(),
        results_text(rs, k).subrange(0, shown_result(0, rs[0]).len() as int) == shown_result(0, rs[0]),
    decreases k,
{
    reveal_strlit("\n\n");
    let t = results_text(rs, k);
    let b = shown_result(k - 1, rs[k - 1]);
    assert(b == result_block((k - 1) as nat, rs[k - 1]));
    if k == 1 {
        assert(t == b);
        assert(t.subrange(0, b.len() as int) =~= b);
        assert(t.subrange(t.len() - b.len(), t.len() as int) =~= b);
    } else {
        lemma_text_ends(rs, (k - 1) as nat);
        let prev = results_text(rs, (k - 1) as nat);
        assert(t == prev + "\n\n"@ + b);
        assert(t.subrange(t.len() - b.len(), t.len() as int) =~= b);
        let b0 = shown_result(0, rs[0]);
        assert(t.subrange(0, b0.len() as int) =~= prev.subrange(0, b0.len() as int));
    }
}

/// The text of a search shows every result, in order, separated by blank lines: each as its
/// number, a dot and a space, and its title, then its URL on the next line and its snippet on
/// the line after. It starts with the first result, ends with the last, and is empty without
/// results.
pub proof fn law_text_shows_every_result(rs: Seq<(Seq<char>, Seq<char>, Seq<char>)>, k: nat)
    requires
        k <= rs.len(),
    ensures
        k == 0 ==> results_text(rs, k).len() == 0,
        forall|i: int| 0 <= i < k ==> appears_in(shown_result(i, #[trigger] rs[i]), results_text(rs, k)),
        forall|i: int|
            0 <= i && i + 1 < k ==> appears_in(
                shown_result(i, #[trigger] rs[i]) + "\n\n"@ + shown_result(i + 1, rs[i + 1]),
                results_text(rs, k),
            ),
        k >= 1 ==> results_text(rs, k).subrange(0, shown_result(0, rs[0]).len() as int) == shown_result(0, rs[0]),
    decreases k,
{
    reveal_strlit("\n\n");
    if k > 0 {
        lemma_text_ends(rs, k);
        law_text_shows_every_result(rs, (k - 1) as nat);
        let t = results_text(rs, k);
        let prev = results_text(rs, (k - 1) as nat);
        let last = shown_result(k - 1, rs[k - 1]);
        assert(last == result_block((k - 1) as nat, rs[k - 1]));
        if k == 1 {
            assert(t == last);
        } else {
            assert(t == prev + "\n\n"@ + last);
        }
        assert forall|i: int| 0 <= i < k implies appears_in(shown_result(i, #[trigger] rs[i]), t) by {
            let b = shown_result(i, rs[i]);
            if i == k - 1 {
                let off: int = t.len() - b.len();
                assert(t.subrange(off, off + b.len()) =~= b);
            } else {
                assert(appears_in(b, prev));
                let off = choose|off: int| 0 <= off && off + b.len() <= prev.len() && #[trigger] prev.subrange(
                    off,
                    off + b.len(),
                ) == b;
                assert(t.subrange(off, off + b.len()) =~= prev.subrange(off, off + b.len()));
            }
        }
        assert forall|i: int|
            0 <= i && i + 1 < k implies appears_in(
            shown_result(i, #[trigger] rs[i]) + "\n\n"@ + shown_result(i + 1, rs[i + 1]),
            t,
        ) by {
            let b = shown_result(i, rs[i]) + "\n\n"@ + shown_result(i + 1, rs[i + 1]);
            if i + 1 == k - 1 {
                lemma_text_ends(rs, (k - 1) as nat);
                let bi = shown_result(i, rs[i]);
                let off: int = prev.len() - bi.len();
                assert(prev.subrange(off, prev.len() as int) == bi);
                assert(t.subrange(off, off + b.len()) =~= b);
            } else {
                assert(appears_in(b, prev));
                let off = choose|off: int| 0 <= off && off + b.len() <= prev.len() && #[trigger] prev.subrange(
                    off,
                    off + b.len(),
                ) == b;
                assert(t.subrange(off, off + b.len()) =~= prev.subrange(off, off + b.len()));
            }
        }
    }
}

impl SearchResponse {
    /// The results as numbered text blocks separated by blank lines.
    pub fn to_text(&self) -> (s: String)
        ensures
            s@ == results_text(results_view(self.results@), self.results@.len()),
    {
        let ghost rs = results_view(self.results@);
        let mut out: Vec<char> = Vec::new();
        let mut i: usize = 0;
        while i < self.results.len()
            invariant
                i <= self.results@.len(),
                rs == results_view(self.results@),
                out@ == results_text(rs, i as nat),
            decreases self.results@.len() - i,
        {
            let r = &self.results[i];
            if i > 0 {
                push_str(&mut out, "\n\n");
            }
            push_decimal(&mut out, i + 1);
            push_str(&mut out, ". ");
            push_str(&mut out, r.title.as_str());
            push_str(&mut out, "\n");
            push_str(&mut out, r.url.as_str());
            push_str(&mut out, "\n");
            push_str(&mut out, r.snippet.as_str());
            assert(rs[i as int] == r@);
            i = i + 1;
            assert(out@ =~= results_text(rs, i as nat));
        }
        string_of(&out)
    }
}

/// Whether an engine answered, and how fast; an aggregate report holds one per engine.
#[derive(Debug, PartialEq, Eq)]
pub struct SearchPing {
    pub engine: SearchEngineKind,
    pub available: bool,
    pub base_url: String,
    pub status: Option<u16>,
    pub latency_ms: u128,
    pub error: Option<String>,
    pub children: Vec<SearchPing>,
}

/// Some child is available.
pub open spec fn any_available(cs: Seq<SearchPing>) -> bool {
    exists|i: int| 0 <= i < cs.len() && cs[i].available
}

/// The largest latency of the first `k` children (zero for none).
pub open spec fn max_latency(cs: Seq<SearchPing>, k: nat) -> u128
    decreases k,
{
    if k == 0 {
        0
    } else {
        let m = max_latency(cs, (k - 1) as nat);
        if cs[k - 1].latency_ms > m {
            cs[k - 1].latency_ms
        } else {
            m
        }
    }
}

/// The errors of the first `k` children, joined by `"; "`.
pub open spec fn joined_errors(cs: Seq<SearchPing>, k: nat) -> Seq<char>
    decreases k,
{
    if k == 0 {
        Seq::empty()
    } else {
        let prev = joined_errors(cs, (k - 1) as nat);
        match cs[k - 1].error {
            None => prev,
            Some(e) => if has_error(cs, (k - 1) as nat) {
                prev + "; "@ + e@
            } else {
                e@
            },
        }
    }
}

/// Some of the first `k` children has an error.
pub open spec fn has_error(cs: Seq<SearchPing>, k: nat) -> bool {
    exists|i: int| 0 <= i < k && cs[i].error is Some
}

/// The base URL of the first available child, else of the first child, else empty.
pub open spec fn aggregate_base_url(cs: Seq<SearchPing>) -> Seq<char> {
    if any_available(cs) {
        cs[first_available(cs, 0)].base_url@
    } else if cs.len() > 0 {
        cs[0].base_url@
    } else {
        Seq::empty()
    }
}

/// The position of the first available child at or after `i`.
pub open spec fn first_available(cs: Seq<SearchPing>, i: int) -> int
    decreases cs.len() - i,
{
    if i < 0 || i >= cs.len() {
        cs.len() as int
    } else if cs[i].available {
        i
    } else {
        first_available(cs, i + 1)
    }
}

proof fn lemma_first_available(cs: Seq<SearchPing>, i: int)
    requires
        0 <= i <= cs.len(),
    ensures
        i <= first_available(cs, i) <= cs.len(),
        first_available(cs, i) < cs.len() ==> cs[first_available(cs, i)].available,
        forall|j: int| i <= j < first_available(cs, i) ==> !cs[j].available,
    decreases cs.len() - i,
{
    if i < cs.len() {
        lemma_first_available(cs, i + 1);
    }
}

impl SearchPing {
    /// The report of a single engine.
    pub fn single(
        engine: SearchEngineKind,
        available: bool,
        base_url: String,
        status: Option<u16>,
        latency_ms: u128,
        error: Option<String>,
    ) -> (p: Self)
        ensures
            p == (SearchPing {
                engine,
                available,
                base_url,
                status,
                latency_ms,
                error,
                children: p.children,
            }),
            p.children@.len() == 0,
    {
        SearchPing { engine, available, base_url, status, latency_ms, error, children: Vec::new() }
    }

    /// The report of an aggregate: available when some child is, the largest child latency,
    /// the first available child's base URL (else the first child's), and, when none is
    /// available, the children's errors joined by `"; "` (none if that is empty).
    pub fn aggregate(children: Vec<SearchPing>) -> (p: Self)
        ensures
            p.engine == SearchEngineKind::Aggregate,
            p.available == any_available(children@),
            p.latency_ms == max_latency(children@, children@.len()),
            p.base_url@ == aggregate_base_url(children@),
            p.status is None,
            p.available ==> p.error is None,
            !p.available ==> (match p.error {
                None => joined_errors(children@, children@.len()).len() == 0,
                Some(e) => e@ == joined_errors(children@, children@.len()) && e@.len() > 0,
            }),
            p.children@ == children@,
    {
        let ghost cs = children@;
        let mut available = false;
        let mut latency: u128 = 0;
        let mut errors: Vec<char> = Vec::new();
        let mut any_error = false;
        let mut first: Option<usize> = None;
        let mut i: usize = 0;
        while i < children.len()
            invariant
                i <= cs.len(),
                cs == children@,
                latency == max_latency(cs, i as nat),
                errors@ == joined_errors(cs, i as nat),
                any_error == has_error(cs, i as nat),
                !any_error ==> errors@.len() == 0,
                available == (exists|j: int| 0 <= j < i && cs[j].available),
                first matches Some(f) ==> f < i && cs[f as int].available && forall|j: int|
                    0 <= j < f ==> !cs[j].available,
                first is None ==> forall|j: int| 0 <= j < i ==> !cs[j].available,
            decreases cs.len() - i,
        {
            let c = &children[i];
            if c.available {
                available = true;
                if first.is_none() {
                    first = Some(i);
                }
            }
            if c.latency_ms > latency {
                latency = c.latency_ms;
            }
            match &c.error {
                Some(e) => {
                    if any_error {
                        push_str(&mut errors, "; ");
                    }
                    push_str(&mut errors, e.as_str());
                    any_error = true;
                },
                None => {},
            }
            i = i + 1;
            assert(has_error(cs, i as nat) == (has_error(cs, (i - 1) as nat) || cs[i - 1].error
                is Some));
            assert(errors@ =~= joined_errors(cs, i as nat));
        }
        proof {
            lemma_first_available(cs, 0);
        }
        let base_url = match first {
            Some(f) => {
                assert(f == first_available(cs, 0));
                children[f].base_url.clone()
            },
            None => {
                if children.len() > 0 {
                    children[0].base_url.clone()
                } else {
                    String::new()
                }
            },
        };
        let error = if available || errors.len() == 0 {
            None
        } else {
            Some(string_of(&errors))
        };
        SearchPing {
            engine: SearchEngineKind::Aggregate,
            available,
            base_url,
            status: None,
            latency_ms: latency,
            error,
            children,
        }
    }
}

/// The results of one search page and the link to the next, if the page gave one.
#[derive(Clone, Debug, PartialEq, Eq)]
pub struct SearchPage {
    pub results: Vec<SearchResult>,
    pub next_url: Option<String>,
}

impl SearchPage {
    /// A page.
    pub fn new(results: Vec<SearchResult>, next_url: Option<String>) -> (p: Self)
        ensures
            p == (SearchPage { results, next_url }),
    {
        SearchPage { results, next_url }
    }
}

} // verus!
