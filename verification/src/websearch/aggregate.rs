//! Aggregate search: several engines queried in turn, their results merged round-robin.
use vstd::prelude::*;

use crate::text::{owned, push_str, string_of};
use crate::websearch::config::DEFAULT_SEARCH_LIMIT;
use crate::websearch::types::{results_view, SearchEngineKind, SearchResponse, SearchResult};

verus! {

/// A result as (title, URL, snippet).
pub type ResultView = (Seq<char>, Seq<char>, Seq<char>);

/// The length of the longest group.
pub open spec fn max_group_len(groups: Seq<Seq<ResultView>>, k: nat) -> nat
    decreases k,
{
    if k == 0 {
        0
    } else {
        let m = max_group_len(groups, (k - 1) as nat);
        if groups[k - 1].len() > m {
            groups[k - 1].len()
        } else {
            m
        }
    }
}

/// Row `idx` of the groups, first `k` groups: the `idx`-th result of each group that has one.
pub open spec fn row(groups: Seq<Seq<ResultView>>, idx: nat, k: nat) -> Seq<ResultView>
    decreases k,
{
    if k == 0 {
        Seq::empty()
    } else {
        let g = groups[k - 1];
        if idx < g.len() {
            row(groups, idx, (k - 1) as nat).push(g[idx as int])
        } else {
            row(groups, idx, (k - 1) as nat)
        }
    }
}

/// The first `n` rows, one after the other: the round-robin order of the results.
pub open spec fn round_robin(groups: Seq<Seq<ResultView>>, n: nat) -> Seq<ResultView>
    decreases n,
{
    if n == 0 {
        Seq::empty()
    } else {
        round_robin(groups, (n - 1) as nat) + row(groups, (n - 1) as nat, groups.len())
    }
}

/// Some result of `s` has this URL.
pub open spec fn has_url(s: Seq<ResultView>, url: Seq<char>) -> bool {
    exists|i: int| 0 <= i < s.len() && s[i].1 == url
}

/// The results of `s` in order, each URL kept at its first occurrence, until `limit` are kept.
pub open spec fn take_distinct(s: Seq<ResultView>, limit: nat) -> Seq<ResultView>
    decreases s.len(),
{
    if s.len() == 0 {
        Seq::empty()
    } else {
        let d = take_distinct(s.drop_last(), limit);
        if d.len() >= limit || has_url(d, s.last().1) {
            d
        } else {
            d.push(s.last())
        }
    }
}

/// The merge of result groups: round-robin order, duplicate URLs dropped, at most `limit`
/// results (at least one is kept when there is one).
pub open spec fn merged(groups: Seq<Seq<ResultView>>, limit: nat) -> Seq<ResultView> {
    take_distinct(
        round_robin(groups, max_group_len(groups, groups.len())),
        if limit == 0 {
            1
        } else {
            limit
        },
    )
}

/// The views of the groups.
pub open spec fn groups_view(gs: Seq<Vec<SearchResult>>) -> Seq<Seq<ResultView>> {
    gs.map_values(|g: Vec<SearchResult>| results_view(g@))
}

proof fn lemma_max_group_len(groups: Seq<Seq<ResultView>>, k: nat)
    requires
        k <= groups.len(),
    ensures
        forall|j: int| 0 <= j < k ==> groups[j].len() <= max_group_len(groups, k),
    decreases k,
{
    if k > 0 {
        lemma_max_group_len(groups, (k - 1) as nat);
    }
}

fn url_taken(rs: &Vec<SearchResult>, url: &str) -> (b: bool)
    ensures
        b == has_url(results_view(rs@), url@),
{
    let ghost v = results_view(rs@);
    let mut i: usize = 0;
    while i < rs.len()
        invariant
            i <= rs@.len(),
            v == results_view(rs@),
            forall|j: int| 0 <= j < i ==> v[j].1 != url@,
        decreases rs@.len() - i,
    {
        if crate::text::str_eq(rs[i].url.as_str(), url) {
            assert(v[i as int].1 == url@);
            return true;
        }
        i = i + 1;
    }
    false
}

/// Merges the groups round-robin: the first result of each group, then the second of each,
/// and so on; a URL already taken is skipped, and merging stops at `limit` results.
pub fn merge_result_groups(result_groups: Vec<Vec<SearchResult>>, limit: usize) -> (r: Vec<
    SearchResult,
>)
    ensures
        results_view(r@) == merged(groups_view(result_groups@), limit as nat),
{
    let ghost gv = groups_view(result_groups@);
    let cap: usize = if limit == 0 {
        1
    } else {
        limit
    };
    let n = result_groups.len();
    let mut max_len: usize = 0;
    let mut k: usize = 0;
    while k < n
        invariant
            k <= n,
            n == result_groups@.len(),
            gv == groups_view(result_groups@),
            max_len == max_group_len(gv, k as nat),
        decreases n - k,
    {
        assert(gv[k as int].len() == result_groups@[k as int]@.len());
        if result_groups[k].len() > max_len {
            max_len = result_groups[k].len();
        }
        k = k + 1;
    }
    let mut results: Vec<SearchResult> = Vec::new();
    let mut index: usize = 0;
    while index < max_len
        invariant
            index <= max_len,
            max_len == max_group_len(gv, gv.len()),
            n == result_groups@.len(),
            gv == groups_view(result_groups@),
            gv.len() == n,
            cap == (if limit == 0 {
                1
            } else {
                limit
            }),
            results_view(results@) == take_distinct(round_robin(gv, index as nat), cap as nat),
        decreases max_len - index,
    {
        let mut g: usize = 0;
        let ghost before = round_robin(gv, index as nat);
        while g < n
            invariant
                g <= n,
                index < max_len,
                n == result_groups@.len(),
                gv == groups_view(result_groups@),
                gv.len() == n,
                before == round_robin(gv, index as nat),
                results_view(results@) == take_distinct(
                    before + row(gv, index as nat, g as nat),
                    cap as nat,
                ),
            decreases n - g,
        {
            let group = &result_groups[g];
            assert(gv[g as int] == results_view(group@));
            let ghost prefix = before + row(gv, index as nat, g as nat);
            if index < group.len() {
                let item = &group[index];
                let ghost next = prefix.push(item@);
                assert(before + row(gv, index as nat, (g + 1) as nat) =~= next);
                assert(next.drop_last() =~= prefix);
                if results.len() < cap && !url_taken(&results, item.url.as_str()) {
                    let ghost rv = results_view(results@);
                    results.push(item.copy());
                    assert(results_view(results@) =~= rv.push(item@));
                }
            } else {
                assert(before + row(gv, index as nat, (g + 1) as nat) =~= prefix);
            }
            g = g + 1;
        }
        assert(round_robin(gv, (index + 1) as nat) =~= before + row(gv, index as nat, n as nat));
        index = index + 1;
    }
    results
}

/// Builds an [`AggregateSearch`] from the kinds of its engines.
#[derive(Clone, Debug)]
pub struct AggregateSearchBuilder {
    engines: Vec<SearchEngineKind>,
    limit: Option<usize>,
}

/// Several engines searched in turn, their results merged.
#[derive(Clone, Debug)]
pub struct AggregateSearch {
    engines: Vec<SearchEngineKind>,
    limit: usize,
}

/// The engines used when none was added: SearXNG, DuckDuckGo, then Bing.
pub open spec fn default_engine_kinds() -> Seq<SearchEngineKind> {
    seq![SearchEngineKind::SearxNg, SearchEngineKind::DuckDuckGo, SearchEngineKind::Bing]
}

impl AggregateSearchBuilder {
    /// The engines added so far.
    pub closed spec fn engines_view(&self) -> Seq<SearchEngineKind> {
        self.engines@
    }

    /// The result limit set so far.
    pub closed spec fn limit_view(&self) -> Option<usize> {
        self.limit
    }

    /// No engine and no limit yet.
    pub fn new() -> (b: Self)
        ensures
            b.engines_view().len() == 0,
            b.limit_view() is None,
    {
        AggregateSearchBuilder { engines: Vec::new(), limit: None }
    }

    /// Sets how many merged results to return (at least one).
    pub fn limit(self, limit: usize) -> (b: Self)
        ensures
            b.limit_view() == Some(if limit == 0 {
                1usize
            } else {
                limit
            }),
            b.engines_view() == self.engines_view(),
    {
        let l = if limit == 0 {
            1
        } else {
            limit
        };
        AggregateSearchBuilder { limit: Some(l), ..self }
    }

    /// Adds an engine.
    pub fn engine(self, engine: SearchEngineKind) -> (b: Self)
        ensures
            b.engines_view() == self.engines_view().push(engine),
            b.limit_view() == self.limit_view(),
    {
        let mut engines = self.engines;
        engines.push(engine);
        AggregateSearchBuilder { engines, limit: self.limit }
    }

    /// Adds an engine shared with other users.
    pub fn shared_engine(self, engine: SearchEngineKind) -> (b: Self)
        ensures
            b.engines_view() == self.engines_view().push(engine),
            b.limit_view() == self.limit_view(),
    {
        self.engine(engine)
    }

    /// The aggregate: the added engines, or the three default ones when none was added, and
    /// the limit, ten when none was set.
    pub fn build(self) -> (r: Result<AggregateSearch, crate::error::LlphaError>)
        ensures
            r matches Ok(a) && a.engines_view() == (if self.engines_view().len() == 0 {
                default_engine_kinds()
            } else {
                self.engines_view()
            }) && a.limit_view() == (match self.limit_view() {
                Some(l) => l,
                None => DEFAULT_SEARCH_LIMIT,
            }),
    {
        let limit = match self.limit {
            Some(l) => l,
            None => DEFAULT_SEARCH_LIMIT,
        };
        let engines = if self.engines.len() == 0 {
            let mut v: Vec<SearchEngineKind> = Vec::new();
            v.push(SearchEngineKind::SearxNg);
            v.push(SearchEngineKind::DuckDuckGo);
            v.push(SearchEngineKind::Bing);
            assert(v@ =~= default_engine_kinds());
            v
        } else {
            self.engines
        };
        Ok(AggregateSearch { engines, limit })
    }
}

impl Default for AggregateSearchBuilder {
    /// No engine and no limit yet.
    fn default() -> (b: Self)
        ensures
            b.engines_view().len() == 0,
            b.limit_view() is None,
    {
        AggregateSearchBuilder::new()
    }
}

/// The Debug name of an engine kind.
pub open spec fn kind_name(k: SearchEngineKind) -> Seq<char> {
    match k {
        SearchEngineKind::Aggregate => "Aggregate"@,
        SearchEngineKind::Bing => "Bing"@,
        SearchEngineKind::DuckDuckGo => "DuckDuckGo"@,
        SearchEngineKind::SearxNg => "SearxNg"@,
    }
}

/// The error lines of the failed engines, `"<kind>: <error>"`, joined by `"; "`.
pub open spec fn failure_text(fs: Seq<(SearchEngineKind, Seq<char>)>) -> Seq<char>
    decreases fs.len(),
{
    if fs.len() == 0 {
        Seq::empty()
    } else if fs.len() == 1 {
        kind_name(fs[0].0) + ": "@ + fs[0].1
    } else {
        failure_text(fs.drop_last()) + "; "@ + kind_name(fs.last().0) + ": "@ + fs.last().1
    }
}

/// The outcomes of the engines: a response, or an error message.
pub open spec fn outcome_groups(
    os: Seq<(SearchEngineKind, Result<SearchResponse, String>)>,
) -> Seq<Seq<ResultView>>
    decreases os.len(),
{
    if os.len() == 0 {
        Seq::empty()
    } else {
        let prev = outcome_groups(os.drop_last());
        match os.last().1 {
            Ok(resp) => prev.push(results_view(resp.results@)),
            Err(_) => prev,
        }
    }
}

/// The failures among the outcomes.
pub open spec fn outcome_failures(
    os: Seq<(SearchEngineKind, Result<SearchResponse, String>)>,
) -> Seq<(SearchEngineKind, Seq<char>)>
    decreases os.len(),
{
    if os.len() == 0 {
        Seq::empty()
    } else {
        let prev = outcome_failures(os.drop_last());
        match os.last().1 {
            Ok(_) => prev,
            Err(e) => prev.push((os.last().0, e@)),
        }
    }
}

/// The pages fetched by the engines that answered, added up (saturating).
pub open spec fn outcome_pages(os: Seq<(SearchEngineKind, Result<SearchResponse, String>)>) -> nat
    decreases os.len(),
{
    if os.len() == 0 {
        0
    } else {
        let prev = outcome_pages(os.drop_last());
        match os.last().1 {
            Ok(resp) => if prev + resp.pages_fetched > usize::MAX {
                usize::MAX as nat
            } else {
                (prev + resp.pages_fetched) as nat
            },
            Err(_) => prev,
        }
    }
}

/// The message of an aggregate search in which every engine failed.
pub open spec fn all_failed_message(fs: Seq<(SearchEngineKind, Seq<char>)>) -> Seq<char> {
    "聚合搜索全部失败: "@ + failure_text(fs)
}

impl AggregateSearch {
    /// The engines, in the order in which they are searched.
    pub closed spec fn engines_view(&self) -> Seq<SearchEngineKind> {
        self.engines@
    }

    /// How many merged results are returned.
    pub closed spec fn limit_view(&self) -> usize {
        self.limit
    }

    /// The default aggregate: the three default engines, ten results.
    pub fn new() -> (r: Result<Self, crate::error::LlphaError>)
        ensures
            r matches Ok(a) && a.engines_view() == default_engine_kinds() && a.limit_view()
                == DEFAULT_SEARCH_LIMIT,
    {
        Self::builder().build()
    }

    /// A builder.
    pub fn builder() -> (b: AggregateSearchBuilder)
        ensures
            b.engines_view().len() == 0,
            b.limit_view() is None,
    {
        AggregateSearchBuilder::new()
    }

    /// The number of engines.
    pub fn engine_count(&self) -> (n: usize)
        ensures
            n == self.engines_view().len(),
    {
        self.engines.len()
    }

    /// The kinds of the engines, in order.
    pub fn engine_kinds(&self) -> (v: Vec<SearchEngineKind>)
        ensures
            v@ == self.engines_view(),
    {
        let mut v: Vec<SearchEngineKind> = Vec::new();
        let mut i: usize = 0;
        while i < self.engines.len()
            invariant
                i <= self.engines@.len(),
                v@ == self.engines@.take(i as int),
            decreases self.engines@.len() - i,
        {
            v.push(self.engines[i]);
            i = i + 1;
            assert(v@ =~= self.engines@.take(i as int));
        }
        assert(self.engines@.take(i as int) =~= self.engines@);
        v
    }

    /// Always [`SearchEngineKind::Aggregate`].
    pub fn kind(&self) -> (k: SearchEngineKind)
        ensures
            k == SearchEngineKind::Aggregate,
    {
        SearchEngineKind::Aggregate
    }

    /// The answer to a query from the engines' outcomes, in engine order: the merged results
    /// of those that answered and the sum of their pages; an error listing every failure when
    /// nothing was found and some engine failed.
    pub fn combine(
        &self,
        query: &str,
        outcomes: Vec<(SearchEngineKind, Result<SearchResponse, String>)>,
    ) -> (r: Result<SearchResponse, String>)
        ensures
            ({
                let groups = outcome_groups(outcomes@);
                let fails = outcome_failures(outcomes@);
                let m = merged(groups, self.limit_view() as nat);
                if m.len() == 0 && fails.len() > 0 {
                    r matches Err(e) && e@ == all_failed_message(fails)
                } else {
                    r matches Ok(resp) && resp.engine == SearchEngineKind::Aggregate
                        && resp.query@ == query@ && results_view(resp.results@) == m
                        && resp.pages_fetched == outcome_pages(outcomes@)
                }
            }),
    {
        let ghost os = outcomes@;
        let mut groups: Vec<Vec<SearchResult>> = Vec::new();
        let mut errors: Vec<char> = Vec::new();
        let mut failures: usize = 0;
        let mut pages: usize = 0;
        let mut outcomes = outcomes;
        let total = outcomes.len();
        let mut done: usize = 0;
        while outcomes.len() > 0
            invariant
                done + outcomes@.len() == os.len(),
                os.len() == total,
                failures <= done,
                outcomes@ == os.skip(done as int),
                groups_view(groups@) == outcome_groups(os.take(done as int)),
                errors@ == failure_text(outcome_failures(os.take(done as int))),
                failures == outcome_failures(os.take(done as int)).len(),
                pages == outcome_pages(os.take(done as int)),
            decreases outcomes@.len(),
        {
            let ghost r0 = outcomes@;
            let o = outcomes.remove(0);
            assert(o == os[done as int]);
            let ghost before = os.take(done as int);
            let ghost after = os.take(done as int + 1);
            assert(after.drop_last() =~= before);
            assert(after.last() == o);
            let ghost fs0 = outcome_failures(before);
            let (kind, outcome) = o;
            match outcome {
                Ok(resp) => {
                    pages = pages.saturating_add(resp.pages_fetched);
                    let ghost gv = groups_view(groups@);
                    let ghost rv = results_view(resp.results@);
                    groups.push(resp.results);
                    assert(groups_view(groups@) =~= gv.push(rv));
                },
                Err(e) => {
                    if failures > 0 {
                        push_str(&mut errors, "; ");
                    }
                    let name = kind_label(kind);
                    push_str(&mut errors, name);
                    push_str(&mut errors, ": ");
                    push_str(&mut errors, e.as_str());
                    failures = failures + 1;
                    assert(outcome_failures(after) == fs0.push((kind, e@)));
                    assert(fs0.push((kind, e@)).drop_last() =~= fs0);
                    assert(errors@ =~= failure_text(fs0.push((kind, e@))));
                },
            }
            done = done + 1;
            assert(outcomes@ =~= os.skip(done as int));
        }
        assert(os.take(done as int) =~= os);
        let results = merge_result_groups(groups, self.limit);
        if results.len() == 0 && failures > 0 {
            let mut msg: Vec<char> = Vec::new();
            push_str(&mut msg, "聚合搜索全部失败: ");
            let ghost m0 = msg@;
            crate::text::push_chars(&mut msg, &errors);
            return Err(string_of(&msg));
        }
        Ok(SearchResponse {
            engine: SearchEngineKind::Aggregate,
            query: owned(query),
            results,
            pages_fetched: pages,
        })
    }
}

/// The Debug name of an engine kind.
pub fn kind_label(k: SearchEngineKind) -> (s: &'static str)
    ensures
        s@ == kind_name(k),
{
    match k {
        SearchEngineKind::Aggregate => "Aggregate",
        SearchEngineKind::Bing => "Bing",
        SearchEngineKind::DuckDuckGo => "DuckDuckGo",
        SearchEngineKind::SearxNg => "SearxNg",
    }
}

} // verus!
