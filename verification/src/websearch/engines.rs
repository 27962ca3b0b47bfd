//! Checks shared by the engine page parsers, and the ordering of mirror probes.
use vstd::prelude::*;

use crate::text::{
    chars_eq_ignore_case, chars_of, collapse_ws, collapse_ws_chars, contains, eq_ignore_case,
    lower_chars, lower_seq, find_chars, starts_with, str_starts_with,
};
use crate::websearch::types::SearchPing;

verus! {

/// The URL starts with `http://` or `https://`.
pub open spec fn http_url(url: Seq<char>) -> bool {
    starts_with(url, "http://"@) || starts_with(url, "https://"@)
}

/// Whether a result URL is an HTTP one.
pub fn is_http_url(url: &str) -> (b: bool)
    ensures
        b == http_url(url@),
{
    str_starts_with(url, "http://") || str_starts_with(url, "https://")
}

/// A mirror's answer that says it is rate limited: the body is "Too Many Requests" (ignoring
/// case and spacing), or it mentions "HTTP 429" or "rate limit" (ignoring case).
pub open spec fn rate_limited(body: Seq<char>) -> bool {
    eq_ignore_case(collapse_ws(body), "Too Many Requests"@) || contains(body, "HTTP 429"@)
        || contains(lower_seq(body), "rate limit"@)
}

/// Whether a response body reports rate limiting.
pub fn is_rate_limited_response(body: &str) -> (b: bool)
    ensures
        b == rate_limited(body@),
{
    let cs = chars_of(body);
    let collapsed = collapse_ws_chars(&cs);
    let target = chars_of("Too Many Requests");
    if chars_eq_ignore_case(&collapsed, &target) {
        return true;
    }
    let http429 = chars_of("HTTP 429");
    if find_chars(&cs, &http429).is_some() {
        return true;
    }
    let lowered = lower_chars(&cs);
    let phrase = chars_of("rate limit");
    find_chars(&lowered, &phrase).is_some()
}

/// `a` comes before `b` among probe results: available first, then faster, then in the
/// order in which the probes were started.
pub open spec fn ping_before(a: (usize, SearchPing), b: (usize, SearchPing)) -> bool {
    (a.1.available && !b.1.available) || (a.1.available == b.1.available && (a.1.latency_ms
        < b.1.latency_ms || (a.1.latency_ms == b.1.latency_ms && a.0 < b.0)))
}

/// No entry comes before an earlier one.
pub open spec fn pings_sorted(s: Seq<(usize, SearchPing)>) -> bool {
    forall|i: int, j: int| 0 <= i < j < s.len() ==> !ping_before(s[j], s[i])
}

fn before(a: &(usize, SearchPing), b: &(usize, SearchPing)) -> (r: bool)
    ensures
        r == ping_before(*a, *b),
{
    (a.1.available && !b.1.available) || (a.1.available == b.1.available && (a.1.latency_ms
        < b.1.latency_ms || (a.1.latency_ms == b.1.latency_ms && a.0 < b.0)))
}

/// Orders probe results, available first, then by latency, then by start order, and drops
/// the start numbers.
pub fn sort_ping_results(pings: Vec<(usize, SearchPing)>) -> (r: Vec<SearchPing>)
    ensures
        exists|s: Seq<(usize, SearchPing)>|
            {
                &&& s.to_multiset() == pings@.to_multiset()
                &&& pings_sorted(s)
                &&& r@ == s.map_values(|e: (usize, SearchPing)| e.1)
            },
{
    broadcast use vstd::seq_lib::group_to_multiset_ensures;
    broadcast use vstd::seq_lib::to_multiset_insert;
    broadcast use vstd::multiset::group_multiset_axioms;

    let ghost orig = pings@;
    let mut rest = pings;
    let mut out: Vec<(usize, SearchPing)> = Vec::new();
    proof {
        assert(out@.to_multiset().len() == 0);
        assert(out@.to_multiset() =~= vstd::multiset::Multiset::empty());
        assert(out@.to_multiset().add(rest@.to_multiset()) =~= orig.to_multiset());
    }
    while rest.len() > 0
        invariant
            pings_sorted(out@),
            out@.to_multiset().add(rest@.to_multiset()) == orig.to_multiset(),
        decreases rest@.len(),
    {
        let ghost r0 = rest@;
        let x = rest.pop().unwrap();
        proof {
            assert(r0 =~= rest@.push(x));
        }
        let mut p: usize = 0;
        while p < out.len() && !before(&x, &out[p])
            invariant
                p <= out@.len(),
                forall|i: int| 0 <= i < p ==> !ping_before(x, out@[i]),
            decreases out@.len() - p,
        {
            p = p + 1;
        }
        let ghost o0 = out@;
        out.insert(p, x);
        proof {
            assert(out@ =~= o0.insert(p as int, x));
            assert forall|i: int, j: int| 0 <= i < j < out@.len() implies !ping_before(
                out@[j],
                out@[i],
            ) by {
                if j == p as int {
                    assert(out@[i] == o0[i]);
                } else if i == p as int {
                    assert(out@[j] == o0[j - 1]);
                    assert(p < o0.len());
                    assert(ping_before(x, o0[p as int]));
                    assert(!ping_before(o0[j - 1], o0[p as int]) || j - 1 == p);
                } else if j < p {
                    assert(out@[i] == o0[i] && out@[j] == o0[j]);
                } else if i < p {
                    assert(out@[i] == o0[i] && out@[j] == o0[j - 1]);
                } else {
                    assert(out@[i] == o0[i - 1] && out@[j] == o0[j - 1]);
                }
            }
            vstd::seq_lib::to_multiset_insert(o0, p as int, x);
            vstd::seq_lib::to_multiset_build(rest@, x);
            assert(out@.to_multiset() == o0.to_multiset().insert(x));
            assert(r0.to_multiset() == rest@.to_multiset().insert(x));
            assert(out@.to_multiset().add(rest@.to_multiset()) =~= o0.to_multiset().add(
                r0.to_multiset(),
            ));
        }
    }
    proof {
        assert(rest@.to_multiset().len() == 0);
        assert(rest@.to_multiset() =~= vstd::multiset::Multiset::empty());
        assert(out@.to_multiset() =~= orig.to_multiset());
    }
    let ghost sorted = out@;
    let mut r: Vec<SearchPing> = Vec::new();
    let mut out = out;
    while out.len() > 0
        invariant
            sorted.map_values(|e: (usize, SearchPing)| e.1) == r@ + out@.map_values(
                |e: (usize, SearchPing)| e.1,
            ),
        decreases out@.len(),
    {
        let ghost o0 = out@;
        let ghost r0 = r@;
        let e = out.remove(0);
        r.push(e.1);
        assert(r@ + out@.map_values(|e: (usize, SearchPing)| e.1) =~= r0 + o0.map_values(
            |e: (usize, SearchPing)| e.1,
        )) by {
            assert(o0 =~= seq![e] + out@);
        }
    }
    proof {
        assert(r@ =~= sorted.map_values(|e: (usize, SearchPing)| e.1));
    }
    r
}

} // verus!
