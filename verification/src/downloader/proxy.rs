//! Proxy selection.
use vstd::prelude::*;

use crate::error::LlphaError;

verus! {

/// A source of proxy URLs for outgoing requests.
pub trait ProxyPool {
    /// The proxy for the next request, if any.
    fn next_proxy(&mut self) -> Result<Option<String>, LlphaError>;
}

/// A round-robin pool of proxy URLs held in memory.
#[derive(Clone, Debug)]
pub struct InMemoryProxyPool {
    proxies: Vec<String>,
    cursor: usize,
}

impl InMemoryProxyPool {
    /// The proxy URLs, in order.
    pub closed spec fn proxies(&self) -> Seq<Seq<char>> {
        self.proxies@.map_values(|p: String| p@)
    }

    /// How many proxies have been handed out (saturating).
    pub closed spec fn cursor(&self) -> nat {
        self.cursor as nat
    }

    /// A pool over the given proxies, starting with the first.
    pub fn new(proxies: Vec<String>) -> (pool: Self)
        ensures
            pool.proxies() == proxies@.map_values(|p: String| p@),
            pool.cursor() == 0,
    {
        InMemoryProxyPool { proxies, cursor: 0 }
    }

    /// Whether the pool holds no proxy.
    pub fn is_empty(&self) -> (r: bool)
        ensures
            r == (self.proxies().len() == 0),
    {
        self.proxies.len() == 0
    }

    /// The next proxy in round-robin order: `proxies[cursor % len]`; `None` for an empty pool.
    pub fn next_round_robin(&mut self) -> (r: Option<String>)
        ensures
            final(self).proxies() == old(self).proxies(),
            old(self).proxies().len() == 0 ==> r is None && final(self).cursor() == old(
                self,
            ).cursor(),
            old(self).proxies().len() > 0 ==> (r matches Some(p) && p@ == old(self).proxies()[(
            old(self).cursor() % old(self).proxies().len()) as int] && final(self).cursor() == (
            if old(self).cursor() == usize::MAX {
                old(self).cursor()
            } else {
                old(self).cursor() + 1
            })),
    {
        if self.proxies.len() == 0 {
            return None;
        }
        let index = self.cursor % self.proxies.len();
        let proxy = self.proxies[index].clone();
        self.cursor = self.cursor.saturating_add(1);
        Some(proxy)
    }
}

/// One draw: the proxies stay, and the cursor moves on by one (saturating) unless the pool is
/// empty.
pub open spec fn round_robin_step(before: InMemoryProxyPool, after: InMemoryProxyPool) -> bool {
    &&& after.proxies() == before.proxies()
    &&& after.cursor() == if before.proxies().len() == 0 || before.cursor() == usize::MAX {
        before.cursor()
    } else {
        before.cursor() + 1
    }
}

/// Drawing never changes what a pool holds: after any run of draws the pool has the proxies it
/// was made with, so it is empty exactly when it was made empty.
pub proof fn law_draws_keep_the_pool(run: Seq<InMemoryProxyPool>)
    requires
        run.len() > 0,
        forall|i: int| 0 <= i < run.len() - 1 ==> #[trigger] round_robin_step(run[i], run[i + 1]),
    ensures
        run.last().proxies() == run[0].proxies(),
        (run.last().proxies().len() == 0) == (run[0].proxies().len() == 0),
    decreases run.len(),
{
    if run.len() > 1 {
        let shorter = run.drop_last();
        assert forall|i: int| 0 <= i < shorter.len() - 1 implies #[trigger] round_robin_step(
            shorter[i],
            shorter[i + 1],
        ) by {
            assert(round_robin_step(run[i], run[i + 1]));
        }
        law_draws_keep_the_pool(shorter);
        let last = run.len() - 2;
        assert(round_robin_step(run[last], run[last + 1]));
    }
}

impl ProxyPool for InMemoryProxyPool {
    /// The next proxy in round-robin order.
    fn next_proxy(&mut self) -> (r: Result<Option<String>, LlphaError>)
        ensures
            round_robin_step(*old(self), *final(self)),
            old(self).proxies().len() == 0 ==> r == Ok::<Option<String>, LlphaError>(None),
            old(self).proxies().len() > 0 ==> (r matches Ok(Some(p)) && p@ == old(self).proxies()[(
            old(self).cursor() % old(self).proxies().len()) as int]),
    {
        Ok(self.next_round_robin())
    }
}

} // verus!
