//! Action generators: from a page to the next steps.
use vstd::prelude::*;

use crate::analysis::extract::links_view;
use crate::engine::action::{targeted_action, Action, ActionKind};
use crate::engine::page::Page;
use crate::engine::task::Task;
use crate::error::LlphaError;
use crate::text::{starts_with, str_starts_with};
use crate::url::{join_url, opt_text, parse_url, url_join, url_parse};

verus! {

/// Decides the next steps from a task and its page.
pub trait ActionGenerator {
    /// The actions that the page asks for.
    fn generate(&self, task: &Task, page: &Page) -> Result<Vec<Action>, LlphaError>;
}

/// The absolute form of a link found on a page: nothing for fragments, `javascript:` and
/// `mailto:` links; the link itself when it is already an absolute URL; otherwise the link
/// resolved against the page URL.
pub open spec fn normalized_link(page_url: Seq<char>, href: Seq<char>) -> Option<Seq<char>> {
    if starts_with(href, "#"@) || starts_with(href, "javascript:"@) || starts_with(href, "mailto:"@) {
        None
    } else {
        match url_parse(href) {
            Some(u) => Some(u.0),
            None => url_join(page_url, href),
        }
    }
}

/// Makes a link absolute.
pub fn normalize_url(page_url: &str, href: &str) -> (r: Option<String>)
    ensures
        opt_text(r) == normalized_link(page_url@, href@),
{
    if str_starts_with(href, "#") || str_starts_with(href, "javascript:") || str_starts_with(
        href,
        "mailto:",
    ) {
        return None;
    }
    match parse_url(href) {
        Some(u) => Some(u.serialization),
        None => join_url(page_url, href),
    }
}

/// The targets of the first `max` links, made absolute, those that cannot be dropped.
pub open spec fn link_targets(page_url: Seq<char>, links: Seq<(Seq<char>, Seq<char>)>) -> Seq<Seq<char>>
    decreases links.len(),
{
    if links.len() == 0 {
        Seq::empty()
    } else {
        let prev = link_targets(page_url, links.drop_last());
        match normalized_link(page_url, links.last().1) {
            Some(t) => prev.push(t),
            None => prev,
        }
    }
}

/// Follows the links of a page.
#[derive(Clone, Copy, Debug)]
pub struct LinkActionGenerator {
    max_links_per_page: usize,
}

impl LinkActionGenerator {
    /// How many links of a page are followed at most.
    pub closed spec fn max_links(&self) -> usize {
        self.max_links_per_page
    }

    /// A generator that follows up to 64 links per page.
    pub fn new() -> (g: Self)
        ensures
            g.max_links() == 64,
    {
        LinkActionGenerator { max_links_per_page: 64 }
    }

    /// Sets how many links of a page are followed.
    pub fn with_max_links_per_page(self, max_links_per_page: usize) -> (g: Self)
        ensures
            g.max_links() == max_links_per_page,
    {
        LinkActionGenerator { max_links_per_page }
    }
}

impl Default for LinkActionGenerator {
    /// Up to 64 links per page.
    fn default() -> (g: Self)
        ensures
            g.max_links() == 64,
    {
        LinkActionGenerator::new()
    }
}

impl ActionGenerator for LinkActionGenerator {
    /// A follow-link action for each of the first links of the page's extraction that can be
    /// made absolute; none when the page was not extracted.
    fn generate(&self, task: &Task, page: &Page) -> (r: Result<Vec<Action>, LlphaError>)
        ensures
            r matches Ok(v) && match page.extract {
                None => v@.len() == 0,
                Some(e) => {
                    let ts = link_targets(page.url@, links_view(e.links@).take(
                        if e.links@.len() <= self.max_links() {
                            e.links@.len() as int
                        } else {
                            self.max_links() as int
                        },
                    ));
                    &&& v@.len() == ts.len()
                    &&& forall|i: int|
                        0 <= i < ts.len() ==> targeted_action(
                            #[trigger] v@[i],
                            ActionKind::FollowLink,
                            ts[i],
                        )
                },
            },
    {
        let mut actions: Vec<Action> = Vec::new();
        match &page.extract {
            None => Ok(actions),
            Some(e) => {
                let n = if e.links.len() <= self.max_links_per_page {
                    e.links.len()
                } else {
                    self.max_links_per_page
                };
                let ghost lv = links_view(e.links@);
                let mut i: usize = 0;
                while i < n
                    invariant
                        i <= n <= e.links@.len(),
                        lv == links_view(e.links@),
                        ({
                            let ts = link_targets(page.url@, lv.take(i as int));
                            &&& actions@.len() == ts.len()
                            &&& forall|k: int|
                                0 <= k < ts.len() ==> targeted_action(
                                    #[trigger] actions@[k],
                                    ActionKind::FollowLink,
                                    ts[k],
                                )
                        }),
                    decreases n - i,
                {
                    let link = &e.links[i];
                    assert(lv.take(i + 1).drop_last() =~= lv.take(i as int));
                    assert(lv.take(i + 1).last().1 == link.href@);
                    match normalize_url(page.url.as_str(), link.href.as_str()) {
                        Some(t) => {
                            actions.push(Action::follow_link(t.as_str()));
                        },
                        None => {},
                    }
                    i = i + 1;
                }
                Ok(actions)
            },
        }
    }
}

} // verus!
