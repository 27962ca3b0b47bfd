//! Hooks that plugins run around requests, tasks, pages and actions.
use vstd::prelude::*;

use crate::downloader::request::{FetchRequest, FetchResponse};
use crate::engine::action::Action;
use crate::engine::page::Page;
use crate::engine::task::Task;
use crate::error::LlphaError;

verus! {

/// What a plugin is told about the run it takes part in.
#[derive(Clone, Debug, Default, PartialEq, Eq)]
pub struct PluginContext {
    pub name: String,
}

/// A plugin of the request life cycle. Each hook receives a value and returns it, changed
/// or not, or refuses it; by default every hook hands its value back untouched.
pub trait Plugin {
    /// The plugin's name.
    fn name(&self) -> &str;

    /// Runs before a request is sent.
    fn before_request(&self, context: &PluginContext, request: FetchRequest) -> Result<FetchRequest, LlphaError> {
        Ok(request)
    }

    /// Runs after a response arrives.
    fn after_response(&self, context: &PluginContext, response: FetchResponse) -> Result<FetchResponse, LlphaError> {
        Ok(response)
    }

    /// Runs before a task enters the scheduler.
    fn before_task(&self, context: &PluginContext, task: Task) -> Result<Task, LlphaError> {
        Ok(task)
    }

    /// Runs after a page has been parsed.
    fn after_page(&self, context: &PluginContext, task: &Task, page: Page) -> Result<Page, LlphaError> {
        Ok(page)
    }

    /// Runs after the actions of a page have been generated.
    fn after_actions(&self, context: &PluginContext, task: &Task, page: &Page, actions: Vec<Action>) -> Result<Vec<Action>, LlphaError> {
        Ok(actions)
    }
}

/// The plugins enabled for a run, applied in the order in which they were registered.
pub struct PluginRegistry {
    plugins: Vec<Box<dyn Plugin>>,
}

impl Default for PluginRegistry {
    /// An empty registry.
    fn default() -> (r: Self)
        ensures
            r.count() == 0,
    {
        PluginRegistry::new()
    }
}

impl PluginRegistry {
    /// The number of plugins.
    pub closed spec fn count(&self) -> nat {
        self.plugins@.len()
    }

    /// An empty registry.
    pub fn new() -> (r: Self)
        ensures
            r.count() == 0,
    {
        PluginRegistry { plugins: Vec::new() }
    }

    /// The registered plugins, in the order in which their hooks run.
    pub closed spec fn plugin_list(&self) -> Seq<Box<dyn Plugin>> {
        self.plugins@
    }

    /// Adds a plugin after those already registered: the earlier ones keep their places and
    /// the registry holds one more.
    pub fn register<P: Plugin + 'static>(&mut self, plugin: P)
        ensures
            final(self).count() == old(self).count() + 1,
            final(self).plugin_list().len() == old(self).plugin_list().len() + 1,
            forall|i: int|
                0 <= i < old(self).plugin_list().len() ==> #[trigger] final(self).plugin_list()[i]
                    == old(self).plugin_list()[i],
    {
        let b: Box<dyn Plugin> = Box::new(plugin);
        let ghost before = self.plugins@;
        self.plugins.push(b);
        proof {
            vstd::seq::axiom_seq_push_len(before, b);
            assert forall|i: int| 0 <= i < before.len() implies #[trigger] self.plugins@[i] == before[i] by {
                vstd::seq::axiom_seq_push_index_different(before, b, i);
            }
        }
    }

    /// The number of plugins.
    pub fn len(&self) -> (n: usize)
        ensures
            n == self.count(),
    {
        self.plugins.len()
    }

    /// Whether no plugin is registered.
    pub fn is_empty(&self) -> (b: bool)
        ensures
            b == (self.count() == 0),
    {
        self.plugins.len() == 0
    }

    /// Runs every plugin's request hook in turn, stopping at the first refusal; with no
    /// plugin the request is handed back.
    pub fn apply_before_request(&self, context: &PluginContext, request: FetchRequest) -> (r: Result<FetchRequest, LlphaError>)
        ensures
            self.count() == 0 ==> r == Ok::<FetchRequest, LlphaError>(request),
    {
        let ghost original = request;
        let mut current = request;
        let mut i: usize = 0;
        while i < self.plugins.len()
            invariant
                i <= self.plugins@.len(),
                self.count() == self.plugins@.len(),
                self.plugins@.len() == 0 ==> current == original,
            decreases self.plugins@.len() - i,
        {
            current = self.plugins[i].before_request(context, current)?;
            i = i + 1;
        }
        Ok(current)
    }

    /// Runs every plugin's response hook in turn, stopping at the first refusal; with no
    /// plugin the response is handed back.
    pub fn apply_after_response(&self, context: &PluginContext, response: FetchResponse) -> (r: Result<FetchResponse, LlphaError>)
        ensures
            self.count() == 0 ==> r == Ok::<FetchResponse, LlphaError>(response),
    {
        let ghost original = response;
        let mut current = response;
        let mut i: usize = 0;
        while i < self.plugins.len()
            invariant
                i <= self.plugins@.len(),
                self.count() == self.plugins@.len(),
                self.plugins@.len() == 0 ==> current == original,
            decreases self.plugins@.len() - i,
        {
            current = self.plugins[i].after_response(context, current)?;
            i = i + 1;
        }
        Ok(current)
    }

    /// Runs every plugin's task hook in turn, stopping at the first refusal; with no plugin
    /// the task is handed back.
    pub fn apply_before_task(&self, context: &PluginContext, task: Task) -> (r: Result<Task, LlphaError>)
        ensures
            self.count() == 0 ==> r == Ok::<Task, LlphaError>(task),
    {
        let ghost original = task;
        let mut current = task;
        let mut i: usize = 0;
        while i < self.plugins.len()
            invariant
                i <= self.plugins@.len(),
                self.count() == self.plugins@.len(),
                self.plugins@.len() == 0 ==> current == original,
            decreases self.plugins@.len() - i,
        {
            current = self.plugins[i].before_task(context, current)?;
            i = i + 1;
        }
        Ok(current)
    }

    /// Runs every plugin's page hook in turn, stopping at the first refusal; with no plugin
    /// the page is handed back.
    pub fn apply_after_page(&self, context: &PluginContext, task: &Task, page: Page) -> (r: Result<Page, LlphaError>)
        ensures
            self.count() == 0 ==> r == Ok::<Page, LlphaError>(page),
    {
        let ghost original = page;
        let mut current = page;
        let mut i: usize = 0;
        while i < self.plugins.len()
            invariant
                i <= self.plugins@.len(),
                self.count() == self.plugins@.len(),
                self.plugins@.len() == 0 ==> current == original,
            decreases self.plugins@.len() - i,
        {
            current = self.plugins[i].after_page(context, task, current)?;
            i = i + 1;
        }
        Ok(current)
    }

    /// Runs every plugin's action hook in turn, stopping at the first refusal; with no
    /// plugin the actions are handed back.
    pub fn apply_after_actions(&self, context: &PluginContext, task: &Task, page: &Page, actions: Vec<Action>) -> (r: Result<Vec<Action>, LlphaError>)
        ensures
            self.count() == 0 ==> r == Ok::<Vec<Action>, LlphaError>(actions),
    {
        let ghost original = actions;
        let mut current = actions;
        let mut i: usize = 0;
        while i < self.plugins.len()
            invariant
                i <= self.plugins@.len(),
                self.count() == self.plugins@.len(),
                self.plugins@.len() == 0 ==> current == original,
            decreases self.plugins@.len() - i,
        {
            current = self.plugins[i].after_actions(context, task, page, current)?;
            i = i + 1;
        }
        Ok(current)
    }
}

} // verus!
