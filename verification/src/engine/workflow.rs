//! The engine's bookkeeping between fetches: seeding, admitting tasks, and folding results
//! back into the graph and the scheduler.
use vstd::prelude::*;

use crate::engine::action::{produced_kind, saturating_usize, Action, ActionKind};
use crate::engine::graph::{
    assigned_id, lemma_set_status_lookup, lemma_store_keeps_others, next_id_after, set_task_status,
    store_task, task_lookup, TaskGraph, TaskEdge,
};
use crate::engine::scheduler::{is_best_pending, is_pending, remove_id, InMemoryScheduler, Scheduler};
use crate::downloader::request::HttpMethod;
use crate::engine::task::{fingerprint_of, kind_label, method_name, Task, TaskId, TaskStatus};
use crate::error::LlphaError;
use crate::plugin::{PluginContext, PluginRegistry};
use crate::text::owned;

verus! {

/// The counts of one run of the engine.
#[derive(Clone, Copy, Debug, PartialEq, Eq, Structural)]
pub struct EngineReport {
    pub processed_tasks: usize,
    pub generated_tasks: usize,
    pub failed_tasks: usize,
}

impl Default for EngineReport {
    /// All counts at zero.
    fn default() -> (r: Self)
        ensures
            r == (EngineReport { processed_tasks: 0, generated_tasks: 0, failed_tasks: 0 }),
    {
        EngineReport { processed_tasks: 0, generated_tasks: 0, failed_tasks: 0 }
    }
}

/// `x + 1` capped at the largest `usize`.
pub open spec fn inc(x: usize) -> usize {
    if x == usize::MAX {
        x
    } else {
        (x + 1) as usize
    }
}

/// The fingerprint of the child task that an action of `parent`'s page asks for.
pub open spec fn child_fingerprint(a: Action, parent: Task) -> Seq<char> {
    kind_label(produced_kind(a)->0) + ":"@ + method_name(HttpMethod::Get) + ":"@ + a.target->0@
}

/// The action asks for a child task that the scheduler queues, given the fingerprints it
/// has seen and its depth limit.
pub open spec fn child_admitted(seen: Seq<Seq<char>>, max_depth: usize, parent: Task, a: Action) -> bool {
    &&& a.target is Some
    &&& produced_kind(a) is Some
    &&& saturating_usize(parent.depth as int, 1) <= max_depth
    &&& !seen.contains(child_fingerprint(a, parent))
}

/// Offering the children of a page's actions in order: how many are queued, and the
/// fingerprints seen afterwards.
pub open spec fn admitted_run(seen: Seq<Seq<char>>, max_depth: usize, parent: Task, actions: Seq<Action>) -> (nat, Seq<Seq<char>>)
    decreases actions.len(),
{
    if actions.len() == 0 {
        (0, seen)
    } else {
        let prev = admitted_run(seen, max_depth, parent, actions.drop_last());
        let a = actions.last();
        if child_admitted(prev.1, max_depth, parent, a) {
            (prev.0 + 1, prev.1.push(child_fingerprint(a, parent)))
        } else {
            prev
        }
    }
}

/// The name under which the engine's plugins see their run.
pub const ENGINE_PLUGIN_CONTEXT_NAME: &'static str = "llpha-engine";

/// The number of tasks processed by default before a run stops.
pub const DEFAULT_MAX_STEPS: usize = 128;

/// The task graph and the scheduler of a run, the plugins that see its tasks, and its step
/// limit. Fetching, parsing and generating actions happen outside; their results come back
/// through [`WorkflowEngine::record_success`] and [`WorkflowEngine::record_failure`].
pub struct WorkflowEngine {
    scheduler: InMemoryScheduler,
    graph: TaskGraph,
    plugins: PluginRegistry,
    context: PluginContext,
    max_steps: usize,
}

/// The settings of an engine before it runs: its scheduler, its plugins and its step limit.
pub struct WorkflowEngineBuilder {
    scheduler: InMemoryScheduler,
    plugins: PluginRegistry,
    max_steps: usize,
}

impl WorkflowEngineBuilder {
    /// The scheduler to use.
    pub closed spec fn scheduler_view(&self) -> InMemoryScheduler {
        self.scheduler
    }

    /// The number of plugins to use.
    pub closed spec fn plugin_count(&self) -> nat {
        self.plugins.count()
    }

    /// The step limit to use.
    pub closed spec fn max_steps_view(&self) -> usize {
        self.max_steps
    }

    /// A fresh scheduler, no plugin, and a limit of 128 processed tasks.
    pub fn new() -> (b: Self)
        ensures
            b.scheduler_view().tasks_view().len() == 0,
            b.scheduler_view().queue_view().len() == 0,
            b.scheduler_view().max_depth_view() == 3,
            b.scheduler_view().max_concurrency_view() == 1,
            b.max_steps_view() == DEFAULT_MAX_STEPS,
            b.plugin_count() == 0,
    {
        WorkflowEngineBuilder {
            scheduler: InMemoryScheduler::new(),
            plugins: PluginRegistry::new(),
            max_steps: DEFAULT_MAX_STEPS,
        }
    }

    /// Uses this scheduler.
    pub fn scheduler(self, scheduler: InMemoryScheduler) -> (b: Self)
        ensures
            b.scheduler_view() == scheduler,
            b.plugin_count() == self.plugin_count(),
            b.max_steps_view() == self.max_steps_view(),
    {
        WorkflowEngineBuilder { scheduler, ..self }
    }

    /// Sets the scheduler's depth limit.
    pub fn max_depth(self, max_depth: usize) -> (b: Self)
        ensures
            b.scheduler_view().max_depth_view() == max_depth,
            b.scheduler_view().max_concurrency_view() == self.scheduler_view().max_concurrency_view(),
            b.scheduler_view().tasks_view() == self.scheduler_view().tasks_view(),
            b.scheduler_view().queue_view() == self.scheduler_view().queue_view(),
            b.plugin_count() == self.plugin_count(),
            b.max_steps_view() == self.max_steps_view(),
    {
        let scheduler = self.scheduler.with_max_depth(max_depth);
        WorkflowEngineBuilder { scheduler, ..self }
    }

    /// Sets how many tasks the scheduler lets run at once (at least one).
    pub fn max_concurrency(self, max_concurrency: usize) -> (b: Self)
        ensures
            b.scheduler_view().max_concurrency_view() == if max_concurrency == 0 {
                1
            } else {
                max_concurrency
            },
            b.scheduler_view().max_depth_view() == self.scheduler_view().max_depth_view(),
            b.scheduler_view().tasks_view() == self.scheduler_view().tasks_view(),
            b.scheduler_view().queue_view() == self.scheduler_view().queue_view(),
            b.plugin_count() == self.plugin_count(),
            b.max_steps_view() == self.max_steps_view(),
    {
        let scheduler = self.scheduler.with_max_concurrency(max_concurrency);
        WorkflowEngineBuilder { scheduler, ..self }
    }

    /// Uses these plugins.
    pub fn plugin_registry(self, plugins: PluginRegistry) -> (b: Self)
        ensures
            b.scheduler_view() == self.scheduler_view(),
            b.plugin_count() == plugins.count(),
            b.max_steps_view() == self.max_steps_view(),
    {
        WorkflowEngineBuilder { plugins, ..self }
    }

    /// Sets the step limit.
    pub fn max_steps(self, max_steps: usize) -> (b: Self)
        ensures
            b.scheduler_view() == self.scheduler_view(),
            b.plugin_count() == self.plugin_count(),
            b.max_steps_view() == max_steps,
    {
        WorkflowEngineBuilder { max_steps, ..self }
    }

    /// The engine: an empty graph, these settings, and plugins that see the run as
    /// `llpha-engine`.
    pub fn build(self) -> (e: WorkflowEngine)
        ensures
            e.graph_view().tasks().len() == 0,
            e.graph_view().edge_list().len() == 0,
            e.scheduler_view() == self.scheduler_view(),
            e.max_steps_view() == self.max_steps_view(),
            e.plugin_count() == self.plugin_count(),
            e.context_name() == ENGINE_PLUGIN_CONTEXT_NAME@,
    {
        WorkflowEngine {
            scheduler: self.scheduler,
            graph: TaskGraph::new(),
            plugins: self.plugins,
            context: PluginContext { name: owned(ENGINE_PLUGIN_CONTEXT_NAME) },
            max_steps: self.max_steps,
        }
    }
}

impl Default for WorkflowEngineBuilder {
    /// A fresh scheduler, no plugin, and a limit of 128 processed tasks.
    fn default() -> (b: Self)
        ensures
            b.scheduler_view().tasks_view().len() == 0,
            b.scheduler_view().queue_view().len() == 0,
            b.scheduler_view().max_depth_view() == 3,
            b.scheduler_view().max_concurrency_view() == 1,
            b.max_steps_view() == DEFAULT_MAX_STEPS,
            b.plugin_count() == 0,
    {
        WorkflowEngineBuilder::new()
    }
}

impl WorkflowEngine {
    /// The graph of the run.
    pub closed spec fn graph_view(&self) -> TaskGraph {
        self.graph
    }

    /// The scheduler of the run.
    pub closed spec fn scheduler_view(&self) -> InMemoryScheduler {
        self.scheduler
    }

    /// The step limit.
    pub closed spec fn max_steps_view(&self) -> usize {
        self.max_steps
    }

    /// The number of plugins that see the run.
    pub closed spec fn plugin_count(&self) -> nat {
        self.plugins.count()
    }

    /// The name under which the plugins see the run.
    pub closed spec fn context_name(&self) -> Seq<char> {
        self.context.name@
    }

    /// An engine with an empty graph, a fresh scheduler, no plugin, and at most 128
    /// processed tasks.
    pub fn new() -> (e: Self)
        ensures
            e.graph_view().tasks().len() == 0,
            e.graph_view().edge_list().len() == 0,
            e.scheduler_view().tasks_view().len() == 0,
            e.scheduler_view().queue_view().len() == 0,
            e.scheduler_view().max_depth_view() == 3,
            e.scheduler_view().max_concurrency_view() == 1,
            e.max_steps_view() == DEFAULT_MAX_STEPS,
            e.plugin_count() == 0,
            e.context_name() == ENGINE_PLUGIN_CONTEXT_NAME@,
    {
        WorkflowEngineBuilder::new().build()
    }

    /// A builder whose settings start at those of [`WorkflowEngine::new`].
    pub fn builder() -> (b: WorkflowEngineBuilder)
        ensures
            b.scheduler_view().tasks_view().len() == 0,
            b.scheduler_view().queue_view().len() == 0,
            b.scheduler_view().max_depth_view() == 3,
            b.scheduler_view().max_concurrency_view() == 1,
            b.max_steps_view() == DEFAULT_MAX_STEPS,
            b.plugin_count() == 0,
    {
        WorkflowEngineBuilder::new()
    }

    /// The plugins of the run.
    pub fn plugin_registry(&self) -> (r: &PluginRegistry)
        ensures
            r.count() == self.plugin_count(),
    {
        &self.plugins
    }

    /// What the plugins are told about the run.
    pub fn plugin_context(&self) -> (r: &PluginContext)
        ensures
            r.name@ == self.context_name(),
    {
        &self.context
    }

    /// The task graph.
    pub fn graph(&self) -> (g: &TaskGraph)
        ensures
            *g == self.graph_view(),
    {
        &self.graph
    }

    /// The scheduler.
    pub fn scheduler(&self) -> (s: &InMemoryScheduler)
        ensures
            *s == self.scheduler_view(),
    {
        &self.scheduler
    }

    /// Hands a task to the plugins, then places what they return in the graph and offers it
    /// to the scheduler; when the scheduler queues it and an edge is given, the edge from the
    /// given task to it is recorded. Returns whether it was queued, or the plugins' refusal.
    pub fn insert_task(&mut self, task: Task, edge: Option<(TaskId, ActionKind)>) -> (r: Result<bool, LlphaError>)
        ensures
            final(self).max_steps_view() == old(self).max_steps_view(),
            final(self).plugin_count() == old(self).plugin_count(),
            final(self).context_name() == old(self).context_name(),
            final(self).scheduler_view().max_depth_view() == old(self).scheduler_view().max_depth_view(),
            r is Err ==> final(self).graph_view() == old(self).graph_view(),
            edge is None ==> final(self).graph_view().edge_list() == old(self).graph_view().edge_list(),
            r matches Ok(accepted) ==> final(self).graph_view().edge_list().len() == old(
                self,
            ).graph_view().edge_list().len() + if accepted && edge is Some {
                1int
            } else {
                0int
            },
            old(self).plugin_count() == 0 ==> (r matches Ok(accepted) && {
                &&& accepted == (task.depth <= old(self).scheduler_view().max_depth_view() && !old(
                    self,
                ).scheduler_view().seen_view().contains(fingerprint_of(task)))
                &&& final(self).scheduler_view().seen_view() == if accepted {
                    old(self).scheduler_view().seen_view().push(fingerprint_of(task))
                } else {
                    old(self).scheduler_view().seen_view()
                }
                &&& final(self).graph_view().next_free_id() == next_id_after(
                    old(self).graph_view().next_free_id(),
                    task,
                )
                &&& final(self).graph_view().tasks() == store_task(
                    old(self).graph_view().tasks(),
                    Task { id: assigned_id(old(self).graph_view().next_free_id(), task), ..task },
                )
                &&& final(self).graph_view().edge_list() == match edge {
                    Some((from, kind)) => if accepted {
                        old(self).graph_view().edge_list().push(
                            TaskEdge {
                                from,
                                to: assigned_id(old(self).graph_view().next_free_id(), task),
                                action_kind: kind,
                            },
                        )
                    } else {
                        old(self).graph_view().edge_list()
                    },
                    None => old(self).graph_view().edge_list(),
                }
            }),
    {
        let task = match self.plugins.apply_before_task(&self.context, task) {
            Ok(t) => t,
            Err(e) => return Err(e),
        };
        let stored = self.graph.insert_task(task);
        let id = stored.id;
        let accepted = match self.scheduler.push(stored) {
            Ok(b) => b,
            Err(e) => return Err(e),
        };
        if accepted {
            match edge {
                Some((from, kind)) => {
                    self.graph.add_edge(from, id, kind);
                },
                None => {},
            }
        }
        Ok(accepted)
    }

    /// Adds a seed task; returns whether it was queued, or the plugins' refusal.
    pub fn add_seed(&mut self, task: Task) -> (r: Result<bool, LlphaError>)
        ensures
            final(self).max_steps_view() == old(self).max_steps_view(),
            final(self).plugin_count() == old(self).plugin_count(),
            final(self).context_name() == old(self).context_name(),
            final(self).graph_view().edge_list() == old(self).graph_view().edge_list(),
            old(self).plugin_count() == 0 ==> (r matches Ok(accepted) && final(self).graph_view().tasks()
                == store_task(
                old(self).graph_view().tasks(),
                Task { id: assigned_id(old(self).graph_view().next_free_id(), task), ..task },
            )),
    {
        self.insert_task(task, None)
    }

    /// Turns the actions of a finished task into child tasks and offers each; returns how
    /// many were queued, or the first refusal of the plugins.
    pub fn apply_actions(&mut self, parent: &Task, actions: &Vec<Action>) -> (r: Result<usize, LlphaError>)
        ensures
            final(self).max_steps_view() == old(self).max_steps_view(),
            final(self).plugin_count() == old(self).plugin_count(),
            final(self).context_name() == old(self).context_name(),
            r matches Ok(inserted) ==> {
                &&& inserted <= actions@.len()
                &&& final(self).graph_view().edge_list().len() == old(self).graph_view().edge_list().len()
                    + inserted
            },
            old(self).plugin_count() == 0 ==> r is Ok,
            old(self).plugin_count() == 0 ==> ({
                let run = admitted_run(
                    old(self).scheduler_view().seen_view(),
                    old(self).scheduler_view().max_depth_view(),
                    *parent,
                    actions@,
                );
                &&& r matches Ok(inserted) && inserted == run.0
                &&& final(self).scheduler_view().seen_view() == run.1
            }),
            old(self).plugin_count() == 0 && old(self).graph_view().next_free_id() + actions@.len() < u64::MAX ==> {
                &&& final(self).graph_view().next_free_id() <= old(self).graph_view().next_free_id()
                    + actions@.len()
                &&& forall|id: TaskId| id.0 < old(self).graph_view().next_free_id() ==> #[trigger] task_lookup(
                    final(self).graph_view().tasks(),
                    id,
                ) == task_lookup(old(self).graph_view().tasks(), id)
            },
    {
        let ghost g0 = self.graph_view();
        let ghost seen0 = self.scheduler_view().seen_view();
        let ghost md = self.scheduler_view().max_depth_view();
        let ghost quiet = old(self).plugin_count() == 0;
        let mut inserted: usize = 0;
        let mut i: usize = 0;
        while i < actions.len()
            invariant
                i <= actions@.len(),
                inserted <= i,
                self.max_steps_view() == old(self).max_steps_view(),
                self.plugin_count() == old(self).plugin_count(),
                self.context_name() == old(self).context_name(),
                quiet == (old(self).plugin_count() == 0),
                g0 == old(self).graph_view(),
                seen0 == old(self).scheduler_view().seen_view(),
                md == old(self).scheduler_view().max_depth_view(),
                self.scheduler_view().max_depth_view() == md,
                quiet ==> ({
                    let run = admitted_run(seen0, md, *parent, actions@.take(i as int));
                    &&& inserted == run.0
                    &&& self.scheduler_view().seen_view() == run.1
                }),
                self.graph_view().edge_list().len() == old(self).graph_view().edge_list().len()
                    + inserted,
                quiet && g0.next_free_id() + actions@.len() < u64::MAX ==> {
                    &&& g0.next_free_id() <= self.graph_view().next_free_id() <= g0.next_free_id() + i
                    &&& forall|id: TaskId| id.0 < g0.next_free_id() ==> #[trigger] task_lookup(
                        self.graph_view().tasks(),
                        id,
                    ) == task_lookup(g0.tasks(), id)
                },
            decreases actions@.len() - i,
        {
            let action = &actions[i];
            assert(actions@.take(i + 1).drop_last() =~= actions@.take(i as int));
            assert(actions@.take(i + 1).last() == *action);
            match action.to_task(parent) {
                Some(task) => {
                    assert(fingerprint_of(task) == child_fingerprint(*action, *parent));
                    let ghost g1 = self.graph_view();
                    let accepted = match self.insert_task(task, Some((parent.id, action.kind))) {
                        Ok(a) => a,
                        Err(e) => return Err(e),
                    };
                    if accepted {
                        inserted = inserted + 1;
                    }
                    proof {
                        if quiet && g0.next_free_id() + actions@.len() < u64::MAX {
                            let stored = Task { id: assigned_id(g1.next_free_id(), task), ..task };
                            assert forall|id: TaskId| id.0 < g0.next_free_id() implies #[trigger] task_lookup(
                                self.graph_view().tasks(),
                                id,
                            ) == task_lookup(g0.tasks(), id) by {
                                lemma_store_keeps_others(g1.tasks(), stored, id);
                                assert(task_lookup(g1.tasks(), id) == task_lookup(g0.tasks(), id));
                            }
                        }
                    }
                },
                None => {},
            }
            i = i + 1;
        }
        assert(actions@.take(i as int) =~= actions@);
        Ok(inserted)
    }

    /// The next task to start, marked running in the graph, while fewer than the step limit
    /// are processed or running.
    pub fn next_task(&mut self, report: &EngineReport, running: usize) -> (r: Option<Task>)
        ensures
            final(self).max_steps_view() == old(self).max_steps_view(),
            r is Some ==> report.processed_tasks + running < old(self).max_steps_view(),
            report.processed_tasks + running >= old(self).max_steps_view() ==> r is None
                && *final(self) == *old(self),
            final(self).plugin_count() == old(self).plugin_count(),
            final(self).context_name() == old(self).context_name(),
            final(self).graph_view().edge_list() == old(self).graph_view().edge_list(),
            final(self).graph_view().next_free_id() == old(self).graph_view().next_free_id(),
            r matches Some(t) ==> final(self).graph_view().tasks() == set_task_status(
                old(self).graph_view().tasks(),
                t.id,
                TaskStatus::Running,
            ),
            r is None ==> final(self).graph_view().tasks() == old(self).graph_view().tasks(),
            report.processed_tasks + running < old(self).max_steps_view() ==> (r is None <==> (
            old(self).scheduler_view().running_view().len() >= old(self).scheduler_view().max_concurrency_view()
                || forall|j: int|
                0 <= j < old(self).scheduler_view().queue_view().len() ==> !is_pending(
                    #[trigger] old(self).scheduler_view().queue_view()[j],
                    old(self).scheduler_view().tasks_view(),
                ))),
            r matches Some(t) ==> exists|i: int|
                is_best_pending(
                    old(self).scheduler_view().queue_view(),
                    old(self).scheduler_view().tasks_view(),
                    i,
                ) && t.id == (#[trigger] old(self).scheduler_view().queue_view()[i]).task_id,
    {
        if report.processed_tasks >= self.max_steps || running >= self.max_steps
            - report.processed_tasks {
            return None;
        }
        let ghost q = self.scheduler.queue_view();
        let ghost ts = self.scheduler.tasks_view();
        match self.scheduler.next() {
            Some(task) => {
                proof {
                    let i = choose|i: int| is_best_pending(q, ts, i) && task.id == q[i].task_id;
                    assert(is_pending(q[i], ts));
                    assert(exists|k: int| is_best_pending(q, ts, k) && task.id == q[k].task_id);
                    assert(!(forall|j: int| 0 <= j < q.len() ==> !is_pending(q[j], ts)));
                }
                self.graph.set_status(task.id, TaskStatus::Running);
                assert(q == old(self).scheduler_view().queue_view());
                assert(ts == old(self).scheduler_view().tasks_view());
                Some(task)
            },
            None => None,
        }
    }

    /// Records a task that finished with actions: it is marked succeeded, counted as
    /// processed, and its actions are applied; returns the new report, or the first refusal
    /// of the plugins.
    pub fn record_success(&mut self, task: &Task, actions: &Vec<Action>, report: EngineReport) -> (r: Result<EngineReport, LlphaError>)
        ensures
            final(self).max_steps_view() == old(self).max_steps_view(),
            final(self).plugin_count() == old(self).plugin_count(),
            final(self).context_name() == old(self).context_name(),
            old(self).plugin_count() == 0 ==> (r matches Ok(rep) && rep.generated_tasks == saturating_usize(
                report.generated_tasks as int,
                admitted_run(
                    old(self).scheduler_view().seen_view(),
                    old(self).scheduler_view().max_depth_view(),
                    *task,
                    actions@,
                ).0 as int,
            )),
            r matches Ok(rep) ==> {
                &&& rep.processed_tasks == inc(report.processed_tasks)
                &&& rep.failed_tasks == report.failed_tasks
                &&& rep.generated_tasks >= report.generated_tasks
                &&& final(self).graph_view().edge_list().len() - old(self).graph_view().edge_list().len()
                    == rep.generated_tasks - report.generated_tasks || rep.generated_tasks == usize::MAX
            },
            old(self).plugin_count() == 0 && old(self).graph_view().next_free_id() + actions@.len()
                < u64::MAX ==> (task_lookup(old(self).graph_view().tasks(), task.id) matches Some(u)
                ==> task_lookup(final(self).graph_view().tasks(), task.id) == Some(
                Task { status: TaskStatus::Succeeded, ..u },
            )),
    {
        proof {
            use_type_invariant(&self.graph);
        }
        let ghost g0 = self.graph_view();
        self.scheduler.mark_succeeded(task.id);
        self.graph.set_status(task.id, TaskStatus::Succeeded);
        proof {
            lemma_set_status_lookup(g0.tasks(), task.id, TaskStatus::Succeeded);
            if g0.next_free_id() < u64::MAX && task_lookup(g0.tasks(), task.id) is Some {
                g0.lemma_stored_id_below(task.id);
            }
        }
        let n = match self.apply_actions(task, actions) {
            Ok(n) => n,
            Err(e) => return Err(e),
        };
        Ok(
            EngineReport {
                processed_tasks: report.processed_tasks.saturating_add(1),
                generated_tasks: report.generated_tasks.saturating_add(n),
                failed_tasks: report.failed_tasks,
            },
        )
    }

    /// Records a task that failed: it is marked failed and counted as processed and failed;
    /// returns the new report.
    pub fn record_failure(&mut self, task: &Task, report: EngineReport) -> (r: EngineReport)
        ensures
            final(self).max_steps_view() == old(self).max_steps_view(),
            final(self).plugin_count() == old(self).plugin_count(),
            final(self).context_name() == old(self).context_name(),
            r == (EngineReport {
                processed_tasks: inc(report.processed_tasks),
                generated_tasks: report.generated_tasks,
                failed_tasks: inc(report.failed_tasks),
            }),
            final(self).graph_view().edge_list() == old(self).graph_view().edge_list(),
            final(self).graph_view().tasks() == set_task_status(
                old(self).graph_view().tasks(),
                task.id,
                TaskStatus::Failed,
            ),
            final(self).scheduler_view().tasks_view() == set_task_status(
                old(self).scheduler_view().tasks_view(),
                task.id,
                TaskStatus::Failed,
            ),
            final(self).scheduler_view().running_view() == remove_id(
                old(self).scheduler_view().running_view(),
                task.id,
            ),
    {
        self.scheduler.mark_failed(task.id);
        self.graph.set_status(task.id, TaskStatus::Failed);
        EngineReport {
            processed_tasks: report.processed_tasks.saturating_add(1),
            generated_tasks: report.generated_tasks,
            failed_tasks: report.failed_tasks.saturating_add(1),
        }
    }
}

} // verus!
