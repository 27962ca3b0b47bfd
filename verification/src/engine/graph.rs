//! The task graph: every task the engine has seen, and the actions that linked them.
use vstd::prelude::*;

use crate::engine::action::ActionKind;
use crate::engine::task::{same_task, Task, TaskId, TaskStatus};

verus! {

/// One node of the graph.
#[derive(Clone, Debug)]
pub struct TaskNode {
    pub task: Task,
}

/// An edge: the action of `from`'s page that produced `to`.
#[derive(Clone, Copy, Debug, PartialEq, Eq, Structural)]
pub struct TaskEdge {
    pub from: TaskId,
    pub to: TaskId,
    pub action_kind: ActionKind,
}

/// The graph of tasks, growing as pages yield new work.
#[derive(Debug)]
pub struct TaskGraph {
    nodes: Vec<TaskNode>,
    edges: Vec<TaskEdge>,
    next_id: u64,
}

/// The first position at or after `i` of the task with this id.
pub open spec fn task_index(s: Seq<Task>, id: TaskId, i: int) -> Option<int>
    decreases s.len() - i,
{
    if i < 0 || i >= s.len() {
        None
    } else if s[i].id == id {
        Some(i)
    } else {
        task_index(s, id, i + 1)
    }
}

/// The task stored under an id.
pub open spec fn task_lookup(s: Seq<Task>, id: TaskId) -> Option<Task> {
    match task_index(s, id, 0) {
        Some(i) => Some(s[i]),
        None => None,
    }
}

/// The tasks after storing `t`: it replaces the task with the same id, or comes last.
pub open spec fn store_task(s: Seq<Task>, t: Task) -> Seq<Task> {
    match task_index(s, t.id, 0) {
        Some(i) => s.update(i, t),
        None => s.push(t),
    }
}

/// The tasks after setting the status of the task with this id, if there is one.
pub open spec fn set_task_status(s: Seq<Task>, id: TaskId, status: TaskStatus) -> Seq<Task> {
    match task_index(s, id, 0) {
        Some(i) => s.update(i, Task { status, ..s[i] }),
        None => s,
    }
}

/// The id that `insert_task` gives a task.
pub open spec fn assigned_id(next_id: u64, t: Task) -> TaskId {
    if t.id.0 == 0 {
        TaskId(next_id)
    } else {
        t.id
    }
}

/// The next free id after inserting a task.
pub open spec fn next_id_after(next_id: u64, t: Task) -> u64 {
    if t.id.0 == 0 {
        if next_id == u64::MAX {
            next_id
        } else {
            (next_id + 1) as u64
        }
    } else {
        let above = if t.id.0 == u64::MAX {
            u64::MAX
        } else {
            (t.id.0 + 1) as u64
        };
        if next_id >= above {
            next_id
        } else {
            above
        }
    }
}

/// Facts about `task_index` that the graph and the scheduler share.
pub proof fn lemma_task_index(s: Seq<Task>, id: TaskId, i: int)
    requires
        0 <= i <= s.len(),
    ensures
        task_index(s, id, i) matches Some(j) ==> i <= j < s.len() && s[j].id == id && (forall|
            k: int,
        | i <= k < j ==> s[k].id != id),
        task_index(s, id, i) is None ==> forall|k: int| i <= k < s.len() ==> s[k].id != id,
    decreases s.len() - i,
{
    if i < s.len() {
        lemma_task_index(s, id, i + 1);
    }
}

/// A task stored in a list of tasks is found again under its id.
pub proof fn lemma_store_then_lookup(s: Seq<Task>, t: Task)
    ensures
        task_lookup(store_task(s, t), t.id) == Some(t),
{
    lemma_task_index(s, t.id, 0);
    let r = store_task(s, t);
    lemma_task_index(r, t.id, 0);
    match task_index(s, t.id, 0) {
        Some(i) => {
            assert(r[i] == t);
            if task_index(r, t.id, 0) != Some(i) {
                assert(false);
            }
        },
        None => {
            assert(r[s.len() as int] == t);
            if task_index(r, t.id, 0) != Some(s.len() as int) {
                assert(false);
            }
        },
    }
}

/// Setting the status of a stored task changes only that status, as seen under its id.
pub proof fn lemma_set_status_lookup(s: Seq<Task>, id: TaskId, status: TaskStatus)
    ensures
        task_lookup(set_task_status(s, id, status), id) == match task_lookup(s, id) {
            Some(u) => Some(Task { status, ..u }),
            None => None,
        },
{
    lemma_task_index(s, id, 0);
    let r = set_task_status(s, id, status);
    lemma_task_index(r, id, 0);
    match task_index(s, id, 0) {
        Some(i) => {
            assert(r[i].id == id);
            if task_index(r, id, 0) != Some(i) {
                match task_index(r, id, 0) {
                    Some(j) => {
                        if j < i {
                            assert(r[j] == s[j]);
                        }
                    },
                    None => {},
                }
                assert(false);
            }
        },
        None => {},
    }
}

/// Storing a task leaves the tasks with other ids where they were.
pub proof fn lemma_store_keeps_others(s: Seq<Task>, t: Task, id: TaskId)
    requires
        id != t.id,
    ensures
        task_lookup(store_task(s, t), id) == task_lookup(s, id),
{
    lemma_task_index(s, id, 0);
    lemma_task_index(s, t.id, 0);
    let r = store_task(s, t);
    lemma_task_index(r, id, 0);
    match task_index(s, id, 0) {
        Some(i) => {
            if task_index(r, id, 0) != Some(i) {
                assert(r[i] == s[i]);
                assert(false);
            }
        },
        None => {
            if task_index(r, id, 0) is Some {
                let j = task_index(r, id, 0)->0;
                assert(j < s.len() ==> r[j] == s[j]);
                assert(false);
            }
        },
    }
}

impl TaskGraph {
    /// The tasks, in the order in which they first came.
    pub closed spec fn tasks(&self) -> Seq<Task> {
        self.nodes@.map_values(|n: TaskNode| n.task)
    }

    /// The edges, in the order in which they were added.
    pub closed spec fn edge_list(&self) -> Seq<TaskEdge> {
        self.edges@
    }

    /// The id that the next unnumbered task gets.
    pub closed spec fn next_free_id(&self) -> u64 {
        self.next_id
    }

    /// Every id is set, occurs once, and lies below the next free id (which only stops growing
    /// at the largest `u64`). Every graph keeps this.
    #[verifier::type_invariant]
    pub closed spec fn wf(&self) -> bool {
        let s = self.tasks();
        &&& self.next_id >= 1
        &&& forall|i: int| 0 <= i < s.len() ==> s[i].id.0 != 0
        &&& forall|i: int|
            0 <= i < s.len() ==> s[i].id.0 < self.next_id || self.next_id == u64::MAX
        &&& forall|i: int, j: int| 0 <= i < j < s.len() ==> s[i].id != s[j].id
    }

    /// In a well-formed graph whose next id is not exhausted, every stored id lies below it.
    pub proof fn lemma_stored_id_below(&self, id: TaskId)
        requires
            self.wf(),
            self.next_free_id() < u64::MAX,
            task_lookup(self.tasks(), id) is Some,
        ensures
            id.0 < self.next_free_id(),
    {
        lemma_task_index(self.tasks(), id, 0);
        let i = task_index(self.tasks(), id, 0)->0;
        assert(self.tasks()[i].id == id);
    }

    /// An empty graph whose first id is 1.
    pub fn new() -> (g: Self)
        ensures
            g.tasks().len() == 0,
            g.edge_list().len() == 0,
            g.next_free_id() == 1,
    {
        let g = TaskGraph { nodes: Vec::new(), edges: Vec::new(), next_id: 1 };
        assert(g.tasks() =~= Seq::<Task>::empty());
        g
    }

    fn find(&self, id: TaskId) -> (r: Option<usize>)
        ensures
            r matches Some(i) ==> task_index(self.tasks(), id, 0) == Some(i as int),
            r is None ==> task_index(self.tasks(), id, 0) is None,
    {
        let mut i: usize = 0;
        while i < self.nodes.len()
            invariant
                i <= self.nodes@.len(),
                self.tasks().len() == self.nodes@.len(),
                task_index(self.tasks(), id, 0) == task_index(self.tasks(), id, i as int),
            decreases self.nodes@.len() - i,
        {
            assert(self.tasks()[i as int] == self.nodes@[i as int].task);
            if self.nodes[i].task.id == id {
                return Some(i);
            }
            i = i + 1;
        }
        None
    }

    /// Places a task in the graph, numbering it first if it has no id, and returns it as
    /// stored. A task with the id of a stored one replaces it.
    pub fn insert_task(&mut self, task: Task) -> (r: Task)
        ensures
            same_task(r, Task { id: assigned_id(old(self).next_free_id(), task), ..task }),
            final(self).tasks() == store_task(
                old(self).tasks(),
                Task { id: assigned_id(old(self).next_free_id(), task), ..task },
            ),
            final(self).next_free_id() == next_id_after(old(self).next_free_id(), task),
            final(self).edge_list() == old(self).edge_list(),
            task.id.0 == 0 && old(self).next_free_id() < u64::MAX ==> task_lookup(
                old(self).tasks(),
                r.id,
            ) is None,
    {
        proof {
            use_type_invariant(&*self);
        }
        let ghost s0 = self.tasks();
        let mut task = task;
        let mut next_id = self.next_id;
        if task.id.is_unassigned() {
            task.id = TaskId(next_id);
            next_id = next_id.saturating_add(1);
        } else {
            let above = task.id.0.saturating_add(1);
            if above > next_id {
                next_id = above;
            }
        }
        proof {
            lemma_task_index(s0, task.id, 0);
        }
        let copy = task.clone_task();
        let ghost t = task;
        let found = self.find(task.id);
        let mut nodes: Vec<TaskNode> = Vec::new();
        std::mem::swap(&mut nodes, &mut self.nodes);
        assert(self.tasks() =~= Seq::<Task>::empty());
        self.next_id = next_id;
        let ghost ns = nodes@.map_values(|n: TaskNode| n.task);
        assert(ns == s0);
        match found {
            Some(i) => {
                nodes.set(i, TaskNode { task });
                assert(nodes@.map_values(|n: TaskNode| n.task) =~= s0.update(i as int, t));
            },
            None => {
                nodes.push(TaskNode { task });
                assert(nodes@.map_values(|n: TaskNode| n.task) =~= s0.push(t));
            },
        }
        self.nodes = nodes;
        copy
    }

    /// Adds an edge.
    pub fn add_edge(&mut self, from: TaskId, to: TaskId, action_kind: ActionKind)
        ensures
            final(self).tasks() == old(self).tasks(),
            final(self).next_free_id() == old(self).next_free_id(),
            final(self).edge_list() == old(self).edge_list().push(
                TaskEdge { from, to, action_kind },
            ),
    {
        proof {
            use_type_invariant(&*self);
        }
        let mut edges: Vec<TaskEdge> = Vec::new();
        std::mem::swap(&mut edges, &mut self.edges);
        edges.push(TaskEdge { from, to, action_kind });
        self.edges = edges;
    }

    /// Sets the status of a stored task; does nothing for an unknown id.
    pub fn set_status(&mut self, task_id: TaskId, status: TaskStatus)
        ensures
            final(self).tasks() == set_task_status(old(self).tasks(), task_id, status),
            final(self).next_free_id() == old(self).next_free_id(),
            final(self).edge_list() == old(self).edge_list(),
    {
        proof {
            use_type_invariant(&*self);
        }
        let ghost s0 = self.tasks();
        proof {
            lemma_task_index(s0, task_id, 0);
        }
        match self.find(task_id) {
            Some(i) => {
                let mut nodes: Vec<TaskNode> = Vec::new();
                std::mem::swap(&mut nodes, &mut self.nodes);
                assert(nodes@.map_values(|n: TaskNode| n.task) == s0);
                let mut node = nodes.remove(i);
                node.task.status = status;
                let ghost t = node.task;
                nodes.insert(i, node);
                assert(nodes@.map_values(|n: TaskNode| n.task) =~= s0.update(i as int, t));
                self.nodes = nodes;
            },
            None => {},
        }
    }

    /// The node of a task.
    pub fn get(&self, task_id: TaskId) -> (r: Option<&TaskNode>)
        ensures
            r matches Some(n) ==> task_lookup(self.tasks(), task_id) == Some(n.task),
            r is None ==> task_lookup(self.tasks(), task_id) is None,
    {
        proof {
            lemma_task_index(self.tasks(), task_id, 0);
        }
        match self.find(task_id) {
            Some(i) => {
                assert(self.tasks()[i as int] == self.nodes@[i as int].task);
                Some(&self.nodes[i])
            },
            None => None,
        }
    }

    /// The number of tasks.
    pub fn node_count(&self) -> (n: usize)
        ensures
            n == self.tasks().len(),
    {
        self.nodes.len()
    }

    /// The number of edges.
    pub fn edge_count(&self) -> (n: usize)
        ensures
            n == self.edge_list().len(),
    {
        self.edges.len()
    }

    /// All edges.
    pub fn edges(&self) -> (r: &[TaskEdge])
        ensures
            r@ == self.edge_list(),
    {
        self.edges.as_slice()
    }
}

impl Clone for TaskGraph {
    /// A graph with the same tasks, edges and next id.
    fn clone(&self) -> (c: Self)
        ensures
            c.tasks().len() == self.tasks().len(),
            forall|i: int| 0 <= i < c.tasks().len() ==> same_task(#[trigger] c.tasks()[i], self.tasks()[i]),
            c.edge_list() == self.edge_list(),
            c.next_free_id() == self.next_free_id(),
    {
        proof {
            use_type_invariant(self);
        }
        let mut nodes: Vec<TaskNode> = Vec::new();
        let mut i: usize = 0;
        while i < self.nodes.len()
            invariant
                i <= self.nodes@.len(),
                nodes@.len() == i,
                forall|j: int| 0 <= j < i ==> same_task(#[trigger] nodes@[j].task, self.nodes@[j].task),
            decreases self.nodes@.len() - i,
        {
            nodes.push(TaskNode { task: self.nodes[i].task.clone_task() });
            i = i + 1;
        }
        let mut edges: Vec<TaskEdge> = Vec::new();
        let mut k: usize = 0;
        while k < self.edges.len()
            invariant
                k <= self.edges@.len(),
                edges@ == self.edges@.take(k as int),
            decreases self.edges@.len() - k,
        {
            edges.push(self.edges[k]);
            k = k + 1;
            assert(edges@ =~= self.edges@.take(k as int));
        }
        assert(self.edges@.take(k as int) =~= self.edges@);
        let ghost copied = nodes@.map_values(|n: TaskNode| n.task);
        assert forall|j: int| 0 <= j < copied.len() implies same_task(#[trigger] copied[j], self.tasks()[j]) by {
            assert(copied[j] == nodes@[j].task);
            assert(self.tasks()[j] == self.nodes@[j].task);
        }
        assert forall|j: int| 0 <= j < copied.len() implies #[trigger] copied[j].id == self.tasks()[j].id by {
            assert(same_task(copied[j], self.tasks()[j]));
        }
        TaskGraph { nodes, edges, next_id: self.next_id }
    }
}

impl Default for TaskGraph {
    /// An empty graph.
    fn default() -> (g: Self)
        ensures
            g.tasks().len() == 0,
            g.edge_list().len() == 0,
            g.next_free_id() == 1,
    {
        TaskGraph::new()
    }
}

} // verus!
