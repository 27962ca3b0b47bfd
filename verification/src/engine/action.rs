//! Actions: what a page asks the engine to do next.
use vstd::prelude::*;

use crate::collections::{put_entry, StringMap};
use crate::engine::task::{default_request, Task, TaskKind};
use crate::text::owned;

verus! {

/// The kind of step that a page yields.
#[derive(Clone, Copy, Debug, PartialEq, Eq, Structural)]
pub enum ActionKind {
    ExtractData,
    FollowLink,
    DownloadFile,
    CallApi,
    SpawnTask,
    TriggerPlugin,
}

/// A declared next step, turned into a task by [`Action::to_task`].
#[derive(Clone, Debug, PartialEq, Eq)]
pub struct Action {
    pub kind: ActionKind,
    pub target: Option<String>,
    pub priority_delta: i32,
    pub next_task_kind: Option<TaskKind>,
    pub metadata: StringMap,
}

/// `a + b` clamped to the range of `i32`.
pub open spec fn saturating_i32(a: int, b: int) -> int {
    if a + b > i32::MAX {
        i32::MAX as int
    } else if a + b < i32::MIN {
        i32::MIN as int
    } else {
        a + b
    }
}

/// `a + b` clamped to the range of `usize`.
pub open spec fn saturating_usize(a: int, b: int) -> int {
    if a + b > usize::MAX {
        usize::MAX as int
    } else {
        a + b
    }
}

/// Adds two `i32` values, clamping at the bounds.
pub fn saturating_add_i32(a: i32, b: i32) -> (r: i32)
    ensures
        r == saturating_i32(a as int, b as int),
{
    let sum: i64 = a as i64 + b as i64;
    if sum > i32::MAX as i64 {
        i32::MAX
    } else if sum < i32::MIN as i64 {
        i32::MIN
    } else {
        sum as i32
    }
}

/// The kind of task that an action of this kind produces, if any.
pub open spec fn produced_kind(a: Action) -> Option<TaskKind> {
    match a.kind {
        ActionKind::FollowLink => Some(TaskKind::Fetch),
        ActionKind::DownloadFile => Some(TaskKind::Download),
        ActionKind::CallApi => Some(TaskKind::Api),
        ActionKind::SpawnTask => match a.next_task_kind {
            Some(k) => Some(k),
            None => Some(TaskKind::Fetch),
        },
        ActionKind::ExtractData | ActionKind::TriggerPlugin => None,
    }
}

/// An action of the given kind with no target, no priority change and no metadata.
pub open spec fn bare_action(a: Action, kind: ActionKind) -> bool {
    &&& a.kind == kind
    &&& a.target is None
    &&& a.priority_delta == 0
    &&& a.next_task_kind is None
    &&& a.metadata@.len() == 0
}

/// An action of the given kind aimed at a target.
pub open spec fn targeted_action(a: Action, kind: ActionKind, target: Seq<char>) -> bool {
    &&& a.target matches Some(t) && t@ == target
    &&& bare_action(Action { target: None, ..a }, kind)
}

impl Action {
    /// Follows a link (the default fetch action).
    pub fn fetch(target: &str) -> (a: Self)
        ensures
            targeted_action(a, ActionKind::FollowLink, target@),
    {
        Self::follow_link(target)
    }

    /// Follows a link.
    pub fn follow_link(target: &str) -> (a: Self)
        ensures
            targeted_action(a, ActionKind::FollowLink, target@),
    {
        Self::new(ActionKind::FollowLink).with_target(target)
    }

    /// Downloads a file.
    pub fn download_file(target: &str) -> (a: Self)
        ensures
            targeted_action(a, ActionKind::DownloadFile, target@),
    {
        Self::new(ActionKind::DownloadFile).with_target(target)
    }

    /// Short name of [`Action::download_file`].
    pub fn download(target: &str) -> (a: Self)
        ensures
            targeted_action(a, ActionKind::DownloadFile, target@),
    {
        Self::download_file(target)
    }

    /// Calls an API.
    pub fn call_api(target: &str) -> (a: Self)
        ensures
            targeted_action(a, ActionKind::CallApi, target@),
    {
        Self::new(ActionKind::CallApi).with_target(target)
    }

    /// Short name of [`Action::call_api`].
    pub fn api(target: &str) -> (a: Self)
        ensures
            targeted_action(a, ActionKind::CallApi, target@),
    {
        Self::call_api(target)
    }

    /// Spawns a task of a chosen kind.
    pub fn spawn(target: &str, next_task_kind: TaskKind) -> (a: Self)
        ensures
            a.next_task_kind == Some(next_task_kind),
            targeted_action(Action { next_task_kind: None, ..a }, ActionKind::SpawnTask, target@),
    {
        Self::new(ActionKind::SpawnTask).with_target(target).with_next_task_kind(next_task_kind)
    }

    /// An action of the given kind with no target.
    pub fn new(kind: ActionKind) -> (a: Self)
        ensures
            bare_action(a, kind),
    {
        Action {
            kind,
            target: None,
            priority_delta: 0,
            next_task_kind: None,
            metadata: StringMap::new(),
        }
    }

    /// Sets the target.
    pub fn with_target(self, target: &str) -> (a: Self)
        ensures
            a.target matches Some(t) && t@ == target@,
            a == (Action { target: a.target, ..self }),
    {
        Action { target: Some(owned(target)), ..self }
    }

    /// Sets the priority change of the produced task.
    pub fn with_priority_delta(self, priority_delta: i32) -> (a: Self)
        ensures
            a == (Action { priority_delta, ..self }),
    {
        Action { priority_delta, ..self }
    }

    /// Sets the kind of the produced task.
    pub fn with_next_task_kind(self, next_task_kind: TaskKind) -> (a: Self)
        ensures
            a == (Action { next_task_kind: Some(next_task_kind), ..self }),
    {
        Action { next_task_kind: Some(next_task_kind), ..self }
    }

    /// Stores a metadata entry.
    pub fn with_metadata(self, key: &str, value: &str) -> (a: Self)
        ensures
            a.metadata@ == put_entry(self.metadata@, key@, value@),
            a == (Action { metadata: a.metadata, ..self }),
    {
        let mut a = self;
        a.metadata.insert(owned(key), owned(value));
        a
    }

    /// The child task of `parent` that this action asks for: `None` when the action has no
    /// target or its kind yields no task.
    pub fn to_task(&self, parent: &Task) -> (r: Option<Task>)
        ensures
            r is None <==> (self.target is None || produced_kind(*self) is None),
            r matches Some(t) ==> {
                &&& produced_kind(*self) matches Some(k) && t.kind == k
                &&& self.target matches Some(s) && t.target@ == s@
                &&& t.parent_id == Some(parent.id)
                &&& t.depth == saturating_usize(parent.depth as int, 1)
                &&& t.priority == saturating_i32(parent.priority as int, self.priority_delta as int)
                &&& t.metadata@ == self.metadata@
                &&& default_request(t)
            },
    {
        let target = match &self.target {
            Some(t) => t,
            None => return None,
        };
        let kind = match self.kind {
            ActionKind::FollowLink => TaskKind::Fetch,
            ActionKind::DownloadFile => TaskKind::Download,
            ActionKind::CallApi => TaskKind::Api,
            ActionKind::SpawnTask => match &self.next_task_kind {
                Some(k) => k.copy(),
                None => TaskKind::Fetch,
            },
            ActionKind::ExtractData | ActionKind::TriggerPlugin => return None,
        };
        let mut task = Task::new(kind, target.as_str()).with_parent_id(parent.id).with_depth(
            parent.depth.saturating_add(1),
        ).with_priority(saturating_add_i32(parent.priority, self.priority_delta));
        task.metadata = self.metadata.copy();
        Some(task)
    }
}

} // verus!
