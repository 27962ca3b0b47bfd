//! Tasks: the smallest unit of work of the engine.
use vstd::prelude::*;

use crate::collections::{put_entry, StringMap};
use crate::downloader::request::{HttpMethod, RequestOptions};
use crate::text::{owned, push_str, string_of};

verus! {

/// A task number; zero means "not yet placed in a graph".
#[derive(Clone, Copy, Debug, PartialEq, Eq, Structural, Hash, PartialOrd, Ord)]
pub struct TaskId(pub u64);

/// The id of a task that has not been placed in a graph yet.
pub fn unassigned_task_id() -> (id: TaskId)
    ensures
        id == TaskId(0),
{
    TaskId(0)
}

impl TaskId {
    /// Whether no id has been assigned yet.
    pub fn is_unassigned(self) -> (b: bool)
        ensures
            b <==> self.0 == 0,
    {
        self.0 == 0
    }
}

/// What a task is meant to do.
#[derive(Clone, Debug, PartialEq, Eq, Hash)]
pub enum TaskKind {
    Fetch,
    Extract,
    Download,
    Api,
    Follow,
    Custom(String),
}

impl TaskKind {
    /// An identical copy.
    pub fn copy(&self) -> (k: TaskKind)
        ensures
            k == *self,
    {
        match self {
            TaskKind::Fetch => TaskKind::Fetch,
            TaskKind::Extract => TaskKind::Extract,
            TaskKind::Download => TaskKind::Download,
            TaskKind::Api => TaskKind::Api,
            TaskKind::Follow => TaskKind::Follow,
            TaskKind::Custom(s) => TaskKind::Custom(s.clone()),
        }
    }
}

/// Where a task stands in its life cycle.
#[derive(Clone, Copy, Debug, PartialEq, Eq, Structural)]
pub enum TaskStatus {
    Pending,
    Running,
    Succeeded,
    Failed,
    Skipped,
}

/// A unit of work: what to do, on which target, and where it came from.
#[derive(Clone, Debug)]
pub struct Task {
    pub id: TaskId,
    pub kind: TaskKind,
    pub target: String,
    pub method: HttpMethod,
    pub body: Option<String>,
    pub depth: usize,
    pub priority: i32,
    pub parent_id: Option<TaskId>,
    pub status: TaskStatus,
    pub options: RequestOptions,
    pub metadata: StringMap,
}

/// The request defaults of a new task: no id yet, GET without a body, pending, default options.
pub open spec fn default_request(t: Task) -> bool {
    &&& t.id == TaskId(0)
    &&& t.method == HttpMethod::Get
    &&& t.body is None
    &&& t.status == TaskStatus::Pending
    &&& t.options.timeout is None
    &&& t.options.headers@.len() == 0
    &&& t.options.follow_redirects
}

/// The defaults of a fresh task of the given kind and target.
pub open spec fn fresh_task(t: Task, kind: TaskKind, target: Seq<char>) -> bool {
    &&& default_request(t)
    &&& t.kind == kind
    &&& t.target@ == target
    &&& t.depth == 0
    &&& t.priority == 0
    &&& t.parent_id is None
    &&& t.metadata@.len() == 0
}

/// Two optional strings with the same text.
pub open spec fn same_text(a: Option<String>, b: Option<String>) -> bool {
    match (a, b) {
        (None, None) => true,
        (Some(x), Some(y)) => x@ == y@,
        _ => false,
    }
}

/// Two tasks that agree on every field, strings and lists taken by their contents.
pub open spec fn same_task(a: Task, b: Task) -> bool {
    &&& a.id == b.id
    &&& a.kind == b.kind
    &&& a.target@ == b.target@
    &&& a.method == b.method
    &&& same_text(a.body, b.body)
    &&& a.depth == b.depth
    &&& a.priority == b.priority
    &&& a.parent_id == b.parent_id
    &&& a.status == b.status
    &&& a.options.timeout == b.options.timeout
    &&& a.options.headers@ == b.options.headers@
    &&& a.options.follow_redirects == b.options.follow_redirects
    &&& a.metadata@ == b.metadata@
}

/// The Debug text of a string: quoted, with the escapes that Rust's `{:?}` writes.
pub uninterp spec fn str_debug(s: Seq<char>) -> Seq<char>;

/// Formats a string with `{:?}` (std's `Debug` for `str`).
#[verifier::external_body]
fn debug_quoted(s: &str) -> (r: String)
    ensures
        r@ == str_debug(s@),
{
    format!("{:?}", s)
}

/// The Debug text of a task kind.
pub open spec fn kind_label(k: TaskKind) -> Seq<char> {
    match k {
        TaskKind::Fetch => "Fetch"@,
        TaskKind::Extract => "Extract"@,
        TaskKind::Download => "Download"@,
        TaskKind::Api => "Api"@,
        TaskKind::Follow => "Follow"@,
        TaskKind::Custom(s) => "Custom("@ + str_debug(s@) + ")"@,
    }
}

/// The stable name of an HTTP method.
pub open spec fn method_name(m: HttpMethod) -> Seq<char> {
    match m {
        HttpMethod::Get => "GET"@,
        HttpMethod::Post => "POST"@,
        HttpMethod::Put => "PUT"@,
        HttpMethod::Patch => "PATCH"@,
        HttpMethod::Delete => "DELETE"@,
        HttpMethod::Head => "HEAD"@,
    }
}

/// The key under which two tasks count as the same work: kind, method and target.
pub open spec fn fingerprint_of(t: Task) -> Seq<char> {
    kind_label(t.kind) + ":"@ + method_name(t.method) + ":"@ + t.target@
}

fn method_key(m: HttpMethod) -> (s: &'static str)
    ensures
        s@ == method_name(m),
{
    match m {
        HttpMethod::Get => "GET",
        HttpMethod::Post => "POST",
        HttpMethod::Put => "PUT",
        HttpMethod::Patch => "PATCH",
        HttpMethod::Delete => "DELETE",
        HttpMethod::Head => "HEAD",
    }
}

fn push_kind_label(out: &mut Vec<char>, k: &TaskKind)
    ensures
        final(out)@ == old(out)@ + kind_label(*k),
{
    match k {
        TaskKind::Fetch => push_str(out, "Fetch"),
        TaskKind::Extract => push_str(out, "Extract"),
        TaskKind::Download => push_str(out, "Download"),
        TaskKind::Api => push_str(out, "Api"),
        TaskKind::Follow => push_str(out, "Follow"),
        TaskKind::Custom(s) => {
            push_str(out, "Custom(");
            let q = debug_quoted(s.as_str());
            push_str(out, q.as_str());
            push_str(out, ")");
            assert(final(out)@ =~= old(out)@ + kind_label(*k));
        },
    }
}

impl Task {
    /// A GET fetch task.
    pub fn get(target: &str) -> (t: Self)
        ensures
            fresh_task(t, TaskKind::Fetch, target@),
    {
        Self::fetch(target)
    }

    /// A POST fetch task with a body.
    pub fn post(target: &str, body: &str) -> (t: Self)
        ensures
            t.method == HttpMethod::Post,
            t.body matches Some(b) && b@ == body@,
            fresh_task(Task { method: HttpMethod::Get, body: None, ..t }, TaskKind::Fetch, target@),
    {
        Self::fetch(target).with_method(HttpMethod::Post).with_body(body)
    }

    /// A fetch task.
    pub fn fetch(target: &str) -> (t: Self)
        ensures
            fresh_task(t, TaskKind::Fetch, target@),
    {
        Self::new(TaskKind::Fetch, target)
    }

    /// An API call task.
    pub fn api(target: &str) -> (t: Self)
        ensures
            fresh_task(t, TaskKind::Api, target@),
    {
        Self::new(TaskKind::Api, target)
    }

    /// A download task.
    pub fn download(target: &str) -> (t: Self)
        ensures
            fresh_task(t, TaskKind::Download, target@),
    {
        Self::new(TaskKind::Download, target)
    }

    /// A task of the given kind.
    pub fn new(kind: TaskKind, target: &str) -> (t: Self)
        ensures
            fresh_task(t, kind, target@),
    {
        Task {
            id: TaskId(0),
            kind,
            target: owned(target),
            method: HttpMethod::Get,
            body: None,
            depth: 0,
            priority: 0,
            parent_id: None,
            status: TaskStatus::Pending,
            options: RequestOptions::new(),
            metadata: StringMap::new(),
        }
    }

    /// Sets the id.
    pub fn with_id(self, id: TaskId) -> (t: Self)
        ensures
            t == (Task { id, ..self }),
    {
        Task { id, ..self }
    }

    /// Sets the parent id.
    pub fn with_parent_id(self, parent_id: TaskId) -> (t: Self)
        ensures
            t == (Task { parent_id: Some(parent_id), ..self }),
    {
        Task { parent_id: Some(parent_id), ..self }
    }

    /// Sets the depth.
    pub fn with_depth(self, depth: usize) -> (t: Self)
        ensures
            t == (Task { depth, ..self }),
    {
        Task { depth, ..self }
    }

    /// Sets the priority.
    pub fn with_priority(self, priority: i32) -> (t: Self)
        ensures
            t == (Task { priority, ..self }),
    {
        Task { priority, ..self }
    }

    /// Sets the HTTP method.
    pub fn with_method(self, method: HttpMethod) -> (t: Self)
        ensures
            t == (Task { method, ..self }),
    {
        Task { method, ..self }
    }

    /// Sets the request body.
    pub fn with_body(self, body: &str) -> (t: Self)
        ensures
            t.body matches Some(b) && b@ == body@,
            t == (Task { body: t.body, ..self }),
    {
        Task { body: Some(owned(body)), ..self }
    }

    /// Sets the request options.
    pub fn with_options(self, options: RequestOptions) -> (t: Self)
        ensures
            t == (Task { options, ..self }),
    {
        Task { options, ..self }
    }

    /// Stores a metadata entry.
    pub fn with_metadata(self, key: &str, value: &str) -> (t: Self)
        ensures
            t.metadata@ == put_entry(self.metadata@, key@, value@),
            t == (Task { metadata: t.metadata, ..self }),
    {
        let mut t = self;
        t.metadata.insert(owned(key), owned(value));
        t
    }

    /// Returns an equal task: every field is the same.
    pub fn clone_task(&self) -> (t: Task)
        ensures
            same_task(t, *self),
    {
        Task {
            id: self.id,
            kind: self.kind.copy(),
            target: self.target.clone(),
            method: self.method,
            body: match &self.body {
                Some(b) => Some(b.clone()),
                None => None,
            },
            depth: self.depth,
            priority: self.priority,
            parent_id: self.parent_id,
            status: self.status,
            options: self.options.copy(),
            metadata: self.metadata.copy(),
        }
    }

    /// The deduplication key: the kind's Debug text, the method and the target, joined by `:`.
    pub fn fingerprint(&self) -> (s: String)
        ensures
            s@ == fingerprint_of(*self),
    {
        let mut out: Vec<char> = Vec::new();
        push_kind_label(&mut out, &self.kind);
        push_str(&mut out, ":");
        push_str(&mut out, method_key(self.method));
        push_str(&mut out, ":");
        push_str(&mut out, self.target.as_str());
        assert(out@ =~= fingerprint_of(*self));
        string_of(&out)
    }
}

} // verus!
