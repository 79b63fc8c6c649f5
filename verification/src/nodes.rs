//! The node taxonomy and the typed result union.
//!
//! Each node kind is a pure function from its key to one result variant;
//! the graph store memoizes results by structural key equality. The
//! downcast from the union back to the typed result is an assertion: a
//! mismatch indicates a graph-wiring bug and surfaces as an error value.

use vstd::prelude::*;

use crate::digest::{spec_hex_encode, to_hex};
use crate::process::{request_clone, request_eq, ExecuteProcess, ExecuteProcessRequest,
    ExecuteProcessRequestV, ProcessResult, FallibleExecuteProcessResultV};
use crate::rules::{task_def_clone, task_def_eq, EntryId, TaskDef, TaskDefV};
use crate::select::{Select, SelectNodeV};
use crate::selectors::{selector_clone, selector_eq, variants_clone, variants_eq, Variants};
use crate::snapshot::{path_globs_clone, path_globs_eq, PathGlobsV, Snapshot, SnapshotData,
    SnapshotDataV};
use crate::values::{bytes_clone, value_clone, value_view, Key, TypeId, Value, ValueV};
use crate::vfs::{bytes_eq, Digest, DigestV, DirectoryListing, Dir, File, Link, StatV};

verus! {

/// A node that reads the destination of a symlink (non-recursively).
#[derive(Debug, PartialEq, Eq)]
pub struct ReadLink(pub Link);

/// The destination a symlink points to.
#[derive(Debug, PartialEq, Eq)]
pub struct LinkDest(pub Vec<u8>);

/// A node that lists one directory, a stat per entry.
#[derive(Debug, PartialEq, Eq)]
pub struct Scandir(pub Dir);

/// A node that reads a file and fingerprints its contents.
#[derive(Debug, PartialEq, Eq)]
pub struct DigestFile(pub File);

/// A node that evaluates one user rule for a subject.
#[derive(Debug, PartialEq, Eq)]
pub struct Task {
    pub subject: Key,
    pub product: TypeId,
    pub variants: Variants,
    pub task: TaskDef,
    pub entry: EntryId,
}

/// Mathematical view of a `Task` node.
pub struct TaskNodeV {
    pub subject: Key,
    pub product: TypeId,
    pub variants: Seq<(Seq<char>, Seq<char>)>,
    pub task: TaskDefV,
    pub entry: EntryId,
}

impl DeepView for Task {
    type V = TaskNodeV;

    open spec fn deep_view(&self) -> TaskNodeV {
        TaskNodeV {
            subject: self.subject,
            product: self.product,
            variants: self.variants.deep_view(),
            task: self.task.deep_view(),
            entry: self.entry,
        }
    }
}

/// The key of one memoized node: one variant per node kind.
#[derive(Debug, PartialEq, Eq)]
pub enum NodeKey {
    DigestFile(DigestFile),
    ExecuteProcess(ExecuteProcess),
    ReadLink(ReadLink),
    Scandir(Scandir),
    Select(Select),
    Snapshot(Snapshot),
    Task(Task),
}

/// Mathematical view of a `NodeKey`.
pub enum NodeKeyV {
    DigestFile(Seq<u8>),
    ExecuteProcess(ExecuteProcessRequestV),
    ReadLink(Seq<u8>),
    Scandir(Seq<u8>),
    Select(SelectNodeV),
    Snapshot(PathGlobsV),
    Task(TaskNodeV),
}

/// Mathematical view of a `NodeKey`.
pub open spec fn node_key_view(k: NodeKey) -> NodeKeyV {
    match k {
        NodeKey::DigestFile(f) => NodeKeyV::DigestFile(f.0.0@),
        NodeKey::ExecuteProcess(p) => NodeKeyV::ExecuteProcess(p.deep_view()),
        NodeKey::ReadLink(l) => NodeKeyV::ReadLink(l.0.0@),
        NodeKey::Scandir(d) => NodeKeyV::Scandir(d.0.0@),
        NodeKey::Select(s) => NodeKeyV::Select(s.deep_view()),
        NodeKey::Snapshot(s) => NodeKeyV::Snapshot(s.deep_view()),
        NodeKey::Task(t) => NodeKeyV::Task(t.deep_view()),
    }
}

impl DeepView for NodeKey {
    type V = NodeKeyV;

    open spec fn deep_view(&self) -> NodeKeyV {
        node_key_view(*self)
    }
}

/// Compares two select nodes; true exactly when their views are equal.
fn select_node_eq(a: &Select, b: &Select) -> (r: bool)
    ensures
        r == (a.deep_view() == b.deep_view()),
{
    a.subject == b.subject && variants_eq(&a.variants, &b.variants)
        && selector_eq(&a.selector, &b.selector) && entry_ids_eq(&a.entries, &b.entries)
}

fn entry_ids_eq(a: &Vec<EntryId>, b: &Vec<EntryId>) -> (r: bool)
    ensures
        r == (a@ == b@),
{
    if a.len() != b.len() {
        return false;
    }
    let mut i: usize = 0;
    while i < a.len()
        invariant
            i <= a.len(),
            a@.len() == b@.len(),
            forall|j: int| 0 <= j < i ==> a@[j] == b@[j],
        decreases a.len() - i,
    {
        if a[i] != b[i] {
            return false;
        }
        i = i + 1;
    }
    proof {
        assert(a@ =~= b@);
    }
    true
}

/// Compares two task nodes; true exactly when their views are equal.
fn task_node_eq(a: &Task, b: &Task) -> (r: bool)
    ensures
        r == (a.deep_view() == b.deep_view()),
{
    a.subject == b.subject && a.product == b.product && a.entry == b.entry
        && variants_eq(&a.variants, &b.variants) && task_def_eq(&a.task, &b.task)
}

/// Compares two node keys; true exactly when their views are equal.
pub fn node_key_eq(a: &NodeKey, b: &NodeKey) -> (r: bool)
    ensures
        r == (node_key_view(*a) == node_key_view(*b)),
{
    match (a, b) {
        (NodeKey::DigestFile(x), NodeKey::DigestFile(y)) => bytes_eq(&x.0.0, &y.0.0),
        (NodeKey::ExecuteProcess(x), NodeKey::ExecuteProcess(y)) => request_eq(&x.0, &y.0),
        (NodeKey::ReadLink(x), NodeKey::ReadLink(y)) => bytes_eq(&x.0.0, &y.0.0),
        (NodeKey::Scandir(x), NodeKey::Scandir(y)) => bytes_eq(&x.0.0, &y.0.0),
        (NodeKey::Select(x), NodeKey::Select(y)) => select_node_eq(x, y),
        (NodeKey::Snapshot(x), NodeKey::Snapshot(y)) => path_globs_eq(&x.0, &y.0),
        (NodeKey::Task(x), NodeKey::Task(y)) => task_node_eq(x, y),
        _ => false,
    }
}

fn select_node_clone(s: &Select) -> (r: Select)
    ensures
        r.deep_view() == s.deep_view(),
{
    Select {
        subject: s.subject,
        variants: variants_clone(&s.variants),
        selector: selector_clone(&s.selector),
        entries: crate::rules::entry_ids_copy(&s.entries),
    }
}

fn task_node_clone(t: &Task) -> (r: Task)
    ensures
        r.deep_view() == t.deep_view(),
{
    Task {
        subject: t.subject,
        product: t.product,
        variants: variants_clone(&t.variants),
        task: task_def_clone(&t.task),
        entry: t.entry,
    }
}

/// Copies a node key; the copy has the same mathematical view.
pub fn node_key_clone(k: &NodeKey) -> (r: NodeKey)
    ensures
        node_key_view(r) == node_key_view(*k),
{
    match k {
        NodeKey::DigestFile(f) => NodeKey::DigestFile(DigestFile(File(bytes_clone(&f.0.0)))),
        NodeKey::ExecuteProcess(p) => NodeKey::ExecuteProcess(ExecuteProcess(request_clone(&p.0))),
        NodeKey::ReadLink(l) => NodeKey::ReadLink(ReadLink(Link(bytes_clone(&l.0.0)))),
        NodeKey::Scandir(d) => NodeKey::Scandir(Scandir(Dir(bytes_clone(&d.0.0)))),
        NodeKey::Select(s) => NodeKey::Select(select_node_clone(s)),
        NodeKey::Snapshot(s) => NodeKey::Snapshot(Snapshot(path_globs_clone(&s.0))),
        NodeKey::Task(t) => NodeKey::Task(task_node_clone(t)),
    }
}

impl NodeKey {
    /// The filesystem path this node watches, if it is a filesystem
    /// operation. Listed exhaustively so that a new node kind must decide
    /// whether it belongs here.
    pub fn fs_subject(&self) -> (r: Option<&Vec<u8>>)
        ensures
            match r {
                Some(p) => match node_key_view(*self) {
                    NodeKeyV::DigestFile(q) => p@ == q,
                    NodeKeyV::ReadLink(q) => p@ == q,
                    NodeKeyV::Scandir(q) => p@ == q,
                    _ => false,
                },
                None => !(node_key_view(*self) is DigestFile
                    || node_key_view(*self) is ReadLink || node_key_view(*self) is Scandir),
            },
    {
        match self {
            NodeKey::DigestFile(s) => Some(&s.0.0),
            NodeKey::ReadLink(s) => Some(&s.0.0),
            NodeKey::Scandir(s) => Some(&s.0.0),
            NodeKey::ExecuteProcess(_) | NodeKey::Select(_) | NodeKey::Snapshot(_)
                | NodeKey::Task(_) => None,
        }
    }
}

/// The result of one memoized node: one variant per result type.
#[derive(Debug, PartialEq, Eq)]
pub enum NodeResult {
    Digest(Digest),
    DirectoryListing(DirectoryListing),
    LinkDest(LinkDest),
    ProcessResult(ProcessResult),
    Snapshot(SnapshotData),
    Value(Value),
}

/// Mathematical view of a `NodeResult`.
pub enum NodeResultV {
    Digest(DigestV),
    DirectoryListing(Seq<StatV>),
    LinkDest(Seq<u8>),
    ProcessResult(FallibleExecuteProcessResultV),
    Snapshot(SnapshotDataV),
    Value(ValueV),
}

/// Mathematical view of a `NodeResult`.
pub open spec fn node_result_view(r: NodeResult) -> NodeResultV {
    match r {
        NodeResult::Digest(d) => NodeResultV::Digest(d.deep_view()),
        NodeResult::DirectoryListing(l) => NodeResultV::DirectoryListing(l.deep_view()),
        NodeResult::LinkDest(l) => NodeResultV::LinkDest(l.0@),
        NodeResult::ProcessResult(p) => NodeResultV::ProcessResult(p.deep_view()),
        NodeResult::Snapshot(s) => NodeResultV::Snapshot(s.deep_view()),
        NodeResult::Value(v) => NodeResultV::Value(value_view(v)),
    }
}

impl DeepView for NodeResult {
    type V = NodeResultV;

    open spec fn deep_view(&self) -> NodeResultV {
        node_result_view(*self)
    }
}

/// Copies a node result; the copy has the same mathematical view.
pub fn node_result_clone(r: &NodeResult) -> (res: NodeResult)
    ensures
        node_result_view(res) == node_result_view(*r),
{
    match r {
        NodeResult::Digest(d) => NodeResult::Digest(d.clone()),
        NodeResult::DirectoryListing(l) => NodeResult::DirectoryListing(l.clone()),
        NodeResult::LinkDest(l) => NodeResult::LinkDest(LinkDest(bytes_clone(&l.0))),
        NodeResult::ProcessResult(p) => NodeResult::ProcessResult(p.clone()),
        NodeResult::Snapshot(s) => NodeResult::Snapshot(s.clone()),
        NodeResult::Value(v) => NodeResult::Value(value_clone(v)),
    }
}

impl NodeResult {
    /// The digest a result carries, if it is a digest result.
    pub fn digest(self) -> (r: Option<Digest>)
        ensures
            match r {
                Some(d) => node_result_view(self) == NodeResultV::Digest(d.deep_view()),
                None => !(node_result_view(self) is Digest),
            },
    {
        match self {
            NodeResult::Digest(d) => Some(d),
            NodeResult::DirectoryListing(_) | NodeResult::LinkDest(_)
                | NodeResult::ProcessResult(_) | NodeResult::Snapshot(_)
                | NodeResult::Value(_) => None,
        }
    }

    /// Downcast to a `Value`; fails only on a graph-wiring bug.
    pub fn into_value(self) -> (r: Result<Value, ()>)
        ensures
            match r {
                Ok(v) => node_result_view(self) == NodeResultV::Value(value_view(v)),
                Err(_) => !(node_result_view(self) is Value),
            },
    {
        match self {
            NodeResult::Value(v) => Ok(v),
            _ => Err(()),
        }
    }

    /// Downcast to a snapshot; fails only on a graph-wiring bug.
    pub fn into_snapshot(self) -> (r: Result<SnapshotData, ()>)
        ensures
            match r {
                Ok(s) => node_result_view(self) == NodeResultV::Snapshot(s.deep_view()),
                Err(_) => !(node_result_view(self) is Snapshot),
            },
    {
        match self {
            NodeResult::Snapshot(s) => Ok(s),
            _ => Err(()),
        }
    }

    /// Downcast to a digest; fails only on a graph-wiring bug.
    pub fn into_digest(self) -> (r: Result<Digest, ()>)
        ensures
            match r {
                Ok(d) => node_result_view(self) == NodeResultV::Digest(d.deep_view()),
                Err(_) => !(node_result_view(self) is Digest),
            },
    {
        match self {
            NodeResult::Digest(d) => Ok(d),
            _ => Err(()),
        }
    }

    /// Downcast to a process result; fails only on a graph-wiring bug.
    pub fn into_process_result(self) -> (r: Result<ProcessResult, ()>)
        ensures
            match r {
                Ok(p) => node_result_view(self) == NodeResultV::ProcessResult(p.deep_view()),
                Err(_) => !(node_result_view(self) is ProcessResult),
            },
    {
        match self {
            NodeResult::ProcessResult(p) => Ok(p),
            _ => Err(()),
        }
    }

    /// Downcast to a link destination; fails only on a graph-wiring bug.
    pub fn into_link_dest(self) -> (r: Result<LinkDest, ()>)
        ensures
            match r {
                Ok(l) => node_result_view(self) == NodeResultV::LinkDest(l.0@),
                Err(_) => !(node_result_view(self) is LinkDest),
            },
    {
        match self {
            NodeResult::LinkDest(l) => Ok(l),
            _ => Err(()),
        }
    }

    /// Downcast to a directory listing; fails only on a graph-wiring bug.
    pub fn into_directory_listing(self) -> (r: Result<DirectoryListing, ()>)
        ensures
            match r {
                Ok(l) => node_result_view(self) == NodeResultV::DirectoryListing(l.deep_view()),
                Err(_) => !(node_result_view(self) is DirectoryListing),
            },
    {
        match self {
            NodeResult::DirectoryListing(l) => Ok(l),
            _ => Err(()),
        }
    }
}

/// Fallible conversion out of the result union, for callers that retrieve
/// a typed result from the memo store.
pub trait TryFrom<T>: Sized {
    type Err;

    fn try_from(t: T) -> Result<Self, Self::Err>;
}

/// The companion of `TryFrom`, implemented for free alongside it.
pub trait TryInto<T>: Sized {
    type Err;

    fn try_into(self) -> Result<T, Self::Err>;
}

impl<T, U: TryFrom<T>> TryInto<U> for T {
    type Err = U::Err;

    fn try_into(self) -> Result<U, U::Err> {
        U::try_from(self)
    }
}

impl TryFrom<NodeResult> for NodeResult {
    type Err = ();

    fn try_from(t: NodeResult) -> Result<Self, ()> {
        Ok(t)
    }
}

impl TryFrom<NodeResult> for Value {
    type Err = ();

    fn try_from(t: NodeResult) -> Result<Self, ()> {
        t.into_value()
    }
}

impl TryFrom<NodeResult> for SnapshotData {
    type Err = ();

    fn try_from(t: NodeResult) -> Result<Self, ()> {
        t.into_snapshot()
    }
}

impl TryFrom<NodeResult> for Digest {
    type Err = ();

    fn try_from(t: NodeResult) -> Result<Self, ()> {
        t.into_digest()
    }
}

impl TryFrom<NodeResult> for ProcessResult {
    type Err = ();

    fn try_from(t: NodeResult) -> Result<Self, ()> {
        t.into_process_result()
    }
}

impl TryFrom<NodeResult> for LinkDest {
    type Err = ();

    fn try_from(t: NodeResult) -> Result<Self, ()> {
        t.into_link_dest()
    }
}

impl TryFrom<NodeResult> for DirectoryListing {
    type Err = ();

    fn try_from(t: NodeResult) -> Result<Self, ()> {
        t.into_directory_listing()
    }
}

} // verus!
