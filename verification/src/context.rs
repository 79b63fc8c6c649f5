//! The evaluation context: the read-only environment every node sees, and
//! the graph store state that memoizes node results.
//!
//! No global state: everything shared arrives through a `Core` value
//! carried down every call — the rule graph, the type registry, the
//! interning table, and the observable answers of the VFS, the content
//! store and the process runner. The `Graph` holds the memo table, the
//! in-flight set used for cycle detection, and the log of work actually
//! performed.

use vstd::prelude::*;

use crate::failure::{failure_view, Failure, FailureV};
use crate::nodes::{node_key_eq, node_key_view, node_result_clone, node_result_view, NodeKey,
    NodeKeyV, NodeResult, NodeResultV};
use crate::process::{request_eq, ExecuteProcessRequest, FallibleExecuteProcessResult};
use crate::rules::{FuncDef, RuleGraph};
use crate::snapshot::{path_globs_eq, PathGlobs};
use crate::values::{value_view, Key, TypeId, Types, Value, ValueV};
use crate::vfs::{wf_digest, Digest, FsModel, PathStat};

verus! {

/// One glob expansion the VFS can perform: the request, the path stats it
/// yields, and the digest the content store assigns the resulting tree.
#[derive(Debug, PartialEq, Eq)]
pub struct GlobExpansion {
    pub globs: PathGlobs,
    pub path_stats: Vec<PathStat>,
    pub digest: Digest,
}

/// One directory tree the content store holds: its digest and the
/// materialized file contents, path by path.
#[derive(Debug, PartialEq, Eq)]
pub struct StoredDir {
    pub digest: Digest,
    pub files: Vec<(Vec<u8>, Vec<u8>)>,
}

/// One answer of the process runner: the request it answers and the result
/// it reports (a finished process, or a runner error).
#[derive(Debug, PartialEq, Eq)]
pub struct ProcessRun {
    pub request: ExecuteProcessRequest,
    pub result: Result<FallibleExecuteProcessResult, String>,
}

/// The read-only environment: the rule graph, the type registry, the host
/// interning table and function table, and the observable answers of the
/// external collaborators.
#[derive(Debug, PartialEq, Eq)]
pub struct Core {
    pub types: Types,
    pub rule_graph: RuleGraph,
    /// Per product type, a singleton value served without dispatch.
    pub singletons: Vec<(TypeId, Value)>,
    /// The host's task functions, by function id.
    pub funcs: Vec<FuncDef>,
    /// The host's interning table: a key's id indexes its value.
    pub key_table: Vec<Value>,
    pub vfs: FsModel,
    pub glob_expansions: Vec<GlobExpansion>,
    pub store_dirs: Vec<StoredDir>,
    pub process_runs: Vec<ProcessRun>,
}

/// The value an interned key stands for.
pub open spec fn spec_val_for(c: Core, k: Key) -> Option<ValueV> {
    if k.id < c.key_table@.len() {
        Some(value_view(c.key_table@[k.id as int]))
    } else {
        None
    }
}

/// The singleton registered for a product type, if any.
pub open spec fn spec_singleton_for(s: Seq<(TypeId, Value)>, product: TypeId) -> Option<ValueV>
    decreases s.len(),
{
    if s.len() == 0 {
        None
    } else if s[0].0 == product {
        Some(value_view(s[0].1))
    } else {
        spec_singleton_for(s.drop_first(), product)
    }
}

/// The expansion recorded for a path-globs request, if any.
pub open spec fn spec_expansion_for(
    s: Seq<GlobExpansion>,
    g: crate::snapshot::PathGlobsV,
) -> Option<GlobExpansion>
    decreases s.len(),
{
    if s.len() == 0 {
        None
    } else if s[0].globs.deep_view() == g {
        Some(s[0])
    } else {
        spec_expansion_for(s.drop_first(), g)
    }
}

/// The stored directory recorded for a digest, if any.
pub open spec fn spec_stored_dir_for(s: Seq<StoredDir>, d: crate::vfs::DigestV) -> Option<StoredDir>
    decreases s.len(),
{
    if s.len() == 0 {
        None
    } else if s[0].digest.deep_view() == d {
        Some(s[0])
    } else {
        spec_stored_dir_for(s.drop_first(), d)
    }
}

/// The runner answer recorded for a request, if any.
pub open spec fn spec_process_run_for(
    s: Seq<ProcessRun>,
    q: crate::process::ExecuteProcessRequestV,
) -> Option<ProcessRun>
    decreases s.len(),
{
    if s.len() == 0 {
        None
    } else if s[0].request.deep_view() == q {
        Some(s[0])
    } else {
        spec_process_run_for(s.drop_first(), q)
    }
}

/// What a leaf node computes: a pure function of the key and the
/// environment. `None` for the recursive kinds (`Select`, `Snapshot`,
/// `Task`), whose outcome involves further nodes.
pub open spec fn spec_leaf_outcome(c: Core, k: NodeKeyV) -> Option<
    Result<NodeResultV, FailureV>,
> {
    match k {
        NodeKeyV::DigestFile(p) => Some(
            match crate::vfs::spec_assoc_bytes(c.vfs.files.deep_view(), p) {
                Some(rec) => Ok(NodeResultV::Digest(rec.digest)),
                None => Err(crate::failure::spec_throw(
                    "Error reading file "@ + crate::digest::spec_hex_encode(p),
                )),
            },
        ),
        NodeKeyV::ReadLink(p) => Some(
            match crate::vfs::spec_assoc_bytes(c.vfs.links.deep_view(), p) {
                Some(dest) => Ok(NodeResultV::LinkDest(dest)),
                None => Err(crate::failure::spec_throw(
                    "Failed to read_link for "@ + crate::digest::spec_hex_encode(p),
                )),
            },
        ),
        NodeKeyV::Scandir(p) => Some(
            match crate::vfs::spec_assoc_bytes(c.vfs.dirs.deep_view(), p) {
                Some(listing) => Ok(NodeResultV::DirectoryListing(listing)),
                None => Err(crate::failure::spec_throw(
                    "Failed to scandir for "@ + crate::digest::spec_hex_encode(p),
                )),
            },
        ),
        NodeKeyV::ExecuteProcess(q) => Some(
            match spec_process_run_for(c.process_runs@, q) {
                Some(run) => match run.result {
                    Ok(res) => Ok(NodeResultV::ProcessResult(res.deep_view())),
                    Err(e) => Err(crate::failure::spec_throw(
                        "Failed to execute process: "@ + e@,
                    )),
                },
                None => Err(crate::failure::spec_throw(
                    "Failed to execute process: the runner gave no answer"@,
                )),
            },
        ),
        NodeKeyV::Select(_) => None,
        NodeKeyV::Snapshot(_) => None,
        NodeKeyV::Task(_) => None,
    }
}

/// A successfully captured snapshot is the environment's expansion of its
/// globs: the digest and the traversal-ordered path stats recorded there.
pub open spec fn spec_snapshot_ok(
    c: Core,
    gv: crate::snapshot::PathGlobsV,
    d: crate::snapshot::SnapshotDataV,
) -> bool {
    spec_expansion_for(c.glob_expansions@, gv) matches Some(exp)
        && d.digest == exp.digest.deep_view()
        && d.path_stats == exp.path_stats.deep_view()
}

/// Whether a captured snapshot is the environment's expansion of some
/// path-globs request.
pub open spec fn spec_some_expansion(c: Core, d: crate::snapshot::SnapshotDataV) -> bool {
    exists|gv: crate::snapshot::PathGlobsV| #[trigger] spec_snapshot_ok(c, gv, d)
}

/// A sound memo: every memoized leaf outcome is exactly what the leaf
/// computes from the environment, and every memoized snapshot success is
/// the environment's expansion of its globs. Together with `get`'s
/// contract this makes those results functions of key and environment,
/// cached or not.
pub open spec fn sound_memo(
    c: Core,
    m: Seq<(NodeKeyV, Result<NodeResultV, FailureV>)>,
) -> bool {
    (forall|i: int| 0 <= i < m.len()
        ==> (spec_leaf_outcome(c, #[trigger] m[i].0) matches Some(o) ==> m[i].1 == o))
    && (forall|i: int| 0 <= i < m.len()
        ==> ((#[trigger] m[i].0) matches NodeKeyV::Snapshot(gv)
            ==> (m[i].1 matches Ok(res)
                ==> (res matches NodeResultV::Snapshot(d) && spec_snapshot_ok(c, gv, d)))))
    && (forall|i: int| 0 <= i < m.len()
        ==> ((#[trigger] m[i].0) matches NodeKeyV::Task(tv)
            ==> (crate::engine::spec_task_view_deps(c, tv) matches Some(ds)
                ==> (crate::engine::spec_invoke(c, tv.task.func, ds) matches Some(o)
                    ==> (m[i].1 matches Ok(res)
                        ==> (o matches Ok(v) && res == NodeResultV::Value(v)))))))
}

/// A well-formed environment: every digest the host hands the engine is
/// well formed, so that packing it back into a host value cannot fail.
pub open spec fn spec_core_wf(c: Core) -> bool {
    (forall|i: int| 0 <= i < c.glob_expansions@.len()
        ==> wf_digest(#[trigger] c.glob_expansions@[i].digest.deep_view()))
    && (forall|i: int| 0 <= i < c.process_runs@.len()
        ==> (#[trigger] c.process_runs@[i].result matches Ok(res)
            ==> wf_digest(res.output_directory.deep_view())))
}

impl Core {
    /// The value an interned key stands for.
    pub fn val_for(&self, k: Key) -> (r: Option<&Value>)
        ensures
            match r {
                Some(v) => spec_val_for(*self, k) == Some(value_view(*v)),
                None => spec_val_for(*self, k) is None,
            },
    {
        if k.id < self.key_table.len() as u64 {
            Some(&self.key_table[k.id as usize])
        } else {
            None
        }
    }

    /// The singleton registered for a product type, if any.
    #[verifier::loop_isolation(false)]
    pub fn singleton_for(&self, product: TypeId) -> (r: Option<&Value>)
        ensures
            match r {
                Some(v) => spec_singleton_for(self.singletons@, product) == Some(value_view(*v)),
                None => spec_singleton_for(self.singletons@, product) is None,
            },
    {
        let ghost sv = self.singletons@;
        let mut i: usize = 0;
        proof {
            assert(sv.skip(0) =~= sv);
        }
        while i < self.singletons.len()
            invariant
                i <= self.singletons.len(),
                spec_singleton_for(sv, product) == spec_singleton_for(sv.skip(i as int), product),
            decreases self.singletons.len() - i,
        {
            proof {
                assert(sv.skip(i as int)[0] == sv[i as int]);
                assert(sv.skip(i as int).drop_first() =~= sv.skip(i as int + 1));
            }
            if self.singletons[i].0 == product {
                return Some(&self.singletons[i].1);
            }
            i = i + 1;
        }
        proof {
            assert(sv.skip(sv.len() as int).len() == 0);
        }
        None
    }

    /// The task function behind an id, if the id is in range.
    pub fn func_for(&self, id: u64) -> (r: Option<&FuncDef>)
        ensures
            match r {
                Some(f) => id < self.funcs@.len() && *f == self.funcs@[id as int],
                None => id >= self.funcs@.len(),
            },
    {
        if id < self.funcs.len() as u64 {
            Some(&self.funcs[id as usize])
        } else {
            None
        }
    }

    /// The glob expansion recorded for a request, if any.
    #[verifier::loop_isolation(false)]
    pub fn expansion_for(&self, globs: &PathGlobs) -> (r: Option<&GlobExpansion>)
        ensures
            match r {
                Some(e) => spec_expansion_for(self.glob_expansions@, globs.deep_view())
                    == Some(*e),
                None => spec_expansion_for(self.glob_expansions@, globs.deep_view()) is None,
            },
    {
        let ghost sv = self.glob_expansions@;
        let ghost gv = globs.deep_view();
        let mut i: usize = 0;
        proof {
            assert(sv.skip(0) =~= sv);
        }
        while i < self.glob_expansions.len()
            invariant
                i <= self.glob_expansions.len(),
                spec_expansion_for(sv, gv) == spec_expansion_for(sv.skip(i as int), gv),
            decreases self.glob_expansions.len() - i,
        {
            proof {
                assert(sv.skip(i as int)[0] == sv[i as int]);
                assert(sv.skip(i as int).drop_first() =~= sv.skip(i as int + 1));
            }
            if path_globs_eq(&self.glob_expansions[i].globs, globs) {
                return Some(&self.glob_expansions[i]);
            }
            i = i + 1;
        }
        proof {
            assert(sv.skip(sv.len() as int).len() == 0);
        }
        None
    }

    /// The stored directory recorded for a digest, if any.
    #[verifier::loop_isolation(false)]
    pub fn stored_dir_for(&self, d: &Digest) -> (r: Option<&StoredDir>)
        ensures
            match r {
                Some(e) => spec_stored_dir_for(self.store_dirs@, d.deep_view()) == Some(*e),
                None => spec_stored_dir_for(self.store_dirs@, d.deep_view()) is None,
            },
    {
        let ghost sv = self.store_dirs@;
        let ghost dv = d.deep_view();
        let mut i: usize = 0;
        proof {
            assert(sv.skip(0) =~= sv);
        }
        while i < self.store_dirs.len()
            invariant
                i <= self.store_dirs.len(),
                spec_stored_dir_for(sv, dv) == spec_stored_dir_for(sv.skip(i as int), dv),
            decreases self.store_dirs.len() - i,
        {
            proof {
                assert(sv.skip(i as int)[0] == sv[i as int]);
                assert(sv.skip(i as int).drop_first() =~= sv.skip(i as int + 1));
            }
            if crate::process::digest_eq(&self.store_dirs[i].digest, d) {
                return Some(&self.store_dirs[i]);
            }
            i = i + 1;
        }
        proof {
            assert(sv.skip(sv.len() as int).len() == 0);
        }
        None
    }

    /// The runner answer recorded for a request, if any.
    #[verifier::loop_isolation(false)]
    pub fn process_run_for(&self, q: &ExecuteProcessRequest) -> (r: Option<&ProcessRun>)
        ensures
            match r {
                Some(e) => spec_process_run_for(self.process_runs@, q.deep_view())
                    == Some(*e),
                None => spec_process_run_for(self.process_runs@, q.deep_view()) is None,
            },
    {
        let ghost sv = self.process_runs@;
        let ghost qv = q.deep_view();
        let mut i: usize = 0;
        proof {
            assert(sv.skip(0) =~= sv);
        }
        while i < self.process_runs.len()
            invariant
                i <= self.process_runs.len(),
                spec_process_run_for(sv, qv) == spec_process_run_for(sv.skip(i as int), qv),
            decreases self.process_runs.len() - i,
        {
            proof {
                assert(sv.skip(i as int)[0] == sv[i as int]);
                assert(sv.skip(i as int).drop_first() =~= sv.skip(i as int + 1));
            }
            if request_eq(&self.process_runs[i].request, q) {
                return Some(&self.process_runs[i]);
            }
            i = i + 1;
        }
        proof {
            assert(sv.skip(sv.len() as int).len() == 0);
        }
        None
    }
}

// --- the graph store state ---

/// Mathematical view of one memoized outcome.
pub open spec fn node_outcome_view(r: Result<NodeResult, Failure>) -> Result<
    NodeResultV,
    FailureV,
> {
    match r {
        Ok(v) => Ok(node_result_view(v)),
        Err(f) => Err(failure_view(f)),
    }
}

/// Copies a node outcome; the copy has the same mathematical view.
pub fn node_outcome_clone(r: &Result<NodeResult, Failure>) -> (res: Result<NodeResult, Failure>)
    ensures
        node_outcome_view(res) == node_outcome_view(*r),
{
    match r {
        Ok(v) => Ok(node_result_clone(v)),
        Err(f) => Err(crate::failure::failure_clone(f)),
    }
}

/// The graph store state: the memo table, the in-flight keys (for cycle
/// detection), and the log of node work actually performed, in order.
pub struct Graph {
    pub memo: Vec<(NodeKey, Result<NodeResult, Failure>)>,
    pub running: Vec<NodeKey>,
    pub log: Vec<NodeKey>,
}

/// Mathematical view of the graph store state.
pub struct GraphV {
    pub memo: Seq<(NodeKeyV, Result<NodeResultV, FailureV>)>,
    pub running: Seq<NodeKeyV>,
    pub log: Seq<NodeKeyV>,
}

impl DeepView for Graph {
    type V = GraphV;

    open spec fn deep_view(&self) -> GraphV {
        GraphV {
            memo: Seq::new(self.memo@.len(), |i: int| (
                node_key_view(self.memo@[i].0),
                node_outcome_view(self.memo@[i].1),
            )),
            running: Seq::new(self.running@.len(), |i: int| node_key_view(self.running@[i])),
            log: Seq::new(self.log@.len(), |i: int| node_key_view(self.log@[i])),
        }
    }
}

/// Whether a key sequence contains a key.
pub open spec fn in_keys(s: Seq<NodeKeyV>, k: NodeKeyV) -> bool {
    exists|i: int| 0 <= i < s.len() && s[i] == k
}

/// Whether the memo has an entry for a key.
pub open spec fn memo_has(m: Seq<(NodeKeyV, Result<NodeResultV, FailureV>)>, k: NodeKeyV) -> bool {
    exists|i: int| 0 <= i < m.len() && m[i].0 == k
}

/// The memoized outcome of a key (meaningful when the memo has it and its
/// keys are distinct).
pub open spec fn memo_lookup(
    m: Seq<(NodeKeyV, Result<NodeResultV, FailureV>)>,
    k: NodeKeyV,
) -> Result<NodeResultV, FailureV> {
    m[choose|i: int| 0 <= i < m.len() && m[i].0 == k].1
}

/// A well-formed graph store: memo keys distinct, in-flight keys distinct
/// and never memoized, and every logged key accounted for in the memo or
/// in flight.
pub open spec fn wf_graph(g: GraphV) -> bool {
    (forall|i: int, j: int| #![all_triggers] 0 <= i < j < g.memo.len()
        ==> g.memo[i].0 != g.memo[j].0)
    && (forall|i: int, j: int| #![all_triggers] 0 <= i < j < g.running.len()
        ==> g.running[i] != g.running[j])
    && (forall|i: int| 0 <= i < g.memo.len() ==> !in_keys(g.running, #[trigger] g.memo[i].0))
    && (forall|i: int, j: int| #![all_triggers] 0 <= i < j < g.log.len()
        ==> g.log[i] != g.log[j])
    && (forall|i: int| 0 <= i < g.log.len()
        ==> memo_has(g.memo, #[trigger] g.log[i]) || in_keys(g.running, g.log[i]))
}

/// How one evaluation step may change the store: the in-flight set is
/// restored, the log only grows at the end, and every memoized outcome is
/// kept unchanged.
pub open spec fn evolves(a: GraphV, b: GraphV) -> bool {
    b.running == a.running
    && a.log.is_prefix_of(b.log)
    && (forall|k: NodeKeyV| #[trigger] memo_has(a.memo, k)
        ==> memo_has(b.memo, k) && memo_lookup(b.memo, k) == memo_lookup(a.memo, k))
}

/// `evolves` is reflexive.
pub proof fn lemma_evolves_refl(a: GraphV)
    ensures
        evolves(a, a),
{
    assert(a.log.is_prefix_of(a.log)) by {
        assert(a.log.subrange(0, a.log.len() as int) =~= a.log);
    }
}

/// `evolves` composes.
pub proof fn lemma_evolves_trans(a: GraphV, b: GraphV, c: GraphV)
    requires
        evolves(a, b),
        evolves(b, c),
    ensures
        evolves(a, c),
{
    assert(a.log.is_prefix_of(c.log)) by {
        assert(b.log.subrange(0, a.log.len() as int)
            =~= b.log.subrange(0, b.log.len() as int).subrange(0, a.log.len() as int));
        assert(c.log.subrange(0, a.log.len() as int)
            =~= c.log.subrange(0, b.log.len() as int).subrange(0, a.log.len() as int));
    }
}

impl Graph {
    /// An empty store.
    pub fn new() -> (r: Graph)
        ensures
            r.deep_view().memo == Seq::<(NodeKeyV, Result<NodeResultV, FailureV>)>::empty(),
            r.deep_view().running == Seq::<NodeKeyV>::empty(),
            r.deep_view().log == Seq::<NodeKeyV>::empty(),
            wf_graph(r.deep_view()),
    {
        let r = Graph { memo: Vec::new(), running: Vec::new(), log: Vec::new() };
        proof {
            assert(r.deep_view().memo =~= Seq::<(NodeKeyV, Result<NodeResultV, FailureV>)>::empty());
            assert(r.deep_view().running =~= Seq::<NodeKeyV>::empty());
            assert(r.deep_view().log =~= Seq::<NodeKeyV>::empty());
        }
        r
    }

    /// The memoized outcome of a key, if the memo has one.
    #[verifier::loop_isolation(false)]
    pub fn lookup(&self, key: &NodeKey) -> (r: Option<&Result<NodeResult, Failure>>)
        requires
            wf_graph(self.deep_view()),
        ensures
            match r {
                Some(o) => memo_has(self.deep_view().memo, node_key_view(*key))
                    && node_outcome_view(*o)
                        == memo_lookup(self.deep_view().memo, node_key_view(*key)),
                None => !memo_has(self.deep_view().memo, node_key_view(*key)),
            },
    {
        let ghost mv = self.deep_view().memo;
        let ghost kv = node_key_view(*key);
        let mut i: usize = 0;
        while i < self.memo.len()
            invariant
                i <= self.memo.len(),
                mv.len() == self.memo@.len(),
                forall|j: int| 0 <= j < i ==> #[trigger] mv[j].0 != kv,
            decreases self.memo.len() - i,
        {
            if node_key_eq(&self.memo[i].0, key) {
                proof {
                    assert(mv[i as int].0 == kv);
                    let w = choose|n: int| 0 <= n < mv.len() && mv[n].0 == kv;
                    assert(w == i as int);
                }
                return Some(&self.memo[i].1);
            }
            i = i + 1;
        }
        None
    }

    /// Whether a key is currently in flight.
    #[verifier::loop_isolation(false)]
    pub fn running_contains(&self, key: &NodeKey) -> (r: bool)
        ensures
            r == in_keys(self.deep_view().running, node_key_view(*key)),
    {
        let ghost rv = self.deep_view().running;
        let ghost kv = node_key_view(*key);
        let mut i: usize = 0;
        while i < self.running.len()
            invariant
                i <= self.running.len(),
                rv.len() == self.running@.len(),
                forall|j: int| 0 <= j < i ==> #[trigger] rv[j] != kv,
            decreases self.running.len() - i,
        {
            if node_key_eq(&self.running[i], key) {
                proof {
                    assert(rv[i as int] == kv);
                }
                return true;
            }
            i = i + 1;
        }
        false
    }

    /// Whether a key has been logged as performed.
    #[verifier::loop_isolation(false)]
    pub fn log_contains(&self, key: &NodeKey) -> (r: bool)
        ensures
            r == in_keys(self.deep_view().log, node_key_view(*key)),
    {
        let ghost lv = self.deep_view().log;
        let ghost kv = node_key_view(*key);
        let mut i: usize = 0;
        while i < self.log.len()
            invariant
                i <= self.log.len(),
                lv.len() == self.log@.len(),
                forall|j: int| 0 <= j < i ==> #[trigger] lv[j] != kv,
            decreases self.log.len() - i,
        {
            if node_key_eq(&self.log[i], key) {
                proof {
                    assert(lv[i as int] == kv);
                }
                return true;
            }
            i = i + 1;
        }
        false
    }
}

} // verus!
